//! The workbook export: what each cell of a submission's row holds, and the totals per
//! student. Writing the workbook itself is left to the caller.
use vstd::prelude::*;

use crate::domain::{
    category_label, data_get, data_text, date_string, date_text, keys, lookup, status_label, text_of,
    AcademicYear, Attachment, Category, CategoryData, Instant, JsonValue, StudentDeclaration,
    Submission,
};
use crate::domain::SubmissionStatus;
use crate::text::{
    chars_of, i64_string, int_text, join, join_strings, lemma_lex_irrefl, lemma_lex_total,
    lemma_lex_trans, lex_compare, lex_lt, push_char, push_str, str_eq, trim, trimmed, is_ctrl,
    char_is_control,
};

verus! {

pub const COL_SEQUENCE: usize = 0;
pub const COL_SUBMISSION_NO: usize = 1;
pub const COL_STUDENT_NAME: usize = 2;
pub const COL_STUDENT_NO: usize = 3;
pub const COL_YEAR: usize = 4;
pub const COL_CATEGORY: usize = 5;
pub const COL_RESULT_NAME: usize = 6;
pub const COL_OBTAINED_DATE: usize = 7;
pub const COL_COMPETITION_TYPE: usize = 8;
pub const COL_CATALOG_NO: usize = 9;
pub const COL_LEVEL: usize = 10;
pub const COL_AWARD_LEVEL: usize = 11;
pub const COL_ACTUAL_AWARD: usize = 12;
pub const COL_ARTICLE_NATURE: usize = 13;
pub const COL_PLATFORM: usize = 14;
pub const COL_AUTHOR_ORDER: usize = 15;
pub const COL_PRACTICE_IDENTITY: usize = 16;
pub const COL_PATENT_TYPE: usize = 17;
pub const COL_PATENT_STATUS: usize = 18;
pub const COL_PATENT_RANK: usize = 19;
pub const COL_PATENT_NO: usize = 20;
pub const COL_CERTIFICATE_TYPE: usize = 21;
pub const COL_EXAM_SCORE: usize = 22;
pub const COL_COMPUTER_CATEGORY: usize = 23;
pub const COL_QUALIFICATION: usize = 24;
pub const COL_DETAIL: usize = 25;
pub const COL_REMARK: usize = 26;
pub const COL_ATTACHMENT_COUNT: usize = 27;
pub const COL_ATTACHMENTS: usize = 28;
pub const COL_REVIEW_STATUS: usize = 29;
pub const COL_REVIEW_NOTE: usize = 30;
pub const COL_APPROVED_SCORE: usize = 31;
pub const COL_CREATED_AT: usize = 32;
pub const COL_UPDATED_AT: usize = 33;

/// The number of columns of the detail sheet.
pub const DETAIL_COLUMNS: usize = 34;

/// One cell of an exported row. Numbers that are floating-point values in the workbook
/// are named here by what they are; the caller writes their values.
#[derive(Debug, Clone, PartialEq, Eq)]
pub enum ExportCell {
    Blank,
    Text(String),
    /// A whole number.
    Count(u64),
    /// The submission's approved score, rounded to cents.
    ApprovedScore,
    /// The number that the category answer under this key reads as, blank if none.
    ExamScore(String),
    /// A date written as `YYYY-MM-DD`.
    Date(String),
    /// An instant, written as date and time of day.
    Timestamp(Instant),
}

/// What a cell holds, as plain values.
pub enum CellView {
    Blank,
    Text(Seq<char>),
    Count(nat),
    ApprovedScore,
    ExamScore(Seq<char>),
    Date(Seq<char>),
    Timestamp(Instant),
}

impl ExportCell {
    pub open spec fn view(&self) -> CellView {
        match self {
            ExportCell::Blank => CellView::Blank,
            ExportCell::Text(t) => CellView::Text(t@),
            ExportCell::Count(n) => CellView::Count(*n as nat),
            ExportCell::ApprovedScore => CellView::ApprovedScore,
            ExportCell::ExamScore(k) => CellView::ExamScore(k@),
            ExportCell::Date(t) => CellView::Date(t@),
            ExportCell::Timestamp(i) => CellView::Timestamp(*i),
        }
    }
}

pub open spec fn cells_view(cells: Seq<ExportCell>) -> Seq<CellView> {
    cells.map_values(|c: ExportCell| c.view())
}

/// A text cell, blank for the empty text.
pub open spec fn text_cell(t: Seq<char>) -> CellView {
    if t.len() == 0 {
        CellView::Blank
    } else {
        CellView::Text(t)
    }
}

/// `Cell::from(&str)`: a text cell, blank for the empty text.
pub fn text_cell_of(t: &str) -> (r: ExportCell)
    ensures
        r.view() == text_cell(t@),
{
    if t.is_empty() {
        ExportCell::Blank
    } else {
        ExportCell::Text(t.to_owned())
    }
}

// ---------------------------------------------------------------------------
// Long texts
// ---------------------------------------------------------------------------

/// The most UTF-16 code units a workbook cell holds.
pub const CELL_TEXT_LIMIT: usize = 32767;

/// How many UTF-16 code units a character takes.
pub open spec fn utf16_units(c: char) -> nat {
    if (c as u32) >= 0x10000 {
        2
    } else {
        1
    }
}

/// The length of a text in UTF-16 code units.
pub open spec fn utf16_len(s: Seq<char>) -> nat
    decreases s.len(),
{
    if s.len() == 0 {
        0
    } else {
        utf16_len(s.drop_last()) + utf16_units(s.last())
    }
}

/// The longest start of `s` that fits in `budget` code units.
pub open spec fn prefix_within(s: Seq<char>, budget: int) -> Seq<char>
    decreases s.len(),
{
    if s.len() == 0 || utf16_units(s[0]) > budget {
        Seq::empty()
    } else {
        seq![s[0]] + prefix_within(s.drop_first(), budget - utf16_units(s[0]))
    }
}

/// The notice that ends a cut text, naming the page where the whole text is.
pub open spec fn truncation_notice(source: Seq<char>) -> Seq<char> {
    "\n[内容过长，已截断；完整内容见 "@ + source + "]"@
}

/// The text a cell holds for `value`: `None` when it fits; else its longest start that
/// leaves room for the notice, followed by the notice.
pub open spec fn bounded(value: Seq<char>, source: Seq<char>) -> Option<Seq<char>> {
    if utf16_len(value) <= CELL_TEXT_LIMIT {
        None
    } else {
        Some(prefix_within(value, CELL_TEXT_LIMIT - utf16_len(truncation_notice(source)))
            + truncation_notice(source))
    }
}

proof fn lemma_utf16_push(s: Seq<char>, c: char)
    ensures
        utf16_len(s.push(c)) == utf16_len(s) + utf16_units(c),
{
    assert(s.push(c).drop_last() =~= s);
}

fn char_units(c: char) -> (r: usize)
    ensures
        r == utf16_units(c),
{
    if (c as u32) >= 0x10000 {
        2
    } else {
        1
    }
}

proof fn lemma_utf16_mono(s: Seq<char>, i: int, j: int)
    requires
        0 <= i <= j <= s.len(),
    ensures
        utf16_len(s.take(i)) <= utf16_len(s.take(j)),
    decreases j - i,
{
    if i < j {
        lemma_utf16_mono(s, i, j - 1);
        assert(s.take(j).drop_last() =~= s.take(j - 1));
    }
}

/// `encode_utf16().count()`, when it is at most `limit`; `None` when the text is longer.
fn utf16_count_within(s: &[char], limit: usize) -> (r: Option<usize>)
    requires
        limit <= CELL_TEXT_LIMIT,
    ensures
        r matches Some(n) ==> n == utf16_len(s@) && n <= limit,
        r is None ==> utf16_len(s@) > limit,
{
    let mut n: usize = 0;
    let mut i: usize = 0;
    while i < s.len()
        invariant
            i <= s@.len(),
            limit <= CELL_TEXT_LIMIT,
            n == utf16_len(s@.take(i as int)),
            n <= limit,
        decreases s@.len() - i,
    {
        proof {
            assert(s@.take(i + 1) =~= s@.take(i as int).push(s@[i as int]));
            lemma_utf16_push(s@.take(i as int), s@[i as int]);
        }
        n = n + char_units(s[i]);
        i = i + 1;
        if n > limit {
            proof {
                lemma_utf16_mono(s@, i as int, s@.len() as int);
                assert(s@.take(s@.len() as int) =~= s@);
            }
            return None;
        }
    }
    assert(s@.take(s@.len() as int) =~= s@);
    Some(n)
}

/// A text cut to fit a workbook cell. `None` means that it fits as it is; otherwise the
/// cut text ends with a notice naming `source`, where the whole text can be read.
pub fn bounded_text(value: &str, source: &str) -> (r: Option<String>)
    requires
        utf16_len(truncation_notice(source@)) <= CELL_TEXT_LIMIT,
    ensures
        opt_chars(r) == bounded(value@, source@),
{
    let cs = chars_of(value);
    if utf16_count_within(cs.as_slice(), CELL_TEXT_LIMIT).is_some() {
        return None;
    }
    let mut notice = String::new();
    push_str(&mut notice, "\n[内容过长，已截断；完整内容见 ");
    push_str(&mut notice, source);
    push_str(&mut notice, "]");
    assert(notice@ =~= truncation_notice(source@));
    let ncs = chars_of(notice.as_str());
    let notice_units = match utf16_count_within(ncs.as_slice(), CELL_TEXT_LIMIT) {
        Some(n) => n,
        None => CELL_TEXT_LIMIT,
    };
    let available = CELL_TEXT_LIMIT - notice_units;
    let mut prefix = String::new();
    let mut units: usize = 0;
    let mut i: usize = 0;
    assert(cs@.skip(0) =~= cs@);
    while i < cs.len() && units + char_units(cs[i]) <= available
        invariant
            i <= cs@.len(),
            cs@ == value@,
            units <= available,
            available <= CELL_TEXT_LIMIT,
            prefix@ + prefix_within(cs@.skip(i as int), available - units) == prefix_within(
                cs@,
                available as int,
            ),
        decreases cs@.len() - i,
    {
        let c = cs[i];
        let u = char_units(c);
        proof {
            let rest = cs@.skip(i as int);
            assert(rest[0] == c);
            assert(rest.drop_first() =~= cs@.skip(i + 1));
            assert(prefix_within(rest, available - units) == seq![c] + prefix_within(
                cs@.skip(i + 1),
                available - units - u,
            ));
            assert(prefix@ + (seq![c] + prefix_within(cs@.skip(i + 1), available - units - u))
                =~= prefix@.push(c) + prefix_within(cs@.skip(i + 1), available - units - u));
        }
        units = units + u;
        push_char(&mut prefix, c);
        i = i + 1;
    }
    proof {
        if i < cs@.len() {
            assert(cs@.skip(i as int)[0] == cs@[i as int]);
        } else {
            assert(cs@.skip(i as int) =~= Seq::<char>::empty());
        }
        assert(prefix_within(cs@.skip(i as int), available - units) =~= Seq::<char>::empty());
        assert(prefix@ + Seq::<char>::empty() =~= prefix@);
    }
    push_str(&mut prefix, notice.as_str());
    Some(prefix)
}

pub open spec fn opt_chars(v: Option<String>) -> Option<Seq<char>> {
    match v {
        Some(s) => Some(s@),
        None => None,
    }
}

// ---------------------------------------------------------------------------
// The category columns
// ---------------------------------------------------------------------------

/// The category answer under `k`.
pub open spec fn answer(d: CategoryData, k: Seq<char>) -> Option<JsonValue> {
    match d {
        CategoryData::Object(es) => lookup(es@, k),
        CategoryData::NotObject => None,
    }
}

/// The text of the category answer under `k`, empty when it is no text.
pub open spec fn answer_text(d: CategoryData, k: Seq<char>) -> Seq<char> {
    match text_of(answer(d, k)) {
        Some(t) => t,
        None => Seq::empty(),
    }
}

/// How a yes/no/uncertain answer reads in the workbook: 是, 否 or 不确定, else nothing.
pub open spec fn choice_text(v: Option<JsonValue>) -> Seq<char> {
    match v {
        Some(JsonValue::Bool(b)) => if b { "是"@ } else { "否"@ },
        Some(JsonValue::Str(t, _)) => if t@ == "yes"@ || t@ == "是"@ {
            "是"@
        } else if t@ == "no"@ || t@ == "否"@ {
            "否"@
        } else if t@ == "uncertain"@ || t@ == "不确定"@ {
            "不确定"@
        } else {
            Seq::empty()
        },
        _ => Seq::empty(),
    }
}

/// `lines` with `label：value` added, unless `value` is empty.
pub open spec fn supplemented(lines: Seq<Seq<char>>, label: Seq<char>, value: Seq<char>) -> Seq<Seq<char>> {
    if value.len() > 0 {
        lines.push(label + "："@ + value)
    } else {
        lines
    }
}

/// The column `col` holding the text of the answer under `k`.
pub open spec fn mapped(d: CategoryData, col: int, k: Seq<char>) -> (int, CellView) {
    (col, text_cell(answer_text(d, k)))
}

/// The actual award of a competition: the first non-blank of the current field and the
/// names older records used.
pub open spec fn actual_award_text(d: CategoryData) -> Seq<char> {
    if trim(answer_text(d, keys::OTHER_AWARD@)).len() > 0 {
        answer_text(d, keys::OTHER_AWARD@)
    } else if trim(answer_text(d, "award_detail"@)).len() > 0 {
        answer_text(d, "award_detail"@)
    } else if trim(answer_text(d, "actual_award_rank"@)).len() > 0 {
        answer_text(d, "actual_award_rank"@)
    } else {
        Seq::empty()
    }
}

/// The certificate type as the workbook names it.
pub open spec fn certificate_label(k: Seq<char>) -> Seq<char> {
    if k == "computer"@ || k == "计算机"@ {
        "计算机"@
    } else if k == "other"@ || k == "其他资格证书"@ {
        "其他资格证书"@
    } else {
        k
    }
}

/// The category columns a submission fills, each with what it holds.
pub open spec fn category_assignments(s: Submission) -> Seq<(int, CellView)> {
    let d = s.category_data;
    match s.category {
        Category::AcademicCompetition => {
            let actual = if answer_text(d, keys::AWARD_LEVEL@) == "其他"@ {
                seq![(COL_ACTUAL_AWARD as int, text_cell(actual_award_text(d)))]
            } else {
                Seq::empty()
            };
            actual + seq![
                mapped(d, COL_COMPETITION_TYPE as int, keys::COMPETITION_TYPE@),
                mapped(d, COL_CATALOG_NO as int, keys::CATALOG_NO@),
                mapped(d, COL_LEVEL as int, keys::LEVEL@),
                mapped(d, COL_AWARD_LEVEL as int, keys::AWARD_LEVEL@),
            ]
        },
        Category::SportsArtsCompetition => {
            let c = choice_text(answer(d, keys::HAS_AWARD_LEVEL@));
            let level = seq![mapped(d, COL_LEVEL as int, keys::LEVEL@)];
            if c == "是"@ {
                level.push(mapped(d, COL_AWARD_LEVEL as int, keys::AWARD_LEVEL@))
            } else if c == "否"@ {
                level.push(mapped(d, COL_ACTUAL_AWARD as int, keys::RANK@))
            } else {
                level
            }
        },
        Category::OtherAward => seq![mapped(d, COL_LEVEL as int, keys::RECOGNITION_LEVEL@)],
        Category::PublishedArticle => {
            let n = answer_text(d, keys::NATURE@);
            if n == "academic"@ || n == "学术论文"@ {
                seq![
                    (COL_ARTICLE_NATURE as int, CellView::Text("学术论文"@)),
                    mapped(d, COL_PLATFORM as int, keys::JOURNAL_NAME@),
                    mapped(d, COL_AUTHOR_ORDER as int, keys::AUTHOR_ORDER@),
                ]
            } else if n == "non_academic"@ || n == "非学术文章"@ {
                seq![
                    (COL_ARTICLE_NATURE as int, CellView::Text("非学术文章"@)),
                    mapped(d, COL_PLATFORM as int, keys::PLATFORM@),
                ]
            } else {
                Seq::empty()
            }
        },
        Category::SocialPractice => seq![
            mapped(d, COL_LEVEL as int, keys::LEVEL@),
            mapped(d, COL_PRACTICE_IDENTITY as int, keys::IDENTITY@),
            mapped(d, COL_AWARD_LEVEL as int, keys::AWARD_LEVEL_OR_NONE@),
        ],
        Category::Patent => seq![
            mapped(d, COL_PATENT_TYPE as int, keys::TYPE@),
            mapped(d, COL_PATENT_STATUS as int, keys::STATUS@),
            mapped(d, COL_PATENT_RANK as int, keys::RANKING@),
            mapped(d, COL_PATENT_NO as int, keys::PATENT_NO@),
        ],
        Category::Certification => {
            let k = answer_text(d, keys::CERTIFICATE_TYPE@);
            let first = seq![(COL_CERTIFICATE_TYPE as int, text_cell(certificate_label(k)))];
            if k == "CET-6"@ {
                first.push((COL_EXAM_SCORE as int, CellView::ExamScore(keys::CET6_SCORE@)))
            } else if k == "雅思/托福"@ {
                first.push((COL_EXAM_SCORE as int, CellView::ExamScore(keys::LANGUAGE_SCORE@)))
            } else if k == "computer"@ || k == "计算机"@ {
                first + seq![
                    mapped(d, COL_COMPUTER_CATEGORY as int, keys::COMPUTER_CATEGORY@),
                    mapped(d, COL_LEVEL as int, keys::EXAM_LEVEL@),
                ]
            } else if k == "other"@ || k == "其他资格证书"@ {
                first.push(mapped(d, COL_QUALIFICATION as int, keys::QUALIFICATION_NAME@))
            } else {
                first
            }
        },
    }
}

/// The lines of the detail column: the submission's own detail, then the answers that
/// have no column of their own, each as `label：value`.
pub open spec fn detail_lines(s: Submission) -> Seq<Seq<char>> {
    let d = s.category_data;
    let base = match s.detail {
        Some(t) => seq![t@],
        None => Seq::empty(),
    };
    match s.category {
        Category::AcademicCompetition => supplemented(base, "竞赛完整名称"@, answer_text(d, keys::COMPETITION_NAME@)),
        Category::SportsArtsCompetition => supplemented(
            supplemented(
                supplemented(base, "比赛完整名称"@, answer_text(d, keys::COMPETITION_NAME@)),
                "是否有明确奖项等级"@,
                choice_text(answer(d, keys::HAS_AWARD_LEVEL@)),
            ),
            "是否属于东南大学运动会相关项目"@,
            choice_text(answer(d, keys::IS_SEU_SPORTS_MEET@)),
        ),
        Category::OtherAward => supplemented(
            supplemented(
                supplemented(base, "荣誉完整名称"@, answer_text(d, keys::AWARD_NAME@)),
                "是否奖学金/助学金"@,
                choice_text(answer(d, keys::IS_SCHOLARSHIP@)),
            ),
            "校级荣誉类别"@,
            answer_text(d, keys::SCHOOL_HONOR_CATEGORY@),
        ),
        Category::PublishedArticle => {
            let n = answer_text(d, keys::NATURE@);
            let titled = supplemented(base, "文章标题"@, answer_text(d, keys::TITLE@));
            if n == "academic"@ || n == "学术论文"@ {
                supplemented(titled, "发表类型"@, answer_text(d, keys::PUBLICATION_TYPE@))
            } else if n == "non_academic"@ || n == "非学术文章"@ {
                supplemented(
                    supplemented(titled, "发表形式"@, answer_text(d, keys::PUBLICATION_FORM@)),
                    "链接或发表信息"@,
                    answer_text(d, keys::LINK_OR_INFO@),
                )
            } else {
                titled
            }
        },
        Category::SocialPractice => supplemented(base, "项目名称"@, answer_text(d, keys::PROJECT_NAME@)),
        Category::Patent => supplemented(base, "专利名称"@, answer_text(d, keys::NAME@)),
        Category::Certification => base,
    }
}

/// `cells` with each assignment made in turn.
pub open spec fn apply_cells(cells: Seq<CellView>, a: Seq<(int, CellView)>) -> Seq<CellView>
    decreases a.len(),
{
    if a.len() == 0 {
        cells
    } else {
        apply_cells(cells, a.drop_last()).update(a.last().0, a.last().1)
    }
}

/// The row after the category columns and the detail column are filled.
pub open spec fn expanded(cells: Seq<CellView>, s: Submission) -> Seq<CellView> {
    apply_cells(
        cells,
        category_assignments(s).push((COL_DETAIL as int, text_cell(join(detail_lines(s), "\n"@)))),
    )
}

pub open spec fn assignments_view(a: Seq<(usize, ExportCell)>) -> Seq<(int, CellView)> {
    a.map_values(|p: (usize, ExportCell)| (p.0 as int, p.1.view()))
}

fn answer_text_of<'a>(d: &'a CategoryData, key: &str) -> (r: &'a str)
    ensures
        r@ == answer_text(*d, key@),
{
    let t = match d {
        CategoryData::Object(es) => data_text(es.as_slice(), key),
        CategoryData::NotObject => None,
    };
    match t {
        Some(t) => t,
        None => {
            proof {
                reveal_strlit("");
            }
            ""
        },
    }
}

fn answer_of<'a>(d: &'a CategoryData, key: &str) -> (r: Option<&'a JsonValue>)
    ensures
        match r {
            Some(v) => answer(*d, key@) == Some(*v),
            None => answer(*d, key@) is None,
        },
{
    match d {
        CategoryData::Object(es) => data_get(es.as_slice(), key),
        CategoryData::NotObject => None,
    }
}

/// How a yes/no answer reads in the workbook.
pub fn choice(v: Option<&JsonValue>) -> (r: &'static str)
    ensures
        r@ == choice_text(match v {
            Some(x) => Some(*x),
            None => None,
        }),
{
    proof {
        reveal_strlit("");
    }
    match v {
        Some(JsonValue::Bool(b)) => if *b { "是" } else { "否" },
        Some(JsonValue::Str(t, _)) => {
            if str_eq(t.as_str(), "yes") || str_eq(t.as_str(), "是") {
                "是"
            } else if str_eq(t.as_str(), "no") || str_eq(t.as_str(), "否") {
                "否"
            } else if str_eq(t.as_str(), "uncertain") || str_eq(t.as_str(), "不确定") {
                "不确定"
            } else {
                ""
            }
        },
        _ => "",
    }
}

/// Adds `label：value` to the detail lines, unless `value` is empty.
pub fn supplement(detail: &mut Vec<String>, label: &str, value: &str)
    ensures
        final(detail)@.map_values(|l: String| l@) == supplemented(
            old(detail)@.map_values(|l: String| l@),
            label@,
            value@,
        ),
{
    if !value.is_empty() {
        let mut line = String::new();
        push_str(&mut line, label);
        push_str(&mut line, "：");
        push_str(&mut line, value);
        detail.push(line);
        assert(detail@.map_values(|l: String| l@) =~= old(detail)@.map_values(|l: String| l@).push(
            label@ + "："@ + value@,
        ));
    }
}

fn mapped_of(d: &CategoryData, col: usize, key: &str) -> (r: (usize, ExportCell))
    ensures
        (r.0 as int, r.1.view()) == mapped(*d, col as int, key@),
{
    (col, text_cell_of(answer_text_of(d, key)))
}

/// The first non-blank of the actual-award answers.
fn actual_award_of<'a>(d: &'a CategoryData) -> (r: &'a str)
    ensures
        r@ == actual_award_text(*d),
{
    let a = answer_text_of(d, keys::OTHER_AWARD);
    if !trimmed(a).as_str().is_empty() {
        return a;
    }
    let b = answer_text_of(d, "award_detail");
    if !trimmed(b).as_str().is_empty() {
        return b;
    }
    let c = answer_text_of(d, "actual_award_rank");
    if !trimmed(c).as_str().is_empty() {
        return c;
    }
    proof {
        reveal_strlit("");
    }
    ""
}

fn certificate_label_of<'a>(k: &'a str) -> (r: &'a str)
    ensures
        r@ == certificate_label(k@),
{
    if str_eq(k, "computer") || str_eq(k, "计算机") {
        "计算机"
    } else if str_eq(k, "other") || str_eq(k, "其他资格证书") {
        "其他资格证书"
    } else {
        k
    }
}

fn category_assignments_of(s: &Submission) -> (r: Vec<(usize, ExportCell)>)
    ensures
        assignments_view(r@) == category_assignments(*s),
        forall|i: int| 0 <= i < r@.len() ==> (#[trigger] r@[i]).0 < DETAIL_COLUMNS,
{
    let d = &s.category_data;
    let r = match s.category {
        Category::AcademicCompetition => {
            let mut a: Vec<(usize, ExportCell)> = Vec::new();
            if str_eq(answer_text_of(d, keys::AWARD_LEVEL), "其他") {
                a.push((COL_ACTUAL_AWARD, text_cell_of(actual_award_of(d))));
            }
            a.push(mapped_of(d, COL_COMPETITION_TYPE, keys::COMPETITION_TYPE));
            a.push(mapped_of(d, COL_CATALOG_NO, keys::CATALOG_NO));
            a.push(mapped_of(d, COL_LEVEL, keys::LEVEL));
            a.push(mapped_of(d, COL_AWARD_LEVEL, keys::AWARD_LEVEL));
            a
        },
        Category::SportsArtsCompetition => {
            let c = choice(answer_of(d, keys::HAS_AWARD_LEVEL));
            let mut a: Vec<(usize, ExportCell)> = Vec::new();
            a.push(mapped_of(d, COL_LEVEL, keys::LEVEL));
            if str_eq(c, "是") {
                a.push(mapped_of(d, COL_AWARD_LEVEL, keys::AWARD_LEVEL));
            } else if str_eq(c, "否") {
                a.push(mapped_of(d, COL_ACTUAL_AWARD, keys::RANK));
            }
            a
        },
        Category::OtherAward => {
            let mut a: Vec<(usize, ExportCell)> = Vec::new();
            a.push(mapped_of(d, COL_LEVEL, keys::RECOGNITION_LEVEL));
            a
        },
        Category::PublishedArticle => {
            let n = answer_text_of(d, keys::NATURE);
            let mut a: Vec<(usize, ExportCell)> = Vec::new();
            if str_eq(n, "academic") || str_eq(n, "学术论文") {
                a.push((COL_ARTICLE_NATURE, ExportCell::Text("学术论文".to_owned())));
                a.push(mapped_of(d, COL_PLATFORM, keys::JOURNAL_NAME));
                a.push(mapped_of(d, COL_AUTHOR_ORDER, keys::AUTHOR_ORDER));
            } else if str_eq(n, "non_academic") || str_eq(n, "非学术文章") {
                a.push((COL_ARTICLE_NATURE, ExportCell::Text("非学术文章".to_owned())));
                a.push(mapped_of(d, COL_PLATFORM, keys::PLATFORM));
            }
            a
        },
        Category::SocialPractice => {
            let mut a: Vec<(usize, ExportCell)> = Vec::new();
            a.push(mapped_of(d, COL_LEVEL, keys::LEVEL));
            a.push(mapped_of(d, COL_PRACTICE_IDENTITY, keys::IDENTITY));
            a.push(mapped_of(d, COL_AWARD_LEVEL, keys::AWARD_LEVEL_OR_NONE));
            a
        },
        Category::Patent => {
            let mut a: Vec<(usize, ExportCell)> = Vec::new();
            a.push(mapped_of(d, COL_PATENT_TYPE, keys::TYPE));
            a.push(mapped_of(d, COL_PATENT_STATUS, keys::STATUS));
            a.push(mapped_of(d, COL_PATENT_RANK, keys::RANKING));
            a.push(mapped_of(d, COL_PATENT_NO, keys::PATENT_NO));
            a
        },
        Category::Certification => {
            let k = answer_text_of(d, keys::CERTIFICATE_TYPE);
            let mut a: Vec<(usize, ExportCell)> = Vec::new();
            a.push((COL_CERTIFICATE_TYPE, text_cell_of(certificate_label_of(k))));
            if str_eq(k, "CET-6") {
                a.push((COL_EXAM_SCORE, ExportCell::ExamScore(keys::CET6_SCORE.to_owned())));
            } else if str_eq(k, "雅思/托福") {
                a.push((COL_EXAM_SCORE, ExportCell::ExamScore(keys::LANGUAGE_SCORE.to_owned())));
            } else if str_eq(k, "computer") || str_eq(k, "计算机") {
                a.push(mapped_of(d, COL_COMPUTER_CATEGORY, keys::COMPUTER_CATEGORY));
                a.push(mapped_of(d, COL_LEVEL, keys::EXAM_LEVEL));
            } else if str_eq(k, "other") || str_eq(k, "其他资格证书") {
                a.push(mapped_of(d, COL_QUALIFICATION, keys::QUALIFICATION_NAME));
            }
            a
        },
    };
    assert(assignments_view(r@) =~= category_assignments(*s));
    r
}

fn detail_lines_of(s: &Submission) -> (r: Vec<String>)
    ensures
        r@.map_values(|l: String| l@) == detail_lines(*s),
{
    let d = &s.category_data;
    let mut lines: Vec<String> = Vec::new();
    match &s.detail {
        Some(t) => lines.push(t.clone()),
        None => {},
    }
    assert(lines@.map_values(|l: String| l@) =~= match s.detail {
        Some(t) => seq![t@],
        None => Seq::<Seq<char>>::empty(),
    });
    match s.category {
        Category::AcademicCompetition => {
            supplement(&mut lines, "竞赛完整名称", answer_text_of(d, keys::COMPETITION_NAME));
        },
        Category::SportsArtsCompetition => {
            supplement(&mut lines, "比赛完整名称", answer_text_of(d, keys::COMPETITION_NAME));
            supplement(&mut lines, "是否有明确奖项等级", choice(answer_of(d, keys::HAS_AWARD_LEVEL)));
            supplement(&mut lines, "是否属于东南大学运动会相关项目", choice(answer_of(d, keys::IS_SEU_SPORTS_MEET)));
        },
        Category::OtherAward => {
            supplement(&mut lines, "荣誉完整名称", answer_text_of(d, keys::AWARD_NAME));
            supplement(&mut lines, "是否奖学金/助学金", choice(answer_of(d, keys::IS_SCHOLARSHIP)));
            supplement(&mut lines, "校级荣誉类别", answer_text_of(d, keys::SCHOOL_HONOR_CATEGORY));
        },
        Category::PublishedArticle => {
            supplement(&mut lines, "文章标题", answer_text_of(d, keys::TITLE));
            let n = answer_text_of(d, keys::NATURE);
            if str_eq(n, "academic") || str_eq(n, "学术论文") {
                supplement(&mut lines, "发表类型", answer_text_of(d, keys::PUBLICATION_TYPE));
            } else if str_eq(n, "non_academic") || str_eq(n, "非学术文章") {
                supplement(&mut lines, "发表形式", answer_text_of(d, keys::PUBLICATION_FORM));
                supplement(&mut lines, "链接或发表信息", answer_text_of(d, keys::LINK_OR_INFO));
            }
        },
        Category::SocialPractice => {
            supplement(&mut lines, "项目名称", answer_text_of(d, keys::PROJECT_NAME));
        },
        Category::Patent => {
            supplement(&mut lines, "专利名称", answer_text_of(d, keys::NAME));
        },
        Category::Certification => {},
    }
    lines
}

impl ExportCell {
    /// A copy of the cell.
    pub fn duplicate(&self) -> (r: ExportCell)
        ensures
            r.view() == self.view(),
    {
        match self {
            ExportCell::Blank => ExportCell::Blank,
            ExportCell::Text(t) => ExportCell::Text(t.clone()),
            ExportCell::Count(n) => ExportCell::Count(*n),
            ExportCell::ApprovedScore => ExportCell::ApprovedScore,
            ExportCell::ExamScore(k) => ExportCell::ExamScore(k.clone()),
            ExportCell::Date(t) => ExportCell::Date(t.clone()),
            ExportCell::Timestamp(i) => ExportCell::Timestamp(*i),
        }
    }
}

/// Fills the category columns and the detail column of a row.
pub fn expand_category(s: &Submission, cells: &mut Vec<ExportCell>)
    requires
        old(cells)@.len() == DETAIL_COLUMNS,
    ensures
        final(cells)@.len() == DETAIL_COLUMNS,
        cells_view(final(cells)@) == expanded(cells_view(old(cells)@), *s),
{
    let mut a = category_assignments_of(s);
    let lines = detail_lines_of(s);
    let detail = join_strings(&lines, "\n");
    a.push((COL_DETAIL, text_cell_of(detail.as_str())));
    let ghost av = assignments_view(a@);
    assert(av =~= category_assignments(*s).push((COL_DETAIL as int, text_cell(join(detail_lines(*s), "\n"@)))));
    let ghost start = cells_view(cells@);
    let mut j: usize = 0;
    assert(av.take(0) =~= Seq::<(int, CellView)>::empty());
    while j < a.len()
        invariant
            j <= a@.len(),
            av == assignments_view(a@),
            forall|i: int| 0 <= i < a@.len() ==> (#[trigger] a@[i]).0 < DETAIL_COLUMNS,
            cells@.len() == DETAIL_COLUMNS,
            cells_view(cells@) == apply_cells(start, av.take(j as int)),
        decreases a@.len() - j,
    {
        let col = a[j].0;
        let cell = a[j].1.duplicate();
        cells.set(col, cell);
        proof {
            assert(av.take(j + 1).drop_last() =~= av.take(j as int));
            assert(av.take(j + 1).last() == (col as int, a@[j as int].1.view()));
            assert(cells_view(cells@) =~= apply_cells(start, av.take(j as int)).update(col as int, a@[j as int].1.view()));
        }
        j = j + 1;
    }
    assert(av.take(a@.len() as int) =~= av);
}

// ---------------------------------------------------------------------------
// A submission's row
// ---------------------------------------------------------------------------

/// What an export reads: the years, the submissions, the declarations and the
/// attachments of the submissions.
pub struct ExportData {
    pub years: Vec<AcademicYear>,
    pub submissions: Vec<Submission>,
    pub declarations: Vec<StudentDeclaration>,
    pub attachments: Vec<Attachment>,
}

/// The name of the year `id`, the last listed with that id; empty when none is.
pub open spec fn year_name(years: Seq<AcademicYear>, id: i64) -> Seq<char>
    decreases years.len(),
{
    if years.len() == 0 {
        Seq::empty()
    } else if years.last().id == id {
        years.last().name@
    } else {
        year_name(years.drop_last(), id)
    }
}

/// The attachments of the submission `id`, in their listed order.
pub open spec fn attachments_of(all: Seq<Attachment>, id: i64) -> Seq<Attachment>
    decreases all.len(),
{
    if all.len() == 0 {
        Seq::empty()
    } else if all.last().submission_id == id {
        attachments_of(all.drop_last(), id).push(all.last())
    } else {
        attachments_of(all.drop_last(), id)
    }
}

/// How an attachment is named in the workbook: its file name and where it is downloaded.
pub open spec fn attachment_line(a: Attachment, submission_no: Seq<char>) -> Seq<char> {
    a.original_name@ + " — /submissions/"@ + submission_no + "/attachments/"@ + int_text(a.id as int)
}

pub open spec fn attachment_lines(atts: Seq<Attachment>, submission_no: Seq<char>) -> Seq<Seq<char>> {
    atts.map_values(|a: Attachment| attachment_line(a, submission_no))
}

/// The row of a submission before its category columns are filled.
pub open spec fn base_cells(data_years: Seq<AcademicYear>, data_attachments: Seq<Attachment>, s: Submission, sequence: nat) -> Seq<CellView> {
    let atts = attachments_of(data_attachments, s.id);
    Seq::new(DETAIL_COLUMNS as nat, |_i: int| CellView::Blank)
        .update(COL_SEQUENCE as int, CellView::Count(sequence))
        .update(COL_SUBMISSION_NO as int, text_cell(s.submission_no@))
        .update(COL_STUDENT_NAME as int, text_cell(s.student_name@))
        .update(COL_STUDENT_NO as int, text_cell(s.student_no@))
        .update(COL_YEAR as int, text_cell(year_name(data_years, s.academic_year_id)))
        .update(COL_CATEGORY as int, text_cell(category_label(s.category)))
        .update(COL_RESULT_NAME as int, text_cell(s.result_name@))
        .update(COL_REMARK as int, text_cell(match s.remark { Some(t) => t@, None => Seq::empty() }))
        .update(COL_REVIEW_STATUS as int, text_cell(status_label(s.status)))
        .update(COL_REVIEW_NOTE as int, text_cell(match s.review_note { Some(t) => t@, None => Seq::empty() }))
        .update(COL_OBTAINED_DATE as int, if s.obtained_date.year < 1900 {
            CellView::Text(date_text(s.obtained_date))
        } else {
            CellView::Date(date_text(s.obtained_date))
        })
        .update(COL_CREATED_AT as int, CellView::Timestamp(s.created_at))
        .update(COL_UPDATED_AT as int, CellView::Timestamp(s.updated_at))
        .update(COL_APPROVED_SCORE as int, if s.has_approved_score { CellView::ApprovedScore } else { CellView::Blank })
        .update(COL_ATTACHMENT_COUNT as int, CellView::Count(atts.len()))
        .update(COL_ATTACHMENTS as int, text_cell(join(attachment_lines(atts, s.submission_no@), "\n"@)))
}

/// The detail row of the `sequence`-th submission.
pub open spec fn detail_row(data_years: Seq<AcademicYear>, data_attachments: Seq<Attachment>, s: Submission, sequence: nat) -> Seq<CellView> {
    expanded(base_cells(data_years, data_attachments, s, sequence), s)
}

fn year_name_of<'a>(years: &'a Vec<AcademicYear>, id: i64) -> (r: &'a str)
    ensures
        r@ == year_name(years@, id),
{
    let mut i: usize = years.len();
    assert(years@.take(i as int) =~= years@);
    while i > 0
        invariant
            i <= years@.len(),
            year_name(years@, id) == year_name(years@.take(i as int), id),
        decreases i,
    {
        proof {
            assert(years@.take(i as int).drop_last() =~= years@.take(i - 1));
        }
        if years[i - 1].id == id {
            return years[i - 1].name.as_str();
        }
        i = i - 1;
    }
    proof {
        reveal_strlit("");
    }
    ""
}

fn attachment_lines_of(all: &Vec<Attachment>, id: i64, submission_no: &str) -> (r: (u64, String))
    ensures
        r.0 == attachments_of(all@, id).len(),
        r.1@ == join(attachment_lines(attachments_of(all@, id), submission_no@), "\n"@),
{
    let mut lines: Vec<String> = Vec::new();
    let mut count: u64 = 0;
    let mut i: usize = 0;
    assert(all@.take(0) =~= Seq::<Attachment>::empty());
    while i < all.len()
        invariant
            i <= all@.len(),
            count == attachments_of(all@.take(i as int), id).len(),
            count <= i,
            lines@.map_values(|l: String| l@) == attachment_lines(attachments_of(all@.take(i as int), id), submission_no@),
        decreases all@.len() - i,
    {
        proof {
            assert(all@.take(i + 1).drop_last() =~= all@.take(i as int));
        }
        let a = &all[i];
        if a.submission_id == id {
            let mut line = a.original_name.clone();
            push_str(&mut line, " — /submissions/");
            push_str(&mut line, submission_no);
            push_str(&mut line, "/attachments/");
            let n = i64_string(a.id);
            push_str(&mut line, n.as_str());
            lines.push(line);
            count = count + 1;
            proof {
                let prev = attachments_of(all@.take(i as int), id);
                assert(attachment_lines(prev.push(*a), submission_no@) =~= attachment_lines(prev, submission_no@).push(attachment_line(*a, submission_no@)));
                assert(lines@.map_values(|l: String| l@) =~= attachment_lines(prev, submission_no@).push(attachment_line(*a, submission_no@)));
            }
        }
        i = i + 1;
    }
    assert(all@.take(all@.len() as int) =~= all@);
    (count, join_strings(&lines, "\n"))
}

/// The detail row of a submission: its own columns, then the category columns.
pub fn detail_cells(data: &ExportData, s: &Submission, sequence: u32) -> (r: Vec<ExportCell>)
    ensures
        r@.len() == DETAIL_COLUMNS,
        cells_view(r@) == detail_row(data.years@, data.attachments@, *s, sequence as nat),
{
    let mut cells: Vec<ExportCell> = Vec::new();
    let mut i: usize = 0;
    while i < DETAIL_COLUMNS
        invariant
            i <= DETAIL_COLUMNS,
            cells@.len() == i,
            forall|k: int| 0 <= k < i ==> (#[trigger] cells@[k]).view() == CellView::Blank,
        decreases DETAIL_COLUMNS - i,
    {
        cells.push(ExportCell::Blank);
        i = i + 1;
    }
    let ghost blank = cells_view(cells@);
    assert(blank =~= Seq::new(DETAIL_COLUMNS as nat, |_i: int| CellView::Blank));
    cells.set(COL_SEQUENCE, ExportCell::Count(sequence as u64));
    cells.set(COL_SUBMISSION_NO, text_cell_of(s.submission_no.as_str()));
    cells.set(COL_STUDENT_NAME, text_cell_of(s.student_name.as_str()));
    cells.set(COL_STUDENT_NO, text_cell_of(s.student_no.as_str()));
    cells.set(COL_YEAR, text_cell_of(year_name_of(&data.years, s.academic_year_id)));
    cells.set(COL_CATEGORY, text_cell_of(s.category.label()));
    cells.set(COL_RESULT_NAME, text_cell_of(s.result_name.as_str()));
    let remark = match &s.remark {
        Some(t) => text_cell_of(t.as_str()),
        None => ExportCell::Blank,
    };
    cells.set(COL_REMARK, remark);
    cells.set(COL_REVIEW_STATUS, text_cell_of(s.status.label()));
    let note = match &s.review_note {
        Some(t) => text_cell_of(t.as_str()),
        None => ExportCell::Blank,
    };
    cells.set(COL_REVIEW_NOTE, note);
    let date = date_string(s.obtained_date);
    let date_cell = if s.obtained_date.year < 1900 {
        ExportCell::Text(date)
    } else {
        ExportCell::Date(date)
    };
    cells.set(COL_OBTAINED_DATE, date_cell);
    cells.set(COL_CREATED_AT, ExportCell::Timestamp(s.created_at));
    cells.set(COL_UPDATED_AT, ExportCell::Timestamp(s.updated_at));
    let score = if s.has_approved_score {
        ExportCell::ApprovedScore
    } else {
        ExportCell::Blank
    };
    cells.set(COL_APPROVED_SCORE, score);
    let (count, identifiers) = attachment_lines_of(&data.attachments, s.id, s.submission_no.as_str());
    cells.set(COL_ATTACHMENT_COUNT, ExportCell::Count(count));
    cells.set(COL_ATTACHMENTS, text_cell_of(identifiers.as_str()));
    proof {
        reveal_strlit("");
        assert(text_cell(Seq::empty()) == CellView::Blank);
        assert(cells_view(cells@) =~= base_cells(data.years@, data.attachments@, *s, sequence as nat));
    }
    expand_category(s, &mut cells);
    cells
}

// ---------------------------------------------------------------------------
// Totals per student
// ---------------------------------------------------------------------------

/// A student as the summary sheet tells them apart: number, then name.
pub open spec fn key_lt(a: (Seq<char>, Seq<char>), b: (Seq<char>, Seq<char>)) -> bool {
    lex_lt(a.0, b.0) || (a.0 == b.0 && lex_lt(a.1, b.1))
}

pub open spec fn keys_sorted(s: Seq<(Seq<char>, Seq<char>)>) -> bool {
    forall|a: int, b: int| 0 <= a < b < s.len() ==> key_lt(#[trigger] s[a], #[trigger] s[b])
}

proof fn lemma_key_trans(a: (Seq<char>, Seq<char>), b: (Seq<char>, Seq<char>), c: (Seq<char>, Seq<char>))
    requires
        key_lt(a, b),
        key_lt(b, c),
    ensures
        key_lt(a, c),
{
    if lex_lt(a.0, b.0) && lex_lt(b.0, c.0) {
        lemma_lex_trans(a.0, b.0, c.0);
    } else if lex_lt(a.0, b.0) {
    } else if lex_lt(b.0, c.0) {
    } else {
        lemma_lex_trans(a.1, b.1, c.1);
    }
}

proof fn lemma_key_order(a: (Seq<char>, Seq<char>), b: (Seq<char>, Seq<char>))
    ensures
        !(key_lt(a, b) && key_lt(b, a)),
        !key_lt(a, a),
        a == b || key_lt(a, b) || key_lt(b, a),
{
    lemma_lex_irrefl(a.0);
    lemma_lex_irrefl(a.1);
    lemma_lex_total(a.0, b.0);
    lemma_lex_total(a.1, b.1);
    if key_lt(a, b) && key_lt(b, a) {
        lemma_key_trans(a, b, a);
    }
}

pub open spec fn submission_key(s: Submission) -> (Seq<char>, Seq<char>) {
    (s.student_no@, s.student_name@)
}

pub open spec fn declaration_key(d: StudentDeclaration) -> (Seq<char>, Seq<char>) {
    (d.student_no@, d.student_name@)
}

/// The students the summary lists: those with a submission, and those who declared
/// that they have no material.
pub open spec fn summary_students(subs: Seq<Submission>, decls: Seq<StudentDeclaration>) -> Set<(Seq<char>, Seq<char>)> {
    Set::new(|k: (Seq<char>, Seq<char>)|
        (exists|i: int| 0 <= i < subs.len() && submission_key(#[trigger] subs[i]) == k)
        || (exists|j: int| 0 <= j < decls.len() && !(#[trigger] decls[j]).has_submission_material
            && declaration_key(decls[j]) == k))
}

/// The positions of the submissions of student `k` that have `status` (any status if none).
pub open spec fn rows_of(subs: Seq<Submission>, k: (Seq<char>, Seq<char>), status: Option<SubmissionStatus>) -> Seq<int>
    decreases subs.len(),
{
    if subs.len() == 0 {
        Seq::empty()
    } else {
        let rest = rows_of(subs.drop_last(), k, status);
        let s = subs.last();
        if submission_key(s) == k && (status is None || status == Some(s.status)) {
            rest.push(subs.len() - 1)
        } else {
            rest
        }
    }
}

/// One line of the summary sheet: a student, how many submissions they have in all and
/// in each state (approved, pending, needing revision, rejected), the positions of their
/// approved submissions (whose scores the caller adds up), and whether they declared
/// that they have no material.
pub struct StudentSummary {
    pub student_no: String,
    pub student_name: String,
    pub submitted: u64,
    pub approved: u64,
    pub pending: u64,
    pub revision: u64,
    pub rejected: u64,
    pub approved_rows: Vec<usize>,
    pub declared: bool,
}

impl StudentSummary {
    pub open spec fn key(&self) -> (Seq<char>, Seq<char>) {
        (self.student_no@, self.student_name@)
    }
}

/// The summary line of student `k` is right.
pub open spec fn summary_line_ok(line: StudentSummary, subs: Seq<Submission>, decls: Seq<StudentDeclaration>) -> bool {
    let k = line.key();
    &&& line.submitted == rows_of(subs, k, None).len()
    &&& line.approved == rows_of(subs, k, Some(SubmissionStatus::Approved)).len()
    &&& line.pending == rows_of(subs, k, Some(SubmissionStatus::Pending)).len()
    &&& line.revision == rows_of(subs, k, Some(SubmissionStatus::NeedsRevision)).len()
    &&& line.rejected == rows_of(subs, k, Some(SubmissionStatus::Rejected)).len()
    &&& line.approved_rows@.map_values(|i: usize| i as int) == rows_of(subs, k, Some(SubmissionStatus::Approved))
    &&& line.declared == exists|j: int| 0 <= j < decls.len() && !(#[trigger] decls[j]).has_submission_material
        && declaration_key(decls[j]) == k
}

fn same_text(a: &String, b: &String) -> (r: bool)
    ensures
        r == (a@ == b@),
{
    str_eq(a.as_str(), b.as_str())
}

fn key_before(a: &(String, String), b: &(String, String)) -> (r: bool)
    ensures
        r == key_lt((a.0@, a.1@), (b.0@, b.1@)),
{
    let a0 = chars_of(a.0.as_str());
    let b0 = chars_of(b.0.as_str());
    let c = lex_compare(a0.as_slice(), b0.as_slice());
    if c < 0 {
        true
    } else if c > 0 {
        false
    } else {
        let a1 = chars_of(a.1.as_str());
        let b1 = chars_of(b.1.as_str());
        lex_compare(a1.as_slice(), b1.as_slice()) < 0
    }
}

pub open spec fn pairs_view(s: Seq<(String, String)>) -> Seq<(Seq<char>, Seq<char>)> {
    s.map_values(|p: (String, String)| (p.0@, p.1@))
}

/// Adds `k` to a sorted list of students unless it is already there.
fn insert_student(keys: &mut Vec<(String, String)>, k: (String, String))
    requires
        keys_sorted(pairs_view(old(keys)@)),
    ensures
        keys_sorted(pairs_view(final(keys)@)),
        pairs_view(final(keys)@).to_set() == pairs_view(old(keys)@).to_set().insert((k.0@, k.1@)),
{
    let ghost kv = (k.0@, k.1@);
    let n = keys.len();
    let mut p: usize = 0;
    while p < n && key_before(&keys[p], &k)
        invariant
            p <= n,
            n == keys@.len(),
            keys@ == old(keys)@,
            kv == (k.0@, k.1@),
            forall|j: int| 0 <= j < p ==> key_lt(#[trigger] pairs_view(keys@)[j], kv),
        decreases n - p,
    {
        assert(pairs_view(keys@)[p as int] == (keys@[p as int].0@, keys@[p as int].1@));
        p = p + 1;
    }
    let ghost before = pairs_view(keys@);
    assert(p < n ==> before[p as int] == (keys@[p as int].0@, keys@[p as int].1@));
    if p < n && same_text(&keys[p].0, &k.0) && same_text(&keys[p].1, &k.1) {
        assert(before[p as int] == kv);
        assert(before.to_set() =~= before.to_set().insert(kv));
        return;
    }
    keys.insert(p, k);
    proof {
        let after = pairs_view(keys@);
        assert(after =~= before.insert(p as int, kv));
        if p < n {
            lemma_key_order(before[p as int], kv);
        }
        assert forall|a: int, b: int| 0 <= a < b < after.len() implies key_lt(#[trigger] after[a], #[trigger] after[b]) by {
            if b == p {
                assert(after[a] == before[a]);
            } else if a == p {
                assert(after[b] == before[b - 1]);
                if b - 1 > p {
                    lemma_key_trans(kv, before[p as int], before[b - 1]);
                }
            } else if a < p && b > p {
                assert(after[a] == before[a] && after[b] == before[b - 1]);
                lemma_key_trans(before[a], kv, before[p as int]);
                if b - 1 > p {
                    lemma_key_trans(before[a], before[p as int], before[b - 1]);
                }
            } else if b < p {
                assert(after[a] == before[a] && after[b] == before[b]);
            } else {
                assert(after[a] == before[a - 1] && after[b] == before[b - 1]);
            }
        }
        assert(after.to_set() =~= before.to_set().insert(kv)) by {
            assert forall|x: (Seq<char>, Seq<char>)| after.contains(x) <==> before.to_set().insert(kv).contains(x) by {
                if after.contains(x) {
                    let j = choose|j: int| 0 <= j < after.len() && after[j] == x;
                    if j < p {
                        assert(before[j] == x);
                    } else if j > p {
                        assert(before[j - 1] == x);
                    }
                }
                if before.contains(x) {
                    let j = choose|j: int| 0 <= j < before.len() && before[j] == x;
                    if j < p {
                        assert(after[j] == x);
                    } else {
                        assert(after[j + 1] == x);
                    }
                }
                if x == kv {
                    assert(after[p as int] == kv);
                }
            }
        }
    }
}

fn status_matches(status: Option<SubmissionStatus>, s: SubmissionStatus) -> (r: bool)
    ensures
        r == (status is None || status == Some(s)),
{
    match status {
        None => true,
        Some(t) => t == s,
    }
}

/// The positions of the submissions of a student that have `status` (any if none).
fn rows_for(subs: &Vec<Submission>, k: &(String, String), status: Option<SubmissionStatus>) -> (r: Vec<usize>)
    ensures
        r@.map_values(|i: usize| i as int) == rows_of(subs@, (k.0@, k.1@), status),
        r@.len() <= subs@.len(),
{
    let ghost kv = (k.0@, k.1@);
    let mut rows: Vec<usize> = Vec::new();
    let mut i: usize = 0;
    assert(subs@.take(0) =~= Seq::<Submission>::empty());
    while i < subs.len()
        invariant
            i <= subs@.len(),
            kv == (k.0@, k.1@),
            rows@.map_values(|x: usize| x as int) == rows_of(subs@.take(i as int), kv, status),
            rows@.len() <= i,
        decreases subs@.len() - i,
    {
        proof {
            assert(subs@.take(i + 1).drop_last() =~= subs@.take(i as int));
            assert(subs@.take(i + 1).last() == subs@[i as int]);
        }
        let s = &subs[i];
        if same_text(&s.student_no, &k.0) && same_text(&s.student_name, &k.1) && status_matches(status, s.status) {
            rows.push(i);
            assert(rows@.map_values(|x: usize| x as int) =~= rows_of(subs@.take(i as int), kv, status).push(i as int));
        }
        i = i + 1;
    }
    assert(subs@.take(subs@.len() as int) =~= subs@);
    rows
}

fn declared_none(decls: &Vec<StudentDeclaration>, k: &(String, String)) -> (r: bool)
    ensures
        r == exists|j: int| 0 <= j < decls@.len() && !(#[trigger] decls@[j]).has_submission_material
            && declaration_key(decls@[j]) == (k.0@, k.1@),
{
    let mut j: usize = 0;
    while j < decls.len()
        invariant
            j <= decls@.len(),
            forall|m: int| 0 <= m < j ==> !(!(#[trigger] decls@[m]).has_submission_material
                && declaration_key(decls@[m]) == (k.0@, k.1@)),
        decreases decls@.len() - j,
    {
        let d = &decls[j];
        if !d.has_submission_material && same_text(&d.student_no, &k.0) && same_text(&d.student_name, &k.1) {
            return true;
        }
        j = j + 1;
    }
    false
}

/// The lines of the summary sheet: one per student with a submission or a no-material
/// declaration, ordered by student number and then name.
pub fn summarize(data: &ExportData) -> (r: Vec<StudentSummary>)
    ensures
        keys_sorted(r@.map_values(|l: StudentSummary| l.key())),
        r@.map_values(|l: StudentSummary| l.key()).to_set() == summary_students(data.submissions@, data.declarations@),
        forall|i: int| 0 <= i < r@.len() ==> summary_line_ok(#[trigger] r@[i], data.submissions@, data.declarations@),
{
    let subs = &data.submissions;
    let decls = &data.declarations;
    let mut keys: Vec<(String, String)> = Vec::new();
    let mut i: usize = 0;
    assert(pairs_view(keys@).to_set() =~= summary_students(subs@.take(0), Seq::empty()));
    while i < subs.len()
        invariant
            i <= subs@.len(),
            keys_sorted(pairs_view(keys@)),
            pairs_view(keys@).to_set() == summary_students(subs@.take(i as int), Seq::empty()),
        decreases subs@.len() - i,
    {
        let s = &subs[i];
        insert_student(&mut keys, (s.student_no.clone(), s.student_name.clone()));
        proof {
            let a = subs@.take(i as int);
            let b = subs@.take(i + 1);
            assert forall|x: (Seq<char>, Seq<char>)| summary_students(b, Seq::empty()).contains(x) <==> summary_students(a, Seq::empty()).insert(submission_key(subs@[i as int])).contains(x) by {
                if exists|m: int| 0 <= m < b.len() && submission_key(#[trigger] b[m]) == x {
                    let m = choose|m: int| 0 <= m < b.len() && submission_key(#[trigger] b[m]) == x;
                    if m < i {
                        assert(a[m] == b[m]);
                    }
                }
                if exists|m: int| 0 <= m < a.len() && submission_key(#[trigger] a[m]) == x {
                    let m = choose|m: int| 0 <= m < a.len() && submission_key(#[trigger] a[m]) == x;
                    assert(a[m] == b[m]);
                }
                if x == submission_key(subs@[i as int]) {
                    assert(b[i as int] == subs@[i as int]);
                }
            }
            assert(summary_students(b, Seq::empty()) =~= summary_students(a, Seq::empty()).insert(submission_key(subs@[i as int])));
        }
        i = i + 1;
    }
    assert(subs@.take(subs@.len() as int) =~= subs@);
    let mut j: usize = 0;
    assert(summary_students(subs@, decls@.take(0)) =~= summary_students(subs@, Seq::empty()));
    while j < decls.len()
        invariant
            j <= decls@.len(),
            keys_sorted(pairs_view(keys@)),
            pairs_view(keys@).to_set() == summary_students(subs@, decls@.take(j as int)),
        decreases decls@.len() - j,
    {
        let d = &decls[j];
        let ghost a = decls@.take(j as int);
        let ghost b = decls@.take(j + 1);
        if !d.has_submission_material {
            insert_student(&mut keys, (d.student_no.clone(), d.student_name.clone()));
        }
        proof {
            let s1 = summary_students(subs@, a);
            let s2 = summary_students(subs@, b);
            let target = if !d.has_submission_material { s1.insert(declaration_key(*d)) } else { s1 };
            assert forall|x: (Seq<char>, Seq<char>)| s2.contains(x) <==> target.contains(x) by {
                if exists|m: int| 0 <= m < b.len() && !(#[trigger] b[m]).has_submission_material && declaration_key(b[m]) == x {
                    let m = choose|m: int| 0 <= m < b.len() && !(#[trigger] b[m]).has_submission_material && declaration_key(b[m]) == x;
                    if m < j {
                        assert(a[m] == b[m]);
                    } else {
                        assert(b[m] == *d);
                    }
                }
                if exists|m: int| 0 <= m < a.len() && !(#[trigger] a[m]).has_submission_material && declaration_key(a[m]) == x {
                    let m = choose|m: int| 0 <= m < a.len() && !(#[trigger] a[m]).has_submission_material && declaration_key(a[m]) == x;
                    assert(a[m] == b[m]);
                }
                if !d.has_submission_material && x == declaration_key(*d) {
                    assert(b[j as int] == *d);
                }
            }
            assert(s2 =~= target);
        }
        j = j + 1;
    }
    assert(decls@.take(decls@.len() as int) =~= decls@);
    let mut lines: Vec<StudentSummary> = Vec::new();
    let mut n: usize = 0;
    while n < keys.len()
        invariant
            n <= keys@.len(),
            keys_sorted(pairs_view(keys@)),
            pairs_view(keys@).to_set() == summary_students(subs@, decls@),
            lines@.len() == n,
            forall|m: int| 0 <= m < n ==> (#[trigger] lines@[m]).key() == pairs_view(keys@)[m],
            forall|m: int| 0 <= m < n ==> summary_line_ok(#[trigger] lines@[m], subs@, decls@),
        decreases keys@.len() - n,
    {
        let k = &keys[n];
        let all = rows_for(subs, k, None);
        let approved = rows_for(subs, k, Some(SubmissionStatus::Approved));
        let pending = rows_for(subs, k, Some(SubmissionStatus::Pending));
        let revision = rows_for(subs, k, Some(SubmissionStatus::NeedsRevision));
        let rejected = rows_for(subs, k, Some(SubmissionStatus::Rejected));
        let declared = declared_none(decls, k);
        let line = StudentSummary {
            student_no: k.0.clone(),
            student_name: k.1.clone(),
            submitted: all.len() as u64,
            approved: approved.len() as u64,
            pending: pending.len() as u64,
            revision: revision.len() as u64,
            rejected: rejected.len() as u64,
            approved_rows: approved,
            declared,
        };
        proof {
            assert(pairs_view(keys@)[n as int] == (k.0@, k.1@));
        }
        lines.push(line);
        n = n + 1;
    }
    proof {
        assert(lines@.map_values(|l: StudentSummary| l.key()) =~= pairs_view(keys@));
    }
    lines
}

// ---------------------------------------------------------------------------
// The sheets' rows
// ---------------------------------------------------------------------------

/// A sheet's rows, its header row among them.
pub const MAX_SHEET_ROWS: usize = 1_048_576;

/// A text cell cut to fit, as `bounded_text` cuts it; other cells as they are.
pub open spec fn bounded_cell(c: CellView, source: Seq<char>) -> CellView {
    match c {
        CellView::Text(t) => match bounded(t, source) {
            Some(b) => CellView::Text(b),
            None => c,
        },
        _ => c,
    }
}

/// The page of the admin site that shows a submission in full.
pub open spec fn submission_page(id: i64) -> Seq<char> {
    "/admin/submissions/"@ + int_text(id as int)
}

/// The detail row of the `index`-th submission as written: its texts cut to fit, each
/// cut one naming the submission's page.
pub open spec fn written_detail_row(data_years: Seq<AcademicYear>, data_attachments: Seq<Attachment>, s: Submission, index: nat) -> Seq<CellView> {
    let source = submission_page(s.id);
    let row = detail_row(data_years, data_attachments, s, index + 1);
    if utf16_len(truncation_notice(source)) <= CELL_TEXT_LIMIT {
        row.map_values(|c: CellView| bounded_cell(c, source))
    } else {
        row
    }
}

fn notice_fits(source: &str) -> (r: bool)
    ensures
        r == (utf16_len(truncation_notice(source@)) <= CELL_TEXT_LIMIT),
{
    let mut notice = String::new();
    push_str(&mut notice, "\n[内容过长，已截断；完整内容见 ");
    push_str(&mut notice, source);
    push_str(&mut notice, "]");
    assert(notice@ =~= truncation_notice(source@));
    let cs = chars_of(notice.as_str());
    utf16_count_within(cs.as_slice(), CELL_TEXT_LIMIT).is_some()
}

/// Cuts each text cell of a row to fit, naming `source` where a text is cut.
pub fn bound_cells(cells: &mut Vec<ExportCell>, source: &str)
    requires
        utf16_len(truncation_notice(source@)) <= CELL_TEXT_LIMIT,
    ensures
        final(cells)@.len() == old(cells)@.len(),
        cells_view(final(cells)@) == cells_view(old(cells)@).map_values(|c: CellView| bounded_cell(c, source@)),
{
    let ghost start = cells_view(cells@);
    let mut i: usize = 0;
    while i < cells.len()
        invariant
            i <= cells@.len(),
            start.len() == cells@.len(),
            utf16_len(truncation_notice(source@)) <= CELL_TEXT_LIMIT,
            forall|k: int| 0 <= k < i ==> (#[trigger] cells@[k]).view() == bounded_cell(start[k], source@),
            forall|k: int| i <= k < cells@.len() ==> (#[trigger] cells@[k]).view() == start[k],
        decreases cells@.len() - i,
    {
        let replacement = match &cells[i] {
            ExportCell::Text(t) => bounded_text(t.as_str(), source),
            _ => None,
        };
        match replacement {
            Some(b) => {
                cells.set(i, ExportCell::Text(b));
            },
            None => {},
        }
        i = i + 1;
    }
    assert(cells_view(cells@) =~= start.map_values(|c: CellView| bounded_cell(c, source@)));
}

/// The rows of the detail sheet, one per submission, in order; `None` when there are more
/// than a sheet holds.
pub fn detail_rows(data: &ExportData) -> (r: Option<Vec<Vec<ExportCell>>>)
    ensures
        r is None <==> data.submissions@.len() >= MAX_SHEET_ROWS,
        r matches Some(rows) ==> rows@.len() == data.submissions@.len() && forall|i: int|
            0 <= i < rows@.len() ==> cells_view(#[trigger] rows@[i]@) == written_detail_row(
                data.years@,
                data.attachments@,
                data.submissions@[i],
                i as nat,
            ),
{
    if data.submissions.len() >= MAX_SHEET_ROWS {
        return None;
    }
    let mut rows: Vec<Vec<ExportCell>> = Vec::new();
    let mut i: usize = 0;
    while i < data.submissions.len()
        invariant
            i <= data.submissions@.len() < MAX_SHEET_ROWS,
            rows@.len() == i,
            forall|k: int| 0 <= k < i ==> cells_view(#[trigger] rows@[k]@) == written_detail_row(
                data.years@,
                data.attachments@,
                data.submissions@[k],
                k as nat,
            ),
        decreases data.submissions@.len() - i,
    {
        let s = &data.submissions[i];
        let mut cells = detail_cells(data, s, (i + 1) as u32);
        let mut source = String::new();
        push_str(&mut source, "/admin/submissions/");
        let id = i64_string(s.id);
        push_str(&mut source, id.as_str());
        assert(source@ =~= submission_page(s.id));
        if notice_fits(source.as_str()) {
            bound_cells(&mut cells, source.as_str());
        }
        rows.push(cells);
        i = i + 1;
    }
    Some(rows)
}

/// A character that cannot stand in a file name on common systems.
pub open spec fn unsafe_file_char(c: char) -> bool {
    is_ctrl(c) || c == '/' || c == '\\' || c == ':' || c == '*' || c == '?' || c == '"' || c == '<'
        || c == '>' || c == '|'
}

/// The name of the exported file: the chosen year's name (the first year with that id; all
/// years when none is chosen or found), with unsafe characters replaced by `_`.
pub open spec fn export_filename_text(years: Seq<AcademicYear>, year_id: Option<i64>) -> Seq<char> {
    let name = match first_year_with(years, year_id) {
        Some(y) => y.name@,
        None => "全部学年"@,
    };
    name.map_values(|c: char| if unsafe_file_char(c) { '_' } else { c }) + "综测申报汇总.xlsx"@
}

/// The first year whose id is `year_id`.
pub open spec fn first_year_with(years: Seq<AcademicYear>, year_id: Option<i64>) -> Option<AcademicYear>
    decreases years.len(),
{
    if years.len() == 0 {
        None
    } else if Some(years[0].id) == year_id {
        Some(years[0])
    } else {
        first_year_with(years.drop_first(), year_id)
    }
}

/// The name under which the export is downloaded.
pub fn export_filename(years: &Vec<AcademicYear>, year_id: Option<i64>) -> (r: String)
    ensures
        r@ == export_filename_text(years@, year_id),
{
    let mut found: Option<usize> = None;
    let mut i: usize = 0;
    assert(years@.skip(0) =~= years@);
    while i < years.len()
        invariant
            i <= years@.len(),
            found is None ==> first_year_with(years@, year_id) == first_year_with(years@.skip(i as int), year_id),
            found matches Some(f) ==> f < years@.len() && first_year_with(years@, year_id) == Some(years@[f as int]),
        decreases years@.len() - i,
    {
        assert(years@.skip(i as int).drop_first() =~= years@.skip(i + 1));
        if found.is_none() && year_id == Some(years[i].id) {
            found = Some(i);
        }
        i = i + 1;
    }
    let name: &str = match found {
        Some(f) => years[f].name.as_str(),
        None => "全部学年",
    };
    let cs = chars_of(name);
    let mut r = String::new();
    let mut k: usize = 0;
    while k < cs.len()
        invariant
            k <= cs@.len(),
            r@ == cs@.take(k as int).map_values(|c: char| if unsafe_file_char(c) { '_' } else { c }),
        decreases cs@.len() - k,
    {
        let c = cs[k];
        let bad = char_is_control(c) || c == '/' || c == '\\' || c == ':' || c == '*' || c == '?'
            || c == '"' || c == '<' || c == '>' || c == '|';
        push_char(&mut r, if bad { '_' } else { c });
        assert(cs@.take(k + 1) =~= cs@.take(k as int).push(c));
        assert(r@ =~= cs@.take(k + 1).map_values(|c: char| if unsafe_file_char(c) { '_' } else { c }));
        k = k + 1;
    }
    assert(cs@.take(cs@.len() as int) =~= cs@);
    push_str(&mut r, "综测申报汇总.xlsx");
    r
}

/// A generated workbook and the name it is downloaded under.
pub struct ExportDownload {
    pub filename: String,
    pub bytes: Vec<u8>,
}

/// The column headings of the detail sheet.
pub open spec fn detail_header_texts() -> Seq<Seq<char>> {
    seq![
        "序号"@,
        "申报编号"@,
        "姓名"@,
        "学号"@,
        "学年"@,
        "成果类别"@,
        "成果名称"@,
        "取得日期"@,
        "学科竞赛类别"@,
        "学科竞赛目录序号"@,
        "竞赛/成果级别"@,
        "获奖等级"@,
        "实际名次/奖项"@,
        "文章性质"@,
        "发表平台/期刊"@,
        "作者排序"@,
        "社会实践身份"@,
        "专利类型"@,
        "专利状态"@,
        "专利成员排名"@,
        "专利号/申请号"@,
        "证书/考试类型"@,
        "考试成绩"@,
        "专业类别"@,
        "资格证书具体名称"@,
        "详细说明"@,
        "备注"@,
        "附件数量"@,
        "附件文件名/下载标识"@,
        "审核状态"@,
        "审核备注"@,
        "核定分值"@,
        "提交时间"@,
        "最后修改时间"@,
    ]
}

/// The column headings of the detail sheet, in column order.
pub fn detail_headers() -> (r: Vec<&'static str>)
    ensures
        r@.map_values(|h: &'static str| h@) == detail_header_texts(),
{
    let r = vec![
        "序号",
        "申报编号",
        "姓名",
        "学号",
        "学年",
        "成果类别",
        "成果名称",
        "取得日期",
        "学科竞赛类别",
        "学科竞赛目录序号",
        "竞赛/成果级别",
        "获奖等级",
        "实际名次/奖项",
        "文章性质",
        "发表平台/期刊",
        "作者排序",
        "社会实践身份",
        "专利类型",
        "专利状态",
        "专利成员排名",
        "专利号/申请号",
        "证书/考试类型",
        "考试成绩",
        "专业类别",
        "资格证书具体名称",
        "详细说明",
        "备注",
        "附件数量",
        "附件文件名/下载标识",
        "审核状态",
        "审核备注",
        "核定分值",
        "提交时间",
        "最后修改时间",
    ];
    assert(r@.map_values(|h: &'static str| h@) =~= detail_header_texts());
    r
}

/// The column headings of the summary sheet.
pub open spec fn summary_header_texts() -> Seq<Seq<char>> {
    seq![
        "序号"@,
        "姓名"@,
        "学号"@,
        "成果提交数量"@,
        "已通过数量"@,
        "待审核数量"@,
        "需补充数量"@,
        "不予认定数量"@,
        "已通过核定总分"@,
        "是否提交无材料声明"@,
    ]
}

/// The column headings of the summary sheet, in column order.
pub fn summary_headers() -> (r: Vec<&'static str>)
    ensures
        r@.map_values(|h: &'static str| h@) == summary_header_texts(),
{
    let r = vec![
        "序号",
        "姓名",
        "学号",
        "成果提交数量",
        "已通过数量",
        "待审核数量",
        "需补充数量",
        "不予认定数量",
        "已通过核定总分",
        "是否提交无材料声明",
    ];
    assert(r@.map_values(|h: &'static str| h@) =~= summary_header_texts());
    r
}

proof fn lemma_utf16_concat(a: Seq<char>, b: Seq<char>)
    ensures
        utf16_len(a + b) == utf16_len(a) + utf16_len(b),
    decreases b.len(),
{
    if b.len() == 0 {
        assert(a + b =~= a);
    } else {
        assert((a + b).drop_last() =~= a + b.drop_last());
        lemma_utf16_concat(a, b.drop_last());
    }
}

proof fn lemma_prefix_within_fits(s: Seq<char>, budget: int)
    requires
        budget >= 0,
    ensures
        utf16_len(prefix_within(s, budget)) <= budget,
        prefix_within(s, budget).len() <= s.len(),
        prefix_within(s, budget) == s.take(prefix_within(s, budget).len() as int),
    decreases s.len(),
{
    if s.len() > 0 && utf16_units(s[0]) <= budget {
        let rest = prefix_within(s.drop_first(), budget - utf16_units(s[0]));
        lemma_prefix_within_fits(s.drop_first(), budget - utf16_units(s[0]));
        lemma_utf16_concat(seq![s[0]], rest);
        assert(seq![s[0]].drop_last() =~= Seq::<char>::empty());
        assert(utf16_len(Seq::<char>::empty()) == 0);
        assert(seq![s[0]].last() == s[0]);
        assert(utf16_len(seq![s[0]]) == utf16_units(s[0]));
        assert(seq![s[0]] + rest =~= s.take(rest.len() as int + 1));
    } else {
        assert(s.take(0) =~= Seq::<char>::empty());
    }
}

/// A text cut by `bounded_text` fits in a workbook cell, and keeps the start of the
/// original text: nothing is lost silently but the part the notice points to.
pub proof fn law_bounded_text_fits(value: Seq<char>, source: Seq<char>)
    requires
        utf16_len(truncation_notice(source)) <= CELL_TEXT_LIMIT,
    ensures
        bounded(value, source) matches Some(t) ==> {
            &&& utf16_len(t) <= CELL_TEXT_LIMIT
            &&& exists|n: int| 0 <= n <= value.len() && t == value.take(n) + truncation_notice(source)
        },
{
    if utf16_len(value) > CELL_TEXT_LIMIT {
        let budget = CELL_TEXT_LIMIT - utf16_len(truncation_notice(source));
        let p = prefix_within(value, budget);
        lemma_prefix_within_fits(value, budget);
        lemma_utf16_concat(p, truncation_notice(source));
        assert(p == value.take(p.len() as int));
    }
}

/// The summary's total of a student's submissions is the sum of its counts per state.
pub proof fn law_summary_counts_add_up(subs: Seq<Submission>, k: (Seq<char>, Seq<char>))
    ensures
        rows_of(subs, k, None).len() == rows_of(subs, k, Some(SubmissionStatus::Approved)).len()
            + rows_of(subs, k, Some(SubmissionStatus::Pending)).len() + rows_of(subs, k, Some(SubmissionStatus::NeedsRevision)).len()
            + rows_of(subs, k, Some(SubmissionStatus::Rejected)).len(),
    decreases subs.len(),
{
    if subs.len() > 0 {
        law_summary_counts_add_up(subs.drop_last(), k);
    }
}

proof fn lemma_apply_cells_len(cells: Seq<CellView>, a: Seq<(int, CellView)>)
    requires
        forall|k: int| 0 <= k < a.len() ==> 0 <= (#[trigger] a[k]).0 < cells.len(),
    ensures
        apply_cells(cells, a).len() == cells.len(),
    decreases a.len(),
{
    if a.len() > 0 {
        lemma_apply_cells_len(cells, a.drop_last());
    }
}

/// After the assignments are made, a column holds what the last assignment to it put there.
proof fn lemma_apply_cells_at(cells: Seq<CellView>, a: Seq<(int, CellView)>, j: int)
    requires
        0 <= j < a.len(),
        forall|k: int| 0 <= k < a.len() ==> 0 <= (#[trigger] a[k]).0 < cells.len(),
        forall|k: int| j < k < a.len() ==> (#[trigger] a[k]).0 != a[j].0,
    ensures
        apply_cells(cells, a)[a[j].0] == a[j].1,
    decreases a.len(),
{
    lemma_apply_cells_len(cells, a.drop_last());
    if j < a.len() - 1 {
        lemma_apply_cells_at(cells, a.drop_last(), j);
    }
}

/// The detail row holds, in each category column, what the category's last assignment to
/// that column puts there.
proof fn lemma_row_category_cell(years: Seq<AcademicYear>, attachments: Seq<Attachment>, s: Submission, sequence: nat, j: int)
    requires
        0 <= j < category_assignments(s).len(),
        forall|k: int| 0 <= k < category_assignments(s).len() ==> 0 <= (#[trigger] category_assignments(s)[k]).0 < COL_DETAIL,
        forall|k: int| j < k < category_assignments(s).len() ==> (#[trigger] category_assignments(s)[k]).0 != category_assignments(s)[j].0,
    ensures
        detail_row(years, attachments, s, sequence)[category_assignments(s)[j].0] == category_assignments(s)[j].1,
{
    let ca = category_assignments(s);
    let a = ca.push((COL_DETAIL as int, text_cell(join(detail_lines(s), "\n"@))));
    let base = base_cells(years, attachments, s, sequence);
    assert(base.len() == DETAIL_COLUMNS);
    assert forall|k: int| 0 <= k < a.len() implies 0 <= (#[trigger] a[k]).0 < base.len() by {
        if k < ca.len() {
            assert(a[k] == ca[k]);
        }
    }
    assert forall|k: int| j < k < a.len() implies (#[trigger] a[k]).0 != a[j].0 by {
        assert(a[j] == ca[j]);
        if k < ca.len() {
            assert(a[k] == ca[k]);
        }
    }
    lemma_apply_cells_at(base, a, j);
    assert(a[j] == ca[j]);
}

/// In the detail row of a patent, the patent-type column holds the text of the answer under
/// `type`, the patent-status column the answer under `status`, the inventor-rank column the
/// answer under `ranking` and the patent-number column the answer under `patent_no`.
pub proof fn law_patent_columns(years: Seq<AcademicYear>, attachments: Seq<Attachment>, s: Submission, sequence: nat)
    requires
        s.category == Category::Patent,
    ensures
        detail_row(years, attachments, s, sequence)[17] == text_cell(answer_text(s.category_data, "type"@)),
        detail_row(years, attachments, s, sequence)[18] == text_cell(answer_text(s.category_data, "status"@)),
        detail_row(years, attachments, s, sequence)[19] == text_cell(answer_text(s.category_data, "ranking"@)),
        detail_row(years, attachments, s, sequence)[20] == text_cell(answer_text(s.category_data, "patent_no"@)),
{
    lemma_row_category_cell(years, attachments, s, sequence, 0);
    lemma_row_category_cell(years, attachments, s, sequence, 1);
    lemma_row_category_cell(years, attachments, s, sequence, 2);
    lemma_row_category_cell(years, attachments, s, sequence, 3);
}

/// In the detail row of an academic competition, the competition-type, catalog-number,
/// level and award-level columns hold the answers under `competition_type`, `catalog_no`,
/// `level` and `award_level`.
pub proof fn law_competition_columns(years: Seq<AcademicYear>, attachments: Seq<Attachment>, s: Submission, sequence: nat)
    requires
        s.category == Category::AcademicCompetition,
    ensures
        detail_row(years, attachments, s, sequence)[8] == text_cell(answer_text(s.category_data, "competition_type"@)),
        detail_row(years, attachments, s, sequence)[9] == text_cell(answer_text(s.category_data, "catalog_no"@)),
        detail_row(years, attachments, s, sequence)[10] == text_cell(answer_text(s.category_data, "level"@)),
        detail_row(years, attachments, s, sequence)[11] == text_cell(answer_text(s.category_data, "award_level"@)),
{
    let n = category_assignments(s).len() - 4;
    lemma_row_category_cell(years, attachments, s, sequence, n);
    lemma_row_category_cell(years, attachments, s, sequence, n + 1);
    lemma_row_category_cell(years, attachments, s, sequence, n + 2);
    lemma_row_category_cell(years, attachments, s, sequence, n + 3);
}

/// In the detail row of a social practice, the level, identity and award-level columns hold
/// the answers under `level`, `identity` and `award_level_or_none`.
pub proof fn law_social_practice_columns(years: Seq<AcademicYear>, attachments: Seq<Attachment>, s: Submission, sequence: nat)
    requires
        s.category == Category::SocialPractice,
    ensures
        detail_row(years, attachments, s, sequence)[10] == text_cell(answer_text(s.category_data, "level"@)),
        detail_row(years, attachments, s, sequence)[16] == text_cell(answer_text(s.category_data, "identity"@)),
        detail_row(years, attachments, s, sequence)[11] == text_cell(answer_text(s.category_data, "award_level_or_none"@)),
{
    lemma_row_category_cell(years, attachments, s, sequence, 0);
    lemma_row_category_cell(years, attachments, s, sequence, 1);
    lemma_row_category_cell(years, attachments, s, sequence, 2);
}

/// In the detail row of another award, the level column holds the answer under
/// `recognition_level`.
pub proof fn law_other_award_column(years: Seq<AcademicYear>, attachments: Seq<Attachment>, s: Submission, sequence: nat)
    requires
        s.category == Category::OtherAward,
    ensures
        detail_row(years, attachments, s, sequence)[10] == text_cell(answer_text(s.category_data, "recognition_level"@)),
{
    lemma_row_category_cell(years, attachments, s, sequence, 0);
}

/// In the detail row of a sports or arts competition, the level column holds the answer
/// under `level`; with an award level (是) the award-level column holds `award_level`, and
/// without one (否) the actual-award column holds `rank`.
pub proof fn law_sports_columns(years: Seq<AcademicYear>, attachments: Seq<Attachment>, s: Submission, sequence: nat)
    requires
        s.category == Category::SportsArtsCompetition,
    ensures
        detail_row(years, attachments, s, sequence)[10] == text_cell(answer_text(s.category_data, "level"@)),
        choice_text(answer(s.category_data, "has_award_level"@)) == "是"@ ==>
            detail_row(years, attachments, s, sequence)[11] == text_cell(answer_text(s.category_data, "award_level"@)),
        choice_text(answer(s.category_data, "has_award_level"@)) == "否"@ ==>
            detail_row(years, attachments, s, sequence)[12] == text_cell(answer_text(s.category_data, "rank"@)),
{
    lemma_row_category_cell(years, attachments, s, sequence, 0);
    if category_assignments(s).len() > 1 {
        lemma_row_category_cell(years, attachments, s, sequence, 1);
    }
    reveal_strlit("是");
    reveal_strlit("否");
    assert("是"@ != "否"@) by {
        assert("是"@[0] != "否"@[0]);
    }
}

/// In the detail row of an academic paper (`academic` or 学术论文), the nature column reads
/// 学术论文 and the platform and author-order columns hold `journal_name` and
/// `author_order`; for a non-academic article (`non_academic` or 非学术文章) the nature column
/// reads 非学术文章 and the platform column holds `platform`.
pub proof fn law_article_columns(years: Seq<AcademicYear>, attachments: Seq<Attachment>, s: Submission, sequence: nat)
    requires
        s.category == Category::PublishedArticle,
    ensures
        ({
            let n = answer_text(s.category_data, "nature"@);
            (n == "academic"@ || n == "学术论文"@) ==> {
                &&& detail_row(years, attachments, s, sequence)[13] == CellView::Text("学术论文"@)
                &&& detail_row(years, attachments, s, sequence)[14] == text_cell(answer_text(s.category_data, "journal_name"@))
                &&& detail_row(years, attachments, s, sequence)[15] == text_cell(answer_text(s.category_data, "author_order"@))
            }
        }),
        ({
            let n = answer_text(s.category_data, "nature"@);
            (n == "non_academic"@ || n == "非学术文章"@) ==> {
                &&& detail_row(years, attachments, s, sequence)[13] == CellView::Text("非学术文章"@)
                &&& detail_row(years, attachments, s, sequence)[14] == text_cell(answer_text(s.category_data, "platform"@))
            }
        }),
{
    reveal_strlit("academic");
    reveal_strlit("学术论文");
    reveal_strlit("non_academic");
    reveal_strlit("非学术文章");
    assert("academic"@.len() == 8 && "学术论文"@.len() == 4 && "non_academic"@.len() == 12 && "非学术文章"@.len() == 5);
    if category_assignments(s).len() > 0 {
        lemma_row_category_cell(years, attachments, s, sequence, 0);
        lemma_row_category_cell(years, attachments, s, sequence, 1);
        if category_assignments(s).len() > 2 {
            lemma_row_category_cell(years, attachments, s, sequence, 2);
        }
    }
}

/// In the detail row of a computer certificate (`computer` or 计算机), the certificate-type
/// column reads 计算机 and the computer-category and level columns hold `computer_category`
/// and `exam_level`; for another qualification (`other` or 其他资格证书) the type column reads
/// 其他资格证书 and the qualification column holds `qualification_name`.
pub proof fn law_certificate_columns(years: Seq<AcademicYear>, attachments: Seq<Attachment>, s: Submission, sequence: nat)
    requires
        s.category == Category::Certification,
    ensures
        ({
            let k = answer_text(s.category_data, "certificate_type"@);
            (k == "computer"@ || k == "计算机"@) ==> {
                &&& detail_row(years, attachments, s, sequence)[21] == CellView::Text("计算机"@)
                &&& detail_row(years, attachments, s, sequence)[23] == text_cell(answer_text(s.category_data, "computer_category"@))
                &&& detail_row(years, attachments, s, sequence)[10] == text_cell(answer_text(s.category_data, "exam_level"@))
            }
        }),
        ({
            let k = answer_text(s.category_data, "certificate_type"@);
            (k == "other"@ || k == "其他资格证书"@) ==> {
                &&& detail_row(years, attachments, s, sequence)[21] == CellView::Text("其他资格证书"@)
                &&& detail_row(years, attachments, s, sequence)[24] == text_cell(answer_text(s.category_data, "qualification_name"@))
            }
        }),
{
    reveal_strlit("CET-6");
    reveal_strlit("雅思/托福");
    reveal_strlit("computer");
    reveal_strlit("计算机");
    reveal_strlit("other");
    reveal_strlit("其他资格证书");
    assert("CET-6"@.len() == 5 && "雅思/托福"@.len() == 5 && "computer"@.len() == 8 && "计算机"@.len() == 3);
    assert("other"@.len() == 5 && "其他资格证书"@.len() == 6);
    assert("other"@[0] != "CET-6"@[0] && "other"@[0] != "雅思/托福"@[0]);
    lemma_row_category_cell(years, attachments, s, sequence, 0);
    if category_assignments(s).len() > 1 {
        lemma_row_category_cell(years, attachments, s, sequence, 1);
        if category_assignments(s).len() > 2 {
            lemma_row_category_cell(years, attachments, s, sequence, 2);
        }
    }
}

} // verus!
