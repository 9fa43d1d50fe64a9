//! The administrator's dashboard filters and review form.
use vstd::prelude::*;

use crate::domain::{
    category_from_name, category_name, parse_category, parse_status, status_from_name,
    status_name, AcademicYear, Category, SubmissionStatus,
};
use crate::form::FormValues;
use crate::text::{all_digits, find_char, first_index_of, sub_chars, 
    chars_have_control, chars_of, has_ctrl, i64_string, int_text, parse_i64, parse_i64_spec,
    push_str, str_eq, string_of, trim, trim_chars,
};
use crate::url::{encode_query, encoded_query};
use super::{add_msg, rejects_with, ValidationErrors};
use super::category::Errs;

verus! {

/// Which records the dashboard and the export show.
#[derive(Debug, Clone, Default)]
pub struct SubmissionFilter {
    pub academic_year_id: Option<i64>,
    pub name: Option<String>,
    pub student_no: Option<String>,
    pub category: Option<Category>,
    pub status: Option<SubmissionStatus>,
}

/// A dashboard row is a submission or a no-material declaration.
#[derive(Debug, Clone, Copy, PartialEq, Eq, Structural)]
pub enum DashboardRowKind {
    Submission,
    Declaration,
}

/// The id of the first active year.
pub open spec fn active_year_id(years: Seq<AcademicYear>) -> Option<i64>
    decreases years.len(),
{
    if years.len() == 0 {
        None
    } else if years[0].is_active {
        Some(years[0].id)
    } else {
        active_year_id(years.drop_first())
    }
}

pub open spec fn has_year(years: Seq<AcademicYear>, id: i64) -> bool {
    exists|i: int| 0 <= i < years.len() && (#[trigger] years[i]).id == id
}

/// The year chosen by the filter form, and whether the field was unusable.
pub open spec fn year_choice(v: FormValues, years: Seq<AcademicYear>) -> (Option<i64>, bool) {
    match v.lookup("academic_year_id"@) {
        None => (active_year_id(years), false),
        Some(raw) => if trim(raw).len() == 0 {
            (None, false)
        } else {
            match parse_i64_spec(raw) {
                Some(id) => if has_year(years, id) { (Some(id), false) } else { (active_year_id(years), true) },
                None => (active_year_id(years), true),
            }
        },
    }
}

/// A text filter: present and not blank, it must fit `max` characters without control characters.
pub open spec fn text_choice(v: FormValues, key: Seq<char>, max: nat) -> (Option<Seq<char>>, bool) {
    match v.lookup(key) {
        Some(raw) => if trim(raw).len() == 0 {
            (None, false)
        } else if trim(raw).len() <= max && !has_ctrl(trim(raw)) {
            (Some(trim(raw)), false)
        } else {
            (None, true)
        },
        None => (None, false),
    }
}

pub open spec fn category_choice(v: FormValues) -> (Option<Category>, bool) {
    match v.lookup("category"@) {
        Some(raw) => if raw.len() == 0 {
            (None, false)
        } else {
            match category_from_name(raw) {
                Some(c) => (Some(c), false),
                None => (None, true),
            }
        },
        None => (None, false),
    }
}

pub open spec fn status_choice(v: FormValues) -> (Option<SubmissionStatus>, bool) {
    match v.lookup("status"@) {
        Some(raw) => if raw.len() == 0 {
            (None, false)
        } else {
            match status_from_name(raw) {
                Some(s) => (Some(s), false),
                None => (None, true),
            }
        },
        None => (None, false),
    }
}

pub open spec fn opt_str(v: Option<String>) -> Option<Seq<char>> {
    match v {
        Some(s) => Some(s@),
        None => None,
    }
}

fn active_year(years: &[AcademicYear]) -> (r: Option<i64>)
    ensures
        r == active_year_id(years@),
{
    let mut i: usize = 0;
    assert(years@.skip(0) =~= years@);
    while i < years.len()
        invariant
            i <= years@.len(),
            active_year_id(years@) == active_year_id(years@.skip(i as int)),
        decreases years@.len() - i,
    {
        assert(years@.skip(i as int).drop_first() =~= years@.skip(i + 1));
        if years[i].is_active {
            return Some(years[i].id);
        }
        i = i + 1;
    }
    None
}

fn year_exists(years: &[AcademicYear], id: i64) -> (r: bool)
    ensures
        r == has_year(years@, id),
{
    let mut i: usize = 0;
    while i < years.len()
        invariant
            i <= years@.len(),
            forall|j: int| 0 <= j < i ==> years@[j].id != id,
        decreases years@.len() - i,
    {
        if years[i].id == id {
            return true;
        }
        i = i + 1;
    }
    false
}

fn text_filter(values: &FormValues, key: &str, max: usize) -> (r: (Option<String>, bool))
    ensures
        (opt_str(r.0), r.1) == text_choice(*values, key@, max as nat),
{
    match values.get(key) {
        Some(raw) => {
            let cs = chars_of(raw);
            let t = trim_chars(cs.as_slice());
            if t.len() == 0 {
                (None, false)
            } else if t.len() <= max && !chars_have_control(t.as_slice()) {
                (Some(string_of(t.as_slice())), false)
            } else {
                (None, true)
            }
        },
        None => (None, false),
    }
}

/// The filter the dashboard query asks for; the flag is set when a field was unusable
/// (that field then keeps its default).
pub fn dashboard_filters(values: &FormValues, years: &[AcademicYear]) -> (r: (SubmissionFilter, bool))
    ensures
        r.0.academic_year_id == year_choice(*values, years@).0,
        opt_str(r.0.name) == text_choice(*values, "name"@, 50).0,
        opt_str(r.0.student_no) == text_choice(*values, "student_no"@, 30).0,
        r.0.category == category_choice(*values).0,
        r.0.status == status_choice(*values).0,
        r.1 == (year_choice(*values, years@).1 || text_choice(*values, "name"@, 50).1
            || text_choice(*values, "student_no"@, 30).1 || category_choice(*values).1
            || status_choice(*values).1),
{
    let current = active_year(years);
    let mut invalid = false;
    let academic_year_id = match values.get("academic_year_id") {
        None => current,
        Some(raw) => {
            let cs = chars_of(raw);
            let t = trim_chars(cs.as_slice());
            if t.len() == 0 {
                None
            } else {
                match parse_i64(raw) {
                    Some(id) => {
                        if year_exists(years, id) {
                            Some(id)
                        } else {
                            invalid = true;
                            current
                        }
                    },
                    None => {
                        invalid = true;
                        current
                    },
                }
            }
        },
    };
    let (name, bad_name) = text_filter(values, "name", 50);
    let (student_no, bad_no) = text_filter(values, "student_no", 30);
    let category = match values.get("category") {
        Some(raw) => {
            if raw.is_empty() {
                None
            } else {
                match parse_category(raw) {
                    Some(c) => Some(c),
                    None => {
                        invalid = true;
                        None
                    },
                }
            }
        },
        None => None,
    };
    let status = match values.get("status") {
        Some(raw) => {
            if raw.is_empty() {
                None
            } else {
                match parse_status(raw) {
                    Some(s) => Some(s),
                    None => {
                        invalid = true;
                        None
                    },
                }
            }
        },
        None => None,
    };
    let filter = SubmissionFilter { academic_year_id, name, student_no, category, status };
    (filter, invalid || bad_name || bad_no)
}

/// The form fields that reproduce a filter, every field present (empty when unset).
pub open spec fn filter_fields(f: SubmissionFilter) -> Seq<(Seq<char>, Seq<char>)> {
    seq![
        ("academic_year_id"@, match f.academic_year_id { Some(id) => int_text(id as int), None => Seq::empty() }),
        ("name"@, match f.name { Some(n) => n@, None => Seq::empty() }),
        ("student_no"@, match f.student_no { Some(n) => n@, None => Seq::empty() }),
        ("category"@, match f.category { Some(c) => category_name(c), None => Seq::empty() }),
        ("status"@, match f.status { Some(s) => status_name(s), None => Seq::empty() }),
    ]
}

/// The export link for exactly the rows the dashboard shows.
pub fn filtered_export_url(filter: &SubmissionFilter) -> (r: String)
    ensures
        exists|v: FormValues| #![trigger encoded_query(v)]
            v.entries@.map_values(|e: (String, String)| (e.0@, e.1@)) == filter_fields(*filter)
            && r@ == "/admin/export.xlsx?"@ + encoded_query(v),
{
    let mut values = FormValues::new();
    let year = match filter.academic_year_id {
        Some(id) => i64_string(id),
        None => String::new(),
    };
    let name = match &filter.name {
        Some(n) => n.clone(),
        None => String::new(),
    };
    let no = match &filter.student_no {
        Some(n) => n.clone(),
        None => String::new(),
    };
    let mut category = String::new();
    match filter.category {
        Some(c) => push_str(&mut category, c.as_str()),
        None => {},
    }
    let mut status = String::new();
    match filter.status {
        Some(s) => push_str(&mut status, s.as_str()),
        None => {},
    }
    values.entries.push(("academic_year_id".to_owned(), year));
    values.entries.push(("name".to_owned(), name));
    values.entries.push(("student_no".to_owned(), no));
    values.entries.push(("category".to_owned(), category));
    values.entries.push(("status".to_owned(), status));
    assert(values.entries@.map_values(|e: (String, String)| (e.0@, e.1@)) =~= filter_fields(*filter));
    let q = encode_query(&values);
    let mut r = String::new();
    push_str(&mut r, "/admin/export.xlsx?");
    push_str(&mut r, q.as_str());
    r
}


/// A score text in plain decimal notation with at most two decimal places: digits, or
/// digits, a dot and one or two digits.
pub open spec fn score_text_ok(v: Seq<char>) -> bool {
    match first_index_of(v, '.') {
        None => all_digits(v),
        Some(i) => all_digits(v.take(i)) && all_digits(v.skip(i + 1)) && v.skip(i + 1).len() <= 2,
    }
}

fn digits_only(s: &[char]) -> (r: bool)
    ensures
        r == all_digits(s@),
{
    if s.len() == 0 {
        return false;
    }
    let mut i: usize = 0;
    while i < s.len()
        invariant
            i <= s@.len(),
            forall|k: int| 0 <= k < i ==> crate::text::is_digit(#[trigger] s@[k]),
        decreases s@.len() - i,
    {
        if !('0' <= s[i] && s[i] <= '9') {
            return false;
        }
        i = i + 1;
    }
    true
}

/// The notation check of a review score (the caller has trimmed it and found it not empty).
pub fn plain_score_text(value: &str) -> (r: bool)
    ensures
        r == score_text_ok(value@),
{
    let cs = chars_of(value);
    match find_char(cs.as_slice(), '.') {
        None => digits_only(cs.as_slice()),
        Some(i) => {
            let integer = sub_chars(cs.as_slice(), 0, i);
            let fraction = sub_chars(cs.as_slice(), i + 1, cs.len());
            assert(integer@ =~= value@.take(i as int));
            assert(fraction@ =~= value@.skip(i + 1));
            digits_only(integer.as_slice()) && digits_only(fraction.as_slice()) && fraction.len() <= 2
        },
    }
}

/// A review's state and trimmed note; the score is carried separately.
#[derive(Debug, Clone)]
pub struct ReviewDecision {
    pub status: SubmissionStatus,
    pub review_note: Option<String>,
}

/// The messages of the review form, given whether the score field passed its check.
pub open spec fn review_errs(status: Seq<char>, note: Seq<char>, score: Seq<char>, score_valid: bool) -> Errs {
    let m0 = Map::<Seq<char>, Seq<Seq<char>>>::empty();
    let m1 = if status_from_name(status) is None {
        add_msg(m0, "status"@, "请选择有效的审核状态"@)
    } else {
        m0
    };
    let m2 = if !score_valid {
        add_msg(m1, "approved_score"@, "分值必须是非负且最多两位小数的数字"@)
    } else {
        m1
    };
    let m3 = if status_from_name(status) == Some(SubmissionStatus::Approved) && trim(score).len() == 0 {
        add_msg(m2, "approved_score"@, "已通过的申报必须填写核定分值，可填写 0"@)
    } else {
        m2
    };
    if trim(note).len() > 4000 {
        add_msg(m3, "review_note"@, "审核备注不能超过 4000 个字符"@)
    } else {
        m3
    }
}

/// The review form without its number: a known state, a score when approving, a note of at
/// most 4000 characters.
pub fn review_decision(status: &str, note: &str, score: &str, score_valid: bool) -> (r: Result<ReviewDecision, ValidationErrors>)
    ensures
        rejects_with(r, review_errs(status@, note@, score@, score_valid)),
        r matches Ok(d) ==> Some(d.status) == status_from_name(status@)
            && opt_str(d.review_note) == (if trim(note@).len() > 0 { Some(trim(note@)) } else { None }),
{
    let mut errors = ValidationErrors::new();
    let parsed = parse_status(status);
    if parsed.is_none() {
        errors.add("status", "请选择有效的审核状态");
    }
    if !score_valid {
        errors.add("approved_score", "分值必须是非负且最多两位小数的数字");
    }
    let score_chars = chars_of(score);
    let score_trimmed = trim_chars(score_chars.as_slice());
    let approved = match parsed {
        Some(SubmissionStatus::Approved) => true,
        _ => false,
    };
    if approved && score_trimmed.len() == 0 {
        errors.add("approved_score", "已通过的申报必须填写核定分值，可填写 0");
    }
    let note_chars = chars_of(note);
    let note_trimmed = trim_chars(note_chars.as_slice());
    if note_trimmed.len() > 4000 {
        errors.add("review_note", "审核备注不能超过 4000 个字符");
    }
    match parsed {
        Some(s) => {
            if errors.is_empty() {
                let review_note = if note_trimmed.len() > 0 {
                    Some(string_of(note_trimmed.as_slice()))
                } else {
                    None
                };
                Ok(ReviewDecision { status: s, review_note })
            } else {
                Err(errors)
            }
        },
        None => Err(errors),
    }
}

/// A review with a known state other than approved, a score that passed its check and a note
/// of at most 4000 characters once trimmed is accepted, with that state; only an approved
/// review needs a score.
pub proof fn law_review_accepts(
    st: SubmissionStatus,
    note: Seq<char>,
    score: Seq<char>,
    r: Result<ReviewDecision, ValidationErrors>,
)
    requires
        st != SubmissionStatus::Approved || trim(score).len() > 0,
        trim(note).len() <= 4000,
        rejects_with(r, review_errs(status_name(st), note, score, true)),
        r matches Ok(d) ==> Some(d.status) == status_from_name(status_name(st)),
    ensures
        r matches Ok(d) && d.status == st,
{
    crate::domain::law_status_name_round_trip(st);
    assert(review_errs(status_name(st), note, score, true) =~= Map::<Seq<char>, Seq<Seq<char>>>::empty());
}

/// An approved review with a blank score is refused under the score field, whatever else
/// it holds.
pub proof fn law_approval_needs_score(note: Seq<char>, score: Seq<char>, score_valid: bool, r: Result<ReviewDecision, ValidationErrors>)
    requires
        trim(score).len() == 0,
        rejects_with(r, review_errs("approved"@, note, score, score_valid)),
    ensures
        r matches Err(e) && e@.contains_key("approved_score"@),
{
    crate::domain::law_status_name_round_trip(SubmissionStatus::Approved);
    let e = review_errs("approved"@, note, score, score_valid);
    assert(e.contains_key("approved_score"@));
}

/// A year field that reads as the id of a listed year selects that year, and the field is
/// not reported as unusable.
pub proof fn law_listed_year_is_selected(values: FormValues, years: Seq<AcademicYear>, raw: Seq<char>, i: int)
    requires
        values.lookup("academic_year_id"@) == Some(raw),
        0 <= i < years.len(),
        parse_i64_spec(raw) == Some(years[i].id),
    ensures
        year_choice(values, years) == (Some(years[i].id), false),
{
    assert(raw.len() > 0);
    assert(!crate::text::is_ws(raw[0]));
    crate::text::lemma_trim_nonblank(raw, 0);
    assert(has_year(years, years[i].id));
}

/// Without a year field the dashboard shows the first active year.
pub proof fn law_default_year_is_active(values: FormValues, years: Seq<AcademicYear>)
    requires
        values.lookup("academic_year_id"@) is None,
    ensures
        year_choice(values, years) == (active_year_id(years), false),
{
}

/// A name or student-number filter that is not blank once trimmed, fits its length and has
/// no control character is kept trimmed, and the field is not reported as unusable.
pub proof fn law_text_filter_kept(values: FormValues, key: Seq<char>, max: nat, raw: Seq<char>)
    requires
        values.lookup(key) == Some(raw),
        0 < trim(raw).len() <= max,
        !has_ctrl(trim(raw)),
    ensures
        text_choice(values, key, max) == (Some(trim(raw)), false),
{
}

/// A category or status field holding the name of a category or state selects it.
pub proof fn law_named_choice_selected(values: FormValues, c: Category, st: SubmissionStatus)
    requires
        values.lookup("category"@) == Some(category_name(c)),
        values.lookup("status"@) == Some(status_name(st)),
    ensures
        category_choice(values) == (Some(c), false),
        status_choice(values) == (Some(st), false),
{
    crate::domain::law_category_name_round_trip(c);
    crate::domain::law_status_name_round_trip(st);
    reveal_strlit("academic_competition");
    reveal_strlit("sports_arts_competition");
    reveal_strlit("other_award");
    reveal_strlit("published_article");
    reveal_strlit("social_practice");
    reveal_strlit("patent");
    reveal_strlit("certification");
    reveal_strlit("pending");
    reveal_strlit("approved");
    reveal_strlit("needs_revision");
    reveal_strlit("rejected");
    assert(category_name(c).len() > 0);
    assert(status_name(st).len() > 0);
}

/// A review whose state is no known name, or whose trimmed note is longer than 4000
/// characters, is refused under that field.
pub proof fn law_review_refusals(status: Seq<char>, note: Seq<char>, score: Seq<char>, score_valid: bool, r: Result<ReviewDecision, ValidationErrors>)
    requires
        rejects_with(r, review_errs(status, note, score, score_valid)),
    ensures
        status_from_name(status) is None ==> (r matches Err(e) && e@.contains_key("status"@)),
        trim(note).len() > 4000 ==> (r matches Err(e) && e@.contains_key("review_note"@)),
        !score_valid ==> (r matches Err(e) && e@.contains_key("approved_score"@)),
{
    let e = review_errs(status, note, score, score_valid);
    if status_from_name(status) is None {
        assert(e.contains_key("status"@));
    }
    if trim(note).len() > 4000 {
        assert(e.contains_key("review_note"@));
    }
    if !score_valid {
        assert(e.contains_key("approved_score"@));
    }
}

} // verus!
