//! Student rosters: reading an uploaded list of names and numbers.
use vstd::prelude::*;

use crate::error::AppError;
use std::io::Read;

use calamine::{Data, Reader};
use quick_xml::events::Event;

use crate::text::{
    all_digits, ascii_lower, chars_have_control, chars_of, decimal, decimal_string, digits_at_most,
    digits_value, has_ctrl, lemma_lex_irrefl, lemma_lex_total, lemma_lex_trans, lex_compare,
    lex_lt, push_str, str_eq, to_ascii_lower, trim, trimmed,
};
use crate::validation::{add_msg, ValidationErrors};

verus! {

/// The largest roster file accepted.
pub const MAX_ROSTER_BYTES: usize = 2 * 1024 * 1024;

/// The most students one roster may list.
pub const MAX_ROSTER_ROWS: usize = 5000;

/// A student allowed to submit in a year.
#[derive(Debug, Clone, PartialEq, Eq)]
pub struct RosterStudent {
    pub student_name: String,
    pub student_no: String,
}

/// The roster is refused with this message (under the field `roster`).
pub open spec fn refused_with(e: AppError, msg: Seq<char>) -> bool {
    e matches AppError::Validation(v) && v.wf() && v@ == add_msg(Map::empty(), "roster"@, msg)
}

/// A roster error with this message.
pub fn invalid(message: &str) -> (r: AppError)
    ensures
        refused_with(r, message@),
{
    let mut errors = ValidationErrors::new();
    errors.add("roster", message);
    AppError::Validation(errors)
}

/// A row with at least one non-blank cell.
pub open spec fn row_nonblank(row: Seq<Seq<char>>) -> bool {
    exists|c: int| 0 <= c < row.len() && trim(#[trigger] row[c]).len() > 0
}

/// The rows that are not blank, in order.
pub open spec fn kept_rows(rows: Seq<Seq<Seq<char>>>) -> Seq<Seq<Seq<char>>>
    decreases rows.len(),
{
    if rows.len() == 0 {
        Seq::empty()
    } else if row_nonblank(rows.last()) {
        kept_rows(rows.drop_last()).push(rows.last())
    } else {
        kept_rows(rows.drop_last())
    }
}

/// The first column whose trimmed heading is `label`.
pub open spec fn column_of(header: Seq<Seq<char>>, label: Seq<char>) -> Option<int>
    decreases header.len(),
{
    if header.len() == 0 {
        None
    } else if trim(header[0]) == label {
        Some(0)
    } else {
        match column_of(header.drop_first(), label) {
            Some(i) => Some(i + 1),
            None => None,
        }
    }
}

/// The trimmed text of column `col` of a row, empty when the row is shorter.
pub open spec fn cell_text(row: Seq<Seq<char>>, col: int) -> Seq<char> {
    if 0 <= col < row.len() {
        trim(row[col])
    } else {
        Seq::empty()
    }
}

/// The (number, name) of each row below the header.
pub open spec fn roster_entries(data: Seq<Seq<Seq<char>>>, name_col: int, number_col: int) -> Seq<(Seq<char>, Seq<char>)> {
    data.map_values(|row: Seq<Seq<char>>| (cell_text(row, number_col), cell_text(row, name_col)))
}

/// A name of 1 to 50 and a number of 1 to 30 characters, neither with a control character.
pub open spec fn entry_ok(e: (Seq<char>, Seq<char>)) -> bool {
    &&& 1 <= e.1.len() <= 50
    &&& 1 <= e.0.len() <= 30
    &&& !has_ctrl(e.1)
    &&& !has_ctrl(e.0)
}

/// An earlier row gives the same number another name.
pub open spec fn conflicts(es: Seq<(Seq<char>, Seq<char>)>, i: int) -> bool {
    exists|j: int| 0 <= j < i && (#[trigger] es[j]).0 == es[i].0 && es[j].1 != es[i].1
}

pub open spec fn too_many_msg() -> Seq<char> {
    "每次最多导入 5000 行学生名单"@
}

pub open spec fn bad_row_msg(i: int) -> Seq<char> {
    "第 "@ + decimal((i + 2) as nat) + " 行姓名或学号为空、过长或包含无效字符"@
}

pub open spec fn conflict_msg() -> Seq<char> {
    "同一学号对应了不同姓名，请核对名单后重新导入"@
}

/// What is wrong with the `i`-th row below the header, if anything: beyond the limit,
/// an invalid name or number, or a number given another name before.
pub open spec fn row_problem(es: Seq<(Seq<char>, Seq<char>)>, i: int) -> Option<Seq<char>> {
    if i >= MAX_ROSTER_ROWS {
        Some(too_many_msg())
    } else if !entry_ok(es[i]) {
        Some(bad_row_msg(i))
    } else if conflicts(es, i) {
        Some(conflict_msg())
    } else {
        None
    }
}

/// Strictly increasing student numbers.
pub open spec fn numbers_sorted(s: Seq<(Seq<char>, Seq<char>)>) -> bool {
    forall|a: int, b: int| 0 <= a < b < s.len() ==> lex_lt((#[trigger] s[a]).0, (#[trigger] s[b]).0)
}

pub open spec fn students_view(s: Seq<RosterStudent>) -> Seq<(Seq<char>, Seq<char>)> {
    s.map_values(|r: RosterStudent| (r.student_no@, r.student_name@))
}

pub open spec fn row_view(row: Vec<String>) -> Seq<Seq<char>> {
    row@.map_values(|s: String| s@)
}

pub open spec fn rows_view(rows: Seq<Vec<String>>) -> Seq<Seq<Seq<char>>> {
    rows.map_values(|r: Vec<String>| row_view(r))
}

/// Whether some row cell is not blank.
fn nonblank_row(row: &Vec<String>) -> (r: bool)
    ensures
        r == row_nonblank(row_view(*row)),
{
    let mut c: usize = 0;
    while c < row.len()
        invariant
            c <= row@.len(),
            forall|k: int| 0 <= k < c ==> trim(#[trigger] row_view(*row)[k]).len() == 0,
        decreases row@.len() - c,
    {
        assert(row_view(*row)[c as int] == row@[c as int]@);
        if !trimmed(row[c].as_str()).as_str().is_empty() {
            return true;
        }
        c = c + 1;
    }
    false
}

/// The first column with this heading.
fn column_index(header: &Vec<String>, label: &str) -> (r: Option<usize>)
    ensures
        match r {
            Some(i) => column_of(row_view(*header), label@) == Some(i as int),
            None => column_of(row_view(*header), label@) is None,
        },
{
    let ghost h = row_view(*header);
    let mut i: usize = 0;
    assert(h.skip(0) =~= h);
    while i < header.len()
        invariant
            i <= header@.len(),
            h == row_view(*header),
            column_of(h, label@) == match column_of(h.skip(i as int), label@) {
                Some(j) => Some(j + i),
                None => None,
            },
        decreases header@.len() - i,
    {
        assert(h.skip(i as int).drop_first() =~= h.skip(i + 1));
        assert(h.skip(i as int)[0] == header@[i as int]@);
        if str_eq(trimmed(header[i].as_str()).as_str(), label) {
            return Some(i);
        }
        i = i + 1;
    }
    None
}

fn cell_of(row: &Vec<String>, col: usize) -> (r: String)
    ensures
        r@ == cell_text(row_view(*row), col as int),
{
    if col < row.len() {
        assert(row_view(*row)[col as int] == row@[col as int]@);
        trimmed(row[col].as_str())
    } else {
        String::new()
    }
}

fn entry_valid(number: &str, name: &str) -> (r: bool)
    ensures
        r == entry_ok((number@, name@)),
{
    let n = chars_of(name);
    let k = chars_of(number);
    1 <= n.len() && n.len() <= 50 && 1 <= k.len() && k.len() <= 30 && !chars_have_control(
        n.as_slice(),
    ) && !chars_have_control(k.as_slice())
}

proof fn lemma_lex_order(a: Seq<char>, b: Seq<char>)
    ensures
        !(lex_lt(a, b) && lex_lt(b, a)),
        !lex_lt(a, a),
        a == b || lex_lt(a, b) || lex_lt(b, a),
{
    lemma_lex_irrefl(a);
    lemma_lex_total(a, b);
    if lex_lt(a, b) && lex_lt(b, a) {
        lemma_lex_trans(a, b, a);
        lemma_lex_irrefl(a);
    }
}

proof fn lemma_push_to_set<A>(s: Seq<A>, e: A)
    ensures
        s.push(e).to_set() == s.to_set().insert(e),
{
    assert forall|x: A| s.push(e).contains(x) <==> s.to_set().insert(e).contains(x) by {
        if s.push(e).contains(x) {
            let j = choose|j: int| 0 <= j < s.push(e).len() && s.push(e)[j] == x;
            if j < s.len() {
                assert(s[j] == x);
            }
        }
        if s.contains(x) {
            let j = choose|j: int| 0 <= j < s.len() && s[j] == x;
            assert(s.push(e)[j] == x);
        }
        if x == e {
            assert(s.push(e)[s.len() as int] == e);
        }
    }
    assert(s.push(e).to_set() =~= s.to_set().insert(e));
}

/// Where `number` is, or would go, in a list sorted by number.
fn find_number(students: &Vec<RosterStudent>, number: &str) -> (r: usize)
    requires
        numbers_sorted(students_view(students@)),
    ensures
        r <= students@.len(),
        forall|j: int| 0 <= j < r ==> lex_lt((#[trigger] students_view(students@)[j]).0, number@),
        r < students@.len() ==> !lex_lt(students_view(students@)[r as int].0, number@),
{
    let cn = chars_of(number);
    let mut p: usize = 0;
    while p < students.len()
        invariant
            p <= students@.len(),
            cn@ == number@,
            forall|j: int| 0 <= j < p ==> lex_lt((#[trigger] students_view(students@)[j]).0, number@),
        decreases students@.len() - p,
    {
        let cs = chars_of(students[p].student_no.as_str());
        assert(students_view(students@)[p as int].0 == students@[p as int].student_no@);
        if lex_compare(cs.as_slice(), cn.as_slice()) >= 0 {
            return p;
        }
        p = p + 1;
    }
    p
}

/// What reading these rows gives: the refusals of `normalize`, or its students.
pub open spec fn roster_outcome(rows: Seq<Seq<Seq<char>>>, r: Result<Vec<RosterStudent>, AppError>) -> bool {
    let kept = kept_rows(rows);
    if kept.len() == 0 {
        r matches Err(e) && refused_with(e, "请先导入学生名单"@)
    } else if column_of(kept[0], "姓名"@) is None || column_of(kept[0], "学号"@) is None {
        r matches Err(e) && refused_with(e, "第一行必须包含“姓名”和“学号”两列表头"@)
    } else {
        let es = roster_entries(
            kept.drop_first(),
            column_of(kept[0], "姓名"@).unwrap(),
            column_of(kept[0], "学号"@).unwrap(),
        );
        if exists|i: int| 0 <= i < es.len() && (#[trigger] row_problem(es, i)) is Some {
            exists|i: int| {
                &&& 0 <= i < es.len()
                &&& #[trigger] row_problem(es, i) matches Some(m)
                &&& r matches Err(e) && refused_with(e, m)
                &&& forall|j: int| 0 <= j < i ==> row_problem(es, j) is None
            }
        } else if es.len() == 0 {
            r matches Err(e) && refused_with(e, "名单只有表头，请至少添加一名学生"@)
        } else {
            r matches Ok(students) && numbers_sorted(students_view(students@))
                && students_view(students@).to_set() == es.to_set()
        }
    }
}

/// Reads the rows of a roster: the first non-blank row is the header, which must name
/// the columns 姓名 and 学号; every other non-blank row is a student. The students come
/// out ordered by number, each number once. A row that breaks a rule refuses the whole
/// roster, the first such row deciding the message.
pub fn normalize(rows: Vec<Vec<String>>) -> (r: Result<Vec<RosterStudent>, AppError>)
    ensures
        roster_outcome(rows_view(rows@), r),
{
    let ghost rv = rows_view(rows@);
    let mut kept: Vec<usize> = Vec::new();
    let mut i: usize = 0;
    while i < rows.len()
        invariant
            i <= rows@.len(),
            rv == rows_view(rows@),
            kept@.len() == kept_rows(rv.take(i as int)).len(),
            forall|k: int| 0 <= k < kept@.len() ==> (#[trigger] kept@[k]) < rows@.len()
                && rv[kept@[k] as int] == kept_rows(rv.take(i as int))[k],
        decreases rows@.len() - i,
    {
        proof {
            assert(rv.take(i + 1).drop_last() =~= rv.take(i as int));
            assert(rv.take(i + 1).last() == row_view(rows@[i as int]));
        }
        if nonblank_row(&rows[i]) {
            kept.push(i);
        }
        i = i + 1;
    }
    assert(rv.take(rows@.len() as int) =~= rv);
    let ghost kr = kept_rows(rv);
    if kept.len() == 0 {
        return Err(invalid("请先导入学生名单"));
    }
    let header = &rows[kept[0]];
    assert(row_view(*header) == kr[0]) by {
        assert(rv[kept@[0] as int] == row_view(rows@[kept@[0] as int]));
    }
    let name_col = column_index(header, "姓名");
    let number_col = column_index(header, "学号");
    let (name_col, number_col) = match (name_col, number_col) {
        (Some(a), Some(b)) => (a, b),
        _ => {
            return Err(invalid("第一行必须包含“姓名”和“学号”两列表头"));
        },
    };
    let ghost es = roster_entries(kr.drop_first(), name_col as int, number_col as int);
    let mut students: Vec<RosterStudent> = Vec::new();
    let mut t: usize = 1;
    while t < kept.len()
        invariant
            1 <= t <= kept@.len(),
            kept@.len() == kr.len(),
            rv == rows_view(rows@),
            kr == kept_rows(rv),
            column_of(kr[0], "姓名"@) == Some(name_col as int),
            column_of(kr[0], "学号"@) == Some(number_col as int),
            forall|k: int| 0 <= k < kept@.len() ==> (#[trigger] kept@[k]) < rows@.len() && rv[kept@[k] as int] == kr[k],
            es == roster_entries(kr.drop_first(), name_col as int, number_col as int),
            forall|j: int| 0 <= j < t - 1 ==> (#[trigger] row_problem(es, j)) is None,
            numbers_sorted(students_view(students@)),
            students_view(students@).to_set() == es.take(t - 1).to_set(),
        decreases kept@.len() - t,
    {
        let index = t - 1;
        let ghost e = es[index as int];
        proof {
            assert(kr.drop_first()[index as int] == kr[t as int]);
            assert(rv[kept@[t as int] as int] == row_view(rows@[kept@[t as int] as int]));
        }
        assert(0 <= index < es.len());
        if index >= MAX_ROSTER_ROWS {
            let r = Err(invalid("每次最多导入 5000 行学生名单"));
            proof {
                assert(row_problem(es, index as int) == Some(too_many_msg()));
            }
            return r;
        }
        let row = &rows[kept[t]];
        let name = cell_of(row, name_col);
        let number = cell_of(row, number_col);
        assert(e == (number@, name@));
        if !entry_valid(number.as_str(), name.as_str()) {
            let mut msg = String::new();
            push_str(&mut msg, "第 ");
            let n = decimal_string((index + 2) as u64);
            push_str(&mut msg, n.as_str());
            push_str(&mut msg, " 行姓名或学号为空、过长或包含无效字符");
            assert(msg@ =~= bad_row_msg(index as int));
            let r = Err(invalid(msg.as_str()));
            proof {
                assert(row_problem(es, index as int) == Some(bad_row_msg(index as int)));
            }
            return r;
        }
        let p = find_number(&students, number.as_str());
        let ghost sv = students_view(students@);
        if p < students.len() && str_eq(students[p].student_no.as_str(), number.as_str()) {
            assert(sv[p as int] == (students@[p as int].student_no@, students@[p as int].student_name@));
            if !str_eq(students[p].student_name.as_str(), name.as_str()) {
                proof {
                    assert(sv.to_set().contains(sv[p as int]));
                    assert(es.take(index as int).to_set().contains(sv[p as int]));
                    let j = choose|j: int| 0 <= j < es.take(index as int).len() && es.take(index as int)[j] == sv[p as int];
                    assert(es[j] == es.take(index as int)[j]);
                    assert(conflicts(es, index as int));
                    assert(row_problem(es, index as int) == Some(conflict_msg()));
                }
                return Err(invalid("同一学号对应了不同姓名，请核对名单后重新导入"));
            }
            proof {
                assert(sv[p as int] == e);
                assert(!conflicts(es, index as int)) by {
                    if conflicts(es, index as int) {
                        let j = choose|j: int| 0 <= j < index && (#[trigger] es[j]).0 == es[index as int].0 && es[j].1 != es[index as int].1;
                        assert(es.take(index as int)[j] == es[j]);
                        assert(sv.to_set().contains(es[j]));
                        let q = choose|q: int| 0 <= q < sv.len() && sv[q] == es[j];
                        if q != p {
                            lemma_lex_order(sv[q].0, sv[p as int].0);
                        }
                    }
                }
                assert(es.take(index + 1) =~= es.take(index as int).push(e));
                lemma_push_to_set(es.take(index as int), e);
                assert(sv.to_set().insert(e) =~= sv.to_set());
            }
        } else {
            proof {
                assert(!conflicts(es, index as int)) by {
                    if conflicts(es, index as int) {
                        let j = choose|j: int| 0 <= j < index && (#[trigger] es[j]).0 == es[index as int].0 && es[j].1 != es[index as int].1;
                        assert(es.take(index as int)[j] == es[j]);
                        assert(sv.to_set().contains(es[j]));
                        let q = choose|q: int| 0 <= q < sv.len() && sv[q] == es[j];
                        if q < p {
                            lemma_lex_irrefl(number@);
                        } else if q > p {
                            lemma_lex_order(sv[p as int].0, number@);
                            lemma_lex_trans(sv[p as int].0, sv[q].0, number@);
                            lemma_lex_irrefl(number@);
                        } else {
                            assert(students@[p as int].student_no@ == number@);
                        }
                    }
                }
            }
            students.insert(p, RosterStudent { student_name: name, student_no: number });
            proof {
                let after = students_view(students@);
                assert(after =~= sv.insert(p as int, e));
                if p < sv.len() {
                    lemma_lex_order(sv[p as int].0, e.0);
                    assert(sv[p as int].0 != e.0);
                }
                assert forall|a: int, b: int| 0 <= a < b < after.len() implies lex_lt((#[trigger] after[a]).0, (#[trigger] after[b]).0) by {
                    if b == p {
                        assert(after[a] == sv[a]);
                    } else if a == p {
                        assert(after[b] == sv[b - 1]);
                        if b - 1 > p {
                            lemma_lex_trans(e.0, sv[p as int].0, sv[b - 1].0);
                        }
                    } else if a < p && b > p {
                        assert(after[a] == sv[a] && after[b] == sv[b - 1]);
                        lemma_lex_trans(sv[a].0, e.0, sv[p as int].0);
                        if b - 1 > p {
                            lemma_lex_trans(sv[a].0, sv[p as int].0, sv[b - 1].0);
                        }
                    } else if b < p {
                        assert(after[a] == sv[a] && after[b] == sv[b]);
                    } else {
                        assert(after[a] == sv[a - 1] && after[b] == sv[b - 1]);
                    }
                }
                assert(es.take(index + 1) =~= es.take(index as int).push(e));
                assert(after.to_set() =~= sv.to_set().insert(e)) by {
                    assert forall|x: (Seq<char>, Seq<char>)| after.contains(x) <==> sv.to_set().insert(e).contains(x) by {
                        if after.contains(x) {
                            let j = choose|j: int| 0 <= j < after.len() && after[j] == x;
                            if j < p {
                                assert(sv[j] == x);
                            } else if j > p {
                                assert(sv[j - 1] == x);
                            }
                        }
                        if sv.contains(x) {
                            let j = choose|j: int| 0 <= j < sv.len() && sv[j] == x;
                            if j < p {
                                assert(after[j] == x);
                            } else {
                                assert(after[j + 1] == x);
                            }
                        }
                        if x == e {
                            assert(after[p as int] == e);
                        }
                    }
                }
                lemma_push_to_set(es.take(index as int), e);
            }
        }
        t = t + 1;
    }
    proof {
        assert(es.len() == kr.len() - 1);
        assert(es.take(es.len() as int) =~= es);
        assert(forall|i: int| 0 <= i < es.len() ==> (#[trigger] row_problem(es, i)) is None);
    }
    if students.len() == 0 {
        proof {
            if es.len() > 0 {
                assert(es.take(es.len() as int).to_set().contains(es[0]));
            }
        }
        return Err(invalid("名单只有表头，请至少添加一名学生"));
    }
    proof {
        let sv = students_view(students@);
        assert(sv.to_set().contains(sv[0]));
        assert(es.to_set().contains(sv[0]));
        assert(es.len() > 0);
    }
    Ok(students)
}

// ---------------------------------------------------------------------------
// Worksheet bounds
// ---------------------------------------------------------------------------

/// A start (or empty) element of an XML text: its local name, its attributes up to the
/// first malformed one, and whether there was none.
pub struct XmlElement {
    pub local_name: Vec<u8>,
    pub attributes: Vec<(Vec<u8>, Vec<u8>)>,
    pub attributes_ok: bool,
}

/// The start elements of an XML text in order, up to its end or to the first syntax
/// error; `well_formed` says whether the end was reached.
pub struct XmlScan {
    pub elements: Vec<XmlElement>,
    pub well_formed: bool,
}

/// An element's view: name, attributes, whether they were all well formed.
pub type ElementView = (Seq<u8>, Seq<(Seq<u8>, Seq<u8>)>, bool);

impl XmlElement {
    pub open spec fn view(&self) -> ElementView {
        (
            self.local_name@,
            self.attributes@.map_values(|a: (Vec<u8>, Vec<u8>)| (a.0@, a.1@)),
            self.attributes_ok,
        )
    }
}

impl XmlScan {
    pub open spec fn view(&self) -> (Seq<ElementView>, bool) {
        (self.elements@.map_values(|e: XmlElement| e.view()), self.well_formed)
    }
}

/// The start elements that `quick_xml::Reader` reads from `bytes`, as `scan_xml` lists them.
pub uninterp spec fn xml_start_elements(bytes: Seq<u8>) -> (Seq<ElementView>, bool);

/// `quick_xml::Reader::from_reader(bytes)` read event by event to its end or first error:
/// the start and empty elements met, each with the attributes `attributes()` yields
/// before its first error.
#[verifier::external_body]
fn scan_xml(bytes: &[u8]) -> (r: XmlScan)
    ensures
        r.view() == xml_start_elements(bytes@),
{
    let mut reader = quick_xml::Reader::from_reader(bytes);
    let mut elements = Vec::new();
    loop {
        let e = match reader.read_event() {
            Ok(Event::Start(e) | Event::Empty(e)) => e,
            Ok(Event::Eof) => return XmlScan { elements, well_formed: true },
            Ok(_) => continue,
            Err(_) => return XmlScan { elements, well_formed: false },
        };
        let attributes = e.attributes().map_while(Result::ok).map(|a| (Vec::from(a.key.0), Vec::from(a.value.as_bytes()))).collect();
        let attributes_ok = e.attributes().all(|a| a.is_ok());
        elements.push(XmlElement { local_name: Vec::from(e.local_name().into_inner()), attributes, attributes_ok });
    }
}

pub open spec fn sheet_format_msg() -> Seq<char> { "Excel 工作表格式无效"@ }
pub open spec fn cell_format_msg() -> Seq<char> { "Excel 单元格格式无效"@ }
pub open spec fn cell_position_msg() -> Seq<char> { "Excel 单元格位置无效"@ }
pub open spec fn sheet_range_msg() -> Seq<char> { "Excel 名单范围过大，请使用模板并仅保留姓名和学号列"@ }
pub open spec fn cell_missing_position_msg() -> Seq<char> { "Excel 单元格缺少位置，请重新另存为 .xlsx 文件"@ }

/// The leading capital letters of a cell reference.
pub open spec fn leading_capitals(r: Seq<u8>) -> nat
    decreases r.len(),
{
    if r.len() > 0 && 65 <= r[0] <= 90 {
        1 + leading_capitals(r.drop_first())
    } else {
        0
    }
}

/// Bytes read one for one as characters.
pub open spec fn bytes_as_chars(t: Seq<u8>) -> Seq<char> {
    t.map_values(|b: u8| b as char)
}

/// The digits of a row number: the text after an optional `+`.
pub open spec fn row_digits(t: Seq<u8>) -> Seq<u8> {
    if t.len() > 0 && t[0] == 43u8 {
        t.drop_first()
    } else {
        t
    }
}

/// A non-empty run of ASCII digits.
pub open spec fn ascii_digits(d: Seq<u8>) -> bool {
    d.len() > 0 && forall|k: int| 0 <= k < d.len() ==> 48u8 <= #[trigger] d[k] && d[k] <= 57u8
}

/// A row number as `usize::from_str` reads it: an optional `+` and digits, in range.
pub open spec fn row_number(t: Seq<u8>) -> Option<nat> {
    if ascii_digits(row_digits(t)) && digits_value(bytes_as_chars(row_digits(t))) <= usize::MAX {
        Some(digits_value(bytes_as_chars(row_digits(t))))
    } else {
        None
    }
}

/// What a cell reference says of the sheet's size: nothing wrong, an unreadable
/// position, or a position beyond the template's columns A to T and its rows.
pub open spec fn reference_problem(r: Seq<u8>) -> Option<Seq<char>> {
    let letters = leading_capitals(r);
    match row_number(r.skip(letters as int)) {
        None => Some(cell_position_msg()),
        Some(row) => if letters != 1 || r[0] > 84 || row == 0 || row > MAX_ROSTER_ROWS + 1 {
            Some(sheet_range_msg())
        } else {
            None
        },
    }
}

/// The first problem among the attributes of a cell element, reading them in order.
pub open spec fn attribute_problem(attrs: Seq<(Seq<u8>, Seq<u8>)>, ok: bool) -> Option<Seq<char>>
    decreases attrs.len(),
{
    if attrs.len() == 0 {
        if ok { None } else { Some(cell_format_msg()) }
    } else if attrs[0].0 == seq![114u8] && reference_problem(attrs[0].1) is Some {
        reference_problem(attrs[0].1)
    } else {
        attribute_problem(attrs.drop_first(), ok)
    }
}

/// The problem of a cell element: one in its attributes, or no position at all.
pub open spec fn cell_problem(e: ElementView) -> Option<Seq<char>> {
    if e.0 != seq![99u8] {
        None
    } else if attribute_problem(e.1, e.2) is Some {
        attribute_problem(e.1, e.2)
    } else if !(exists|k: int| 0 <= k < e.1.len() && (#[trigger] e.1[k]).0 == seq![114u8]) {
        Some(cell_missing_position_msg())
    } else {
        None
    }
}

/// The first problem of a scanned worksheet, element by element, then its syntax.
pub open spec fn sheet_problem(elements: Seq<ElementView>, well_formed: bool) -> Option<Seq<char>>
    decreases elements.len(),
{
    if elements.len() == 0 {
        if well_formed { None } else { Some(sheet_format_msg()) }
    } else if cell_problem(elements[0]) is Some {
        cell_problem(elements[0])
    } else {
        sheet_problem(elements.drop_first(), well_formed)
    }
}


/// The refusal for a problem, or success.
pub open spec fn outcome_of(problem: Option<Seq<char>>, r: Result<(), AppError>) -> bool {
    match problem {
        Some(m) => r matches Err(e) && refused_with(e, m),
        None => r is Ok,
    }
}

fn is_byte_seq(a: &Vec<u8>, b: u8) -> (r: bool)
    ensures
        r == (a@ == seq![b]),
{
    let r = a.len() == 1 && a[0] == b;
    assert(r ==> a@ =~= seq![b]);
    r
}

/// The row number of a reference's tail, as `usize::from_str` reads it.
fn parse_row(t: &Vec<u8>) -> (r: Option<u64>)
    ensures
        match r {
            Some(v) => row_number(t@) == Some(v as nat),
            None => row_number(t@) is None,
        },
{
    let start: usize = if t.len() > 0 && t[0] == 43 { 1 } else { 0 };
    let ghost digits = row_digits(t@);
    assert(digits =~= t@.skip(start as int));
    let mut cs: Vec<char> = Vec::new();
    let mut k: usize = start;
    while k < t.len()
        invariant
            start <= k <= t@.len(),
            digits == t@.skip(start as int),
            digits == row_digits(t@),
            cs@.len() == k - start,
            forall|j: int| 0 <= j < cs@.len() ==> (#[trigger] cs@[j]) == (t@[start + j] as char),
        decreases t@.len() - k,
    {
        let b = t[k];
        if b >= 128 {
            proof {
                assert(digits[k - start] == b);
                assert(!ascii_digits(digits));
                assert(row_number(t@) is None);
            }
            return None;
        }
        cs.push(b as char);
        k = k + 1;
    }
    assert(cs@ =~= bytes_as_chars(digits));
    assert(cs@.skip(0) =~= cs@);
    proof {
        let cond = ascii_digits(digits);
        if cond {
            assert forall|j: int| 0 <= j < cs@.len() implies crate::text::is_digit(#[trigger] cs@[j]) by {
                assert(48 <= digits[j] <= 57);
            }
        }
        if all_digits(cs@) {
            assert forall|j: int| 0 <= j < digits.len() implies 48 <= #[trigger] digits[j] <= 57 by {
                assert(crate::text::is_digit(cs@[j]));
                assert(digits[j] < 128);
            }
        }
        assert(all_digits(cs@) == cond);
        assert(usize::MAX as u64 == usize::MAX);
    }
    digits_at_most(cs.as_slice(), 0, usize::MAX as u64)
}

/// The problem of one cell reference.
fn check_reference(r: &Vec<u8>) -> (res: Option<&'static str>)
    ensures
        match res {
            Some(m) => reference_problem(r@) == Some(m@),
            None => reference_problem(r@) is None,
        },
{
    let mut letters: usize = 0;
    assert(r@.skip(0) =~= r@);
    while letters < r.len() && 65 <= r[letters] && r[letters] <= 90
        invariant
            letters <= r@.len(),
            leading_capitals(r@) == letters + leading_capitals(r@.skip(letters as int)),
        decreases r@.len() - letters,
    {
        assert(r@.skip(letters as int).drop_first() =~= r@.skip(letters + 1));
        letters = letters + 1;
    }
    assert(leading_capitals(r@.skip(letters as int)) == 0);
    assert(leading_capitals(r@) == letters as nat);
    let mut tail: Vec<u8> = Vec::new();
    let mut k: usize = letters;
    while k < r.len()
        invariant
            letters <= k <= r@.len(),
            tail@ == r@.subrange(letters as int, k as int),
        decreases r@.len() - k,
    {
        tail.push(r[k]);
        k = k + 1;
        assert(tail@ =~= r@.subrange(letters as int, k as int));
    }
    assert(tail@ =~= r@.skip(letters as int));
    proof {
        reveal_strlit("Excel 单元格位置无效");
    }
    match parse_row(&tail) {
        None => Some("Excel 单元格位置无效"),
        Some(row) => {
            if letters != 1 || r[0] > 84 || row == 0 || row > (MAX_ROSTER_ROWS + 1) as u64 {
                Some("Excel 名单范围过大，请使用模板并仅保留姓名和学号列")
            } else {
                None
            }
        },
    }
}

/// Refuses a worksheet that reaches beyond the roster template: a cell outside the
/// columns A to T or beyond the row limit, a cell without a readable position, or
/// malformed XML. The first problem in document order decides the message.
pub fn check_sheet_cells(scan: &XmlScan) -> (r: Result<(), AppError>)
    ensures
        outcome_of(sheet_problem(scan.view().0, scan.view().1), r),
{
    let ghost ev = scan.view().0;
    let mut i: usize = 0;
    assert(ev.skip(0) =~= ev);
    while i < scan.elements.len()
        invariant
            i <= scan.elements@.len(),
            ev == scan.view().0,
            sheet_problem(ev, scan.well_formed) == sheet_problem(ev.skip(i as int), scan.well_formed),
        decreases scan.elements@.len() - i,
    {
        let e = &scan.elements[i];
        assert(ev.skip(i as int)[0] == e.view());
        assert(ev.skip(i as int).drop_first() =~= ev.skip(i + 1));
        if is_byte_seq(&e.local_name, 99) {
            let ghost av = e.view().1;
            let mut found = false;
            let mut a: usize = 0;
            assert(av.skip(0) =~= av);
            while a < e.attributes.len()
                invariant
                    a <= e.attributes@.len(),
                    av == e.view().1,
                    ev == scan.view().0,
                    i < ev.len(),
                    ev.skip(i as int)[0] == e.view(),
                    e.local_name@ == seq![99u8],
                    sheet_problem(ev, scan.well_formed) == sheet_problem(ev.skip(i as int), scan.well_formed),
                    attribute_problem(av, e.attributes_ok) == attribute_problem(av.skip(a as int), e.attributes_ok),
                    found == exists|k: int| 0 <= k < a && (#[trigger] av[k]).0 == seq![114u8],
                decreases e.attributes@.len() - a,
            {
                assert(av.skip(a as int)[0] == av[a as int]);
                assert(av.skip(a as int).drop_first() =~= av.skip(a + 1));
                let attr = &e.attributes[a];
                assert(av[a as int] == (attr.0@, attr.1@));
                if is_byte_seq(&attr.0, 114) {
                    found = true;
                    match check_reference(&attr.1) {
                        Some(m) => {
                            return Err(invalid(m));
                        },
                        None => {},
                    }
                }
                a = a + 1;
            }
            if !e.attributes_ok {
                proof {
                    reveal_strlit("Excel 单元格格式无效");
                }
                return Err(invalid("Excel 单元格格式无效"));
            }
            if !found {
                proof {
                    reveal_strlit("Excel 单元格缺少位置，请重新另存为 .xlsx 文件");
                }
                return Err(invalid("Excel 单元格缺少位置，请重新另存为 .xlsx 文件"));
            }
        }
        i = i + 1;
    }
    if !scan.well_formed {
        proof {
            reveal_strlit("Excel 工作表格式无效");
        }
        return Err(invalid("Excel 工作表格式无效"));
    }
    Ok(())
}

// ---------------------------------------------------------------------------
// CSV rosters
// ---------------------------------------------------------------------------

pub open spec fn records_view(r: Seq<Option<Vec<String>>>) -> Seq<Option<Seq<Seq<char>>>> {
    r.map_values(|x: Option<Vec<String>>| match x {
        Some(v) => Some(row_view(v)),
        None => None,
    })
}

/// The records that the `csv` crate reads from `text` (no header row, records of any
/// length, this delimiter): each record's fields, and `None` for the first record it
/// cannot read, after which it reads no more.
pub uninterp spec fn csv_records(text: Seq<char>, delimiter: u8) -> Seq<Option<Seq<Seq<char>>>>;

/// `csv::ReaderBuilder` without headers, flexible, with `delimiter`, reading `text`: the
/// records in order, up to and including the first error, marked `None`.
#[verifier::external_body]
fn read_csv(text: &str, delimiter: u8) -> (r: Vec<Option<Vec<String>>>)
    ensures
        records_view(r@) == csv_records(text@, delimiter),
{
    let mut reader = csv::ReaderBuilder::new().has_headers(false).flexible(true).delimiter(delimiter).from_reader(text.as_bytes());
    let mut out = Vec::new();
    for record in reader.records() {
        let fields = record.ok().map(|f| f.iter().map(str::to_owned).collect::<Vec<String>>());
        let failed = fields.is_none();
        out.push(fields);
        if failed {
            break;
        }
    }
    out
}

pub open spec fn csv_row_msg() -> Seq<char> {
    "名单行格式无效，请使用两列模板"@
}

/// What is wrong with the `i`-th record: beyond the header and the row limit, or unreadable.
pub open spec fn record_problem(recs: Seq<Option<Seq<Seq<char>>>>, i: int) -> Option<Seq<char>> {
    if i > MAX_ROSTER_ROWS {
        Some(too_many_msg())
    } else if recs[i] is None {
        Some(csv_row_msg())
    } else {
        None
    }
}

/// The first problem among the records from the `i`-th on, if any.
pub open spec fn csv_scan(recs: Seq<Option<Seq<Seq<char>>>>, i: nat) -> Option<Seq<char>>
    decreases recs.len() - i,
{
    if i >= recs.len() {
        None
    } else if record_problem(recs, i as int) is Some {
        record_problem(recs, i as int)
    } else {
        csv_scan(recs, i + 1)
    }
}

/// The rows of the records, or the message for the first record with a problem.
pub open spec fn csv_rows_outcome(recs: Seq<Option<Seq<Seq<char>>>>, r: Result<Vec<Vec<String>>, AppError>) -> bool {
    match csv_scan(recs, 0) {
        Some(m) => r matches Err(e) && refused_with(e, m),
        None => r matches Ok(rows) && rows_view(rows@) == recs.map_values(|x: Option<Seq<Seq<char>>>| x.unwrap()),
    }
}

fn copy_row(v: &Vec<String>) -> (r: Vec<String>)
    ensures
        row_view(r) == row_view(*v),
{
    let mut r: Vec<String> = Vec::new();
    let mut i: usize = 0;
    while i < v.len()
        invariant
            i <= v@.len(),
            row_view(r) == row_view(*v).take(i as int),
        decreases v@.len() - i,
    {
        let ghost before = row_view(r);
        let c = v[i].clone();
        r.push(c);
        assert(row_view(r) =~= before.push(v@[i as int]@));
        assert(row_view(*v).take(i + 1) =~= row_view(*v).take(i as int).push(v@[i as int]@));
        i = i + 1;
    }
    assert(row_view(*v).take(v@.len() as int) =~= row_view(*v));
    r
}

/// The rows of a CSV roster: the records in order, refused at the first record beyond
/// the header and the row limit or the first unreadable one.
pub fn rows_from_csv(records: Vec<Option<Vec<String>>>) -> (r: Result<Vec<Vec<String>>, AppError>)
    ensures
        csv_rows_outcome(records_view(records@), r),
{
    let ghost rv = records_view(records@);
    let mut rows: Vec<Vec<String>> = Vec::new();
    let ghost orig = records@;
    let mut i: usize = 0;
    while i < records.len()
        invariant
            i <= records@.len(),
            records@ == orig,
            rv == records_view(orig),
            forall|k: int| 0 <= k < i ==> (#[trigger] record_problem(rv, k)) is None,
            csv_scan(rv, 0) == csv_scan(rv, i as nat),
            rows_view(rows@) == rv.take(i as int).map_values(|x: Option<Seq<Seq<char>>>| x.unwrap()),
        decreases records@.len() - i,
    {
        assert(rv[i as int] == match orig[i as int] { Some(v) => Some(row_view(v)), None => None });
        if i > MAX_ROSTER_ROWS {
            proof {
                reveal_strlit("每次最多导入 5000 行学生名单");
                assert(record_problem(rv, i as int) == Some(too_many_msg()));
            }
            return Err(invalid("每次最多导入 5000 行学生名单"));
        }
        match &records[i] {
            None => {
                proof {
                    reveal_strlit("名单行格式无效，请使用两列模板");
                    assert(record_problem(rv, i as int) == Some(csv_row_msg()));
                }
                return Err(invalid("名单行格式无效，请使用两列模板"));
            },
            Some(fields) => {
                let ghost before = rows_view(rows@);
                let copy = copy_row(fields);
                rows.push(copy);
                assert(rows_view(rows@) =~= before.push(row_view(*fields)));
                assert(rv.take(i + 1).map_values(|x: Option<Seq<Seq<char>>>| x.unwrap()) =~= rv.take(i as int).map_values(|x: Option<Seq<Seq<char>>>| x.unwrap()).push(row_view(*fields)));
            },
        }
        i = i + 1;
    }
    assert(rv.take(rv.len() as int) =~= rv);
    Ok(rows)
}

/// The text after any leading byte-order marks.
pub open spec fn without_bom(t: Seq<char>) -> Seq<char>
    decreases t.len(),
{
    if t.len() > 0 && t[0] == '\u{feff}' {
        without_bom(t.drop_first())
    } else {
        t
    }
}

/// Whether the first line of a text holds a tab.
pub open spec fn first_line_has_tab(t: Seq<char>) -> bool {
    exists|i: int| 0 <= i < t.len() && t[i] == '\t' && forall|j: int| 0 <= j < i ==> #[trigger] t[j] != '\n'
}

/// The field delimiter of a CSV roster: a tab when the first line holds one, else a comma.
pub open spec fn csv_delimiter(t: Seq<char>) -> u8 {
    if first_line_has_tab(t) { 9u8 } else { 44u8 }
}

/// The text of `bytes` read as UTF-8, if they are UTF-8.
pub uninterp spec fn utf8_text(bytes: Seq<u8>) -> Option<Seq<char>>;

/// `std::str::from_utf8`: the text the bytes encode, if they are valid UTF-8.
#[verifier::external_body]
fn decode_utf8(bytes: &[u8]) -> (r: Option<String>)
    ensures
        match r {
            Some(t) => utf8_text(bytes@) == Some(t@),
            None => utf8_text(bytes@) is None,
        },
{
    std::str::from_utf8(bytes).ok().map(str::to_owned)
}

fn strip_bom(t: &[char]) -> (r: Vec<char>)
    ensures
        r@ == without_bom(t@),
{
    let mut i: usize = 0;
    assert(t@.skip(0) =~= t@);
    while i < t.len() && t[i] == '\u{feff}'
        invariant
            i <= t@.len(),
            without_bom(t@) == without_bom(t@.skip(i as int)),
        decreases t@.len() - i,
    {
        assert(t@.skip(i as int).drop_first() =~= t@.skip(i + 1));
        i = i + 1;
    }
    let mut r: Vec<char> = Vec::new();
    let mut k: usize = i;
    while k < t.len()
        invariant
            i <= k <= t@.len(),
            r@ == t@.subrange(i as int, k as int),
        decreases t@.len() - k,
    {
        r.push(t[k]);
        k = k + 1;
        assert(r@ =~= t@.subrange(i as int, k as int));
    }
    assert(r@ =~= t@.skip(i as int));
    r
}

fn delimiter_of(t: &[char]) -> (r: u8)
    ensures
        r == csv_delimiter(t@),
{
    let mut i: usize = 0;
    while i < t.len() && t[i] != '\n'
        invariant
            i <= t@.len(),
            forall|j: int| 0 <= j < i ==> t@[j] != '\n' && t@[j] != '\t',
        decreases t@.len() - i,
    {
        if t[i] == '\t' {
            return 9;
        }
        i = i + 1;
    }
    proof {
        if first_line_has_tab(t@) {
            let w = choose|w: int| 0 <= w < t@.len() && t@[w] == '\t' && forall|j: int| 0 <= j < w ==> #[trigger] t@[j] != '\n';
            if w > i {
                assert(t@[i as int] != '\n');
            }
        }
    }
    44
}

// ---------------------------------------------------------------------------
// Excel rosters
// ---------------------------------------------------------------------------

/// Whether `zip::ZipArchive::new` reads `bytes` as an archive.
pub uninterp spec fn zip_readable(bytes: Seq<u8>) -> bool;

/// `ZipArchive::len` of the archive in `bytes`: its number of entries.
pub uninterp spec fn zip_entry_total(bytes: Seq<u8>) -> nat;

/// `ZipArchive::decompressed_size` of the archive in `bytes`: the unpacked size its
/// entries declare, when known.
pub uninterp spec fn zip_declared_size(bytes: Seq<u8>) -> Option<nat>;

/// The entry `index` of the archive in `bytes` read as `zip_entry` reads it: its name and
/// at most `limit` bytes of its content, or `None`.
pub uninterp spec fn zip_entry_read(bytes: Seq<u8>, index: nat, limit: nat) -> Option<(Seq<char>, Seq<u8>)>;

/// `zip::ZipArchive::new` over the bytes: whether they hold an archive.
#[verifier::external_body]
fn zip_opens(bytes: &[u8]) -> (r: bool)
    ensures
        r == zip_readable(bytes@),
{
    zip::ZipArchive::new(std::io::Cursor::new(bytes)).is_ok()
}

/// `ZipArchive::len` of the archive the bytes hold.
#[verifier::external_body]
fn zip_entry_count(bytes: &[u8]) -> (r: usize)
    requires
        zip_readable(bytes@),
    ensures
        r == zip_entry_total(bytes@),
{
    zip::ZipArchive::new(std::io::Cursor::new(bytes)).map(|archive| archive.len()).unwrap_or(0)
}

/// `ZipArchive::decompressed_size` of the archive the bytes hold.
#[verifier::external_body]
fn zip_unpacked_size(bytes: &[u8]) -> (r: Option<u128>)
    requires
        zip_readable(bytes@),
    ensures
        match r {
            Some(n) => zip_declared_size(bytes@) == Some(n as nat),
            None => zip_declared_size(bytes@) is None,
        },
{
    zip::ZipArchive::new(std::io::Cursor::new(bytes)).ok().and_then(|archive| archive.decompressed_size())
}

/// `ZipArchive::by_index(index)` of the archive the bytes hold, its `name()` and at most
/// `limit` bytes of its content (`Read::take(limit).read_to_end`); `None` when the entry,
/// its name or its content cannot be read. `Read::take` reads no more than `limit` bytes.
#[verifier::external_body]
fn zip_entry(bytes: &[u8], index: usize, limit: u64) -> (r: Option<(String, Vec<u8>)>)
    requires
        zip_readable(bytes@),
    ensures
        match r {
            Some(e) => zip_entry_read(bytes@, index as nat, limit as nat) == Some((e.0@, e.1@)) && e.1@.len() <= limit,
            None => zip_entry_read(bytes@, index as nat, limit as nat) is None,
        },
{
    let mut archive = zip::ZipArchive::new(std::io::Cursor::new(bytes)).ok()?;
    let entry = archive.by_index(index).ok()?;
    let name = entry.name().ok()?.into_owned();
    let mut content = Vec::new();
    entry.take(limit).read_to_end(&mut content).ok()?;
    Some((name, content))
}

pub open spec fn unreadable_archive_msg() -> Seq<char> { "无法读取 Excel 文件，请使用提供的 .xlsx 模板"@ }
pub open spec fn archive_too_big_msg() -> Seq<char> { "Excel 内容过大，请使用精简的名单模板"@ }
pub open spec fn bad_entry_msg() -> Seq<char> { "Excel 压缩内容无效"@ }
pub open spec fn unpacked_too_big_msg() -> Seq<char> { "Excel 解压内容超过大小限制"@ }

/// The most an Excel roster may hold once unpacked.
pub const MAX_UNPACKED_BYTES: u64 = 8 * 1024 * 1024;

/// The most entries an Excel roster's archive may have.
pub const MAX_ARCHIVE_ENTRIES: usize = 1000;

/// Whether an archive entry is a worksheet: its name starts with `xl/worksheets/` and
/// ends with `.xml`.
pub open spec fn is_worksheet(name: Seq<char>) -> bool {
    name.len() >= 14 && name.take(14) == "xl/worksheets/"@ && name.skip(name.len() - 4) == ".xml"@
}

fn worksheet_name(name: &str) -> (r: bool)
    ensures
        r == is_worksheet(name@),
{
    let cs = chars_of(name);
    let prefix = chars_of("xl/worksheets/");
    let suffix = chars_of(".xml");
    proof {
        reveal_strlit("xl/worksheets/");
        reveal_strlit(".xml");
    }
    if cs.len() < 14 {
        return false;
    }
    let mut i: usize = 0;
    while i < 14
        invariant
            i <= 14,
            cs@ == name@,
            cs@.len() >= 14,
            prefix@ == "xl/worksheets/"@,
            prefix@.len() == 14,
            forall|k: int| 0 <= k < i ==> cs@[k] == prefix@[k],
        decreases 14 - i,
    {
        if cs[i] != prefix[i] {
            assert(cs@.take(14)[i as int] != "xl/worksheets/"@[i as int]);
            return false;
        }
        i = i + 1;
    }
    assert(cs@.take(14) =~= "xl/worksheets/"@);
    let n = cs.len();
    let mut j: usize = 0;
    while j < 4
        invariant
            j <= 4,
            cs@ == name@,
            cs@.take(14) == "xl/worksheets/"@,
            n == cs@.len(),
            n >= 14,
            suffix@ == ".xml"@,
            suffix@.len() == 4,
            forall|k: int| 0 <= k < j ==> cs@[n - 4 + k] == suffix@[k],
        decreases 4 - j,
    {
        if cs[n - 4 + j] != suffix[j] {
            assert(cs@.skip(n - 4)[j as int] != ".xml"@[j as int]);
            return false;
        }
        j = j + 1;
    }
    assert(cs@.skip(n - 4) =~= ".xml"@);
    true
}

/// The first problem among the archive's entries from `index` on, with `remaining`
/// unpacked bytes still allowed: an entry that cannot be read, the allowance exceeded, or
/// a worksheet beyond the template.
pub open spec fn entries_problem(bytes: Seq<u8>, count: nat, index: nat, remaining: nat) -> Option<Seq<char>>
    decreases count - index,
{
    if index >= count {
        None
    } else {
        match zip_entry_read(bytes, index, remaining + 1) {
            None => Some(bad_entry_msg()),
            Some(e) => if e.1.len() > remaining {
                Some(unpacked_too_big_msg())
            } else if is_worksheet(e.0) && sheet_problem(xml_start_elements(e.1).0, xml_start_elements(e.1).1) is Some {
                sheet_problem(xml_start_elements(e.1).0, xml_start_elements(e.1).1)
            } else {
                entries_problem(bytes, count, index + 1, (remaining - e.1.len()) as nat)
            },
        }
    }
}

/// Why an Excel roster's archive is refused before its sheet is read, if it is.
pub open spec fn archive_problem(bytes: Seq<u8>) -> Option<Seq<char>> {
    if !zip_readable(bytes) {
        Some(unreadable_archive_msg())
    } else if zip_entry_total(bytes) > MAX_ARCHIVE_ENTRIES || (match zip_declared_size(bytes) {
        Some(n) => n > MAX_UNPACKED_BYTES,
        None => true,
    }) {
        Some(archive_too_big_msg())
    } else {
        entries_problem(bytes, zip_entry_total(bytes), 0, MAX_UNPACKED_BYTES as nat)
    }
}

/// Checks an Excel roster's archive before the sheet is read: it must open, hold at
/// most 1000 entries and declare at most 8 MiB unpacked, each entry must unpack, all of
/// them together within 8 MiB, and each worksheet must stay within the template's range.
pub fn check_archive(bytes: &[u8]) -> (r: Result<(), AppError>)
    ensures
        outcome_of(archive_problem(bytes@), r),
{
    proof {
        reveal_strlit("无法读取 Excel 文件，请使用提供的 .xlsx 模板");
        reveal_strlit("Excel 内容过大，请使用精简的名单模板");
        reveal_strlit("Excel 压缩内容无效");
        reveal_strlit("Excel 解压内容超过大小限制");
    }
    if !zip_opens(bytes) {
        return Err(invalid("无法读取 Excel 文件，请使用提供的 .xlsx 模板"));
    }
    let count = zip_entry_count(bytes);
    let too_big = match zip_unpacked_size(bytes) {
        Some(size) => size > MAX_UNPACKED_BYTES as u128,
        None => true,
    };
    if count > MAX_ARCHIVE_ENTRIES || too_big {
        return Err(invalid("Excel 内容过大，请使用精简的名单模板"));
    }
    let mut remaining: u64 = MAX_UNPACKED_BYTES;
    let mut index: usize = 0;
    while index < count
        invariant
            zip_readable(bytes@),
            count == zip_entry_total(bytes@),
            index <= count,
            remaining <= MAX_UNPACKED_BYTES,
            archive_problem(bytes@) == entries_problem(bytes@, count as nat, index as nat, remaining as nat),
        decreases count - index,
    {
        let (name, content) = match zip_entry(bytes, index, remaining + 1) {
            Some(e) => e,
            None => {
                return Err(invalid("Excel 压缩内容无效"));
            },
        };
        if content.len() as u64 > remaining {
            return Err(invalid("Excel 解压内容超过大小限制"));
        }
        if worksheet_name(name.as_str()) {
            let scan = scan_xml(content.as_slice());
            match check_sheet_cells(&scan) {
                Ok(()) => {},
                Err(e) => {
                    return Err(e);
                },
            }
        }
        remaining = remaining - content.len() as u64;
        index = index + 1;
    }
    Ok(())
}

/// A cell of the roster sheet as the rules read it: empty, text, or anything else.
pub enum SheetCell {
    Empty,
    Text(String),
    Other,
}

pub enum SheetCellView {
    Empty,
    Text(Seq<char>),
    Other,
}

/// What reading the first sheet of a workbook gave.
pub enum SheetRead {
    /// The workbook could not be opened.
    Unreadable,
    /// It has no sheet.
    NoSheet,
    /// Its first sheet could not be read.
    Failed,
    /// The first sheet's used range: its size and its rows of cells.
    Cells { height: usize, width: usize, rows: Vec<Vec<SheetCell>> },
}

pub enum SheetReadView {
    Unreadable,
    NoSheet,
    Failed,
    Cells { height: nat, width: nat, rows: Seq<Seq<SheetCellView>> },
}

impl SheetCell {
    pub open spec fn view(&self) -> SheetCellView {
        match self {
            SheetCell::Empty => SheetCellView::Empty,
            SheetCell::Text(t) => SheetCellView::Text(t@),
            SheetCell::Other => SheetCellView::Other,
        }
    }
}

pub open spec fn sheet_row_view(r: Vec<SheetCell>) -> Seq<SheetCellView> {
    r@.map_values(|c: SheetCell| c.view())
}

impl SheetRead {
    pub open spec fn view(&self) -> SheetReadView {
        match self {
            SheetRead::Unreadable => SheetReadView::Unreadable,
            SheetRead::NoSheet => SheetReadView::NoSheet,
            SheetRead::Failed => SheetReadView::Failed,
            SheetRead::Cells { height, width, rows } => SheetReadView::Cells {
                height: *height as nat,
                width: *width as nat,
                rows: rows@.map_values(|r: Vec<SheetCell>| sheet_row_view(r)),
            },
        }
    }
}

/// What `calamine` reads of the first sheet of the workbook in `bytes`.
pub uninterp spec fn xlsx_first_sheet(bytes: Seq<u8>) -> SheetReadView;

/// `calamine::Xlsx::new` over the bytes, then `worksheet_range_at(0)`: the first sheet's
/// height, width and rows, each cell told apart as empty, text or other.
#[verifier::external_body]
fn read_first_sheet(bytes: &[u8]) -> (r: SheetRead)
    ensures
        r.view() == xlsx_first_sheet(bytes@),
{
    let Ok(mut book) = calamine::Xlsx::new(std::io::Cursor::new(bytes.to_vec())) else {
        return SheetRead::Unreadable;
    };
    let range = match book.worksheet_range_at(0) {
        None => return SheetRead::NoSheet,
        Some(Err(_)) => return SheetRead::Failed,
        Some(Ok(range)) => range,
    };
    let rows = range.rows().map(|r| r.iter().map(|c| match c {
        Data::Empty => SheetCell::Empty,
        Data::String(t) => SheetCell::Text(t.clone()),
        _ => SheetCell::Other,
    }).collect()).collect();
    SheetRead::Cells { height: range.height(), width: range.width(), rows }
}

pub open spec fn text_cells_msg() -> Seq<char> {
    "姓名和学号须使用文本单元格；请按模板重新填写，防止学号前导零或长数字丢失"@
}

pub open spec fn cell_text_of(c: SheetCellView) -> Seq<char> {
    match c {
        SheetCellView::Text(t) => t,
        _ => Seq::empty(),
    }
}

/// The rows of the roster sheet as texts, or why it is refused: unreadable, missing, too
/// large, or holding a cell that is neither empty nor text.
pub open spec fn sheet_rows(sheet: SheetReadView) -> Result<Seq<Seq<Seq<char>>>, Seq<char>> {
    match sheet {
        SheetReadView::Unreadable => Err("Excel 文件无效，请使用提供的模板"@),
        SheetReadView::NoSheet => Err("Excel 中没有工作表"@),
        SheetReadView::Failed => Err("无法读取名单工作表"@),
        SheetReadView::Cells { height, width, rows } => if height > MAX_ROSTER_ROWS + 1 || width > 20 {
            Err("名单最多 5000 人，请仅保留姓名和学号列"@)
        } else if exists|i: int, j: int| 0 <= i < rows.len() && 0 <= j < rows[i].len() && (#[trigger] rows[i][j]) is Other {
            Err(text_cells_msg())
        } else {
            Ok(rows.map_values(|row: Seq<SheetCellView>| row.map_values(|c: SheetCellView| cell_text_of(c))))
        },
    }
}

/// `r` is what `sheet_rows` gives: the refusal, or rows holding those texts.
pub open spec fn sheet_rows_outcome(sheet: SheetReadView, r: Result<Vec<Vec<String>>, AppError>) -> bool {
    match sheet_rows(sheet) {
        Err(m) => r matches Err(e) && refused_with(e, m),
        Ok(texts) => r matches Ok(out) && rows_view(out@) == texts,
    }
}

/// The rows of the roster sheet as texts.
pub fn rows_from_sheet(sheet: SheetRead) -> (r: Result<Vec<Vec<String>>, AppError>)
    ensures
        sheet_rows_outcome(sheet.view(), r),
{
    match sheet {
        SheetRead::Unreadable => Err(invalid("Excel 文件无效，请使用提供的模板")),
        SheetRead::NoSheet => Err(invalid("Excel 中没有工作表")),
        SheetRead::Failed => Err(invalid("无法读取名单工作表")),
        SheetRead::Cells { height, width, rows } => {
            if height > MAX_ROSTER_ROWS + 1 || width > 20 {
                return Err(invalid("名单最多 5000 人，请仅保留姓名和学号列"));
            }
            let ghost rv = rows@.map_values(|r: Vec<SheetCell>| sheet_row_view(r));
            let mut out: Vec<Vec<String>> = Vec::new();
            let mut i: usize = 0;
            while i < rows.len()
                invariant
                    i <= rows@.len(),
                    sheet.view() == (SheetReadView::Cells { height: height as nat, width: width as nat, rows: rv }),
                    !(height > MAX_ROSTER_ROWS + 1 || width > 20),
                    rv == rows@.map_values(|r: Vec<SheetCell>| sheet_row_view(r)),
                    forall|a: int, b: int| 0 <= a < i && 0 <= b < rv[a].len() ==> !(#[trigger] rv[a][b] is Other),
                    rows_view(out@) == rv.take(i as int).map_values(|row: Seq<SheetCellView>| row.map_values(|c: SheetCellView| cell_text_of(c))),
                decreases rows@.len() - i,
            {
                let row = &rows[i];
                assert(rv[i as int] == sheet_row_view(*row));
                let mut texts: Vec<String> = Vec::new();
                let mut j: usize = 0;
                while j < row.len()
                    invariant
                        j <= row@.len(),
                        i < rv.len(),
                        rv[i as int] == sheet_row_view(*row),
                        sheet.view() == (SheetReadView::Cells { height: height as nat, width: width as nat, rows: rv }),
                        !(height > MAX_ROSTER_ROWS + 1 || width > 20),
                        forall|b: int| 0 <= b < j ==> !(#[trigger] rv[i as int][b] is Other),
                        row_view(texts) == sheet_row_view(*row).take(j as int).map_values(|c: SheetCellView| cell_text_of(c)),
                    decreases row@.len() - j,
                {
                    let ghost before = row_view(texts);
                    assert(sheet_row_view(*row)[j as int] == row@[j as int].view());
                    match &row[j] {
                        SheetCell::Empty => {
                            texts.push(String::new());
                            assert(row_view(texts) =~= before.push(Seq::<char>::empty()));
                        },
                        SheetCell::Text(t) => {
                            texts.push(t.clone());
                            assert(row_view(texts) =~= before.push(t@));
                        },
                        SheetCell::Other => {
                            proof {
                                assert(rv[i as int][j as int] is Other);
                            }
                            return Err(invalid("姓名和学号须使用文本单元格；请按模板重新填写，防止学号前导零或长数字丢失"));
                        },
                    }
                    assert(sheet_row_view(*row).take(j + 1).map_values(|c: SheetCellView| cell_text_of(c)) =~= sheet_row_view(*row).take(j as int).map_values(|c: SheetCellView| cell_text_of(c)).push(cell_text_of(sheet_row_view(*row)[j as int])));
                    assert(row_view(texts) =~= sheet_row_view(*row).take(j + 1).map_values(|c: SheetCellView| cell_text_of(c)));
                    j = j + 1;
                }
                assert(sheet_row_view(*row).take(row@.len() as int) =~= sheet_row_view(*row));
                let ghost before = rows_view(out@);
                let ghost tv = row_view(texts);
                out.push(texts);
                assert(rows_view(out@) =~= before.push(tv));
                assert(rows_view(out@) =~= rv.take(i + 1).map_values(|row: Seq<SheetCellView>| row.map_values(|c: SheetCellView| cell_text_of(c))));
                i = i + 1;
            }
            assert(rv.take(rv.len() as int) =~= rv);
            Ok(out)
        },
    }
}

// ---------------------------------------------------------------------------
// An uploaded roster file
// ---------------------------------------------------------------------------

/// Whether a file name ends with `ext`, compared without regard to ASCII case.
pub open spec fn has_extension(name: Option<Seq<char>>, ext: Seq<char>) -> bool {
    match name {
        Some(n) => ascii_lower(n).len() >= ext.len() && ascii_lower(n).skip(ascii_lower(n).len() - ext.len()) == ext,
        None => false,
    }
}

fn ends_with_lower(name: &str, ext: &str) -> (r: bool)
    ensures
        r == has_extension(Some(name@), ext@),
{
    let cs = chars_of(name);
    let lower = to_ascii_lower(cs.as_slice());
    let e = chars_of(ext);
    if lower.len() < e.len() {
        return false;
    }
    let ll = lower.len();
    let off = ll - e.len();
    let mut j: usize = 0;
    while j < e.len()
        invariant
            j <= e@.len(),
            lower@ == ascii_lower(name@),
            e@ == ext@,
            off + e@.len() == lower@.len(),
            ll == lower@.len(),
            forall|k: int| 0 <= k < j ==> lower@[off + k] == e@[k],
        decreases e@.len() - j,
    {
        assert(off + j < lower@.len());
        if lower[off + j] != e[j] {
            assert(lower@.skip(off as int)[j as int] != e@[j as int]);
            return false;
        }
        j = j + 1;
    }
    assert(lower@.skip(off as int) =~= e@);
    true
}

pub open spec fn opt_name(name: Option<&str>) -> Option<Seq<char>> {
    match name {
        Some(n) => Some(n@),
        None => None,
    }
}

/// What reading a roster that is not a workbook gives: refused unless its name ends in
/// `.csv` (or it has none) and it is UTF-8; else the CSV records, then `normalize`.
pub open spec fn csv_roster_outcome(name: Option<Seq<char>>, bytes: Seq<u8>, r: Result<Vec<RosterStudent>, AppError>) -> bool {
    if name is Some && !has_extension(name, ".csv"@) {
        r matches Err(e) && refused_with(e, "请上传 .xlsx 或 UTF-8 CSV 名单"@)
    } else {
        match utf8_text(bytes) {
            None => r matches Err(e) && refused_with(e, "CSV 请保存为 UTF-8 编码，或直接从 Excel 复制粘贴"@),
            Some(t) => {
                let recs = csv_records(without_bom(t), csv_delimiter(without_bom(t)));
                match csv_scan(recs, 0) {
                    Some(m) => r matches Err(e) && refused_with(e, m),
                    None => roster_outcome(recs.map_values(|x: Option<Seq<Seq<char>>>| x.unwrap()), r),
                }
            },
        }
    }
}

/// Reads an uploaded roster: an Excel workbook when the name ends in `.xlsx`, else UTF-8
/// CSV (tab-separated when the first line holds a tab). Files over 2 MiB, other names and
/// text that is not UTF-8 are refused; the rows read are then checked as `normalize` does.
pub fn parse(name: Option<&str>, bytes: &[u8]) -> (r: Result<Vec<RosterStudent>, AppError>)
    ensures
        bytes@.len() > MAX_ROSTER_BYTES ==> (r matches Err(e) && refused_with(e, "名单文件不能超过 2 MiB"@)),
        bytes@.len() <= MAX_ROSTER_BYTES && has_extension(opt_name(name), ".xlsx"@) ==> match archive_problem(bytes@) {
            Some(m) => r matches Err(e) && refused_with(e, m),
            None => match sheet_rows(xlsx_first_sheet(bytes@)) {
                Err(m) => r matches Err(e) && refused_with(e, m),
                Ok(texts) => roster_outcome(texts, r),
            },
        },
        bytes@.len() <= MAX_ROSTER_BYTES && !has_extension(opt_name(name), ".xlsx"@) ==> csv_roster_outcome(
            opt_name(name),
            bytes@,
            r,
        ),
{
    if bytes.len() > MAX_ROSTER_BYTES {
        return Err(invalid("名单文件不能超过 2 MiB"));
    }
    let xlsx = match name {
        Some(n) => ends_with_lower(n, ".xlsx"),
        None => false,
    };
    if xlsx {
        match check_archive(bytes) {
            Ok(()) => {},
            Err(e) => {
                return Err(e);
            },
        }
        let sheet = read_first_sheet(bytes);
        let ghost sv = sheet.view();
        let rows = match rows_from_sheet(sheet) {
            Ok(rows) => rows,
            Err(e) => {
                return Err(e);
            },
        };
        return normalize(rows);
    }
    let csv = match name {
        Some(n) => ends_with_lower(n, ".csv"),
        None => true,
    };
    if !csv {
        return Err(invalid("请上传 .xlsx 或 UTF-8 CSV 名单"));
    }
    let text = match decode_utf8(bytes) {
        Some(t) => t,
        None => {
            return Err(invalid("CSV 请保存为 UTF-8 编码，或直接从 Excel 复制粘贴"));
        },
    };
    let cs = chars_of(text.as_str());
    let body = strip_bom(cs.as_slice());
    let delimiter = delimiter_of(body.as_slice());
    let body_text = crate::text::string_of(body.as_slice());
    assert(utf8_text(bytes@) == Some(text@));
    assert(body_text@ == without_bom(text@));
    assert(delimiter == csv_delimiter(without_bom(text@)));
    assert(!(name is Some && !has_extension(opt_name(name), ".csv"@)));
    assert(!has_extension(opt_name(name), ".xlsx"@));
    let records = read_csv(body_text.as_str(), delimiter);
    let ghost recs = records_view(records@);
    assert(recs == csv_records(without_bom(text@), csv_delimiter(without_bom(text@))));
    let rows = rows_from_csv(records);
    match rows {
        Ok(rows) => {
            assert(csv_rows_outcome(recs, Ok(rows)));
            let ghost kept = rows;
            let r = normalize(rows);
            assert(roster_outcome(rows_view(kept@), r));
            assert(roster_outcome(rows_view(kept@), r));
            r
        },
        Err(e) => {
            assert(csv_rows_outcome(recs, Err(e)));
            let r: Result<Vec<RosterStudent>, AppError> = Err(e);

            r
        },
    }
}


// ---------------------------------------------------------------------------
// Adding a roster to a year's list
// ---------------------------------------------------------------------------

/// A student as (number, name).
pub open spec fn student_view(s: RosterStudent) -> (Seq<char>, Seq<char>) {
    (s.student_no@, s.student_name@)
}

/// The name listed under the number `no`, the first one listed.
pub open spec fn listed_name(list: Seq<(Seq<char>, Seq<char>)>, no: Seq<char>) -> Option<Seq<char>>
    decreases list.len(),
{
    if list.len() == 0 {
        None
    } else if list[0].0 == no {
        Some(list[0].1)
    } else {
        listed_name(list.drop_first(), no)
    }
}

/// The students to add to a year's list, taken in order: a number already listed under
/// the same name is skipped, a number listed under another name refuses the whole
/// roster (`None`), and each student added is listed for the ones after it.
pub open spec fn roster_additions_from(list: Seq<(Seq<char>, Seq<char>)>, students: Seq<(Seq<char>, Seq<char>)>) -> Option<Seq<(Seq<char>, Seq<char>)>>
    decreases students.len(),
{
    if students.len() == 0 {
        Some(Seq::empty())
    } else {
        let s = students[0];
        match listed_name(list, s.0) {
            Some(n) => if n != s.1 {
                None
            } else {
                roster_additions_from(list, students.drop_first())
            },
            None => match roster_additions_from(list.push(s), students.drop_first()) {
                Some(rest) => Some(seq![s] + rest),
                None => None,
            },
        }
    }
}

proof fn lemma_listed_name_push(list: Seq<(Seq<char>, Seq<char>)>, s: (Seq<char>, Seq<char>), no: Seq<char>)
    ensures
        listed_name(list.push(s), no) == (if listed_name(list, no) is Some {
            listed_name(list, no)
        } else if s.0 == no {
            Some(s.1)
        } else {
            None
        }),
    decreases list.len(),
{
    if list.len() > 0 {
        assert(list.push(s).drop_first() =~= list.drop_first().push(s));
        lemma_listed_name_push(list.drop_first(), s, no);
    } else {
        assert(list.push(s).drop_first() =~= list);
    }
}

/// The name listed under `no`, searching the list from its start.
fn find_listed(list: &Vec<RosterStudent>, no: &String) -> (r: Option<usize>)
    ensures
        match r {
            Some(i) => i < list@.len() && listed_name(students_view(list@), no@) == Some(list@[i as int].student_name@),
            None => listed_name(students_view(list@), no@) is None,
        },
{
    let ghost v = students_view(list@);
    let mut i: usize = 0;
    assert(v.skip(0) =~= v);
    while i < list.len()
        invariant
            i <= list@.len(),
            v == students_view(list@),
            listed_name(v, no@) == listed_name(v.skip(i as int), no@),
        decreases list@.len() - i,
    {
        assert(v.skip(i as int).drop_first() =~= v.skip(i + 1));
        assert(v.skip(i as int)[0] == student_view(list@[i as int]));
        if str_eq(list[i].student_no.as_str(), no.as_str()) {
            return Some(i);
        }
        i = i + 1;
    }
    None
}

/// The students of a read roster that a year's list does not hold yet, in order; refused
/// when a number is listed (or read before) under another name, in which case nothing of
/// the roster is to be saved.
pub fn roster_additions(existing: &Vec<RosterStudent>, students: &Vec<RosterStudent>) -> (r: Result<Vec<RosterStudent>, AppError>)
    ensures
        match roster_additions_from(students_view(existing@), students_view(students@)) {
            Some(added) => r matches Ok(v) && students_view(v@) == added,
            None => r matches Err(e) && refused_with(e, "导入学号与现有名单中的姓名不一致，本次名单未保存，请核对后重试"@),
        },
{
    let ghost all = students_view(students@);
    let mut list: Vec<RosterStudent> = Vec::new();
    let mut j: usize = 0;
    while j < existing.len()
        invariant
            j <= existing@.len(),
            students_view(list@) == students_view(existing@.take(j as int)),
        decreases existing@.len() - j,
    {
        let e = &existing[j];
        let ghost before = students_view(list@);
        list.push(RosterStudent { student_name: e.student_name.clone(), student_no: e.student_no.clone() });
        assert(students_view(list@) =~= before.push(student_view(*e)));
        assert(existing@.take(j + 1) =~= existing@.take(j as int).push(*e));
        assert(students_view(existing@.take(j + 1)) =~= students_view(existing@.take(j as int)).push(student_view(*e)));
        j = j + 1;
    }
    assert(existing@.take(existing@.len() as int) =~= existing@);
    let mut added: Vec<RosterStudent> = Vec::new();
    let mut i: usize = 0;
    assert(all.skip(0) =~= all);
    while i < students.len()
        invariant
            i <= students@.len(),
            all == students_view(students@),
            roster_additions_from(students_view(existing@), all) == match roster_additions_from(students_view(list@), all.skip(i as int)) {
                Some(rest) => Some(students_view(added@) + rest),
                None => None,
            },
        decreases students@.len() - i,
    {
        let s = &students[i];
        let ghost lv = students_view(list@);
        let ghost tail = all.skip(i as int);
        assert(tail[0] == student_view(*s));
        assert(tail.drop_first() =~= all.skip(i + 1));
        match find_listed(&list, &s.student_no) {
            Some(k) => {
                if !str_eq(list[k].student_name.as_str(), s.student_name.as_str()) {
                    return Err(invalid("导入学号与现有名单中的姓名不一致，本次名单未保存，请核对后重试"));
                }
            },
            None => {
                let copy = RosterStudent { student_name: s.student_name.clone(), student_no: s.student_no.clone() };
                let ghost before_added = students_view(added@);
                list.push(RosterStudent { student_name: s.student_name.clone(), student_no: s.student_no.clone() });
                added.push(copy);
                proof {
                    assert(students_view(list@) =~= lv.push(student_view(*s)));
                    assert(students_view(added@) =~= before_added.push(student_view(*s)));
                    match roster_additions_from(lv.push(student_view(*s)), all.skip(i + 1)) {
                        Some(rest) => {
                            assert(before_added + (seq![student_view(*s)] + rest) =~= before_added.push(student_view(*s)) + rest);
                        },
                        None => {},
                    }
                }
            },
        }
        i = i + 1;
    }
    proof {
        assert(all.skip(students@.len() as int) =~= Seq::<(Seq<char>, Seq<char>)>::empty());
        assert(students_view(added@) + Seq::<(Seq<char>, Seq<char>)>::empty() =~= students_view(added@));
    }
    Ok(added)
}


// ---------------------------------------------------------------------------
// The roster form
// ---------------------------------------------------------------------------

/// ASCII white space as `u8::is_ascii_whitespace` reads it: space, tab, line feed, form
/// feed, carriage return.
pub open spec fn ascii_space(b: u8) -> bool {
    b == 32 || b == 9 || b == 10 || b == 12 || b == 13
}

/// A pasted roster that holds more than white space.
pub open spec fn text_given(text: Option<Vec<u8>>) -> bool {
    text matches Some(t) && exists|i: int| 0 <= i < t@.len() && !ascii_space(#[trigger] t@[i])
}

/// A file input with a file chosen.
pub open spec fn file_given(file: Option<(String, Vec<u8>)>) -> bool {
    file matches Some(f) && f.0@.len() > 0
}

fn all_space(bytes: &Vec<u8>) -> (r: bool)
    ensures
        r == !(exists|i: int| 0 <= i < bytes@.len() && !ascii_space(#[trigger] bytes@[i])),
{
    let mut i: usize = 0;
    while i < bytes.len()
        invariant
            i <= bytes@.len(),
            forall|k: int| 0 <= k < i ==> ascii_space(#[trigger] bytes@[k]),
        decreases bytes@.len() - i,
    {
        let b = bytes[i];
        if !(b == 32 || b == 9 || b == 10 || b == 12 || b == 13) {
            return false;
        }
        i = i + 1;
    }
    true
}

/// What a roster form gives to read, as (file name, bytes): the chosen file, else the
/// pasted text (empty when there is none). A file and a text at once are refused.
pub fn roster_submission(text: Option<Vec<u8>>, file: Option<(String, Vec<u8>)>) -> (r: Result<(Option<String>, Vec<u8>), AppError>)
    ensures
        text_given(text) && file_given(file) ==> (r matches Err(e) && refused_with(e, "请选择上传文件或粘贴名单其中一种方式"@)),
        !text_given(text) && file_given(file) ==> (r matches Ok(p) && (p.0 matches Some(n) && (file matches Some(f)
            && n@ == f.0@ && p.1@ == f.1@))),
        text_given(text) && !file_given(file) ==> (r matches Ok(p) && p.0 is None && (text matches Some(t) && p.1@ == t@)),
        !text_given(text) && !file_given(file) ==> (r matches Ok(p) && p.0 is None && p.1@.len() == 0),
{
    let text = match text {
        Some(t) => if all_space(&t) { None } else { Some(t) },
        None => None,
    };
    let file = match file {
        Some(f) => if f.0.as_str().is_empty() { None } else { Some(f) },
        None => None,
    };
    match (text, file) {
        (Some(_), Some(_)) => Err(invalid("请选择上传文件或粘贴名单其中一种方式")),
        (None, Some(f)) => Ok((Some(f.0), f.1)),
        (Some(t), None) => Ok((None, t)),
        (None, None) => Ok((None, Vec::new())),
    }
}

} // verus!
