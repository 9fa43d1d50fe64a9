//! Keys of deletable records and the selection a recycle form submits.
use vstd::prelude::*;

use crate::error::AppError;
use crate::form::FormValues;
use crate::text::{
    chars_of, find_char, first_index_of, has_char, i64_string, int_text, lemma_decimal_digits,
    parse_i64, parse_i64_spec, push_str, seq_eq, string_of, str_eq, sub_chars, all_digits,
    digits_value, decimal,
};

verus! {

/// A submission or a no-material declaration, by id.
#[derive(Debug, Clone, Copy, PartialEq, Eq, PartialOrd, Ord, Structural)]
pub enum RecordKey {
    Submission(i64),
    Declaration(i64),
}

pub open spec fn key_id(k: RecordKey) -> i64 {
    match k {
        RecordKey::Submission(id) => id,
        RecordKey::Declaration(id) => id,
    }
}

/// The form text of a key: `s:` or `d:` and the id.
pub open spec fn record_key_text(k: RecordKey) -> Seq<char> {
    match k {
        RecordKey::Submission(id) => "s:"@ + int_text(id as int),
        RecordKey::Declaration(id) => "d:"@ + int_text(id as int),
    }
}

/// The key a form text names: a kind before the first colon and a positive id after it.
pub open spec fn record_key_from(s: Seq<char>) -> Option<RecordKey> {
    match first_index_of(s, ':') {
        Some(i) => match parse_i64_spec(s.skip(i + 1)) {
            Some(id) => if id <= 0 {
                None
            } else if s.take(i) == "s"@ {
                Some(RecordKey::Submission(id))
            } else if s.take(i) == "d"@ {
                Some(RecordKey::Declaration(id))
            } else {
                None
            },
            None => None,
        },
        None => None,
    }
}

impl RecordKey {
    pub fn parse(value: &str) -> (r: Result<RecordKey, AppError>)
        ensures
            r matches Ok(k) ==> record_key_from(value@) == Some(k),
            r is Err ==> record_key_from(value@) is None,
            r matches Err(e) ==> e is BadRequest,
    {
        let cs = chars_of(value);
        let colon = match find_char(cs.as_slice(), ':') {
            Some(i) => i,
            None => return Err(AppError::BadRequest),
        };
        let kind = sub_chars(cs.as_slice(), 0, colon);
        let rest = sub_chars(cs.as_slice(), colon + 1, cs.len());
        let rest_text = string_of(rest.as_slice());
        assert(rest@ =~= value@.skip(colon + 1));
        assert(kind@ =~= value@.take(colon as int));
        let id = match parse_i64(rest_text.as_str()) {
            Some(id) => id,
            None => return Err(AppError::BadRequest),
        };
        if id <= 0 {
            return Err(AppError::BadRequest);
        }
        let s = chars_of("s");
        let d = chars_of("d");
        if seq_eq(kind.as_slice(), s.as_slice()) {
            Ok(RecordKey::Submission(id))
        } else if seq_eq(kind.as_slice(), d.as_slice()) {
            Ok(RecordKey::Declaration(id))
        } else {
            Err(AppError::BadRequest)
        }
    }

    pub fn value(self) -> (r: String)
        ensures
            r@ == record_key_text(self),
    {
        let mut r = String::new();
        match self {
            RecordKey::Submission(id) => {
                push_str(&mut r, "s:");
                let n = i64_string(id);
                push_str(&mut r, n.as_str());
            },
            RecordKey::Declaration(id) => {
                push_str(&mut r, "d:");
                let n = i64_string(id);
                push_str(&mut r, n.as_str());
            },
        }
        r
    }

    /// The table that holds the record, and its id there.
    pub fn table_id(self) -> (r: (&'static str, i64))
        ensures
            self is Submission ==> r.0@ == "submissions"@,
            self is Declaration ==> r.0@ == "student_declarations"@,
            r.1 == key_id(self),
    {
        match self {
            RecordKey::Submission(id) => ("submissions", id),
            RecordKey::Declaration(id) => ("student_declarations", id),
        }
    }
}

/// Reading back the form text of a key with a positive id gives the same key.
pub proof fn law_record_key_round_trip(k: RecordKey)
    requires
        key_id(k) > 0,
    ensures
        record_key_from(record_key_text(k)) == Some(k),
{
    let id = key_id(k);
    lemma_decimal_digits(id as nat);
    reveal_strlit("s:");
    reveal_strlit("d:");
    reveal_strlit("s");
    reveal_strlit("d");
    let t = record_key_text(k);
    let dec = decimal(id as nat);
    assert(int_text(id as int) == dec);
    assert(t.len() == 2 + dec.len());
    assert(t[1] == ':');
    assert(t[0] != ':');
    assert(first_index_of(t.skip(1), ':') == Some(0int)) by {
        assert(t.skip(1)[0] == ':');
    }
    assert(first_index_of(t, ':') == Some(1int)) by {
        assert(t[0] != ':');
        assert(t.drop_first() =~= t.skip(1));
    }
    assert(t.skip(2) =~= dec);
    assert(dec[0] != '-') by {
        if dec[0] == '-' {
            assert(has_char(dec, '-'));
        }
    }
    assert(dec[0] != '+') by {
        assert(crate::text::is_digit(dec[0]));
    }
    assert(parse_i64_spec(dec) == Some(id));
    match k {
        RecordKey::Submission(_) => {
            assert(t.take(1) =~= "s"@);
        },
        RecordKey::Declaration(_) => {
            assert(t.take(1) =~= "d"@);
            assert("d"@ != "s"@) by {
                assert("d"@[0] != "s"@[0]);
            }
        },
    }
}


/// Whether `s` starts with `p`.
pub open spec fn starts_with(s: Seq<char>, p: Seq<char>) -> bool {
    p.len() <= s.len() && s.take(p.len() as int) == p
}

/// Order of keys: submissions before declarations, then by id.
pub open spec fn key_lt(a: RecordKey, b: RecordKey) -> bool {
    match (a, b) {
        (RecordKey::Submission(x), RecordKey::Submission(y)) => x < y,
        (RecordKey::Declaration(x), RecordKey::Declaration(y)) => x < y,
        (RecordKey::Submission(_), RecordKey::Declaration(_)) => true,
        (RecordKey::Declaration(_), RecordKey::Submission(_)) => false,
    }
}

fn key_before(a: RecordKey, b: RecordKey) -> (r: bool)
    ensures
        r == key_lt(a, b),
{
    match (a, b) {
        (RecordKey::Submission(x), RecordKey::Submission(y)) => x < y,
        (RecordKey::Declaration(x), RecordKey::Declaration(y)) => x < y,
        (RecordKey::Submission(_), RecordKey::Declaration(_)) => true,
        (RecordKey::Declaration(_), RecordKey::Submission(_)) => false,
    }
}

pub open spec fn selected_prefix() -> Seq<char> {
    "selected:"@
}

/// A field that selects a record.
pub open spec fn is_selection(e: (String, String)) -> bool {
    starts_with(e.0@, selected_prefix())
}

/// A selection field must say `yes` and name a valid key.
pub open spec fn selection_valid(e: (String, String)) -> bool {
    e.1@ == "yes"@ && record_key_from(e.0@.skip(9)) is Some
}

/// The keys of the selected records, in field order (repeats kept).
pub open spec fn selected_keys(s: Seq<(String, String)>) -> Seq<RecordKey>
    decreases s.len(),
{
    if s.len() == 0 {
        Seq::empty()
    } else {
        let rest = selected_keys(s.drop_last());
        if is_selection(s.last()) && record_key_from(s.last().0@.skip(9)) is Some {
            rest.push(record_key_from(s.last().0@.skip(9))->0)
        } else {
            rest
        }
    }
}

pub open spec fn sorted_keys(v: Seq<RecordKey>) -> bool {
    forall|i: int, j: int| 0 <= i < j < v.len() ==> key_lt(#[trigger] v[i], #[trigger] v[j])
}

/// The records a recycle form selects: each selection field says `yes` and names a valid
/// key; between 1 and 500 distinct records; the result lists them once each, in key order.
pub fn keys(values: &FormValues) -> (r: Result<Vec<RecordKey>, AppError>)
    ensures
        r is Ok <==> (forall|i: int| 0 <= i < values.entries@.len() && is_selection(#[trigger] values.entries@[i]) ==> selection_valid(values.entries@[i]))
            && 1 <= selected_keys(values.entries@).to_set().len() <= 500,
        r matches Ok(v) ==> sorted_keys(v@) && v@.to_set() == selected_keys(values.entries@).to_set(),
        r matches Err(e) ==> e is BadRequest,
{
    let ghost es = values.entries@;
    let mut keys: Vec<RecordKey> = Vec::new();
    let mut i: usize = 0;
    let prefix = chars_of("selected:");
    proof {
        reveal_strlit("selected:");
        reveal_strlit("yes");
    }
    assert(prefix@.len() == 9);
    while i < values.entries.len()
        invariant
            es == values.entries@,
            prefix@ == selected_prefix(),
            prefix@.len() == 9,
            i <= es.len(),
            sorted_keys(keys@),
            keys@.to_set() == selected_keys(es.take(i as int)).to_set(),
            forall|j: int| 0 <= j < i && is_selection(#[trigger] es[j]) ==> selection_valid(es[j]),
        decreases es.len() - i,
    {
        let name = chars_of(values.entries[i].0.as_str());
        let ghost e = es[i as int];
        assert(es.take(i + 1).drop_last() =~= es.take(i as int));
        let selected = name.len() >= 9 && {
            let head = sub_chars(name.as_slice(), 0, 9);
            seq_eq(head.as_slice(), prefix.as_slice())
        };
        if selected {
            assert(is_selection(e));
            if !str_eq(values.entries[i].1.as_str(), "yes") {
                return Err(AppError::BadRequest);
            }
            let rest = sub_chars(name.as_slice(), 9, name.len());
            let rest_text = string_of(rest.as_slice());
            assert(rest@ =~= e.0@.skip(9));
            let key = match RecordKey::parse(rest_text.as_str()) {
                Ok(k) => k,
                Err(err) => return Err(err),
            };
            let ghost before = keys@;
            insert_sorted(&mut keys, key);
            proof {
                assert(selected_keys(es.take(i + 1)) == selected_keys(es.take(i as int)).push(key));
                let prev = selected_keys(es.take(i as int));
                assert forall|x: RecordKey| prev.push(key).contains(x) <==> prev.to_set().insert(key).contains(x) by {
                    if prev.push(key).contains(x) {
                        let j = choose|j: int| 0 <= j < prev.push(key).len() && prev.push(key)[j] == x;
                        if j < prev.len() {
                            assert(prev[j] == x);
                        }
                    }
                    if prev.contains(x) {
                        let j = choose|j: int| 0 <= j < prev.len() && prev[j] == x;
                        assert(prev.push(key)[j] == x);
                    }
                    if x == key {
                        assert(prev.push(key)[prev.len() as int] == key);
                    }
                }
                assert(keys@.to_set() =~= selected_keys(es.take(i + 1)).to_set());
            }
        } else {
            proof {
                if is_selection(e) {
                    assert(e.0@.take(9) =~= name@.subrange(0, 9));
                }
                assert(selected_keys(es.take(i + 1)) == selected_keys(es.take(i as int)));
            }
        }
        i = i + 1;
    }
    proof {
        assert(es.take(es.len() as int) =~= es);
        lemma_sorted_no_dup(keys@);
        keys@.unique_seq_to_set();
    }
    if keys.len() == 0 || keys.len() > 500 {
        return Err(AppError::BadRequest);
    }
    Ok(keys)
}

proof fn lemma_sorted_no_dup(v: Seq<RecordKey>)
    requires
        sorted_keys(v),
    ensures
        v.no_duplicates(),
{
    assert forall|i: int, j: int| 0 <= i < v.len() && 0 <= j < v.len() && i != j implies v[i] != v[j] by {
        if i < j {
            assert(key_lt(v[i], v[j]));
        } else {
            assert(key_lt(v[j], v[i]));
        }
    }
}

/// Adds `k` to a sorted list unless it is already there.
fn insert_sorted(keys: &mut Vec<RecordKey>, k: RecordKey)
    requires
        sorted_keys(old(keys)@),
    ensures
        sorted_keys(final(keys)@),
        final(keys)@.to_set() == old(keys)@.to_set().insert(k),
{
    let n = keys.len();
    let mut p: usize = 0;
    while p < n && key_before(keys[p], k)
        invariant
            p <= n,
            n == keys@.len(),
            keys@ == old(keys)@,
            forall|j: int| 0 <= j < p ==> key_lt(#[trigger] keys@[j], k),
        decreases n - p,
    {
        p = p + 1;
    }
    if p < n && keys[p] == k {
        assert(keys@.to_set() =~= old(keys)@.to_set().insert(k)) by {
            assert(keys@.contains(k)) by {
                assert(keys@[p as int] == k);
            }
        }
        return;
    }
    let ghost before = keys@;
    keys.insert(p, k);
    proof {
        assert forall|a: int, b: int| 0 <= a < b < keys@.len() implies key_lt(#[trigger] keys@[a], #[trigger] keys@[b]) by {
            if b == p {
                assert(keys@[a] == before[a]);
            } else if a == p {
                assert(keys@[b] == before[b - 1]);
                assert(!key_lt(before[p as int], k));
                if b - 1 > p {
                    assert(key_lt(before[p as int], before[b - 1]));
                }
            } else if a < p && b > p {
                assert(key_lt(before[a], k));
                assert(!key_lt(before[p as int], k));
                assert(key_lt(before[p as int], before[b - 1]) || b - 1 == p);
            } else if b < p {
                assert(keys@[a] == before[a] && keys@[b] == before[b]);
            } else {
                assert(keys@[a] == before[a - 1] && keys@[b] == before[b - 1]);
            }
        }
        assert(keys@.to_set() =~= before.to_set().insert(k)) by {
            assert forall|x: RecordKey| keys@.contains(x) <==> before.to_set().insert(k).contains(x) by {
                if keys@.contains(x) {
                    let j = choose|j: int| 0 <= j < keys@.len() && keys@[j] == x;
                    if j < p {
                        assert(before[j] == x);
                    } else if j > p {
                        assert(before[j - 1] == x);
                    }
                }
                if before.contains(x) {
                    let j = choose|j: int| 0 <= j < before.len() && before[j] == x;
                    if j < p {
                        assert(keys@[j] == x);
                    } else {
                        assert(keys@[j + 1] == x);
                    }
                }
                if x == k {
                    assert(keys@[p as int] == k);
                }
            }
        }
    }
}

/// A deleted record as the recycle bin lists it.
#[derive(Debug, Clone)]
pub struct RecycleRecord {
    pub key: String,
    pub year_name: String,
    pub student_name: String,
    pub student_no: String,
    pub label: String,
    pub deleted_at: Option<String>,
}

/// What deleting an academic year removes.
#[derive(Debug, Clone)]
pub struct YearDeletionSummary {
    pub id: i64,
    pub name: String,
    pub is_active: bool,
    pub students: i64,
    pub submissions: i64,
    pub declarations: i64,
    pub attachments: i64,
}

} // verus!
