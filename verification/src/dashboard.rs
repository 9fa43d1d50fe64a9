//! The administrator's dashboard: its rows, their order, and the counts per state.
use vstd::multiset::Multiset;
use vstd::prelude::*;

use crate::domain::{
    category_label, status_label, status_name, StudentDeclaration, Submission, SubmissionStatus,
};
use crate::text::{i64_string, int_text, push_str};
use crate::validation::admin::DashboardRowKind;

verus! {

/// A row of the dashboard: a submission, or a declaration of no material.
pub enum DashboardRow {
    Submission(Box<Submission>),
    Declaration(StudentDeclaration),
}

impl DashboardRow {
    pub open spec fn spec_id(&self) -> i64 {
        match self {
            DashboardRow::Submission(s) => s.id,
            DashboardRow::Declaration(d) => d.id,
        }
    }

    pub open spec fn spec_rank(&self) -> int {
        match self {
            DashboardRow::Submission(_) => 0,
            DashboardRow::Declaration(_) => 1,
        }
    }

    pub open spec fn spec_created_at(&self) -> crate::domain::Instant {
        match self {
            DashboardRow::Submission(s) => s.created_at,
            DashboardRow::Declaration(d) => d.created_at,
        }
    }

    /// The key by which the form's hidden selection names the row: `s:` or `d:` and the id.
    pub fn record_key(&self) -> (r: String)
        ensures
            r@ == (match self {
                DashboardRow::Submission(s) => "s:"@ + int_text(s.id as int),
                DashboardRow::Declaration(d) => "d:"@ + int_text(d.id as int),
            }),
    {
        let mut r = String::new();
        match self {
            DashboardRow::Submission(s) => {
                push_str(&mut r, "s:");
                push_str(&mut r, i64_string(s.id).as_str());
            },
            DashboardRow::Declaration(d) => {
                push_str(&mut r, "d:");
                push_str(&mut r, i64_string(d.id).as_str());
            },
        }
        r
    }

    pub fn kind(&self) -> (r: DashboardRowKind)
        ensures
            r == (match self {
                DashboardRow::Submission(_) => DashboardRowKind::Submission,
                DashboardRow::Declaration(_) => DashboardRowKind::Declaration,
            }),
    {
        match self {
            DashboardRow::Submission(_) => DashboardRowKind::Submission,
            DashboardRow::Declaration(_) => DashboardRowKind::Declaration,
        }
    }

    pub fn student_name(&self) -> (r: &str)
        ensures
            r@ == (match self {
                DashboardRow::Submission(s) => s.student_name@,
                DashboardRow::Declaration(d) => d.student_name@,
            }),
    {
        match self {
            DashboardRow::Submission(s) => s.student_name.as_str(),
            DashboardRow::Declaration(d) => d.student_name.as_str(),
        }
    }

    pub fn student_no(&self) -> (r: &str)
        ensures
            r@ == (match self {
                DashboardRow::Submission(s) => s.student_no@,
                DashboardRow::Declaration(d) => d.student_no@,
            }),
    {
        match self {
            DashboardRow::Submission(s) => s.student_no.as_str(),
            DashboardRow::Declaration(d) => d.student_no.as_str(),
        }
    }

    pub fn submission_no(&self) -> (r: Option<&str>)
        ensures
            match self {
                DashboardRow::Submission(s) => r matches Some(t) && t@ == s.submission_no@,
                DashboardRow::Declaration(_) => r is None,
            },
    {
        match self {
            DashboardRow::Submission(s) => Some(s.submission_no.as_str()),
            DashboardRow::Declaration(_) => None,
        }
    }

    pub fn result_name(&self) -> (r: Option<&str>)
        ensures
            match self {
                DashboardRow::Submission(s) => r matches Some(t) && t@ == s.result_name@,
                DashboardRow::Declaration(_) => r is None,
            },
    {
        match self {
            DashboardRow::Submission(s) => Some(s.result_name.as_str()),
            DashboardRow::Declaration(_) => None,
        }
    }

    pub fn category_label(&self) -> (r: Option<&'static str>)
        ensures
            match self {
                DashboardRow::Submission(s) => r matches Some(t) && t@ == category_label(s.category),
                DashboardRow::Declaration(_) => r is None,
            },
    {
        match self {
            DashboardRow::Submission(s) => Some(s.category.label()),
            DashboardRow::Declaration(_) => None,
        }
    }

    /// The state shown: the review state of a submission, 无申报材料 for a declaration.
    pub fn status_label(&self) -> (r: &'static str)
        ensures
            r@ == (match self {
                DashboardRow::Submission(s) => status_label(s.status),
                DashboardRow::Declaration(_) => "无申报材料"@,
            }),
    {
        match self {
            DashboardRow::Submission(s) => s.status.label(),
            DashboardRow::Declaration(_) => "无申报材料",
        }
    }

    pub fn status_key(&self) -> (r: Option<&'static str>)
        ensures
            match self {
                DashboardRow::Submission(s) => r matches Some(t) && t@ == status_name(s.status),
                DashboardRow::Declaration(_) => r is None,
            },
    {
        match self {
            DashboardRow::Submission(s) => Some(s.status.as_str()),
            DashboardRow::Declaration(_) => None,
        }
    }

    pub fn student_modified_after_review(&self) -> (r: bool)
        ensures
            r == (match self {
                DashboardRow::Submission(s) => s.student_modified_after_review,
                DashboardRow::Declaration(_) => false,
            }),
    {
        match self {
            DashboardRow::Submission(s) => s.student_modified_after_review,
            DashboardRow::Declaration(_) => false,
        }
    }

    /// The page of a submission; a declaration has none.
    pub fn detail_url(&self) -> (r: Option<String>)
        ensures
            match self {
                DashboardRow::Submission(s) => r matches Some(t) && t@ == "/admin/submissions/"@ + int_text(s.id as int),
                DashboardRow::Declaration(_) => r is None,
            },
    {
        match self {
            DashboardRow::Submission(s) => {
                let mut r = String::new();
                push_str(&mut r, "/admin/submissions/");
                push_str(&mut r, i64_string(s.id).as_str());
                Some(r)
            },
            DashboardRow::Declaration(_) => None,
        }
    }

    fn created_at(&self) -> (r: crate::domain::Instant)
        ensures
            r == self.spec_created_at(),
    {
        match self {
            DashboardRow::Submission(s) => s.created_at,
            DashboardRow::Declaration(d) => d.created_at,
        }
    }

    fn id(&self) -> (r: i64)
        ensures
            r == self.spec_id(),
    {
        match self {
            DashboardRow::Submission(s) => s.id,
            DashboardRow::Declaration(d) => d.id,
        }
    }

    fn kind_rank(&self) -> (r: u8)
        ensures
            r == self.spec_rank(),
    {
        match self {
            DashboardRow::Submission(_) => 0,
            DashboardRow::Declaration(_) => 1,
        }
    }
}

/// The dashboard order: newest first; at the same instant submissions before
/// declarations; then the larger id first.
pub open spec fn row_before(a: DashboardRow, b: DashboardRow) -> bool {
    let ta = a.spec_created_at();
    let tb = b.spec_created_at();
    ||| ta.secs > tb.secs
    ||| ta.secs == tb.secs && ta.nanos > tb.nanos
    ||| ta == tb && a.spec_rank() < b.spec_rank()
    ||| ta == tb && a.spec_rank() == b.spec_rank() && a.spec_id() > b.spec_id()
}

/// In dashboard order: no row comes before one listed earlier.
pub open spec fn rows_ordered(s: Seq<DashboardRow>) -> bool {
    forall|i: int, j: int| 0 <= i < j < s.len() ==> !row_before(#[trigger] s[j], #[trigger] s[i])
}

fn before(a: &DashboardRow, b: &DashboardRow) -> (r: bool)
    ensures
        r == row_before(*a, *b),
{
    let ta = a.created_at();
    let tb = b.created_at();
    ta.secs > tb.secs || (ta.secs == tb.secs && ta.nanos > tb.nanos) || (ta.secs == tb.secs && ta.nanos
        == tb.nanos && (a.kind_rank() < b.kind_rank() || (a.kind_rank() == b.kind_rank() && a.id()
        > b.id())))
}

/// Puts `row` among sorted rows, after every row it does not come before.
fn insert_row(rows: &mut Vec<DashboardRow>, row: DashboardRow)
    requires
        rows_ordered(old(rows)@),
    ensures
        rows_ordered(final(rows)@),
        final(rows)@.to_multiset() == old(rows)@.to_multiset().insert(row),
{
    let n = rows.len();
    let mut p: usize = 0;
    while p < n && !before(&row, &rows[p])
        invariant
            p <= n,
            n == rows@.len(),
            rows@ == old(rows)@,
            forall|j: int| 0 <= j < p ==> !row_before(row, #[trigger] rows@[j]),
        decreases n - p,
    {
        p = p + 1;
    }
    let ghost before_rows = rows@;
    let ghost r = row;
    rows.insert(p, row);
    proof {
        let after = rows@;
        assert(after =~= before_rows.insert(p as int, r));
        assert forall|i: int, j: int| 0 <= i < j < after.len() implies !row_before(#[trigger] after[j], #[trigger] after[i]) by {
            if j == p {
                assert(after[i] == before_rows[i]);
            } else if i == p {
                assert(after[j] == before_rows[j - 1]);
                assert(row_before(r, before_rows[p as int]));
                if j - 1 > p {
                    assert(!row_before(before_rows[j - 1], before_rows[p as int]));
                }
            } else if i < p && j > p {
                assert(after[i] == before_rows[i] && after[j] == before_rows[j - 1]);
                assert(!row_before(r, before_rows[i]));
                assert(row_before(r, before_rows[p as int]));
                if j - 1 > p {
                    assert(!row_before(before_rows[j - 1], before_rows[p as int]));
                }
            } else if j < p {
                assert(after[i] == before_rows[i] && after[j] == before_rows[j]);
            } else {
                assert(after[i] == before_rows[i - 1] && after[j] == before_rows[j - 1]);
            }
        }
        vstd::seq_lib::to_multiset_insert(before_rows, p as int, r);
    }
}

pub open spec fn submission_rows(s: Seq<Submission>) -> Seq<DashboardRow> {
    s.map_values(|x: Submission| DashboardRow::Submission(Box::new(x)))
}

pub open spec fn declaration_rows(s: Seq<StudentDeclaration>) -> Seq<DashboardRow> {
    s.map_values(|x: StudentDeclaration| DashboardRow::Declaration(x))
}

proof fn lemma_empty_multiset<A>(s: Seq<A>)
    requires
        s.len() == 0,
    ensures
        s.to_multiset() == Multiset::<A>::empty(),
{
    vstd::seq_lib::to_multiset_len(s);
    assert(s.to_multiset() =~= Multiset::<A>::empty()) by {
        broadcast use vstd::multiset::group_multiset_axioms;
        assert forall|a: A| s.to_multiset().count(a) == 0 by {
            vstd::seq_lib::to_multiset_contains(s, a);
        }
    }
}

/// The dashboard's rows: the submissions and the declarations, in dashboard order.
pub fn dashboard_rows(submissions: Vec<Submission>, declarations: Vec<StudentDeclaration>) -> (r: Vec<DashboardRow>)
    ensures
        rows_ordered(r@),
        r@.to_multiset() == submission_rows(submissions@).to_multiset().add(declaration_rows(declarations@).to_multiset()),
{
    let ghost total = submission_rows(submissions@).to_multiset().add(declaration_rows(declarations@).to_multiset());
    let mut rows: Vec<DashboardRow> = Vec::new();
    let mut subs = submissions;
    let mut decls = declarations;
    proof {
        lemma_empty_multiset(rows@);
        assert(rows@.to_multiset().add(submission_rows(subs@).to_multiset()).add(declaration_rows(decls@).to_multiset()) =~= total);
    }
    while subs.len() > 0
        invariant
            rows_ordered(rows@),
            rows@.to_multiset().add(submission_rows(subs@).to_multiset()).add(declaration_rows(decls@).to_multiset()) == total,
        decreases subs@.len(),
    {
        let ghost old_subs = subs@;
        let s = subs.pop().unwrap();
        let row = DashboardRow::Submission(Box::new(s));
        proof {
            assert(old_subs =~= subs@.push(s));
            assert(submission_rows(old_subs) =~= submission_rows(subs@).push(row));
            vstd::seq_lib::to_multiset_build(submission_rows(subs@), row);
        }
        let ghost old_rows = rows@;
        insert_row(&mut rows, row);
        proof {
            assert(rows@.to_multiset().add(submission_rows(subs@).to_multiset()) =~= old_rows.to_multiset().add(submission_rows(old_subs).to_multiset()));
        }
    }
    while decls.len() > 0
        invariant
            rows_ordered(rows@),
            subs@.len() == 0,
            rows@.to_multiset().add(submission_rows(subs@).to_multiset()).add(declaration_rows(decls@).to_multiset()) == total,
        decreases decls@.len(),
    {
        let ghost old_decls = decls@;
        let d = decls.pop().unwrap();
        let row = DashboardRow::Declaration(d);
        proof {
            assert(old_decls =~= decls@.push(d));
            assert(declaration_rows(old_decls) =~= declaration_rows(decls@).push(row));
            vstd::seq_lib::to_multiset_build(declaration_rows(decls@), row);
        }
        let ghost old_rows = rows@;
        insert_row(&mut rows, row);
        proof {
            assert(rows@.to_multiset().add(submission_rows(subs@).to_multiset()).add(declaration_rows(decls@).to_multiset()) =~= old_rows.to_multiset().add(submission_rows(subs@).to_multiset()).add(declaration_rows(old_decls).to_multiset()));
        }
    }
    proof {
        lemma_empty_multiset(submission_rows(subs@));
        lemma_empty_multiset(declaration_rows(decls@));
        assert(rows@.to_multiset() =~= total);
    }
    rows
}

/// How many submissions are in state `s`.
pub open spec fn count_status(subs: Seq<Submission>, s: SubmissionStatus) -> nat
    decreases subs.len(),
{
    if subs.len() == 0 {
        0
    } else {
        count_status(subs.drop_last(), s) + if subs.last().status == s { 1nat } else { 0nat }
    }
}

/// The number of submissions in each state, in the order pending, approved, needing
/// revision, rejected.
pub fn status_counts(subs: &Vec<Submission>) -> (r: Vec<(SubmissionStatus, usize)>)
    ensures
        r@.len() == 4,
        forall|i: int| 0 <= i < 4 ==> (#[trigger] r@[i]).0 == crate::domain::all_statuses()[i] && r@[i].1
            == count_status(subs@, r@[i].0),
{
    let statuses = SubmissionStatus::all();
    let mut r: Vec<(SubmissionStatus, usize)> = Vec::new();
    let mut k: usize = 0;
    while k < 4
        invariant
            k <= 4,
            statuses@ == crate::domain::all_statuses(),
            r@.len() == k,
            forall|i: int| 0 <= i < k ==> (#[trigger] r@[i]).0 == statuses@[i] && r@[i].1 == count_status(subs@, statuses@[i]),
        decreases 4 - k,
    {
        let status = statuses[k];
        let mut n: usize = 0;
        let mut i: usize = 0;
        while i < subs.len()
            invariant
                i <= subs@.len(),
                n == count_status(subs@.take(i as int), status),
                n <= i,
            decreases subs@.len() - i,
        {
            assert(subs@.take(i + 1).drop_last() =~= subs@.take(i as int));
            if subs[i].status == status {
                n = n + 1;
            }
            i = i + 1;
        }
        assert(subs@.take(subs@.len() as int) =~= subs@);
        r.push((status, n));
        k = k + 1;
    }
    r
}

/// The dashboard: the rows in order, the counts per state and of declarations, and the
/// approved total that the caller adds up from the scores.
pub struct DashboardData {
    pub submissions: Vec<Submission>,
    pub rows: Vec<DashboardRow>,
    pub status_counts: Vec<(SubmissionStatus, usize)>,
    pub declaration_count: i64,
    pub approved_total: String,
}

} // verus!
