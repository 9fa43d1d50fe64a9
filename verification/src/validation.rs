//! Field-keyed error messages and the form validators.
use vstd::prelude::*;

pub mod admin;
pub mod category;
pub mod settings;
pub mod submission;
pub mod upload;

use crate::text::{join, push_str, lemma_lex_irrefl, lemma_lex_trans, lex_compare, lex_lt, chars_of};

verus! {

/// A list of (field, messages) entries viewed as the map from field to its messages.
pub open spec fn ent_has(s: Seq<(Seq<char>, Seq<Seq<char>>)>, k: Seq<char>) -> bool {
    exists|i: int| 0 <= i < s.len() && (#[trigger] s[i]).0 == k
}

pub open spec fn ent_index(s: Seq<(Seq<char>, Seq<Seq<char>>)>, k: Seq<char>) -> int {
    choose|i: int| 0 <= i < s.len() && (#[trigger] s[i]).0 == k
}

pub open spec fn ent_view(s: Seq<(Seq<char>, Seq<Seq<char>>)>) -> Map<Seq<char>, Seq<Seq<char>>> {
    Map::new(|k: Seq<char>| ent_has(s, k), |k: Seq<char>| s[ent_index(s, k)].1)
}

/// Keys strictly increasing: each field appears once, in `String` order.
pub open spec fn ent_sorted(s: Seq<(Seq<char>, Seq<Seq<char>>)>) -> bool {
    forall|i: int, j: int| 0 <= i < j < s.len() ==> lex_lt(#[trigger] s[i].0, #[trigger] s[j].0)
}

/// Every message, field by field in key order.
pub open spec fn all_messages(s: Seq<(Seq<char>, Seq<Seq<char>>)>) -> Seq<Seq<char>>
    decreases s.len(),
{
    if s.len() == 0 {
        Seq::empty()
    } else {
        all_messages(s.drop_last()) + s.last().1
    }
}

/// The messages recorded for `k` (none when the field has no entry).
pub open spec fn msgs_in(m: Map<Seq<char>, Seq<Seq<char>>>, k: Seq<char>) -> Seq<Seq<char>> {
    if m.contains_key(k) {
        m[k]
    } else {
        Seq::empty()
    }
}

/// The map after one more message for field `k`.
pub open spec fn add_msg(m: Map<Seq<char>, Seq<Seq<char>>>, k: Seq<char>, msg: Seq<char>) -> Map<
    Seq<char>,
    Seq<Seq<char>>,
> {
    m.insert(k, msgs_in(m, k).push(msg))
}

/// Every field of either map, with the messages of `a` followed by those of `b`.
pub open spec fn merge_msgs(
    a: Map<Seq<char>, Seq<Seq<char>>>,
    b: Map<Seq<char>, Seq<Seq<char>>>,
) -> Map<Seq<char>, Seq<Seq<char>>> {
    Map::new(
        |k: Seq<char>| a.contains_key(k) || b.contains_key(k),
        |k: Seq<char>| msgs_in(a, k) + msgs_in(b, k),
    )
}

pub proof fn lemma_ent_lookup(s: Seq<(Seq<char>, Seq<Seq<char>>)>, i: int)
    requires
        ent_sorted(s),
        0 <= i < s.len(),
    ensures
        ent_view(s).contains_key(s[i].0),
        ent_view(s)[s[i].0] == s[i].1,
{
    let k = s[i].0;
    assert(ent_has(s, k));
    let j = ent_index(s, k);
    if j != i {
        if j < i {
            assert(lex_lt(s[j].0, s[i].0));
        } else {
            assert(lex_lt(s[i].0, s[j].0));
        }
        lemma_lex_irrefl(k);
    }
}

/// The result of a validator whose rules produce the messages `e`: success exactly when
/// there is no message, otherwise those messages.
pub open spec fn rejects_with<T>(r: Result<T, ValidationErrors>, e: Map<Seq<char>, Seq<Seq<char>>>) -> bool {
    match r {
        Ok(_) => e == Map::<Seq<char>, Seq<Seq<char>>>::empty(),
        Err(x) => x.wf() && x@ == e && e != Map::<Seq<char>, Seq<Seq<char>>>::empty(),
    }
}

/// Messages for the form fields that failed validation.
#[derive(Debug, Clone, PartialEq, Eq)]
pub struct ValidationErrors {
    pub fields: Vec<(String, Vec<String>)>,
}

impl View for ValidationErrors {
    type V = Map<Seq<char>, Seq<Seq<char>>>;

    open spec fn view(&self) -> Map<Seq<char>, Seq<Seq<char>>> {
        ent_view(self.ents())
    }
}

impl ValidationErrors {
    /// The entries as (field, messages) character sequences.
    pub open spec fn ents(self) -> Seq<(Seq<char>, Seq<Seq<char>>)> {
        self.fields@.map_values(
            |e: (String, Vec<String>)| (e.0@, e.1@.map_values(|m: String| m@)),
        )
    }

    pub proof fn lemma_ents_index(self, i: int)
        requires
            0 <= i < self.fields@.len(),
        ensures
            self.ents().len() == self.fields@.len(),
            self.ents()[i].0 == self.fields@[i].0@,
            self.ents()[i].1 == self.fields@[i].1@.map_values(|m: String| m@),
            self.ents()[i].1.len() == self.fields@[i].1@.len(),
    {
    }

    /// Compares the field name of entry `i` with `f`.
    fn key_compare(&self, i: usize, f: &[char]) -> (r: i8)
        requires
            i < self.fields@.len(),
        ensures
            r == 0 <==> self.fields@[i as int].0@ == f@,
            r < 0 <==> lex_lt(self.fields@[i as int].0@, f@),
            r > 0 <==> lex_lt(f@, self.fields@[i as int].0@),
    {
        let key = chars_of(self.fields[i].0.as_str());
        lex_compare(key.as_slice(), f)
    }

    /// Fields sorted and unique, and no field without a message.
    pub open spec fn wf(self) -> bool {
        &&& ent_sorted(self.ents())
        &&& forall|i: int| 0 <= i < self.fields@.len() ==> (#[trigger] self.fields@[i]).1@.len() > 0
    }

    pub fn new() -> (r: Self)
        ensures
            r.wf(),
            r@ == Map::<Seq<char>, Seq<Seq<char>>>::empty(),
    {
        let r = ValidationErrors { fields: Vec::new() };
        assert(r@ =~= Map::<Seq<char>, Seq<Seq<char>>>::empty());
        r
    }

    /// Records one more message for `field`.
    pub fn add(&mut self, field: &str, message: &str)
        requires
            old(self).wf(),
        ensures
            final(self).wf(),
            final(self)@ == add_msg(old(self)@, field@, message@),
    {
        let ghost s0 = self.ents();
        let f = chars_of(field);
        let n = self.fields.len();
        let mut i: usize = 0;
        while i < n && self.key_compare(i, f.as_slice()) < 0
            invariant
                n == self.fields@.len(),
                s0 == self.ents(),
                i <= n,
                forall|k: int| 0 <= k < i ==> lex_lt(#[trigger] s0[k].0, f@),
            decreases n - i,
        {
            proof {
                self.lemma_ents_index(i as int);
            }
            i = i + 1;
        }
        let c: i8 = if i < n { self.key_compare(i, f.as_slice()) } else { 1 };
        proof {
            if i < n {
                self.lemma_ents_index(i as int);
            }
        }
        proof {
            lemma_wf_keys(s0, f@, i as int, c);
        }
        if i < n && c == 0 {
            let mut entry = self.fields.remove(i);
            entry.1.push(message.to_owned());
            self.fields.insert(i, entry);
            proof {
                let s1 = self.ents();
                old(self).lemma_ents_index(i as int);
                self.lemma_ents_index(i as int);
                assert(self.fields@[i as int].1@ == old(self).fields@[i as int].1@.push(self.fields@[i as int].1@.last()));
                assert(s1[i as int].1 =~= s0[i as int].1.push(message@));
                assert forall|k: int| 0 <= k < s1.len() && k != i implies s1[k] == s0[k] by {
                    old(self).lemma_ents_index(k);
                    self.lemma_ents_index(k);
                }
                assert(s1 =~= s0.update(i as int, (f@, s0[i as int].1.push(message@))));
                lemma_update_view(s0, i as int, message@);
                assert forall|k: int| 0 <= k < self.fields@.len() implies (#[trigger] self.fields@[k]).1@.len() > 0 by {
                    if k != i {
                        assert(self.fields@[k] == old(self).fields@[k]);
                    }
                }
            }
        } else {
            let mut msgs: Vec<String> = Vec::new();
            msgs.push(message.to_owned());
            self.fields.insert(i, (field.to_owned(), msgs));
            proof {
                let s1 = self.ents();
                let want = s0.insert(i as int, (f@, seq![message@]));
                assert forall|k: int| 0 <= k < s1.len() implies s1[k] == want[k] by {
                    self.lemma_ents_index(k);
                    if k < i {
                        old(self).lemma_ents_index(k);
                    } else if k > i {
                        old(self).lemma_ents_index(k - 1);
                    } else {
                        assert(self.fields@[k].1@.map_values(|m: String| m@) =~= seq![message@]);
                    }
                }
                assert(s1 =~= want);
                lemma_insert_view(s0, i as int, f@, message@);
                assert forall|k: int| 0 <= k < self.fields@.len() implies (#[trigger] self.fields@[k]).1@.len() > 0 by {
                    if k < i {
                        assert(self.fields@[k] == old(self).fields@[k]);
                    } else if k > i {
                        assert(self.fields@[k] == old(self).fields@[k - 1]);
                    }
                }
            }
        }
    }

    /// Adds every message of `other`, field by field, after those already held.
    pub fn extend(&mut self, other: ValidationErrors)
        requires
            old(self).wf(),
            other.wf(),
        ensures
            final(self).wf(),
            final(self)@ == merge_msgs(old(self)@, other@),
    {
        let ghost a = self@;
        let ghost o = other.ents();
        let n = other.fields.len();
        let mut j: usize = 0;
        proof {
            assert(merge_msgs(a, ent_view(o.take(0))) =~= a) by {
                assert(ent_view(o.take(0)) =~= Map::<Seq<char>, Seq<Seq<char>>>::empty());
            }
        }
        while j < n
            invariant
                n == other.fields@.len(),
                o == other.ents(),
                other.wf(),
                j <= n,
                self.wf(),
                self@ == merge_msgs(a, ent_view(o.take(j as int))),
            decreases n - j,
        {
            let ghost m0 = self@;
            proof {
                other.lemma_ents_index(j as int);
            }
            let key = other.fields[j].0.as_str();
            let msgs = &other.fields[j].1;
            let ghost ms = o[j as int].1;
            let mut t: usize = 0;
            while t < msgs.len()
                invariant
                    o == other.ents(),
                    j < n,
                    n == other.fields@.len(),
                    key@ == o[j as int].0,
                    msgs@.map_values(|m: String| m@) == ms,
                    t <= msgs@.len(),
                    self.wf(),
                    t == 0 ==> self@ == m0,
                    t > 0 ==> self@ == m0.insert(key@, msgs_in(m0, key@) + ms.take(t as int)),
                decreases msgs@.len() - t,
            {
                let ghost before = self@;
                self.add(key, msgs[t].as_str());
                proof {
                    assert(ms[t as int] == msgs@[t as int]@);
                    if t > 0 {
                        assert(msgs_in(before, key@) == msgs_in(m0, key@) + ms.take(t as int));
                    } else {
                        assert(Seq::<Seq<char>>::empty() + ms.take(0) =~= Seq::<Seq<char>>::empty());
                    }
                    assert(msgs_in(m0, key@) + ms.take(t + 1) =~= (msgs_in(m0, key@) + ms.take(t as int)).push(ms[t as int]));
                    assert(self@ =~= m0.insert(key@, msgs_in(m0, key@) + ms.take(t + 1)));
                }
                t = t + 1;
            }
            proof {
                assert(ms.take(ms.len() as int) =~= ms);
                lemma_take_push(o, j as int);
                assert(self@ =~= merge_msgs(a, ent_view(o.take(j + 1))));
            }
            j = j + 1;
        }
        proof {
            assert(o.take(n as int) =~= o);
        }
    }

    /// All messages in field order, separated by a full-width semicolon.
    pub fn message(&self) -> (r: String)
        ensures
            r@ == join(all_messages(self.ents()), "；"@),
    {
        let mut r = String::new();
        let mut first = true;
        let ghost o = self.ents();
        let mut j: usize = 0;
        while j < self.fields.len()
            invariant
                o == self.ents(),
                j <= self.fields@.len(),
                r@ == join(all_messages(o.take(j as int)), "；"@),
                first == (all_messages(o.take(j as int)).len() == 0),
            decreases self.fields@.len() - j,
        {
            proof {
                self.lemma_ents_index(j as int);
            }
            let msgs = &self.fields[j].1;
            let ghost ms = o[j as int].1;
            let ghost done = all_messages(o.take(j as int));
            let mut t: usize = 0;
            while t < msgs.len()
                invariant
                    o == self.ents(),
                    j < self.fields@.len(),
                    msgs@.map_values(|m: String| m@) == ms,
                    t <= msgs@.len(),
                    r@ == join(done + ms.take(t as int), "；"@),
                    first == ((done + ms.take(t as int)).len() == 0),
                decreases msgs@.len() - t,
            {
                let ghost prev = done + ms.take(t as int);
                if !first {
                    push_str(&mut r, "；");
                }
                push_str(&mut r, msgs[t].as_str());
                first = false;
                proof {
                    assert(ms[t as int] == msgs@[t as int]@);
                    let next = done + ms.take(t + 1);
                    assert(next =~= prev.push(ms[t as int]));
                    assert(next.drop_last() =~= prev);
                    if prev.len() == 0 {
                        assert(r@ =~= join(next, "；"@));
                    }
                }
                t = t + 1;
            }
            proof {
                assert(ms.take(ms.len() as int) =~= ms);
                assert(o.take(j + 1).drop_last() =~= o.take(j as int));
            }
            j = j + 1;
        }
        proof {
            assert(o.take(o.len() as int) =~= o);
        }
        r
    }

    pub fn is_empty(&self) -> (r: bool)
        ensures
            r == (self@ == Map::<Seq<char>, Seq<Seq<char>>>::empty()),
    {
        proof {
            if self.fields@.len() > 0 {
                assert(ent_has(self.ents(), self.ents()[0].0));
                assert(self@.contains_key(self.ents()[0].0));
            } else {
                assert(self@ =~= Map::<Seq<char>, Seq<Seq<char>>>::empty());
            }
        }
        self.fields.len() == 0
    }

    /// Whether `field` has a message.
    pub fn contains_key(&self, field: &str) -> (r: bool)
        ensures
            r == self@.contains_key(field@),
    {
        let f = chars_of(field);
        let mut i: usize = 0;
        while i < self.fields.len()
            invariant
                f@ == field@,
                i <= self.fields@.len(),
                forall|k: int| 0 <= k < i ==> (#[trigger] self.ents()[k]).0 != f@,
            decreases self.fields@.len() - i,
        {
            let key = chars_of(self.fields[i].0.as_str());
            proof {
                self.lemma_ents_index(i as int);
            }
            if lex_compare(key.as_slice(), f.as_slice()) == 0 {
                assert(ent_has(self.ents(), f@)) by {
                    assert(self.ents()[i as int].0 == f@);
                }
                return true;
            }
            i = i + 1;
        }
        false
    }

    /// The first message recorded for `field`.
    pub fn first(&self, field: &str) -> (r: Option<&str>)
        requires
            self.wf(),
        ensures
            r matches Some(m) ==> self@.contains_key(field@) && m@ == self@[field@][0],
            r is None ==> !self@.contains_key(field@),
    {
        let f = chars_of(field);
        let mut i: usize = 0;
        while i < self.fields.len()
            invariant
                f@ == field@,
                self.wf(),
                i <= self.fields@.len(),
                forall|k: int| 0 <= k < i ==> (#[trigger] self.ents()[k]).0 != f@,
            decreases self.fields@.len() - i,
        {
            let key = chars_of(self.fields[i].0.as_str());
            proof {
                self.lemma_ents_index(i as int);
            }
            if lex_compare(key.as_slice(), f.as_slice()) == 0 {
                proof {
                    lemma_ent_lookup(self.ents(), i as int);
                    assert(self.fields@[i as int].1@.len() > 0);
                }
                return Some(self.fields[i].1[0].as_str());
            }
            i = i + 1;
        }
        None
    }
}

proof fn lemma_take_push(o: Seq<(Seq<char>, Seq<Seq<char>>)>, j: int)
    requires
        ent_sorted(o),
        0 <= j < o.len(),
    ensures
        ent_view(o.take(j + 1)) == ent_view(o.take(j)).insert(o[j].0, o[j].1),
        !ent_view(o.take(j)).contains_key(o[j].0),
{
    let p = o.take(j);
    let q = o.take(j + 1);
    assert(ent_sorted(p));
    assert(ent_sorted(q));
    let want = ent_view(p).insert(o[j].0, o[j].1);
    if ent_has(p, o[j].0) {
        let k = choose|k: int| 0 <= k < p.len() && (#[trigger] p[k]).0 == o[j].0;
        assert(lex_lt(o[k].0, o[j].0));
        lemma_lex_irrefl(o[j].0);
    }
    assert forall|k: Seq<char>| ent_view(q).contains_key(k) <==> want.contains_key(k) by {
        if ent_has(p, k) {
            let i = choose|i: int| 0 <= i < p.len() && (#[trigger] p[i]).0 == k;
            assert(q[i].0 == k);
        }
        if k == o[j].0 {
            assert(q[j].0 == k);
        }
        if ent_has(q, k) {
            let i = choose|i: int| 0 <= i < q.len() && (#[trigger] q[i]).0 == k;
            if i < j {
                assert(p[i].0 == k);
            }
        }
    }
    assert forall|k: Seq<char>| ent_view(q).contains_key(k) implies ent_view(q)[k] == want[k] by {
        let i = choose|i: int| 0 <= i < q.len() && (#[trigger] q[i]).0 == k;
        lemma_ent_lookup(q, i);
        if i < j {
            lemma_ent_lookup(p, i);
        }
    }
    assert(ent_view(q) =~= want);
}

proof fn lemma_wf_keys(s0: Seq<(Seq<char>, Seq<Seq<char>>)>, f: Seq<char>, i: int, c: i8)
    requires
        ent_sorted(s0),
        0 <= i <= s0.len(),
        forall|k: int| 0 <= k < i ==> lex_lt(#[trigger] s0[k].0, f),
        i < s0.len() ==> (c == 0 <==> s0[i].0 == f) && (c > 0 <==> lex_lt(f, s0[i].0)) && c >= 0,
    ensures
        i < s0.len() && c == 0 ==> s0[i].0 == f,
        !(i < s0.len() && c == 0) ==> !ent_has(s0, f),
        !(i < s0.len() && c == 0) ==> forall|k: int| i <= k < s0.len() ==> lex_lt(f, #[trigger] s0[k].0),
{
    if !(i < s0.len() && c == 0) {
        assert forall|k: int| i <= k < s0.len() implies lex_lt(f, #[trigger] s0[k].0) by {
            if k > i {
                lemma_lex_trans(f, s0[i].0, s0[k].0);
            }
        }
        if ent_has(s0, f) {
            let k = choose|k: int| 0 <= k < s0.len() && (#[trigger] s0[k]).0 == f;
            lemma_lex_irrefl(f);
        }
    }
}

proof fn lemma_update_view(s0: Seq<(Seq<char>, Seq<Seq<char>>)>, i: int, m: Seq<char>)
    requires
        ent_sorted(s0),
        0 <= i < s0.len(),
    ensures
        ent_sorted(s0.update(i, (s0[i].0, s0[i].1.push(m)))),
        ent_view(s0.update(i, (s0[i].0, s0[i].1.push(m)))) == add_msg(ent_view(s0), s0[i].0, m),
{
    let f = s0[i].0;
    let s1 = s0.update(i, (f, s0[i].1.push(m)));
    assert forall|a: int, b: int| 0 <= a < b < s1.len() implies lex_lt(#[trigger] s1[a].0, #[trigger] s1[b].0) by {
        assert(s1[a].0 == s0[a].0 && s1[b].0 == s0[b].0);
    }
    lemma_ent_lookup(s0, i);
    let v0 = ent_view(s0);
    let v1 = ent_view(s1);
    let want = add_msg(v0, f, m);
    assert forall|k: Seq<char>| v1.contains_key(k) <==> want.contains_key(k) by {
        if ent_has(s0, k) {
            let j = choose|j: int| 0 <= j < s0.len() && (#[trigger] s0[j]).0 == k;
            assert(s1[j].0 == k);
        }
        if ent_has(s1, k) {
            let j = choose|j: int| 0 <= j < s1.len() && (#[trigger] s1[j]).0 == k;
            assert(s0[j].0 == k);
        }
    }
    assert(ent_sorted(s1));
    lemma_ent_lookup(s1, i);
    assert forall|k: Seq<char>| v1.contains_key(k) implies v1[k] == want[k] by {
        if k == f {
            assert(v1[k] == s1[i].1);
            assert(v0[f] == s0[i].1);
            assert(msgs_in(v0, f) == s0[i].1);
        } else {
            let j = choose|j: int| 0 <= j < s1.len() && (#[trigger] s1[j]).0 == k;
            lemma_ent_lookup(s1, j);
            lemma_ent_lookup(s0, j);
        }
    }
    assert(v1 =~= want);
}

proof fn lemma_insert_view(s0: Seq<(Seq<char>, Seq<Seq<char>>)>, i: int, f: Seq<char>, m: Seq<char>)
    requires
        ent_sorted(s0),
        0 <= i <= s0.len(),
        forall|k: int| 0 <= k < i ==> lex_lt(#[trigger] s0[k].0, f),
        forall|k: int| i <= k < s0.len() ==> lex_lt(f, #[trigger] s0[k].0),
        !ent_has(s0, f),
    ensures
        ent_sorted(s0.insert(i, (f, seq![m]))),
        ent_view(s0.insert(i, (f, seq![m]))) == add_msg(ent_view(s0), f, m),
{
    let s1 = s0.insert(i, (f, seq![m]));
    assert forall|a: int, b: int| 0 <= a < b < s1.len() implies lex_lt(#[trigger] s1[a].0, #[trigger] s1[b].0) by {
        if a < i && b > i {
            lemma_lex_trans(s0[a].0, f, s0[b - 1].0);
        }
    }
    let v0 = ent_view(s0);
    let v1 = ent_view(s1);
    let want = add_msg(v0, f, m);
    assert(!v0.contains_key(f));
    assert forall|k: Seq<char>| v1.contains_key(k) <==> want.contains_key(k) by {
        if ent_has(s0, k) {
            let j = choose|j: int| 0 <= j < s0.len() && (#[trigger] s0[j]).0 == k;
            if j < i {
                assert(s1[j].0 == k);
            } else {
                assert(s1[j + 1].0 == k);
            }
        }
        if k == f {
            assert(s1[i].0 == f);
        }
        if ent_has(s1, k) {
            let j = choose|j: int| 0 <= j < s1.len() && (#[trigger] s1[j]).0 == k;
            if j < i {
                assert(s0[j].0 == k);
            } else if j > i {
                assert(s0[j - 1].0 == k);
            }
        }
    }
    assert forall|k: Seq<char>| v1.contains_key(k) implies v1[k] == want[k] by {
        let j = choose|j: int| 0 <= j < s1.len() && (#[trigger] s1[j]).0 == k;
        lemma_ent_lookup(s1, j);
        if j < i {
            lemma_ent_lookup(s0, j);
        } else if j > i {
            lemma_ent_lookup(s0, j - 1);
        }
    }
    assert(v1 =~= want);
}

/// Adding a message records it for its field after the earlier ones, so the message a
/// form shows first for a field stays the first one found; other fields are untouched.
pub proof fn law_add_message(m: Map<Seq<char>, Seq<Seq<char>>>, k: Seq<char>, msg: Seq<char>)
    ensures
        add_msg(m, k, msg).contains_key(k),
        add_msg(m, k, msg)[k].last() == msg,
        m.contains_key(k) && m[k].len() > 0 ==> add_msg(m, k, msg)[k][0] == m[k][0],
        forall|j: Seq<char>| j != k ==> (#[trigger] add_msg(m, k, msg).contains_key(j)) == m.contains_key(j),
        forall|j: Seq<char>| j != k && m.contains_key(j) ==> #[trigger] add_msg(m, k, msg)[j] == m[j],
{
}

/// Merging keeps every message of both maps, those of the first map first.
pub proof fn law_merge_messages(a: Map<Seq<char>, Seq<Seq<char>>>, b: Map<Seq<char>, Seq<Seq<char>>>, k: Seq<char>)
    ensures
        merge_msgs(a, b).contains_key(k) == (a.contains_key(k) || b.contains_key(k)),
        msgs_in(merge_msgs(a, b), k) == msgs_in(a, k) + msgs_in(b, k),
{
}

} // verus!
