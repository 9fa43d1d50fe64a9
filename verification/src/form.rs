//! Submitted form fields as (name, value) pairs.
use vstd::prelude::*;

use crate::text::str_eq;

verus! {

/// The fields of a submitted form, each name once, as the application decoded them.
#[derive(Debug, Clone)]
pub struct FormValues {
    pub entries: Vec<(String, String)>,
}

/// The value of the first field named `k`.
pub open spec fn form_lookup(s: Seq<(String, String)>, k: Seq<char>) -> Option<Seq<char>>
    decreases s.len(),
{
    if s.len() == 0 {
        None
    } else if s[0].0@ == k {
        Some(s[0].1@)
    } else {
        form_lookup(s.drop_first(), k)
    }
}

proof fn lemma_lookup_absent(s: Seq<(String, String)>, k: Seq<char>)
    requires
        forall|j: int| 0 <= j < s.len() ==> (#[trigger] s[j]).0@ != k,
    ensures
        form_lookup(s, k) is None,
    decreases s.len(),
{
    if s.len() > 0 {
        assert forall|j: int| 0 <= j < s.len() - 1 implies (#[trigger] s.drop_first()[j]).0@ != k by {
            assert(s.drop_first()[j] == s[j + 1]);
        }
        lemma_lookup_absent(s.drop_first(), k);
    }
}

proof fn lemma_lookup_push(s: Seq<(String, String)>, e: (String, String), k: Seq<char>)
    ensures
        form_lookup(s.push(e), k) == (if form_lookup(s, k) is Some {
            form_lookup(s, k)
        } else if e.0@ == k {
            Some(e.1@)
        } else {
            None
        }),
    decreases s.len(),
{
    if s.len() > 0 {
        assert(s.push(e).drop_first() =~= s.drop_first().push(e));
        lemma_lookup_push(s.drop_first(), e, k);
    } else {
        assert(s.push(e).drop_first() =~= s);
    }
}

proof fn lemma_lookup_update(s: Seq<(String, String)>, i: int, e: (String, String), k: Seq<char>)
    requires
        0 <= i < s.len(),
        s[i].0@ == e.0@,
        forall|j: int| 0 <= j < i ==> (#[trigger] s[j]).0@ != e.0@,
    ensures
        form_lookup(s.update(i, e), k) == (if k == e.0@ {
            Some(e.1@)
        } else {
            form_lookup(s, k)
        }),
    decreases s.len(),
{
    if i == 0 {
        assert(s.update(i, e).drop_first() =~= s.drop_first());
    } else {
        assert(s.update(i, e).drop_first() =~= s.drop_first().update(i - 1, e));
        assert forall|j: int| 0 <= j < i - 1 implies (#[trigger] s.drop_first()[j]).0@ != e.0@ by {
            assert(s.drop_first()[j] == s[j + 1]);
        }
        lemma_lookup_update(s.drop_first(), i - 1, e, k);
    }
}

impl FormValues {
    pub fn new() -> (r: Self)
        ensures
            r.entries@.len() == 0,
    {
        FormValues { entries: Vec::new() }
    }

    pub open spec fn lookup(&self, k: Seq<char>) -> Option<Seq<char>> {
        form_lookup(self.entries@, k)
    }

    /// Sets the field `key` to `value`, in place of a value it had.
    pub fn set(&mut self, key: String, value: String)
        ensures
            final(self).lookup(key@) == Some(value@),
            forall|k: Seq<char>| k != key@ ==> final(self).lookup(k) == old(self).lookup(k),
    {
        let mut i: usize = 0;
        while i < self.entries.len()
            invariant
                i <= self.entries@.len(),
                self.entries@ == old(self).entries@,
                forall|j: int| 0 <= j < i ==> (#[trigger] self.entries@[j]).0@ != key@,
            decreases self.entries@.len() - i,
        {
            if str_eq(self.entries[i].0.as_str(), key.as_str()) {
                let ghost before = self.entries@;
                let ghost e = (key, value);
                proof {
                    assert forall|k: Seq<char>| true implies #[trigger] form_lookup(before.update(i as int, e), k) == (if k == e.0@ {
                        Some(e.1@)
                    } else {
                        form_lookup(before, k)
                    }) by {
                        lemma_lookup_update(before, i as int, e, k);
                    }
                }
                self.entries.set(i, (key, value));
                assert(self.entries@ == before.update(i as int, e));
                return;
            }
            i = i + 1;
        }
        let ghost before = self.entries@;
        let ghost e = (key, value);
        proof {
            assert(form_lookup(before, key@) is None) by {
                lemma_lookup_absent(before, key@);
            }
            assert forall|k: Seq<char>| true implies #[trigger] form_lookup(before.push(e), k) == (if form_lookup(before, k) is Some {
                form_lookup(before, k)
            } else if e.0@ == k {
                Some(e.1@)
            } else {
                None
            }) by {
                lemma_lookup_push(before, e, k);
            }
        }
        self.entries.push((key, value));
    }

    /// The value of the field named `key`.
    pub fn get(&self, key: &str) -> (r: Option<&str>)
        ensures
            r matches Some(v) ==> self.lookup(key@) == Some(v@),
            r is None ==> self.lookup(key@) is None,
    {
        let mut i: usize = 0;
        assert(self.entries@.skip(0) =~= self.entries@);
        while i < self.entries.len()
            invariant
                i <= self.entries@.len(),
                form_lookup(self.entries@, key@) == form_lookup(self.entries@.skip(i as int), key@),
            decreases self.entries@.len() - i,
        {
            assert(self.entries@.skip(i as int).drop_first() =~= self.entries@.skip(i + 1));
            if str_eq(self.entries[i].0.as_str(), key) {
                return Some(self.entries[i].1.as_str());
            }
            i = i + 1;
        }
        None
    }
}

} // verus!
