//! An address-keyed record store.
//!
//! The ledger resolves a 32-byte address to at most one live record; a record
//! is "open" exactly while its address still resolves.  The store models that
//! discipline: an association list with unique keys, looked up by first match.

use crate::addr_eq;
use vstd::prelude::*;

verus! {

/// First-match lookup over an association sequence.
pub open spec fn lookup<V>(s: Seq<([u8; 32], V)>, k: Seq<u8>) -> Option<V>
    decreases s.len(),
{
    if s.len() == 0 {
        None
    } else if s[0].0@ == k {
        Some(s[0].1)
    } else {
        lookup(s.drop_first(), k)
    }
}

/// No two entries share a key.
pub open spec fn unique_keys<V>(s: Seq<([u8; 32], V)>) -> bool {
    forall|i: int, j: int| 0 <= i < j < s.len() ==> s[i].0@ != s[j].0@
}

/// The entry at `i` is the first whose key is `k`.
pub open spec fn first_match<V>(s: Seq<([u8; 32], V)>, k: Seq<u8>, i: int) -> bool {
    &&& 0 <= i < s.len()
    &&& s[i].0@ == k
    &&& forall|j: int| 0 <= j < i ==> s[j].0@ != k
}

pub proof fn lemma_lookup_at_first_match<V>(s: Seq<([u8; 32], V)>, k: Seq<u8>, i: int)
    requires
        first_match(s, k, i),
    ensures
        lookup(s, k) == Some(s[i].1),
    decreases i,
{
    if i == 0 {
    } else {
        assert(s[0].0@ != k);
        assert(first_match(s.drop_first(), k, i - 1)) by {
            assert forall|j: int| 0 <= j < i - 1 implies s.drop_first()[j].0@ != k by {
                assert(s.drop_first()[j] == s[j + 1]);
            }
        }
        lemma_lookup_at_first_match(s.drop_first(), k, i - 1);
    }
}

pub proof fn lemma_lookup_absent<V>(s: Seq<([u8; 32], V)>, k: Seq<u8>)
    requires
        forall|j: int| 0 <= j < s.len() ==> s[j].0@ != k,
    ensures
        lookup(s, k) is None,
    decreases s.len(),
{
    if s.len() > 0 {
        assert forall|j: int| 0 <= j < s.drop_first().len() implies s.drop_first()[j].0@ != k by {
            assert(s.drop_first()[j] == s[j + 1]);
        }
        lemma_lookup_absent(s.drop_first(), k);
    }
}

/// A ledger-style store: each 32-byte address resolves to at most one record.
pub struct Store<V> {
    pub entries: Vec<([u8; 32], V)>,
}

impl<V: Copy> Store<V> {
    /// Every address is bound at most once.
    pub open spec fn wf(&self) -> bool {
        unique_keys(self.entries@)
    }

    pub fn new() -> (r: Store<V>)
        ensures
            r.entries@ =~= Seq::<([u8; 32], V)>::empty(),
            r.wf(),
    {
        Store { entries: Vec::new() }
    }

    /// Index of the entry holding `k`, if any.
    fn index_of(&self, k: &[u8; 32]) -> (r: Option<usize>)
        ensures
            match r {
                Some(i) => first_match(self.entries@, k@, i as int),
                None => lookup(self.entries@, k@) is None,
            },
    {
        let n = self.entries.len();
        let mut i: usize = 0;
        while i < n
            invariant
                i <= n,
                n == self.entries@.len(),
                forall|j: int| 0 <= j < i ==> self.entries@[j].0@ != k@,
            decreases n - i,
        {
            if addr_eq(&self.entries[i].0, k) {
                return Some(i);
            }
            i += 1;
        }
        proof {
            lemma_lookup_absent(self.entries@, k@);
        }
        None
    }

    pub fn get(&self, k: &[u8; 32]) -> (r: Option<V>)
        ensures
            r == lookup(self.entries@, k@),
    {
        match self.index_of(k) {
            Some(i) => {
                proof {
                    lemma_lookup_at_first_match(self.entries@, k@, i as int);
                }
                Some(self.entries[i].1)
            },
            None => None,
        }
    }

    pub fn contains(&self, k: &[u8; 32]) -> (r: bool)
        ensures
            r <==> lookup(self.entries@, k@) is Some,
    {
        self.get(k).is_some()
    }

    /// Binds `k` to `v`, whether or not `k` was bound before.
    pub fn put(&mut self, k: [u8; 32], v: V)
        requires
            old(self).wf(),
        ensures
            final(self).wf(),
            lookup(final(self).entries@, k@) == Some(v),
            forall|k2: Seq<u8>| k2 != k@ ==> lookup(final(self).entries@, k2) == lookup(
                old(self).entries@,
                k2,
            ),
            final(self).entries@.len() == old(self).entries@.len() + (
            if lookup(old(self).entries@, k@) is Some {
                0int
            } else {
                1int
            }),
    {
        match self.index_of(&k) {
            Some(i) => {
                let ghost s0 = self.entries@;
                self.entries[i] = (k, v);
                proof {
                    let s1 = self.entries@;
                    assert(s1 == s0.update(i as int, (k, v)));
                    assert(s0[i as int].0@ == k@);
                    assert(first_match(s1, k@, i as int)) by {
                        assert forall|j: int| 0 <= j < i implies s1[j].0@ != k@ by {
                            assert(s1[j] == s0[j]);
                        }
                    }
                    lemma_lookup_at_first_match(s1, k@, i as int);
                    assert forall|k2: Seq<u8>| k2 != k@ implies lookup(s1, k2) == lookup(
                        s0,
                        k2,
                    ) by {
                        lemma_lookup_update_same_key(s0, i as int, (k, v), k2);
                    }
                    assert(unique_keys(s1)) by {
                        assert forall|a: int, b: int|
                            0 <= a < b < s1.len() implies s1[a].0@ != s1[b].0@ by {
                            assert(s1[a].0@ == s0[a].0@);
                            assert(s1[b].0@ == s0[b].0@);
                        }
                    }
                    lemma_lookup_at_first_match(s0, k@, i as int);
                }
            },
            None => {
                let ghost s0 = self.entries@;
                self.entries.push((k, v));
                proof {
                    let s1 = self.entries@;
                    assert(first_match(s1, k@, s0.len() as int)) by {
                        lemma_absent_has_no_match(s0, k@);
                        assert forall|j: int| 0 <= j < s0.len() implies s1[j].0@ != k@ by {
                            assert(s1[j] == s0[j]);
                        }
                    }
                    lemma_lookup_at_first_match(s1, k@, s0.len() as int);
                    assert forall|k2: Seq<u8>| k2 != k@ implies lookup(s1, k2) == lookup(
                        s0,
                        k2,
                    ) by {
                        lemma_lookup_push_other(s0, (k, v), k2);
                    }
                    assert(unique_keys(s1)) by {
                        lemma_absent_has_no_match(s0, k@);
                        assert forall|a: int, b: int|
                            0 <= a < b < s1.len() implies s1[a].0@ != s1[b].0@ by {
                            if b < s0.len() {
                                assert(s1[a] == s0[a]);
                                assert(s1[b] == s0[b]);
                            } else {
                                assert(s1[a] == s0[a]);
                                assert(s1[b] == (k, v));
                            }
                        }
                    }
                }
            },
        }
    }

    /// Removes the record bound to `k`.
    pub fn remove(&mut self, k: &[u8; 32])
        requires
            old(self).wf(),
            lookup(old(self).entries@, k@) is Some,
        ensures
            final(self).wf(),
            lookup(final(self).entries@, k@) is None,
            forall|k2: Seq<u8>| k2 != k@ ==> lookup(final(self).entries@, k2) == lookup(
                old(self).entries@,
                k2,
            ),
            final(self).entries@.len() == old(self).entries@.len() - 1,
    {
        let idx = self.index_of(k);
        match idx {
            Some(i) => {
                let ghost s0 = self.entries@;
                self.entries.remove(i);
                proof {
                    let s1 = self.entries@;
                    assert(s1 == s0.remove(i as int));
                    lemma_lookup_remove_entry(s0, i as int, k@);
                    assert forall|k2: Seq<u8>| k2 != k@ implies lookup(s1, k2) == lookup(
                        s0,
                        k2,
                    ) by {
                        lemma_lookup_remove_other(s0, i as int, k2);
                    }
                    assert(unique_keys(s1)) by {
                        assert forall|a: int, b: int|
                            0 <= a < b < s1.len() implies s1[a].0@ != s1[b].0@ by {
                            let a0 = if a < i { a } else { a + 1 };
                            let b0 = if b < i { b } else { b + 1 };
                            assert(s1[a] == s0[a0]);
                            assert(s1[b] == s0[b0]);
                        }
                    }
                }
            },
            None => {
                proof {
                    assert(false);
                }
            },
        }
    }
}

proof fn lemma_absent_has_no_match<V>(s: Seq<([u8; 32], V)>, k: Seq<u8>)
    requires
        lookup(s, k) is None,
    ensures
        forall|j: int| 0 <= j < s.len() ==> s[j].0@ != k,
    decreases s.len(),
{
    if s.len() > 0 {
        lemma_absent_has_no_match(s.drop_first(), k);
        assert forall|j: int| 0 <= j < s.len() implies s[j].0@ != k by {
            if j > 0 {
                assert(s.drop_first()[j - 1] == s[j]);
            }
        }
    }
}

/// Updating an entry in place, key kept, leaves every other key's binding alone.
proof fn lemma_lookup_update_same_key<V>(s: Seq<([u8; 32], V)>, i: int, e: ([u8; 32], V), k2: Seq<u8>)
    requires
        0 <= i < s.len(),
        e.0@ == s[i].0@,
        k2 != e.0@,
    ensures
        lookup(s.update(i, e), k2) == lookup(s, k2),
    decreases i,
{
    let s1 = s.update(i, e);
    if i == 0 {
        assert(s1[0] == e);
        assert(s1.drop_first() =~= s.drop_first());
    } else {
        assert(s1[0] == s[0]);
        if s[0].0@ != k2 {
            assert(s1.drop_first() =~= s.drop_first().update(i - 1, e));
            assert(s.drop_first()[i - 1] == s[i]);
            lemma_lookup_update_same_key(s.drop_first(), i - 1, e, k2);
        }
    }
}

/// Appending an entry leaves every other key's binding alone.
proof fn lemma_lookup_push_other<V>(s: Seq<([u8; 32], V)>, e: ([u8; 32], V), k2: Seq<u8>)
    requires
        k2 != e.0@,
    ensures
        lookup(s.push(e), k2) == lookup(s, k2),
    decreases s.len(),
{
    let s1 = s.push(e);
    if s.len() == 0 {
        assert(s1[0] == e);
        assert(s1.drop_first() =~= Seq::<([u8; 32], V)>::empty());
    } else {
        assert(s1[0] == s[0]);
        if s[0].0@ != k2 {
            assert(s1.drop_first() =~= s.drop_first().push(e));
            lemma_lookup_push_other(s.drop_first(), e, k2);
        }
    }
}

/// Removing the sole entry holding `k` makes `k` unresolvable.
proof fn lemma_lookup_remove_entry<V>(s: Seq<([u8; 32], V)>, i: int, k: Seq<u8>)
    requires
        unique_keys(s),
        first_match(s, k, i),
    ensures
        lookup(s.remove(i), k) is None,
{
    let s1 = s.remove(i);
    assert forall|j: int| 0 <= j < s1.len() implies s1[j].0@ != k by {
        if j < i {
            assert(s1[j] == s[j]);
        } else {
            assert(s1[j] == s[j + 1]);
        }
    }
    lemma_lookup_absent(s1, k);
}

/// Removing one entry leaves every other key's binding alone.
proof fn lemma_lookup_remove_other<V>(s: Seq<([u8; 32], V)>, i: int, k2: Seq<u8>)
    requires
        0 <= i < s.len(),
        s[i].0@ != k2,
    ensures
        lookup(s.remove(i), k2) == lookup(s, k2),
    decreases i,
{
    let s1 = s.remove(i);
    if i == 0 {
        assert(s1 =~= s.drop_first());
    } else {
        assert(s1[0] == s[0]);
        if s[0].0@ != k2 {
            assert(s1.drop_first() =~= s.drop_first().remove(i - 1));
            assert(s.drop_first()[i - 1] == s[i]);
            lemma_lookup_remove_other(s.drop_first(), i - 1, k2);
        }
    }
}

} // verus!
