//! A keyed entity store: an ordered map from `u64` identifiers to records,
//! kept as a vector of pairs with strictly increasing keys. Iteration walks
//! the entries in key order; `insert` upserts and hands back any record it
//! overwrote.

use vstd::prelude::*;

verus! {

/// Keys of the pair sequence are strictly increasing.
pub open spec fn sorted_keys<E>(s: Seq<(u64, E)>) -> bool {
    forall|i: int, j: int| 0 <= i < j < s.len() ==> (#[trigger] s[i]).0 < (#[trigger] s[j]).0
}

/// Some entry carries the key.
pub open spec fn has_key<E>(s: Seq<(u64, E)>, k: u64) -> bool {
    exists|i: int| 0 <= i < s.len() && (#[trigger] s[i]).0 == k
}

/// The index of the entry that carries the key (meaningful when `has_key`).
pub open spec fn key_index<E>(s: Seq<(u64, E)>, k: u64) -> int {
    choose|i: int| 0 <= i < s.len() && (#[trigger] s[i]).0 == k
}

/// The record stored under the key (meaningful when `has_key`).
pub open spec fn value_of<E>(s: Seq<(u64, E)>, k: u64) -> E {
    s[key_index(s, k)].1
}

/// Every key of the sequence is at most `bound`.
pub open spec fn keys_at_most<E>(s: Seq<(u64, E)>, bound: u64) -> bool {
    forall|i: int| 0 <= i < s.len() ==> (#[trigger] s[i]).0 <= bound
}

/// Under sorted keys, the entry carrying a key is unique.
pub proof fn lemma_key_index_is<E>(s: Seq<(u64, E)>, k: u64, i: int)
    requires
        sorted_keys(s),
        0 <= i < s.len(),
        s[i].0 == k,
    ensures
        has_key(s, k),
        key_index(s, k) == i,
{
    assert(has_key(s, k));
    let j = key_index(s, k);
    if i < j {
        assert(s[i].0 < s[j].0);
    } else if j < i {
        assert(s[j].0 < s[i].0);
    }
}

/// Appending an entry keeps every present key present.
pub proof fn lemma_keys_preserved_push<E>(s: Seq<(u64, E)>, e: (u64, E))
    ensures
        forall|k: u64| has_key(s, k) ==> #[trigger] has_key(s.push(e), k),
        has_key(s.push(e), e.0),
{
    assert forall|k: u64| has_key(s, k) implies #[trigger] has_key(s.push(e), k) by {
        let i = choose|i: int| 0 <= i < s.len() && (#[trigger] s[i]).0 == k;
        assert(s.push(e)[i].0 == k);
    }
    assert(s.push(e)[s.len() as int].0 == e.0);
}

/// Overwriting an entry in place, key unchanged, keeps every present key
/// present and keeps the keys sorted.
pub proof fn lemma_keys_preserved_update<E>(s: Seq<(u64, E)>, i: int, e: (u64, E))
    requires
        0 <= i < s.len(),
        e.0 == s[i].0,
    ensures
        forall|k: u64| has_key(s, k) ==> #[trigger] has_key(s.update(i, e), k),
        sorted_keys(s) ==> sorted_keys(s.update(i, e)),
{
    assert forall|k: u64| has_key(s, k) implies #[trigger] has_key(s.update(i, e), k) by {
        let j = choose|j: int| 0 <= j < s.len() && (#[trigger] s[j]).0 == k;
        assert(s.update(i, e)[j].0 == k);
    }
    if sorted_keys(s) {
        assert forall|a: int, b: int| 0 <= a < b < s.update(i, e).len() implies (#[trigger] s.update(
            i,
            e,
        )[a]).0 < (#[trigger] s.update(i, e)[b]).0 by {
            assert(s[a].0 < s[b].0);
        }
    }
}

pub struct Store<E> {
    entries: Vec<(u64, E)>,
}

impl<E> View for Store<E> {
    type V = Seq<(u64, E)>;

    closed spec fn view(&self) -> Seq<(u64, E)> {
        self.entries@
    }
}

impl<E> Store<E> {
    pub open spec fn wf(&self) -> bool {
        sorted_keys(self@)
    }

    /// The record under the key, if any.
    pub open spec fn spec_get(&self, k: u64) -> Option<E> {
        if has_key(self@, k) {
            Some(value_of(self@, k))
        } else {
            None
        }
    }

    pub fn new() -> (s: Self)
        ensures
            s@ == Seq::<(u64, E)>::empty(),
            s.wf(),
    {
        Store { entries: Vec::new() }
    }

    pub fn len(&self) -> (n: usize)
        ensures
            n == self@.len(),
    {
        self.entries.len()
    }

    /// The entry at a position of the key-ordered walk.
    pub fn entry_at(&self, i: usize) -> (r: &(u64, E))
        requires
            i < self@.len(),
        ensures
            *r == self@[i as int],
    {
        &self.entries[i]
    }

    /// Point lookup.
    pub fn get(&self, k: u64) -> (r: Option<&E>)
        requires
            self.wf(),
        ensures
            match r {
                Some(e) => has_key(self@, k) && *e == value_of(self@, k),
                None => !has_key(self@, k),
            },
    {
        let n = self.entries.len();
        let mut i: usize = 0;
        while i < n
            invariant
                n == self@.len(),
                i <= n,
                self.wf(),
                forall|j: int| 0 <= j < i ==> (#[trigger] self@[j]).0 != k,
            decreases n - i,
        {
            if self.entries[i].0 == k {
                proof {
                    lemma_key_index_is(self@, k, i as int);
                }
                return Some(&self.entries[i].1);
            }
            i = i + 1;
        }
        None
    }

    /// Upsert: stores the record under the key, keeps the key order, and
    /// returns the record previously stored there, if any.
    pub fn insert(&mut self, k: u64, e: E) -> (prev: Option<E>)
        requires
            old(self).wf(),
        ensures
            final(self).wf(),
            has_key(old(self)@, k) ==> {
                &&& final(self)@ == old(self)@.update(key_index(old(self)@, k), (k, e))
                &&& prev == Some(value_of(old(self)@, k))
            },
            !has_key(old(self)@, k) ==> {
                &&& prev is None
                &&& exists|p: int|
                    #![trigger old(self)@.insert(p, (k, e))]
                    {
                        &&& 0 <= p <= old(self)@.len()
                        &&& (forall|j: int| 0 <= j < p ==> (#[trigger] old(self)@[j]).0 < k)
                        &&& (forall|j: int|
                            p <= j < old(self)@.len() ==> (#[trigger] old(self)@[j]).0 > k)
                        &&& final(self)@ == old(self)@.insert(p, (k, e))
                    }
            },
            keys_at_most(old(self)@, k) && !has_key(old(self)@, k) ==> final(self)@ == old(
                self,
            )@.push((k, e)),
    {
        let ghost s0 = self@;
        let n = self.entries.len();
        let mut pos: usize = 0;
        while pos < n && self.entries[pos].0 < k
            invariant
                n == self@.len(),
                pos <= n,
                self@ == s0,
                sorted_keys(s0),
                forall|j: int| 0 <= j < pos ==> (#[trigger] s0[j]).0 < k,
            decreases n - pos,
        {
            pos = pos + 1;
        }
        proof {
            if pos < s0.len() {
                assert(forall|j: int|
                    pos < j < s0.len() ==> s0[pos as int].0 < (#[trigger] s0[j]).0);
            }
        }
        if pos < n && self.entries[pos].0 == k {
            proof {
                lemma_key_index_is(s0, k, pos as int);
            }
            let old_entry = self.entries.remove(pos);
            self.entries.insert(pos, (k, e));
            proof {
                assert(self@ =~= s0.update(pos as int, (k, e)));
                assert forall|i: int, j: int| 0 <= i < j < self@.len() implies (
                #[trigger] self@[i]).0 < (#[trigger] self@[j]).0 by {
                    assert(s0[i].0 < s0[j].0);
                }
            }
            Some(old_entry.1)
        } else {
            proof {
                assert(forall|j: int| pos <= j < s0.len() ==> (#[trigger] s0[j]).0 > k);
                assert(!has_key(s0, k));
            }
            self.entries.insert(pos, (k, e));
            proof {
                assert(self@ == s0.insert(pos as int, (k, e)));
                assert forall|i: int, j: int| 0 <= i < j < self@.len() implies (
                #[trigger] self@[i]).0 < (#[trigger] self@[j]).0 by {
                    if i < pos && j == pos {
                    } else if i == pos && j > pos {
                        assert(self@[j] == s0[j - 1]);
                    } else if i < pos && j > pos {
                        assert(self@[i] == s0[i] && self@[j] == s0[j - 1]);
                    } else if i > pos && j > pos {
                        assert(self@[i] == s0[i - 1] && self@[j] == s0[j - 1]);
                    }
                }
                if keys_at_most(s0, k) {
                    assert(pos == s0.len());
                    assert(self@ =~= s0.push((k, e)));
                }
            }
            None
        }
    }
}

} // verus!
