//! Effect sets: one transform per key, composed as operations accumulate.

use crate::entries::{find_key, has_key, keys_unique, lemma_entry_in_map, lemma_push_entry, lemma_update_entry, to_map};
use crate::key::Key;
use crate::value::{compose, compose_spec, Transform};
use vstd::prelude::*;

verus! {

/// What `m` holds at `k`, as an option.
pub open spec fn lookup<V>(m: Map<Key, V>, k: Key) -> Option<V> {
    if m.contains_key(k) {
        Some(m[k])
    } else {
        None
    }
}

/// A set of per-key operations, applied together. Keys are kept in the order
/// in which they were first touched.
#[derive(Debug)]
pub struct Effects {
    /// The transforms, at most one per key.
    pub entries: Vec<(Key, Transform)>,
}

impl View for Effects {
    type V = Map<Key, Transform>;

    open spec fn view(&self) -> Map<Key, Transform> {
        to_map(self.entries@)
    }
}

impl Effects {
    /// Each key has at most one transform.
    pub open spec fn wf(&self) -> bool {
        keys_unique(self.entries@)
    }

    /// An empty effect set.
    pub fn new() -> (r: Effects)
        ensures
            r.wf(),
            r@ == Map::<Key, Transform>::empty(),
    {
        let r = Effects { entries: Vec::new() };
        assert(r@ =~= Map::<Key, Transform>::empty());
        r
    }

    /// Whether each key has at most one transform.
    pub fn has_unique_keys(&self) -> (r: bool)
        ensures
            r == self.wf(),
    {
        let n = self.entries.len();
        let mut i: usize = 0;
        while i < n
            invariant
                n == self.entries@.len(),
                i <= n,
                forall|a: int, b: int| 0 <= a < b < n && a < i ==> self.entries@[a].0 != self.entries@[b].0,
            decreases n - i,
        {
            let mut j: usize = i + 1;
            while j < n
                invariant
                    n == self.entries@.len(),
                    i < n,
                    i + 1 <= j <= n,
                    forall|a: int, b: int| 0 <= a < b < n && a < i ==> self.entries@[a].0 != self.entries@[b].0,
                    forall|b: int| i < b < j ==> self.entries@[i as int].0 != self.entries@[b].0,
                decreases n - j,
            {
                if self.entries[i].0 == self.entries[j].0 {
                    return false;
                }
                j = j + 1;
            }
            i = i + 1;
        }
        true
    }

    /// The number of keys touched.
    pub fn len(&self) -> (r: usize)
        requires
            self.wf(),
        ensures
            r == self.entries@.len(),
    {
        self.entries.len()
    }

    /// Whether no key is touched.
    pub fn is_empty(&self) -> (r: bool)
        requires
            self.wf(),
        ensures
            r == (self@ == Map::<Key, Transform>::empty()),
    {
        if self.entries.len() == 0 {
            assert(self@ =~= Map::<Key, Transform>::empty());
            true
        } else {
            proof {
                lemma_entry_in_map(self.entries@, 0);
            }
            assert(self@.contains_key(self.entries@[0].0));
            false
        }
    }

    /// The transform on `k`, if any.
    pub fn get(&self, k: &Key) -> (r: Option<Transform>)
        requires
            self.wf(),
        ensures
            r == lookup(self@, *k),
    {
        match find_key(&self.entries, k) {
            Some(i) => {
                proof {
                    lemma_entry_in_map(self.entries@, i as int);
                }
                Some(self.entries[i].1)
            },
            None => None,
        }
    }

    /// Sets the transform on `k`, replacing any earlier one.
    pub fn insert(&mut self, k: Key, t: Transform)
        requires
            old(self).wf(),
        ensures
            final(self).wf(),
            final(self)@ == old(self)@.insert(k, t),
    {
        match find_key(&self.entries, &k) {
            Some(i) => {
                proof {
                    lemma_update_entry(self.entries@, i as int, t);
                }
                self.entries.set(i, (k, t));
            },
            None => {
                proof {
                    lemma_push_entry(self.entries@, k, t);
                }
                self.entries.push((k, t));
            },
        }
    }

    /// Records `t` on `k` after whatever is there: composed with an earlier
    /// transform on `k`, else as it is. Returns false, and changes nothing,
    /// where the two do not compose.
    pub fn add_transform(&mut self, k: Key, t: Transform) -> (r: bool)
        requires
            old(self).wf(),
        ensures
            final(self).wf(),
            r == (!old(self)@.contains_key(k) || compose_spec(old(self)@[k], t) is Some),
            r && !old(self)@.contains_key(k) ==> final(self)@ == old(self)@.insert(k, t),
            r && old(self)@.contains_key(k) ==> final(self)@ == old(self)@.insert(
                k,
                compose_spec(old(self)@[k], t)->0,
            ),
            !r ==> final(self)@ == old(self)@,
    {
        match self.get(&k) {
            Some(earlier) => match compose(earlier, t) {
                Some(composed) => {
                    self.insert(k, composed);
                    true
                },
                None => false,
            },
            None => {
                self.insert(k, t);
                true
            },
        }
    }
}

} // verus!
