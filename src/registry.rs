use vstd::prelude::*;

use crate::types::Key;

verus! {

/// A map from keys to non-negative counters, where an absent key reads as zero.
pub struct Registry<K> {
    entries: Vec<(K, u64)>,
}

impl<K: Key> Registry<K> {
    /// No key is stored twice.
    pub closed spec fn wf(&self) -> bool {
        forall|i: int, j: int|
            0 <= i < j < self.entries@.len() ==> self.entries@[i].0 != self.entries@[j].0
    }

    pub closed spec fn stored(&self, k: K) -> bool {
        exists|i: int| 0 <= i < self.entries@.len() && self.entries@[i].0 == k
    }

    /// The counter of `k`: its stored value, or zero.
    pub closed spec fn value(&self, k: K) -> nat {
        if self.stored(k) {
            self.entries@[choose|i: int| 0 <= i < self.entries@.len() && self.entries@[i].0 == k].1
                as nat
        } else {
            0
        }
    }

    /// All counters as a total map.
    pub open spec fn view(&self) -> Map<K, nat> {
        Map::new(|k: K| true, |k: K| self.value(k))
    }

    proof fn lemma_value_at(&self, i: int)
        requires
            self.wf(),
            0 <= i < self.entries@.len(),
        ensures
            self.value(self.entries@[i].0) == self.entries@[i].1,
    {
        let k = self.entries@[i].0;
        assert(self.stored(k));
        let c = choose|j: int| 0 <= j < self.entries@.len() && self.entries@[j].0 == k;
        assert(c == i);
    }

    pub fn new() -> (r: Self)
        ensures
            r.wf(),
            forall|k: K| #[trigger] r.view()[k] == 0,
    {
        Registry { entries: Vec::new() }
    }

    fn find(&self, k: &K) -> (r: Option<usize>)
        requires
            self.wf(),
        ensures
            match r {
                Some(i) => i < self.entries@.len() && self.entries@[i as int].0 == *k,
                None => !self.stored(*k),
            },
    {
        let mut i: usize = 0;
        while i < self.entries.len()
            invariant
                i <= self.entries@.len(),
                forall|j: int| 0 <= j < i ==> self.entries@[j].0 != *k,
            decreases self.entries@.len() - i,
        {
            if self.entries[i].0.same(k) {
                return Some(i);
            }
            i = i + 1;
        }
        None
    }

    /// Whether `k` has ever been set.
    pub fn contains(&self, k: &K) -> (r: bool)
        requires
            self.wf(),
        ensures
            r == self.stored(*k),
    {
        self.find(k).is_some()
    }

    /// The counter of `k`.
    pub fn get(&self, k: &K) -> (r: u64)
        requires
            self.wf(),
        ensures
            r == self.view()[*k],
    {
        match self.find(k) {
            Some(i) => {
                proof {
                    self.lemma_value_at(i as int);
                }
                self.entries[i].1
            },
            None => 0,
        }
    }

    /// Sets the counter of `k` to `v`, leaving every other counter as it was.
    pub fn set(&mut self, k: &K, v: u64)
        requires
            old(self).wf(),
        ensures
            final(self).wf(),
            final(self).view() == old(self).view().insert(*k, v as nat),
    {
        let ghost pre = *self;
        match self.find(k) {
            Some(i) => {
                self.entries.set(i, (*k, v));
                proof {
                    assert forall|a: int, b: int|
                        0 <= a < b < self.entries@.len() implies self.entries@[a].0
                        != self.entries@[b].0 by {
                        assert(pre.entries@[a].0 == self.entries@[a].0);
                        assert(pre.entries@[b].0 == self.entries@[b].0);
                    }
                    self.lemma_same_keys(&pre, *k, v, i as int);
                }
            },
            None => {
                self.entries.push((*k, v));
                proof {
                    let n = pre.entries@.len() as int;
                    assert forall|a: int, b: int|
                        0 <= a < b < self.entries@.len() implies self.entries@[a].0
                        != self.entries@[b].0 by {
                        if b == n {
                            assert(pre.entries@[a].0 == self.entries@[a].0);
                            assert(!pre.stored(*k));
                        } else {
                            assert(pre.entries@[a] == self.entries@[a]);
                            assert(pre.entries@[b] == self.entries@[b]);
                        }
                    }
                    self.lemma_same_keys(&pre, *k, v, n);
                }
            },
        }
    }

    /// `self` is `pre` with the entry at `i` now holding `(k, v)`, where `i` is either an
    /// index of `pre` holding `k` or one past its end, `k` being absent from `pre`.
    proof fn lemma_same_keys(&self, pre: &Self, k: K, v: u64, i: int)
        requires
            pre.wf(),
            self.wf(),
            0 <= i < self.entries@.len(),
            self.entries@[i] == (k, v),
            i < pre.entries@.len() ==> pre.entries@[i].0 == k,
            i == pre.entries@.len() ==> !pre.stored(k),
            self.entries@.len() == if i < pre.entries@.len() {
                pre.entries@.len()
            } else {
                pre.entries@.len() + 1
            },
            forall|j: int| 0 <= j < pre.entries@.len() && j != i ==> self.entries@[j] == pre.entries@[j],
        ensures
            self.view() == pre.view().insert(k, v as nat),
    {
        assert forall|x: K| #[trigger] self.value(x) == pre.view().insert(k, v as nat)[x] by {
            if x == k {
                self.lemma_value_at(i);
            } else if pre.stored(x) {
                let j = choose|j: int| 0 <= j < pre.entries@.len() && pre.entries@[j].0 == x;
                pre.lemma_value_at(j);
                assert(j != i);
                self.lemma_value_at(j);
            } else {
                if self.stored(x) {
                    let j = choose|j: int| 0 <= j < self.entries@.len() && self.entries@[j].0 == x;
                    assert(j != i);
                    assert(pre.entries@[j] == self.entries@[j]);
                    assert(pre.stored(x));
                }
            }
        }
        assert(self.view() =~= pre.view().insert(k, v as nat));
    }
}

} // verus!
