use vstd::prelude::*;

use crate::address::Address;

verus! {

/// Records of one kind, each stored at its own account address.
pub struct Registry<V> {
    pub entries: Vec<(Address, V)>,
}

impl<V: Copy> Registry<V> {
    /// No two records share an address.
    pub open spec fn wf(&self) -> bool {
        forall|i: int, j: int|
            0 <= i < self.entries@.len() && 0 <= j < self.entries@.len() && i != j
                ==> #[trigger] self.entries@[i].0@ != #[trigger] self.entries@[j].0@
    }

    pub open spec fn contains(&self, k: Seq<u8>) -> bool {
        exists|i: int| 0 <= i < self.entries@.len() && #[trigger] self.entries@[i].0@ == k
    }

    pub open spec fn index_of(&self, k: Seq<u8>) -> int {
        choose|i: int| 0 <= i < self.entries@.len() && #[trigger] self.entries@[i].0@ == k
    }

    /// The records by address.
    pub open spec fn view(&self) -> Map<Seq<u8>, V> {
        Map::new(|k: Seq<u8>| self.contains(k), |k: Seq<u8>| self.entries@[self.index_of(k)].1)
    }

    pub proof fn lemma_entry(&self, i: int)
        requires
            self.wf(),
            0 <= i < self.entries@.len(),
        ensures
            self@.contains_key(self.entries@[i].0@),
            self@[self.entries@[i].0@] == self.entries@[i].1,
            self.index_of(self.entries@[i].0@) == i,
    {
        let k = self.entries@[i].0@;
        assert(self.contains(k));
        let j = self.index_of(k);
        assert(self.entries@[j].0@ == k);
    }

    pub fn new() -> (r: Self)
        ensures
            r.wf(),
            r@ == Map::<Seq<u8>, V>::empty(),
            r.entries@.len() == 0,
    {
        let r = Registry { entries: Vec::new() };
        assert(r@ =~= Map::<Seq<u8>, V>::empty());
        r
    }

    /// Position of the record at `k`, if there is one.
    pub fn find(&self, k: &Address) -> (r: Option<usize>)
        requires
            self.wf(),
        ensures
            match r {
                Some(i) => i < self.entries@.len() && self.entries@[i as int].0@ == k@
                    && self@.contains_key(k@) && self@[k@] == self.entries@[i as int].1
                    && self.index_of(k@) == i,
                None => !self@.contains_key(k@),
            },
    {
        let mut i: usize = 0;
        while i < self.entries.len()
            invariant
                0 <= i <= self.entries@.len(),
                self.wf(),
                forall|j: int| 0 <= j < i ==> self.entries@[j].0@ != k@,
            decreases self.entries@.len() - i,
        {
            if self.entries[i].0.same(k) {
                proof {
                    self.lemma_entry(i as int);
                }
                return Some(i);
            }
            i += 1;
        }
        None
    }

    /// The record at `k`, if there is one.
    pub fn get(&self, k: &Address) -> (r: Option<V>)
        requires
            self.wf(),
        ensures
            r == if self@.contains_key(k@) {
                Some(self@[k@])
            } else {
                None::<V>
            },
    {
        match self.find(k) {
            Some(i) => Some(self.entries[i].1),
            None => None,
        }
    }

    /// Adds a record at a fresh address.
    pub fn insert(&mut self, k: Address, v: V)
        requires
            old(self).wf(),
            !old(self)@.contains_key(k@),
        ensures
            final(self).wf(),
            final(self)@ == old(self)@.insert(k@, v),
            final(self).entries@ == old(self).entries@.push((k, v)),
    {
        let ghost pre = *self;
        self.entries.push((k, v));
        assert(forall|j: int| 0 <= j < pre.entries@.len() ==> pre.entries@[j].0@ != k@);
        assert(self.wf());
        assert forall|key: Seq<u8>| #![auto] self@.contains_key(key) == pre@.insert(k@, v).contains_key(key) by {
            if pre.contains(key) {
                let j = pre.index_of(key);
                assert(self.entries@[j].0@ == key);
            }
            assert(self.entries@[pre.entries@.len() as int].0@ == k@);
            if self.contains(key) {
                let j = self.index_of(key);
                if j < pre.entries@.len() {
                    assert(pre.entries@[j].0@ == key);
                }
            }
        }
        assert forall|key: Seq<u8>| #![auto] self@.contains_key(key) ==> self@[key] == pre@.insert(k@, v)[key] by {
            if self@.contains_key(key) {
                let j = self.index_of(key);
                self.lemma_entry(j);
                if key != k@ {
                    pre.lemma_entry(j);
                } else {
                    self.lemma_entry(pre.entries@.len() as int);
                }
            }
        }
        assert(self@ =~= pre@.insert(k@, v));
    }

    /// Replaces the record at position `i`, keeping its address.
    pub fn set(&mut self, i: usize, v: V)
        requires
            old(self).wf(),
            i < old(self).entries@.len(),
        ensures
            final(self).wf(),
            final(self)@ == old(self)@.insert(old(self).entries@[i as int].0@, v),
            final(self).entries@ == old(self).entries@.update(i as int, (old(self).entries@[i as int].0, v)),
    {
        let ghost pre = *self;
        let k = self.entries[i].0;
        self.entries.set(i, (k, v));
        assert(self.entries@ =~= pre.entries@.update(i as int, (k, v)));
        assert(self.wf());
        assert forall|key: Seq<u8>| #![auto] self@.contains_key(key) == pre@.insert(k@, v).contains_key(key) by {
            if pre.contains(key) {
                let j = pre.index_of(key);
                assert(self.entries@[j].0@ == key);
            }
            if self.contains(key) {
                let j = self.index_of(key);
                assert(pre.entries@[j].0@ == key);
            }
        }
        assert forall|key: Seq<u8>| #![auto] self@.contains_key(key) ==> self@[key] == pre@.insert(k@, v)[key] by {
            if self@.contains_key(key) {
                let j = self.index_of(key);
                self.lemma_entry(j);
                if j != i {
                    pre.lemma_entry(j);
                }
            }
        }
        assert(self@ =~= pre@.insert(k@, v));
    }

    /// Deletes the record at position `i`.
    pub fn remove(&mut self, i: usize) -> (r: (Address, V))
        requires
            old(self).wf(),
            i < old(self).entries@.len(),
        ensures
            final(self).wf(),
            r == old(self).entries@[i as int],
            final(self)@ == old(self)@.remove(r.0@),
            final(self).entries@ == old(self).entries@.remove(i as int),
    {
        let ghost pre = *self;
        let r = self.entries.remove(i);
        let ghost k = r.0@;
        assert(self.wf()) by {
            assert forall|a: int, b: int|
                0 <= a < self.entries@.len() && 0 <= b < self.entries@.len() && a != b
                    implies #[trigger] self.entries@[a].0@ != #[trigger] self.entries@[b].0@ by {
                let pa = if a < i { a } else { a + 1 };
                let pb = if b < i { b } else { b + 1 };
                assert(self.entries@[a] == pre.entries@[pa]);
                assert(self.entries@[b] == pre.entries@[pb]);
            }
        }
        assert forall|key: Seq<u8>| #![auto] self@.contains_key(key) == pre@.remove(k).contains_key(key) by {
            if pre.contains(key) && key != k {
                let j = pre.index_of(key);
                let nj = if j < i { j } else { j - 1 };
                assert(j != i);
                assert(self.entries@[nj].0@ == key);
            }
            if self.contains(key) {
                let j = self.index_of(key);
                let pj = if j < i { j } else { j + 1 };
                assert(pre.entries@[pj].0@ == key);
                assert(pj != i);
            }
        }
        assert forall|key: Seq<u8>| #![auto] self@.contains_key(key) ==> self@[key] == pre@.remove(k)[key] by {
            if self@.contains_key(key) {
                let j = self.index_of(key);
                self.lemma_entry(j);
                let pj = if j < i { j } else { j + 1 };
                assert(pre.entries@[pj] == self.entries@[j]);
                pre.lemma_entry(pj);
            }
        }
        assert(self@ =~= pre@.remove(k));
        r
    }
}

} // verus!
