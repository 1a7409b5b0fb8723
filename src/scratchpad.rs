//! A small string-keyed store of fixed-point scalars that behaviours keep on
//! an article between ticks. The engine itself never reads it.
use vstd::prelude::*;

verus! {

/// Scale of the scalars kept in a scratchpad: the value `1.0` is stored as
/// `SCALAR_ONE`.
pub const SCALAR_ONE: i64 = 1_000_000;

/// A map from names to scalars, each name present at most once.
#[derive(Debug)]
pub struct Scratchpad {
    entries: Vec<(String, i64)>,
}

impl Scratchpad {
    /// No name is stored twice.
    pub closed spec fn wf(&self) -> bool {
        forall|i: int, j: int|
            0 <= i < j < self.entries@.len() ==> #[trigger] self.entries@[i].0@
                != #[trigger] self.entries@[j].0@
    }

    /// Index of the entry named `k`, if any.
    closed spec fn has_at(self, i: int, k: Seq<char>) -> bool {
        0 <= i < self.entries@.len() && self.entries@[i].0@ == k
    }

    /// The stored scalars by name.
    pub closed spec fn view(&self) -> Map<Seq<char>, i64> {
        Map::new(
            |k: Seq<char>| exists|i: int| self.has_at(i, k),
            |k: Seq<char>| self.entries@[choose|i: int| self.has_at(i, k)].1,
        )
    }

    proof fn lemma_entry(&self, i: int)
        requires
            self.wf(),
            0 <= i < self.entries@.len(),
        ensures
            self@.contains_key(self.entries@[i].0@),
            self@[self.entries@[i].0@] == self.entries@[i].1,
    {
        let k = self.entries@[i].0@;
        assert(self.has_at(i, k));
        let j = choose|j: int| self.has_at(j, k);
        assert(j == i) by {
            if j < i {
                assert(self.entries@[j].0@ != self.entries@[i].0@);
            } else if i < j {
                assert(self.entries@[i].0@ != self.entries@[j].0@);
            }
        }
    }

    /// An empty scratchpad.
    pub fn new() -> (r: Scratchpad)
        ensures
            r.wf(),
            r@ == Map::<Seq<char>, i64>::empty(),
    {
        let r = Scratchpad { entries: Vec::new() };
        assert(r@ =~= Map::<Seq<char>, i64>::empty());
        r
    }

    fn find(&self, key: &String) -> (r: Option<usize>)
        ensures
            match r {
                Some(i) => self.has_at(i as int, key@),
                None => forall|i: int| !self.has_at(i, key@),
            },
    {
        let mut i: usize = 0;
        while i < self.entries.len()
            invariant
                0 <= i <= self.entries@.len(),
                forall|j: int| 0 <= j < i ==> !self.has_at(j, key@),
            decreases self.entries@.len() - i,
        {
            if self.entries[i].0 == *key {
                return Some(i);
            }
            i = i + 1;
        }
        None
    }

    /// The scalar stored under `key`.
    pub fn get(&self, key: &String) -> (r: Option<i64>)
        requires
            self.wf(),
        ensures
            r == (if self@.contains_key(key@) {
                Some(self@[key@])
            } else {
                None
            }),
    {
        match self.find(key) {
            Some(i) => {
                proof {
                    self.lemma_entry(i as int);
                }
                Some(self.entries[i].1)
            },
            None => None,
        }
    }

    /// The scalar stored under `key`, or `default` where none is.
    pub fn get_or(&self, key: &String, default: i64) -> (r: i64)
        requires
            self.wf(),
        ensures
            r == (if self@.contains_key(key@) {
                self@[key@]
            } else {
                default
            }),
    {
        match self.get(key) {
            Some(v) => v,
            None => default,
        }
    }

    /// Stores `value` under `key`, replacing what was there.
    pub fn insert(&mut self, key: String, value: i64)
        requires
            old(self).wf(),
        ensures
            final(self).wf(),
            final(self)@ == old(self)@.insert(key@, value),
    {
        match self.find(&key) {
            Some(i) => {
                let ghost before = self.entries@;
                self.entries.set(i, (key, value));
                assert forall|a: int, b: int|
                    0 <= a < b < self.entries@.len() implies #[trigger] self.entries@[a].0@
                    != #[trigger] self.entries@[b].0@ by {
                    assert(before[a].0@ != before[b].0@);
                }
                proof {
                    let k = key@;
                    assert(self.has_at(i as int, k));
                    self.lemma_entry(i as int);
                    assert forall|k2: Seq<char>| #[trigger] self@.contains_key(k2) == old(self)@.insert(k, value).contains_key(k2) by {
                        if k2 != k {
                            if exists|j: int| old(self).has_at(j, k2) {
                                let j = choose|j: int| old(self).has_at(j, k2);
                                assert(self.has_at(j, k2));
                            }
                            if exists|j: int| self.has_at(j, k2) {
                                let j = choose|j: int| self.has_at(j, k2);
                                assert(old(self).has_at(j, k2));
                            }
                        }
                    }
                    assert forall|k2: Seq<char>| #[trigger] self@.contains_key(k2) && k2 != k implies self@[k2] == old(self)@[k2] by {
                        let j = choose|j: int| self.has_at(j, k2);
                        self.lemma_entry(j);
                        old(self).lemma_entry(j);
                    }
                    assert(self@ =~= old(self)@.insert(k, value));
                }
            },
            None => {
                let ghost k = key@;
                self.entries.push((key, value));
                assert forall|a: int, b: int|
                    0 <= a < b < self.entries@.len() implies #[trigger] self.entries@[a].0@
                    != #[trigger] self.entries@[b].0@ by {
                    if b == self.entries@.len() - 1 {
                        assert(!old(self).has_at(a, k));
                    } else {
                        assert(old(self).entries@[a].0@ != old(self).entries@[b].0@);
                    }
                }
                proof {
                    let n = self.entries@.len() - 1;
                    self.lemma_entry(n);
                    assert forall|k2: Seq<char>| #[trigger] self@.contains_key(k2) == old(self)@.insert(k, value).contains_key(k2) by {
                        if k2 != k {
                            if exists|j: int| old(self).has_at(j, k2) {
                                let j = choose|j: int| old(self).has_at(j, k2);
                                assert(self.has_at(j, k2));
                            }
                            if exists|j: int| self.has_at(j, k2) {
                                let j = choose|j: int| self.has_at(j, k2);
                                assert(old(self).has_at(j, k2));
                            }
                        }
                    }
                    assert forall|k2: Seq<char>| #[trigger] self@.contains_key(k2) && k2 != k implies self@[k2] == old(self)@[k2] by {
                        let j = choose|j: int| self.has_at(j, k2);
                        self.lemma_entry(j);
                        old(self).lemma_entry(j);
                    }
                    assert(self@ =~= old(self)@.insert(k, value));
                }
            },
        }
    }

    /// Removes what is stored under `key` and returns it.
    pub fn remove(&mut self, key: &String) -> (r: Option<i64>)
        requires
            old(self).wf(),
        ensures
            final(self).wf(),
            r == (if old(self)@.contains_key(key@) {
                Some(old(self)@[key@])
            } else {
                None
            }),
            final(self)@ == old(self)@.remove(key@),
    {
        match self.find(key) {
            Some(i) => {
                proof {
                    self.lemma_entry(i as int);
                }
                let ghost before = self.entries@;
                let (_, v) = self.entries.remove(i);
                assert forall|a: int, b: int|
                    0 <= a < b < self.entries@.len() implies #[trigger] self.entries@[a].0@
                    != #[trigger] self.entries@[b].0@ by {
                    let a0 = if a < i { a } else { a + 1 };
                    let b0 = if b < i { b } else { b + 1 };
                    assert(before[a0].0@ != before[b0].0@);
                }
                proof {
                    let k = key@;
                    assert forall|k2: Seq<char>| #[trigger] self@.contains_key(k2) == old(self)@.remove(k).contains_key(k2) by {
                        if exists|j: int| old(self).has_at(j, k2) {
                            let j = choose|j: int| old(self).has_at(j, k2);
                            if k2 != k {
                                assert(j != i);
                                let j1 = if j < i { j } else { j - 1 };
                                assert(self.has_at(j1, k2));
                            }
                        }
                        if exists|j: int| self.has_at(j, k2) {
                            let j = choose|j: int| self.has_at(j, k2);
                            let j0 = if j < i { j } else { j + 1 };
                            assert(old(self).has_at(j0, k2));
                            assert(k2 != k) by {
                                if j0 < i {
                                    assert(before[j0].0@ != before[i as int].0@);
                                } else {
                                    assert(before[i as int].0@ != before[j0].0@);
                                }
                            }
                        }
                    }
                    assert forall|k2: Seq<char>| #[trigger] self@.contains_key(k2) implies self@[k2] == old(self)@[k2] by {
                        let j = choose|j: int| self.has_at(j, k2);
                        let j0 = if j < i { j } else { j + 1 };
                        self.lemma_entry(j);
                        old(self).lemma_entry(j0);
                    }
                    assert(self@ =~= old(self)@.remove(k));
                }
                Some(v)
            },
            None => {
                assert(self@ =~= old(self)@.remove(key@));
                None
            },
        }
    }
}

} // verus!
