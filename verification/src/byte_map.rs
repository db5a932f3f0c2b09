//! A map with byte string keys.

use vstd::prelude::*;

use crate::bytes;

verus! {

/// A map from byte strings to values, kept as its entries; no key occurs twice.
pub struct ByteMap<V> {
    entries: Vec<(Vec<u8>, V)>,
}

impl<V> ByteMap<V> {
    /// No key occurs twice.
    #[verifier::type_invariant]
    spec fn wf(self) -> bool {
        forall|i: int, j: int|
            0 <= i < j < self.entries@.len() ==> (#[trigger] self.entries@[i]).0@ != (
            #[trigger] self.entries@[j]).0@
    }

    spec fn at(self, k: Seq<u8>, i: int) -> bool {
        0 <= i < self.entries@.len() && self.entries@[i].0@ == k
    }

    /// An empty map.
    pub fn new() -> (r: Self)
        ensures
            r@ == Map::<Seq<u8>, V>::empty(),
    {
        let r = ByteMap { entries: Vec::new() };
        assert(r@ =~= Map::<Seq<u8>, V>::empty());
        r
    }

    fn position(&self, k: &[u8]) -> (r: Option<usize>)
        ensures
            match r {
                Some(i) => self.at(k@, i as int),
                None => forall|i: int| !self.at(k@, i),
            },
    {
        let mut i: usize = 0;
        while i < self.entries.len()
            invariant
                i <= self.entries@.len(),
                forall|j: int| 0 <= j < i ==> !self.at(k@, j),
            decreases self.entries@.len() - i,
        {
            if bytes::same(self.entries[i].0.as_slice(), k) {
                return Some(i);
            }
            i = i + 1;
        }
        None
    }

    /// The value of a key.
    pub fn get(&self, k: &[u8]) -> (r: Option<&V>)
        ensures
            match r {
                Some(v) => self@.contains_key(k@) && self@[k@] == *v,
                None => !self@.contains_key(k@),
            },
    {
        proof {
            use_type_invariant(self);
        }
        match self.position(k) {
            Some(i) => {
                assert(self.at(k@, i as int));
                Some(&self.entries[i].1)
            },
            None => None,
        }
    }

    /// Whether the key has a value.
    pub fn contains_key(&self, k: &[u8]) -> (r: bool)
        ensures
            r == self@.contains_key(k@),
    {
        self.get(k).is_some()
    }

    /// The number of keys.
    pub fn len(&self) -> (r: usize)
        ensures
            r == self.keys().len(),
    {
        self.entries.len()
    }

    /// The keys in the order in which they are kept.
    pub closed spec fn keys(self) -> Seq<Seq<u8>> {
        Seq::new(self.entries@.len(), |i: int| self.entries@[i].0@)
    }

    /// The key at a position.
    pub fn key_at(&self, i: usize) -> (r: &Vec<u8>)
        requires
            i < self.keys().len(),
        ensures
            r@ == self.keys()[i as int],
            self@.contains_key(r@),
    {
        let r = &self.entries[i].0;
        assert(self.at(r@, i as int));
        r
    }

    /// Takes a key and its value out.
    pub fn remove(&mut self, k: &[u8]) -> (r: Option<V>)
        ensures
            final(self)@ == old(self)@.remove(k@),
            match r {
                Some(v) => old(self)@.contains_key(k@) && old(self)@[k@] == v,
                None => !old(self)@.contains_key(k@),
            },
    {
        proof {
            use_type_invariant(&*self);
        }
        let ghost before = *self;
        let mut entries: Vec<(Vec<u8>, V)> = Vec::new();
        std::mem::swap(&mut entries, &mut self.entries);
        let whole = ByteMap { entries };
        let found = whole.position(k);
        let mut entries = whole.entries;
        match found {
            None => {
                self.entries = entries;
                assert(self@ =~= before@.remove(k@)) by {
                    assert(!before@.contains_key(k@));
                }
                None
            },
            Some(i) => {
                let (_, v) = entries.remove(i);
                proof {
                    assert forall|a: int, b: int| 0 <= a < b < entries@.len() implies (
                    #[trigger] entries@[a]).0@ != (#[trigger] entries@[b]).0@ by {
                        let a0 = if a < i { a } else { a + 1 };
                        let b0 = if b < i { b } else { b + 1 };
                        assert(entries@[a] == before.entries@[a0]);
                        assert(entries@[b] == before.entries@[b0]);
                    }
                }
                self.entries = entries;
                proof {
                    let after = *self;
                    assert(before.at(k@, i as int));
                    assert forall|x: Seq<u8>| #[trigger] after@.contains_key(x) == before@.remove(
                        k@,
                    ).contains_key(x) by {
                        if after@.contains_key(x) {
                            let a = choose|a: int| after.at(x, a);
                            let a0 = if a < i { a } else { a + 1 };
                            assert(before.at(x, a0));
                        }
                        if before@.contains_key(x) && x != k@ {
                            let a = choose|a: int| before.at(x, a);
                            let a1 = if a < i { a } else { a - 1 };
                            assert(after.at(x, a1));
                        }
                    }
                    assert forall|x: Seq<u8>| after@.contains_key(x) implies #[trigger] after@[x]
                        == before@.remove(k@)[x] by {
                        let a = choose|a: int| after.at(x, a);
                        let a0 = if a < i { a } else { a + 1 };
                        assert(before.at(x, a0));
                        let b = choose|b: int| before.at(x, b);
                        assert(a0 == b);
                    }
                    assert(after@ =~= before@.remove(k@));
                }
                Some(v)
            },
        }
    }

    /// Gives a key a value, in place of the one that it had.
    pub fn insert(&mut self, k: Vec<u8>, v: V)
        ensures
            final(self)@ == old(self)@.insert(k@, v),
    {
        proof {
            use_type_invariant(&*self);
        }
        let ghost before = *self;
        let mut entries: Vec<(Vec<u8>, V)> = Vec::new();
        std::mem::swap(&mut entries, &mut self.entries);
        let whole = ByteMap { entries };
        let found = whole.position(k.as_slice());
        let mut entries = whole.entries;
        let ghost key = k@;
        let ghost value = v;
        match found {
            Some(i) => {
                entries.set(i, (k, v));
            },
            None => {
                entries.push((k, v));
            },
        }
        proof {
            assert forall|i: int, j: int| 0 <= i < j < entries@.len() implies (#[trigger] entries@[i]).0@
                != (#[trigger] entries@[j]).0@ by {
                if found is None {
                    assert(!before.at(key, i));
                } else {
                    assert(entries@[i].0@ == before.entries@[i].0@);
                    assert(entries@[j].0@ == before.entries@[j].0@);
                }
            }
        }
        self.entries = entries;
        proof {
            let after = *self;
            let n = before.entries@.len();
            assert forall|x: Seq<u8>| #[trigger] after@.contains_key(x) == before@.insert(
                key,
                value,
            ).contains_key(x) by {
                if before@.contains_key(x) {
                    let i = choose|i: int| before.at(x, i);
                    assert(after.at(x, i));
                }
                if x == key {
                    assert(after.at(x, if found is Some { found->0 as int } else { n as int }));
                }
                if after@.contains_key(x) {
                    let i = choose|i: int| after.at(x, i);
                    if x != key {
                        assert(before.at(x, i));
                    }
                }
            }
            assert forall|x: Seq<u8>| after@.contains_key(x) implies #[trigger] after@[x]
                == before@.insert(key, value)[x] by {
                let i = choose|i: int| after.at(x, i);
                if x == key {
                    let k0 = if found is Some { found->0 as int } else { n as int };
                    assert(after.at(x, k0));
                    assert(i == k0);
                } else {
                    assert(before.at(x, i));
                    let j = choose|j: int| before.at(x, j);
                    assert(i == j);
                }
            }
            assert(after@ =~= before@.insert(key, value));
        }
    }
}

impl<V> View for ByteMap<V> {
    type V = Map<Seq<u8>, V>;

    closed spec fn view(&self) -> Map<Seq<u8>, V> {
        Map::new(
            |k: Seq<u8>| exists|i: int| self.at(k, i),
            |k: Seq<u8>| self.entries@[choose|i: int| self.at(k, i)].1,
        )
    }
}

} // verus!
