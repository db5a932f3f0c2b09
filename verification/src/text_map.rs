//! A map with text keys.

use vstd::prelude::*;

use crate::text;

verus! {

/// A map from text to values, kept as its entries; no key occurs twice.
pub struct TextMap<V> {
    entries: Vec<(String, V)>,
}

impl<V> TextMap<V> {
    /// No key occurs twice.
    #[verifier::type_invariant]
    spec fn wf(self) -> bool {
        forall|i: int, j: int|
            0 <= i < j < self.entries@.len() ==> (#[trigger] self.entries@[i]).0@ != (
            #[trigger] self.entries@[j]).0@
    }

    spec fn at(self, k: Seq<char>, i: int) -> bool {
        0 <= i < self.entries@.len() && self.entries@[i].0@ == k
    }

    /// An empty map.
    pub fn new() -> (r: Self)
        ensures
            r@ == Map::<Seq<char>, V>::empty(),
    {
        let r = TextMap { entries: Vec::new() };
        assert(r@ =~= Map::<Seq<char>, V>::empty());
        r
    }

    fn position(&self, k: &str) -> (r: Option<usize>)
        ensures
            match r {
                Some(i) => self.at(k@, i as int),
                None => forall|i: int| !self.at(k@, i),
            },
    {
        let mut i: usize = 0;
        while i < self.entries.len()
            invariant
                i <= self.entries@.len(),
                forall|j: int| 0 <= j < i ==> !self.at(k@, j),
            decreases self.entries@.len() - i,
        {
            if text::same(self.entries[i].0.as_str(), k) {
                return Some(i);
            }
            i = i + 1;
        }
        None
    }

    /// The value of a key.
    pub fn get(&self, k: &str) -> (r: Option<&V>)
        ensures
            match r {
                Some(v) => self@.contains_key(k@) && self@[k@] == *v,
                None => !self@.contains_key(k@),
            },
    {
        proof {
            use_type_invariant(self);
        }
        match self.position(k) {
            Some(i) => {
                assert(self.at(k@, i as int));
                Some(&self.entries[i].1)
            },
            None => None,
        }
    }

    /// Whether the key has a value.
    pub fn contains_key(&self, k: &str) -> (r: bool)
        ensures
            r == self@.contains_key(k@),
    {
        self.get(k).is_some()
    }

    /// Gives a key a value, in place of the one that it had.
    pub fn insert(&mut self, k: String, v: V)
        ensures
            final(self)@ == old(self)@.insert(k@, v),
    {
        proof {
            use_type_invariant(&*self);
        }
        let ghost before = *self;
        let mut entries: Vec<(String, V)> = Vec::new();
        std::mem::swap(&mut entries, &mut self.entries);
        let whole = TextMap { entries };
        let found = whole.position(k.as_str());
        let mut entries = whole.entries;
        let ghost key = k@;
        let ghost value = v;
        match found {
            Some(i) => {
                entries.set(i, (k, v));
            },
            None => {
                entries.push((k, v));
            },
        }
        proof {
            assert forall|i: int, j: int| 0 <= i < j < entries@.len() implies (#[trigger] entries@[i]).0@
                != (#[trigger] entries@[j]).0@ by {
                if found is None {
                    assert(!before.at(key, i));
                } else {
                    assert(entries@[i].0@ == before.entries@[i].0@);
                    assert(entries@[j].0@ == before.entries@[j].0@);
                }
            }
        }
        self.entries = entries;
        proof {
            let after = *self;
            let n = before.entries@.len();
            assert forall|x: Seq<char>| #[trigger] after@.contains_key(x) == before@.insert(
                key,
                value,
            ).contains_key(x) by {
                if before@.contains_key(x) {
                    let i = choose|i: int| before.at(x, i);
                    assert(after.at(x, i));
                }
                if x == key {
                    assert(after.at(x, if found is Some { found->0 as int } else { n as int }));
                }
                if after@.contains_key(x) {
                    let i = choose|i: int| after.at(x, i);
                    if x != key {
                        assert(before.at(x, i));
                    }
                }
            }
            assert forall|x: Seq<char>| after@.contains_key(x) implies #[trigger] after@[x]
                == before@.insert(key, value)[x] by {
                let i = choose|i: int| after.at(x, i);
                if x == key {
                    let k0 = if found is Some { found->0 as int } else { n as int };
                    assert(after.at(x, k0));
                    assert(i == k0);
                } else {
                    assert(before.at(x, i));
                    let j = choose|j: int| before.at(x, j);
                    assert(i == j);
                }
            }
            assert(after@ =~= before@.insert(key, value));
        }
    }
}

impl<V> View for TextMap<V> {
    type V = Map<Seq<char>, V>;

    closed spec fn view(&self) -> Map<Seq<char>, V> {
        Map::new(
            |k: Seq<char>| exists|i: int| self.at(k, i),
            |k: Seq<char>| self.entries@[choose|i: int| self.at(k, i)].1,
        )
    }
}

} // verus!
