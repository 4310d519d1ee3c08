//! A map from strings to values.
use crate::text::same_text;
use vstd::prelude::*;

verus! {

/// A map from strings to values that remembers the order in which its keys came.
pub struct StringMap<V> {
    names: Vec<String>,
    items: Vec<V>,
}

impl<V> StringMap<V> {
    /// The keys, in the order in which they were first inserted.
    pub closed spec fn keys(&self) -> Seq<Seq<char>> {
        self.names@.map_values(|s: String| s@)
    }

    /// The values, in the order of their keys.
    pub closed spec fn values(&self) -> Seq<V> {
        self.items@
    }

    /// No key occurs twice, and each has its value.
    pub open spec fn wf(&self) -> bool {
        &&& self.keys().no_duplicates()
        &&& self.keys().len() == self.values().len()
    }

    /// The map from each key to its value.
    pub open spec fn view(&self) -> Map<Seq<char>, V> {
        Map::new(
            |k: Seq<char>| self.keys().contains(k),
            |k: Seq<char>| self.values()[self.keys().index_of(k)],
        )
    }

    /// A key at a position of the order maps to the value at that position.
    pub proof fn lemma_position(&self, i: int)
        requires
            self.wf(),
            0 <= i < self.keys().len(),
        ensures
            self@.contains_key(self.keys()[i]),
            self@[self.keys()[i]] == self.values()[i],
    {
        let k = self.keys()[i];
        assert(self.keys().contains(k));
        assert(self.keys().index_of(k) == i);
    }

    /// A map without keys.
    pub fn new() -> (r: Self)
        ensures
            r.wf(),
            r.keys() == Seq::<Seq<char>>::empty(),
            r@ == Map::<Seq<char>, V>::empty(),
    {
        let r = StringMap { names: Vec::new(), items: Vec::new() };
        assert(r.keys() =~= Seq::<Seq<char>>::empty());
        assert(r@ =~= Map::<Seq<char>, V>::empty());
        r
    }

    /// The number of keys.
    pub fn len(&self) -> (n: usize)
        requires
            self.wf(),
        ensures
            n == self.keys().len(),
    {
        self.names.len()
    }

    /// The key at a position of the order, and its value.
    pub fn entry(&self, i: usize) -> (r: (&str, &V))
        requires
            self.wf(),
            i < self.keys().len(),
        ensures
            r.0@ == self.keys()[i as int],
            *r.1 == self.values()[i as int],
            self@.contains_key(r.0@),
            self@[r.0@] == *r.1,
    {
        proof {
            self.lemma_position(i as int);
        }
        (self.names[i].as_str(), &self.items[i])
    }

    /// The position of a key.
    fn find(&self, key: &str) -> (r: Option<usize>)
        requires
            self.wf(),
        ensures
            match r {
                Some(i) => {
                    &&& i < self.keys().len()
                    &&& self.keys()[i as int] == key@
                    &&& self@.contains_key(key@)
                    &&& self@[key@] == self.values()[i as int]
                },
                None => !self@.contains_key(key@),
            },
    {
        let mut i: usize = 0;
        while i < self.names.len()
            invariant
                i <= self.names@.len(),
                self.wf(),
                forall|j: int| 0 <= j < i ==> self.keys()[j] != key@,
            decreases self.names@.len() - i,
        {
            assert(self.keys()[i as int] == self.names@[i as int]@);
            if same_text(self.names[i].as_str(), key) {
                proof {
                    self.lemma_position(i as int);
                }
                return Some(i);
            }
            i = i + 1;
        }
        None
    }

    /// Whether the map has a key.
    pub fn contains_key(&self, key: &str) -> (r: bool)
        requires
            self.wf(),
        ensures
            r == self@.contains_key(key@),
    {
        self.find(key).is_some()
    }

    /// The value of a key.
    pub fn get(&self, key: &str) -> (r: Option<&V>)
        requires
            self.wf(),
        ensures
            match r {
                Some(v) => self@.contains_key(key@) && *v == self@[key@],
                None => !self@.contains_key(key@),
            },
    {
        match self.find(key) {
            Some(i) => Some(&self.items[i]),
            None => None,
        }
    }

    /// The value of a key, to change it in place.
    pub fn get_mut(&mut self, key: &str) -> (r: Option<&mut V>)
        requires
            old(self).wf(),
        ensures
            final(self).wf(),
            final(self).keys() == old(self).keys(),
            match r {
                Some(v) => {
                    &&& old(self)@.contains_key(key@)
                    &&& *v == old(self)@[key@]
                    &&& final(self)@ == old(self)@.insert(key@, *final(v))
                },
                None => !old(self)@.contains_key(key@) && final(self)@ == old(self)@,
            },
    {
        match self.find(key) {
            Some(i) => Some(&mut self.items[i]),
            None => None,
        }
    }

    /// Gives a key its value, which replaces the one that it had.
    pub fn insert(&mut self, key: String, value: V)
        requires
            old(self).wf(),
        ensures
            final(self).wf(),
            final(self)@ == old(self)@.insert(key@, value),
            final(self).keys() == (if old(self)@.contains_key(key@) {
                old(self).keys()
            } else {
                old(self).keys().push(key@)
            }),
    {
        match self.find(key.as_str()) {
            Some(i) => {
                self.items[i] = value;
                assert(self@ =~= old(self)@.insert(key@, value));
            },
            None => {
                self.names.push(key);
                self.items.push(value);
                proof {
                    let before = old(self).keys();
                    assert(self.keys() =~= before.push(key@));
                    assert(!before.contains(key@));
                    assert(self.keys()[before.len() as int] == key@);
                    self.lemma_position(before.len() as int);
                    assert forall|k: Seq<char>|
                        self@.contains_key(k) == old(self)@.insert(key@, value).contains_key(
                            k,
                        ) by {
                        if before.contains(k) {
                            assert(self.keys()[before.index_of(k)] == k);
                        }
                    }
                    assert forall|k: Seq<char>| #[trigger]
                        self@.contains_key(k) implies self@[k] == old(self)@.insert(
                        key@,
                        value,
                    )[k] by {
                        if k != key@ {
                            let i = before.index_of(k);
                            assert(before.contains(k));
                            assert(self.keys()[i] == k);
                            self.lemma_position(i);
                        }
                    }
                    assert(self@ =~= old(self)@.insert(key@, value));
                }
            },
        }
    }

    /// Takes a key and its value away; the other keys keep their order.
    pub fn remove(&mut self, key: &str)
        requires
            old(self).wf(),
        ensures
            final(self).wf(),
            final(self)@ == old(self)@.remove(key@),
            final(self).keys() == (if old(self)@.contains_key(key@) {
                old(self).keys().remove(old(self).keys().index_of(key@))
            } else {
                old(self).keys()
            }),
    {
        match self.find(key) {
            Some(i) => {
                let _ = self.names.remove(i);
                let _ = self.items.remove(i);
                proof {
                    let before = old(self).keys();
                    let after = self.keys();
                    assert(after =~= before.remove(i as int));
                    assert(before.index_of(key@) == i);
                    assert forall|k: Seq<char>|
                        after.contains(k) == (before.contains(k) && k != key@) by {
                        if after.contains(k) {
                            let j = after.index_of(k);
                            assert(before[if j < i {
                                j
                            } else {
                                j + 1
                            }] == k);
                        }
                        if before.contains(k) && k != key@ {
                            let j = before.index_of(k);
                            assert(after[if j < i {
                                j
                            } else {
                                j - 1
                            }] == k);
                        }
                    }
                    assert forall|k: Seq<char>| #[trigger] self@.contains_key(k) implies self@[k]
                        == old(self)@.remove(key@)[k] by {
                        let j = before.index_of(k);
                        assert(before.contains(k));
                        let m = if j < i {
                            j
                        } else {
                            j - 1
                        };
                        assert(after[m] == k);
                        self.lemma_position(m);
                    }
                    assert(self@ =~= old(self)@.remove(key@));
                }
            },
            None => {
                assert(self@ =~= old(self)@.remove(key@));
            },
        }
    }
}

impl<V: Clone> StringMap<V> {
    /// A copy: the same keys in the same order, each with a clone of its value.
    pub fn duplicate(&self) -> (r: Self)
        requires
            self.wf(),
        ensures
            r.wf(),
            r.keys() == self.keys(),
            forall|i: int|
                0 <= i < self.values().len() ==> cloned::<V>(
                    #[trigger] self.values()[i],
                    r.values()[i],
                ),
    {
        let r = StringMap { names: self.names.clone(), items: self.items.clone() };
        assert(r.keys() =~= self.keys());
        r
    }
}

} // verus!
