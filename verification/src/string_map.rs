//! A small map from strings to values that remembers the order of insertion.

use vstd::prelude::*;

verus! {

/// A map keyed by strings. Each key occurs once; a second insertion under a key
/// replaces the value and keeps the key's place.
#[derive(Debug)]
pub struct StringMap<T> {
    entries: Vec<(String, T)>,
}

impl<T> View for StringMap<T> {
    type V = Map<Seq<char>, T>;

    /// The map from each key to the value stored under it.
    open spec fn view(&self) -> Map<Seq<char>, T> {
        Map::new(
            |k: Seq<char>| self.key_seq().contains(k),
            |k: Seq<char>| self.value_seq()[self.key_seq().index_of(k)],
        )
    }
}

impl<T> StringMap<T> {
    /// The keys, in the order in which they were first inserted.
    pub closed spec fn key_seq(&self) -> Seq<Seq<char>> {
        Seq::new(self.entries@.len(), |i: int| self.entries@[i].0@)
    }

    /// The values, each at the position of its key in [`Self::key_seq`].
    pub closed spec fn value_seq(&self) -> Seq<T> {
        Seq::new(self.entries@.len(), |i: int| self.entries@[i].1)
    }

    #[verifier::type_invariant]
    spec fn distinct_keys(&self) -> bool {
        self.key_seq().no_duplicates()
    }

    /// Keys and values run in parallel.
    pub proof fn lemma_parallel(&self)
        ensures
            self.key_seq().len() == self.value_seq().len(),
    {
    }

    /// The view holds exactly the keys of the key sequence, so it is finite and as
    /// large as that sequence is long, provided no key is listed twice.
    pub proof fn lemma_view_size(&self)
        requires
            self.key_seq().no_duplicates(),
        ensures
            self@.dom() == self.key_seq().to_set(),
            self@.dom().finite(),
            self@.len() == self.key_seq().len(),
    {
        assert(self@.dom() =~= self.key_seq().to_set());
        self.key_seq().unique_seq_to_set();
        vstd::seq_lib::seq_to_set_is_finite(self.key_seq());
    }

    /// An empty map.
    pub fn new() -> (r: Self)
        ensures
            r@ == Map::<Seq<char>, T>::empty(),
            r.key_seq() == Seq::<Seq<char>>::empty(),
            r.value_seq() == Seq::<T>::empty(),
    {
        let r = StringMap { entries: Vec::new() };
        assert(r.key_seq() =~= Seq::<Seq<char>>::empty());
        assert(r.value_seq() =~= Seq::<T>::empty());
        assert(r@ =~= Map::<Seq<char>, T>::empty());
        r
    }

    /// The position of `key` among the keys, if it is one of them.
    fn position(&self, key: &str) -> (r: Option<usize>)
        ensures
            match r {
                Some(i) => i < self.key_seq().len() && self.key_seq()[i as int] == key@,
                None => !self.key_seq().contains(key@),
            },
    {
        let mut i: usize = 0;
        while i < self.entries.len()
            invariant
                i <= self.entries@.len(),
                forall|j: int| 0 <= j < i ==> self.key_seq()[j] != key@,
            decreases self.entries@.len() - i,
        {
            if crate::text::same_text(self.entries[i].0.as_str(), key) {
                return Some(i);
            }
            i = i + 1;
        }
        None
    }

    /// Stores `value` under `key`. A key that is already present keeps its place and
    /// gets the new value; a new key goes to the end.
    pub fn insert(&mut self, key: String, value: T)
        ensures
            final(self)@ == old(self)@.insert(key@, value),
            old(self).key_seq().contains(key@) ==> final(self).key_seq() == old(self).key_seq(),
            !old(self).key_seq().contains(key@) ==> final(self).key_seq() == old(
                self,
            ).key_seq().push(key@),
            old(self).key_seq().contains(key@) ==> final(self).value_seq() == old(
                self,
            ).value_seq().update(old(self).key_seq().index_of(key@), value),
            !old(self).key_seq().contains(key@) ==> final(self).value_seq() == old(
                self,
            ).value_seq().push(value),
            final(self).value_seq().len() == final(self).key_seq().len(),
            final(self).key_seq().no_duplicates(),
            final(self).key_seq().contains(key@),
            final(self).value_seq()[final(self).key_seq().index_of(key@)] == value,
            forall|i: int|
                0 <= i < old(self).key_seq().len() && old(self).key_seq()[i] != key@
                    ==> #[trigger] final(self).value_seq()[i] == old(self).value_seq()[i],
    {
        proof {
            use_type_invariant(&*self);
        }
        let found = self.position(key.as_str());
        let ghost before = *self;
        let mut entries: Vec<(String, T)> = Vec::new();
        std::mem::swap(&mut entries, &mut self.entries);
        match found {
            Some(i) => {
                entries.set(i, (key, value));
            },
            None => {
                entries.push((key, value));
            },
        }
        let ghost keys = Seq::new(entries@.len(), |i: int| entries@[i].0@);
        proof {
            match found {
                Some(i) => {
                    assert(keys =~= before.key_seq());
                },
                None => {
                    assert(keys =~= before.key_seq().push(key@));
                },
            }
            assert(keys.no_duplicates());
        }
        self.entries = entries;
        proof {
            assert(self.key_seq() =~= keys);
            let at = self.key_seq().index_of(key@);
            match found {
                Some(i) => {
                    assert(self.key_seq()[i as int] == key@);
                    assert(at == i);
                },
                None => {
                    assert(self.key_seq()[before.key_seq().len() as int] == key@);
                    assert(at == before.key_seq().len());
                },
            }
            assert forall|k: Seq<char>| #[trigger]
                self@.dom().contains(k) <==> before@.insert(key@, value).dom().contains(k) by {
                if self.key_seq().contains(k) {
                    let j = self.key_seq().index_of(k);
                    if k != key@ {
                        assert(before.key_seq()[j] == k);
                    }
                }
                if before.key_seq().contains(k) {
                    let j = before.key_seq().index_of(k);
                    assert(self.key_seq()[j] == k);
                }
            }
            assert forall|k: Seq<char>| #[trigger]
                self@.dom().contains(k) implies self@[k] == before@.insert(key@, value)[k] by {
                if k != key@ {
                    let j = self.key_seq().index_of(k);
                    assert(before.key_seq()[j] == k);
                    assert(before.key_seq().index_of(k) == j);
                }
            }
            assert(self@ =~= before@.insert(key@, value));
            match found {
                Some(i) => {
                    assert(before.key_seq().index_of(key@) == i);
                    assert(self.value_seq() =~= before.value_seq().update(i as int, value));
                },
                None => {
                    assert(self.value_seq() =~= before.value_seq().push(value));
                },
            }
        }
    }

    /// The value stored under `key`, if there is one.
    pub fn get(&self, key: &str) -> (r: Option<&T>)
        ensures
            match r {
                Some(v) => self@.contains_key(key@) && *v == self@[key@],
                None => !self@.contains_key(key@),
            },
    {
        proof {
            use_type_invariant(self);
        }
        match self.position(key) {
            Some(i) => {
                proof {
                    assert(self.key_seq()[i as int] == key@);
                    assert(self.key_seq().index_of(key@) == i);
                }
                Some(&self.entries[i].1)
            },
            None => None,
        }
    }

    /// Whether a value is stored under `key`.
    pub fn contains_key(&self, key: &str) -> (r: bool)
        ensures
            r == self@.contains_key(key@),
    {
        self.position(key).is_some()
    }

    /// The number of keys.
    pub fn len(&self) -> (r: usize)
        ensures
            r == self.key_seq().len(),
            r == self.value_seq().len(),
            self@.dom().finite(),
            r == self@.len(),
            self.key_seq().no_duplicates(),
    {
        proof {
            use_type_invariant(self);
            self.lemma_view_size();
        }
        self.entries.len()
    }

    /// Whether the map holds no key.
    pub fn is_empty(&self) -> (r: bool)
        ensures
            r == (self.key_seq().len() == 0),
            r == (self@ == Map::<Seq<char>, T>::empty()),
    {
        proof {
            use_type_invariant(self);
            self.lemma_view_size();
            if self.key_seq().len() == 0 {
                assert(self@ =~= Map::<Seq<char>, T>::empty());
            } else {
                assert(self.key_seq().contains(self.key_seq()[0]));
                assert(self@.contains_key(self.key_seq()[0]));
            }
        }
        self.entries.len() == 0
    }

    /// The key and the value at position `index` in insertion order, if there are that many.
    pub fn entry_at(&self, index: usize) -> (r: Option<(&str, &T)>)
        ensures
            match r {
                Some((k, v)) => index < self.key_seq().len() && k@ == self.key_seq()[index as int]
                    && *v == self.value_seq()[index as int],
                None => index >= self.key_seq().len(),
            },
    {
        if index < self.entries.len() {
            Some((self.entries[index].0.as_str(), &self.entries[index].1))
        } else {
            None
        }
    }
}

impl<T: Clone> Clone for StringMap<T> {
    /// A map with the same keys in the same order, each value cloned.
    fn clone(&self) -> (r: Self)
        ensures
            r.key_seq() == self.key_seq(),
            r.value_seq().len() == self.value_seq().len(),
            forall|i: int|
                0 <= i < self.value_seq().len() ==> cloned::<T>(
                    self.value_seq()[i],
                    #[trigger] r.value_seq()[i],
                ),
    {
        proof {
            use_type_invariant(self);
        }
        let mut entries: Vec<(String, T)> = Vec::new();
        let mut i: usize = 0;
        while i < self.entries.len()
            invariant
                i <= self.entries@.len(),
                entries@.len() == i,
                forall|j: int|
                    0 <= j < i ==> (#[trigger] entries@[j]).0@ == self.entries@[j].0@ && cloned::<T>(
                        self.entries@[j].1,
                        entries@[j].1,
                    ),
            decreases self.entries@.len() - i,
        {
            let key = self.entries[i].0.clone();
            let value = self.entries[i].1.clone();
            entries.push((key, value));
            i = i + 1;
        }
        proof {
            let keys = Seq::new(entries@.len(), |i: int| entries@[i].0@);
            assert(keys =~= self.key_seq());
        }
        let r = StringMap { entries };
        proof {
            assert(r.key_seq() =~= self.key_seq());
        }
        r
    }
}

} // verus!
