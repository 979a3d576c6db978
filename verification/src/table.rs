//! A table from texts to values that keeps one entry for each key, in order of first insertion.

use crate::text::text_eq;
use vstd::prelude::*;

verus! {

pub struct Table<T> {
    keys: Vec<String>,
    values: Vec<T>,
}

/// Whether `key` stands at place `i`.
spec fn stands_at(keys: Seq<String>, key: Seq<char>, i: int) -> bool {
    0 <= i < keys.len() && keys[i]@ == key
}

spec fn place(keys: Seq<String>, key: Seq<char>) -> int {
    choose|i: int| stands_at(keys, key, i)
}

impl<T: View> View for Table<T> {
    type V = Map<Seq<char>, T::V>;

    closed spec fn view(&self) -> Map<Seq<char>, T::V> {
        Map::new(
            |key: Seq<char>| exists|i: int| stands_at(self.keys@, key, i),
            |key: Seq<char>| self.values@[place(self.keys@, key)]@,
        )
    }
}

impl<T: View> Table<T> {
    /// No key occurs twice.
    pub closed spec fn wf(&self) -> bool {
        &&& self.keys@.len() == self.values@.len()
        &&& forall|i: int, j: int|
            0 <= i < j < self.keys@.len() ==> (#[trigger] self.keys@[i])@ != (
            #[trigger] self.keys@[j])@
    }

    /// The keys in order.
    pub closed spec fn order(&self) -> Seq<Seq<char>> {
        Seq::new(self.keys@.len(), |i: int| self.keys@[i]@)
    }

    proof fn lemma_at(&self, i: int)
        requires
            self.wf(),
            0 <= i < self.keys@.len(),
        ensures
            self@.contains_key(self.keys@[i]@),
            self@[self.keys@[i]@] == self.values@[i]@,
    {
        assert(stands_at(self.keys@, self.keys@[i]@, i));
        let p = place(self.keys@, self.keys@[i]@);
        assert(stands_at(self.keys@, self.keys@[i]@, p));
    }

    pub fn new() -> (r: Self)
        ensures
            r.wf(),
            r@ == Map::<Seq<char>, T::V>::empty(),
            r.order() == Seq::<Seq<char>>::empty(),
    {
        let r = Table { keys: Vec::new(), values: Vec::new() };
        assert(r@ =~= Map::<Seq<char>, T::V>::empty());
        assert(r.order() =~= Seq::<Seq<char>>::empty());
        r
    }

    fn position(&self, key: &str) -> (r: Option<usize>)
        requires
            self.wf(),
        ensures
            match r {
                Some(i) => stands_at(self.keys@, key@, i as int) && self@.contains_key(key@)
                    && self@[key@] == self.values@[i as int]@,
                None => !self@.contains_key(key@) && (forall|i: int|
                    !stands_at(self.keys@, key@, i)),
            },
    {
        let mut i: usize = 0;
        while i < self.keys.len()
            invariant
                i <= self.keys@.len(),
                self.wf(),
                forall|k: int| 0 <= k < i ==> (#[trigger] self.keys@[k])@ != key@,
            decreases self.keys.len() - i,
        {
            if text_eq(self.keys[i].as_str(), key) {
                proof {
                    self.lemma_at(i as int);
                }
                return Some(i);
            }
            i += 1;
        }
        None
    }

    pub fn get(&self, key: &str) -> (r: Option<&T>)
        requires
            self.wf(),
        ensures
            match r {
                Some(v) => self@.contains_key(key@) && v@ == self@[key@],
                None => !self@.contains_key(key@),
            },
    {
        match self.position(key) {
            Some(i) => Some(&self.values[i]),
            None => None,
        }
    }

    /// Sets the value of `key`; an earlier value of the same key is replaced.
    pub fn insert(&mut self, key: String, value: T)
        requires
            old(self).wf(),
        ensures
            final(self).wf(),
            final(self)@ == old(self)@.insert(key@, value@),
            final(self).order() == if old(self)@.contains_key(key@) {
                old(self).order()
            } else {
                old(self).order().push(key@)
            },
    {
        let ghost before = *self;
        match self.position(key.as_str()) {
            Some(i) => {
                self.values.set(i, value);
                proof {
                    assert(self.keys@ == before.keys@);
                    assert forall|k: Seq<char>| self@.contains_key(k) implies self@[k]
                        == before@.insert(key@, value@)[k] by {
                        let p = place(self.keys@, k);
                        assert(stands_at(self.keys@, k, p));
                    }
                    assert(self@ =~= before@.insert(key@, value@));
                    assert(self.order() =~= before.order());
                }
            },
            None => {
                let ghost k0 = key@;
                self.keys.push(key);
                self.values.push(value);
                proof {
                    let n = before.keys@.len() as int;
                    assert forall|i: int, j: int| 0 <= i < j < self.keys@.len() implies (
                    #[trigger] self.keys@[i])@ != (#[trigger] self.keys@[j])@ by {
                        if j == n {
                            assert(!stands_at(before.keys@, k0, i));
                        }
                    }
                    assert(self.wf());
                    self.lemma_at(n);
                    let after = before@.insert(k0, value@);
                    assert forall|k: Seq<char>| self@.contains_key(k) <==> after.contains_key(k) by {
                        if self@.contains_key(k) {
                            let p = choose|p: int| stands_at(self.keys@, k, p);
                            if p < n {
                                assert(stands_at(before.keys@, k, p));
                            }
                        }
                        if before@.contains_key(k) {
                            let p = choose|p: int| stands_at(before.keys@, k, p);
                            assert(stands_at(self.keys@, k, p));
                        }
                    }
                    assert forall|k: Seq<char>| self@.contains_key(k) implies self@[k]
                        == after[k] by {
                        if k != k0 {
                            assert(after.contains_key(k));
                            assert(before@.contains_key(k));
                            let p = place(before.keys@, k);
                            assert(stands_at(before.keys@, k, p));
                            self.lemma_at(p);
                            before.lemma_at(p);
                        }
                    }
                    assert(self@ =~= after);
                    assert(self.order() =~= before.order().push(k0));
                }
            },
        }
    }

    /// How many keys there are.
    pub fn len(&self) -> (r: usize)
        ensures
            r == self.order().len(),
    {
        self.keys.len()
    }

    /// The entry at a place in the order of the keys.
    pub fn entry(&self, i: usize) -> (r: (&str, &T))
        requires
            self.wf(),
            i < self.order().len(),
        ensures
            r.0@ == self.order()[i as int],
            self@.contains_key(r.0@),
            r.1@ == self@[r.0@],
    {
        proof {
            self.lemma_at(i as int);
        }
        (self.keys[i].as_str(), &self.values[i])
    }

    pub fn clear(&mut self)
        ensures
            final(self).wf(),
            final(self)@ == Map::<Seq<char>, T::V>::empty(),
            final(self).order() == Seq::<Seq<char>>::empty(),
    {
        *self = Table::new();
    }
}

} // verus!
