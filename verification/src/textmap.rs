//! A small keyed store: values under text keys, kept in insertion order.
//! It stands for one named sub-store of the event DAG.

use vstd::prelude::*;
use vstd::string::*;
use crate::text::{str_eq, texts};

verus! {

/// Values under distinct text keys, in the order in which the keys first
/// came.
pub struct TextMap<V> {
    keys: Vec<String>,
    values: Vec<V>,
}

impl<V> View for TextMap<V> {
    type V = Map<Seq<char>, V>;

    /// The mapping from each key to its value.
    closed spec fn view(&self) -> Map<Seq<char>, V> {
        Map::new(
            |k: Seq<char>| texts(self.keys@).contains(k),
            |k: Seq<char>| self.values@[texts(self.keys@).index_of(k)],
        )
    }
}

impl<V> TextMap<V> {
    /// No key occurs twice, and every key has its value.
    pub closed spec fn wf(&self) -> bool {
        &&& self.keys@.len() == self.values@.len()
        &&& texts(self.keys@).no_duplicates()
    }

    /// The keys in the order in which they first came.
    pub closed spec fn keys(&self) -> Seq<Seq<char>> {
        texts(self.keys@)
    }

    /// The keys of the view are the listed keys, none twice.
    pub proof fn lemma_keys(&self)
        requires
            self.wf(),
        ensures
            self.keys().no_duplicates(),
            forall|k: Seq<char>| self@.contains_key(k) <==> self.keys().contains(k),
    {
    }

    /// An empty store.
    pub fn new() -> (r: Self)
        ensures
            r.wf(),
            r@ == Map::<Seq<char>, V>::empty(),
            r.keys() == Seq::<Seq<char>>::empty(),
    {
        let r = TextMap { keys: Vec::new(), values: Vec::new() };
        proof {
            assert(texts(r.keys@) =~= Seq::<Seq<char>>::empty());
            assert(r@ =~= Map::<Seq<char>, V>::empty());
        }
        r
    }

    /// The number of keys.
    pub fn len(&self) -> (r: usize)
        requires
            self.wf(),
        ensures
            r == self.keys().len(),
    {
        self.keys.len()
    }

    /// The key in place `i`.
    pub fn key_at(&self, i: usize) -> (r: &String)
        requires
            self.wf(),
            i < self.keys().len(),
        ensures
            r@ == self.keys()[i as int],
    {
        &self.keys[i]
    }

    /// The value under the key in place `i`.
    pub fn value_at(&self, i: usize) -> (r: &V)
        requires
            self.wf(),
            i < self.keys().len(),
        ensures
            self@.contains_key(self.keys()[i as int]),
            *r == self@[self.keys()[i as int]],
    {
        proof {
            let ks = texts(self.keys@);
            assert(ks.contains(ks[i as int]));
            let j = ks.index_of(ks[i as int]);
            assert(ks[j] == ks[i as int]);
        }
        &self.values[i]
    }

    /// The place of `key`, if it is present.
    pub fn position(&self, key: &str) -> (r: Option<usize>)
        requires
            self.wf(),
        ensures
            match r {
                Some(i) => i < self.keys().len() && self.keys()[i as int] == key@
                    && self@.contains_key(key@),
                None => !self@.contains_key(key@),
            },
    {
        let mut i: usize = 0;
        while i < self.keys.len()
            invariant
                i <= self.keys@.len(),
                forall|j: int| 0 <= j < i ==> (#[trigger] texts(self.keys@)[j]) != key@,
            decreases self.keys@.len() - i,
        {
            if str_eq(self.keys[i].as_str(), key) {
                proof {
                    assert(texts(self.keys@)[i as int] == key@);
                    assert(texts(self.keys@).contains(key@));
                }
                return Some(i);
            }
            i += 1;
        }
        proof {
            let ks = texts(self.keys@);
            if ks.contains(key@) {
                let j = choose|j: int| 0 <= j < ks.len() && ks[j] == key@;
                assert(ks[j] != key@);
            }
        }
        None
    }

    /// Whether `key` is present.
    pub fn contains_key(&self, key: &str) -> (r: bool)
        requires
            self.wf(),
        ensures
            r == self@.contains_key(key@),
    {
        self.position(key).is_some()
    }

    /// The value under `key`, if it is present.
    pub fn get(&self, key: &str) -> (r: Option<&V>)
        requires
            self.wf(),
        ensures
            match r {
                Some(v) => self@.contains_key(key@) && *v == self@[key@],
                None => !self@.contains_key(key@),
            },
    {
        match self.position(key) {
            Some(i) => Some(self.value_at(i)),
            None => None,
        }
    }

    /// Puts `value` under `key`, in place of what was there. A new key goes
    /// to the end.
    pub fn insert(&mut self, key: String, value: V)
        requires
            old(self).wf(),
        ensures
            final(self).wf(),
            final(self)@ == old(self)@.insert(key@, value),
            final(self).keys() == if old(self)@.contains_key(key@) {
                old(self).keys()
            } else {
                old(self).keys().push(key@)
            },
    {
        let ghost before = *self;
        match self.position(key.as_str()) {
            Some(i) => {
                self.values.set(i, value);
                proof {
                    let ks = texts(self.keys@);
                    assert(ks[i as int] == key@);
                    assert forall|k: Seq<char>| #[trigger] self@.contains_key(k) implies self@[k]
                        == before@.insert(key@, value)[k] by {
                        let j = ks.index_of(k);
                        assert(ks[j] == k);
                        if k == key@ {
                            assert(j == i);
                        } else {
                            assert(j != i);
                        }
                    }
                    assert(self@ =~= before@.insert(key@, value));
                }
            },
            None => {
                let ghost added = key@;
                self.keys.push(key);
                self.values.push(value);
                proof {
                    let old_ks = texts(before.keys@);
                    let ks = texts(self.keys@);
                    assert(ks =~= old_ks.push(added));
                    assert(!old_ks.contains(added));
                    assert forall|a: int, b: int| 0 <= a < ks.len() && 0 <= b < ks.len() && a != b
                        implies ks[a] != ks[b] by {
                        if a < old_ks.len() {
                            assert(old_ks.contains(old_ks[a]));
                        }
                        if b < old_ks.len() {
                            assert(old_ks.contains(old_ks[b]));
                        }
                    }
                    assert forall|k: Seq<char>| ks.contains(k) <==> (old_ks.contains(k) || k
                        == added) by {
                        if ks.contains(k) {
                            let j = choose|j: int| 0 <= j < ks.len() && ks[j] == k;
                            if j < old_ks.len() {
                                assert(old_ks[j] == k);
                            }
                        }
                        if old_ks.contains(k) {
                            let j = choose|j: int| 0 <= j < old_ks.len() && old_ks[j] == k;
                            assert(ks[j] == k);
                        }
                        if k == added {
                            assert(ks[old_ks.len() as int] == k);
                        }
                    }
                    assert forall|k: Seq<char>| #[trigger] self@.contains_key(k) implies self@[k]
                        == before@.insert(added, value)[k] by {
                        let j = ks.index_of(k);
                        assert(ks[j] == k);
                        if k == added {
                            assert(ks[old_ks.len() as int] == k);
                            assert(j == old_ks.len());
                        } else {
                            assert(old_ks.contains(k));
                            let j0 = old_ks.index_of(k);
                            assert(old_ks[j0] == k);
                            assert(ks[j0] == k);
                            assert(j == j0);
                        }
                    }
                    assert(self@ =~= before@.insert(added, value));
                }
            },
        }
    }

    /// Takes `key` and its value out.
    pub fn remove(&mut self, key: &str) -> (r: Option<V>)
        requires
            old(self).wf(),
        ensures
            final(self).wf(),
            final(self)@ == old(self)@.remove(key@),
            r == if old(self)@.contains_key(key@) {
                Some(old(self)@[key@])
            } else {
                None
            },
    {
        let ghost before = *self;
        match self.position(key) {
            Some(i) => {
                proof {
                    let old_ks = texts(before.keys@);
                    let j = old_ks.index_of(key@);
                    assert(old_ks[j] == key@);
                    assert(j == i);
                }
                let _ = self.keys.remove(i);
                let value = self.values.remove(i);
                proof {
                    let old_ks = texts(before.keys@);
                    let ks = texts(self.keys@);
                    assert(ks =~= old_ks.remove(i as int));
                    assert forall|a: int, b: int| 0 <= a < ks.len() && 0 <= b < ks.len() && a != b
                        implies ks[a] != ks[b] by {
                        let a0 = if a < i { a } else { a + 1 };
                        let b0 = if b < i { b } else { b + 1 };
                        assert(ks[a] == old_ks[a0] && ks[b] == old_ks[b0]);
                    }
                    assert forall|k: Seq<char>| ks.contains(k) <==> (old_ks.contains(k) && k
                        != key@) by {
                        if ks.contains(k) {
                            let j = choose|j: int| 0 <= j < ks.len() && ks[j] == k;
                            let j0 = if j < i { j } else { j + 1 };
                            assert(old_ks[j0] == k);
                        }
                        if old_ks.contains(k) && k != key@ {
                            let j0 = choose|j: int| 0 <= j < old_ks.len() && old_ks[j] == k;
                            let j = if j0 < i { j0 } else { j0 - 1 };
                            assert(ks[j] == k);
                        }
                    }
                    assert forall|k: Seq<char>| #[trigger] self@.contains_key(k) implies self@[k]
                        == before@.remove(key@)[k] by {
                        let j = ks.index_of(k);
                        assert(ks[j] == k);
                        let j0 = if j < i { j } else { j + 1 };
                        assert(old_ks[j0] == k);
                        let j1 = old_ks.index_of(k);
                        assert(old_ks[j1] == k);
                        assert(j1 == j0);
                    }
                    assert(self@ =~= before@.remove(key@));
                }
                Some(value)
            },
            None => {
                proof {
                    assert(self@ =~= before@.remove(key@));
                }
                None
            },
        }
    }
}

} // verus!
