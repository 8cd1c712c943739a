//! A map from byte strings to values that keeps the order in which its keys
//! came.

use vstd::prelude::*;
use crate::pattern::byte_views;

verus! {

/// Whether two byte strings are the same.
pub fn bytes_eq(a: &[u8], b: &[u8]) -> (r: bool)
    ensures
        r == (a@ == b@),
{
    if a.len() != b.len() {
        return false;
    }
    let mut i: usize = 0;
    while i < a.len()
        invariant
            i <= a.len(),
            a.len() == b.len(),
            forall|k: int| 0 <= k < i ==> a@[k] == b@[k],
        decreases a.len() - i,
    {
        if a[i] != b[i] {
            return false;
        }
        i += 1;
    }
    assert(a@ =~= b@);
    true
}

/// A copy of a byte string.
pub fn clone_bytes(a: &[u8]) -> (r: Vec<u8>)
    ensures
        r@ == a@,
{
    let mut out: Vec<u8> = Vec::new();
    assert(a@.skip(0) =~= a@);
    crate::pattern::push_bytes(&mut out, a, 0);
    out
}

pub struct Dict<V> {
    keys: Vec<Vec<u8>>,
    values: Vec<V>,
}

impl<V> View for Dict<V> {
    type V = Map<Seq<u8>, V>;

    /// The map from each key to its value.
    closed spec fn view(&self) -> Map<Seq<u8>, V> {
        Map::new(
            |k: Seq<u8>| self.keys().contains(k),
            |k: Seq<u8>| self.values@[self.keys().index_of(k)],
        )
    }
}

impl<V> Dict<V> {
    /// The keys in the order in which they came.
    pub closed spec fn keys(&self) -> Seq<Seq<u8>> {
        byte_views(self.keys@)
    }

    /// The values, each at the index of its key.
    pub closed spec fn values(&self) -> Seq<V> {
        self.values@
    }

    /// Each key has one value, and no key stands twice.
    pub open spec fn wf(&self) -> bool {
        self.keys().len() == self.values().len() && self.keys().no_duplicates()
    }

    /// The map holds exactly the keys, each with the value at its index.
    pub proof fn lemma_view(&self)
        requires
            self.wf(),
        ensures
            forall|k: Seq<u8>| self@.contains_key(k) <==> self.keys().contains(k),
            forall|i: int|
                0 <= i < self.keys().len() ==> self@.contains_key(#[trigger] self.keys()[i])
                    && self@[self.keys()[i]] == self.values()[i],
    {
        assert forall|i: int| 0 <= i < self.keys().len() implies self@.contains_key(
            #[trigger] self.keys()[i],
        ) && self@[self.keys()[i]] == self.values()[i] by {
            let k = self.keys()[i];
            assert(self.keys().contains(k));
            let j = self.keys().index_of(k);
            assert(self.keys()[j] == k);
        }
    }

    pub fn new() -> (r: Self)
        ensures
            r.wf(),
            r@ == Map::<Seq<u8>, V>::empty(),
            r.keys() == Seq::<Seq<u8>>::empty(),
    {
        let r = Self { keys: Vec::new(), values: Vec::new() };
        assert(r.keys() =~= Seq::<Seq<u8>>::empty());
        assert(r@ =~= Map::<Seq<u8>, V>::empty());
        r
    }

    pub fn len(&self) -> (r: usize)
        requires
            self.wf(),
        ensures
            r == self.keys().len(),
    {
        self.keys.len()
    }

    /// The index of a key.
    pub fn find(&self, key: &[u8]) -> (r: Option<usize>)
        requires
            self.wf(),
        ensures
            match r {
                Some(i) => i < self.keys().len() && self.keys()[i as int] == key@,
                None => !self.keys().contains(key@),
            },
            r is Some <==> self@.contains_key(key@),
    {
        let mut i: usize = 0;
        while i < self.keys.len()
            invariant
                i <= self.keys.len(),
                forall|k: int| 0 <= k < i ==> self.keys()[k] != key@,
            decreases self.keys.len() - i,
        {
            if bytes_eq(self.keys[i].as_slice(), key) {
                assert(self.keys()[i as int] == key@);
                return Some(i);
            }
            i += 1;
        }
        None
    }

    /// The key at an index.
    pub fn key_at(&self, i: usize) -> (r: &Vec<u8>)
        requires
            self.wf(),
            i < self.keys().len(),
        ensures
            r@ == self.keys()[i as int],
    {
        &self.keys[i]
    }

    /// The value at an index.
    pub fn value_at(&self, i: usize) -> (r: &V)
        requires
            self.wf(),
            i < self.keys().len(),
        ensures
            *r == self.values()[i as int],
            *r == self@[self.keys()[i as int]],
    {
        proof {
            self.lemma_view();
        }
        &self.values[i]
    }

    pub fn get(&self, key: &[u8]) -> (r: Option<&V>)
        requires
            self.wf(),
        ensures
            match r {
                Some(v) => self@.contains_key(key@) && *v == self@[key@],
                None => !self@.contains_key(key@),
            },
    {
        proof {
            self.lemma_view();
        }
        match self.find(key) {
            Some(i) => Some(&self.values[i]),
            None => None,
        }
    }

    pub fn contains_key(&self, key: &[u8]) -> (r: bool)
        requires
            self.wf(),
        ensures
            r == self@.contains_key(key@),
    {
        self.find(key).is_some()
    }

    /// Sets the value of a key. A new key comes last.
    pub fn insert(&mut self, key: Vec<u8>, value: V)
        requires
            old(self).wf(),
        ensures
            final(self).wf(),
            final(self)@ == old(self)@.insert(key@, value),
            final(self).keys() == if old(self)@.contains_key(key@) {
                old(self).keys()
            } else {
                old(self).keys().push(key@)
            },
    {
        proof {
            self.lemma_view();
        }
        let ghost old_keys = self.keys();
        match self.find(key.as_slice()) {
            Some(i) => {
                self.values[i] = value;
                assert(self.keys() == old_keys);
            },
            None => {
                self.keys.push(key);
                self.values.push(value);
                assert(self.keys() =~= old_keys.push(key@));
                assert(self.keys().no_duplicates()) by {
                    assert forall|a: int, b: int|
                        0 <= a < self.keys().len() && 0 <= b < self.keys().len() && a
                            != b implies self.keys()[a] != self.keys()[b] by {
                        if a < old_keys.len() {
                            assert(old_keys.contains(old_keys[a]));
                        }
                        if b < old_keys.len() {
                            assert(old_keys.contains(old_keys[b]));
                        }
                    }
                }
            },
        }
        proof {
            self.lemma_view();
            assert forall|k: Seq<u8>| self@.contains_key(k) <==> old(self)@.insert(
                key@,
                value,
            ).contains_key(k) by {
                if self.keys().contains(k) {
                    let j = choose|j: int| 0 <= j < self.keys().len() && self.keys()[j] == k;
                    if j < old_keys.len() {
                        assert(old_keys[j] == k);
                    }
                }
                if old_keys.contains(k) {
                    let j = choose|j: int| 0 <= j < old_keys.len() && old_keys[j] == k;
                    assert(self.keys()[j] == k);
                }
                if k == key@ {
                    let j = self.keys().len() - 1;
                    if !old_keys.contains(k) {
                        assert(self.keys()[j] == k);
                    }
                }
            }
            assert forall|k: Seq<u8>| self@.contains_key(k) implies self@[k] == old(self)@.insert(
                key@,
                value,
            )[k] by {
                let j = choose|j: int| 0 <= j < self.keys().len() && self.keys()[j] == k;
                if k != key@ {
                    assert(old_keys[j] == k);
                    assert(old(self).values()[j] == self.values()[j]);
                }
            }
            assert(self@ =~= old(self)@.insert(key@, value));
        }
    }

    /// Takes a key and its value out.
    pub fn remove(&mut self, key: &[u8])
        requires
            old(self).wf(),
        ensures
            final(self).wf(),
            final(self)@ == old(self)@.remove(key@),
    {
        proof {
            self.lemma_view();
        }
        let ghost old_keys = self.keys();
        let ghost old_values = self.values();
        match self.find(key) {
            Some(i) => {
                self.keys.remove(i);
                self.values.remove(i);
                proof {
                    assert(self.keys() =~= old_keys.remove(i as int));
                    assert(self.values() =~= old_values.remove(i as int));
                    assert forall|a: int, b: int|
                        0 <= a < self.keys().len() && 0 <= b < self.keys().len() && a
                            != b implies self.keys()[a] != self.keys()[b] by {
                        let a0 = if a < i { a } else { a + 1 };
                        let b0 = if b < i { b } else { b + 1 };
                        assert(self.keys()[a] == old_keys[a0]);
                        assert(self.keys()[b] == old_keys[b0]);
                    }
                    self.lemma_view();
                    assert forall|k: Seq<u8>| self@.contains_key(k) <==> old(self)@.remove(
                        key@,
                    ).contains_key(k) by {
                        if self.keys().contains(k) {
                            let j = choose|j: int| 0 <= j < self.keys().len() && self.keys()[j] == k;
                            let j0 = if j < i { j } else { j + 1 };
                            assert(old_keys[j0] == k);
                        }
                        if old_keys.contains(k) && k != key@ {
                            let j = choose|j: int| 0 <= j < old_keys.len() && old_keys[j] == k;
                            let j1 = if j < i { j } else { j - 1 };
                            assert(self.keys()[j1] == k);
                        }
                    }
                    assert forall|k: Seq<u8>| self@.contains_key(k) implies self@[k] == old(
                        self,
                    )@.remove(key@)[k] by {
                        let j = choose|j: int| 0 <= j < self.keys().len() && self.keys()[j] == k;
                        let j0 = if j < i { j } else { j + 1 };
                        assert(old_keys[j0] == k);
                        assert(old_values[j0] == self.values()[j]);
                    }
                    assert(self@ =~= old(self)@.remove(key@));
                }
            },
            None => {
                assert(self@ =~= old(self)@.remove(key@));
            },
        }
    }

    /// Takes every key out.
    pub fn clear(&mut self)
        ensures
            final(self).wf(),
            final(self)@ == Map::<Seq<u8>, V>::empty(),
            final(self).keys() == Seq::<Seq<u8>>::empty(),
    {
        self.keys.clear();
        self.values.clear();
        assert(self.keys() =~= Seq::<Seq<u8>>::empty());
        assert(self@ =~= Map::<Seq<u8>, V>::empty());
    }
}

} // verus!
