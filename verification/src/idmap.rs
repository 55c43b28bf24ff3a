//! A small ordered map from player ids to values, kept as two parallel
//! vectors with strictly ascending keys. Walking it by index visits the keys
//! in ascending order.

use vstd::prelude::*;

verus! {

/// Whether the keys ascend strictly.
pub open spec fn ascending(keys: Seq<i32>) -> bool {
    forall|i: int, j: int| 0 <= i < j < keys.len() ==> keys[i] < keys[j]
}

/// The place of `key` among `keys`; meaningful when `key` occurs.
pub open spec fn place_of(keys: Seq<i32>, key: i32) -> int {
    choose|i: int| 0 <= i < keys.len() && keys[i] == key
}

/// In ascending keys every key has one place.
pub proof fn lemma_place_of(keys: Seq<i32>, i: int)
    requires
        ascending(keys),
        0 <= i < keys.len(),
    ensures
        place_of(keys, keys[i]) == i,
{
    let p = place_of(keys, keys[i]);
    assert(0 <= p < keys.len() && keys[p] == keys[i]);
    if p < i {
        assert(keys[p] < keys[i]);
    } else if i < p {
        assert(keys[i] < keys[p]);
    }
}

/// Ascending keys are fixed by the set of their values.
pub proof fn lemma_keys_by_domain(a: Seq<i32>, b: Seq<i32>)
    requires
        ascending(a),
        ascending(b),
        forall|k: i32| a.contains(k) == b.contains(k),
    ensures
        a == b,
    decreases a.len(),
{
    if a.len() == 0 {
        if b.len() > 0 {
            assert(b.contains(b[0]));
        }
        assert(a =~= b);
    } else {
        assert(a.contains(a.last()));
        assert(b.len() > 0);
        assert(b.contains(b.last()));
        // the greatest key is the last one on both sides
        assert(a.last() == b.last());
        let a0 = a.drop_last();
        let b0 = b.drop_last();
        assert forall|k: i32| a0.contains(k) == b0.contains(k) by {
            if a0.contains(k) {
                let i = choose|i: int| 0 <= i < a0.len() && a0[i] == k;
                assert(a[i] == k);
                assert(a.contains(k));
                let j = choose|j: int| 0 <= j < b.len() && b[j] == k;
                assert(k < a.last());
                assert(j < b.len() - 1);
                assert(b0[j] == k);
            }
            if b0.contains(k) {
                let i = choose|i: int| 0 <= i < b0.len() && b0[i] == k;
                assert(b[i] == k);
                assert(b.contains(k));
                let j = choose|j: int| 0 <= j < a.len() && a[j] == k;
                assert(k < b.last());
                assert(j < a.len() - 1);
                assert(a0[j] == k);
            }
        }
        lemma_keys_by_domain(a0, b0);
        assert(a =~= a0.push(a.last()));
        assert(b =~= b0.push(b.last()));
    }
}

pub struct IdMap<V> {
    keys: Vec<i32>,
    values: Vec<V>,
}

impl<V> IdMap<V> {
    /// The keys, in the order in which they are walked.
    pub closed spec fn keys(&self) -> Seq<i32> {
        self.keys@
    }

    /// The values, each at the place of its key.
    pub closed spec fn values(&self) -> Seq<V> {
        self.values@
    }

    /// Keys ascend strictly and every key has a value.
    pub open spec fn wf(&self) -> bool {
        &&& self.keys().len() == self.values().len()
        &&& ascending(self.keys())
    }

    pub open spec fn contains_key(&self, key: i32) -> bool {
        self.keys().contains(key)
    }

    /// The value stored under `key`; meaningful when the key is present.
    pub open spec fn value_of(&self, key: i32) -> V {
        self.values()[place_of(self.keys(), key)]
    }

    /// The map as a mathematical map.
    pub open spec fn as_map(&self) -> Map<i32, V> {
        Map::new(|k: i32| self.contains_key(k), |k: i32| self.value_of(k))
    }

    /// The value at place `i` is the value of the key at place `i`.
    pub proof fn lemma_value_at(&self, i: int)
        requires
            self.wf(),
            0 <= i < self.keys().len(),
        ensures
            self.contains_key(self.keys()[i]),
            self.value_of(self.keys()[i]) == self.values()[i],
            self.as_map().contains_key(self.keys()[i]),
            self.as_map()[self.keys()[i]] == self.values()[i],
    {
        lemma_place_of(self.keys(), i);
    }

    /// Replacing the value at place `i` is an update of the map at that key.
    pub proof fn lemma_update_at(&self, after: &Self, i: int)
        requires
            self.wf(),
            0 <= i < self.keys().len(),
            after.keys() == self.keys(),
            after.values() == self.values().update(i, after.values()[i]),
        ensures
            after.wf(),
            after.as_map() == self.as_map().insert(self.keys()[i], after.values()[i]),
    {
        let keys = self.keys();
        assert forall|k: i32| #[trigger] after.as_map().contains_key(k) implies after.as_map()[k]
            == self.as_map().insert(keys[i], after.values()[i])[k] by {
            let p = place_of(keys, k);
            assert(0 <= p < keys.len() && keys[p] == k);
            lemma_place_of(keys, p);
            lemma_place_of(keys, i);
        }
        assert(after.as_map() =~= self.as_map().insert(keys[i], after.values()[i]));
    }

    pub fn new() -> (m: Self)
        ensures
            m.wf(),
            m.keys() == Seq::<i32>::empty(),
            m.as_map() == Map::<i32, V>::empty(),
    {
        let m = IdMap { keys: Vec::new(), values: Vec::new() };
        assert(m.as_map() =~= Map::<i32, V>::empty());
        m
    }

    pub fn len(&self) -> (n: usize)
        requires
            self.wf(),
        ensures
            n == self.keys().len(),
    {
        self.keys.len()
    }

    pub fn key_at(&self, i: usize) -> (key: i32)
        requires
            self.wf(),
            i < self.keys().len(),
        ensures
            key == self.keys()[i as int],
    {
        self.keys[i]
    }

    pub fn value_at(&self, i: usize) -> (value: &V)
        requires
            self.wf(),
            i < self.keys().len(),
        ensures
            *value == self.values()[i as int],
    {
        &self.values[i]
    }

    /// The value at place `i`, for changing in place. The keys stay as they
    /// are, and so does every other value.
    pub fn value_mut(&mut self, i: usize) -> (value: &mut V)
        requires
            old(self).wf(),
            i < old(self).keys().len(),
        ensures
            *value == old(self).values()[i as int],
            final(self).keys() == old(self).keys(),
            final(self).values() == old(self).values().update(i as int, *final(value)),
    {
        &mut self.values[i]
    }

    /// The place of `key`, if it is present.
    pub fn position(&self, key: i32) -> (place: Option<usize>)
        requires
            self.wf(),
        ensures
            match place {
                Some(i) => i < self.keys().len() && self.keys()[i as int] == key,
                None => !self.contains_key(key),
            },
    {
        let mut i: usize = 0;
        while i < self.keys.len()
            invariant
                i <= self.keys.len(),
                forall|j: int| 0 <= j < i ==> self.keys@[j] != key,
            decreases self.keys.len() - i,
        {
            if self.keys[i] == key {
                return Some(i);
            }
            i += 1;
        }
        None
    }

    /// The value stored under `key`, if any.
    pub fn get(&self, key: i32) -> (value: Option<&V>)
        requires
            self.wf(),
        ensures
            match value {
                Some(v) => self.as_map().contains_key(key) && *v == self.as_map()[key],
                None => !self.as_map().contains_key(key),
            },
    {
        match self.position(key) {
            Some(i) => {
                proof {
                    self.lemma_value_at(i as int);
                }
                Some(&self.values[i])
            },
            None => None,
        }
    }

    /// Stores `value` under `key` and hands back the value that it replaces.
    pub fn insert(&mut self, key: i32, value: V) -> (replaced: Option<V>)
        requires
            old(self).wf(),
        ensures
            final(self).wf(),
            final(self).as_map() == old(self).as_map().insert(key, value),
            match replaced {
                Some(v) => old(self).as_map().contains_key(key) && v == old(self).as_map()[key],
                None => !old(self).as_map().contains_key(key),
            },
    {
        let ghost before = *self;
        let mut p: usize = 0;
        while p < self.keys.len() && self.keys[p] < key
            invariant
                *self == before,
                p <= self.keys.len(),
                forall|j: int| 0 <= j < p ==> self.keys@[j] < key,
            decreases self.keys.len() - p,
        {
            p += 1;
        }
        if p < self.keys.len() && self.keys[p] == key {
            self.values.push(value);
            let replaced = self.values.swap_remove(p);
            proof {
                assert(self.values@ =~= before.values@.update(p as int, value));
                before.lemma_value_at(p as int);
                before.lemma_update_at(self, p as int);
            }
            Some(replaced)
        } else {
            self.keys.insert(p, key);
            self.values.insert(p, value);
            proof {
                let old_keys = before.keys@;
                let new_keys = self.keys@;
                assert(!old_keys.contains(key)) by {
                    if old_keys.contains(key) {
                        let q = choose|q: int| 0 <= q < old_keys.len() && old_keys[q] == key;
                        if q < p {
                            assert(old_keys[q] < key);
                        } else {
                            assert(old_keys[p as int] <= old_keys[q]);
                        }
                    }
                }
                assert(ascending(new_keys)) by {
                    assert forall|i: int, j: int| 0 <= i < j < new_keys.len() implies new_keys[i]
                        < new_keys[j] by {
                        let oi = if i < p { i } else { i - 1 };
                        let oj = if j < p { j } else { j - 1 };
                        if i != p && j != p {
                            assert(new_keys[i] == old_keys[oi]);
                            assert(new_keys[j] == old_keys[oj]);
                        } else if i == p {
                            assert(new_keys[j] == old_keys[oj]);
                            assert(old_keys[p as int] <= old_keys[oj]);
                        } else {
                            assert(new_keys[i] == old_keys[oi]);
                        }
                    }
                }
                assert forall|k: i32| #[trigger] self.as_map().contains_key(k) implies self.as_map()[k]
                    == before.as_map().insert(key, value)[k] by {
                    let q = place_of(new_keys, k);
                    assert(0 <= q < new_keys.len() && new_keys[q] == k);
                    if q != p {
                        let oq = if q < p { q } else { q - 1 };
                        assert(old_keys[oq] == k);
                        lemma_place_of(old_keys, oq);
                    }
                }
                assert forall|k: i32| before.as_map().insert(key, value).contains_key(k)
                    implies #[trigger] self.as_map().contains_key(k) by {
                    if k == key {
                        assert(new_keys[p as int] == key);
                    } else {
                        let q = choose|q: int| 0 <= q < old_keys.len() && old_keys[q] == k;
                        let nq = if q < p { q } else { q + 1 };
                        assert(new_keys[nq] == k);
                    }
                }
                assert forall|k: i32| #[trigger] self.as_map().contains_key(k) implies before.as_map().insert(
                    key,
                    value,
                ).contains_key(k) by {
                    let q = choose|q: int| 0 <= q < new_keys.len() && new_keys[q] == k;
                    if q != p {
                        let oq = if q < p { q } else { q - 1 };
                        assert(old_keys[oq] == k);
                    }
                }
                assert(self.as_map() =~= before.as_map().insert(key, value));
            }
            None
        }
    }
}

} // verus!
