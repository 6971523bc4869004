//! A table of unique keys, seen as a mathematical map.
use vstd::prelude::*;
use crate::ip::IpAddr;

verus! {

/// What can stand as a key: equality is decided by the view alone.
pub trait Key: View + Sized {
    fn same(&self, other: &Self) -> (r: bool)
        ensures
            r == (self@ == other@),
    ;

    fn copied(&self) -> (r: Self)
        ensures
            r@ == self@,
    ;
}

impl Key for String {
    fn same(&self, other: &Self) -> (r: bool) {
        *self == *other
    }

    fn copied(&self) -> (r: Self) {
        self.clone()
    }
}

impl View for IpAddr {
    type V = IpAddr;

    open spec fn view(&self) -> IpAddr {
        *self
    }
}

impl Key for IpAddr {
    fn same(&self, other: &Self) -> (r: bool) {
        *self == *other
    }

    fn copied(&self) -> (r: Self) {
        *self
    }
}

/// Entries with pairwise different keys. Seen as the map from the keys to the
/// values, each by its view.
pub struct Table<K: Key, V: View> {
    entries: Vec<(K, V)>,
}

/// The keys of `entries`, in order.
pub open spec fn keys_of<A, B>(entries: Seq<(A, B)>) -> Seq<A> {
    Seq::new(entries.len(), |i: int| entries[i].0)
}

/// The map that holds exactly `entries`, whose keys are pairwise different.
pub open spec fn map_of<A, B>(entries: Seq<(A, B)>) -> Map<A, B> {
    Map::new(
        |k: A| keys_of(entries).contains(k),
        |k: A| entries[keys_of(entries).index_of(k)].1,
    )
}

/// What `map_of` holds, for entries with pairwise different keys.
pub proof fn lemma_map_of<A, B>(entries: Seq<(A, B)>)
    requires
        keys_of(entries).no_duplicates(),
    ensures
        map_of(entries).dom() == keys_of(entries).to_set(),
        map_of(entries).dom().finite(),
        map_of(entries).dom().len() == entries.len(),
        forall|i: int|
            0 <= i < entries.len() ==> map_of(entries).contains_key((#[trigger] entries[i]).0)
                && map_of(entries)[entries[i].0] == entries[i].1,
        forall|k: A| #[trigger]
            map_of(entries).contains_key(k) ==> exists|i: int|
                0 <= i < entries.len() && (#[trigger] entries[i]) == (k, map_of(entries)[k]),
{
    let keys = keys_of(entries);
    assert(map_of(entries).dom() =~= keys.to_set());
    keys.unique_seq_to_set();
    assert forall|i: int| 0 <= i < entries.len() implies map_of(entries).contains_key(
        (#[trigger] entries[i]).0,
    ) && map_of(entries)[entries[i].0] == entries[i].1 by {
        assert(keys[i] == entries[i].0);
        assert(keys.contains(keys[i]));
        let j = keys.index_of(keys[i]);
        assert(keys[j] == keys[i]);
    }
    assert forall|k: A| #[trigger] map_of(entries).contains_key(k) implies exists|i: int|
        0 <= i < entries.len() && (#[trigger] entries[i]) == (k, map_of(entries)[k]) by {
        let j = keys.index_of(k);
        assert(keys[j] == k);
        assert(entries[j] == (k, map_of(entries)[k]));
    }
}

/// The map with each value replaced by what `f` makes of it, without the keys
/// for which that is nothing.
pub open spec fn refined<A, B>(m: Map<A, B>, f: spec_fn(B) -> Option<B>) -> Map<A, B> {
    Map::new(|k: A| m.contains_key(k) && f(m[k]) is Some, |k: A| f(m[k])->0)
}

impl<K: Key, V: View> Table<K, V> {
    /// The entries in the order in which `entry` gives them.
    pub closed spec fn items(&self) -> Seq<(K::V, V::V)> {
        Seq::new(self.entries@.len(), |i: int| (self.entries@[i].0@, self.entries@[i].1@))
    }

    #[verifier::type_invariant]
    spec fn distinct(self) -> bool {
        keys_of(self.items()).no_duplicates()
    }

    pub fn new() -> (r: Self)
        ensures
            r@ == Map::<K::V, V::V>::empty(),
            r.items() == Seq::<(K::V, V::V)>::empty(),
    {
        let entries: Vec<(K, V)> = Vec::new();
        let r = Table { entries };
        assert(r@ =~= Map::<K::V, V::V>::empty());
        r
    }

    /// The number of entries. The items hold each key of the map once, with its
    /// value.
    pub fn len(&self) -> (r: usize)
        ensures
            r == self@.dom().len(),
            r == self.items().len(),
            self@.dom().finite(),
            self@ == map_of(self.items()),
            keys_of(self.items()).no_duplicates(),
            forall|i: int|
                0 <= i < self.items().len() ==> self@.contains_key((#[trigger] self.items()[i]).0)
                    && self@[self.items()[i].0] == self.items()[i].1,
            forall|k: K::V| #[trigger]
                self@.contains_key(k) ==> exists|i: int|
                    0 <= i < self.items().len() && (#[trigger] self.items()[i]) == (k, self@[k]),
    {
        proof {
            use_type_invariant(self);
            lemma_map_of(self.items());
        }
        self.entries.len()
    }

    /// The `i`th entry.
    pub fn entry(&self, i: usize) -> (r: (&K, &V))
        requires
            i < self.items().len(),
        ensures
            self.items()[i as int] == (r.0@, r.1@),
    {
        let e = &self.entries[i];
        (&e.0, &e.1)
    }

    /// The position of the entry with the given key.
    pub fn position(&self, key: &K) -> (r: Option<usize>)
        ensures
            match r {
                Some(i) => i < self.items().len() && self.items()[i as int].0 == key@
                    && self@.contains_key(key@) && self.items()[i as int].1 == self@[key@],
                None => !self@.contains_key(key@),
            },
    {
        proof {
            use_type_invariant(&*self);
            lemma_map_of(self.items());
        }
        let mut i: usize = 0;
        while i < self.entries.len()
            invariant
                i <= self.entries@.len(),
                self.items().len() == self.entries@.len(),
                forall|k: int| 0 <= k < i ==> (#[trigger] self.items()[k]).0 != key@,
                forall|j: int|
                    0 <= j < self.items().len() ==> self@.contains_key(
                        (#[trigger] self.items()[j]).0,
                    ) && self@[self.items()[j].0] == self.items()[j].1,
            decreases self.entries@.len() - i,
        {
            assert(self.items()[i as int].0 == self.entries@[i as int].0@);
            if self.entries[i].0.same(key) {
                return Some(i);
            }
            i = i + 1;
        }
        None
    }

    pub fn contains(&self, key: &K) -> (r: bool)
        ensures
            r == self@.contains_key(key@),
    {
        self.position(key).is_some()
    }

    pub fn get(&self, key: &K) -> (r: Option<&V>)
        ensures
            match r {
                Some(v) => self@.contains_key(key@) && v@ == self@[key@],
                None => !self@.contains_key(key@),
            },
    {
        match self.position(key) {
            Some(i) => Some(self.entry(i).1),
            None => None,
        }
    }

    /// Takes the `i`th entry out.
    pub fn take_at(&mut self, i: usize) -> (r: (K, V))
        requires
            i < old(self).items().len(),
        ensures
            old(self).items()[i as int] == (r.0@, r.1@),
            final(self).items() == old(self).items().remove(i as int),
            final(self)@ == old(self)@.remove(r.0@),
    {
        proof {
            use_type_invariant(&*self);
            lemma_map_of(self.items());
        }
        let ghost before = self.items();
        let mut entries: Vec<(K, V)> = Vec::new();
        std::mem::swap(&mut entries, &mut self.entries);
        let r = entries.remove(i);
        let ghost after = Seq::new(entries@.len(), |j: int| (entries@[j].0@, entries@[j].1@));
        proof {
            assert(after =~= before.remove(i as int));
            lemma_remove_entry(before, i as int);
        }
        self.entries = entries;
        assert(self.items() =~= after);
        r
    }

    /// Takes the entry with the given key out.
    pub fn take(&mut self, key: &K) -> (r: Option<V>)
        ensures
            match r {
                Some(v) => old(self)@.contains_key(key@) && v@ == old(self)@[key@],
                None => !old(self)@.contains_key(key@),
            },
            final(self)@ == old(self)@.remove(key@),
    {
        match self.position(key) {
            Some(i) => Some(self.take_at(i).1),
            None => {
                assert(self@.remove(key@) =~= self@);
                None
            },
        }
    }

    /// Adds an entry under a new key.
    pub fn add_new(&mut self, key: K, value: V)
        requires
            !old(self)@.contains_key(key@),
        ensures
            final(self)@ == old(self)@.insert(key@, value@),
            final(self).items() == old(self).items().push((key@, value@)),
    {
        proof {
            use_type_invariant(&*self);
        }
        let ghost before = self.items();
        let mut entries: Vec<(K, V)> = Vec::new();
        std::mem::swap(&mut entries, &mut self.entries);
        entries.push((key, value));
        let ghost after = Seq::new(entries@.len(), |j: int| (entries@[j].0@, entries@[j].1@));
        proof {
            assert(after =~= before.push((key@, value@)));
            lemma_push_entry(before, key@, value@);
        }
        self.entries = entries;
        assert(self.items() =~= after);
    }

    /// Sets the value of a key.
    pub fn put(&mut self, key: K, value: V)
        ensures
            final(self)@ == old(self)@.insert(key@, value@),
    {
        proof {
            use_type_invariant(&*self);
            lemma_map_of(self.items());
        }
        let ghost before = self.items();
        if let Some(i) = self.position(&key) {
            let mut entries: Vec<(K, V)> = Vec::new();
            std::mem::swap(&mut entries, &mut self.entries);
            let _ = entries.remove(i);
            entries.insert(i, (key, value));
            let ghost after = Seq::new(entries@.len(), |j: int| (entries@[j].0@, entries@[j].1@));
            proof {
                assert(after =~= before.update(i as int, (key@, value@)));
                lemma_set_entry(before, i as int, value@);
            }
            self.entries = entries;
            assert(self.items() =~= after);
        } else {
            self.add_new(key, value);
        }
    }

    /// Replaces each value by what `step` makes of it, and drops the entries for
    /// which that is nothing. `f` says of the views what `step` does.
    pub(crate) fn refine<F: Fn(V) -> Option<V>>(
        &mut self,
        step: F,
        Ghost(f): Ghost<spec_fn(V::V) -> Option<V::V>>,
    )
        requires
            forall|v: V| #[trigger] call_requires(step, (v,)),
            forall|v: V, r: Option<V>| #[trigger]
                call_ensures(step, (v,), r) ==> match r {
                    Some(w) => f(v@) == Some(w@),
                    None => f(v@) is None,
                },
        ensures
            final(self)@ == refined(old(self)@, f),
    {
        let ghost before = self@;
        let mut kept: Table<K, V> = Table::new();
        let mut left: usize = self.len();
        while left > 0
            invariant
                forall|v: V| #[trigger] call_requires(step, (v,)),
                forall|v: V, r: Option<V>| #[trigger]
                    call_ensures(step, (v,), r) ==> match r {
                        Some(w) => f(v@) == Some(w@),
                        None => f(v@) is None,
                    },
                left == self.items().len(),
                self@.dom().finite(),
                self@.dom().len() == left,
                forall|i: int|
                    0 <= i < self.items().len() ==> self@.contains_key(
                        (#[trigger] self.items()[i]).0,
                    ) && self@[self.items()[i].0] == self.items()[i].1,
                forall|k: K::V| #[trigger]
                    self@.contains_key(k) ==> before.contains_key(k) && before[k] == self@[k],
                forall|k: K::V| #[trigger]
                    kept@.contains_key(k) ==> before.contains_key(k) && !self@.contains_key(k)
                        && f(before[k]) == Some(kept@[k]),
                forall|k: K::V| #[trigger]
                    before.contains_key(k) ==> self@.contains_key(k) || kept@.contains_key(k)
                        == f(before[k]) is Some,
            decreases left,
        {
            let (key, value) = self.take_at(left - 1);
            assert(before.contains_key(key@));
            if let Some(value) = step(value) {
                kept.add_new(key, value);
            }
            left = self.len();
        }
        assert(self@.dom() =~= Set::empty());
        assert(kept@ =~= refined(before, f));
        *self = kept;
    }
}

impl<K: Key, V: View> View for Table<K, V> {
    type V = Map<K::V, V::V>;

    closed spec fn view(&self) -> Map<K::V, V::V> {
        map_of(self.items())
    }
}

/// Removing one of the entries removes its key.
pub proof fn lemma_remove_entry<A, B>(entries: Seq<(A, B)>, i: int)
    requires
        keys_of(entries).no_duplicates(),
        0 <= i < entries.len(),
    ensures
        keys_of(entries.remove(i)).no_duplicates(),
        map_of(entries.remove(i)) == map_of(entries).remove(entries[i].0),
{
    let keys = keys_of(entries);
    let rest = entries.remove(i);
    let rest_keys = keys_of(rest);
    assert forall|a: int, b: int| 0 <= a < b < rest.len() implies rest_keys[a] != rest_keys[b] by {
        let a0 = if a < i { a } else { a + 1 };
        let b0 = if b < i { b } else { b + 1 };
        assert(rest_keys[a] == keys[a0]);
        assert(rest_keys[b] == keys[b0]);
    }
    lemma_map_of(entries);
    lemma_map_of(rest);
    let m = map_of(entries).remove(entries[i].0);
    assert forall|k: A| #[trigger] map_of(rest).contains_key(k) implies m.contains_key(k) && m[k] == map_of(
        rest,
    )[k] by {
        let j = choose|j: int| 0 <= j < rest.len() && rest[j] == (k, map_of(rest)[k]);
        let j0 = if j < i { j } else { j + 1 };
        assert(entries[j0] == rest[j]);
        assert(keys[j0] == k && keys[i] == entries[i].0);
    }
    assert forall|k: A| #[trigger] m.contains_key(k) implies map_of(rest).contains_key(k) by {
        let j = choose|j: int| 0 <= j < entries.len() && entries[j] == (k, map_of(entries)[k]);
        let j0 = if j < i { j } else { j - 1 };
        assert(rest[j0] == entries[j]);
    }
    assert(map_of(rest) =~= m);
}

/// Changing the value of one entry changes it for its key.
pub proof fn lemma_set_entry<A, B>(entries: Seq<(A, B)>, i: int, value: B)
    requires
        keys_of(entries).no_duplicates(),
        0 <= i < entries.len(),
    ensures
        keys_of(entries.update(i, (entries[i].0, value))).no_duplicates(),
        map_of(entries.update(i, (entries[i].0, value))) == map_of(entries).insert(
            entries[i].0,
            value,
        ),
{
    let after = entries.update(i, (entries[i].0, value));
    assert(keys_of(after) =~= keys_of(entries));
    lemma_map_of(entries);
    lemma_map_of(after);
    let m = map_of(entries).insert(entries[i].0, value);
    assert forall|k: A| #[trigger] map_of(after).contains_key(k) implies m.contains_key(k) && m[k] == map_of(
        after,
    )[k] by {
        let j = choose|j: int| 0 <= j < after.len() && after[j] == (k, map_of(after)[k]);
        assert(keys_of(entries)[j] == k && keys_of(entries)[i] == entries[i].0);
        assert(entries[j].0 == k);
    }
    assert forall|k: A| #[trigger] m.contains_key(k) implies map_of(after).contains_key(k) by {
        if k == entries[i].0 {
            assert(after[i].0 == k);
        } else {
            let j = choose|j: int| 0 <= j < entries.len() && entries[j] == (k, map_of(entries)[k]);
            assert(after[j].0 == k);
        }
    }
    assert(map_of(after) =~= m);
}

/// Adding an entry under a new key adds the key.
pub proof fn lemma_push_entry<A, B>(entries: Seq<(A, B)>, key: A, value: B)
    requires
        keys_of(entries).no_duplicates(),
        !map_of(entries).contains_key(key),
    ensures
        keys_of(entries.push((key, value))).no_duplicates(),
        map_of(entries.push((key, value))) == map_of(entries).insert(key, value),
{
    let after = entries.push((key, value));
    lemma_map_of(entries);
    assert forall|a: int, b: int| 0 <= a < b < after.len() implies keys_of(after)[a] != keys_of(
        after,
    )[b] by {
        assert(entries[a].0 == keys_of(after)[a]);
        if b < entries.len() {
            assert(keys_of(entries)[a] != keys_of(entries)[b]);
        }
    }
    lemma_map_of(after);
    let m = map_of(entries).insert(key, value);
    assert forall|k: A| #[trigger] map_of(after).contains_key(k) implies m.contains_key(k) && m[k] == map_of(
        after,
    )[k] by {
        let j = choose|j: int| 0 <= j < after.len() && after[j] == (k, map_of(after)[k]);
        if j < entries.len() {
            assert(entries[j].0 == k);
        }
    }
    assert forall|k: A| #[trigger] m.contains_key(k) implies map_of(after).contains_key(k) by {
        if k == key {
            assert(after[entries.len() as int].0 == k);
        } else {
            let j = choose|j: int| 0 <= j < entries.len() && entries[j] == (k, map_of(entries)[k]);
            assert(after[j].0 == k);
        }
    }
    assert(map_of(after) =~= m);
}

} // verus!
