//! An association table: at most one value for each key.

use crate::plain::Plain;
use vstd::prelude::*;

verus! {

struct Entry<K, V> {
    key: K,
    value: V,
}

/// A finite map whose keys and values are known through their views.
pub struct Table<K: Plain, V: Plain> {
    entries: Vec<Entry<K, V>>,
}

spec fn entry_keys<K: Plain, V: Plain>(entries: Seq<Entry<K, V>>) -> Seq<K::V> {
    Seq::new(entries.len(), |i: int| entries[i].key.deep_view())
}

spec fn entry_values<K: Plain, V: Plain>(entries: Seq<Entry<K, V>>) -> Seq<V::V> {
    Seq::new(entries.len(), |i: int| entries[i].value.deep_view())
}

/// The map that pairs `keys[i]` with `values[i]`.
pub open spec fn zip_map<A, B>(keys: Seq<A>, values: Seq<B>) -> Map<A, B> {
    Map::new(|key: A| keys.contains(key), |key: A| values[keys.index_of(key)])
}

impl<K: Plain, V: Plain> DeepView for Table<K, V> {
    type V = Map<K::V, V::V>;

    open spec fn deep_view(&self) -> Map<K::V, V::V> {
        zip_map(self.keys(), self.values())
    }
}

impl<K: Plain, V: Plain> View for Table<K, V> {
    type V = Map<K::V, V::V>;

    #[verifier::inline]
    open spec fn view(&self) -> Map<K::V, V::V> {
        self.deep_view()
    }
}

pub proof fn lemma_index_of<A>(keys: Seq<A>, index: int)
    requires
        keys.no_duplicates(),
        0 <= index < keys.len(),
    ensures
        keys.contains(keys[index]),
        keys.index_of(keys[index]) == index,
{
    let found = keys.index_of(keys[index]);
    assert(0 <= found < keys.len() && keys[found] == keys[index]);
}

impl<K: Plain, V: Plain> Table<K, V> {
    /// The keys, in the order in which `key_at` shows them.
    pub closed spec fn keys(self) -> Seq<K::V> {
        entry_keys(self.entries@)
    }

    /// The values, in the order in which `value_at` shows them.
    pub closed spec fn values(self) -> Seq<V::V> {
        entry_values(self.entries@)
    }

    #[verifier::type_invariant]
    spec fn distinct(self) -> bool {
        entry_keys(self.entries@).no_duplicates()
    }

    pub fn new() -> (table: Self)
        ensures
            table@ == Map::<K::V, V::V>::empty(),
            table.keys() == Seq::<K::V>::empty(),
    {
        let table: Self = Table { entries: Vec::new() };
        proof {
            assert(table.keys() =~= Seq::<K::V>::empty());
            assert(table@ =~= Map::<K::V, V::V>::empty());
        }
        table
    }

    pub fn len(&self) -> (len: usize)
        ensures
            len == self.keys().len(),
            self.keys().len() == self.values().len(),
            self.keys().no_duplicates(),
    {
        proof {
            use_type_invariant(self);
        }
        self.entries.len()
    }

    pub fn is_empty(&self) -> (empty: bool)
        ensures
            empty == (self@ =~= Map::<K::V, V::V>::empty()),
    {
        let empty: bool = self.entries.len() == 0;
        proof {
            if !empty {
                assert(self.keys().contains(self.keys()[0]));
                assert(self@.contains_key(self.keys()[0]));
            }
        }
        empty
    }

    pub fn key_at(&self, index: usize) -> (key: &K)
        requires
            index < self.keys().len(),
        ensures
            key.deep_view() == self.keys()[index as int],
            self@.contains_key(key.deep_view()),
    {
        proof {
            assert(self.keys().contains(self.keys()[index as int]));
        }
        &self.entries[index].key
    }

    pub fn value_at(&self, index: usize) -> (value: &V)
        requires
            index < self.keys().len(),
        ensures
            self@.contains_key(self.keys()[index as int]),
            value.deep_view() == self@[self.keys()[index as int]],
    {
        proof {
            use_type_invariant(self);
            lemma_index_of(self.keys(), index as int);
        }
        &self.entries[index].value
    }

    fn position(&self, key: &K) -> (found: Option<usize>)
        ensures
            match found {
                Some(index) => index < self.keys().len() && self.keys()[index as int]
                    == key.deep_view(),
                None => !self.keys().contains(key.deep_view()),
            },
    {
        for index in 0..self.entries.len()
            invariant
                forall|i: int| 0 <= i < index ==> self.keys()[i] != key.deep_view(),
        {
            if self.entries[index].key.same_as(key) {
                return Some(index);
            }
        }
        None
    }

    pub fn get(&self, key: &K) -> (found: Option<&V>)
        ensures
            match found {
                Some(value) => self@.contains_key(key.deep_view()) && value.deep_view()
                    == self@[key.deep_view()],
                None => !self@.contains_key(key.deep_view()),
            },
    {
        match self.position(key) {
            Some(index) => Some(self.value_at(index)),
            None => None,
        }
    }

    pub fn contains_key(&self, key: &K) -> (found: bool)
        ensures
            found == self@.contains_key(key.deep_view()),
    {
        match self.position(key) {
            Some(index) => {
                proof {
                    assert(self.keys().contains(self.keys()[index as int]));
                }
                true
            },
            None => false,
        }
    }

    pub fn remove(&mut self, key: &K) -> (removed: Option<V>)
        ensures
            final(self)@ == old(self)@.remove(key.deep_view()),
            match removed {
                Some(value) => old(self)@.contains_key(key.deep_view()) && value.deep_view()
                    == old(self)@[key.deep_view()],
                None => !old(self)@.contains_key(key.deep_view()),
            },
    {
        proof {
            use_type_invariant(&*self);
        }
        let ghost before = *self;
        match self.position(key) {
            Some(index) => {
                let mut entries: Vec<Entry<K, V>> = Vec::new();
                std::mem::swap(&mut entries, &mut self.entries);
                let ghost kept = entries@;
                let entry = entries.swap_remove(index);
                proof {
                    lemma_swap_remove(before.keys(), before.values(), index as int);
                    let last = kept.last();
                    assert(entries@ =~= kept.update(index as int, last).drop_last());
                    assert(entry_keys(entries@) =~= before.keys().update(
                        index as int,
                        before.keys().last(),
                    ).drop_last());
                    assert(entry_values(entries@) =~= before.values().update(
                        index as int,
                        before.values().last(),
                    ).drop_last());
                    lemma_index_of(before.keys(), index as int);
                }
                self.entries = entries;
                Some(entry.value)
            },
            None => {
                proof {
                    assert(self@.remove(key.deep_view()) =~= self@);
                }
                None
            },
        }
    }

    pub fn insert(&mut self, key: K, value: V)
        ensures
            final(self)@ == old(self)@.insert(key.deep_view(), value.deep_view()),
    {
        let ghost before = *self;
        let _ = self.remove(&key);
        proof {
            use_type_invariant(&*self);
        }
        let ghost between = *self;
        let ghost new_key = key.deep_view();
        let ghost new_value = value.deep_view();
        let mut entries: Vec<Entry<K, V>> = Vec::new();
        std::mem::swap(&mut entries, &mut self.entries);
        entries.push(Entry { key, value });
        proof {
            assert(entry_keys(entries@) =~= between.keys().push(new_key));
            assert(entry_values(entries@) =~= between.values().push(new_value));
            assert(!between@.contains_key(new_key));
            lemma_push(between.keys(), between.values(), new_key, new_value);
        }
        self.entries = entries;
        proof {
            assert(self@ =~= before@.insert(new_key, new_value));
        }
    }
}

proof fn lemma_push<A, B>(keys: Seq<A>, values: Seq<B>, key: A, value: B)
    requires
        keys.no_duplicates(),
        keys.len() == values.len(),
        !keys.contains(key),
    ensures
        keys.push(key).no_duplicates(),
        zip_map(keys.push(key), values.push(value)) =~= zip_map(keys, values).insert(key, value),
{
    let longer = keys.push(key);
    assert forall|k: A| longer.contains(k) <==> (keys.contains(k) || k == key) by {
        if keys.contains(k) {
            let i = keys.index_of(k);
            assert(longer[i] == k);
        }
        if k == key {
            assert(longer[keys.len() as int] == k);
        }
    }
    lemma_index_of(longer, keys.len() as int);
    assert forall|k: A| keys.contains(k) implies longer.index_of(k) == keys.index_of(k) by {
        let i = keys.index_of(k);
        assert(longer[i] == k);
        lemma_index_of(longer, i);
    }
}

proof fn lemma_swap_remove<A, B>(keys: Seq<A>, values: Seq<B>, index: int)
    requires
        keys.no_duplicates(),
        keys.len() == values.len(),
        0 <= index < keys.len(),
    ensures
        keys.update(index, keys.last()).drop_last().no_duplicates(),
        zip_map(
            keys.update(index, keys.last()).drop_last(),
            values.update(index, values.last()).drop_last(),
        ) =~= zip_map(keys, values).remove(keys[index]),
{
    let last = keys.len() - 1;
    let shorter = keys.update(index, keys.last()).drop_last();
    let shorter_values = values.update(index, values.last()).drop_last();
    assert(shorter.no_duplicates());
    assert forall|k: A| shorter.contains(k) <==> (keys.contains(k) && k != keys[index]) by {
        if shorter.contains(k) {
            let i = shorter.index_of(k);
            if i == index {
                assert(keys[last] == k);
            } else {
                assert(keys[i] == k);
            }
        }
        if keys.contains(k) && k != keys[index] {
            let i = keys.index_of(k);
            if i == last {
                assert(shorter[index] == k);
            } else {
                assert(shorter[i] == k);
            }
        }
    }
    assert forall|k: A| shorter.contains(k) implies shorter_values[shorter.index_of(k)]
        == values[keys.index_of(k)] by {
        let i = keys.index_of(k);
        assert(keys[i] == k);
        if i == last {
            assert(shorter[index] == k);
            lemma_index_of(shorter, index);
        } else {
            assert(shorter[i] == k);
            lemma_index_of(shorter, i);
        }
    }
}

impl<K: Plain, V: Plain> Plain for Table<K, V> {
    fn duplicate(&self) -> (copy: Self) {
        proof {
            use_type_invariant(self);
        }
        let mut entries: Vec<Entry<K, V>> = Vec::new();
        for index in 0..self.entries.len()
            invariant
                entries@.len() == index,
                index <= self.entries@.len(),
                forall|i: int|
                    0 <= i < index ==> (#[trigger] entries@[i]).key.deep_view()
                        == self.entries@[i].key.deep_view() && entries@[i].value.deep_view()
                        == self.entries@[i].value.deep_view(),
        {
            entries.push(
                Entry {
                    key: self.entries[index].key.duplicate(),
                    value: self.entries[index].value.duplicate(),
                },
            );
        }
        proof {
            assert(entry_keys(entries@) =~= entry_keys(self.entries@));
            assert(entry_values(entries@) =~= entry_values(self.entries@));
        }
        Table { entries }
    }

    fn same_as(&self, other: &Self) -> (same: bool) {
        proof {
            use_type_invariant(self);
            use_type_invariant(other);
        }
        for index in 0..self.entries.len()
            invariant
                self.keys().no_duplicates(),
                forall|i: int|
                    0 <= i < index ==> other@.contains_key(#[trigger] self.keys()[i])
                        && other@[self.keys()[i]] == self.values()[i],
        {
            let matching: bool = match other.get(&self.entries[index].key) {
                Some(value) => value.same_as(&self.entries[index].value),
                None => false,
            };
            if !matching {
                proof {
                    lemma_index_of(self.keys(), index as int);
                    assert(self@.contains_key(self.keys()[index as int]));
                }
                return false;
            }
        }
        for index in 0..other.entries.len()
            invariant
                forall|i: int|
                    0 <= i < index ==> self@.contains_key(#[trigger] other.keys()[i]),
        {
            if !self.contains_key(&other.entries[index].key) {
                proof {
                    assert(other.keys().contains(other.keys()[index as int]));
                    assert(other@.contains_key(other.keys()[index as int]));
                }
                return false;
            }
        }
        proof {
            assert(self@ =~= other@);
        }
        true
    }
}

} // verus!
