//! A set of identifiers.

use crate::plain::Plain;
use crate::table::Table;
use vstd::prelude::*;

verus! {

pub struct IdSet {
    ids: Table<String, ()>,
}

impl DeepView for IdSet {
    type V = Set<Seq<char>>;

    closed spec fn deep_view(&self) -> Set<Seq<char>> {
        self.ids@.dom()
    }
}

impl View for IdSet {
    type V = Set<Seq<char>>;

    #[verifier::inline]
    open spec fn view(&self) -> Set<Seq<char>> {
        self.deep_view()
    }
}

impl IdSet {
    /// The identifiers, in the order in which `id_at` shows them.
    pub closed spec fn listed(self) -> Seq<Seq<char>> {
        self.ids.keys()
    }

    pub fn new() -> (set: Self)
        ensures
            set@ == Set::<Seq<char>>::empty(),
            set.listed() == Seq::<Seq<char>>::empty(),
    {
        let set: Self = IdSet { ids: Table::new() };
        proof {
            assert(set@ =~= Set::<Seq<char>>::empty());
        }
        set
    }

    pub fn len(&self) -> (len: usize)
        ensures
            len == self@.len(),
            len == self.listed().len(),
            self@.finite(),
            self.listed().no_duplicates(),
            self@ == self.listed().to_set(),
    {
        let len: usize = self.ids.len();
        proof {
            assert(self@ =~= self.listed().to_set());
            self.listed().unique_seq_to_set();
        }
        len
    }

    pub fn is_empty(&self) -> (empty: bool)
        ensures
            empty == (self@ == Set::<Seq<char>>::empty()),
    {
        let empty: bool = self.ids.is_empty();
        proof {
            if empty {
                assert(self@ =~= Set::<Seq<char>>::empty());
            } else if self@ == Set::<Seq<char>>::empty() {
                assert(self.ids@ =~= Map::<Seq<char>, ()>::empty());
            }
        }
        empty
    }

    pub fn id_at(&self, index: usize) -> (id: &String)
        requires
            index < self.listed().len(),
        ensures
            id@ == self.listed()[index as int],
            self@.contains(id@),
    {
        self.ids.key_at(index)
    }

    pub fn contains(&self, id: &String) -> (found: bool)
        ensures
            found == self@.contains(id@),
    {
        self.ids.contains_key(id)
    }

    /// Adds `id`, and says whether it was new.
    pub fn insert(&mut self, id: String) -> (added: bool)
        ensures
            final(self)@ == old(self)@.insert(id@),
            added == !old(self)@.contains(id@),
    {
        let added: bool = !self.ids.contains_key(&id);
        let ghost before = self.ids@;
        let ghost new_id = id@;
        self.ids.insert(id, ());
        proof {
            assert(self@ =~= before.dom().insert(new_id));
        }
        added
    }

    /// Takes `id` out, and says whether it was there.
    pub fn remove(&mut self, id: &String) -> (removed: bool)
        ensures
            final(self)@ == old(self)@.remove(id@),
            removed == old(self)@.contains(id@),
    {
        let removed: bool = self.ids.contains_key(id);
        let ghost before = self.ids@;
        let _ = self.ids.remove(id);
        proof {
            assert(self@ =~= before.dom().remove(id@));
        }
        removed
    }

    /// Adds every identifier of `other`.
    pub fn extend(&mut self, other: &IdSet)
        ensures
            final(self)@ == old(self)@.union(other@),
    {
        let count: usize = other.len();
        let ghost before = self@;
        for index in 0..count
            invariant
                count == other.listed().len(),
                self@ == before.union(other.listed().take(index as int).to_set()),
        {
            let _ = self.insert(other.id_at(index).clone());
            proof {
                lemma_take_to_set(other.listed(), index as int);
                assert(self@ =~= before.union(other.listed().take(index + 1).to_set()));
            }
        }
        proof {
            assert(other.listed().take(count as int) =~= other.listed());
        }
    }
}

/// The set of a prefix grows by the next element.
pub proof fn lemma_take_to_set<A>(items: Seq<A>, index: int)
    requires
        0 <= index < items.len(),
    ensures
        items.take(index + 1).to_set() =~= items.take(index).to_set().insert(items[index]),
{
    let short = items.take(index);
    let long = items.take(index + 1);
    assert(long =~= short.push(items[index]));
    assert forall|item: A| long.to_set().contains(item) <==> short.to_set().insert(
        items[index],
    ).contains(item) by {
        if long.contains(item) {
            let i = long.index_of(item);
            if i < index {
                assert(short[i] == item);
            }
        }
        if short.contains(item) {
            let i = short.index_of(item);
            assert(long[i] == item);
        }
        assert(long[index] == items[index]);
    }
}

impl Plain for IdSet {
    fn duplicate(&self) -> (copy: Self) {
        IdSet { ids: self.ids.duplicate() }
    }

    fn same_as(&self, other: &Self) -> (same: bool) {
        let same: bool = self.ids.same_as(&other.ids);
        proof {
            if self@ == other@ {
                assert(self.ids@ =~= other.ids@);
            }
        }
        same
    }
}

} // verus!
