//! Collecting identifiers out of tables.

use crate::id_set::{IdSet, lemma_take_to_set};
use crate::plain::Plain;
use crate::table::Table;
use vstd::prelude::*;

verus! {

/// The identifiers that `pick` finds in some value of `map`.
pub open spec fn gathered<B>(
    map: Map<Seq<char>, B>,
    pick: spec_fn(B) -> Set<Seq<char>>,
) -> Set<Seq<char>> {
    Set::new(
        |id: Seq<char>|
            exists|key: Seq<char>| #[trigger] map.contains_key(key) && pick(map[key]).contains(id),
    )
}

/// `map` without the value of `except`, where that is given.
pub open spec fn all_but<B>(
    map: Map<Seq<char>, B>,
    except: Option<Seq<char>>,
) -> Map<Seq<char>, B> {
    match except {
        Some(key) => map.remove(key),
        None => map,
    }
}

/// One more key is gathered.
pub proof fn lemma_gathered_step<B>(
    map: Map<Seq<char>, B>,
    except: Option<Seq<char>>,
    pick: spec_fn(B) -> Set<Seq<char>>,
    keys: Seq<Seq<char>>,
    index: int,
)
    requires
        0 <= index < keys.len(),
        forall|key: Seq<char>| map.contains_key(key) <==> keys.contains(key),
    ensures
        gathered(all_but(map.restrict(keys.take(index + 1).to_set()), except), pick)
            =~= if except == Some(keys[index]) {
            gathered(all_but(map.restrict(keys.take(index).to_set()), except), pick)
        } else {
            gathered(all_but(map.restrict(keys.take(index).to_set()), except), pick).union(
                pick(map[keys[index]]),
            )
        },
{
    lemma_take_to_set(keys, index);
    let short = all_but(map.restrict(keys.take(index).to_set()), except);
    let long = all_but(map.restrict(keys.take(index + 1).to_set()), except);
    assert(keys.contains(keys[index]));
    if except == Some(keys[index]) {
        assert(long =~= short);
    } else {
        assert(long =~= short.insert(keys[index], map[keys[index]]));
        assert forall|id: Seq<char>| gathered(long, pick).contains(id) <==> gathered(
            short,
            pick,
        ).union(pick(map[keys[index]])).contains(id) by {
            if gathered(long, pick).contains(id) {
                let key = choose|key: Seq<char>| #[trigger]
                    long.contains_key(key) && pick(long[key]).contains(id);
                if key != keys[index] {
                    assert(short.contains_key(key));
                }
            }
            if gathered(short, pick).contains(id) {
                let key = choose|key: Seq<char>| #[trigger]
                    short.contains_key(key) && pick(short[key]).contains(id);
                assert(long.contains_key(key));
                assert(long[key] == short[key]);
            }
            if pick(map[keys[index]]).contains(id) {
                assert(long.contains_key(keys[index]));
            }
        }
    }
}

/// Nothing is gathered from no keys, and everything from all.
pub proof fn lemma_gathered_ends<B>(
    map: Map<Seq<char>, B>,
    except: Option<Seq<char>>,
    pick: spec_fn(B) -> Set<Seq<char>>,
    keys: Seq<Seq<char>>,
)
    requires
        forall|key: Seq<char>| map.contains_key(key) <==> keys.contains(key),
    ensures
        gathered(all_but(map.restrict(keys.take(0).to_set()), except), pick) =~= Set::<
            Seq<char>,
        >::empty(),
        map.restrict(keys.take(keys.len() as int).to_set()) =~= map,
{
    assert(keys.take(keys.len() as int) =~= keys);
    assert(keys.take(0).len() == 0);
    assert forall|key: Seq<char>| map.contains_key(key) implies keys.to_set().contains(key) by {
        assert(keys.contains(key));
    }
    assert(all_but(map.restrict(keys.take(0).to_set()), except) =~= Map::<Seq<char>, B>::empty());
}

pub(crate) fn add_keys<V: Plain>(ids: &mut IdSet, table: &Table<String, V>)
    ensures
        final(ids)@ == old(ids)@.union(table@.dom()),
{
    let count: usize = table.len();
    let ghost keys = table.keys();
    let ghost before = ids@;
    proof {
        assert(keys.take(0).to_set() =~= Set::<Seq<char>>::empty());
    }
    for index in 0..count
        invariant
            count == keys.len(),
            keys == table.keys(),
            ids@ =~= before.union(keys.take(index as int).to_set()),
    {
        proof {
            lemma_take_to_set(keys, index as int);
        }
        let _ = ids.insert(table.key_at(index).clone());
    }
    proof {
        assert(keys.take(count as int) =~= keys);
        assert(keys.to_set() =~= table@.dom());
    }
}

/// Adds the identifiers in `list` to `ids`.
pub(crate) fn add_listed(ids: &mut IdSet, list: &Vec<String>)
    ensures
        final(ids)@ == old(ids)@.union(list.deep_view().to_set()),
{
    let ghost all = list.deep_view();
    let ghost before = ids@;
    proof {
        assert(all.take(0).to_set() =~= Set::<Seq<char>>::empty());
    }
    for index in 0..list.len()
        invariant
            all == list.deep_view(),
            ids@ =~= before.union(all.take(index as int).to_set()),
    {
        proof {
            lemma_take_to_set(all, index as int);
            assert(all[index as int] == list[index as int]@);
        }
        let _ = ids.insert(list[index].clone());
    }
    proof {
        assert(all.take(all.len() as int) =~= all);
    }
}

/// What is found in some values of a map is found in all of them, also by a pick that finds more.
pub proof fn lemma_gathered_grows<B>(
    short: Map<Seq<char>, B>,
    long: Map<Seq<char>, B>,
    pick: spec_fn(B) -> Set<Seq<char>>,
    wider: spec_fn(B) -> Set<Seq<char>>,
)
    requires
        forall|key: Seq<char>| #[trigger]
            short.contains_key(key) ==> long.contains_key(key) && long[key] == short[key],
        forall|value: B, id: Seq<char>| #[trigger]
            pick(value).contains(id) ==> wider(value).contains(id),
    ensures
        gathered(short, pick).subset_of(gathered(long, wider)),
{
    assert forall|id: Seq<char>| gathered(short, pick).contains(id) implies gathered(
        long,
        wider,
    ).contains(id) by {
        let key = choose|key: Seq<char>| #[trigger]
            short.contains_key(key) && pick(short[key]).contains(id);
        assert(long.contains_key(key));
    }
}

} // verus!
