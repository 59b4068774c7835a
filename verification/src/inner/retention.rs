//! Which tasks are forgotten, and what is written down of the others.

use crate::id_set::{IdSet, lemma_take_to_set};
use crate::inner::checkpoint::{consistent, lookup, options_at, under_own_ids};
use crate::inner::publication::{visible_outputs_of, visible_tasks_of};
use crate::model::basics::Timestamp;
use crate::model::dated::{DatedId, DatedIdView};
use crate::model::record::{PersistedTaskRecord, PersistedTaskRecordView};
use crate::model::state::{RegistryInner, RegistryInnerView};
use crate::model::task::TaskView;
use crate::model::visible::VisibleTaskOutputView;
use crate::ordered::{
    lemma_text_less_irreflexive, lemma_text_less_total, lemma_text_less_transitive, text_less,
    text_precedes,
};
use crate::plain::Plain;
use crate::timing::{
    TaskRetentionPolicy, earlier, is_earlier, is_retention_prunable_terminal_task, prunable,
    retention_time, terminal_task_age_exceeds, terminal_task_retention_timestamp, too_old,
};
use crate::visible_output::shown_after;
use vstd::prelude::*;

verus! {

/// Earlier, or at the same time and first by identifier.
pub open spec fn dated_less(
    left_at: Option<Timestamp>,
    left: Seq<char>,
    right_at: Option<Timestamp>,
    right: Seq<char>,
) -> bool {
    earlier(left_at, right_at) || (!earlier(right_at, left_at) && text_less(left, right))
}

spec fn dated_before(left: DatedIdView, right: DatedIdView) -> bool {
    dated_less(left.at, left.id, right.at, right.id)
}

spec fn dated_ascending(items: Seq<DatedIdView>) -> bool {
    forall|i: int, j: int|
        0 <= i < j < items.len() ==> dated_before(#[trigger] items[i], #[trigger] items[j])
}

proof fn lemma_dated_transitive(a: DatedIdView, b: DatedIdView, c: DatedIdView)
    requires
        dated_before(a, b),
        dated_before(b, c),
    ensures
        dated_before(a, c),
{
    if text_less(a.id, b.id) && text_less(b.id, c.id) {
        lemma_text_less_transitive(a.id, b.id, c.id);
    }
}

proof fn lemma_dated_irreflexive(a: DatedIdView)
    ensures
        !dated_before(a, a),
{
    lemma_text_less_irreflexive(a.id);
}

proof fn lemma_dated_total(a: DatedIdView, b: DatedIdView)
    ensures
        a.id == b.id || dated_before(a, b) || dated_before(b, a),
{
    lemma_text_less_total(a.id, b.id);
}

spec fn dated_ids(items: Seq<DatedIdView>) -> Seq<Seq<char>> {
    Seq::new(items.len(), |i: int| items[i].id)
}

fn is_dated_before(left: &DatedId, right: &DatedId) -> (before: bool)
    ensures
        before == dated_before(left@, right@),
{
    is_earlier(left.at, right.at) || (!is_earlier(right.at, left.at) && text_precedes(
        left.id.as_str(),
        right.id.as_str(),
    ))
}

fn insert_dated(items: &mut Vec<DatedId>, item: DatedId)
    requires
        dated_ascending(old(items).deep_view()),
        !dated_ids(old(items).deep_view()).contains(item@.id),
    ensures
        dated_ascending(final(items).deep_view()),
        exists|at: int|
            0 <= at <= old(items).deep_view().len() && #[trigger] old(items).deep_view().insert(
                at,
                item@,
            ) == final(items).deep_view(),
{
    let ghost before = items.deep_view();
    let ghost new_item = item@;
    let mut index: usize = 0;
    while index < items.len() && is_dated_before(&items[index], &item)
        invariant
            items.deep_view() == before,
            items@.len() == before.len(),
            index <= items.len(),
            new_item == item@,
            forall|i: int| 0 <= i < index ==> dated_before(#[trigger] before[i], new_item),
        decreases items.len() - index,
    {
        index = index + 1;
    }
    items.insert(index, item);
    proof {
        let after = items.deep_view();
        assert(after =~= before.insert(index as int, new_item));
        assert forall|j: int| index <= j < before.len() implies dated_before(
            new_item,
            #[trigger] before[j],
        ) by {
            assert(dated_ids(before)[index as int] == before[index as int].id);
            assert(before[index as int].id != new_item.id);
            lemma_dated_total(before[index as int], new_item);
            if j > index {
                lemma_dated_transitive(new_item, before[index as int], before[j]);
            }
        }
        assert forall|i: int, j: int| 0 <= i < j < after.len() implies dated_before(
            #[trigger] after[i],
            #[trigger] after[j],
        ) by {
            let old_i = if i < index { i } else { i - 1 };
            let old_j = if j < index { j } else { j - 1 };
            if i == index {
                assert(after[j] == before[old_j]);
            } else if j == index {
                assert(after[i] == before[old_i]);
            } else {
                assert(after[i] == before[old_i]);
                assert(after[j] == before[old_j]);
            }
        }
    }
}

proof fn lemma_inserted_ids(items: Seq<DatedIdView>, at: int, item: DatedIdView)
    requires
        0 <= at <= items.len(),
    ensures
        dated_ids(items.insert(at, item)).to_set() =~= dated_ids(items).to_set().insert(item.id),
{
    let before = dated_ids(items);
    let after = dated_ids(items.insert(at, item));
    assert forall|id: Seq<char>| after.to_set().contains(id) <==> before.to_set().insert(
        item.id,
    ).contains(id) by {
        if after.contains(id) {
            let i = after.index_of(id);
            if i != at {
                assert(before[if i < at { i } else { i - 1 }] == id);
            }
        }
        if before.contains(id) {
            let i = before.index_of(id);
            assert(after[if i < at { i } else { i + 1 }] == id);
        }
        assert(after[at] == item.id);
    }
}

proof fn lemma_ascending_distinct(items: Seq<DatedIdView>)
    requires
        dated_ascending(items),
        forall|i: int, j: int|
            0 <= i < items.len() && 0 <= j < items.len() && (#[trigger] items[i]).id == (
            #[trigger] items[j]).id ==> items[i] == items[j],
    ensures
        dated_ids(items).no_duplicates(),
{
    assert forall|i: int, j: int|
        0 <= i < dated_ids(items).len() && 0 <= j < dated_ids(items).len() && i != j implies dated_ids(
        items,
    )[i] != dated_ids(items)[j] by {
        if items[i].id == items[j].id {
            lemma_dated_irreflexive(items[i]);
            if i < j {
                assert(dated_before(items[i], items[j]));
            } else {
                assert(dated_before(items[j], items[i]));
            }
        }
    }
}

/// The tasks that may be forgotten.
pub open spec fn prunable_ids(tasks: Map<Seq<char>, TaskView>) -> Set<Seq<char>> {
    Set::new(|id: Seq<char>| tasks.contains_key(id) && prunable(tasks[id]))
}

/// Those of them that are too old.
pub open spec fn aged_ids(
    tasks: Map<Seq<char>, TaskView>,
    policy: TaskRetentionPolicy,
    now: Timestamp,
) -> Set<Seq<char>> {
    match policy.max_terminal_task_age {
        Some(max_age) => prunable_ids(tasks).filter(
            |id: Seq<char>| too_old(tasks[id], now, max_age),
        ),
        None => Set::empty(),
    }
}

/// The finished task `left` stands before `right` in the order of ageing.
pub open spec fn ages_before(
    tasks: Map<Seq<char>, TaskView>,
    left: Seq<char>,
    right: Seq<char>,
) -> bool {
    dated_less(retention_time(tasks[left]), left, retention_time(tasks[right]), right)
}

/// How many of `ids` stand before `id` in the order of ageing.
pub open spec fn age_rank(
    tasks: Map<Seq<char>, TaskView>,
    ids: Set<Seq<char>>,
    id: Seq<char>,
) -> nat {
    ids.filter(|other: Seq<char>| ages_before(tasks, other, id)).len()
}

/// The oldest of `ids`, so many that at most `limit` are left.
pub open spec fn surplus_ids(
    tasks: Map<Seq<char>, TaskView>,
    ids: Set<Seq<char>>,
    limit: Option<usize>,
) -> Set<Seq<char>> {
    match limit {
        Some(limit) => ids.filter(
            |id: Seq<char>| age_rank(tasks, ids, id) < ids.len() - limit,
        ),
        None => Set::empty(),
    }
}

/// The tasks that are forgotten: those that are too old, and of the rest the oldest ones beyond
/// the number that is kept.
pub open spec fn forgotten_ids(
    tasks: Map<Seq<char>, TaskView>,
    policy: TaskRetentionPolicy,
    now: Timestamp,
) -> Set<Seq<char>> {
    let aged = aged_ids(tasks, policy, now);
    aged.union(
        surplus_ids(tasks, prunable_ids(tasks).difference(aged), policy.max_terminal_tasks),
    )
}

/// In a list in the order of ageing, a task's rank is its place.
proof fn lemma_rank_is_place(
    tasks: Map<Seq<char>, TaskView>,
    items: Seq<DatedIdView>,
    index: int,
)
    requires
        dated_ascending(items),
        dated_ids(items).no_duplicates(),
        forall|i: int|
            0 <= i < items.len() ==> (#[trigger] items[i]).at == retention_time(tasks[items[i].id]),
        0 <= index < items.len(),
    ensures
        age_rank(tasks, dated_ids(items).to_set(), items[index].id) == index,
{
    let ids = dated_ids(items);
    let set = ids.to_set();
    let id = items[index].id;
    let earlier_ones = set.filter(|other: Seq<char>| ages_before(tasks, other, id));
    let prefix = ids.take(index);
    assert forall|other: Seq<char>| earlier_ones.contains(other) <==> prefix.to_set().contains(
        other,
    ) by {
        if earlier_ones.contains(other) {
            assert(ids.contains(other));
            let i = ids.index_of(other);
            assert(items[i].id == other);
            assert(dated_before(items[i], items[index]));
            if i == index {
                lemma_dated_irreflexive(items[i]);
            }
            if i > index {
                assert(dated_before(items[index], items[i]));
                lemma_dated_transitive(items[i], items[index], items[i]);
                lemma_dated_irreflexive(items[i]);
            }
            assert(prefix[i] == other);
        }
        if prefix.contains(other) {
            let i = prefix.index_of(other);
            assert(ids[i] == other);
            assert(items[i].id == other);
            assert(dated_before(items[i], items[index]));
        }
    }
    assert(earlier_ones =~= prefix.to_set());
    assert(prefix.no_duplicates()) by {
        assert forall|i: int, j: int|
            0 <= i < prefix.len() && 0 <= j < prefix.len() && i != j implies prefix[i]
            != prefix[j] by {
            assert(ids[i] != ids[j]);
        }
    }
    prefix.unique_seq_to_set();
}

/// What is written down of the task `id`.
pub open spec fn record_of(state: RegistryInnerView, id: Seq<char>) -> PersistedTaskRecordView {
    PersistedTaskRecordView {
        task: state.tasks_by_id[id],
        options: options_at(state.download_options_by_id, id),
        playback_options: options_at(state.playback_options_by_id, id),
        request_context: None,
        bilibili_candidates: Seq::empty(),
        output: state.outputs_by_task_id[id],
    }
}

/// `records` holds what is written down of each of the tasks `ids`, oldest first.
pub open spec fn records_of(
    records: Seq<PersistedTaskRecordView>,
    state: RegistryInnerView,
    ids: Set<Seq<char>>,
) -> bool {
    &&& forall|i: int|
        0 <= i < records.len() ==> ids.contains((#[trigger] records[i]).task.id) && records[i]
            == record_of(state, records[i].task.id)
    &&& forall|i: int, j: int|
        0 <= i < j < records.len() ==> dated_less(
            (#[trigger] records[i]).task.created_at,
            records[i].task.id,
            (#[trigger] records[j]).task.created_at,
            records[j].task.id,
        )
    &&& forall|id: Seq<char>|
        ids.contains(id) ==> exists|i: int|
            0 <= i < records.len() && (#[trigger] records[i]).task.id == id
}

/// `state` without the tasks `ids`.
pub open spec fn without_tasks(state: RegistryInnerView, ids: Set<Seq<char>>) -> RegistryInnerView {
    RegistryInnerView {
        tasks_by_id: state.tasks_by_id.remove_keys(ids),
        outputs_by_task_id: state.outputs_by_task_id.remove_keys(ids),
        download_options_by_id: state.download_options_by_id.remove_keys(ids),
        playback_options_by_id: state.playback_options_by_id.remove_keys(ids),
        running_cancellations_by_id: state.running_cancellations_by_id.remove_keys(ids),
        planning_cancellations_by_id: state.planning_cancellations_by_id.remove_keys(ids),
        ..state
    }
}

impl RegistryInner {
    pub fn terminal_task_ids_to_prune(
        &self,
        policy: &TaskRetentionPolicy,
        now: &Timestamp,
    ) -> (prune_ids: IdSet)
        requires
            consistent(self@),
        ensures
            prune_ids@ == forgotten_ids(self@.tasks_by_id, *policy, *now),
    {
        let ghost tasks = self@.tasks_by_id;
        let ghost aged = aged_ids(tasks, *policy, *now);
        let ghost rest_ids = prunable_ids(tasks).difference(aged);
        let mut prune_ids = IdSet::new();
        let mut rest: Vec<DatedId> = Vec::new();
        let count: usize = self.tasks_by_id.len();
        let ghost keys = self.tasks_by_id.keys();
        proof {
            assert(dated_ids(rest.deep_view()).to_set() =~= Set::<Seq<char>>::empty());
        }
        for index in 0..count
            invariant
                consistent(self@),
                tasks == self@.tasks_by_id,
                aged == aged_ids(tasks, *policy, *now),
                rest_ids == prunable_ids(tasks).difference(aged),
                count == keys.len(),
                keys == self.tasks_by_id.keys(),
                keys.no_duplicates(),
                prune_ids@ =~= aged.intersect(keys.take(index as int).to_set()),
                dated_ascending(rest.deep_view()),
                dated_ids(rest.deep_view()).to_set() =~= rest_ids.intersect(
                    keys.take(index as int).to_set(),
                ),
                forall|i: int|
                    0 <= i < rest.deep_view().len() ==> (#[trigger] rest.deep_view()[i]).at
                        == retention_time(tasks[rest.deep_view()[i].id]),
        {
            proof {
                lemma_take_to_set(keys, index as int);
            }
            let id = self.tasks_by_id.key_at(index);
            let task = self.tasks_by_id.value_at(index);
            if is_retention_prunable_terminal_task(task) {
                let is_aged: bool = match policy.max_terminal_task_age {
                    Some(max_age) => terminal_task_age_exceeds(task, now, max_age),
                    None => false,
                };
                if is_aged {
                    let _ = prune_ids.insert(id.clone());
                } else {
                    let item = DatedId {
                        at: terminal_task_retention_timestamp(task),
                        id: id.clone(),
                    };
                    let ghost before = rest.deep_view();
                    let ghost new_item = item@;
                    proof {
                        if dated_ids(before).contains(id@) {
                            assert(dated_ids(before).to_set().contains(id@));
                            assert(keys.take(index as int).contains(id@));
                            let i = keys.take(index as int).index_of(id@);
                            assert(keys[i] == keys[index as int]);
                        }
                    }
                    insert_dated(&mut rest, item);
                    proof {
                        let at = choose|at: int|
                            0 <= at <= before.len() && #[trigger] before.insert(at, new_item)
                                == rest.deep_view();
                        lemma_inserted_ids(before, at, new_item);
                        assert forall|i: int| 0 <= i < rest.deep_view().len() implies (
                        #[trigger] rest.deep_view()[i]).at == retention_time(
                            tasks[rest.deep_view()[i].id],
                        ) by {
                            if i < at {
                                assert(rest.deep_view()[i] == before[i]);
                            } else if i > at {
                                assert(rest.deep_view()[i] == before[i - 1]);
                            }
                        }
                    }
                }
            }
        }
        let ghost items = rest.deep_view();
        proof {
            assert(keys.take(count as int) =~= keys);
            assert forall|id: Seq<char>| prunable_ids(tasks).contains(id) implies keys.to_set().contains(
                id,
            ) by {
                assert(tasks.contains_key(id));
            }
            assert(aged.intersect(keys.to_set()) =~= aged);
            assert(rest_ids.intersect(keys.to_set()) =~= rest_ids);
            assert(dated_ids(items).to_set() =~= rest_ids);
            lemma_ascending_distinct(items);
            dated_ids(items).unique_seq_to_set();
        }
        if let Some(limit) = policy.max_terminal_tasks {
            if rest.len() > limit {
                let remove_count: usize = rest.len() - limit;
                let ghost ids = dated_ids(items);
                for index in 0..remove_count
                    invariant
                        remove_count <= rest@.len(),
                        items == rest.deep_view(),
                        ids == dated_ids(items),
                        prune_ids@ =~= aged.union(ids.take(index as int).to_set()),
                {
                    let _ = prune_ids.insert(rest[index].id.clone());
                    proof {
                        assert(ids[index as int] == rest[index as int].id@);
                        lemma_take_to_set(ids, index as int);
                    }
                }
                proof {
                    let surplus = surplus_ids(tasks, rest_ids, Some(limit));
                    let chosen = ids.take(remove_count as int);
                    assert forall|id: Seq<char>| surplus.contains(id) <==> chosen.to_set().contains(
                        id,
                    ) by {
                        if rest_ids.contains(id) {
                            assert(ids.contains(id));
                            let i = ids.index_of(id);
                            lemma_rank_is_place(tasks, items, i);
                            if i < remove_count {
                                assert(chosen[i] == id);
                            }
                            if chosen.contains(id) {
                                let j = chosen.index_of(id);
                                assert(ids[j] == ids[i]);
                            }
                        }
                        if chosen.contains(id) {
                            let j = chosen.index_of(id);
                            assert(ids[j] == id);
                            assert(ids.to_set().contains(id));
                        }
                    }
                    assert(surplus =~= chosen.to_set());
                }
            } else {
                proof {
                    assert(surplus_ids(tasks, rest_ids, Some(limit)) =~= Set::<Seq<char>>::empty());
                    assert(prune_ids@ =~= forgotten_ids(tasks, *policy, *now));
                }
            }
        } else {
            proof {
                assert(prune_ids@ =~= forgotten_ids(tasks, *policy, *now));
            }
        }
        prune_ids
    }

    /// What is written down of all tasks but `left_out`, oldest first.
    pub fn persisted_records(&self, left_out: &IdSet) -> (records: Vec<PersistedTaskRecord>)
        requires
            consistent(self@),
        ensures
            records_of(
                records.deep_view(),
                self@,
                self@.tasks_by_id.dom().difference(left_out@),
            ),
    {
        let ghost tasks = self@.tasks_by_id;
        let ghost kept = tasks.dom().difference(left_out@);
        let mut order: Vec<DatedId> = Vec::new();
        let count: usize = self.tasks_by_id.len();
        let ghost keys = self.tasks_by_id.keys();
        proof {
            assert(dated_ids(order.deep_view()).to_set() =~= Set::<Seq<char>>::empty());
        }
        for index in 0..count
            invariant
                tasks == self@.tasks_by_id,
                kept == tasks.dom().difference(left_out@),
                count == keys.len(),
                keys == self.tasks_by_id.keys(),
                keys.no_duplicates(),
                dated_ascending(order.deep_view()),
                dated_ids(order.deep_view()).to_set() =~= kept.intersect(
                    keys.take(index as int).to_set(),
                ),
                forall|i: int|
                    0 <= i < order.deep_view().len() ==> (#[trigger] order.deep_view()[i]).at
                        == tasks[order.deep_view()[i].id].created_at,
        {
            proof {
                lemma_take_to_set(keys, index as int);
            }
            let id = self.tasks_by_id.key_at(index);
            if !left_out.contains(id) {
                let item = DatedId {
                    at: self.tasks_by_id.value_at(index).created_at,
                    id: id.clone(),
                };
                let ghost before = order.deep_view();
                let ghost new_item = item@;
                proof {
                    if dated_ids(before).contains(id@) {
                        assert(dated_ids(before).to_set().contains(id@));
                        assert(keys.take(index as int).contains(id@));
                        let i = keys.take(index as int).index_of(id@);
                        assert(keys[i] == keys[index as int]);
                    }
                }
                insert_dated(&mut order, item);
                proof {
                    let at = choose|at: int|
                        0 <= at <= before.len() && #[trigger] before.insert(at, new_item)
                            == order.deep_view();
                    lemma_inserted_ids(before, at, new_item);
                    assert forall|i: int| 0 <= i < order.deep_view().len() implies (
                    #[trigger] order.deep_view()[i]).at == tasks[order.deep_view()[i].id].created_at by {
                        if i < at {
                            assert(order.deep_view()[i] == before[i]);
                        } else if i > at {
                            assert(order.deep_view()[i] == before[i - 1]);
                        }
                    }
                }
            }
        }
        let ghost items = order.deep_view();
        proof {
            assert(keys.take(count as int) =~= keys);
            assert(keys.to_set() =~= tasks.dom());
            assert(dated_ids(items).to_set() =~= kept);
        }
        let mut records: Vec<PersistedTaskRecord> = Vec::new();
        for index in 0..order.len()
            invariant
                consistent(self@),
                tasks == self@.tasks_by_id,
                items == order.deep_view(),
                dated_ids(items).to_set() =~= tasks.dom().difference(left_out@),
                records@.len() == index,
                forall|i: int|
                    0 <= i < index ==> #[trigger] records@[i]@ == record_of(self@, items[i].id),
        {
            let id = &order[index].id;
            proof {
                assert(items[index as int].id == id@);
                assert(dated_ids(items)[index as int] == id@);
                assert(dated_ids(items).to_set().contains(id@));
            }
            let task = self.tasks_by_id.get(id);
            let output = self.outputs_by_task_id.get(id);
            if let (Some(task), Some(output)) = (task, output) {
                let options = match self.download_options_by_id.get(id) {
                    Some(options) => options.duplicate(),
                    None => None,
                };
                let playback_options = match self.playback_options_by_id.get(id) {
                    Some(options) => options.duplicate(),
                    None => None,
                };
                let record = PersistedTaskRecord {
                    task: task.duplicate(),
                    options,
                    playback_options,
                    request_context: None,
                    bilibili_candidates: Vec::new(),
                    output: output.duplicate(),
                };
                proof {
                    assert(record.bilibili_candidates.deep_view() =~= Seq::empty());
                }
                records.push(record);
            }
        }
        proof {
            let all = records.deep_view();
            assert forall|i: int| 0 <= i < all.len() implies kept.contains(
                (#[trigger] all[i]).task.id,
            ) && all[i] == record_of(self@, all[i].task.id) && all[i].task.id == items[i].id
                && all[i].task.created_at == items[i].at by {
                assert(all[i] == records@[i]@);
                assert(dated_ids(items)[i] == items[i].id);
                assert(dated_ids(items).to_set().contains(items[i].id));
            }
            assert forall|i: int, j: int| 0 <= i < j < all.len() implies dated_less(
                (#[trigger] all[i]).task.created_at,
                all[i].task.id,
                (#[trigger] all[j]).task.created_at,
                all[j].task.id,
            ) by {
                assert(dated_before(items[i], items[j]));
            }
            assert forall|id: Seq<char>| kept.contains(id) implies exists|i: int|
                0 <= i < all.len() && (#[trigger] all[i]).task.id == id by {
                assert(dated_ids(items).contains(id));
                let i = dated_ids(items).index_of(id);
                assert(all[i].task.id == id);
            }
        }
        records
    }

    pub fn apply_pruned_tasks(&mut self, task_ids: &IdSet)
        ensures
            final(self)@ == without_tasks(old(self)@, task_ids@),
    {
        let count: usize = task_ids.len();
        let ghost before = self@;
        let ghost listed = task_ids.listed();
        proof {
            assert(without_tasks(self@, listed.take(0).to_set()) =~= self@);
        }
        for index in 0..count
            invariant
                count == listed.len(),
                listed == task_ids.listed(),
                self@ == without_tasks(before, listed.take(index as int).to_set()),
        {
            let id = task_ids.id_at(index);
            let _ = self.tasks_by_id.remove(id);
            let _ = self.outputs_by_task_id.remove(id);
            let _ = self.download_options_by_id.remove(id);
            let _ = self.playback_options_by_id.remove(id);
            let _ = self.running_cancellations_by_id.remove(id);
            let _ = self.planning_cancellations_by_id.remove(id);
            proof {
                lemma_take_to_set(listed, index as int);
                assert(self@ =~= without_tasks(before, listed.take(index + 1).to_set()));
            }
        }
        proof {
            assert(listed.take(count as int) =~= listed);
        }
    }
}

/// What is shown of records of a state is what is live in it.
pub proof fn lemma_records_show_live(
    records: Seq<PersistedTaskRecordView>,
    state: RegistryInnerView,
    ids: Set<Seq<char>>,
)
    requires
        records_of(records, state, ids),
        under_own_ids(state.tasks_by_id),
        ids.subset_of(state.tasks_by_id.dom()),
    ensures
        visible_tasks_of(records) =~= state.tasks_by_id.restrict(ids),
        forall|previous| #[trigger] visible_outputs_of(records, previous).dom() =~= ids,
{
    lemma_visible_prefix(records, state, ids, records.len() as int);
    assert(records.take(records.len() as int) =~= records);
    let shown = visible_tasks_of(records);
    assert forall|id: Seq<char>| ids.contains(id) implies shown.contains_key(id) by {
        let i = choose|i: int| 0 <= i < records.len() && (#[trigger] records[i]).task.id == id;
    }
}

/// The output shown of a record of a state is the one that is live in it.
pub proof fn lemma_records_show_output(
    records: Seq<PersistedTaskRecordView>,
    state: RegistryInnerView,
    previous: Map<Seq<char>, VisibleTaskOutputView>,
    id: Seq<char>,
)
    requires
        forall|i: int|
            0 <= i < records.len() ==> (#[trigger] records[i]) == record_of(
                state,
                records[i].task.id,
            ),
        visible_outputs_of(records, previous).contains_key(id),
    ensures
        visible_outputs_of(records, previous)[id] == shown_after(
            lookup(previous, id),
            state.outputs_by_task_id[id],
        ),
    decreases records.len(),
{
    if records.len() > 0 {
        assert(records.last() == records[records.len() - 1]);
        if records.last().task.id != id {
            assert forall|i: int| 0 <= i < records.drop_last().len() implies (
            #[trigger] records.drop_last()[i]) == record_of(
                state,
                records.drop_last()[i].task.id,
            ) by {
                assert(records.drop_last()[i] == records[i]);
            }
            lemma_records_show_output(records.drop_last(), state, previous, id);
        }
    }
}

proof fn lemma_visible_prefix(
    records: Seq<PersistedTaskRecordView>,
    state: RegistryInnerView,
    ids: Set<Seq<char>>,
    count: int,
)
    requires
        records_of(records, state, ids),
        under_own_ids(state.tasks_by_id),
        ids.subset_of(state.tasks_by_id.dom()),
        0 <= count <= records.len(),
    ensures
        forall|id: Seq<char>| #[trigger]
            visible_tasks_of(records.take(count)).contains_key(id) <==> exists|i: int|
                0 <= i < count && (#[trigger] records[i]).task.id == id,
        forall|id: Seq<char>| #[trigger]
            visible_tasks_of(records.take(count)).contains_key(id) ==> ids.contains(id)
                && visible_tasks_of(records.take(count))[id] == state.tasks_by_id[id],
        forall|previous| #[trigger]
            visible_outputs_of(records.take(count), previous).dom() =~= visible_tasks_of(
                records.take(count),
            ).dom(),
    decreases count,
{
    if count == 0 {
        assert(records.take(0).len() == 0);
    } else {
        lemma_visible_prefix(records, state, ids, count - 1);
        let prefix = records.take(count);
        assert(prefix.drop_last() =~= records.take(count - 1));
        assert(prefix.last() == records[count - 1]);
        let shorter = visible_tasks_of(records.take(count - 1));
        let longer = visible_tasks_of(prefix);
        assert(longer == shorter.insert(records[count - 1].task.id, records[count - 1].task));
        assert forall|id: Seq<char>| #[trigger] longer.contains_key(id) <==> exists|i: int|
            0 <= i < count && (#[trigger] records[i]).task.id == id by {
            if longer.contains_key(id) {
                if id == records[count - 1].task.id {
                    assert(records[count - 1].task.id == id);
                } else {
                    assert(shorter.contains_key(id));
                }
            }
            if exists|i: int| 0 <= i < count && (#[trigger] records[i]).task.id == id {
                let i = choose|i: int| 0 <= i < count && (#[trigger] records[i]).task.id == id;
                if i < count - 1 {
                    assert(shorter.contains_key(id));
                }
            }
        }
        assert forall|previous| #[trigger] visible_outputs_of(prefix, previous).dom()
            =~= longer.dom() by {
            assert(visible_outputs_of(records.take(count - 1), previous).dom() =~= shorter.dom());
        }
    }
}

/// In the order of ageing, what stands first has the smaller rank, and every rank is smaller than
/// the number of tasks.
pub(crate) proof fn lemma_ranks(
    tasks: Map<Seq<char>, TaskView>,
    ids: Set<Seq<char>>,
    left: Seq<char>,
    right: Seq<char>,
)
    requires
        ids.finite(),
        ids.contains(left),
        ids.contains(right),
        left != right,
    ensures
        age_rank(tasks, ids, left) != age_rank(tasks, ids, right),
{
    let a = DatedIdView { at: retention_time(tasks[left]), id: left };
    let b = DatedIdView { at: retention_time(tasks[right]), id: right };
    lemma_dated_total(a, b);
    if dated_before(a, b) {
        lemma_rank_grows(tasks, ids, left, right);
    } else {
        lemma_rank_grows(tasks, ids, right, left);
    }
}

proof fn lemma_rank_grows(
    tasks: Map<Seq<char>, TaskView>,
    ids: Set<Seq<char>>,
    left: Seq<char>,
    right: Seq<char>,
)
    requires
        ids.finite(),
        ids.contains(left),
        ages_before(tasks, left, right),
    ensures
        age_rank(tasks, ids, left) < age_rank(tasks, ids, right),
{
    let before_left = ids.filter(|other: Seq<char>| ages_before(tasks, other, left));
    let before_right = ids.filter(|other: Seq<char>| ages_before(tasks, other, right));
    let a = DatedIdView { at: retention_time(tasks[left]), id: left };
    let b = DatedIdView { at: retention_time(tasks[right]), id: right };
    lemma_dated_irreflexive(a);
    assert forall|other: Seq<char>| before_left.insert(left).contains(other) implies
        before_right.contains(other) by {
        if other != left {
            let c = DatedIdView { at: retention_time(tasks[other]), id: other };
            lemma_dated_transitive(c, a, b);
        }
    }
    vstd::set_lib::lemma_len_subset(before_left.insert(left), before_right);
}

pub(crate) proof fn lemma_rank_is_small(
    tasks: Map<Seq<char>, TaskView>,
    ids: Set<Seq<char>>,
    id: Seq<char>,
)
    requires
        ids.finite(),
        ids.contains(id),
    ensures
        age_rank(tasks, ids, id) < ids.len(),
{
    let before = ids.filter(|other: Seq<char>| ages_before(tasks, other, id));
    lemma_dated_irreflexive(DatedIdView { at: retention_time(tasks[id]), id });
    assert(before.subset_of(ids.remove(id)));
    vstd::set_lib::lemma_len_subset(before, ids.remove(id));
}

/// After the tasks that are to be forgotten are gone, no more tasks that have ended are left than
/// the policy keeps.
pub proof fn law_retention_limit_is_kept(
    tasks: Map<Seq<char>, TaskView>,
    policy: TaskRetentionPolicy,
    now: Timestamp,
)
    requires
        tasks.dom().finite(),
        policy.max_terminal_tasks is Some,
    ensures
        prunable_ids(tasks.remove_keys(forgotten_ids(tasks, policy, now))).len()
            <= policy.max_terminal_tasks->0,
{
    let limit = policy.max_terminal_tasks->0;
    let aged = aged_ids(tasks, policy, now);
    let ids = prunable_ids(tasks).difference(aged);
    let kept = prunable_ids(tasks.remove_keys(forgotten_ids(tasks, policy, now)));
    assert(ids.subset_of(tasks.dom()));
    vstd::set_lib::lemma_len_subset(ids, tasks.dom());
    assert forall|id: Seq<char>| kept.contains(id) implies ids.contains(id) && age_rank(
        tasks,
        ids,
        id,
    ) >= ids.len() - limit by {
        assert(!forgotten_ids(tasks, policy, now).contains(id));
    }
    vstd::set_lib::lemma_len_subset(kept, ids);
    let rank = |id: Seq<char>| age_rank(tasks, ids, id) as int;
    assert forall|a: Seq<char>, b: Seq<char>|
        kept.contains(a) && kept.contains(b) && rank(a) == rank(b) implies a == b by {
        if a != b {
            lemma_ranks(tasks, ids, a, b);
        }
    }
    let ranks = kept.map(rank);
    vstd::set_lib::lemma_map_size(kept, ranks, rank);
    if ids.len() > limit {
        let range = vstd::set_lib::set_int_range(ids.len() - limit, ids.len() as int);
        vstd::set_lib::lemma_int_range(ids.len() - limit, ids.len() as int);
        assert forall|r: int| ranks.contains(r) implies range.contains(r) by {
            let id = choose|id: Seq<char>| kept.contains(id) && rank(id) == r;
            lemma_rank_is_small(tasks, ids, id);
        }
        vstd::set_lib::lemma_len_subset(ranks, range);
    }
}

/// A policy without limits forgets nothing.
pub proof fn law_without_limits_nothing_is_forgotten(
    tasks: Map<Seq<char>, TaskView>,
    policy: TaskRetentionPolicy,
    now: Timestamp,
)
    requires
        policy.max_terminal_tasks is None,
        policy.max_terminal_task_age is None,
    ensures
        forgotten_ids(tasks, policy, now) == Set::<Seq<char>>::empty(),
{
    assert(forgotten_ids(tasks, policy, now) =~= Set::<Seq<char>>::empty());
}

/// A task that may be forgotten is forgotten once it has reached the age limit.
pub proof fn law_aged_tasks_are_forgotten(
    tasks: Map<Seq<char>, TaskView>,
    policy: TaskRetentionPolicy,
    now: Timestamp,
    id: Seq<char>,
)
    requires
        tasks.contains_key(id),
        prunable(tasks[id]),
        policy.max_terminal_task_age is Some,
        too_old(tasks[id], now, policy.max_terminal_task_age->0),
    ensures
        forgotten_ids(tasks, policy, now).contains(id),
{
    assert(aged_ids(tasks, policy, now).contains(id));
}

/// Where a task is forgotten because there are too many, every older one that may be forgotten is
/// forgotten too.
pub proof fn law_older_tasks_make_room_first(
    tasks: Map<Seq<char>, TaskView>,
    policy: TaskRetentionPolicy,
    now: Timestamp,
    older: Seq<char>,
    newer: Seq<char>,
)
    requires
        tasks.dom().finite(),
        prunable_ids(tasks).contains(older),
        ages_before(tasks, older, newer),
        forgotten_ids(tasks, policy, now).contains(newer),
        !aged_ids(tasks, policy, now).contains(newer),
    ensures
        forgotten_ids(tasks, policy, now).contains(older),
{
    let ids = prunable_ids(tasks).difference(aged_ids(tasks, policy, now));
    if ids.contains(older) {
        assert(ids.subset_of(tasks.dom()));
        vstd::set_lib::lemma_len_subset(ids, tasks.dom());
        lemma_rank_grows(tasks, ids, older, newer);
        assert(surplus_ids(tasks, ids, policy.max_terminal_tasks).contains(older));
    }
}

} // verus!
