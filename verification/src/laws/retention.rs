//! Laws of forgetting: which tasks go, which stay, and in what order they are written down.

use crate::inner::retention::{
    age_rank, aged_ids, forgotten_ids, law_older_tasks_make_room_first, law_retention_limit_is_kept,
    lemma_rank_is_small, lemma_ranks, prunable_ids, record_of, records_of, surplus_ids,
    without_tasks,
};
use crate::model::basics::{TaskKind, TaskState, Timestamp};
use crate::model::record::PersistedTaskRecordView;
use crate::model::state::RegistryInnerView;
use crate::model::task::TaskView;
use crate::timing::{Duration, TaskRetentionPolicy};
use vstd::prelude::*;

verus! {

/// `task` ages from `since`: from its end, or where that is not known from its last change, or else
/// from when it was made.
pub open spec fn ages_from(task: TaskView, since: Timestamp) -> bool {
    ||| task.finished_at == Some(since)
    ||| task.finished_at is None && task.updated_at == Some(since)
    ||| task.finished_at is None && task.updated_at is None && task.created_at == Some(since)
}

/// The tasks that are left once those to be forgotten are gone, and that have succeeded, failed or
/// been cancelled, or are completed and no playback.
pub open spec fn ended_and_kept(
    tasks: Map<Seq<char>, TaskView>,
    policy: TaskRetentionPolicy,
    now: Timestamp,
) -> Set<Seq<char>> {
    Set::new(
        |id: Seq<char>|
            tasks.contains_key(id) && !forgotten_ids(tasks, policy, now).contains(id) && (
            tasks[id].state == TaskState::Succeeded || tasks[id].state == TaskState::Failed
                || tasks[id].state == TaskState::Cancelled || (tasks[id].state
                == TaskState::Completed && tasks[id].kind
                != TaskKind::BilibiliProgressivePlayback)),
    )
}

/// Every task that has succeeded, failed or been cancelled, of either kind, and every completed
/// task that is no playback, is forgotten once it has reached the greatest age.
pub proof fn law_every_ended_task_is_forgotten_with_age(
    tasks: Map<Seq<char>, TaskView>,
    policy: TaskRetentionPolicy,
    now: Timestamp,
    id: Seq<char>,
    since: Timestamp,
    max_age: Duration,
)
    requires
        tasks.contains_key(id),
        tasks[id].state == TaskState::Succeeded || tasks[id].state == TaskState::Failed
            || tasks[id].state == TaskState::Cancelled || (tasks[id].state == TaskState::Completed
            && tasks[id].kind != TaskKind::BilibiliProgressivePlayback),
        policy.max_terminal_task_age == Some(max_age),
        ages_from(tasks[id], since),
        (now.seconds - since.seconds) * 1_000_000_000 + (now.nanos - since.nanos)
            >= max_age.seconds * 1_000_000_000 + max_age.nanos,
    ensures
        forgotten_ids(tasks, policy, now).contains(id),
{
    assert(aged_ids(tasks, policy, now).contains(id));
}

/// Nothing else is forgotten for its age: a task that is not over, or a completed playback, never
/// goes, and one that is over goes before it has reached the greatest age only to make room.
pub proof fn law_nothing_else_is_forgotten(
    tasks: Map<Seq<char>, TaskView>,
    policy: TaskRetentionPolicy,
    now: Timestamp,
    id: Seq<char>,
)
    requires
        forgotten_ids(tasks, policy, now).contains(id),
    ensures
        tasks.contains_key(id),
        tasks[id].state == TaskState::Succeeded || tasks[id].state == TaskState::Failed
            || tasks[id].state == TaskState::Cancelled || (tasks[id].state == TaskState::Completed
            && tasks[id].kind != TaskKind::BilibiliProgressivePlayback),
        policy.max_terminal_tasks is None ==> (policy.max_terminal_task_age matches Some(max_age)
            && exists|since: Timestamp| #[trigger]
            ages_from(tasks[id], since) && (now.seconds - since.seconds) * 1_000_000_000 + (
            now.nanos - since.nanos) >= max_age.seconds * 1_000_000_000 + max_age.nanos),
{
    assert(prunable_ids(tasks).contains(id));
    if policy.max_terminal_tasks is None {
        assert(aged_ids(tasks, policy, now).contains(id));
        let task = tasks[id];
        let since = if task.finished_at is Some {
            task.finished_at->0
        } else if task.updated_at is Some {
            task.updated_at->0
        } else {
            task.created_at->0
        };
        assert(ages_from(task, since));
    }
}

/// Of the tasks that have succeeded, failed or been cancelled, and of completed ones that are no
/// playback, no more are left than the policy keeps.
pub proof fn law_no_more_ended_tasks_are_kept_than_allowed(
    tasks: Map<Seq<char>, TaskView>,
    policy: TaskRetentionPolicy,
    now: Timestamp,
)
    requires
        tasks.dom().finite(),
        policy.max_terminal_tasks is Some,
    ensures
        ended_and_kept(tasks, policy, now).finite(),
        ended_and_kept(tasks, policy, now).len() <= policy.max_terminal_tasks->0,
{
    law_retention_limit_is_kept(tasks, policy, now);
    let kept = ended_and_kept(tasks, policy, now);
    assert(kept =~= prunable_ids(tasks.remove_keys(forgotten_ids(tasks, policy, now))));
    assert(kept.subset_of(tasks.dom()));
    vstd::set_lib::lemma_len_subset(kept, tasks.dom());
}

/// No more make room than have to: where one is forgotten that has not reached the greatest age, as
/// many are left as the policy keeps.
pub proof fn law_as_many_ended_tasks_are_kept_as_allowed(
    tasks: Map<Seq<char>, TaskView>,
    policy: TaskRetentionPolicy,
    now: Timestamp,
    id: Seq<char>,
)
    requires
        tasks.dom().finite(),
        forgotten_ids(tasks, policy, now).contains(id),
        forall|since: Timestamp| #[trigger]
            ages_from(tasks[id], since) ==> (policy.max_terminal_task_age matches Some(max_age)
                ==> (now.seconds - since.seconds) * 1_000_000_000 + (now.nanos - since.nanos)
                < max_age.seconds * 1_000_000_000 + max_age.nanos),
    ensures
        policy.max_terminal_tasks matches Some(limit) && ended_and_kept(tasks, policy, now).len()
            == limit,
{
    let aged = aged_ids(tasks, policy, now);
    let ids = prunable_ids(tasks).difference(aged);
    if aged.contains(id) {
        let task = tasks[id];
        let since = if task.finished_at is Some {
            task.finished_at->0
        } else if task.updated_at is Some {
            task.updated_at->0
        } else {
            task.created_at->0
        };
        assert(ages_from(task, since));
    }
    assert(surplus_ids(tasks, ids, policy.max_terminal_tasks).contains(id));
    let limit = policy.max_terminal_tasks->0;
    law_no_more_ended_tasks_are_kept_than_allowed(tasks, policy, now);
    assert(ids.subset_of(tasks.dom()));
    vstd::set_lib::lemma_len_subset(ids, tasks.dom());
    let surplus = surplus_ids(tasks, ids, policy.max_terminal_tasks);
    assert(surplus.subset_of(ids));
    vstd::set_lib::lemma_len_subset(surplus, ids);
    let rank = |other: Seq<char>| age_rank(tasks, ids, other) as int;
    assert forall|a: Seq<char>, b: Seq<char>|
        surplus.contains(a) && surplus.contains(b) && rank(a) == rank(b) implies a == b by {
        if a != b {
            lemma_ranks(tasks, ids, a, b);
        }
    }
    let ranks = surplus.map(rank);
    vstd::set_lib::lemma_map_size(surplus, ranks, rank);
    let range = vstd::set_lib::set_int_range(0, ids.len() - limit);
    lemma_rank_is_small(tasks, ids, id);
    vstd::set_lib::lemma_int_range(0, ids.len() - limit);
    assert forall|r: int| ranks.contains(r) implies range.contains(r) by {
        let other = choose|other: Seq<char>| surplus.contains(other) && rank(other) == r;
        assert(age_rank(tasks, ids, other) < ids.len() - limit);
    }
    vstd::set_lib::lemma_len_subset(ranks, range);
    let kept = ended_and_kept(tasks, policy, now);
    assert(kept =~= ids.difference(surplus));
    vstd::set_lib::lemma_len_difference(ids, surplus);
    assert(ids =~= kept.union(surplus));
    vstd::set_lib::lemma_set_disjoint_lens(kept, surplus);
}

/// Where there are too many, the older one of two makes room first: one that ended at an earlier
/// second, or in the same second and earlier in it, is not kept where the other is forgotten for
/// want of room.
pub proof fn law_the_older_task_makes_room(
    tasks: Map<Seq<char>, TaskView>,
    policy: TaskRetentionPolicy,
    now: Timestamp,
    older: Seq<char>,
    newer: Seq<char>,
)
    requires
        tasks.dom().finite(),
        policy.max_terminal_task_age is None,
        tasks.contains_key(older),
        tasks[older].state == TaskState::Succeeded || tasks[older].state == TaskState::Failed
            || tasks[older].state == TaskState::Cancelled || (tasks[older].state
            == TaskState::Completed && tasks[older].kind != TaskKind::BilibiliProgressivePlayback),
        tasks[older].finished_at is Some,
        tasks[newer].finished_at is Some,
        tasks[older].finished_at->0.seconds < tasks[newer].finished_at->0.seconds || (
        tasks[older].finished_at->0.seconds == tasks[newer].finished_at->0.seconds
            && tasks[older].finished_at->0.nanos < tasks[newer].finished_at->0.nanos),
        forgotten_ids(tasks, policy, now).contains(newer),
    ensures
        forgotten_ids(tasks, policy, now).contains(older),
{
    assert(prunable_ids(tasks).contains(older));
    law_older_tasks_make_room_first(tasks, policy, now, older, newer);
}

/// Forgetting tasks takes away what belongs to them and nothing else.
pub proof fn law_forgetting_leaves_the_other_tasks(
    state: RegistryInnerView,
    ids: Set<Seq<char>>,
    id: Seq<char>,
)
    ensures
        ({
            let after = without_tasks(state, ids);
            &&& ids.contains(id) ==> !after.tasks_by_id.contains_key(id)
                && !after.outputs_by_task_id.contains_key(id)
                && !after.download_options_by_id.contains_key(id)
                && !after.playback_options_by_id.contains_key(id)
                && !after.running_cancellations_by_id.contains_key(id)
                && !after.planning_cancellations_by_id.contains_key(id)
            &&& !ids.contains(id) && state.tasks_by_id.contains_key(id)
                ==> after.tasks_by_id.contains_key(id) && after.tasks_by_id[id]
                == state.tasks_by_id[id]
            &&& !ids.contains(id) && state.outputs_by_task_id.contains_key(id)
                ==> after.outputs_by_task_id.contains_key(id) && after.outputs_by_task_id[id]
                == state.outputs_by_task_id[id]
            &&& !ids.contains(id) && state.download_options_by_id.contains_key(id)
                ==> after.download_options_by_id.contains_key(id)
                && after.download_options_by_id[id] == state.download_options_by_id[id]
            &&& !ids.contains(id) && state.playback_options_by_id.contains_key(id)
                ==> after.playback_options_by_id.contains_key(id)
                && after.playback_options_by_id[id] == state.playback_options_by_id[id]
            &&& after.visible_tasks_by_id == state.visible_tasks_by_id
            &&& after.queued_task_ids == state.queued_task_ids
            &&& after.active_task_ids_by_key == state.active_task_ids_by_key
            &&& after.retained_resource_snapshots == state.retained_resource_snapshots
            &&& after.pending_publications_by_id == state.pending_publications_by_id
            &&& after.persistence_generation == state.persistence_generation
        }),
{
}

/// What is written down of a task is the task, its options and its output, as they are.
pub proof fn law_records_hold_what_is_live(
    records: Seq<PersistedTaskRecordView>,
    state: RegistryInnerView,
    ids: Set<Seq<char>>,
    index: int,
)
    requires
        records_of(records, state, ids),
        ids.subset_of(state.tasks_by_id.dom()),
        0 <= index < records.len(),
    ensures
        ({
            let record = records[index];
            let id = record.task.id;
            &&& ids.contains(id)
            &&& record.task == state.tasks_by_id[id]
            &&& record.output == state.outputs_by_task_id[id]
            &&& record.options is Some ==> state.download_options_by_id.contains_key(id)
                && state.download_options_by_id[id] == record.options
            &&& state.download_options_by_id.contains_key(id) ==> record.options
                == state.download_options_by_id[id]
            &&& record.playback_options is Some ==> state.playback_options_by_id.contains_key(id)
                && state.playback_options_by_id[id] == record.playback_options
            &&& state.playback_options_by_id.contains_key(id) ==> record.playback_options
                == state.playback_options_by_id[id]
        }),
{
    assert(records[index] == record_of(state, records[index].task.id));
}

/// Tasks are written down in the order in which they were made, each once.
pub proof fn law_records_stand_in_the_order_of_making(
    records: Seq<PersistedTaskRecordView>,
    state: RegistryInnerView,
    ids: Set<Seq<char>>,
    first: int,
    second: int,
)
    requires
        records_of(records, state, ids),
        0 <= first < records.len(),
        0 <= second < records.len(),
        records[first].task.created_at is Some,
        records[second].task.created_at is Some,
        records[first].task.created_at->0.seconds < records[second].task.created_at->0.seconds || (
        records[first].task.created_at->0.seconds == records[second].task.created_at->0.seconds
            && records[first].task.created_at->0.nanos < records[second].task.created_at->0.nanos),
    ensures
        first < second,
{
    if second < first {
        assert(records[second] == record_of(state, records[second].task.id));
    }
}

} // verus!
