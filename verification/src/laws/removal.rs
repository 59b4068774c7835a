//! Laws of taking away: sessions that are lost, caches that are deleted, and tasks that go.

use crate::changes::{after_restart, removed, without_cached_result, without_session};
use crate::hls::uses_as_primary;
use crate::inner::checkpoint::{checkpoint_of, under_own_ids};
use crate::laws::outputs::own_resource;
use crate::laws::restart::over_in;
use crate::laws::sessions::{
    known_by, knows, law_completed_playbacks_are_known_by_all_their_sessions,
    law_results_are_known_by_their_sessions, law_tasks_know_their_sessions, playable_item,
    plays_first,
};
use crate::model::basics::{TaskKind, TaskState, Timestamp};
use crate::model::output::TaskOutputSummaryView;
use crate::model::state::RegistryInnerView;
use crate::model::task::{Task, TaskView};
use crate::registry::BilibiliTaskRegistryView;
use crate::registry::commit::{Guarantee, PersistenceCommitOutcome, Step, settlement_problem};
use crate::registry::removal::{
    CacheRemoval, MarkedOutput, changed_by_restart, completed_with, deletion_terms,
    holds_cached_result, removal, restarted, serves_anyhow, session_failure, with_cleared_result,
    with_removed_task,
};
use crate::results::{cached_as, some_item};
use crate::status::{Code, Status};
use vstd::prelude::*;

verus! {

/// A served playback plays `session`: first, or as a result that can be played.
pub open spec fn plays(task: TaskView, session: Seq<char>) -> bool {
    &&& task.kind == TaskKind::BilibiliProgressivePlayback
    &&& task.state == TaskState::Playable || task.state == TaskState::Completed
    &&& plays_first(task, session) || exists|i: int|
        0 <= i < task.result_items.len() && known_by(#[trigger] task.result_items[i], session)
            && playable_item(task.result_items[i])
}

/// A result of `task` is cached as `session` under the library entry `entry`.
pub open spec fn caches(task: TaskView, session: Seq<char>, entry: Seq<char>) -> bool {
    exists|i: int|
        0 <= i < task.result_items.len() && known_by(#[trigger] task.result_items[i], session)
            && task.result_items[i].state == TaskState::Completed
            && task.result_items[i].library_item_id == entry
}

proof fn lemma_caches(task: TaskView, session: Seq<char>, entry: Seq<char>)
    ensures
        some_item(task.result_items, cached_as(session, entry)) <==> caches(task, session, entry),
{
    assert forall|i: int| 0 <= i < task.result_items.len() implies (cached_as(session, entry)(
        #[trigger] task.result_items[i],
    ) <==> known_by(task.result_items[i], session) && task.result_items[i].state
        == TaskState::Completed && task.result_items[i].library_item_id == entry) by {
        law_results_are_known_by_their_sessions(task.result_items[i], session);
    }
    if caches(task, session, entry) {
        let i = choose|i: int|
            0 <= i < task.result_items.len() && known_by(#[trigger] task.result_items[i], session)
                && task.result_items[i].state == TaskState::Completed
                && task.result_items[i].library_item_id == entry;
        assert(cached_as(session, entry)(task.result_items[i]));
    }
}

/// A session that cannot be restored is taken from a playback that plays it, durably or not at all;
/// where none does nothing happens.
pub proof fn law_a_session_is_taken_from_whoever_plays_it(
    registry: BilibiliTaskRegistryView,
    session: Seq<char>,
    message: Seq<char>,
    now: Timestamp,
    result: Result<Step<Option<Task>>, Status>,
    after: RegistryInnerView,
)
    requires
        session_failure(registry, session, message, now, result, after),
    ensures
        ({
            let before = registry.inner;
            match result {
                Ok(Step::Done(task)) => task is None && after == before && forall|id: Seq<char>|
                    #[trigger]
                    before.tasks_by_id.contains_key(id) ==> !plays(before.tasks_by_id[id], session),
                Ok(Step::Commit(task, terms)) => task matches Some(task) && {
                    &&& before.tasks_by_id.contains_key(task@.id)
                    &&& plays(before.tasks_by_id[task@.id], session)
                    &&& task@ == without_session(
                        before.tasks_by_id[task@.id],
                        session,
                        message,
                        now,
                    )
                    &&& after.tasks_by_id == before.tasks_by_id.insert(task@.id, task@)
                    &&& after.pending_publications_by_id
                        == before.pending_publications_by_id.insert(task@.id, task@)
                    &&& after.visible_tasks_by_id == before.visible_tasks_by_id
                    &&& task@.state == TaskState::Failed
                        ==> !after.playback_options_by_id.contains_key(task@.id)
                        && !after.planning_cancellations_by_id.contains_key(task@.id)
                        && !after.running_cancellations_by_id.contains_key(task@.id)
                    &&& task@.state != TaskState::Failed ==> after.playback_options_by_id
                        == before.playback_options_by_id && after.active_task_ids_by_key
                        == before.active_task_ids_by_key
                    &&& registry.persistence is Some ==> terms@.require_durable_commit
                        && terms@.needed == Guarantee::Durable && terms@.rollback == Some(
                        checkpoint_of(before),
                    ) && terms@.durability_required
                },
                _ => false,
            }
        }),
{
    assert forall|id: Seq<char>| #[trigger] registry.inner.tasks_by_id.contains_key(id) implies (
    plays(registry.inner.tasks_by_id[id], session) <==> serves_anyhow(
        registry.inner.tasks_by_id[id],
        session,
    )) by {
        law_completed_playbacks_are_known_by_all_their_sessions(
            registry.inner.tasks_by_id[id],
            session,
            Seq::empty(),
        );
    }
}

/// A restart enters what it makes of each task, tells of the tasks that it changed and of no other,
/// and leaves the rest.
pub proof fn law_a_restart_changes_what_it_says(
    state: RegistryInnerView,
    playable: Set<Seq<char>>,
    completed: Set<Seq<char>>,
    now: Timestamp,
    id: Seq<char>,
)
    requires
        state.tasks_by_id.contains_key(id),
    ensures
        ({
            let changed = changed_by_restart(state.tasks_by_id, playable, completed, now);
            let after = restarted(state, changed, playable, completed, now);
            &&& after.tasks_by_id.contains_key(id)
            &&& match after_restart(state.tasks_by_id[id], playable, completed, now) {
                Some(task) => changed.contains(id) && after.tasks_by_id[id] == task
                    && after.pending_publications_by_id.contains_key(id)
                    && after.pending_publications_by_id[id] == task,
                None => !changed.contains(id) && after.tasks_by_id[id] == state.tasks_by_id[id] && (
                after.pending_publications_by_id.contains_key(id)
                    <==> state.pending_publications_by_id.contains_key(id)),
            }
            &&& after.outputs_by_task_id == state.outputs_by_task_id
            &&& after.visible_tasks_by_id == state.visible_tasks_by_id
            &&& after.queued_task_ids == state.queued_task_ids
        }),
{
}

/// Deleting a cached session takes a completed playback away if the session is the one that it
/// plays first and the entry is its own; it takes the result of a playback that is cached as the
/// session under that entry; where nothing knows the session nothing is to be done; and else it is
/// refused.
pub proof fn law_a_deleted_cache_takes_what_was_cached(
    tasks: Map<Seq<char>, TaskView>,
    session: Seq<char>,
    entry: Seq<char>,
    now: Timestamp,
    result: Result<CacheRemoval, Status>,
)
    requires
        removal(tasks, session, entry, now, result),
        under_own_ids(tasks),
    ensures
        match result {
            Ok(CacheRemoval::RemoveTask(last)) => {
                let task = tasks[last@.id];
                &&& tasks.contains_key(last@.id)
                &&& task.kind == TaskKind::BilibiliProgressivePlayback
                &&& task.state == TaskState::Completed
                &&& plays_first(task, session)
                &&& task.library_item_id == entry
                &&& last@ == removed(task, now)
                &&& over_in(
                    task,
                    last@,
                    TaskState::Failed,
                    "Bilibili playback cache was deleted."@,
                    now,
                )
            },
            Ok(CacheRemoval::ClearResult(changed)) => {
                let task = tasks[changed@.id];
                &&& tasks.contains_key(changed@.id)
                &&& task.kind == TaskKind::BilibiliProgressivePlayback
                &&& task.state == TaskState::Completed || task.state == TaskState::Playable
                &&& caches(task, session, entry)
                &&& task.state == TaskState::Completed ==> !(plays_first(task, session)
                    && task.library_item_id == entry)
                &&& changed@ == without_cached_result(task, session, entry, now)
            },
            Ok(CacheRemoval::Nothing) => !tasks.contains_key(session) && forall|id: Seq<char>|
                #[trigger]
                tasks.contains_key(id) && tasks[id].kind == TaskKind::BilibiliProgressivePlayback
                    ==> !(tasks[id].state == TaskState::Completed && knows(tasks[id], session))
                    && !(tasks[id].state == TaskState::Playable && caches(
                    tasks[id],
                    session,
                    entry,
                )),
            Err(status) => status@.code == Code::FailedPrecondition,
        },
        forall|id: Seq<char>| #[trigger]
            tasks.contains_key(id) && tasks[id].kind == TaskKind::BilibiliProgressivePlayback
                && tasks[id].state == TaskState::Completed && plays_first(tasks[id], session)
                && tasks[id].library_item_id == entry && (forall|other: Seq<char>| #[trigger]
                tasks.contains_key(other) && other != id ==> !knows(tasks[other], session)) ==> (
            result matches Ok(CacheRemoval::RemoveTask(last)) && last@.id == id),
{
    assert forall|id: Seq<char>| #[trigger] tasks.contains_key(id) implies (
    completed_with(tasks[id], session) <==> tasks[id].kind
        == TaskKind::BilibiliProgressivePlayback && tasks[id].state == TaskState::Completed && knows(
        tasks[id],
        session,
    )) && (holds_cached_result(tasks[id], session, entry)
        <==> tasks[id].kind == TaskKind::BilibiliProgressivePlayback && tasks[id].state
        == TaskState::Playable && caches(tasks[id], session, entry)) && (
    uses_as_primary(tasks[id], session) <==> plays_first(tasks[id], session)) && (
    some_item(tasks[id].result_items, cached_as(session, entry)) <==> caches(
        tasks[id],
        session,
        entry,
    )) by {
        law_completed_playbacks_are_known_by_all_their_sessions(tasks[id], session, entry);
        law_tasks_know_their_sessions(tasks[id], session);
        lemma_caches(tasks[id], session, entry);
    }
}

/// A task that is removed is gone with all that belongs to it, its resources are to be deleted, and
/// its last words wait to be told. Other tasks stay.
pub proof fn law_a_removed_task_is_gone(
    state: RegistryInnerView,
    last: TaskView,
    summary: TaskOutputSummaryView,
    other: Seq<char>,
    resource: Seq<char>,
)
    ensures
        ({
            let after = with_removed_task(state, last, summary);
            &&& !after.tasks_by_id.contains_key(last.id)
            &&& !after.outputs_by_task_id.contains_key(last.id)
            &&& !after.download_options_by_id.contains_key(last.id)
            &&& !after.playback_options_by_id.contains_key(last.id)
            &&& !after.running_cancellations_by_id.contains_key(last.id)
            &&& !after.planning_cancellations_by_id.contains_key(last.id)
            &&& other != last.id && state.tasks_by_id.contains_key(other)
                ==> after.tasks_by_id.contains_key(other) && after.tasks_by_id[other]
                == state.tasks_by_id[other]
            &&& other != last.id && state.outputs_by_task_id.contains_key(other)
                ==> after.outputs_by_task_id.contains_key(other) && after.outputs_by_task_id[other]
                == state.outputs_by_task_id[other]
            &&& after.pending_resource_cleanup_ids.contains(resource)
                <==> state.pending_resource_cleanup_ids.contains(resource) || own_resource(
                state,
                last.id,
                resource,
            )
            &&& after.pending_publications_by_id.contains_key(last.id)
            &&& after.pending_publications_by_id[last.id].state == last.state
            &&& after.pending_publications_by_id[last.id].output_summary == Some(summary)
            &&& after.visible_tasks_by_id == state.visible_tasks_by_id
            &&& after.durable_resource_cleanup_ids == state.durable_resource_cleanup_ids
        }),
{
    let after = with_removed_task(state, last, summary);
    if own_resource(state, last.id, resource) {
        let i = choose|i: int|
            0 <= i < state.outputs_by_task_id[last.id].resources.len() && (
            #[trigger] state.outputs_by_task_id[last.id].resources[i]).resource.id == resource;
        let resources = state.outputs_by_task_id[last.id].resources;
        assert(resources[i].resource.id == resource);
        assert(after.pending_resource_cleanup_ids.contains(resource));
    }
    if after.pending_resource_cleanup_ids.contains(resource)
        && !state.pending_resource_cleanup_ids.contains(resource) {
        let resources = state.outputs_by_task_id[last.id].resources;
        let i = choose|i: int|
            0 <= i < resources.len() && (#[trigger] resources[i]).resource.id == resource;
        assert(state.outputs_by_task_id[last.id].resources[i].resource.id == resource);
    }
}

/// A task without a cached result takes the place of the one with it, and what its output lost is
/// to be deleted.
pub proof fn law_a_cleared_result_is_entered(
    state: RegistryInnerView,
    task: TaskView,
    marked: MarkedOutput,
    resource: Seq<char>,
)
    ensures
        ({
            let after = with_cleared_result(state, task, marked);
            &&& after.tasks_by_id == state.tasks_by_id.insert(
                task.id,
                TaskView { output_summary: Some(marked.summary@), ..task },
            )
            &&& after.outputs_by_task_id == state.outputs_by_task_id.insert(task.id, marked.output@)
            &&& after.pending_publications_by_id.contains_key(task.id)
            &&& after.pending_publications_by_id[task.id] == task
            &&& after.pending_resource_cleanup_ids.contains(resource)
                <==> state.pending_resource_cleanup_ids.contains(resource)
                || marked.retired_resource_ids@.contains(resource)
            &&& after.visible_tasks_by_id == state.visible_tasks_by_id
        }),
{
}

/// A cache is deleted only once that is durably written down: any other outcome of a save is
/// refused, and what was changed for it is undone.
pub proof fn law_a_deletion_needs_durability(
    registry: BilibiliTaskRegistryView,
    outcome: PersistenceCommitOutcome,
)
    requires
        registry.persistence is Some,
    ensures
        deletion_terms(registry).durability_required,
        deletion_terms(registry).require_durable_commit,
        deletion_terms(registry).rollback == Some(checkpoint_of(registry.inner)),
        settlement_problem(deletion_terms(registry), outcome) is None <==> outcome
            == PersistenceCommitOutcome::Durable,
{
}

} // verus!
