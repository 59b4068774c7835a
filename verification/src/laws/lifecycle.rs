//! Laws of the life of a task: how it is claimed, reports progress, is cancelled and ends.

use crate::active_key::download_key;
use crate::changes::{BilibiliTaskProgress, completed, measured, progressed};
use crate::hls::task_session_ids;
use crate::inner::cancellation::stop_requested;
use crate::laws::playback::same_purpose;
use crate::laws::restart::{item_over_in, over_in};
use crate::laws::sessions::{knows, law_tasks_know_their_sessions};
use crate::model::basics::{Progress, TaskKind, TaskState, Timestamp};
use crate::model::key::ActiveBilibiliTaskKeyView;
use crate::model::state::RegistryInnerView;
use crate::model::task::{Task, TaskView};
use crate::registry::BilibiliTaskRegistryView;
use crate::registry::commit::{Guarantee, PersistenceCommitOutcome, Step, settlement_problem};
use crate::registry::lifecycle::{
    TaskCancellationOutcome, cancellation, claimed_at, completion, completion_request,
    first_waiting, shown_volatile, takes_cache_progress, takes_download_progress, volatile_news,
    waits, with_ended_task, worked_on,
};
use crate::status::{Code, Status};
use crate::text::trimmed;
use vstd::prelude::*;

verus! {

/// A worker gets the first download in the queue that still waits, and none if none does.
pub proof fn law_the_first_waiting_download_is_found(state: RegistryInnerView)
    ensures
        match first_waiting(state, 0) {
            Some(index) => {
                &&& 0 <= index < state.queued_task_ids.len()
                &&& state.tasks_by_id.contains_key(state.queued_task_ids[index])
                &&& state.tasks_by_id[state.queued_task_ids[index]].state == TaskState::Queued
                &&& forall|earlier: int|
                    0 <= earlier < index && state.tasks_by_id.contains_key(
                        #[trigger] state.queued_task_ids[earlier],
                    ) ==> state.tasks_by_id[state.queued_task_ids[earlier]].state
                        != TaskState::Queued
            },
            None => forall|index: int|
                0 <= index < state.queued_task_ids.len() && state.tasks_by_id.contains_key(
                    #[trigger] state.queued_task_ids[index],
                ) ==> state.tasks_by_id[state.queued_task_ids[index]].state != TaskState::Queued,
        },
{
    lemma_first_waiting(state, 0);
}

proof fn lemma_first_waiting(state: RegistryInnerView, start: int)
    requires
        0 <= start <= state.queued_task_ids.len(),
    ensures
        match first_waiting(state, start) {
            Some(index) => {
                &&& start <= index < state.queued_task_ids.len()
                &&& waits(state, index)
                &&& forall|earlier: int|
                    start <= earlier < index && state.tasks_by_id.contains_key(
                        #[trigger] state.queued_task_ids[earlier],
                    ) ==> state.tasks_by_id[state.queued_task_ids[earlier]].state
                        != TaskState::Queued
            },
            None => forall|index: int|
                start <= index < state.queued_task_ids.len() && state.tasks_by_id.contains_key(
                    #[trigger] state.queued_task_ids[index],
                ) ==> state.tasks_by_id[state.queued_task_ids[index]].state != TaskState::Queued,
        },
    decreases state.queued_task_ids.len() - start,
{
    if start < state.queued_task_ids.len() && !waits(state, start) {
        lemma_first_waiting(state, start + 1);
    }
}

/// A claimed download runs, with a way to stop it that nobody has used, and those behind it in the
/// queue wait as they did. Nothing else changes but that the news waits.
pub proof fn law_a_claimed_download_runs(state: RegistryInnerView, index: int, now: Timestamp)
    requires
        0 <= index < state.queued_task_ids.len(),
        state.tasks_by_id.contains_key(state.queued_task_ids[index]),
        state.tasks_by_id[state.queued_task_ids[index]].id == state.queued_task_ids[index],
    ensures
        ({
            let id = state.queued_task_ids[index];
            let task = state.tasks_by_id[id];
            let after = claimed_at(state, index, now);
            &&& after.tasks_by_id.contains_key(id)
            &&& after.tasks_by_id[id].state == TaskState::Running
            &&& after.tasks_by_id[id].message == "Running Bilibili download adapter."@
            &&& after.tasks_by_id[id].updated_at == Some(now)
            &&& after.tasks_by_id[id] == (TaskView {
                state: after.tasks_by_id[id].state,
                message: after.tasks_by_id[id].message,
                updated_at: after.tasks_by_id[id].updated_at,
                ..task
            })
            &&& forall|other: Seq<char>| #[trigger]
                state.tasks_by_id.contains_key(other) && other != id
                    ==> after.tasks_by_id.contains_key(other) && after.tasks_by_id[other]
                    == state.tasks_by_id[other]
            &&& after.queued_task_ids.len() == state.queued_task_ids.len() - index - 1
            &&& forall|i: int|
                0 <= i < after.queued_task_ids.len() ==> #[trigger] after.queued_task_ids[i]
                    == state.queued_task_ids[i + index + 1]
            &&& after.running_cancellations_by_id.contains_key(id)
            &&& !stop_requested(after, after.running_cancellations_by_id[id])
            &&& after.pending_publications_by_id.contains_key(id)
            &&& after.pending_publications_by_id[id] == after.tasks_by_id[id]
            &&& after.visible_tasks_by_id == state.visible_tasks_by_id
            &&& after.outputs_by_task_id == state.outputs_by_task_id
            &&& after.active_task_ids_by_key == state.active_task_ids_by_key
            &&& after.download_options_by_id == state.download_options_by_id
        }),
{
}

/// A fraction is entered as it is between nothing and the greatest allowed, else as the nearer of
/// them; what is not a finite number is not entered. A fraction is given by the bits of a double.
pub proof fn law_fractions_are_brought_into_range(bits: u64, upper: u64)
    requires
        upper < 0x7FF0_0000_0000_0000,
    ensures
        bits <= upper ==> measured(bits, upper) == Some(Progress::Measured { bits }),
        upper < bits < 0x7FF0_0000_0000_0000 ==> measured(bits, upper) == Some(
            Progress::Measured { bits: upper },
        ),
        0x7FF0_0000_0000_0000 <= bits < 0x8000_0000_0000_0000 ==> measured(bits, upper) is None,
        0x8000_0000_0000_0000 < bits < 0xFFF0_0000_0000_0000 ==> measured(bits, upper) == Some(
            Progress::Measured { bits: 0 },
        ),
        bits >= 0xFFF0_0000_0000_0000 ==> measured(bits, upper) is None,
{
}

/// A report changes what it speaks of and nothing else: a count of bytes below nothing is nothing,
/// a fraction above all is all, and what is left out stays as it was.
pub proof fn law_a_report_is_entered(
    task: TaskView,
    report: BilibiliTaskProgress,
    now: Timestamp,
)
    ensures
        ({
            let after = progressed(task, report, now);
            &&& after == (TaskView {
                progress: after.progress,
                downloaded_bytes: after.downloaded_bytes,
                total_bytes: after.total_bytes,
                message: after.message,
                updated_at: Some(now),
                ..task
            })
            &&& report.progress_bits matches Some(bits) ==> bits <= 0x3FF0_0000_0000_0000
                ==> after.progress == (Progress::Measured { bits })
            &&& report.progress_bits matches Some(bits) ==> 0x3FF0_0000_0000_0000 < bits
                < 0x7FF0_0000_0000_0000 ==> after.progress == (Progress::Measured {
                bits: 0x3FF0_0000_0000_0000,
            })
            &&& report.progress_bits is None ==> after.progress == task.progress
            &&& report.downloaded_bytes matches Some(count) ==> count >= 0
                ==> after.downloaded_bytes == count
            &&& report.downloaded_bytes matches Some(count) ==> count < 0
                ==> after.downloaded_bytes == 0
            &&& report.downloaded_bytes is None ==> after.downloaded_bytes == task.downloaded_bytes
            &&& report.total_bytes matches Some(count) ==> count >= 0 ==> after.total_bytes == count
            &&& report.total_bytes matches Some(count) ==> count < 0 ==> after.total_bytes == 0
            &&& report.total_bytes is None ==> after.total_bytes == task.total_bytes
            &&& report.message matches Some(message) ==> after.message == message@
            &&& report.message is None ==> after.message == task.message
        }),
{
}

/// Reports are taken of a task that runs or was asked to stop, and on its cache of a playback that
/// is playable.
pub proof fn law_who_reports_progress(state: RegistryInnerView, id: Seq<char>)
    ensures
        takes_download_progress(state, id) <==> state.tasks_by_id.contains_key(id) && (
        state.tasks_by_id[id].state == TaskState::Running || state.tasks_by_id[id].state
            == TaskState::CancelRequested),
        takes_cache_progress(state, id) <==> state.tasks_by_id.contains_key(id)
            && state.tasks_by_id[id].state == TaskState::Playable && state.tasks_by_id[id].kind
            == TaskKind::BilibiliProgressivePlayback,
{
}

/// A change that is not written down is shown and told at once, unless clients do not see the task
/// or news of it waits: it waits with that news.
pub proof fn law_progress_is_shown_at_once_or_waits(state: RegistryInnerView, task: TaskView)
    ensures
        ({
            let after = shown_volatile(state, task);
            let at_once = state.visible_tasks_by_id.contains_key(task.id)
                && !state.pending_publications_by_id.contains_key(task.id);
            &&& at_once ==> after.visible_tasks_by_id.contains_key(task.id)
                && after.visible_tasks_by_id[task.id] == task && volatile_news(state, task)
                == Some(task) && after.pending_publications_by_id
                == state.pending_publications_by_id
            &&& !at_once ==> after.visible_tasks_by_id == state.visible_tasks_by_id
                && after.pending_publications_by_id.contains_key(task.id)
                && after.pending_publications_by_id[task.id] == task && volatile_news(
                state,
                task,
            ) is None
            &&& forall|other: Seq<char>| #[trigger]
                state.visible_tasks_by_id.contains_key(other) && other != task.id
                    ==> after.visible_tasks_by_id.contains_key(other)
                    && after.visible_tasks_by_id[other] == state.visible_tasks_by_id[other]
            &&& after.tasks_by_id == state.tasks_by_id
            &&& after.outputs_by_task_id == state.outputs_by_task_id
            &&& after.queued_task_ids == state.queued_task_ids
        }),
{
}

/// A task that has ended is asked for nothing any more: its request may start another task, it
/// cannot be stopped and its options are forgotten. What belongs to other tasks stays.
pub proof fn law_an_ended_task_is_let_go(state: RegistryInnerView, task: TaskView)
    requires
        task.kind == TaskKind::BilibiliDownload,
    ensures
        ({
            let after = with_ended_task(state, task);
            let options = if state.download_options_by_id.contains_key(task.id) {
                state.download_options_by_id[task.id]
            } else {
                None
            };
            let key = download_key(task.source, options);
            &&& after.tasks_by_id == state.tasks_by_id.insert(task.id, task)
            &&& after.pending_publications_by_id == state.pending_publications_by_id.insert(
                task.id,
                task,
            )
            &&& state.active_task_ids_by_key.contains_key(key) && state.active_task_ids_by_key[key]
                == task.id ==> !after.active_task_ids_by_key.contains_key(key)
            &&& forall|other: ActiveBilibiliTaskKeyView| #[trigger]
                state.active_task_ids_by_key.contains_key(other)
                    && state.active_task_ids_by_key[other] != task.id
                    ==> after.active_task_ids_by_key.contains_key(other)
                    && after.active_task_ids_by_key[other] == state.active_task_ids_by_key[other]
            &&& !after.running_cancellations_by_id.contains_key(task.id)
            &&& !after.planning_cancellations_by_id.contains_key(task.id)
            &&& !after.download_options_by_id.contains_key(task.id)
            &&& !after.playback_options_by_id.contains_key(task.id)
            &&& forall|other: Seq<char>| #[trigger]
                state.running_cancellations_by_id.contains_key(other) && other != task.id
                    ==> after.running_cancellations_by_id.contains_key(other)
                    && after.running_cancellations_by_id[other]
                    == state.running_cancellations_by_id[other]
            &&& forall|other: Seq<char>| #[trigger]
                state.planning_cancellations_by_id.contains_key(other) && other != task.id
                    ==> after.planning_cancellations_by_id.contains_key(other)
                    && after.planning_cancellations_by_id[other]
                    == state.planning_cancellations_by_id[other]
            &&& forall|other: Seq<char>| #[trigger]
                state.download_options_by_id.contains_key(other) && other != task.id
                    ==> after.download_options_by_id.contains_key(other)
                    && after.download_options_by_id[other] == state.download_options_by_id[other]
            &&& after.outputs_by_task_id == state.outputs_by_task_id
            &&& after.visible_tasks_by_id == state.visible_tasks_by_id
            &&& after.queued_task_ids == state.queued_task_ids
            &&& after.cancellation_flags == state.cancellation_flags
        }),
{
}

/// How a task ends: as its worker says, or as cancelled if it was asked to stop. A playback that
/// failed or was cancelled plays nothing any more. Only a success brings a library entry and
/// progress.
pub proof fn law_a_task_ends_as_its_worker_says(
    task: TaskView,
    state: TaskState,
    message: Seq<char>,
    library_item_id: Option<Seq<char>>,
    progress_bits: Option<u64>,
    now: Timestamp,
)
    requires
        state == TaskState::Succeeded || state == TaskState::Failed || state
            == TaskState::Cancelled,
    ensures
        ({
            let after = completed(task, state, message, library_item_id, progress_bits, now);
            &&& same_purpose(task, after)
            &&& after.title == task.title
            &&& after.updated_at == Some(now)
            &&& after.finished_at == Some(now)
            &&& task.state != TaskState::CancelRequested ==> after.state == state && after.message
                == message
            &&& task.state == TaskState::CancelRequested ==> after.state == TaskState::Cancelled
            &&& task.state == TaskState::CancelRequested && state == TaskState::Cancelled
                ==> after.message == message
            &&& task.state == TaskState::CancelRequested && state != TaskState::Cancelled
                ==> after.message == "Cancelled by request."@
            &&& if after.state == TaskState::Succeeded {
                &&& library_item_id matches Some(entry) ==> after.library_item_id == entry
                &&& library_item_id is None ==> after.library_item_id == task.library_item_id
                &&& progress_bits matches Some(bits) ==> bits <= 0x3FF0_0000_0000_0000
                    ==> after.progress == (Progress::Measured { bits })
                &&& progress_bits is None ==> after.progress == task.progress
                &&& after.playback_source == task.playback_source
                &&& after.playback_session == task.playback_session
                &&& after.result_items == task.result_items
            } else if task.kind == TaskKind::BilibiliProgressivePlayback {
                over_in(task, after, after.state, after.message, now)
            } else {
                &&& after.library_item_id == task.library_item_id
                &&& after.progress == task.progress
                &&& after.playback_source == task.playback_source
                &&& after.playback_session == task.playback_session
                &&& after.result_items == task.result_items
            }
        }),
{
}

/// Ending a task is refused if there is no such task, changes nothing if it has ended, and else is
/// entered and has to be written down where there is a file: where that fails, it is refused.
pub proof fn law_only_a_live_task_ends(
    registry: BilibiliTaskRegistryView,
    id: Seq<char>,
    state: TaskState,
    message: Seq<char>,
    library_item_id: Option<Seq<char>>,
    progress_bits: Option<u64>,
    now: Timestamp,
    result: Result<Step<Task>, Status>,
    after: RegistryInnerView,
)
    requires
        completion(
            registry,
            id,
            state,
            message,
            library_item_id,
            progress_bits,
            now,
            result,
            after,
        ),
    ensures
        ({
            let before = registry.inner;
            let task = before.tasks_by_id[id];
            if !before.tasks_by_id.contains_key(id) {
                result matches Err(status) && status@.code == Code::NotFound && after == before
            } else if task.state == TaskState::Succeeded || task.state == TaskState::Failed
                || task.state == TaskState::Cancelled || task.state == TaskState::Completed {
                result matches Ok(Step::Done(_)) && after == before
            } else {
                result matches Ok(Step::Commit(done, terms)) && done@ == completed(
                    task,
                    state,
                    message,
                    library_item_id,
                    progress_bits,
                    now,
                ) && after == with_ended_task(before, done@) && terms@.rollback is None
                    && terms@.durability_required == (registry.persistence is Some) && (
                settlement_problem(terms@, PersistenceCommitOutcome::Rejected) is Some
                    <==> registry.persistence is Some) && settlement_problem(
                    terms@,
                    PersistenceCommitOutcome::InstalledButNotDurable,
                ) is None && settlement_problem(
                    terms@,
                    PersistenceCommitOutcome::Durable,
                ) is None && settlement_problem(
                    terms@,
                    PersistenceCommitOutcome::Volatile,
                ) is None
            }
        }),
{
}

/// `outcome` tells of `task`, and of every session that `of` knows and of no other.
pub open spec fn tells_sessions(
    outcome: TaskCancellationOutcome,
    task: TaskView,
    of: TaskView,
) -> bool {
    &&& outcome.task@ == task
    &&& forall|session: Seq<char>| #[trigger]
        outcome.hls_session_ids.deep_view().contains(session) <==> knows(of, session)
}

/// Cancelling goes by what clients see of a task. One that has ended, or was asked to stop, stays
/// as it is; one that somebody works on is asked to stop; and any other is cancelled at once, and
/// as a playback plays nothing any more. The caller is told of all the sessions that the task knew.
pub proof fn law_cancelling_goes_by_what_is_seen(
    registry: BilibiliTaskRegistryView,
    id: Seq<char>,
    now: Timestamp,
    result: Result<Step<TaskCancellationOutcome>, Status>,
    after: RegistryInnerView,
)
    requires
        cancellation(registry, id, now, result, after),
    ensures
        ({
            let before = registry.inner;
            let seen = before.visible_tasks_by_id[id];
            let live = before.tasks_by_id[id];
            if !before.visible_tasks_by_id.contains_key(id) {
                result matches Err(status) && status@.code == Code::NotFound && after == before
            } else {
                match seen.state {
                    TaskState::Succeeded
                    | TaskState::Failed
                    | TaskState::Cancelled
                    | TaskState::Completed => result matches Ok(Step::Done(outcome))
                        && tells_sessions(outcome, seen, seen) && after == before,
                    TaskState::CancelRequested => result matches Ok(Step::Done(outcome))
                        && tells_sessions(outcome, seen, seen) && after.tasks_by_id
                        == before.tasks_by_id && after.pending_publications_by_id
                        == before.pending_publications_by_id,
                    TaskState::Running | TaskState::Preparing => if before.tasks_by_id.contains_key(
                        id,
                    ) {
                        result matches Ok(Step::Commit(outcome, terms)) && tells_sessions(
                            outcome,
                            outcome.task@,
                            live,
                        ) && asked(live, outcome.task@, now) && after.tasks_by_id
                            == before.tasks_by_id.insert(live.id, outcome.task@)
                            && after.pending_publications_by_id
                            == before.pending_publications_by_id.insert(live.id, outcome.task@)
                    } else {
                        result is Err && after.tasks_by_id == before.tasks_by_id
                    },
                    _ => if before.tasks_by_id.contains_key(id) {
                        result matches Ok(Step::Commit(outcome, terms)) && tells_sessions(
                            outcome,
                            outcome.task@,
                            live,
                        ) && cancelled(live, outcome.task@, now) && after == with_ended_task(
                            before,
                            outcome.task@,
                        ) && (live.kind == TaskKind::BilibiliProgressivePlayback && (exists|
                            session: Seq<char>,
                        | #[trigger] knows(live, session)) && registry.persistence is Some
                            ==> terms@.require_durable_commit && terms@.needed == Guarantee::Durable
                            && terms@.rollback is Some)
                    } else {
                        result is Err && after == before
                    },
                }
            }
        }),
{
    let before = registry.inner;
    let seen = before.visible_tasks_by_id[id];
    let live = before.tasks_by_id[id];
    assert forall|session: Seq<char>| #[trigger] knows(seen, session) <==>
        task_session_ids(seen).contains(session) by {
        law_tasks_know_their_sessions(seen, session);
    }
    assert forall|session: Seq<char>| #[trigger] knows(live, session) <==>
        task_session_ids(live).contains(session) by {
        law_tasks_know_their_sessions(live, session);
    }
    if let Ok(Step::Done(outcome)) = result {
        let told = outcome.hls_session_ids.deep_view();
        assert forall|session: Seq<char>| #[trigger] told.contains(session) <==> knows(
            seen,
            session,
        ) by {
            assert(told.to_set().contains(session) <==> told.contains(session));
        }
    }
    if let Ok(Step::Commit(outcome, terms)) = result {
        let told = outcome.hls_session_ids.deep_view();
        let task = outcome.task@;
        assert forall|session: Seq<char>| #[trigger] told.contains(session) <==> knows(
            live,
            session,
        ) by {
            assert(told.to_set().contains(session) <==> told.contains(session));
            law_tasks_know_their_sessions(task, session);
            if worked_on(seen.state) {
                assert(task.result_items == live.result_items);
                assert(knows(task, session) <==> knows(live, session));
            }
        }
    }
}

/// `after` is `before`, asked to stop.
pub open spec fn asked(before: TaskView, after: TaskView, now: Timestamp) -> bool {
    &&& after.state == TaskState::CancelRequested
    &&& after.message == "Cancellation requested."@
    &&& after.updated_at == Some(now)
    &&& before == (TaskView {
        state: before.state,
        message: before.message,
        updated_at: before.updated_at,
        ..after
    })
}

/// `after` is `before`, cancelled while nobody worked on it. Its library entry stays named.
pub open spec fn cancelled(before: TaskView, after: TaskView, now: Timestamp) -> bool {
    let message = "Cancelled before the download adapter started."@;
    &&& same_purpose(before, after)
    &&& after.state == TaskState::Cancelled
    &&& after.message == message
    &&& after.updated_at == Some(now)
    &&& after.finished_at == Some(now)
    &&& after.title == before.title
    &&& after.progress == before.progress
    &&& after.library_item_id == before.library_item_id
    &&& if before.kind == TaskKind::BilibiliProgressivePlayback {
        &&& after.playback_source is None
        &&& after.playback_session is None
        &&& after.result_items.len() == before.result_items.len()
        &&& forall|i: int|
            0 <= i < before.result_items.len() ==> item_over_in(
                before.result_items[i],
                #[trigger] after.result_items[i],
                TaskState::Cancelled,
                message,
            )
    } else {
        &&& after.playback_source == before.playback_source
        &&& after.playback_session == before.playback_session
        &&& after.result_items == before.result_items
    }
}

/// Whatever is still to be written down is written down before a task ends; nothing happens until
/// then, nor for a request that names no task.
pub proof fn law_a_task_ends_once_all_is_written_down(
    registry: BilibiliTaskRegistryView,
    id: Seq<char>,
    state: TaskState,
    message: Seq<char>,
    library_item_id: Option<Seq<char>>,
    progress_bits: Option<u64>,
    flushed: bool,
    now: Timestamp,
    result: Result<Step<Task>, Status>,
    after: RegistryInnerView,
)
    requires
        completion_request(
            registry,
            id,
            state,
            message,
            library_item_id,
            progress_bits,
            flushed,
            now,
            result,
            after,
        ),
    ensures
        ({
            let behind = registry.persistence matches Some(persistence) && !persistence.available;
            let named = trimmed(id).len() > 0;
            &&& !named ==> (result matches Err(status) && status@.code == Code::InvalidArgument)
                && after == registry.inner
            &&& named && behind && !flushed ==> (result matches Ok(Step::Flush(terms))
                && terms@.needed == Guarantee::Committed && terms@.durability_required
                && terms@.rollback is None) && after == registry.inner
            &&& named && (!behind || flushed) ==> completion(
                registry,
                trimmed(id),
                state,
                message,
                library_item_id,
                progress_bits,
                now,
                result,
                after,
            )
        }),
{
}

} // verus!
