//! The life of a task: claimed, worked on, cancelled, ended.

use crate::changes::{
    BilibiliTaskProgress, ONE_BITS, ask_to_stop, asked_to_stop, cancel_at_rest, cancelled_at_rest,
    closed, complete, completed, enter_progress, progressed, start, started,
};
use crate::hls::{item_uses, playback_hls_session_ids, task_session_ids};
use crate::inner::cancellation::{
    next_cancellation, stop_requested, with_next_cancellation, with_stop_requested,
};
use crate::inner::checkpoint::{checkpoint_of, consistent, lookup, options_at};
use crate::inner::publication::{staged, without_active_task};
use crate::inner::retention::forgotten_ids;
use crate::messages::CANCELLED_BY_REQUEST_MESSAGE;
use crate::model::basics::{TaskKind, TaskState, Timestamp};
use crate::model::key::ActiveBilibiliTaskKeyView;
use crate::model::options::{BilibiliDownloadOptions, BilibiliDownloadOptionsView};
use crate::model::output::TaskOutputRecordView;
use crate::model::state::{
    BilibiliTaskCancellation, BilibiliTaskCancellationView, RegistryInner, RegistryInnerView,
    RegistryMutationCheckpoint, TaskPersistenceSnapshotView,
};
use crate::model::task::{Task, TaskView};
use crate::ordered::lists;
use crate::plain::Plain;
use crate::registry::{BilibiliTaskRegistry, BilibiliTaskRegistryView};
use crate::registry::commit::{
    CommitTerms, CommitTermsView, Guarantee, PersistenceCommitOutcome, ReconciledOutputView, Step,
    catching_up, commits, kept, law_durable_commit_shows_live, law_only_ended_tasks_are_forgotten,
    lemma_reconciled_keeps, reconciled_all, settlement_problem, unconditional,
};
use crate::registry::creation::with_download;
use crate::requests::{id_problem, normalize_required_id, not_found, task_not_found, with_task};
use crate::states::{is_terminal, terminal_state};
use crate::status::{Code, Status, refusal};
use crate::text::trimmed;
use vstd::prelude::*;

verus! {

impl BilibiliTaskCancellation {
    /// Whether whoever holds this cancellation has been asked to stop.
    pub fn is_cancel_requested(&self, registry: &BilibiliTaskRegistry) -> (requested: bool)
        ensures
            requested == stop_requested(registry@.inner, self@),
    {
        registry.inner.stop_is_requested(self)
    }
}

/// A cancelled task, and the sessions that were served for it.
pub struct TaskCancellationOutcome {
    pub task: Task,
    pub hls_session_ids: Vec<String>,
}

/// `state` with whoever holds the cancellation of `id`, if there is one, asked to stop.
pub open spec fn holder_asked(
    state: RegistryInnerView,
    cancellations: Map<Seq<char>, BilibiliTaskCancellationView>,
    id: Seq<char>,
) -> RegistryInnerView {
    if cancellations.contains_key(id) {
        with_stop_requested(state, cancellations[id])
    } else {
        state
    }
}

/// `state` with whoever works on the task `id` asked to stop.
pub open spec fn workers_asked(state: RegistryInnerView, id: Seq<char>) -> RegistryInnerView {
    holder_asked(
        holder_asked(state, state.running_cancellations_by_id, id),
        state.planning_cancellations_by_id,
        id,
    )
}

impl RegistryInner {
    fn ask_workers(&mut self, id: &String)
        ensures
            final(self)@ == workers_asked(old(self)@, id@),
    {
        let running = match self.running_cancellations_by_id.get(id) {
            Some(cancellation) => Some(cancellation.duplicate()),
            None => None,
        };
        if let Some(cancellation) = running {
            cancellation.request_cancel(self);
        }
        let planning = match self.planning_cancellations_by_id.get(id) {
            Some(cancellation) => Some(cancellation.duplicate()),
            None => None,
        };
        if let Some(cancellation) = planning {
            cancellation.request_cancel(self);
        }
    }
}

/// Somebody works on a task in this state.
pub open spec fn worked_on(state: TaskState) -> bool {
    state == TaskState::Running || state == TaskState::Preparing || state
        == TaskState::CancelRequested
}

pub open spec fn told_of(outcome: TaskCancellationOutcome, task: TaskView, of: TaskView) -> bool {
    outcome.task@ == task && lists(outcome.hls_session_ids.deep_view(), task_session_ids(of))
}

/// `state` with the task `task` ended: it replaces the live one, nothing is left of what only an
/// active task needs, and the news of it waits to be told.
pub open spec fn with_ended_task(state: RegistryInnerView, task: TaskView) -> RegistryInnerView {
    staged(without_active_task(with_task(state, task), task), task)
}

/// What cancelling the task `id` does, once nothing is left to be written down from before.
pub open spec fn cancellation(
    registry: BilibiliTaskRegistryView,
    id: Seq<char>,
    now: Timestamp,
    result: Result<Step<TaskCancellationOutcome>, Status>,
    after: RegistryInnerView,
) -> bool {
    let state = registry.inner;
    let on_disk = registry.persistence is Some;
    let refusal = "Task cancellation could not be persisted durably."@;
    if !state.visible_tasks_by_id.contains_key(id) {
        result matches Err(status) && status@ == not_found() && after == state
    } else if terminal_state(state.visible_tasks_by_id[id].state) {
        let seen = state.visible_tasks_by_id[id];
        result matches Ok(Step::Done(outcome)) && told_of(outcome, seen, seen) && after == state
    } else if state.visible_tasks_by_id[id].state == TaskState::CancelRequested {
        let seen = state.visible_tasks_by_id[id];
        result matches Ok(Step::Done(outcome)) && told_of(outcome, seen, seen) && after
            == workers_asked(state, id)
    } else if worked_on(state.visible_tasks_by_id[id].state) {
        if !state.tasks_by_id.contains_key(id) {
            result matches Err(status) && status@ == not_found() && after == workers_asked(
                state,
                id,
            )
        } else {
            let task = asked_to_stop(state.tasks_by_id[id], now);
            result matches Ok(Step::Commit(outcome, terms)) && told_of(outcome, task, task)
                && terms@ == kept(on_disk, None, false, Guarantee::Committed, refusal) && after
                == staged(with_task(workers_asked(state, id), task), task)
        }
    } else if !state.tasks_by_id.contains_key(id) {
        result matches Err(status) && status@ == not_found() && after == state
    } else {
        let task = cancelled_at_rest(state.tasks_by_id[id], now);
        let deletes_sessions = task.is_playback() && !(task_session_ids(state.tasks_by_id[id])
            =~= Set::empty());
        result matches Ok(Step::Commit(outcome, terms)) && told_of(
            outcome,
            task,
            state.tasks_by_id[id],
        ) && terms@ == kept(
            on_disk,
            Some(checkpoint_of(state)),
            deletes_sessions,
            if deletes_sessions {
                Guarantee::Durable
            } else {
                Guarantee::Committed
            },
            refusal,
        ) && after == with_ended_task(state, task)
    }
}

impl BilibiliTaskRegistry {
    /// Cancels a task, and says which sessions were served for it. A task that somebody works on
    /// is asked to stop; one that has ended stays as it is.
    pub fn cancel_task_with_hls_session_ids(
        &mut self,
        id: &str,
        flushed: bool,
        now: Timestamp,
    ) -> (result: Result<Step<TaskCancellationOutcome>, Status>)
        requires
            old(self)@.well_formed(),
        ensures
            final(self)@.well_formed(),
            final(self)@.continues(old(self)@),
            final(self)@ == old(self)@.with_inner(final(self)@.inner),
            match id_problem(id@) {
                Some(problem) => result matches Err(status) && status@ == problem && final(self)@
                    == old(self)@,
                None => if old(self)@.behind_on_disk() && !flushed {
                    result matches Ok(Step::Flush(terms)) && terms@ == catching_up(
                        Guarantee::Durable,
                        "Pending task state could not be persisted before cancellation."@,
                    ) && final(self)@ == old(self)@
                } else {
                    cancellation(old(self)@, trimmed(id@), now, result, final(self)@.inner)
                },
            },
    {
        let normalized_id = match normalize_required_id(id) {
            Ok(normalized_id) => normalized_id,
            Err(status) => return Err(status),
        };
        if self.behind_on_disk() && !flushed {
            return Ok(
                Step::Flush(
                    CommitTerms::catching_up(
                        Guarantee::Durable,
                        "Pending task state could not be persisted before cancellation.",
                    ),
                ),
            );
        }
        let seen = match self.inner.visible_tasks_by_id.get(&normalized_id) {
            Some(task) => task.duplicate(),
            None => return Err(task_not_found()),
        };
        let on_disk: bool = self.persistence.is_some();
        let refusal: &'static str = "Task cancellation could not be persisted durably.";
        if is_terminal(seen.state) {
            let hls_session_ids = playback_hls_session_ids(&seen);
            return Ok(Step::Done(TaskCancellationOutcome { task: seen, hls_session_ids }));
        }
        if matches!(
            seen.state,
            TaskState::Running | TaskState::Preparing | TaskState::CancelRequested
        ) {
            self.inner.ask_workers(&normalized_id);
            proof {
                assert(self@.inner == workers_asked(old(self)@.inner, normalized_id@));
                assert(self@.well_formed());
            }
            if seen.state == TaskState::CancelRequested {
                let hls_session_ids = playback_hls_session_ids(&seen);
                return Ok(Step::Done(TaskCancellationOutcome { task: seen, hls_session_ids }));
            }
            let mut task = match self.inner.tasks_by_id.get(&normalized_id) {
                Some(task) => task.duplicate(),
                None => return Err(task_not_found()),
            };
            ask_to_stop(&mut task, now);
            self.inner.put_task(task.duplicate());
            self.inner.stage_publication(task.duplicate());
            let hls_session_ids = playback_hls_session_ids(&task);
            return Ok(
                Step::Commit(
                    TaskCancellationOutcome { task, hls_session_ids },
                    CommitTerms::kept(on_disk, None, false, Guarantee::Committed, refusal),
                ),
            );
        }
        let checkpoint = RegistryMutationCheckpoint::capture(&self.inner);
        let mut task = match self.inner.tasks_by_id.get(&normalized_id) {
            Some(task) => task.duplicate(),
            None => return Err(task_not_found()),
        };
        let hls_session_ids = playback_hls_session_ids(&task);
        cancel_at_rest(&mut task, now);
        self.inner.put_task(task.duplicate());
        self.inner.clear_active_task(&task);
        self.inner.stage_publication(task.duplicate());
        let deletes_sessions: bool = task.kind == TaskKind::BilibiliProgressivePlayback
            && hls_session_ids.len() > 0;
        proof {
            let ids = hls_session_ids.deep_view();
            if ids.len() > 0 {
                assert(ids.to_set().contains(ids[0]));
            } else {
                assert(ids.to_set() =~= Set::empty());
            }
        }
        Ok(
            Step::Commit(
                TaskCancellationOutcome { task, hls_session_ids },
                CommitTerms::kept(
                    on_disk,
                    Some(checkpoint),
                    deletes_sessions,
                    if deletes_sessions {
                        Guarantee::Durable
                    } else {
                        Guarantee::Committed
                    },
                    refusal,
                ),
            ),
        )
    }

    pub fn cancel_task(
        &mut self,
        id: &str,
        flushed: bool,
        now: Timestamp,
    ) -> (result: Result<Step<Task>, Status>)
        requires
            old(self)@.well_formed(),
        ensures
            final(self)@.well_formed(),
            final(self)@.continues(old(self)@),
            final(self)@ == old(self)@.with_inner(final(self)@.inner),
            match id_problem(id@) {
                Some(problem) => result matches Err(status) && status@ == problem && final(self)@
                    == old(self)@,
                None => if old(self)@.behind_on_disk() && !flushed {
                    result matches Ok(Step::Flush(terms)) && terms@ == catching_up(
                        Guarantee::Durable,
                        "Pending task state could not be persisted before cancellation."@,
                    ) && final(self)@ == old(self)@
                } else {
                    exists|full: Result<Step<TaskCancellationOutcome>, Status>| #[trigger]
                        cancellation(old(self)@, trimmed(id@), now, full, final(self)@.inner)
                            && result == without_sessions(full)
                },
            },
    {
        match self.cancel_task_with_hls_session_ids(id, flushed, now) {
            Ok(Step::Done(outcome)) => {
                proof {
                    let full = Ok::<_, Status>(Step::Done(outcome));
                    assert(without_sessions(full) == Ok::<_, Status>(Step::Done(outcome.task)));
                }
                Ok(Step::Done(outcome.task))
            },
            Ok(Step::Flush(terms)) => Ok(Step::Flush(terms)),
            Ok(Step::Commit(outcome, terms)) => {
                proof {
                    let full = Ok::<_, Status>(Step::Commit(outcome, terms));
                    assert(without_sessions(full) == Ok::<_, Status>(
                        Step::Commit(outcome.task, terms),
                    ));
                }
                Ok(Step::Commit(outcome.task, terms))
            },
            Err(status) => {
                proof {
                    let full = Err::<Step<TaskCancellationOutcome>, _>(status);
                    assert(without_sessions(full) == Err::<Step<Task>, _>(status));
                }
                Err(status)
            },
        }
    }
}

/// The answer without the sessions.
pub open spec fn without_sessions(
    result: Result<Step<TaskCancellationOutcome>, Status>,
) -> Result<Step<Task>, Status> {
    match result {
        Ok(Step::Done(outcome)) => Ok(Step::Done(outcome.task)),
        Ok(Step::Flush(terms)) => Ok(Step::Flush(terms)),
        Ok(Step::Commit(outcome, terms)) => Ok(Step::Commit(outcome.task, terms)),
        Err(status) => Err(status),
    }
}

/// The work that a worker has claimed.
pub struct BilibiliTaskWorkItem {
    pub task_id: String,
    pub source: String,
    pub options: Option<BilibiliDownloadOptions>,
    pub cancellation: BilibiliTaskCancellation,
}

/// The task `queue[index]` waits for a worker.
pub open spec fn waits(state: RegistryInnerView, index: int) -> bool {
    let id = state.queued_task_ids[index];
    state.tasks_by_id.contains_key(id) && state.tasks_by_id[id].state == TaskState::Queued
}

/// The place in the queue of the first task that waits for a worker, counted from `start`.
pub open spec fn first_waiting(state: RegistryInnerView, start: int) -> Option<int>
    decreases state.queued_task_ids.len() - start,
{
    if start < 0 || start >= state.queued_task_ids.len() {
        None
    } else if waits(state, start) {
        Some(start)
    } else {
        first_waiting(state, start + 1)
    }
}

/// `state` with the task at `index` of the queue claimed, and all before it dropped from the queue.
pub open spec fn claimed_at(
    state: RegistryInnerView,
    index: int,
    now: Timestamp,
) -> RegistryInnerView {
    let id = state.queued_task_ids[index];
    let task = started(state.tasks_by_id[id], now);
    staged(
        RegistryInnerView {
            queued_task_ids: state.queued_task_ids.skip(index + 1),
            running_cancellations_by_id: state.running_cancellations_by_id.insert(
                id,
                next_cancellation(state),
            ),
            ..with_task(with_next_cancellation(state), task)
        },
        task,
    )
}

fn pop_front(queue: &mut Vec<String>) -> (first: Option<String>)
    ensures
        old(queue)@.len() == 0 ==> first is None && final(queue).deep_view() == old(
            queue,
        ).deep_view(),
        old(queue)@.len() > 0 ==> first is Some && first->0@ == old(queue).deep_view()[0]
            && final(queue).deep_view() == old(queue).deep_view().skip(1),
{
    if queue.len() == 0 {
        return None;
    }
    let ghost before = queue.deep_view();
    let first = queue.remove(0);
    proof {
        assert(queue.deep_view() =~= before.skip(1));
    }
    Some(first)
}

impl BilibiliTaskRegistry {
    /// Hands the task that has waited longest to a worker. What stands before it in the queue and
    /// does not wait any more is dropped.
    pub fn try_claim_next_bilibili_task(
        &mut self,
        now: Timestamp,
    ) -> (step: Step<Option<BilibiliTaskWorkItem>>)
        requires
            old(self)@.well_formed(),
        ensures
            final(self)@.well_formed(),
            final(self)@.continues(old(self)@),
            match first_waiting(old(self)@.inner, 0) {
                None => step matches Step::Done(None) && final(self)@ == old(self)@.with_inner(
                    RegistryInnerView { queued_task_ids: Seq::empty(), ..old(self)@.inner },
                ),
                Some(index) => {
                    let state = old(self)@.inner;
                    let id = state.queued_task_ids[index];
                    &&& step matches Step::Commit(Some(work_item), terms) && work_item.task_id@
                        == state.tasks_by_id[id].id && work_item.source@
                        == state.tasks_by_id[id].source && work_item.options.deep_view()
                        == options_at(state.download_options_by_id, id)
                        && work_item.cancellation@
                        == final(self)@.inner.running_cancellations_by_id[id] && terms@
                        == unconditional()
                    &&& final(self)@ == old(self)@.with_inner(claimed_at(state, index, now))
                },
            },
    {
        let ghost before = self@;
        let ghost state = self@.inner;
        let ghost mut dropped: int = 0;
        proof {
            assert(state.queued_task_ids.skip(0) =~= state.queued_task_ids);
        }
        while self.inner.queued_task_ids.len() > 0
            invariant
                before == old(self)@,
                before.well_formed(),
                state == before.inner,
                0 <= dropped <= state.queued_task_ids.len(),
                self@ == before.with_inner(
                    RegistryInnerView {
                        queued_task_ids: state.queued_task_ids.skip(dropped),
                        ..state
                    },
                ),
                first_waiting(state, 0) == first_waiting(state, dropped),
            decreases self.inner.queued_task_ids@.len(),
        {
            proof {
                assert(self.inner.queued_task_ids.deep_view().len()
                    == self.inner.queued_task_ids@.len());
                assert(state.queued_task_ids.skip(dropped)[0] == state.queued_task_ids[dropped]);
                assert(state.queued_task_ids.skip(dropped).skip(1) =~= state.queued_task_ids.skip(
                    dropped + 1,
                ));
            }
            let popped = pop_front(&mut self.inner.queued_task_ids);
            if let Some(task_id) = popped {
                let waiting = match self.inner.tasks_by_id.get(&task_id) {
                    Some(task) => if task.state == TaskState::Queued {
                        Some(task.duplicate())
                    } else {
                        None
                    },
                    None => None,
                };
                if let Some(mut task) = waiting {
                    let options = match self.inner.download_options_by_id.get(&task_id) {
                        Some(options) => options.duplicate(),
                        None => None,
                    };
                    start(&mut task, now);
                    let cancellation = self.inner.new_cancellation();
                    self.inner.put_task(task.duplicate());
                    self.inner.running_cancellations_by_id.insert(
                        task_id,
                        cancellation.duplicate(),
                    );
                    let work_item = BilibiliTaskWorkItem {
                        task_id: task.id.clone(),
                        source: task.source.clone(),
                        options,
                        cancellation,
                    };
                    self.inner.stage_publication(task);
                    proof {
                        assert(first_waiting(state, dropped) == Some(dropped));
                        assert(self@.inner =~= claimed_at(state, dropped, now));
                    }
                    return Step::Commit(Some(work_item), CommitTerms::unconditional());
                }
            }
            proof {
                dropped = dropped + 1;
            }
        }
        proof {
            assert(self.inner.queued_task_ids.deep_view() =~= Seq::<Seq<char>>::empty());
            assert(state.queued_task_ids.skip(dropped).len() == state.queued_task_ids.len()
                - dropped);
        }
        Step::Done(None)
    }
}

/// `state` with a change to `task` shown that is not written down.
pub open spec fn shown_volatile(state: RegistryInnerView, task: TaskView) -> RegistryInnerView {
    if state.pending_publications_by_id.contains_key(task.id)
        || !state.visible_tasks_by_id.contains_key(task.id) {
        staged(state, task)
    } else {
        RegistryInnerView {
            visible_tasks_by_id: state.visible_tasks_by_id.insert(task.id, task),
            ..state
        }
    }
}

/// What clients are told at once of a change that is not written down.
pub open spec fn volatile_news(state: RegistryInnerView, task: TaskView) -> Option<TaskView> {
    if state.pending_publications_by_id.contains_key(task.id)
        || !state.visible_tasks_by_id.contains_key(task.id) {
        None
    } else {
        Some(task)
    }
}

/// Whether a report was entered, and what clients are told of it at once.
pub struct ProgressReceipt {
    pub accepted: bool,
    pub news: Option<Task>,
}

/// The task `id` takes a worker's reports.
pub open spec fn takes_download_progress(state: RegistryInnerView, id: Seq<char>) -> bool {
    state.tasks_by_id.contains_key(id) && (state.tasks_by_id[id].state == TaskState::Running
        || state.tasks_by_id[id].state == TaskState::CancelRequested)
}

/// The task `id` takes reports on how far its cache is filled.
pub open spec fn takes_cache_progress(state: RegistryInnerView, id: Seq<char>) -> bool {
    state.tasks_by_id.contains_key(id) && state.tasks_by_id[id].is_playback()
        && state.tasks_by_id[id].state == TaskState::Playable
}

impl BilibiliTaskRegistry {
    fn enter_report(&mut self, mut task: Task, report: BilibiliTaskProgress, now: Timestamp) -> (
    receipt: ProgressReceipt)
        requires
            old(self)@.well_formed(),
            old(self)@.inner.tasks_by_id.contains_key(task@.id),
        ensures
            final(self)@.well_formed(),
            final(self)@.continues(old(self)@),
            ({
                let changed = progressed(task@, report, now);
                let state = with_task(old(self)@.inner, changed);
                &&& receipt.accepted
                &&& receipt.news.deep_view() == volatile_news(state, changed)
                &&& final(self)@ == old(self)@.with_inner(shown_volatile(state, changed))
            }),
    {
        enter_progress(&mut task, report, now);
        self.inner.put_task(task.duplicate());
        let news = self.inner.publish_volatile(task);
        proof {
            let state = self@.inner;
            assert(state.tasks_by_id.dom() =~= state.outputs_by_task_id.dom());
            assert(state.visible_tasks_by_id.dom() =~= state.visible_outputs_by_task_id.dom());
        }
        ProgressReceipt { accepted: true, news }
    }

    /// Enters a worker's report. It is shown but not written down.
    pub fn update_task_progress(
        &mut self,
        id: &str,
        report: BilibiliTaskProgress,
        now: Timestamp,
    ) -> (receipt: ProgressReceipt)
        requires
            old(self)@.well_formed(),
        ensures
            final(self)@.well_formed(),
            final(self)@.continues(old(self)@),
            receipt.accepted == takes_download_progress(old(self)@.inner, id@),
            !receipt.accepted ==> receipt.news is None && final(self)@ == old(self)@,
            receipt.accepted ==> {
                let changed = progressed(old(self)@.inner.tasks_by_id[id@], report, now);
                let state = with_task(old(self)@.inner, changed);
                &&& receipt.news.deep_view() == volatile_news(state, changed)
                &&& final(self)@ == old(self)@.with_inner(shown_volatile(state, changed))
            },
    {
        let id = id.to_owned();
        let found = match self.inner.tasks_by_id.get(&id) {
            Some(task) => if matches!(task.state, TaskState::Running | TaskState::CancelRequested) {
                Some(task.duplicate())
            } else {
                None
            },
            None => None,
        };
        match found {
            Some(task) => self.enter_report(task, report, now),
            None => ProgressReceipt { accepted: false, news: None },
        }
    }

    /// Enters a report on how far the cache of a playback task is filled. It is shown but not
    /// written down.
    pub fn update_playback_cache_progress(
        &mut self,
        id: &str,
        report: BilibiliTaskProgress,
        now: Timestamp,
    ) -> (receipt: ProgressReceipt)
        requires
            old(self)@.well_formed(),
        ensures
            final(self)@.well_formed(),
            final(self)@.continues(old(self)@),
            receipt.accepted == takes_cache_progress(old(self)@.inner, id@),
            !receipt.accepted ==> receipt.news is None && final(self)@ == old(self)@,
            receipt.accepted ==> {
                let changed = progressed(old(self)@.inner.tasks_by_id[id@], report, now);
                let state = with_task(old(self)@.inner, changed);
                &&& receipt.news.deep_view() == volatile_news(state, changed)
                &&& final(self)@ == old(self)@.with_inner(shown_volatile(state, changed))
            },
    {
        let id = id.to_owned();
        let found = match self.inner.tasks_by_id.get(&id) {
            Some(task) => if task.kind == TaskKind::BilibiliProgressivePlayback && task.state
                == TaskState::Playable {
                Some(task.duplicate())
            } else {
                None
            },
            None => None,
        };
        match found {
            Some(task) => self.enter_report(task, report, now),
            None => ProgressReceipt { accepted: false, news: None },
        }
    }
}

/// What ending the task `id` does, once nothing is left to be written down from before.
pub open spec fn completion(
    registry: BilibiliTaskRegistryView,
    id: Seq<char>,
    state: TaskState,
    message: Seq<char>,
    library_item_id: Option<Seq<char>>,
    progress_bits: Option<u64>,
    now: Timestamp,
    result: Result<Step<Task>, Status>,
    after: RegistryInnerView,
) -> bool {
    let before = registry.inner;
    if !before.tasks_by_id.contains_key(id) {
        result matches Err(status) && status@ == not_found() && after == before
    } else if before.tasks_by_id[id].is_terminal() {
        let shown = if before.visible_tasks_by_id.contains_key(id) {
            before.visible_tasks_by_id[id]
        } else {
            before.tasks_by_id[id]
        };
        result matches Ok(Step::Done(task)) && task@ == shown && after == before
    } else {
        let ended = completed(
            before.tasks_by_id[id],
            state,
            message,
            library_item_id,
            progress_bits,
            now,
        );
        result matches Ok(Step::Commit(task, terms)) && task@ == ended && terms@ == kept(
            registry.persistence is Some,
            None,
            false,
            Guarantee::Committed,
            "Task completion could not be persisted durably."@,
        ) && after == with_ended_task(before, ended)
    }
}

/// What a request to end the task `id` does. A task that has ended stays as it is.
pub open spec fn completion_request(
    registry: BilibiliTaskRegistryView,
    id: Seq<char>,
    state: TaskState,
    message: Seq<char>,
    library_item_id: Option<Seq<char>>,
    progress_bits: Option<u64>,
    flushed: bool,
    now: Timestamp,
    result: Result<Step<Task>, Status>,
    after: RegistryInnerView,
) -> bool {
    match id_problem(id) {
        Some(problem) => result matches Err(status) && status@ == problem && after
            == registry.inner,
        None => if registry.behind_on_disk() && !flushed {
            result matches Ok(Step::Flush(terms)) && terms@ == catching_up(
                Guarantee::Committed,
                "Pending task state could not be persisted before task completion."@,
            ) && after == registry.inner
        } else {
            completion(
                registry,
                trimmed(id),
                state,
                message,
                library_item_id,
                progress_bits,
                now,
                result,
                after,
            )
        },
    }
}

impl BilibiliTaskRegistry {
    fn complete_task(
        &mut self,
        id: &str,
        state: TaskState,
        message: String,
        library_item_id: Option<String>,
        progress_bits: Option<u64>,
        flushed: bool,
        now: Timestamp,
    ) -> (result: Result<Step<Task>, Status>)
        requires
            old(self)@.well_formed(),
            terminal_state(state),
        ensures
            final(self)@.well_formed(),
            final(self)@.continues(old(self)@),
            final(self)@ == old(self)@.with_inner(final(self)@.inner),
            completion_request(
                old(self)@,
                id@,
                state,
                message@,
                library_item_id.deep_view(),
                progress_bits,
                flushed,
                now,
                result,
                final(self)@.inner,
            ),
    {
        let normalized_id = match normalize_required_id(id) {
            Ok(normalized_id) => normalized_id,
            Err(status) => return Err(status),
        };
        if self.behind_on_disk() && !flushed {
            return Ok(
                Step::Flush(
                    CommitTerms::catching_up(
                        Guarantee::Committed,
                        "Pending task state could not be persisted before task completion.",
                    ),
                ),
            );
        }
        let mut task = match self.inner.tasks_by_id.get(&normalized_id) {
            Some(task) => task.duplicate(),
            None => return Err(task_not_found()),
        };
        if is_terminal(task.state) {
            return Ok(
                Step::Done(
                    match self.inner.visible_tasks_by_id.get(&normalized_id) {
                        Some(shown) => shown.duplicate(),
                        None => task,
                    },
                ),
            );
        }
        complete(&mut task, state, message, library_item_id, progress_bits, now);
        self.inner.put_task(task.duplicate());
        self.inner.clear_active_task(&task);
        self.inner.stage_publication(task.duplicate());
        let on_disk: bool = self.persistence.is_some();
        Ok(
            Step::Commit(
                task,
                CommitTerms::kept(
                    on_disk,
                    None,
                    false,
                    Guarantee::Committed,
                    "Task completion could not be persisted durably.",
                ),
            ),
        )
    }

    pub fn complete_task_succeeded(
        &mut self,
        id: &str,
        library_item_id: String,
        message: String,
        flushed: bool,
        now: Timestamp,
    ) -> (result: Result<Step<Task>, Status>)
        requires
            old(self)@.well_formed(),
        ensures
            final(self)@.well_formed(),
            final(self)@.continues(old(self)@),
            final(self)@ == old(self)@.with_inner(final(self)@.inner),
            completion_request(
                old(self)@,
                id@,
                TaskState::Succeeded,
                message@,
                Some(library_item_id@),
                Some(ONE_BITS),
                flushed,
                now,
                result,
                final(self)@.inner,
            ),
    {
        self.complete_task(
            id,
            TaskState::Succeeded,
            message,
            Some(library_item_id),
            Some(ONE_BITS),
            flushed,
            now,
        )
    }

    pub fn complete_task_failed(
        &mut self,
        id: &str,
        message: String,
        flushed: bool,
        now: Timestamp,
    ) -> (result: Result<Step<Task>, Status>)
        requires
            old(self)@.well_formed(),
        ensures
            final(self)@.well_formed(),
            final(self)@.continues(old(self)@),
            final(self)@ == old(self)@.with_inner(final(self)@.inner),
            completion_request(
                old(self)@,
                id@,
                TaskState::Failed,
                message@,
                None,
                None,
                flushed,
                now,
                result,
                final(self)@.inner,
            ),
    {
        self.complete_task(id, TaskState::Failed, message, None, None, flushed, now)
    }

    pub fn complete_task_cancelled(
        &mut self,
        id: &str,
        message: String,
        flushed: bool,
        now: Timestamp,
    ) -> (result: Result<Step<Task>, Status>)
        requires
            old(self)@.well_formed(),
        ensures
            final(self)@.well_formed(),
            final(self)@.continues(old(self)@),
            final(self)@ == old(self)@.with_inner(final(self)@.inner),
            completion_request(
                old(self)@,
                id@,
                TaskState::Cancelled,
                message@,
                None,
                None,
                flushed,
                now,
                result,
                final(self)@.inner,
            ),
    {
        self.complete_task(id, TaskState::Cancelled, message, None, None, flushed, now)
    }

    /// Whether the worker on a task has been asked to stop.
    pub fn is_cancel_requested(&self, id: &str) -> (requested: bool)
        ensures
            requested == if self@.inner.running_cancellations_by_id.contains_key(id@) {
                stop_requested(self@.inner, self@.inner.running_cancellations_by_id[id@])
            } else {
                self@.inner.planning_cancellations_by_id.contains_key(id@) && stop_requested(
                    self@.inner,
                    self@.inner.planning_cancellations_by_id[id@],
                )
            },
    {
        let id = id.to_owned();
        match self.inner.running_cancellations_by_id.get(&id) {
            Some(cancellation) => cancellation.is_cancel_requested(self),
            None => match self.inner.planning_cancellations_by_id.get(&id) {
                Some(cancellation) => cancellation.is_cancel_requested(self),
                None => false,
            },
        }
    }
}

/// Once a task has ended, ending it again changes nothing, whatever the new end would be, and is
/// answered with the task as clients see it.
pub proof fn law_an_end_is_final(
    registry: BilibiliTaskRegistryView,
    id: Seq<char>,
    state: TaskState,
    message: Seq<char>,
    library_item_id: Option<Seq<char>>,
    progress_bits: Option<u64>,
    now: Timestamp,
    result: Result<Step<Task>, Status>,
    after: RegistryInnerView,
)
    requires
        registry.inner.tasks_by_id.contains_key(id),
        registry.inner.tasks_by_id[id].is_terminal(),
        completion(
            registry,
            id,
            state,
            message,
            library_item_id,
            progress_bits,
            now,
            result,
            after,
        ),
    ensures
        after == registry.inner,
        result matches Ok(Step::Done(task)) && task@ == match lookup(
            registry.inner.visible_tasks_by_id,
            id,
        ) {
            Some(shown) => shown,
            None => registry.inner.tasks_by_id[id],
        },
{
}

/// Ending a task again, whatever the new end would be, gives the answer that ending it gave, and
/// changes nothing: the task has ended, with the same state, message, library item, progress and
/// time. So it is without a file, and with one that took the end durably, as long as the task has
/// not been forgotten. It is also so of a task that had ended before, if clients see it as it is.
pub proof fn law_ending_again_gives_the_same_answer(
    registry: BilibiliTaskRegistryView,
    id: Seq<char>,
    state: TaskState,
    message: Seq<char>,
    library_item_id: Option<Seq<char>>,
    progress_bits: Option<u64>,
    flushed: bool,
    now: Timestamp,
    first: Result<Step<Task>, Status>,
    ended: RegistryInnerView,
    outputs: Seq<ReconciledOutputView>,
    committed_at: Timestamp,
    snapshot: Option<TaskPersistenceSnapshotView>,
    outcome: PersistenceCommitOutcome,
    later: BilibiliTaskRegistryView,
    other_state: TaskState,
    other_message: Seq<char>,
    other_library_item_id: Option<Seq<char>>,
    other_progress_bits: Option<u64>,
    flushed_again: bool,
    later_now: Timestamp,
    second: Result<Step<Task>, Status>,
    after: RegistryInnerView,
)
    requires
        registry.well_formed(),
        terminal_state(state),
        completion_request(
            registry,
            id,
            state,
            message,
            library_item_id,
            progress_bits,
            flushed,
            now,
            first,
            ended,
        ),
        match first {
            Ok(Step::Commit(_, terms)) => commits(
                registry.with_inner(ended),
                outputs,
                true,
                committed_at,
                snapshot,
                outcome,
                terms@,
                later.inner,
            ) && (outcome == PersistenceCommitOutcome::Durable || outcome
                == PersistenceCommitOutcome::Volatile),
            Ok(Step::Done(_)) => later.inner == ended && lookup(
                registry.inner.visible_tasks_by_id,
                trimmed(id),
            ) == lookup(registry.inner.tasks_by_id, trimmed(id)),
            _ => false,
        },
        later.inner.tasks_by_id.contains_key(trimmed(id)),
        later.behind_on_disk() ==> flushed_again,
        completion_request(
            later,
            id,
            other_state,
            other_message,
            other_library_item_id,
            other_progress_bits,
            flushed_again,
            later_now,
            second,
            after,
        ),
    ensures
        after == later.inner,
        second matches Ok(Step::Done(again)) && {
            let task = match first->Ok_0 {
                Step::Commit(task, _) => task,
                Step::Done(task) => task,
                Step::Flush(_) => again,
            };
            &&& task@.is_terminal()
            &&& again@.state == task@.state
            &&& again@.message == task@.message
            &&& again@.library_item_id == task@.library_item_id
            &&& again@.progress == task@.progress
            &&& again@.finished_at == task@.finished_at
        },
{
    if let Ok(Step::Commit(_, terms)) = first {
        lemma_reconciled_keeps(ended, outputs);
        if outcome == PersistenceCommitOutcome::Durable {
            law_durable_commit_shows_live(
                registry.with_inner(ended),
                outputs,
                committed_at,
                snapshot,
                terms@,
                later.inner,
            );
        }
        assert(ended.tasks_by_id.contains_key(trimmed(id)));
    }
}

/// A cancellation that has just been made asks nobody to stop.
pub proof fn law_a_new_cancellation_asks_nobody_to_stop(state: RegistryInnerView)
    ensures
        !stop_requested(with_next_cancellation(state), next_cancellation(state)),
{
}

/// Asking to stop reaches whoever works on the task, by the very cancellation that they were
/// handed.
pub proof fn law_a_stop_request_reaches_its_workers(state: RegistryInnerView, id: Seq<char>)
    requires
        consistent(state),
    ensures
        state.running_cancellations_by_id.contains_key(id) ==> stop_requested(
            workers_asked(state, id),
            state.running_cancellations_by_id[id],
        ),
        state.planning_cancellations_by_id.contains_key(id) ==> stop_requested(
            workers_asked(state, id),
            state.planning_cancellations_by_id[id],
        ),
{
}

/// Asking to stop reaches nobody who works on another task.
pub proof fn law_a_stop_request_reaches_nobody_else(
    state: RegistryInnerView,
    id: Seq<char>,
    other: Seq<char>,
)
    requires
        consistent(state),
        id != other,
    ensures
        state.running_cancellations_by_id.contains_key(other) ==> (stop_requested(
            workers_asked(state, id),
            state.running_cancellations_by_id[other],
        ) <==> stop_requested(state, state.running_cancellations_by_id[other])),
        state.planning_cancellations_by_id.contains_key(other) ==> (stop_requested(
            workers_asked(state, id),
            state.planning_cancellations_by_id[other],
        ) <==> stop_requested(state, state.planning_cancellations_by_id[other])),
{
}

/// A request to stop outlives whatever comes of the commit after it: it stands even if the change
/// that made it is rejected and rolled back.
pub proof fn law_a_stop_request_outlives_its_commit(
    registry: BilibiliTaskRegistryView,
    outputs: Seq<ReconciledOutputView>,
    outputs_sound: bool,
    now: Timestamp,
    snapshot: Option<TaskPersistenceSnapshotView>,
    outcome: PersistenceCommitOutcome,
    terms: CommitTermsView,
    after: RegistryInnerView,
    cancellation: BilibiliTaskCancellationView,
)
    requires
        commits(registry, outputs, outputs_sound, now, snapshot, outcome, terms, after),
        stop_requested(registry.inner, cancellation),
    ensures
        stop_requested(after, cancellation),
{
    lemma_reconciled_keeps(registry.inner, outputs);
}

/// A running task whose cancellation could not be saved is refused as unavailable, and clients see
/// it as it was. All the same its worker has been asked to stop, and once a save is durable, clients
/// see that, and asking again is granted.
pub proof fn law_a_refused_cancellation_still_reaches_the_worker(
    registry: BilibiliTaskRegistryView,
    id: Seq<char>,
    now: Timestamp,
    result: Result<Step<TaskCancellationOutcome>, Status>,
    asked: RegistryInnerView,
    outputs: Seq<ReconciledOutputView>,
    outputs_sound: bool,
    committed_at: Timestamp,
    snapshot: Option<TaskPersistenceSnapshotView>,
    refused: BilibiliTaskRegistryView,
    later_outputs: Seq<ReconciledOutputView>,
    later_now: Timestamp,
    later_snapshot: Option<TaskPersistenceSnapshotView>,
    later_terms: CommitTermsView,
    caught_up: BilibiliTaskRegistryView,
    second: Result<Step<TaskCancellationOutcome>, Status>,
    after: RegistryInnerView,
)
    requires
        registry.well_formed(),
        registry.persistence is Some,
        registry.inner.tasks_by_id.contains_key(id),
        registry.inner.visible_tasks_by_id.contains_key(id),
        registry.inner.visible_tasks_by_id[id].state == TaskState::Running,
        registry.inner.running_cancellations_by_id.contains_key(id),
        cancellation(registry, id, now, result, asked),
        result matches Ok(Step::Commit(_, terms)) && commits(
            registry.with_inner(asked),
            outputs,
            outputs_sound,
            committed_at,
            snapshot,
            PersistenceCommitOutcome::Rejected,
            terms@,
            refused.inner,
        ),
        refused.well_formed(),
        commits(
            refused,
            later_outputs,
            true,
            later_now,
            later_snapshot,
            PersistenceCommitOutcome::Durable,
            later_terms,
            caught_up.inner,
        ),
        cancellation(caught_up, id, later_now, second, after),
    ensures
        result matches Ok(Step::Commit(_, terms)) && settlement_problem(
            terms@,
            PersistenceCommitOutcome::Rejected,
        ) == Some(
            refusal(Code::Unavailable, "Task cancellation could not be persisted durably."@),
        ),
        refused.inner.visible_tasks_by_id == registry.inner.visible_tasks_by_id,
        stop_requested(refused.inner, registry.inner.running_cancellations_by_id[id]),
        stop_requested(caught_up.inner, registry.inner.running_cancellations_by_id[id]),
        caught_up.inner.visible_tasks_by_id.contains_key(id),
        caught_up.inner.visible_tasks_by_id[id].state == TaskState::CancelRequested,
        second matches Ok(Step::Done(outcome)) && outcome.task@.state
            == TaskState::CancelRequested,
{
    law_a_stop_request_reaches_its_workers(registry.inner, id);
    lemma_reconciled_keeps(asked, outputs);
    lemma_reconciled_keeps(refused.inner, later_outputs);
    assert(asked.tasks_by_id.contains_key(id));
    assert(refused.inner.tasks_by_id.contains_key(id));
    law_durable_commit_shows_live(
        refused,
        later_outputs,
        later_now,
        later_snapshot,
        later_terms,
        caught_up.inner,
    );
    let live = reconciled_all(refused.inner, later_outputs);
    if forgotten_ids(live.tasks_by_id, refused.retention_policy, later_now).contains(id) {
        law_only_ended_tasks_are_forgotten(live, refused.retention_policy, later_now, id);
    }
}

/// Whoever has been asked to stop stays asked, whatever calls follow.
pub proof fn law_a_stop_request_is_never_taken_back(
    history: Seq<BilibiliTaskRegistryView>,
    index: int,
    cancellation: BilibiliTaskCancellationView,
)
    requires
        forall|i: int|
            0 <= i < history.len() - 1 ==> (#[trigger] history[i + 1]).continues(history[i]),
        0 <= index < history.len(),
        stop_requested(history[index].inner, cancellation),
    ensures
        stop_requested(history.last().inner, cancellation),
    decreases history.len() - index,
{
    if index + 1 < history.len() {
        assert(history[index + 1].continues(history[index]));
        law_a_stop_request_is_never_taken_back(history, index + 1, cancellation);
    }
}

/// A task that was asked to stop ends as cancelled, even if its worker reports a success.
pub proof fn law_a_stop_request_wins(
    task: TaskView,
    state: TaskState,
    message: Seq<char>,
    library_item_id: Option<Seq<char>>,
    progress_bits: Option<u64>,
    now: Timestamp,
)
    requires
        task.state == TaskState::CancelRequested,
        state != TaskState::Cancelled,
    ensures
        ({
            let ended = completed(task, state, message, library_item_id, progress_bits, now);
            &&& ended.state == TaskState::Cancelled
            &&& ended.message == CANCELLED_BY_REQUEST_MESSAGE@
            &&& ended.progress == task.progress
            &&& !task.is_playback() ==> ended.library_item_id == task.library_item_id
        }),
{
}

/// A task without sources and sessions uses no session.
proof fn lemma_nothing_is_served(task: TaskView)
    requires
        task.playback_source is None,
        task.playback_session is None,
        forall|i: int|
            0 <= i < task.result_items.len() ==> (#[trigger] task.result_items[i]).playback_source
                is None && task.result_items[i].playback_session is None,
    ensures
        task_session_ids(task) == Set::<Seq<char>>::empty(),
{
    assert forall|session_id: Seq<char>| !task_session_ids(task).contains(session_id) by {
        if task_session_ids(task).contains(session_id) {
            let i = choose|i: int|
                0 <= i < task.result_items.len() && item_uses(
                    #[trigger] task.result_items[i],
                    session_id,
                );
            assert(task.result_items[i].playback_source is None);
        }
    }
    assert(task_session_ids(task) =~= Set::<Seq<char>>::empty());
}

/// A task that was cancelled at rest has ended, and a playback task among them serves no session
/// any more.
pub proof fn law_a_cancelled_playback_serves_nothing(task: TaskView, now: Timestamp)
    requires
        task.is_playback(),
    ensures
        cancelled_at_rest(task, now).is_terminal(),
        task_session_ids(cancelled_at_rest(task, now)) == Set::<Seq<char>>::empty(),
{
    lemma_nothing_is_served(cancelled_at_rest(task, now));
}

/// A playback task that failed or was cancelled serves no session any more, and names no library
/// entry.
pub proof fn law_a_closed_playback_serves_nothing(
    task: TaskView,
    state: TaskState,
    message: Seq<char>,
    now: Timestamp,
)
    ensures
        task_session_ids(closed(task, state, message, now)) == Set::<Seq<char>>::empty(),
        closed(task, state, message, now).library_item_id.len() == 0,
{
    lemma_nothing_is_served(closed(task, state, message, now));
}

/// What clients see does not change when a task is brought to an end: it changes with the commit.
pub proof fn law_an_end_is_shown_by_its_commit(
    registry: BilibiliTaskRegistryView,
    id: Seq<char>,
    state: TaskState,
    message: Seq<char>,
    library_item_id: Option<Seq<char>>,
    progress_bits: Option<u64>,
    now: Timestamp,
    result: Result<Step<Task>, Status>,
    after: RegistryInnerView,
)
    requires
        completion(
            registry,
            id,
            state,
            message,
            library_item_id,
            progress_bits,
            now,
            result,
            after,
        ),
    ensures
        after.visible_tasks_by_id == registry.inner.visible_tasks_by_id,
        after.visible_outputs_by_task_id == registry.inner.visible_outputs_by_task_id,
{
}

/// What clients see does not change when a task is cancelled: it changes with the commit.
pub proof fn law_a_cancellation_is_shown_by_its_commit(
    registry: BilibiliTaskRegistryView,
    id: Seq<char>,
    now: Timestamp,
    result: Result<Step<TaskCancellationOutcome>, Status>,
    after: RegistryInnerView,
)
    requires
        cancellation(registry, id, now, result, after),
    ensures
        after.visible_tasks_by_id == registry.inner.visible_tasks_by_id,
        after.visible_outputs_by_task_id == registry.inner.visible_outputs_by_task_id,
{
}

/// Cancelling a task that has been asked to stop, or that has ended, changes no task.
pub proof fn law_cancelling_again_changes_no_task(
    registry: BilibiliTaskRegistryView,
    id: Seq<char>,
    now: Timestamp,
    result: Result<Step<TaskCancellationOutcome>, Status>,
    after: RegistryInnerView,
)
    requires
        registry.inner.visible_tasks_by_id.contains_key(id),
        registry.inner.visible_tasks_by_id[id].is_terminal()
            || registry.inner.visible_tasks_by_id[id].state == TaskState::CancelRequested,
        cancellation(registry, id, now, result, after),
    ensures
        after.tasks_by_id == registry.inner.tasks_by_id,
        after.pending_publications_by_id == registry.inner.pending_publications_by_id,
        result matches Ok(Step::Done(outcome)) && outcome.task@
            == registry.inner.visible_tasks_by_id[id],
{
}

proof fn lemma_first_waiting_with_download(
    state: RegistryInnerView,
    task: TaskView,
    key: ActiveBilibiliTaskKeyView,
    options: Option<BilibiliDownloadOptionsView>,
    output: TaskOutputRecordView,
    start: int,
)
    requires
        !state.tasks_by_id.contains_key(task.id),
        !state.queued_task_ids.contains(task.id),
        first_waiting(state, start) is Some,
    ensures
        first_waiting(with_download(state, task, key, options, output), start) == first_waiting(
            state,
            start,
        ),
    decreases state.queued_task_ids.len() - start,
{
    let after = with_download(state, task, key, options, output);
    assert(after.queued_task_ids[start] == state.queued_task_ids[start]);
    assert(state.queued_task_ids.contains(state.queued_task_ids[start]));
    assert(waits(after, start) == waits(state, start));
    if !waits(state, start) {
        lemma_first_waiting_with_download(state, task, key, options, output, start + 1);
    }
}

/// Workers claim downloads in the order in which they were registered: a new one does not go before
/// one that waits.
pub proof fn law_downloads_are_claimed_in_order(
    state: RegistryInnerView,
    task: TaskView,
    key: ActiveBilibiliTaskKeyView,
    options: Option<BilibiliDownloadOptionsView>,
    output: TaskOutputRecordView,
)
    requires
        !state.tasks_by_id.contains_key(task.id),
        !state.queued_task_ids.contains(task.id),
        first_waiting(state, 0) is Some,
    ensures
        first_waiting(with_download(state, task, key, options, output), 0) == first_waiting(
            state,
            0,
        ),
{
    lemma_first_waiting_with_download(state, task, key, options, output, 0);
}

} // verus!
