//! Playback tasks: planned, played, cached.

use crate::changes::{
    cache_fill_failed, cached, enter_cached_session, enter_results, fail_cache_fill, make_playable,
    make_playable_with_results, plan, planned, playable, playable_with_results, refresh_playback,
    refreshed_playback, with_results,
};
use crate::hls::{
    completed_task_has_playable_result_session, completed_with_online_result, has_served_result,
    task_has_playable_or_completed_result_session, task_uses_hls_session_as_primary,
    uses_as_primary,
};
use crate::inner::publication::{released_keys, staged};
use crate::model::basics::{TaskKind, TaskState, Timestamp};
use crate::model::playback::{
    BilibiliPlaybackSession, BilibiliPlaybackSessionView, PlaybackSource, PlaybackSourceView,
};
use crate::model::state::RegistryInnerView;
use crate::model::task::{BilibiliTaskResultItem, Task, TaskView};
use crate::plain::Plain;
use crate::registry::{BilibiliTaskRegistry, BilibiliTaskRegistryView};
use crate::registry::commit::{CommitTerms, Guarantee, Step, catching_up, kept, unconditional};
use crate::registry::lifecycle::with_ended_task;
use crate::requests::{
    id_problem, normalize_required_id, not_found, not_playback, task_not_found, task_not_playback,
    with_task,
};
use crate::search::{HoldsResult, TaskTest, find_task, named_serving_item};
use crate::states::{is_served, is_terminal};
use crate::status::{Code, Status, StatusView, refusal};
use crate::text::trimmed;
use vstd::prelude::*;

verus! {

/// Why a request on the playback task `id` cannot be met.
pub open spec fn playback_problem(state: RegistryInnerView, id: Seq<char>) -> Option<StatusView> {
    if id_problem(id) is Some {
        id_problem(id)
    } else if !state.tasks_by_id.contains_key(trimmed(id)) {
        Some(not_found())
    } else if !state.tasks_by_id[trimmed(id)].is_playback() {
        Some(not_playback())
    } else {
        None
    }
}

/// `state` with the plan of `task` made: its planner needs no cancellation any more.
pub open spec fn past_planning(state: RegistryInnerView, task: TaskView) -> RegistryInnerView {
    RegistryInnerView {
        planning_cancellations_by_id: state.planning_cancellations_by_id.remove(task.id),
        ..with_task(state, task)
    }
}

/// `state` with `task` playable: the same request may start a new task.
pub open spec fn past_preparation(state: RegistryInnerView, task: TaskView) -> RegistryInnerView {
    RegistryInnerView {
        active_task_ids_by_key: released_keys(state, task),
        ..past_planning(state, task)
    }
}

/// The answer to a request that replaces the task by `changed`.
pub open spec fn replaced(
    result: Result<Step<Task>, Status>,
    after: RegistryInnerView,
    before: RegistryInnerView,
    changed: TaskView,
) -> bool {
    &&& result matches Ok(Step::Commit(task, terms)) && task@ == changed && terms@
        == unconditional()
    &&& after == if changed.is_terminal() {
        with_ended_task(before, changed)
    } else if changed.state == TaskState::Planned {
        staged(past_planning(before, changed), changed)
    } else {
        staged(past_preparation(before, changed), changed)
    }
}

/// The answer to a request on a playback task: a refusal, or nothing if it has ended, or else
/// `changed`.
pub open spec fn preparation(
    result: Result<Step<Task>, Status>,
    after: RegistryInnerView,
    before: RegistryInnerView,
    id: Seq<char>,
    changed: TaskView,
) -> bool {
    match playback_problem(before, id) {
        Some(problem) => result matches Err(status) && status@ == problem && after == before,
        None => if before.tasks_by_id[trimmed(id)].is_terminal() {
            result matches Ok(Step::Done(task)) && task@ == before.tasks_by_id[trimmed(id)]
                && after == before
        } else {
            replaced(result, after, before, changed)
        },
    }
}

impl BilibiliTaskRegistry {
    fn playback_task(&self, id: &str) -> (result: Result<Task, Status>)
        ensures
            match result {
                Ok(task) => playback_problem(self@.inner, id@) is None && task@
                    == self@.inner.tasks_by_id[trimmed(id@)],
                Err(status) => playback_problem(self@.inner, id@) == Some(status@),
            },
    {
        let normalized_id = match normalize_required_id(id) {
            Ok(normalized_id) => normalized_id,
            Err(status) => return Err(status),
        };
        match self.inner.tasks_by_id.get(&normalized_id) {
            Some(task) => if task.kind == TaskKind::BilibiliProgressivePlayback {
                Ok(task.duplicate())
            } else {
                Err(task_not_playback())
            },
            None => Err(task_not_found()),
        }
    }

    /// Enters what a step of the preparation has made of a playback task.
    fn enter_preparation(&mut self, task: Task) -> (step: Step<Task>)
        requires
            old(self)@.well_formed(),
            old(self)@.inner.tasks_by_id.contains_key(task@.id),
            task@.is_terminal() || task@.state == TaskState::Planned || task@.state
                == TaskState::Playable,
        ensures
            final(self)@.well_formed(),
            final(self)@.continues(old(self)@),
            final(self)@ == old(self)@.with_inner(final(self)@.inner),
            replaced(Ok(step), final(self)@.inner, old(self)@.inner, task@),
    {
        self.inner.put_task(task.duplicate());
        if is_terminal(task.state) {
            self.inner.clear_active_task(&task);
        } else {
            let _ = self.inner.planning_cancellations_by_id.remove(&task.id);
            if task.state == TaskState::Playable {
                self.inner.clear_active_duplicate_key(&task);
            }
        }
        self.inner.stage_publication(task.duplicate());
        proof {
            assert(self@.inner.tasks_by_id.dom() =~= old(self)@.inner.tasks_by_id.dom());
        }
        Step::Commit(task, CommitTerms::unconditional())
    }

    pub fn complete_playback_planned(
        &mut self,
        id: &str,
        title: String,
        playback_session: BilibiliPlaybackSession,
        now: Timestamp,
    ) -> (result: Result<Step<Task>, Status>)
        requires
            old(self)@.well_formed(),
        ensures
            final(self)@.well_formed(),
            final(self)@.continues(old(self)@),
            final(self)@ == old(self)@.with_inner(final(self)@.inner),
            preparation(
                result,
                final(self)@.inner,
                old(self)@.inner,
                id@,
                planned(
                    old(self)@.inner.tasks_by_id[trimmed(id@)],
                    title@,
                    playback_session@,
                    now,
                ),
            ),
    {
        let mut task = match self.playback_task(id) {
            Ok(task) => task,
            Err(status) => return Err(status),
        };
        if is_terminal(task.state) {
            return Ok(Step::Done(task));
        }
        plan(&mut task, title, playback_session, now);
        Ok(self.enter_preparation(task))
    }

    pub fn complete_playback_playable(
        &mut self,
        id: &str,
        title: String,
        playback_source: PlaybackSource,
        playback_session: BilibiliPlaybackSession,
        now: Timestamp,
    ) -> (result: Result<Step<Task>, Status>)
        requires
            old(self)@.well_formed(),
        ensures
            final(self)@.well_formed(),
            final(self)@.continues(old(self)@),
            final(self)@ == old(self)@.with_inner(final(self)@.inner),
            preparation(
                result,
                final(self)@.inner,
                old(self)@.inner,
                id@,
                playable(
                    old(self)@.inner.tasks_by_id[trimmed(id@)],
                    title@,
                    playback_source@,
                    playback_session@,
                    now,
                ),
            ),
    {
        let mut task = match self.playback_task(id) {
            Ok(task) => task,
            Err(status) => return Err(status),
        };
        if is_terminal(task.state) {
            return Ok(Step::Done(task));
        }
        make_playable(&mut task, title, playback_source, playback_session, now);
        Ok(self.enter_preparation(task))
    }

    pub fn complete_playback_results_playable(
        &mut self,
        id: &str,
        title: String,
        message: String,
        playback_source: PlaybackSource,
        playback_session: BilibiliPlaybackSession,
        result_items: Vec<BilibiliTaskResultItem>,
        now: Timestamp,
    ) -> (result: Result<Step<Task>, Status>)
        requires
            old(self)@.well_formed(),
        ensures
            final(self)@.well_formed(),
            final(self)@.continues(old(self)@),
            final(self)@ == old(self)@.with_inner(final(self)@.inner),
            preparation(
                result,
                final(self)@.inner,
                old(self)@.inner,
                id@,
                playable_with_results(
                    old(self)@.inner.tasks_by_id[trimmed(id@)],
                    title@,
                    message@,
                    playback_source@,
                    playback_session@,
                    result_items.deep_view(),
                    now,
                ),
            ),
    {
        let mut task = match self.playback_task(id) {
            Ok(task) => task,
            Err(status) => return Err(status),
        };
        if is_terminal(task.state) {
            return Ok(Step::Done(task));
        }
        make_playable_with_results(
            &mut task,
            title,
            message,
            playback_source,
            playback_session,
            result_items,
            now,
        );
        Ok(self.enter_preparation(task))
    }

    /// Enters results that are on the way. `progress_bits` are the bits of a double.
    pub fn update_playback_results(
        &mut self,
        id: &str,
        title: Option<String>,
        message: String,
        progress_bits: u64,
        result_items: Vec<BilibiliTaskResultItem>,
        now: Timestamp,
    ) -> (result: Result<Step<Task>, Status>)
        requires
            old(self)@.well_formed(),
        ensures
            final(self)@.well_formed(),
            final(self)@.continues(old(self)@),
            final(self)@ == old(self)@.with_inner(final(self)@.inner),
            match playback_problem(old(self)@.inner, id@) {
                Some(problem) => result matches Err(status) && status@ == problem && final(self)@
                    == old(self)@,
                None => {
                    let before = old(self)@.inner.tasks_by_id[trimmed(id@)];
                    let changed = with_results(
                        before,
                        title.deep_view(),
                        message@,
                        progress_bits,
                        result_items.deep_view(),
                        now,
                    );
                    if before.is_terminal() {
                        result matches Ok(Step::Done(task)) && task@ == before && final(self)@
                            == old(self)@
                    } else {
                        result matches Ok(Step::Commit(task, terms)) && task@ == changed && terms@
                            == unconditional() && final(self)@.inner == staged(
                            with_task(old(self)@.inner, changed),
                            changed,
                        )
                    }
                },
            },
    {
        let mut task = match self.playback_task(id) {
            Ok(task) => task,
            Err(status) => return Err(status),
        };
        if is_terminal(task.state) {
            return Ok(Step::Done(task));
        }
        enter_results(&mut task, title, message, progress_bits, result_items, now);
        self.inner.put_task(task.duplicate());
        self.inner.stage_publication(task.duplicate());
        Ok(Step::Commit(task, CommitTerms::unconditional()))
    }
}

/// What is wrong with a task identifier and a session identifier that a client sent.
pub open spec fn ids_problem(task_id: Seq<char>, session_id: Seq<char>) -> Option<StatusView> {
    if id_problem(task_id) is Some {
        id_problem(task_id)
    } else {
        id_problem(session_id)
    }
}

/// What recording that a cache could not be filled does, once nothing is left to be written down
/// from before.
pub open spec fn cache_fill_failure(
    registry: BilibiliTaskRegistryView,
    task_id: Seq<char>,
    session_id: Seq<char>,
    message: Seq<char>,
    now: Timestamp,
    result: Result<Step<Option<Task>>, Status>,
    after: RegistryInnerView,
) -> bool {
    let before = registry.inner;
    match playback_problem(before, task_id) {
        Some(problem) => result matches Err(status) && status@ == problem && after == before,
        None => match cache_fill_failed(
            before.tasks_by_id[trimmed(task_id)],
            trimmed(session_id),
            message,
            now,
        ) {
            None => result matches Ok(Step::Done(None)) && after == before,
            Some(changed) => result matches Ok(Step::Commit(Some(task), terms)) && task@ == changed
                && terms@ == kept(
                registry.persistence is Some,
                None,
                false,
                Guarantee::Durable,
                "HLS cache fill failure could not be persisted durably."@,
            ) && after == staged(with_task(before, changed), changed),
        },
    }
}

/// Why the session `session_id` of `task` cannot be completed.
pub open spec fn cache_problem(task: TaskView, session_id: Seq<char>) -> Option<StatusView> {
    if task.playback_source is None || task.playback_session is None {
        Some(
            refusal(
                Code::FailedPrecondition,
                "Task does not have a playable Bilibili playback session."@,
            ),
        )
    } else if !uses_as_primary(task, session_id) && !has_served_result(task, session_id) {
        Some(
            refusal(
                Code::FailedPrecondition,
                "HLS session is not a playable task result session."@,
            ),
        )
    } else {
        None
    }
}

/// What recording that a session is completely cached does, once nothing is left to be written down
/// from before.
pub open spec fn cache_completion(
    registry: BilibiliTaskRegistryView,
    task_id: Seq<char>,
    session_id: Seq<char>,
    library_item_id: Seq<char>,
    session: Option<BilibiliPlaybackSessionView>,
    now: Timestamp,
    result: Result<Step<Task>, Status>,
    after: RegistryInnerView,
) -> bool {
    let before = registry.inner;
    let wanted = trimmed(session_id);
    match playback_problem(before, task_id) {
        Some(problem) => result matches Err(status) && status@ == problem && after == before,
        None => {
            let task = before.tasks_by_id[trimmed(task_id)];
            if task.is_terminal() && !completed_with_online_result(task, wanted) {
                result matches Ok(Step::Done(done)) && done@ == task && after == before
            } else if cache_problem(task, wanted) is Some {
                result matches Err(status) && Some(status@) == cache_problem(task, wanted) && after
                    == before
            } else {
                let changed = cached(task, wanted, library_item_id, session, now);
                result matches Ok(Step::Commit(done, terms)) && done@ == changed && terms@ == kept(
                    registry.persistence is Some,
                    None,
                    false,
                    Guarantee::Durable,
                    "HLS cache completion could not be persisted durably."@,
                ) && after == if changed.is_terminal() {
                    with_ended_task(before, changed)
                } else {
                    staged(with_task(before, changed), changed)
                }
            }
        },
    }
}

/// What a request to record that a session is completely cached does.
pub open spec fn cache_completion_request(
    registry: BilibiliTaskRegistryView,
    task_id: Seq<char>,
    session_id: Seq<char>,
    library_item_id: Seq<char>,
    session: Option<BilibiliPlaybackSessionView>,
    flushed: bool,
    now: Timestamp,
    result: Result<Step<Task>, Status>,
    after: RegistryInnerView,
) -> bool {
    match ids_problem(task_id, session_id) {
        Some(problem) => result matches Err(status) && status@ == problem && after
            == registry.inner,
        None => if registry.behind_on_disk() && !flushed {
            result matches Ok(Step::Flush(terms)) && terms@ == catching_up(
                Guarantee::Durable,
                "Pending task state could not be persisted before HLS cache completion."@,
            ) && after == registry.inner
        } else {
            cache_completion(
                registry,
                task_id,
                session_id,
                library_item_id,
                session,
                now,
                result,
                after,
            )
        },
    }
}

impl BilibiliTaskRegistry {
    /// Records that the cache of a session could not be filled. The session can still be played
    /// online.
    pub fn fail_hls_cache_fill_for_playback_session(
        &mut self,
        task_id: &str,
        session_id: &str,
        message: String,
        flushed: bool,
        now: Timestamp,
    ) -> (result: Result<Step<Option<Task>>, Status>)
        requires
            old(self)@.well_formed(),
        ensures
            final(self)@.well_formed(),
            final(self)@.continues(old(self)@),
            final(self)@ == old(self)@.with_inner(final(self)@.inner),
            match ids_problem(task_id@, session_id@) {
                Some(problem) => result matches Err(status) && status@ == problem && final(self)@
                    == old(self)@,
                None => if old(self)@.behind_on_disk() && !flushed {
                    result matches Ok(Step::Flush(terms)) && terms@ == catching_up(
                        Guarantee::Durable,
                        "Pending task state could not be persisted before recording HLS cache fill failure."@,
                    ) && final(self)@ == old(self)@
                } else {
                    cache_fill_failure(
                        old(self)@,
                        task_id@,
                        session_id@,
                        message@,
                        now,
                        result,
                        final(self)@.inner,
                    )
                },
            },
    {
        if let Err(status) = normalize_required_id(task_id) {
            return Err(status);
        }
        let normalized_session_id = match normalize_required_id(session_id) {
            Ok(normalized_id) => normalized_id,
            Err(status) => return Err(status),
        };
        if self.behind_on_disk() && !flushed {
            return Ok(
                Step::Flush(
                    CommitTerms::catching_up(
                        Guarantee::Durable,
                        "Pending task state could not be persisted before recording HLS cache fill failure.",
                    ),
                ),
            );
        }
        let mut task = match self.playback_task(task_id) {
            Ok(task) => task,
            Err(status) => return Err(status),
        };
        if !fail_cache_fill(&mut task, normalized_session_id.as_str(), message, now) {
            return Ok(Step::Done(None));
        }
        self.inner.put_task(task.duplicate());
        self.inner.stage_publication(task.duplicate());
        let on_disk: bool = self.persistence.is_some();
        Ok(
            Step::Commit(
                Some(task),
                CommitTerms::kept(
                    on_disk,
                    None,
                    false,
                    Guarantee::Durable,
                    "HLS cache fill failure could not be persisted durably.",
                ),
            ),
        )
    }

    fn complete_playback_hls_session_cached_inner(
        &mut self,
        task_id: &str,
        session_id: &str,
        library_item_id: String,
        completed_playback_session: Option<BilibiliPlaybackSession>,
        flushed: bool,
        now: Timestamp,
    ) -> (result: Result<Step<Task>, Status>)
        requires
            old(self)@.well_formed(),
        ensures
            final(self)@.well_formed(),
            final(self)@.continues(old(self)@),
            final(self)@ == old(self)@.with_inner(final(self)@.inner),
            cache_completion_request(
                old(self)@,
                task_id@,
                session_id@,
                library_item_id@,
                completed_playback_session.deep_view(),
                flushed,
                now,
                result,
                final(self)@.inner,
            ),
    {
        if let Err(status) = normalize_required_id(task_id) {
            return Err(status);
        }
        let normalized_session_id = match normalize_required_id(session_id) {
            Ok(normalized_id) => normalized_id,
            Err(status) => return Err(status),
        };
        let session_id = normalized_session_id.as_str();
        if self.behind_on_disk() && !flushed {
            return Ok(
                Step::Flush(
                    CommitTerms::catching_up(
                        Guarantee::Durable,
                        "Pending task state could not be persisted before HLS cache completion.",
                    ),
                ),
            );
        }
        let mut task = match self.playback_task(task_id) {
            Ok(task) => task,
            Err(status) => return Err(status),
        };
        if is_terminal(task.state) && !completed_task_has_playable_result_session(
            &task,
            session_id,
        ) {
            return Ok(Step::Done(task));
        }
        if task.playback_source.is_none() || task.playback_session.is_none() {
            return Err(
                Status::new(
                    Code::FailedPrecondition,
                    "Task does not have a playable Bilibili playback session.",
                ),
            );
        }
        if !task_uses_hls_session_as_primary(&task, session_id)
            && !task_has_playable_or_completed_result_session(&task, session_id) {
            return Err(
                Status::new(
                    Code::FailedPrecondition,
                    "HLS session is not a playable task result session.",
                ),
            );
        }
        enter_cached_session(
            &mut task,
            session_id,
            &library_item_id,
            &completed_playback_session,
            now,
        );
        self.inner.put_task(task.duplicate());
        if is_terminal(task.state) {
            self.inner.clear_active_task(&task);
        }
        self.inner.stage_publication(task.duplicate());
        let on_disk: bool = self.persistence.is_some();
        Ok(
            Step::Commit(
                task,
                CommitTerms::kept(
                    on_disk,
                    None,
                    false,
                    Guarantee::Durable,
                    "HLS cache completion could not be persisted durably.",
                ),
            ),
        )
    }

    pub fn complete_playback_cached(
        &mut self,
        id: &str,
        library_item_id: String,
        flushed: bool,
        now: Timestamp,
    ) -> (result: Result<Step<Task>, Status>)
        requires
            old(self)@.well_formed(),
        ensures
            final(self)@.well_formed(),
            final(self)@.continues(old(self)@),
            final(self)@ == old(self)@.with_inner(final(self)@.inner),
            cache_completion_request(
                old(self)@,
                id@,
                id@,
                library_item_id@,
                None,
                flushed,
                now,
                result,
                final(self)@.inner,
            ),
    {
        self.complete_playback_hls_session_cached(id, id, library_item_id, flushed, now)
    }

    pub fn complete_playback_hls_session_cached(
        &mut self,
        task_id: &str,
        session_id: &str,
        library_item_id: String,
        flushed: bool,
        now: Timestamp,
    ) -> (result: Result<Step<Task>, Status>)
        requires
            old(self)@.well_formed(),
        ensures
            final(self)@.well_formed(),
            final(self)@.continues(old(self)@),
            final(self)@ == old(self)@.with_inner(final(self)@.inner),
            cache_completion_request(
                old(self)@,
                task_id@,
                session_id@,
                library_item_id@,
                None,
                flushed,
                now,
                result,
                final(self)@.inner,
            ),
    {
        self.complete_playback_hls_session_cached_inner(
            task_id,
            session_id,
            library_item_id,
            None,
            flushed,
            now,
        )
    }

    pub fn complete_playback_hls_session_cached_with_metadata(
        &mut self,
        task_id: &str,
        session_id: &str,
        library_item_id: String,
        completed_playback_session: BilibiliPlaybackSession,
        flushed: bool,
        now: Timestamp,
    ) -> (result: Result<Step<Task>, Status>)
        requires
            old(self)@.well_formed(),
        ensures
            final(self)@.well_formed(),
            final(self)@.continues(old(self)@),
            final(self)@ == old(self)@.with_inner(final(self)@.inner),
            cache_completion_request(
                old(self)@,
                task_id@,
                session_id@,
                library_item_id@,
                Some(completed_playback_session@),
                flushed,
                now,
                result,
                final(self)@.inner,
            ),
    {
        self.complete_playback_hls_session_cached_inner(
            task_id,
            session_id,
            library_item_id,
            Some(completed_playback_session),
            flushed,
            now,
        )
    }
}

/// A served playback task with a result of the identifier `session_id` that can be played.
pub open spec fn refreshable(task: TaskView, session_id: Seq<char>) -> bool {
    task.is_playback() && task.is_served() && named_serving_item(
        task.result_items,
        session_id,
        false,
    )
}

/// The answer to a request that brings the source of a session up to date. The session is looked up
/// as a task first, and then as a result; of several tasks with such a result, one is changed.
pub open spec fn refreshing_request(
    before: RegistryInnerView,
    session_id: Seq<char>,
    source: PlaybackSourceView,
    session: Option<BilibiliPlaybackSessionView>,
    result: Result<Step<Task>, Status>,
    after: RegistryInnerView,
) -> bool {
    let wanted = trimmed(session_id);
    if id_problem(session_id) is Some {
        result matches Err(status) && Some(status@) == id_problem(session_id) && after == before
    } else if before.tasks_by_id.contains_key(wanted) {
        let task = before.tasks_by_id[wanted];
        let changed = refreshed_playback(task, wanted, source, session, true);
        if !task.is_playback() {
            result matches Err(status) && status@ == not_playback() && after == before
        } else if !task.is_served() {
            result matches Ok(Step::Done(done)) && done@ == task && after == before
        } else {
            result matches Ok(Step::Commit(done, terms)) && done@ == changed && terms@
                == unconditional() && after == staged(with_task(before, changed), changed)
        }
    } else if exists|id: Seq<char>| #[trigger]
        before.tasks_by_id.contains_key(id) && refreshable(before.tasks_by_id[id], wanted) {
        exists|id: Seq<char>| #[trigger]
            before.tasks_by_id.contains_key(id) && refreshable(before.tasks_by_id[id], wanted) && {
                let changed = refreshed_playback(
                    before.tasks_by_id[id],
                    wanted,
                    source,
                    session,
                    false,
                );
                result matches Ok(Step::Commit(done, terms)) && done@ == changed && terms@
                    == unconditional() && after == staged(with_task(before, changed), changed)
            }
    } else {
        result matches Err(status) && status@ == not_found() && after == before
    }
}

impl BilibiliTaskRegistry {
    pub fn refresh_playback_source(
        &mut self,
        id: &str,
        playback_source: PlaybackSource,
    ) -> (result: Result<Step<Task>, Status>)
        requires
            old(self)@.well_formed(),
        ensures
            final(self)@.well_formed(),
            final(self)@.continues(old(self)@),
            final(self)@ == old(self)@.with_inner(final(self)@.inner),
            refreshing_request(
                old(self)@.inner,
                id@,
                playback_source@,
                None,
                result,
                final(self)@.inner,
            ),
    {
        self.refresh_hls_playback_source(id, playback_source)
    }

    pub fn refresh_hls_playback_source(
        &mut self,
        session_id: &str,
        playback_source: PlaybackSource,
    ) -> (result: Result<Step<Task>, Status>)
        requires
            old(self)@.well_formed(),
        ensures
            final(self)@.well_formed(),
            final(self)@.continues(old(self)@),
            final(self)@ == old(self)@.with_inner(final(self)@.inner),
            refreshing_request(
                old(self)@.inner,
                session_id@,
                playback_source@,
                None,
                result,
                final(self)@.inner,
            ),
    {
        self.refresh_hls_playback_source_with_metadata(session_id, playback_source, None)
    }

    /// Brings the source of a session up to date, and its session where one is given. The task does
    /// not count as updated.
    pub fn refresh_hls_playback_source_with_metadata(
        &mut self,
        session_id: &str,
        playback_source: PlaybackSource,
        playback_session: Option<BilibiliPlaybackSession>,
    ) -> (result: Result<Step<Task>, Status>)
        requires
            old(self)@.well_formed(),
        ensures
            final(self)@.well_formed(),
            final(self)@.continues(old(self)@),
            final(self)@ == old(self)@.with_inner(final(self)@.inner),
            refreshing_request(
                old(self)@.inner,
                session_id@,
                playback_source@,
                playback_session.deep_view(),
                result,
                final(self)@.inner,
            ),
    {
        let normalized_id = match normalize_required_id(session_id) {
            Ok(normalized_id) => normalized_id,
            Err(status) => return Err(status),
        };
        let ghost before = self@.inner;
        let found = match self.inner.tasks_by_id.get(&normalized_id) {
            Some(task) => Some(task.duplicate()),
            None => None,
        };
        let by_task_id: bool = found.is_some();
        let mut task = match found {
            Some(task) => {
                if task.kind != TaskKind::BilibiliProgressivePlayback {
                    return Err(task_not_playback());
                }
                if !is_served(task.state) {
                    return Ok(Step::Done(task));
                }
                task
            },
            None => {
                let test = HoldsResult { session_id: normalized_id.as_str() };
                let holder = find_task(&self.inner.tasks_by_id, &test);
                match holder {
                    Some(task_id) => {
                        proof {
                            assert(test.holds(before.tasks_by_id[task_id@]));
                            assert(refreshable(before.tasks_by_id[task_id@], normalized_id@));
                        }
                        match self.inner.tasks_by_id.get(&task_id) {
                            Some(task) => task.duplicate(),
                            None => return Err(task_not_found()),
                        }
                    },
                    None => {
                        proof {
                            assert forall|id: Seq<char>| #[trigger]
                                before.tasks_by_id.contains_key(id) implies !refreshable(
                                before.tasks_by_id[id],
                                normalized_id@,
                            ) by {
                                assert(!test.holds(before.tasks_by_id[id]));
                            }
                        }
                        return Err(task_not_found());
                    },
                }
            },
        };
        let ghost task_id = task@.id;
        refresh_playback(
            &mut task,
            normalized_id.as_str(),
            &playback_source,
            &playback_session,
            by_task_id,
        );
        self.inner.put_task(task.duplicate());
        self.inner.stage_publication(task.duplicate());
        proof {
            assert(before.tasks_by_id.contains_key(task_id));
            assert(self@.inner.tasks_by_id.dom() =~= before.tasks_by_id.dom());
        }
        Ok(Step::Commit(task, CommitTerms::unconditional()))
    }
}

} // verus!
