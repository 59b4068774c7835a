//! Playback that is lost: sessions that did not come back, and caches that were deleted.

use crate::changes::{
    after_restart, close_playback, closed, delete_cached_result, drop_session, enter_restart,
    removed, without_cached_result, without_session,
};
use crate::hls::{task_session_ids, task_uses_hls_session_as_primary, uses_as_primary};
use crate::id_set::{IdSet, lemma_take_to_set};
use crate::inner::checkpoint::{checkpoint_of, consistent, under_own_ids};
use crate::inner::publication::staged;
use crate::messages::PLAYBACK_CACHE_DELETED_MESSAGE;
use crate::model::basics::{TaskKind, TaskState, Timestamp};
use crate::model::output::{TaskOutputRecord, TaskOutputSummary, TaskOutputSummaryView};
use crate::model::state::{
    RegistryInnerView, RegistryMutationCheckpoint, TaskPersistenceSnapshotView,
};
use crate::model::task::{Task, TaskView};
use crate::plain::Plain;
use crate::registry::{BilibiliTaskRegistry, BilibiliTaskRegistryView};
use crate::registry::commit::{
    CommitTerms, CommitTermsView, Guarantee, PersistenceCommitOutcome, ReconciledOutputView, Step,
    catching_up, commits, kept, law_durable_commit_shows_live, lemma_reconciled_all,
    lemma_reconciled_keeps, settlement_problem, unconditional,
};
use crate::registry::lifecycle::with_ended_task;
use crate::registry::playback::playback_problem;
use crate::requests::{
    id_problem, normalize_required_id, not_found, not_playback, task_not_found, task_not_playback,
    with_task,
};
use crate::results::{cached_as, holds_cached_item, serves_as, some_item};
use crate::search::{CompletedWith, HoldsCachedResult, ServesAnyhow, TaskTest, find_task};
use crate::states::is_terminal;
use crate::status::{Code, Status, StatusView, refusal};
use crate::text::{same_text, trimmed};
use crate::visible_output::{add_resource_ids, resource_ids};
use vstd::prelude::*;
use vstd::string::StringExecFns;

verus! {

/// A completed playback task that is known by `session_id`.
pub open spec fn completed_with(task: TaskView, session_id: Seq<char>) -> bool {
    task.is_playback() && task.state == TaskState::Completed && task_session_ids(task).contains(
        session_id,
    )
}

/// A served playback task with `session_id` as its primary session, or with a result that serves
/// it.
pub open spec fn serves_anyhow(task: TaskView, session_id: Seq<char>) -> bool {
    task.is_playback() && task.is_served() && (uses_as_primary(task, session_id) || some_item(
        task.result_items,
        serves_as(session_id),
    ))
}

/// A playable task with a cached result for `session_id` that stands in the library as
/// `library_item_id`.
pub open spec fn holds_cached_result(
    task: TaskView,
    session_id: Seq<char>,
    library_item_id: Seq<char>,
) -> bool {
    task.is_playback() && task.state == TaskState::Playable && some_item(
        task.result_items,
        cached_as(session_id, library_item_id),
    )
}

impl BilibiliTaskRegistry {
    /// Some completed task that is known by `session_id`; which one of several is not said.
    fn completed_task_with(&self, session_id: &str) -> (found: Option<Task>)
        requires
            self@.well_formed(),
        ensures
            match found {
                Some(task) => self@.inner.tasks_by_id.contains_key(task@.id) && task@
                    == self@.inner.tasks_by_id[task@.id] && completed_with(task@, session_id@),
                None => forall|id: Seq<char>| #[trigger]
                    self@.inner.tasks_by_id.contains_key(id) ==> !completed_with(
                        self@.inner.tasks_by_id[id],
                        session_id@,
                    ),
            },
    {
        let test = CompletedWith { session_id };
        let found = find_task(&self.inner.tasks_by_id, &test);
        match found {
            Some(task_id) => {
                proof {
                    assert(test.holds(self@.inner.tasks_by_id[task_id@]));
                }
                match self.inner.tasks_by_id.get(&task_id) {
                    Some(task) => Some(task.duplicate()),
                    None => None,
                }
            },
            None => {
                proof {
                    assert forall|id: Seq<char>| #[trigger]
                        self@.inner.tasks_by_id.contains_key(id) implies !completed_with(
                        self@.inner.tasks_by_id[id],
                        session_id@,
                    ) by {
                        assert(!test.holds(self@.inner.tasks_by_id[id]));
                    }
                }
                None
            },
        }
    }

    /// Some task that serves `session_id`; which one of several is not said.
    fn task_serving(&self, session_id: &str) -> (found: Option<Task>)
        requires
            self@.well_formed(),
        ensures
            match found {
                Some(task) => self@.inner.tasks_by_id.contains_key(task@.id) && task@
                    == self@.inner.tasks_by_id[task@.id] && serves_anyhow(task@, session_id@),
                None => forall|id: Seq<char>| #[trigger]
                    self@.inner.tasks_by_id.contains_key(id) ==> !serves_anyhow(
                        self@.inner.tasks_by_id[id],
                        session_id@,
                    ),
            },
    {
        let test = ServesAnyhow { session_id };
        let found = find_task(&self.inner.tasks_by_id, &test);
        match found {
            Some(task_id) => {
                proof {
                    assert(test.holds(self@.inner.tasks_by_id[task_id@]));
                }
                match self.inner.tasks_by_id.get(&task_id) {
                    Some(task) => Some(task.duplicate()),
                    None => None,
                }
            },
            None => {
                proof {
                    assert forall|id: Seq<char>| #[trigger]
                        self@.inner.tasks_by_id.contains_key(id) implies !serves_anyhow(
                        self@.inner.tasks_by_id[id],
                        session_id@,
                    ) by {
                        assert(!test.holds(self@.inner.tasks_by_id[id]));
                    }
                }
                None
            },
        }
    }

    /// Some playable task with a cached result for `session_id`; which one of several is not said.
    fn task_with_cached_result(&self, session_id: &str, library_item_id: &str) -> (found: Option<
        Task,
    >)
        requires
            self@.well_formed(),
        ensures
            match found {
                Some(task) => self@.inner.tasks_by_id.contains_key(task@.id) && task@
                    == self@.inner.tasks_by_id[task@.id] && holds_cached_result(
                    task@,
                    session_id@,
                    library_item_id@,
                ),
                None => forall|id: Seq<char>| #[trigger]
                    self@.inner.tasks_by_id.contains_key(id) ==> !holds_cached_result(
                        self@.inner.tasks_by_id[id],
                        session_id@,
                        library_item_id@,
                    ),
            },
    {
        let test = HoldsCachedResult { session_id, library_item_id };
        let found = find_task(&self.inner.tasks_by_id, &test);
        match found {
            Some(task_id) => {
                proof {
                    assert(test.holds(self@.inner.tasks_by_id[task_id@]));
                }
                match self.inner.tasks_by_id.get(&task_id) {
                    Some(task) => Some(task.duplicate()),
                    None => None,
                }
            },
            None => {
                proof {
                    assert forall|id: Seq<char>| #[trigger]
                        self@.inner.tasks_by_id.contains_key(id) implies !holds_cached_result(
                        self@.inner.tasks_by_id[id],
                        session_id@,
                        library_item_id@,
                    ) by {
                        assert(!test.holds(self@.inner.tasks_by_id[id]));
                    }
                }
                None
            },
        }
    }

    /// Fails a playback task whose cache could not be restored. A task that has ended stays as it
    /// is.
    pub fn fail_playback_task_after_cache_restore(
        &mut self,
        id: &str,
        message: String,
        now: Timestamp,
    ) -> (result: Result<Step<Task>, Status>)
        requires
            old(self)@.well_formed(),
        ensures
            final(self)@.well_formed(),
            final(self)@.continues(old(self)@),
            final(self)@ == old(self)@.with_inner(final(self)@.inner),
            match playback_problem(old(self)@.inner, id@) {
                Some(problem) => result matches Err(status) && status@ == problem && final(self)@
                    == old(self)@,
                None => {
                    let before = old(self)@.inner.tasks_by_id[trimmed(id@)];
                    let failed = closed(before, TaskState::Failed, message@, now);
                    if before.is_terminal() {
                        result matches Ok(Step::Done(task)) && task@ == before && final(self)@
                            == old(self)@
                    } else {
                        result matches Ok(Step::Commit(task, terms)) && task@ == failed && terms@
                            == unconditional() && final(self)@.inner == with_ended_task(
                            old(self)@.inner,
                            failed,
                        )
                    }
                },
            },
    {
        let normalized_id = match normalize_required_id(id) {
            Ok(normalized_id) => normalized_id,
            Err(status) => return Err(status),
        };
        let mut task = match self.inner.tasks_by_id.get(&normalized_id) {
            Some(task) => task.duplicate(),
            None => return Err(task_not_found()),
        };
        if task.kind != TaskKind::BilibiliProgressivePlayback {
            return Err(task_not_playback());
        }
        if is_terminal(task.state) {
            return Ok(Step::Done(task));
        }
        close_playback(&mut task, TaskState::Failed, message.as_str(), now);
        self.inner.put_task(task.duplicate());
        self.inner.clear_active_task(&task);
        self.inner.stage_publication(task.duplicate());
        Ok(Step::Commit(task, CommitTerms::unconditional()))
    }

    /// Fails the completed playback task of a session whose cache could not be restored.
    pub fn fail_completed_playback_task_after_cache_restore(
        &mut self,
        session_id: &str,
        message: String,
        now: Timestamp,
    ) -> (result: Result<Step<Task>, Status>)
        requires
            old(self)@.well_formed(),
        ensures
            final(self)@.well_formed(),
            final(self)@.continues(old(self)@),
            final(self)@ == old(self)@.with_inner(final(self)@.inner),
            match result {
                Err(status) => final(self)@ == old(self)@ && match id_problem(session_id@) {
                    Some(problem) => status@ == problem,
                    None => status@ == not_found() && forall|id: Seq<char>| #[trigger]
                        old(self)@.inner.tasks_by_id.contains_key(id) ==> !completed_with(
                            old(self)@.inner.tasks_by_id[id],
                            trimmed(session_id@),
                        ),
                },
                Ok(step) => id_problem(session_id@) is None && (step matches Step::Commit(
                    task,
                    terms,
                ) && terms@ == unconditional() && {
                    let tasks = old(self)@.inner.tasks_by_id;
                    &&& tasks.contains_key(task@.id)
                    &&& completed_with(tasks[task@.id], trimmed(session_id@))
                    &&& task@ == closed(tasks[task@.id], TaskState::Failed, message@, now)
                    &&& final(self)@.inner == with_ended_task(old(self)@.inner, task@)
                }),
            },
    {
        let normalized_session_id = match normalize_required_id(session_id) {
            Ok(normalized_id) => normalized_id,
            Err(status) => return Err(status),
        };
        let mut task = match self.completed_task_with(normalized_session_id.as_str()) {
            Some(task) => task,
            None => return Err(task_not_found()),
        };
        close_playback(&mut task, TaskState::Failed, message.as_str(), now);
        self.inner.put_task(task.duplicate());
        self.inner.clear_active_task(&task);
        self.inner.stage_publication(task.duplicate());
        Ok(Step::Commit(task, CommitTerms::unconditional()))
    }
}

/// What giving up the session `session_id` does, once nothing is left to be written down from
/// before.
pub open spec fn session_failure(
    registry: BilibiliTaskRegistryView,
    session_id: Seq<char>,
    message: Seq<char>,
    now: Timestamp,
    result: Result<Step<Option<Task>>, Status>,
    after: RegistryInnerView,
) -> bool {
    let before = registry.inner;
    match result {
        Ok(Step::Done(None)) => after == before && forall|id: Seq<char>| #[trigger]
            before.tasks_by_id.contains_key(id) ==> !serves_anyhow(
                before.tasks_by_id[id],
                session_id,
            ),
        Ok(Step::Commit(Some(task), terms)) => {
            &&& before.tasks_by_id.contains_key(task@.id)
            &&& serves_anyhow(before.tasks_by_id[task@.id], session_id)
            &&& task@ == without_session(before.tasks_by_id[task@.id], session_id, message, now)
            &&& terms@ == kept(
                registry.persistence is Some,
                Some(checkpoint_of(before)),
                true,
                Guarantee::Durable,
                "Restored HLS session failure could not be persisted durably."@,
            )
            &&& after == if task@.state == TaskState::Failed {
                with_ended_task(before, task@)
            } else {
                staged(with_task(before, task@), task@)
            }
        },
        _ => false,
    }
}

impl BilibiliTaskRegistry {
    /// Gives up a session that could not be restored. What is left of it on disk may be deleted
    /// once the commit is durable.
    pub fn fail_unrestorable_playback_session_after_cache_restore(
        &mut self,
        session_id: &str,
        message: String,
        flushed: bool,
        now: Timestamp,
    ) -> (result: Result<Step<Option<Task>>, Status>)
        requires
            old(self)@.well_formed(),
        ensures
            final(self)@.well_formed(),
            final(self)@.continues(old(self)@),
            final(self)@ == old(self)@.with_inner(final(self)@.inner),
            match id_problem(session_id@) {
                Some(problem) => result matches Err(status) && status@ == problem && final(self)@
                    == old(self)@,
                None => if old(self)@.behind_on_disk() && !flushed {
                    result matches Ok(Step::Flush(terms)) && terms@ == catching_up(
                        Guarantee::Durable,
                        "Pending task state could not be persisted before rejecting a restored HLS session."@,
                    ) && final(self)@ == old(self)@
                } else {
                    session_failure(
                        old(self)@,
                        trimmed(session_id@),
                        message@,
                        now,
                        result,
                        final(self)@.inner,
                    )
                },
            },
    {
        let normalized_session_id = match normalize_required_id(session_id) {
            Ok(normalized_id) => normalized_id,
            Err(status) => return Err(status),
        };
        if self.behind_on_disk() && !flushed {
            return Ok(
                Step::Flush(
                    CommitTerms::catching_up(
                        Guarantee::Durable,
                        "Pending task state could not be persisted before rejecting a restored HLS session.",
                    ),
                ),
            );
        }
        let mut task = match self.task_serving(normalized_session_id.as_str()) {
            Some(task) => task,
            None => return Ok(Step::Done(None)),
        };
        let checkpoint = RegistryMutationCheckpoint::capture(&self.inner);
        drop_session(&mut task, normalized_session_id.as_str(), message.as_str(), now);
        self.inner.put_task(task.duplicate());
        if task.state == TaskState::Failed {
            self.inner.clear_active_task(&task);
        }
        self.inner.stage_publication(task.duplicate());
        let on_disk: bool = self.persistence.is_some();
        Ok(
            Step::Commit(
                Some(task),
                CommitTerms::kept(
                    on_disk,
                    Some(checkpoint),
                    true,
                    Guarantee::Durable,
                    "Restored HLS session failure could not be persisted durably.",
                ),
            ),
        )
    }
}

/// The tasks that a restart changes.
pub open spec fn changed_by_restart(
    tasks: Map<Seq<char>, TaskView>,
    playable: Set<Seq<char>>,
    completed: Set<Seq<char>>,
    now: Timestamp,
) -> Set<Seq<char>> {
    Set::new(
        |id: Seq<char>|
            tasks.contains_key(id) && after_restart(tasks[id], playable, completed, now) is Some,
    )
}

/// `state` with the tasks in `ids` changed as a restart does, and the news of each waiting to be
/// told.
pub open spec fn restarted(
    state: RegistryInnerView,
    ids: Set<Seq<char>>,
    playable: Set<Seq<char>>,
    completed: Set<Seq<char>>,
    now: Timestamp,
) -> RegistryInnerView {
    let changed = Map::new(
        |id: Seq<char>| ids.contains(id),
        |id: Seq<char>| after_restart(state.tasks_by_id[id], playable, completed, now)->0,
    );
    RegistryInnerView {
        tasks_by_id: state.tasks_by_id.union_prefer_right(changed),
        pending_publications_by_id: state.pending_publications_by_id.union_prefer_right(changed),
        ..state
    }
}

impl BilibiliTaskRegistry {
    /// Fails what was served before a restart and did not come back, and says which tasks that
    /// changed, in no particular order.
    pub fn fail_unrestorable_playback_tasks(
        &mut self,
        restorable_playable_session_ids: &IdSet,
        restorable_completed_session_ids: &IdSet,
        now: Timestamp,
    ) -> (step: Step<Vec<String>>)
        requires
            old(self)@.well_formed(),
        ensures
            final(self)@.well_formed(),
            final(self)@.continues(old(self)@),
            ({
                let playable = restorable_playable_session_ids@;
                let completed = restorable_completed_session_ids@;
                let changed = changed_by_restart(
                    old(self)@.inner.tasks_by_id,
                    playable,
                    completed,
                    now,
                );
                &&& final(self)@ == old(self)@.with_inner(
                    restarted(old(self)@.inner, changed, playable, completed, now),
                )
                &&& if changed =~= Set::empty() {
                    step matches Step::Done(ids) && ids@.len() == 0
                } else {
                    step matches Step::Commit(ids, terms) && terms@ == unconditional()
                        && ids.deep_view().no_duplicates() && ids.deep_view().to_set() == changed
                }
            }),
    {
        let ghost before = self@.inner;
        let ghost playable = restorable_playable_session_ids@;
        let ghost completed = restorable_completed_session_ids@;
        let ghost all = changed_by_restart(before.tasks_by_id, playable, completed, now);
        let tasks = self.inner.tasks_by_id.duplicate();
        let count: usize = tasks.len();
        let ghost keys = tasks.keys();
        let mut changed_task_ids: Vec<String> = Vec::new();
        proof {
            assert(restarted(
                before,
                all.intersect(keys.take(0).to_set()),
                playable,
                completed,
                now,
            ) =~= before);
            assert(changed_task_ids.deep_view().to_set() =~= all.intersect(keys.take(0).to_set()));
        }
        for index in 0..count
            invariant
                count == keys.len(),
                keys == tasks.keys(),
                keys.no_duplicates(),
                tasks@ == before.tasks_by_id,
                consistent(before),
                playable == restorable_playable_session_ids@,
                completed == restorable_completed_session_ids@,
                all == changed_by_restart(before.tasks_by_id, playable, completed, now),
                self@ == old(self)@.with_inner(self@.inner),
                self@.inner == restarted(
                    before,
                    all.intersect(keys.take(index as int).to_set()),
                    playable,
                    completed,
                    now,
                ),
                changed_task_ids.deep_view().no_duplicates(),
                changed_task_ids.deep_view().to_set() =~= all.intersect(
                    keys.take(index as int).to_set(),
                ),
        {
            proof {
                lemma_take_to_set(keys, index as int);
                lemma_fresh_key(keys, index as int);
            }
            let mut task = tasks.value_at(index).duplicate();
            let ghost id = keys[index as int];
            if enter_restart(
                &mut task,
                restorable_playable_session_ids,
                restorable_completed_session_ids,
                now,
            ) {
                let ghost listed = changed_task_ids.deep_view();
                changed_task_ids.push(task.id.clone());
                self.inner.put_task(task.duplicate());
                self.inner.stage_publication(task);
                proof {
                    assert(task@.id == id);
                    assert(changed_task_ids.deep_view() =~= listed.push(id));
                    lemma_push_fresh(listed, id);
                    assert(self@.inner =~= restarted(
                        before,
                        all.intersect(keys.take(index + 1).to_set()),
                        playable,
                        completed,
                        now,
                    ));
                }
            } else {
                proof {
                    assert(all.intersect(keys.take(index + 1).to_set()) =~= all.intersect(
                        keys.take(index as int).to_set(),
                    ));
                }
            }
        }
        proof {
            assert(keys.take(count as int) =~= keys);
            assert(all.intersect(keys.to_set()) =~= all);
            assert(self@.inner.tasks_by_id.dom() =~= before.tasks_by_id.dom());
            if changed_task_ids.deep_view().len() > 0 {
                assert(changed_task_ids.deep_view().to_set().contains(
                    changed_task_ids.deep_view()[0],
                ));
            } else {
                assert(changed_task_ids.deep_view().to_set() =~= Set::empty());
            }
        }
        if changed_task_ids.len() == 0 {
            Step::Done(changed_task_ids)
        } else {
            Step::Commit(changed_task_ids, CommitTerms::unconditional())
        }
    }
}

proof fn lemma_fresh_key(keys: Seq<Seq<char>>, index: int)
    requires
        keys.no_duplicates(),
        0 <= index < keys.len(),
    ensures
        !keys.take(index).to_set().contains(keys[index]),
        keys.to_set().contains(keys[index]),
{
    if keys.take(index).contains(keys[index]) {
        let i = keys.take(index).index_of(keys[index]);
        assert(keys[i] == keys[index]);
    }
    assert(keys.contains(keys[index]));
}

proof fn lemma_push_fresh(listed: Seq<Seq<char>>, id: Seq<char>)
    requires
        listed.no_duplicates(),
        !listed.to_set().contains(id),
    ensures
        listed.push(id).no_duplicates(),
        listed.push(id).to_set() =~= listed.to_set().insert(id),
{
    assert forall|other: Seq<char>| listed.push(id).to_set().contains(other)
        <==> listed.to_set().insert(id).contains(other) by {
        if listed.push(id).contains(other) {
            let i = listed.push(id).index_of(other);
            if i < listed.len() {
                assert(listed[i] == other);
            }
        }
        if listed.contains(other) {
            let i = listed.index_of(other);
            assert(listed.push(id)[i] == other);
        }
        assert(listed.push(id)[listed.len() as int] == id);
    }
    assert forall|i: int, j: int|
        0 <= i < listed.push(id).len() && 0 <= j < listed.push(id).len() && i
            != j implies listed.push(id)[i] != listed.push(id)[j] by {
        if i == listed.len() {
            assert(listed.contains(listed[j]));
        } else if j == listed.len() {
            assert(listed.contains(listed[i]));
        }
    }
}

/// What deleting a cached session asks for.
pub enum CacheRemoval {
    /// No task knows of it.
    Nothing,
    /// The task goes on without the result. This is what becomes of it.
    ClearResult(Task),
    /// The whole task goes. These are its last words.
    RemoveTask(Task),
}

pub open spec fn not_removable() -> StatusView {
    refusal(
        Code::FailedPrecondition,
        "Only completed playback tasks matching the deleted cache item can be removed."@,
    )
}

fn task_not_removable() -> (status: Status)
    ensures
        status@ == not_removable(),
{
    Status::new(
        Code::FailedPrecondition,
        "Only completed playback tasks matching the deleted cache item can be removed.",
    )
}

/// What deleting the cached session asks for of the completed task `task` that is known by it.
pub open spec fn removal_from_completed(
    task: TaskView,
    session_id: Seq<char>,
    library_item_id: Seq<char>,
    now: Timestamp,
    result: Result<CacheRemoval, Status>,
) -> bool {
    if task.library_item_id == library_item_id && uses_as_primary(task, session_id) {
        result matches Ok(CacheRemoval::RemoveTask(last)) && last@ == removed(task, now)
    } else if some_item(task.result_items, cached_as(session_id, library_item_id)) {
        result matches Ok(CacheRemoval::ClearResult(changed)) && changed@ == without_cached_result(
            task,
            session_id,
            library_item_id,
            now,
        )
    } else {
        result matches Err(status) && status@ == not_removable()
    }
}

/// What deleting the cached session `session_id` asks for. A completed task that is known by it
/// comes first, a playable one with a cached result next.
pub open spec fn removal(
    tasks: Map<Seq<char>, TaskView>,
    session_id: Seq<char>,
    library_item_id: Seq<char>,
    now: Timestamp,
    result: Result<CacheRemoval, Status>,
) -> bool {
    if exists|id: Seq<char>| #[trigger]
        tasks.contains_key(id) && completed_with(tasks[id], session_id) {
        exists|id: Seq<char>| #[trigger]
            tasks.contains_key(id) && completed_with(tasks[id], session_id)
                && removal_from_completed(tasks[id], session_id, library_item_id, now, result)
    } else if exists|id: Seq<char>| #[trigger]
        tasks.contains_key(id) && holds_cached_result(tasks[id], session_id, library_item_id) {
        exists|id: Seq<char>| #[trigger]
            tasks.contains_key(id) && holds_cached_result(tasks[id], session_id, library_item_id)
                && (result matches Ok(CacheRemoval::ClearResult(changed)) && changed@
                == without_cached_result(tasks[id], session_id, library_item_id, now))
    } else if !tasks.contains_key(session_id) {
        result matches Ok(CacheRemoval::Nothing)
    } else if !tasks[session_id].is_playback() {
        result matches Err(status) && status@ == not_playback()
    } else {
        result matches Err(status) && status@ == not_removable()
    }
}

/// The output of a task with the cached session marked as deleted, its summary, and the resources
/// that are thereby retired.
pub struct MarkedOutput {
    pub output: TaskOutputRecord,
    pub summary: TaskOutputSummary,
    pub retired_resource_ids: IdSet,
}

/// `state` with `task` in place of the live one, its output marked, and the news waiting to be
/// told.
pub open spec fn with_cleared_result(
    state: RegistryInnerView,
    task: TaskView,
    marked: MarkedOutput,
) -> RegistryInnerView {
    staged(
        RegistryInnerView {
            outputs_by_task_id: state.outputs_by_task_id.insert(task.id, marked.output@),
            pending_resource_cleanup_ids: state.pending_resource_cleanup_ids.union(
                marked.retired_resource_ids@,
            ),
            ..with_task(state, TaskView { output_summary: Some(marked.summary@), ..task })
        },
        task,
    )
}

/// `state` without the task `last`, whose resources are to be deleted, and with its last words
/// waiting to be told.
pub open spec fn with_removed_task(
    state: RegistryInnerView,
    last: TaskView,
    summary: TaskOutputSummaryView,
) -> RegistryInnerView {
    staged(
        RegistryInnerView {
            tasks_by_id: state.tasks_by_id.remove(last.id),
            outputs_by_task_id: state.outputs_by_task_id.remove(last.id),
            download_options_by_id: state.download_options_by_id.remove(last.id),
            playback_options_by_id: state.playback_options_by_id.remove(last.id),
            running_cancellations_by_id: state.running_cancellations_by_id.remove(last.id),
            planning_cancellations_by_id: state.planning_cancellations_by_id.remove(last.id),
            pending_resource_cleanup_ids: if state.outputs_by_task_id.contains_key(last.id) {
                state.pending_resource_cleanup_ids.union(
                    resource_ids(state.outputs_by_task_id[last.id].resources),
                )
            } else {
                state.pending_resource_cleanup_ids
            },
            ..state
        },
        TaskView { output_summary: Some(summary), ..last },
    )
}

/// The terms of a change after which a cache is deleted.
pub open spec fn deletion_terms(registry: BilibiliTaskRegistryView) -> CommitTermsView {
    kept(
        registry.persistence is Some,
        Some(checkpoint_of(registry.inner)),
        true,
        Guarantee::Durable,
        "Task cache deletion could not be persisted durably."@,
    )
}

impl BilibiliTaskRegistry {
    fn deletion_terms(&self, checkpoint: RegistryMutationCheckpoint) -> (terms: CommitTerms)
        requires
            checkpoint@ == checkpoint_of(self@.inner),
        ensures
            terms@ == deletion_terms(self@),
    {
        let on_disk: bool = self.persistence.is_some();
        CommitTerms::kept(
            on_disk,
            Some(checkpoint),
            true,
            Guarantee::Durable,
            "Task cache deletion could not be persisted durably.",
        )
    }

    /// Finds what the deletion of a cached session means for the tasks. Nothing is changed yet.
    pub fn remove_completed_playback_task(
        &self,
        session_id: &str,
        library_item_id: &str,
        now: Timestamp,
    ) -> (result: Result<CacheRemoval, Status>)
        requires
            self@.well_formed(),
        ensures
            match id_problem(session_id@) {
                Some(problem) => result matches Err(status) && status@ == problem,
                None => removal(
                    self@.inner.tasks_by_id,
                    trimmed(session_id@),
                    library_item_id@,
                    now,
                    result,
                ),
            },
    {
        let normalized_id = match normalize_required_id(session_id) {
            Ok(normalized_id) => normalized_id,
            Err(status) => return Err(status),
        };
        let session_id = normalized_id.as_str();
        if let Some(mut task) = self.completed_task_with(session_id) {
            proof {
                assert(self@.inner.tasks_by_id.contains_key(task@.id));
            }
            if same_text(task.library_item_id.as_str(), library_item_id)
                && task_uses_hls_session_as_primary(&task, session_id) {
                close_playback(&mut task, TaskState::Failed, PLAYBACK_CACHE_DELETED_MESSAGE, now);
                return Ok(CacheRemoval::RemoveTask(task));
            }
            if holds_cached_item(&task.result_items, session_id, library_item_id) {
                delete_cached_result(&mut task, session_id, library_item_id, now);
                return Ok(CacheRemoval::ClearResult(task));
            }
            return Err(task_not_removable());
        }
        if let Some(mut task) = self.task_with_cached_result(session_id, library_item_id) {
            proof {
                assert(self@.inner.tasks_by_id.contains_key(task@.id));
            }
            delete_cached_result(&mut task, session_id, library_item_id, now);
            return Ok(CacheRemoval::ClearResult(task));
        }
        match self.inner.tasks_by_id.get(&normalized_id) {
            None => Ok(CacheRemoval::Nothing),
            Some(task) => if task.kind != TaskKind::BilibiliProgressivePlayback {
                Err(task_not_playback())
            } else {
                Err(task_not_removable())
            },
        }
    }

    /// Lets a task go on without a cached result. `marked` is its output with the result marked as
    /// deleted, or why there can be no such output.
    pub fn clear_cached_result(
        &mut self,
        task: Task,
        marked: Result<MarkedOutput, String>,
    ) -> (result: Result<Step<bool>, Status>)
        requires
            old(self)@.well_formed(),
            old(self)@.inner.tasks_by_id.contains_key(task@.id),
        ensures
            final(self)@.well_formed(),
            final(self)@.continues(old(self)@),
            final(self)@ == old(self)@.with_inner(final(self)@.inner),
            match marked {
                Ok(marked) => (result matches Ok(Step::Commit(removed, terms)) && removed && terms@
                    == deletion_terms(old(self)@)) && final(self)@.inner == with_cleared_result(
                    old(self)@.inner,
                    task@,
                    marked,
                ),
                Err(error) => result matches Err(status) && status@ == refusal(
                    Code::Internal,
                    "Task cache deletion would create invalid task output: "@ + error@,
                ) && final(self)@ == old(self)@,
            },
    {
        let checkpoint = RegistryMutationCheckpoint::capture(&self.inner);
        match marked {
            Err(error) => {
                let message =
                    "Task cache deletion would create invalid task output: ".to_owned().concat(
                error.as_str());
                Err(Status::new(Code::Internal, message.as_str()))
            },
            Ok(marked) => {
                let terms = self.deletion_terms(checkpoint);
                let mut summarized = task.duplicate();
                summarized.output_summary = Some(marked.summary);
                self.inner.pending_resource_cleanup_ids.extend(&marked.retired_resource_ids);
                self.inner.outputs_by_task_id.insert(task.id.clone(), marked.output);
                self.inner.put_task(summarized);
                self.inner.stage_publication(task);
                proof {
                    assert(self@.inner.tasks_by_id.dom() =~= old(self)@.inner.tasks_by_id.dom());
                    assert(self@.inner.outputs_by_task_id.dom()
                        =~= old(self)@.inner.outputs_by_task_id.dom());
                    assert(self@.inner =~= with_cleared_result(old(self)@.inner, task@, marked));
                    assert(under_own_ids(self@.inner.tasks_by_id));
                    assert(under_own_ids(self@.inner.pending_publications_by_id));
                }
                Ok(Step::Commit(true, terms))
            },
        }
    }

    /// Removes a task whose cache is deleted. `last` are its last words, `summary` that of what is
    /// left of its output.
    pub fn remove_task(&mut self, last: Task, summary: TaskOutputSummary) -> (step: Step<bool>)
        requires
            old(self)@.well_formed(),
        ensures
            final(self)@.well_formed(),
            final(self)@.continues(old(self)@),
            step matches Step::Commit(removed, terms) && removed && terms@ == deletion_terms(
                old(self)@,
            ),
            final(self)@ == old(self)@.with_inner(
                with_removed_task(old(self)@.inner, last@, summary@),
            ),
    {
        let checkpoint = RegistryMutationCheckpoint::capture(&self.inner);
        let terms = self.deletion_terms(checkpoint);
        let mut last = last;
        last.output_summary = Some(summary);
        let _ = self.inner.tasks_by_id.remove(&last.id);
        let _ = self.inner.download_options_by_id.remove(&last.id);
        let _ = self.inner.playback_options_by_id.remove(&last.id);
        let _ = self.inner.running_cancellations_by_id.remove(&last.id);
        let _ = self.inner.planning_cancellations_by_id.remove(&last.id);
        let removed_output = self.inner.outputs_by_task_id.remove(&last.id);
        if let Some(output) = removed_output {
            add_resource_ids(&mut self.inner.pending_resource_cleanup_ids, &output.resources);
        }
        self.inner.stage_publication(last);
        Step::Commit(true, terms)
    }
}

/// Deleting the cached session `session_id` asks for a change, whichever of the tasks that know of
/// it is looked at.
pub open spec fn removable(
    tasks: Map<Seq<char>, TaskView>,
    session_id: Seq<char>,
    library_item_id: Seq<char>,
) -> bool {
    &&& exists|id: Seq<char>| #[trigger]
        tasks.contains_key(id) && (completed_with(tasks[id], session_id) || holds_cached_result(
            tasks[id],
            session_id,
            library_item_id,
        ))
    &&& forall|id: Seq<char>| #[trigger]
        tasks.contains_key(id) && completed_with(tasks[id], session_id) ==> (
        tasks[id].library_item_id == library_item_id && uses_as_primary(tasks[id], session_id))
            || some_item(tasks[id].result_items, cached_as(session_id, library_item_id))
}

/// `state` with what the deletion of a cached session asks for carried out.
pub open spec fn with_removal(
    state: RegistryInnerView,
    decided: Result<CacheRemoval, Status>,
    marked: MarkedOutput,
    summary: TaskOutputSummaryView,
) -> RegistryInnerView {
    match decided {
        Ok(CacheRemoval::ClearResult(task)) => with_cleared_result(state, task@, marked),
        Ok(CacheRemoval::RemoveTask(last)) => with_removed_task(state, last@, summary),
        _ => state,
    }
}

/// A removal that was not saved durably is refused as unavailable. The tasks and outputs, live and
/// as clients see them, are then what they were, so asking again asks for a change again, and is
/// granted once it is saved durably.
pub proof fn law_refused_removal_can_be_repeated(
    registry: BilibiliTaskRegistryView,
    session_id: Seq<char>,
    library_item_id: Seq<char>,
    now: Timestamp,
    decided: Result<CacheRemoval, Status>,
    marked: MarkedOutput,
    summary: TaskOutputSummaryView,
    outputs: Seq<ReconciledOutputView>,
    outputs_sound: bool,
    committed_at: Timestamp,
    snapshot: Option<TaskPersistenceSnapshotView>,
    outcome: PersistenceCommitOutcome,
    after: RegistryInnerView,
    later: BilibiliTaskRegistryView,
    later_now: Timestamp,
    decided_again: Result<CacheRemoval, Status>,
)
    requires
        registry.persistence is Some,
        removable(registry.inner.tasks_by_id, session_id, library_item_id),
        removal(registry.inner.tasks_by_id, session_id, library_item_id, now, decided),
        commits(
            registry.with_inner(with_removal(registry.inner, decided, marked, summary)),
            outputs,
            outputs_sound,
            committed_at,
            snapshot,
            outcome,
            deletion_terms(registry),
            after,
        ),
        outcome == PersistenceCommitOutcome::Rejected || outcome
            == PersistenceCommitOutcome::InstalledButNotDurable,
        later.inner.tasks_by_id == after.tasks_by_id,
        removal(later.inner.tasks_by_id, session_id, library_item_id, later_now, decided_again),
    ensures
        decided is Ok && !(decided->Ok_0 is Nothing),
        settlement_problem(deletion_terms(registry), outcome) == Some(
            refusal(
                Code::Unavailable,
                "Task cache deletion could not be persisted durably."@,
            ),
        ),
        after.visible_tasks_by_id == registry.inner.visible_tasks_by_id,
        after.visible_outputs_by_task_id == registry.inner.visible_outputs_by_task_id,
        after.tasks_by_id == registry.inner.tasks_by_id,
        after.outputs_by_task_id == registry.inner.outputs_by_task_id,
        decided_again is Ok && !(decided_again->Ok_0 is Nothing),
        settlement_problem(deletion_terms(later), PersistenceCommitOutcome::Durable) is None,
{
    lemma_reconciled_keeps(with_removal(registry.inner, decided, marked, summary), outputs);
}

/// A task that was removed durably is gone, live and for clients.
pub proof fn law_durable_removal_is_shown(
    registry: BilibiliTaskRegistryView,
    last: TaskView,
    summary: TaskOutputSummaryView,
    outputs: Seq<ReconciledOutputView>,
    committed_at: Timestamp,
    snapshot: Option<TaskPersistenceSnapshotView>,
    after: RegistryInnerView,
)
    requires
        registry.well_formed(),
        commits(
            registry.with_inner(with_removed_task(registry.inner, last, summary)),
            outputs,
            true,
            committed_at,
            snapshot,
            PersistenceCommitOutcome::Durable,
            deletion_terms(registry),
            after,
        ),
    ensures
        !after.tasks_by_id.contains_key(last.id),
        !after.visible_tasks_by_id.contains_key(last.id),
        !after.visible_outputs_by_task_id.contains_key(last.id),
{
    let changed = registry.with_inner(with_removed_task(registry.inner, last, summary));
    lemma_reconciled_keeps(changed.inner, outputs);
    lemma_reconciled_all(changed.inner, outputs);
    law_durable_commit_shows_live(
        changed,
        outputs,
        committed_at,
        snapshot,
        deletion_terms(registry),
        after,
    );
}

} // verus!
