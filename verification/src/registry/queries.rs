//! What clients and the cache ask about tasks.

use crate::gather::{add_listed, all_but, gathered, lemma_gathered_ends, lemma_gathered_step};
use crate::hls::{
    item_kept_online, item_uses, playback_hls_session_ids,
    protected_completed_result_hls_session_ids, protected_sessions,
    result_item_has_online_playback_after_cache_fill_failure, result_item_uses_hls_session,
    serves_session, task_has_online_playback_after_cache_fill_failure,
    task_has_playable_hls_session, task_kept_online, task_session_ids, task_uses,
    task_uses_hls_session_as_primary, uses_as_primary,
};
use crate::id_set::IdSet;
use crate::laws::sessions::{knows, law_tasks_know_their_sessions};
use crate::messages::{CANCELLED_AFTER_RESTART_MESSAGE, PREPARING_INTERRUPTED_AFTER_RESTART_MESSAGE};
use crate::model::basics::{TaskKind, TaskState};
use crate::model::task::{BilibiliTaskResultItem, BilibiliTaskResultItemView, Task, TaskView};
use crate::ordered::lists;
use crate::plain::Plain;
use crate::registry::BilibiliTaskRegistry;
use crate::registry::removal::completed_with;
use crate::requests::{id_problem, normalize_required_id, not_found, task_not_found};
use crate::results::{cached_as, holds_cached_item, some_item};
use crate::search::{
    Authorizes, CompletedWith, HasPrimary, HoldsPlayableResult, ServedWith, ServesOnline, TaskTest,
    find_task, named_serving_item,
};
use crate::status::Status;
use crate::table::Table;
use crate::text::{normalize, same_text, trimmed};
use vstd::prelude::*;

verus! {

/// A task of which `holds` is true, by its identifier, if there is one; which one of several is not
/// said. An empty session identifier finds nothing.
pub open spec fn finds(
    tasks: Map<Seq<char>, TaskView>,
    session_id: Seq<char>,
    holds: spec_fn(TaskView) -> bool,
    found: Option<Seq<char>>,
) -> bool {
    match found {
        Some(id) => trimmed(session_id).len() > 0 && tasks.contains_key(id) && holds(tasks[id]),
        None => trimmed(session_id).len() == 0 || forall|id: Seq<char>| #[trigger]
            tasks.contains_key(id) ==> !holds(tasks[id]),
    }
}

fn find_for_session<T: TaskTest>(
    tasks: &Table<String, Task>,
    session_id: &String,
    test: &T,
) -> (found: Option<String>)
    ensures
        session_id@.len() == 0 ==> found is None,
        session_id@.len() > 0 ==> match found {
            Some(id) => tasks@.contains_key(id@) && test.holds(tasks@[id@]),
            None => forall|id: Seq<char>| #[trigger]
                tasks@.contains_key(id) ==> !test.holds(tasks@[id]),
        },
{
    if session_id.as_str().is_empty() {
        return None;
    }
    find_task(tasks, test)
}

fn task_at(tasks: &Table<String, Task>, id: Option<String>) -> (task: Option<Task>)
    requires
        id matches Some(id) ==> tasks@.contains_key(id@),
    ensures
        match id {
            Some(id) => task matches Some(task) && task@ == tasks@[id@],
            None => task is None,
        },
{
    match id {
        Some(id) => match tasks.get(&id) {
            Some(task) => Some(task.duplicate()),
            None => None,
        },
        None => None,
    }
}

/// What `found` is of the tasks in `tasks`: a copy of one of which `holds` is true, if there is
/// one.
pub open spec fn finds_task(
    tasks: Map<Seq<char>, TaskView>,
    session_id: Seq<char>,
    holds: spec_fn(TaskView) -> bool,
    found: Option<TaskView>,
) -> bool {
    match found {
        Some(task) => exists|id: Seq<char>| #[trigger]
            tasks.contains_key(id) && tasks[id] == task && finds(
                tasks,
                session_id,
                holds,
                Some(id),
            ),
        None => finds(tasks, session_id, holds, None),
    }
}

/// How far a session has been published.
#[derive(Clone, Copy, Debug, PartialEq, Eq, Structural)]
pub enum HlsSessionPublicationState {
    /// Clients see it.
    Published,
    /// It is served, but the change is not committed yet.
    Pending,
    Absent,
}

impl BilibiliTaskRegistry {
    pub fn get_task(&self, id: &str) -> (result: Result<Task, Status>)
        ensures
            match id_problem(id@) {
                Some(problem) => result matches Err(status) && status@ == problem,
                None => if self@.inner.visible_tasks_by_id.contains_key(trimmed(id@)) {
                    result matches Ok(task) && task@ == self@.inner.visible_tasks_by_id[trimmed(
                        id@,
                    )]
                } else {
                    result matches Err(status) && status@ == not_found()
                },
            },
    {
        let normalized_id = match normalize_required_id(id) {
            Ok(normalized_id) => normalized_id,
            Err(status) => return Err(status),
        };
        match self.inner.visible_tasks_by_id.get(&normalized_id) {
            Some(task) => Ok(task.duplicate()),
            None => Err(task_not_found()),
        }
    }

    pub fn playable_task_id_for_hls_session(&self, session_id: &str) -> (found: Option<String>)
        ensures
            finds(
                self@.inner.visible_tasks_by_id,
                session_id@,
                |task: TaskView| serves_session(task, trimmed(session_id@)),
                found.deep_view(),
            ),
    {
        let normalized_id = normalize(session_id);
        let test = ServesOnline { session_id: normalized_id.as_str() };
        let found = find_for_session(&self.inner.visible_tasks_by_id, &normalized_id, &test);
        proof {
            assert forall|task: TaskView| test.holds(task) == serves_session(
                task,
                trimmed(session_id@),
            ) by {}
        }
        found
    }

    pub fn playable_task_id_for_primary_hls_session(&self, session_id: &str) -> (found: Option<
        String,
    >)
        ensures
            finds(
                self@.inner.visible_tasks_by_id,
                session_id@,
                |task: TaskView|
                    task.is_playback() && task.state == TaskState::Playable && uses_as_primary(
                        task,
                        trimmed(session_id@),
                    ),
                found.deep_view(),
            ),
    {
        let normalized_id = normalize(session_id);
        let test = HasPrimary { session_id: normalized_id.as_str(), state: TaskState::Playable };
        let found = find_for_session(&self.inner.visible_tasks_by_id, &normalized_id, &test);
        proof {
            assert forall|task: TaskView| test.holds(task) == (task.is_playback() && task.state
                == TaskState::Playable && uses_as_primary(task, trimmed(session_id@))) by {}
        }
        found
    }

    pub fn completed_playback_task_for_hls_session(&self, session_id: &str) -> (found: Option<Task>)
        ensures
            finds_task(
                self@.inner.visible_tasks_by_id,
                session_id@,
                |task: TaskView|
                    task.is_playback() && task.state == TaskState::Completed && uses_as_primary(
                        task,
                        trimmed(session_id@),
                    ),
                found.deep_view(),
            ),
    {
        let normalized_id = normalize(session_id);
        let test = HasPrimary { session_id: normalized_id.as_str(), state: TaskState::Completed };
        let found = find_for_session(&self.inner.visible_tasks_by_id, &normalized_id, &test);
        proof {
            assert forall|task: TaskView| test.holds(task) == (task.is_playback() && task.state
                == TaskState::Completed && uses_as_primary(task, trimmed(session_id@))) by {}
        }
        task_at(&self.inner.visible_tasks_by_id, found)
    }

    pub fn completed_playback_task_for_any_hls_session(&self, session_id: &str) -> (found: Option<
        Task,
    >)
        ensures
            finds_task(
                self@.inner.visible_tasks_by_id,
                session_id@,
                |task: TaskView| completed_with(task, trimmed(session_id@)),
                found.deep_view(),
            ),
    {
        let normalized_id = normalize(session_id);
        let test = CompletedWith { session_id: normalized_id.as_str() };
        let found = find_for_session(&self.inner.visible_tasks_by_id, &normalized_id, &test);
        proof {
            assert forall|task: TaskView| test.holds(task) == completed_with(
                task,
                trimmed(session_id@),
            ) by {}
        }
        task_at(&self.inner.visible_tasks_by_id, found)
    }

    pub fn playback_task_for_any_hls_session(&self, session_id: &str) -> (found: Option<Task>)
        ensures
            finds_task(
                self@.inner.visible_tasks_by_id,
                session_id@,
                |task: TaskView|
                    task.is_playback() && task.is_served() && task_uses(task, trimmed(session_id@)),
                found.deep_view(),
            ),
    {
        let normalized_id = normalize(session_id);
        let test = ServedWith { session_id: normalized_id.as_str() };
        let found = find_for_session(&self.inner.visible_tasks_by_id, &normalized_id, &test);
        proof {
            assert forall|task: TaskView| test.holds(task) == (task.is_playback()
                && task.is_served() && task_uses(task, trimmed(session_id@))) by {}
        }
        task_at(&self.inner.visible_tasks_by_id, found)
    }

    /// Whether the cached data of a session must be kept for some task.
    pub fn task_authorizes_hls_session_for_cleanup(&self, session_id: &str) -> (authorizes: bool)
        ensures
            authorizes == (trimmed(session_id@).len() > 0 && exists|id: Seq<char>| #[trigger]
                self@.inner.visible_tasks_by_id.contains_key(id) && authorizes_session(
                    self@.inner.visible_tasks_by_id[id],
                    trimmed(session_id@),
                )),
            trimmed(session_id@).len() > 0 ==> forall|id: Seq<char>| #[trigger]
                self@.inner.visible_tasks_by_id.contains_key(id)
                    && self@.inner.visible_tasks_by_id[id].kind
                    == TaskKind::BilibiliProgressivePlayback && (
                self@.inner.visible_tasks_by_id[id].state == TaskState::Completed
                    || self@.inner.visible_tasks_by_id[id].state == TaskState::Playable) && knows(
                    self@.inner.visible_tasks_by_id[id],
                    trimmed(session_id@),
                ) ==> authorizes,
    {
        let normalized_id = normalize(session_id);
        let test = Authorizes { session_id: normalized_id.as_str() };
        let found = find_for_session(&self.inner.visible_tasks_by_id, &normalized_id, &test);
        proof {
            assert forall|task: TaskView| test.holds(task) == authorizes_session(
                task,
                trimmed(session_id@),
            ) by {}
            if found is Some {
                assert(self@.inner.visible_tasks_by_id.contains_key(found->0@));
            }
            assert forall|id: Seq<char>| #[trigger]
                self@.inner.visible_tasks_by_id.contains_key(id) && knows(
                    self@.inner.visible_tasks_by_id[id],
                    trimmed(session_id@),
                ) implies task_uses(
                self@.inner.visible_tasks_by_id[id],
                trimmed(session_id@),
            ) by {
                law_tasks_know_their_sessions(
                    self@.inner.visible_tasks_by_id[id],
                    trimmed(session_id@),
                );
            }
        }
        found.is_some()
    }

    pub fn completed_playback_task_matches_hls_cache_item(
        &self,
        task: &Task,
        session_id: &str,
        library_item_id: &str,
    ) -> (matches: bool)
        ensures
            matches == (trimmed(session_id@).len() > 0 && trimmed(library_item_id@).len() > 0
                && task@.state == TaskState::Completed && holds_cache_item(
                task@,
                trimmed(session_id@),
                library_item_id@,
            )),
    {
        let normalized_id = normalize(session_id);
        if normalized_id.as_str().is_empty() || normalize(library_item_id).as_str().is_empty() {
            return false;
        }
        task.state == TaskState::Completed && has_completed_hls_cache_item(
            task,
            normalized_id.as_str(),
            library_item_id,
        )
    }

    pub fn playback_task_has_completed_hls_cache_item(
        &self,
        task: &Task,
        session_id: &str,
        library_item_id: &str,
    ) -> (found: bool)
        ensures
            found == (trimmed(session_id@).len() > 0 && trimmed(library_item_id@).len() > 0
                && holds_cache_item(task@, trimmed(session_id@), library_item_id@)),
    {
        let normalized_id = normalize(session_id);
        if normalized_id.as_str().is_empty() || normalize(library_item_id).as_str().is_empty() {
            return false;
        }
        has_completed_hls_cache_item(task, normalized_id.as_str(), library_item_id)
    }

    pub fn is_playback_task_playable(&self, id: &str) -> (playable: bool)
        ensures
            playable == (trimmed(id@).len() > 0 && self@.inner.visible_tasks_by_id.contains_key(
                trimmed(id@),
            ) && self@.inner.visible_tasks_by_id[trimmed(id@)].is_playback()
                && self@.inner.visible_tasks_by_id[trimmed(id@)].state == TaskState::Playable),
    {
        let normalized_id = match normalize_required_id(id) {
            Ok(normalized_id) => normalized_id,
            Err(_) => return false,
        };
        match self.inner.visible_tasks_by_id.get(&normalized_id) {
            Some(task) => task.kind == TaskKind::BilibiliProgressivePlayback && task.state
                == TaskState::Playable,
            None => false,
        }
    }

    pub fn is_primary_hls_session_playable(&self, task_id: &str, session_id: &str) -> (playable:
        bool)
        ensures
            playable == (trimmed(task_id@).len() > 0 && trimmed(session_id@).len() > 0
                && self@.inner.visible_tasks_by_id.contains_key(trimmed(task_id@)) && {
                let task = self@.inner.visible_tasks_by_id[trimmed(task_id@)];
                task.is_playback() && task.state == TaskState::Playable && uses_as_primary(
                    task,
                    trimmed(session_id@),
                )
            }),
    {
        let normalized_task_id = normalize(task_id);
        let normalized_session_id = normalize(session_id);
        if normalized_task_id.as_str().is_empty() || normalized_session_id.as_str().is_empty() {
            return false;
        }
        match self.inner.visible_tasks_by_id.get(&normalized_task_id) {
            Some(task) => task.kind == TaskKind::BilibiliProgressivePlayback && task.state
                == TaskState::Playable && task_uses_hls_session_as_primary(
                task,
                normalized_session_id.as_str(),
            ),
            None => false,
        }
    }

    pub fn hls_session_publication_state(
        &self,
        task_id: &str,
        session_id: &str,
    ) -> (state: HlsSessionPublicationState)
        ensures
            state == publication_state(
                self@.inner.visible_tasks_by_id,
                self@.inner.tasks_by_id,
                trimmed(task_id@),
                trimmed(session_id@),
            ),
    {
        let normalized_task_id = normalize(task_id);
        let normalized_session_id = normalize(session_id);
        if normalized_task_id.as_str().is_empty() || normalized_session_id.as_str().is_empty() {
            return HlsSessionPublicationState::Absent;
        }
        if let Some(task) = self.inner.visible_tasks_by_id.get(&normalized_task_id) {
            if task_has_playable_hls_session(task, normalized_session_id.as_str()) {
                return HlsSessionPublicationState::Published;
            }
        }
        if let Some(task) = self.inner.tasks_by_id.get(&normalized_task_id) {
            if task_has_playable_hls_session(task, normalized_session_id.as_str()) {
                return HlsSessionPublicationState::Pending;
            }
        }
        HlsSessionPublicationState::Absent
    }

    pub fn is_hls_session_playable_for_task(&self, task_id: &str, session_id: &str) -> (playable:
        bool)
        ensures
            playable == (publication_state(
                self@.inner.visible_tasks_by_id,
                self@.inner.tasks_by_id,
                trimmed(task_id@),
                trimmed(session_id@),
            ) == HlsSessionPublicationState::Published),
    {
        self.hls_session_publication_state(task_id, session_id)
            == HlsSessionPublicationState::Published
    }

    /// Whether a session can still be played online although its cache could not be filled. The
    /// live state counts, committed or not.
    pub fn hls_session_has_online_playback_after_cache_fill_failure(
        &self,
        task_id: &str,
        session_id: &str,
    ) -> (kept: bool)
        ensures
            kept == (trimmed(task_id@).len() > 0 && trimmed(session_id@).len() > 0
                && self@.inner.tasks_by_id.contains_key(trimmed(task_id@)) && session_kept_online(
                self@.inner.tasks_by_id[trimmed(task_id@)],
                trimmed(session_id@),
            )),
    {
        let normalized_task_id = normalize(task_id);
        let normalized_session_id = normalize(session_id);
        if normalized_task_id.as_str().is_empty() || normalized_session_id.as_str().is_empty() {
            return false;
        }
        match self.inner.tasks_by_id.get(&normalized_task_id) {
            Some(task) => task.kind == TaskKind::BilibiliProgressivePlayback && (
            task_has_online_playback_after_cache_fill_failure(task, normalized_session_id.as_str())
                || holds_item_kept_online(&task.result_items, normalized_session_id.as_str())),
            None => false,
        }
    }

    /// Whether a result can be played as a session of its own.
    pub fn is_playback_result_session_playable(
        &self,
        session_id: &str,
        completed_cache_playback_supported: bool,
    ) -> (playable: bool)
        ensures
            playable == (trimmed(session_id@).len() > 0 && exists|id: Seq<char>| #[trigger]
                self@.inner.visible_tasks_by_id.contains_key(id) && result_session_playable(
                    self@.inner.visible_tasks_by_id[id],
                    trimmed(session_id@),
                    completed_cache_playback_supported,
                )),
    {
        let normalized_id = normalize(session_id);
        let test = HoldsPlayableResult {
            session_id: normalized_id.as_str(),
            completed_cache_playback_supported,
        };
        let found = find_for_session(&self.inner.visible_tasks_by_id, &normalized_id, &test);
        proof {
            assert forall|task: TaskView| test.holds(task) == result_session_playable(
                task,
                trimmed(session_id@),
                completed_cache_playback_supported,
            ) by {}
            if found is Some {
                assert(self@.inner.visible_tasks_by_id.contains_key(found->0@));
            }
        }
        found.is_some()
    }

    /// The sessions by which a visible task is known.
    pub fn playback_hls_session_ids(&self, id: &str) -> (ids: Vec<String>)
        ensures
            lists(
                ids.deep_view(),
                if trimmed(id@).len() > 0 && self@.inner.visible_tasks_by_id.contains_key(
                    trimmed(id@),
                ) {
                    task_session_ids(self@.inner.visible_tasks_by_id[trimmed(id@)])
                } else {
                    Set::empty()
                },
            ),
    {
        let none: Vec<String> = Vec::new();
        proof {
            assert(none.deep_view().to_set() =~= Set::<Seq<char>>::empty());
        }
        let normalized_id = match normalize_required_id(id) {
            Ok(normalized_id) => normalized_id,
            Err(_) => return none,
        };
        match self.inner.visible_tasks_by_id.get(&normalized_id) {
            Some(task) => playback_hls_session_ids(task),
            None => none,
        }
    }

    /// Where a session is played from: as its own task says, or else some other.
    pub fn hls_playback_source_uri(&self, session_id: &str) -> (uri: Option<String>)
        ensures
            ({
                let tasks = self@.inner.visible_tasks_by_id;
                let wanted = trimmed(session_id@);
                if wanted.len() == 0 {
                    uri is None
                } else if tasks.contains_key(wanted) && source_uri(tasks[wanted], wanted) is Some {
                    uri.deep_view() == source_uri(tasks[wanted], wanted)
                } else {
                    match uri.deep_view() {
                        Some(found) => exists|id: Seq<char>| #[trigger]
                            tasks.contains_key(id) && source_uri(tasks[id], wanted) == Some(found),
                        None => forall|id: Seq<char>| #[trigger]
                            tasks.contains_key(id) ==> source_uri(tasks[id], wanted) is None,
                    }
                }
            }),
    {
        let normalized_id = normalize(session_id);
        if normalized_id.as_str().is_empty() {
            return None;
        }
        if let Some(task) = self.inner.visible_tasks_by_id.get(&normalized_id) {
            let own = playback_source_uri_for_session(task, normalized_id.as_str());
            if own.is_some() {
                return own;
            }
        }
        let test = HasSourceFor { session_id: normalized_id.as_str() };
        let found = find_task(&self.inner.visible_tasks_by_id, &test);
        proof {
            assert forall|task: TaskView| test.holds(task) == (source_uri(
                task,
                normalized_id@,
            ) is Some) by {}
        }
        match found {
            Some(id) => match self.inner.visible_tasks_by_id.get(&id) {
                Some(task) => {
                    proof {
                        assert(self@.inner.visible_tasks_by_id.contains_key(id@));
                    }
                    playback_source_uri_for_session(task, normalized_id.as_str())
                },
                None => None,
            },
            None => None,
        }
    }

    /// The results of playback tasks whose planning a restart has interrupted.
    pub fn interrupted_planning_result_session_ids(&self) -> (ids: IdSet)
        ensures
            ids@ == gathered(self@.inner.tasks_by_id, interrupted_ids()),
    {
        let tasks = &self.inner.tasks_by_id;
        let mut ids = IdSet::new();
        let count: usize = tasks.len();
        let ghost keys = tasks.keys();
        proof {
            lemma_gathered_ends(tasks@, None, interrupted_ids(), keys);
        }
        for index in 0..count
            invariant
                count == keys.len(),
                keys == tasks.keys(),
                forall|key: Seq<char>| tasks@.contains_key(key) <==> keys.contains(key),
                ids@ =~= gathered(
                    all_but(
                        tasks@.restrict(keys.take(index as int).to_set()),
                        None,
                    ),
                    interrupted_ids(),
                ),
        {
            proof {
                lemma_gathered_step(tasks@, None, interrupted_ids(), keys, index as int);
            }
            let task = tasks.value_at(index);
            if was_interrupted(task) {
                add_trimmed_item_ids(&mut ids, &task.result_items);
            }
        }
        ids
    }

    /// The sessions whose caches must not be evicted.
    pub fn protected_hls_cache_session_ids(&self) -> (ids: IdSet)
        ensures
            ids@ == gathered(self@.inner.visible_tasks_by_id, protected_ids()),
    {
        let tasks = &self.inner.visible_tasks_by_id;
        let mut ids = IdSet::new();
        let count: usize = tasks.len();
        let ghost keys = tasks.keys();
        proof {
            lemma_gathered_ends(tasks@, None, protected_ids(), keys);
        }
        for index in 0..count
            invariant
                count == keys.len(),
                keys == tasks.keys(),
                forall|key: Seq<char>| tasks@.contains_key(key) <==> keys.contains(key),
                ids@ =~= gathered(
                    all_but(
                        tasks@.restrict(keys.take(index as int).to_set()),
                        None,
                    ),
                    protected_ids(),
                ),
        {
            proof {
                lemma_gathered_step(tasks@, None, protected_ids(), keys, index as int);
            }
            let task = tasks.value_at(index);
            if task.kind == TaskKind::BilibiliProgressivePlayback {
                match task.state {
                    TaskState::Completed => add_listed(
                        &mut ids,
                        &protected_completed_result_hls_session_ids(task),
                    ),
                    TaskState::Succeeded | TaskState::Failed | TaskState::Cancelled => {},
                    _ => add_listed(&mut ids, &playback_hls_session_ids(task)),
                }
            }
        }
        ids
    }
}

/// The cached data of the session is kept for `task`.
pub open spec fn authorizes_session(task: TaskView, session_id: Seq<char>) -> bool {
    &&& task.is_playback()
    &&& match task.state {
        TaskState::Queued
        | TaskState::Running
        | TaskState::Preparing
        | TaskState::CancelRequested => task.id == session_id || task_uses(task, session_id),
        TaskState::Playable | TaskState::Completed => task_uses(task, session_id),
        _ => false,
    }
}

/// The task, or one of its results, is cached for the session and stands in the library as
/// `library_item_id`.
pub open spec fn holds_cache_item(
    task: TaskView,
    session_id: Seq<char>,
    library_item_id: Seq<char>,
) -> bool {
    task.is_playback() && ((task.library_item_id == library_item_id && uses_as_primary(
        task,
        session_id,
    )) || some_item(task.result_items, cached_as(session_id, library_item_id)))
}

fn has_completed_hls_cache_item(
    task: &Task,
    session_id: &str,
    library_item_id: &str,
) -> (found: bool)
    ensures
        found == holds_cache_item(task@, session_id@, library_item_id@),
{
    task.kind == TaskKind::BilibiliProgressivePlayback && ((same_text(
        task.library_item_id.as_str(),
        library_item_id,
    ) && task_uses_hls_session_as_primary(task, session_id)) || holds_cached_item(
        &task.result_items,
        session_id,
        library_item_id,
    ))
}

pub open spec fn publication_state(
    visible: Map<Seq<char>, TaskView>,
    live: Map<Seq<char>, TaskView>,
    task_id: Seq<char>,
    session_id: Seq<char>,
) -> HlsSessionPublicationState {
    if task_id.len() == 0 || session_id.len() == 0 {
        HlsSessionPublicationState::Absent
    } else if visible.contains_key(task_id) && serves_session(visible[task_id], session_id) {
        HlsSessionPublicationState::Published
    } else if live.contains_key(task_id) && serves_session(live[task_id], session_id) {
        HlsSessionPublicationState::Pending
    } else {
        HlsSessionPublicationState::Absent
    }
}

/// Some result can still be played online although its cache could not be filled.
pub open spec fn some_item_kept_online(
    items: Seq<BilibiliTaskResultItemView>,
    session_id: Seq<char>,
) -> bool {
    exists|i: int|
        0 <= i < items.len() && item_uses(#[trigger] items[i], session_id) && item_kept_online(
            items[i],
        )
}

/// The session can still be played online although its cache could not be filled.
pub open spec fn session_kept_online(task: TaskView, session_id: Seq<char>) -> bool {
    task.is_playback() && (task_kept_online(task, session_id) || some_item_kept_online(
        task.result_items,
        session_id,
    ))
}

fn holds_item_kept_online(items: &Vec<BilibiliTaskResultItem>, session_id: &str) -> (found: bool)
    ensures
        found == some_item_kept_online(items.deep_view(), session_id@),
{
    for index in 0..items.len()
        invariant
            forall|i: int|
                0 <= i < index ==> !(item_uses(#[trigger] items.deep_view()[i], session_id@)
                    && item_kept_online(items.deep_view()[i])),
    {
        let item = &items[index];
        proof {
            assert(items.deep_view()[index as int] == item@);
        }
        if result_item_uses_hls_session(item, session_id)
            && result_item_has_online_playback_after_cache_fill_failure(item) {
            return true;
        }
    }
    false
}

/// A result of `task` can be played as the session `session_id`.
pub open spec fn result_session_playable(
    task: TaskView,
    session_id: Seq<char>,
    completed_cache_playback_supported: bool,
) -> bool {
    task.is_playback() && (task.state == TaskState::Playable || (task.state == TaskState::Completed
        && completed_cache_playback_supported)) && named_serving_item(
        task.result_items,
        session_id,
        true,
    )
}

/// The first of `items` with the identifier `id`.
pub open spec fn first_item_named(
    items: Seq<BilibiliTaskResultItemView>,
    id: Seq<char>,
    start: int,
) -> Option<BilibiliTaskResultItemView>
    decreases items.len() - start,
{
    if start < 0 || start >= items.len() {
        None
    } else if items[start].id == id {
        Some(items[start])
    } else {
        first_item_named(items, id, start + 1)
    }
}

/// Where `task` says that the session is played from.
pub open spec fn source_uri(task: TaskView, session_id: Seq<char>) -> Option<Seq<char>> {
    let of_item = match first_item_named(task.result_items, session_id, 0) {
        Some(item) => match item.playback_source {
            Some(source) => Some(source.uri),
            None => None,
        },
        None => None,
    };
    match task.playback_source {
        Some(source) => if source.item_id == session_id || task.id == session_id || uses_as_primary(
            task,
            session_id,
        ) {
            Some(source.uri)
        } else {
            of_item
        },
        None => of_item,
    }
}

pub fn playback_source_uri_for_session(task: &Task, session_id: &str) -> (uri: Option<String>)
    ensures
        uri.deep_view() == source_uri(task@, session_id@),
{
    if let Some(source) = &task.playback_source {
        if same_text(source.item_id.as_str(), session_id) || same_text(
            task.id.as_str(),
            session_id,
        ) || task_uses_hls_session_as_primary(task, session_id) {
            return Some(source.uri.clone());
        }
    }
    let ghost items = task@.result_items;
    for index in 0..task.result_items.len()
        invariant
            items == task@.result_items,
            first_item_named(items, session_id@, 0) == first_item_named(
                items,
                session_id@,
                index as int,
            ),
            match task@.playback_source {
                Some(source) => !(source.item_id == session_id@ || task@.id == session_id@
                    || uses_as_primary(task@, session_id@)),
                None => true,
            },
    {
        let item = &task.result_items[index];
        proof {
            assert(items[index as int] == item@);
        }
        if same_text(item.id.as_str(), session_id) {
            return match &item.playback_source {
                Some(source) => Some(source.uri.clone()),
                None => None,
            };
        }
    }
    None
}

/// A task that says where the session is played from.
pub struct HasSourceFor<'a> {
    pub session_id: &'a str,
}

impl<'a> TaskTest for HasSourceFor<'a> {
    open spec fn holds(&self, task: TaskView) -> bool {
        source_uri(task, self.session_id@) is Some
    }

    fn test(&self, task: &Task) -> (result: bool) {
        playback_source_uri_for_session(task, self.session_id).is_some()
    }
}

/// A playback task whose planning a restart has interrupted.
pub open spec fn interrupted(task: TaskView) -> bool {
    task.is_playback() && ((task.state == TaskState::Failed && task.message
        == PREPARING_INTERRUPTED_AFTER_RESTART_MESSAGE@) || (task.state == TaskState::Cancelled
        && task.message == CANCELLED_AFTER_RESTART_MESSAGE@))
}

fn was_interrupted(task: &Task) -> (result: bool)
    ensures
        result == interrupted(task@),
{
    task.kind == TaskKind::BilibiliProgressivePlayback && ((task.state == TaskState::Failed
        && same_text(task.message.as_str(), PREPARING_INTERRUPTED_AFTER_RESTART_MESSAGE)) || (
    task.state == TaskState::Cancelled && same_text(
        task.message.as_str(),
        CANCELLED_AFTER_RESTART_MESSAGE,
    )))
}

/// The identifiers of `items`, without white space around them; those of white space alone are left
/// out.
pub open spec fn trimmed_item_ids(items: Seq<BilibiliTaskResultItemView>) -> Set<Seq<char>> {
    Set::new(
        |id: Seq<char>|
            id.len() > 0 && exists|i: int|
                0 <= i < items.len() && trimmed((#[trigger] items[i]).id) == id,
    )
}

fn add_trimmed_item_ids(ids: &mut IdSet, items: &Vec<BilibiliTaskResultItem>)
    ensures
        final(ids)@ == old(ids)@.union(trimmed_item_ids(items.deep_view())),
{
    let ghost all = items.deep_view();
    let ghost before = ids@;
    proof {
        assert(trimmed_item_ids(all.take(0)) =~= Set::<Seq<char>>::empty());
    }
    for index in 0..items.len()
        invariant
            all == items.deep_view(),
            ids@ =~= before.union(trimmed_item_ids(all.take(index as int))),
    {
        let item = &items[index];
        let id = normalize(item.id.as_str());
        proof {
            let short = all.take(index as int);
            let long = all.take(index + 1);
            assert(all[index as int] == item@);
            assert forall|other: Seq<char>| trimmed_item_ids(long).contains(other) <==> (
            trimmed_item_ids(short).contains(other) || (other == id@ && id@.len() > 0)) by {
                if trimmed_item_ids(long).contains(other) {
                    let i = choose|i: int|
                        0 <= i < long.len() && trimmed((#[trigger] long[i]).id) == other;
                    if i < index {
                        assert(short[i] == long[i]);
                    }
                }
                if trimmed_item_ids(short).contains(other) {
                    let i = choose|i: int|
                        0 <= i < short.len() && trimmed((#[trigger] short[i]).id) == other;
                    assert(long[i] == short[i]);
                }
                assert(long[index as int] == item@);
            }
        }
        if !id.as_str().is_empty() {
            let _ = ids.insert(id);
        }
    }
    proof {
        assert(all.take(all.len() as int) =~= all);
    }
}

pub open spec fn interrupted_ids() -> spec_fn(TaskView) -> Set<Seq<char>> {
    |task: TaskView|
        if interrupted(task) {
            trimmed_item_ids(task.result_items)
        } else {
            Set::empty()
        }
}

/// The sessions whose caches must not be evicted for a task: all of them while it has not ended,
/// those of its served results once it is completed, and none otherwise.
pub open spec fn protected_ids() -> spec_fn(TaskView) -> Set<Seq<char>> {
    |task: TaskView|
        if !task.is_playback() {
            Set::empty()
        } else {
            match task.state {
                TaskState::Completed => protected_sessions(task),
                TaskState::Succeeded | TaskState::Failed | TaskState::Cancelled => Set::empty(),
                _ => task_session_ids(task),
            }
        }
}

} // verus!
