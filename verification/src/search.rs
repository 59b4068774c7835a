//! Finding a task by what holds of it.

use crate::hls::{
    holds_id, playback_hls_session_ids, result_item_can_serve_online_playback_after_task_completion,
    serves_session, task_has_playable_hls_session, task_uses, task_uses_hls_session,
    task_uses_hls_session_as_primary, uses_as_primary,
};
use crate::model::basics::{TaskKind, TaskState};
use crate::model::task::{BilibiliTaskResultItem, Task, TaskView};
use crate::registry::queries::authorizes_session;
use crate::registry::removal::{completed_with, holds_cached_result, serves_anyhow};
use crate::results::{Items, holds_cached_item, holds_serving_item, named_and_serving};
use crate::states::is_served;
use crate::table::Table;
use crate::text::same_text;
use vstd::prelude::*;

verus! {

/// Something that may hold of a task.
pub trait TaskTest {
    spec fn holds(&self, task: TaskView) -> bool;

    fn test(&self, task: &Task) -> (result: bool)
        ensures
            result == self.holds(task@),
    ;
}

/// Some task of which `test` holds; which one of several is not said.
pub(crate) fn find_task<T: TaskTest>(tasks: &Table<String, Task>, test: &T) -> (found: Option<
    String,
>)
    ensures
        match found {
            Some(id) => tasks@.contains_key(id@) && test.holds(tasks@[id@]),
            None => forall|id: Seq<char>| #[trigger]
                tasks@.contains_key(id) ==> !test.holds(tasks@[id]),
        },
{
    let count: usize = tasks.len();
    let ghost keys = tasks.keys();
    for index in 0..count
        invariant
            count == keys.len(),
            keys == tasks.keys(),
            forall|i: int| 0 <= i < index ==> !test.holds(tasks@[#[trigger] keys[i]]),
    {
        if test.test(tasks.value_at(index)) {
            return Some(tasks.key_at(index).clone());
        }
    }
    proof {
        assert forall|id: Seq<char>| #[trigger] tasks@.contains_key(id) implies !test.holds(
            tasks@[id],
        ) by {
            let i = keys.index_of(id);
            assert(keys.contains(id));
            assert(keys[i] == id);
        }
    }
    None
}

/// A playback task that serves the session online.
pub struct ServesOnline<'a> {
    pub session_id: &'a str,
}

impl<'a> TaskTest for ServesOnline<'a> {
    open spec fn holds(&self, task: TaskView) -> bool {
        serves_session(task, self.session_id@)
    }

    fn test(&self, task: &Task) -> (result: bool) {
        task_has_playable_hls_session(task, self.session_id)
    }
}

/// A playback task in `state` with the session as its primary one.
pub struct HasPrimary<'a> {
    pub session_id: &'a str,
    pub state: TaskState,
}

impl<'a> TaskTest for HasPrimary<'a> {
    open spec fn holds(&self, task: TaskView) -> bool {
        task.is_playback() && task.state == self.state && uses_as_primary(task, self.session_id@)
    }

    fn test(&self, task: &Task) -> (result: bool) {
        task.kind == TaskKind::BilibiliProgressivePlayback && task.state == self.state
            && task_uses_hls_session_as_primary(task, self.session_id)
    }
}

/// A completed playback task that is known by the session.
pub struct CompletedWith<'a> {
    pub session_id: &'a str,
}

impl<'a> TaskTest for CompletedWith<'a> {
    open spec fn holds(&self, task: TaskView) -> bool {
        completed_with(task, self.session_id@)
    }

    fn test(&self, task: &Task) -> (result: bool) {
        task.kind == TaskKind::BilibiliProgressivePlayback && task.state == TaskState::Completed
            && holds_id(&playback_hls_session_ids(task), self.session_id)
    }
}

/// A served playback task that is known by the session.
pub struct ServedWith<'a> {
    pub session_id: &'a str,
}

impl<'a> TaskTest for ServedWith<'a> {
    open spec fn holds(&self, task: TaskView) -> bool {
        task.is_playback() && task.is_served() && task_uses(task, self.session_id@)
    }

    fn test(&self, task: &Task) -> (result: bool) {
        task.kind == TaskKind::BilibiliProgressivePlayback && is_served(task.state)
            && task_uses_hls_session(task, self.session_id)
    }
}

/// A playback task for which the cached data of the session is kept.
pub struct Authorizes<'a> {
    pub session_id: &'a str,
}

impl<'a> TaskTest for Authorizes<'a> {
    open spec fn holds(&self, task: TaskView) -> bool {
        authorizes_session(task, self.session_id@)
    }

    fn test(&self, task: &Task) -> (result: bool) {
        if task.kind != TaskKind::BilibiliProgressivePlayback {
            return false;
        }
        match task.state {
            TaskState::Queued
            | TaskState::Running
            | TaskState::Preparing
            | TaskState::CancelRequested => same_text(task.id.as_str(), self.session_id)
                || task_uses_hls_session(task, self.session_id),
            TaskState::Playable | TaskState::Completed => task_uses_hls_session(
                task,
                self.session_id,
            ),
            _ => false,
        }
    }
}

/// A playable task with a cached result that stands in the library as `library_item_id`.
pub struct HoldsCachedResult<'a> {
    pub session_id: &'a str,
    pub library_item_id: &'a str,
}

impl<'a> TaskTest for HoldsCachedResult<'a> {
    open spec fn holds(&self, task: TaskView) -> bool {
        holds_cached_result(task, self.session_id@, self.library_item_id@)
    }

    fn test(&self, task: &Task) -> (result: bool) {
        task.kind == TaskKind::BilibiliProgressivePlayback && task.state == TaskState::Playable
            && holds_cached_item(&task.result_items, self.session_id, self.library_item_id)
    }
}

/// A served playback task with the session as its primary one, or with a result that serves it.
pub struct ServesAnyhow<'a> {
    pub session_id: &'a str,
}

impl<'a> TaskTest for ServesAnyhow<'a> {
    open spec fn holds(&self, task: TaskView) -> bool {
        serves_anyhow(task, self.session_id@)
    }

    fn test(&self, task: &Task) -> (result: bool) {
        task.kind == TaskKind::BilibiliProgressivePlayback && is_served(task.state) && (
        task_uses_hls_session_as_primary(task, self.session_id) || holds_serving_item(
            &task.result_items,
            self.session_id,
        ))
    }
}

/// Whether some result has the identifier `session_id` and can be played; with `with_session`, it
/// must also hold a session.
pub(crate) fn holds_named_serving_item(
    items: &Vec<BilibiliTaskResultItem>,
    session_id: &str,
    with_session: bool,
) -> (found: bool)
    ensures
        found == named_serving_item(items.deep_view(), session_id@, with_session),
{
    for index in 0..items.len()
        invariant
            forall|i: int|
                0 <= i < index ==> !(named_and_serving(session_id@)(
                    #[trigger] items.deep_view()[i],
                ) && (with_session ==> items.deep_view()[i].playback_session is Some)),
    {
        let item = &items[index];
        proof {
            assert(items.deep_view()[index as int] == item@);
        }
        if same_text(item.id.as_str(), session_id)
            && result_item_can_serve_online_playback_after_task_completion(item) && (!with_session
            || item.playback_session.is_some()) {
            return true;
        }
    }
    false
}

pub open spec fn named_serving_item(
    items: Items,
    session_id: Seq<char>,
    with_session: bool,
) -> bool {
    exists|i: int|
        0 <= i < items.len() && named_and_serving(session_id)(#[trigger] items[i]) && (with_session
            ==> items[i].playback_session is Some)
}

/// A served playback task with a result of this identifier that can be played.
pub struct HoldsResult<'a> {
    pub session_id: &'a str,
}

impl<'a> TaskTest for HoldsResult<'a> {
    open spec fn holds(&self, task: TaskView) -> bool {
        task.is_playback() && task.is_served() && named_serving_item(
            task.result_items,
            self.session_id@,
            false,
        )
    }

    fn test(&self, task: &Task) -> (result: bool) {
        task.kind == TaskKind::BilibiliProgressivePlayback && is_served(task.state)
            && holds_named_serving_item(&task.result_items, self.session_id, false)
    }
}

/// A playback task with a result of this identifier that can be played as a session of its own.
/// Those of completed tasks count where completed caches can be played.
pub struct HoldsPlayableResult<'a> {
    pub session_id: &'a str,
    pub completed_cache_playback_supported: bool,
}

impl<'a> TaskTest for HoldsPlayableResult<'a> {
    open spec fn holds(&self, task: TaskView) -> bool {
        task.is_playback() && (task.state == TaskState::Playable || (task.state
            == TaskState::Completed && self.completed_cache_playback_supported))
            && named_serving_item(task.result_items, self.session_id@, true)
    }

    fn test(&self, task: &Task) -> (result: bool) {
        task.kind == TaskKind::BilibiliProgressivePlayback && (task.state == TaskState::Playable
            || (task.state == TaskState::Completed && self.completed_cache_playback_supported))
            && holds_named_serving_item(&task.result_items, self.session_id, true)
    }
}

} // verus!
