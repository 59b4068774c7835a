//! What the kind and the state of a task mean.

use crate::model::basics::{TaskKind, TaskState};
use crate::model::task::{BilibiliTaskResultItem, BilibiliTaskResultItemView, Task, TaskView};
use vstd::prelude::*;

verus! {

/// A number that the protocol does not define counts as unspecified.
pub open spec fn known_state(state: TaskState) -> TaskState {
    match state {
        TaskState::Unrecognized(_) => TaskState::Unspecified,
        _ => state,
    }
}

/// A number that the protocol does not define counts as unspecified.
pub open spec fn known_kind(kind: TaskKind) -> TaskKind {
    match kind {
        TaskKind::Unrecognized(_) => TaskKind::Unspecified,
        _ => kind,
    }
}

impl Task {
    pub fn state(&self) -> (state: TaskState)
        ensures
            state == known_state(self.state),
    {
        match self.state {
            TaskState::Unrecognized(_) => TaskState::Unspecified,
            _ => self.state,
        }
    }

    pub fn kind(&self) -> (kind: TaskKind)
        ensures
            kind == known_kind(self.kind),
    {
        match self.kind {
            TaskKind::Unrecognized(_) => TaskKind::Unspecified,
            _ => self.kind,
        }
    }
}

/// The states in which work on a task is still ahead or under way.
pub open spec fn active_state(state: TaskState) -> bool {
    state == TaskState::Queued || state == TaskState::Running || state == TaskState::CancelRequested
        || state == TaskState::Planned || state == TaskState::Preparing
}

/// The states that a task does not leave by the work on it.
pub open spec fn terminal_state(state: TaskState) -> bool {
    state == TaskState::Succeeded || state == TaskState::Failed || state == TaskState::Cancelled
        || state == TaskState::Completed
}

/// The states in which a session is served, online or from the cache.
pub open spec fn served_state(state: TaskState) -> bool {
    state == TaskState::Playable || state == TaskState::Completed
}

pub fn is_active(state: TaskState) -> (active: bool)
    ensures
        active == active_state(state),
{
    matches!(
        state,
        TaskState::Queued
            | TaskState::Running
            | TaskState::CancelRequested
            | TaskState::Planned
            | TaskState::Preparing
    )
}

pub fn is_terminal(state: TaskState) -> (terminal: bool)
    ensures
        terminal == terminal_state(state),
{
    matches!(
        state,
        TaskState::Succeeded | TaskState::Failed | TaskState::Cancelled | TaskState::Completed
    )
}

pub(crate) fn is_served(state: TaskState) -> (served: bool)
    ensures
        served == served_state(state),
{
    matches!(state, TaskState::Playable | TaskState::Completed)
}

/// The state of a result, where its number is one that the protocol defines.
pub open spec fn item_state(item: BilibiliTaskResultItemView) -> Option<TaskState> {
    match item.state {
        TaskState::Unrecognized(_) => None,
        _ => Some(item.state),
    }
}

pub fn result_item_state(item: &BilibiliTaskResultItem) -> (state: Option<TaskState>)
    ensures
        state == item_state(item@),
{
    match item.state {
        TaskState::Unrecognized(_) => None,
        _ => Some(item.state),
    }
}

impl TaskView {
    pub open spec fn is_playback(self) -> bool {
        self.kind == TaskKind::BilibiliProgressivePlayback
    }

    pub open spec fn is_served(self) -> bool {
        served_state(self.state)
    }

    pub open spec fn is_terminal(self) -> bool {
        terminal_state(self.state)
    }
}

} // verus!
