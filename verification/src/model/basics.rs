//! Small values shared by the task messages.

use crate::plain::Plain;
use vstd::prelude::*;

verus! {

/// A point in time: seconds since the Unix epoch, and nanoseconds within the second.
#[derive(Clone, Copy, Debug, Default, PartialEq, Eq, Structural)]
pub struct Timestamp {
    pub seconds: i64,
    pub nanos: i32,
}

impl DeepView for Timestamp {
    type V = Timestamp;

    open spec fn deep_view(&self) -> Timestamp {
        *self
    }
}

impl Plain for Timestamp {
    fn duplicate(&self) -> (copy: Self) {
        *self
    }

    fn same_as(&self, other: &Self) -> (same: bool) {
        *self == *other
    }
}

/// How far a task has come, as a fraction between nothing and all.
///
/// The crate computes with integers only: a fraction that it finds itself is kept as a quotient, and
/// one that a worker measured is kept as the bits of its IEEE 754 double.
#[derive(Clone, Copy, Debug, PartialEq, Eq, Structural)]
pub enum Progress {
    Exact { done: u64, total: u64 },
    Measured { bits: u64 },
}

impl DeepView for Progress {
    type V = Progress;

    open spec fn deep_view(&self) -> Progress {
        *self
    }
}

impl Plain for Progress {
    fn duplicate(&self) -> (copy: Self) {
        *self
    }

    fn same_as(&self, other: &Self) -> (same: bool) {
        *self == *other
    }
}

impl Default for Progress {
    fn default() -> (progress: Self)
        ensures
            progress == no_progress(),
    {
        Progress::Exact { done: 0, total: 1 }
    }
}

/// Nothing done.
pub open spec fn no_progress() -> Progress {
    Progress::Exact { done: 0, total: 1 }
}

/// All done.
pub open spec fn full_progress() -> Progress {
    Progress::Exact { done: 1, total: 1 }
}

/// What a task is for.
#[derive(Clone, Copy, Debug, Default, PartialEq, Eq, Structural)]
pub enum TaskKind {
    #[default]
    Unspecified,
    BilibiliDownload,
    LibraryRescan,
    BilibiliProgressivePlayback,
    Unrecognized(i32),
}

impl DeepView for TaskKind {
    type V = TaskKind;

    open spec fn deep_view(&self) -> TaskKind {
        *self
    }
}

impl Plain for TaskKind {
    fn duplicate(&self) -> (copy: Self) {
        *self
    }

    fn same_as(&self, other: &Self) -> (same: bool) {
        *self == *other
    }
}

/// Where a task, or one result of a task, stands.
#[derive(Clone, Copy, Debug, Default, PartialEq, Eq, Structural)]
pub enum TaskState {
    #[default]
    Unspecified,
    Queued,
    Running,
    Succeeded,
    Failed,
    CancelRequested,
    Cancelled,
    Planned,
    Preparing,
    Playable,
    Completed,
    Unrecognized(i32),
}

impl DeepView for TaskState {
    type V = TaskState;

    open spec fn deep_view(&self) -> TaskState {
        *self
    }
}

impl Plain for TaskState {
    fn duplicate(&self) -> (copy: Self) {
        *self
    }

    fn same_as(&self, other: &Self) -> (same: bool) {
        *self == *other
    }
}

/// Whether an artifact of a result can be had.
#[derive(Clone, Copy, Debug, Default, PartialEq, Eq, Structural)]
pub enum TaskArtifactState {
    #[default]
    Unspecified,
    Pending,
    Available,
    Unavailable,
    Deleted,
    Unrecognized(i32),
}

impl DeepView for TaskArtifactState {
    type V = TaskArtifactState;

    open spec fn deep_view(&self) -> TaskArtifactState {
        *self
    }
}

impl Plain for TaskArtifactState {
    fn duplicate(&self) -> (copy: Self) {
        *self
    }

    fn same_as(&self, other: &Self) -> (same: bool) {
        *self == *other
    }
}

} // verus!
