//! Points in time, ages, and how long finished tasks are kept.

use crate::model::basics::{TaskKind, TaskState, Timestamp};
use crate::model::task::{Task, TaskView};
use crate::states::is_terminal;
use vstd::prelude::*;

verus! {

pub const DEFAULT_MAX_TERMINAL_TASKS: usize = 200;

/// Thirty days.
pub const DEFAULT_TERMINAL_TASK_RETENTION_SECONDS: u64 = 2_592_000;

/// How long ago the epoch was by the clock, in seconds and nanoseconds; nothing, if the clock
/// stands before the epoch.
///
/// `SystemTime::elapsed`, of the epoch: what the clock shows is not known; the nanoseconds make less
/// than a second.
#[verifier::external_body]
fn since_epoch() -> (elapsed: Option<(u64, u32)>)
    ensures
        elapsed matches Some(parts) ==> parts.1 < 1_000_000_000,
{
    match std::time::UNIX_EPOCH.elapsed() {
        Ok(elapsed) => Some((elapsed.as_secs(), elapsed.subsec_nanos())),
        Err(_) => None,
    }
}

/// The point in time that lies `elapsed` after the epoch, or as far behind it as can be written
/// down.
pub open spec fn point_after_epoch(elapsed: (u64, u32)) -> Timestamp {
    Timestamp {
        seconds: if elapsed.0 <= i64::MAX { elapsed.0 as i64 } else { i64::MAX },
        nanos: if elapsed.1 <= i32::MAX { elapsed.1 as i32 } else { i32::MAX },
    }
}

pub fn timestamp_after_epoch(elapsed: (u64, u32)) -> (timestamp: Timestamp)
    ensures
        timestamp == point_after_epoch(elapsed),
{
    Timestamp {
        seconds: if elapsed.0 <= i64::MAX as u64 { elapsed.0 as i64 } else { i64::MAX },
        nanos: if elapsed.1 <= i32::MAX as u32 { elapsed.1 as i32 } else { i32::MAX },
    }
}

/// The current time. A clock that stands before the epoch gives the epoch.
pub fn current_timestamp() -> (now: Timestamp)
    ensures
        now.seconds >= 0,
        0 <= now.nanos < 1_000_000_000,
{
    timestamp_by_clock(since_epoch())
}

/// The point in time that a reading of the clock stands for. A clock that stands before the epoch
/// gives the epoch.
pub fn timestamp_by_clock(elapsed: Option<(u64, u32)>) -> (now: Timestamp)
    ensures
        now == match elapsed {
            Some(elapsed) => point_after_epoch(elapsed),
            None => Timestamp { seconds: 0, nanos: 0 },
        },
{
    match elapsed {
        Some(elapsed) => timestamp_after_epoch(elapsed),
        None => Timestamp { seconds: 0, nanos: 0 },
    }
}

/// A length of time.
#[derive(Clone, Copy, Debug, PartialEq, Eq, Structural)]
pub struct Duration {
    pub seconds: u64,
    pub nanos: u32,
}

impl Duration {
    pub fn from_secs(seconds: u64) -> (duration: Self)
        ensures
            duration == (Duration { seconds, nanos: 0 }),
    {
        Duration { seconds, nanos: 0 }
    }
}

pub open spec fn nanos_of(timestamp: Timestamp) -> int {
    timestamp.seconds * 1_000_000_000 + timestamp.nanos
}

pub open spec fn nanos_of_duration(duration: Duration) -> int {
    duration.seconds * 1_000_000_000 + duration.nanos
}

pub fn timestamp_nanos(timestamp: &Timestamp) -> (nanos: i128)
    ensures
        nanos == nanos_of(*timestamp),
{
    timestamp.seconds as i128 * 1_000_000_000 + timestamp.nanos as i128
}

pub fn duration_nanos(duration: Duration) -> (nanos: i128)
    ensures
        nanos == nanos_of_duration(duration),
{
    duration.seconds as i128 * 1_000_000_000 + duration.nanos as i128
}

/// How much later `now` is than `reference`. The difference always fits.
pub fn timestamp_age_nanos(now: &Timestamp, reference: &Timestamp) -> (age: Option<i128>)
    ensures
        age is Some,
        age->0 == nanos_of(*now) - nanos_of(*reference),
{
    Some(timestamp_nanos(now) - timestamp_nanos(reference))
}

/// `left` is earlier than `right`, where a missing point in time counts as the epoch.
pub open spec fn earlier(left: Option<Timestamp>, right: Option<Timestamp>) -> bool {
    let a = or_epoch(left);
    let b = or_epoch(right);
    a.seconds < b.seconds || (a.seconds == b.seconds && a.nanos < b.nanos)
}

pub open spec fn or_epoch(timestamp: Option<Timestamp>) -> Timestamp {
    match timestamp {
        Some(timestamp) => timestamp,
        None => Timestamp { seconds: 0, nanos: 0 },
    }
}

pub fn timestamp_sort_key(timestamp: Option<Timestamp>) -> (key: (i64, i32))
    ensures
        key == (or_epoch(timestamp).seconds, or_epoch(timestamp).nanos),
{
    match timestamp {
        Some(timestamp) => (timestamp.seconds, timestamp.nanos),
        None => (0, 0),
    }
}

pub(crate) fn is_earlier(left: Option<Timestamp>, right: Option<Timestamp>) -> (result: bool)
    ensures
        result == earlier(left, right),
{
    let a = timestamp_sort_key(left);
    let b = timestamp_sort_key(right);
    a.0 < b.0 || (a.0 == b.0 && a.1 < b.1)
}

/// Something that expires at `expires_at` is past at `now`.
pub open spec fn expired(expires_at: Option<Timestamp>, now: Timestamp) -> bool {
    match expires_at {
        Some(expires_at) => nanos_of(expires_at) <= nanos_of(now),
        None => false,
    }
}

pub(crate) fn is_expired(expires_at: &Option<Timestamp>, now: &Timestamp) -> (result: bool)
    ensures
        result == expired(*expires_at, *now),
{
    match expires_at {
        Some(expires_at) => timestamp_nanos(expires_at) <= timestamp_nanos(now),
        None => false,
    }
}

/// How many finished tasks are kept, and for how long.
#[derive(Clone, Copy, Debug, PartialEq, Eq)]
pub struct TaskRetentionPolicy {
    pub max_terminal_tasks: Option<usize>,
    pub max_terminal_task_age: Option<Duration>,
}

impl TaskRetentionPolicy {
    pub fn new(
        max_terminal_tasks: Option<usize>,
        max_terminal_task_age: Option<Duration>,
    ) -> (policy: Self)
        ensures
            policy.max_terminal_tasks == max_terminal_tasks,
            policy.max_terminal_task_age == max_terminal_task_age,
    {
        TaskRetentionPolicy { max_terminal_tasks, max_terminal_task_age }
    }
}

impl Default for TaskRetentionPolicy {
    /// Two hundred tasks, for thirty days.
    fn default() -> (policy: Self)
        ensures
            policy.max_terminal_tasks == Some(200usize),
            policy.max_terminal_task_age == Some(Duration { seconds: 2_592_000, nanos: 0 }),
    {
        TaskRetentionPolicy {
            max_terminal_tasks: Some(DEFAULT_MAX_TERMINAL_TASKS),
            max_terminal_task_age: Some(
                Duration::from_secs(DEFAULT_TERMINAL_TASK_RETENTION_SECONDS),
            ),
        }
    }
}

/// A finished task that may be forgotten. A completed playback task stays with its cache.
pub open spec fn prunable(task: TaskView) -> bool {
    task.is_terminal() && !(task.is_playback() && task.state == TaskState::Completed)
}

pub fn is_retention_prunable_terminal_task(task: &Task) -> (result: bool)
    ensures
        result == prunable(task@),
{
    is_terminal(task.state) && !(task.kind == TaskKind::BilibiliProgressivePlayback && task.state
        == TaskState::Completed)
}

/// The point in time from which a finished task ages.
pub open spec fn retention_time(task: TaskView) -> Option<Timestamp> {
    if task.finished_at is Some {
        task.finished_at
    } else if task.updated_at is Some {
        task.updated_at
    } else {
        task.created_at
    }
}

pub fn terminal_task_retention_timestamp(task: &Task) -> (reference: Option<Timestamp>)
    ensures
        reference == retention_time(task@),
{
    if task.finished_at.is_some() {
        task.finished_at
    } else if task.updated_at.is_some() {
        task.updated_at
    } else {
        task.created_at
    }
}

/// A task of unknown age is not too old.
pub open spec fn too_old(task: TaskView, now: Timestamp, max_age: Duration) -> bool {
    match retention_time(task) {
        Some(reference) => nanos_of(now) - nanos_of(reference) >= nanos_of_duration(max_age),
        None => false,
    }
}

pub fn terminal_task_age_exceeds(
    task: &Task,
    now: &Timestamp,
    max_age: Duration,
) -> (exceeds: bool)
    ensures
        exceeds == too_old(task@, *now, max_age),
{
    match terminal_task_retention_timestamp(task) {
        Some(reference) => match timestamp_age_nanos(now, &reference) {
            Some(age) => age >= duration_nanos(max_age),
            None => false,
        },
        None => false,
    }
}

} // verus!
