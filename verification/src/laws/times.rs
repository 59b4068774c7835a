//! Laws of states and of time.

use crate::model::basics::{TaskState, Timestamp};
use crate::model::task::TaskView;
use crate::states::{active_state, known_state, served_state, terminal_state};
use crate::timing::{Duration, earlier, expired, point_after_epoch, retention_time, too_old};
use vstd::prelude::*;

verus! {

/// Work on a task is ahead or under way, or it is over, or the task is playable, or nothing is
/// known of it; and only one of these.
pub proof fn law_states_are_of_one_sort(state: TaskState)
    ensures
        match state {
            TaskState::Queued
            | TaskState::Running
            | TaskState::CancelRequested
            | TaskState::Planned
            | TaskState::Preparing => active_state(state) && !terminal_state(state)
                && !served_state(state),
            TaskState::Succeeded | TaskState::Failed | TaskState::Cancelled => terminal_state(state)
                && !active_state(state) && !served_state(state),
            TaskState::Completed => terminal_state(state) && served_state(state) && !active_state(
                state,
            ),
            TaskState::Playable => served_state(state) && !active_state(state) && !terminal_state(
                state,
            ),
            TaskState::Unspecified | TaskState::Unrecognized(_) => !active_state(state)
                && !terminal_state(state) && !served_state(state),
        },
        known_state(state) == state || (state is Unrecognized && known_state(state)
            == TaskState::Unspecified),
        !(known_state(state) is Unrecognized),
{
}

/// How many nanoseconds a point in time lies after the epoch.
pub open spec fn nanoseconds(at: Timestamp) -> int {
    at.seconds * 1_000_000_000 + at.nanos
}

/// Of two points in time that are written in whole seconds and the nanoseconds within them, the
/// earlier is that with fewer nanoseconds; what is not known counts as the epoch.
pub proof fn law_points_in_time_are_ordered(left: Timestamp, right: Timestamp)
    requires
        0 <= left.nanos < 1_000_000_000,
        0 <= right.nanos < 1_000_000_000,
    ensures
        earlier(Some(left), Some(right)) <==> nanoseconds(left) < nanoseconds(right),
        earlier(None, Some(right)) <==> 0 < nanoseconds(right),
        earlier(Some(left), None) <==> nanoseconds(left) < 0,
        !earlier(None, None),
{
}

/// What expires is past from that point in time on, and what does not expire never is.
pub proof fn law_things_expire_in_time(at: Timestamp, now: Timestamp)
    ensures
        expired(Some(at), now) <==> nanoseconds(at) <= nanoseconds(now),
        !expired(None, now),
{
}

/// A task ages from its end, else from its last change, else from when it was made; where nothing
/// is known of that it does not age. It is too old once it has reached the greatest age.
pub proof fn law_tasks_age(task: TaskView, now: Timestamp, max_age: Duration)
    ensures
        task.finished_at is Some ==> retention_time(task) == task.finished_at,
        task.finished_at is None && task.updated_at is Some ==> retention_time(task)
            == task.updated_at,
        task.finished_at is None && task.updated_at is None ==> retention_time(task)
            == task.created_at,
        too_old(task, now, max_age) <==> (retention_time(task) matches Some(since) && nanoseconds(
            now,
        ) - nanoseconds(since) >= max_age.seconds * 1_000_000_000 + max_age.nanos),
{
}

/// A point in time is written down as it is, as long as its seconds fit.
pub proof fn law_points_after_the_epoch(seconds: u64, nanos: u32)
    requires
        nanos < 1_000_000_000,
    ensures
        seconds <= i64::MAX ==> nanoseconds(point_after_epoch((seconds, nanos))) == seconds
            * 1_000_000_000 + nanos,
        seconds > i64::MAX ==> point_after_epoch((seconds, nanos)).seconds == i64::MAX,
{
}

} // verus!
