//! What requests have in common.

use crate::model::state::{RegistryInner, RegistryInnerView};
use crate::model::task::{Task, TaskView};
use crate::status::{Code, Status, StatusView, refusal};
use crate::text::{normalize, trimmed};
use vstd::prelude::*;

verus! {

pub open spec fn not_found() -> StatusView {
    refusal(Code::NotFound, "Task not found."@)
}

pub fn task_not_found() -> (status: Status)
    ensures
        status@ == not_found(),
{
    Status::new(Code::NotFound, "Task not found.")
}

pub open spec fn not_playback() -> StatusView {
    refusal(Code::FailedPrecondition, "Task is not a Bilibili progressive playback task."@)
}

pub(crate) fn task_not_playback() -> (status: Status)
    ensures
        status@ == not_playback(),
{
    Status::new(Code::FailedPrecondition, "Task is not a Bilibili progressive playback task.")
}

/// What is wrong with an identifier that a client sent.
pub open spec fn id_problem(id: Seq<char>) -> Option<StatusView> {
    if trimmed(id).len() == 0 {
        Some(refusal(Code::InvalidArgument, "Task id is required."@))
    } else {
        None
    }
}

pub fn normalize_required_id(id: &str) -> (result: Result<String, Status>)
    ensures
        match result {
            Ok(normalized_id) => id_problem(id@) is None && normalized_id@ == trimmed(id@),
            Err(status) => id_problem(id@) == Some(status@),
        },
{
    let normalized_id = normalize(id);
    if normalized_id.as_str().is_empty() {
        return Err(Status::new(Code::InvalidArgument, "Task id is required."));
    }
    Ok(normalized_id)
}

/// `state` with `task` in the place of the task of the same identifier.
pub open spec fn with_task(state: RegistryInnerView, task: TaskView) -> RegistryInnerView {
    RegistryInnerView { tasks_by_id: state.tasks_by_id.insert(task.id, task), ..state }
}

impl RegistryInner {
    pub(crate) fn put_task(&mut self, task: Task)
        ensures
            final(self)@ == with_task(old(self)@, task@),
    {
        self.tasks_by_id.insert(task.id.clone(), task);
    }
}

} // verus!
