//! The output of tasks as clients see it.

use crate::model::output::{
    TaskOutputRecord, TaskOutputRecordView, TaskResourceRecord, TaskResourceRecordView,
};
use crate::plain::Plain;
use crate::table::Table;
use vstd::prelude::*;

verus! {

/// An output together with its resources that can be fetched.
pub struct VisibleTaskOutput {
    pub record: TaskOutputRecord,
    pub encoded_bytes: usize,
    pub available_resources_by_id: Table<String, TaskResourceRecord>,
}

/// What a `VisibleTaskOutput` holds.
#[verifier::ext_equal]
pub struct VisibleTaskOutputView {
    pub record: TaskOutputRecordView,
    pub encoded_bytes: usize,
    pub available_resources_by_id: Map<Seq<char>, TaskResourceRecordView>,
}

impl DeepView for VisibleTaskOutput {
    type V = VisibleTaskOutputView;

    open spec fn deep_view(&self) -> VisibleTaskOutputView {
        VisibleTaskOutputView {
            record: self.record.deep_view(),
            encoded_bytes: self.encoded_bytes,
            available_resources_by_id: self.available_resources_by_id.deep_view(),
        }
    }
}

impl View for VisibleTaskOutput {
    type V = VisibleTaskOutputView;

    #[verifier::inline]
    open spec fn view(&self) -> VisibleTaskOutputView {
        self.deep_view()
    }
}

impl Plain for VisibleTaskOutput {
    fn duplicate(&self) -> (copy: Self) {
        VisibleTaskOutput {
            record: self.record.duplicate(),
            encoded_bytes: self.encoded_bytes,
            available_resources_by_id: self.available_resources_by_id.duplicate(),
        }
    }

    fn same_as(&self, other: &Self) -> (same: bool) {
        self.record.same_as(&other.record)
            && self.encoded_bytes == other.encoded_bytes
            && self.available_resources_by_id.same_as(&other.available_resources_by_id)
    }
}

impl Clone for VisibleTaskOutput {
    fn clone(&self) -> (copy: Self)
        ensures
            copy@ == self@,
    {
        self.duplicate()
    }
}

/// A view of an output that a client pages through. Its resources stay until the lease ends;
/// `resource_lease_expires_at` is a reading of the monotonic clock.
pub struct TaskOutputSnapshot {
    pub task_id: String,
    pub revision: u64,
    pub snapshot_id: String,
    pub resource_lease_id: String,
    pub resource_lease_expires_at: u64,
    pub encoded_bytes: usize,
    pub output: VisibleTaskOutput,
}

/// What a `TaskOutputSnapshot` holds.
#[verifier::ext_equal]
pub struct TaskOutputSnapshotView {
    pub task_id: Seq<char>,
    pub revision: u64,
    pub snapshot_id: Seq<char>,
    pub resource_lease_id: Seq<char>,
    pub resource_lease_expires_at: u64,
    pub encoded_bytes: usize,
    pub output: VisibleTaskOutputView,
}

impl DeepView for TaskOutputSnapshot {
    type V = TaskOutputSnapshotView;

    open spec fn deep_view(&self) -> TaskOutputSnapshotView {
        TaskOutputSnapshotView {
            task_id: self.task_id.deep_view(),
            revision: self.revision,
            snapshot_id: self.snapshot_id.deep_view(),
            resource_lease_id: self.resource_lease_id.deep_view(),
            resource_lease_expires_at: self.resource_lease_expires_at,
            encoded_bytes: self.encoded_bytes,
            output: self.output.deep_view(),
        }
    }
}

impl View for TaskOutputSnapshot {
    type V = TaskOutputSnapshotView;

    #[verifier::inline]
    open spec fn view(&self) -> TaskOutputSnapshotView {
        self.deep_view()
    }
}

impl Plain for TaskOutputSnapshot {
    fn duplicate(&self) -> (copy: Self) {
        TaskOutputSnapshot {
            task_id: self.task_id.duplicate(),
            revision: self.revision,
            snapshot_id: self.snapshot_id.duplicate(),
            resource_lease_id: self.resource_lease_id.duplicate(),
            resource_lease_expires_at: self.resource_lease_expires_at,
            encoded_bytes: self.encoded_bytes,
            output: self.output.duplicate(),
        }
    }

    fn same_as(&self, other: &Self) -> (same: bool) {
        self.task_id.same_as(&other.task_id)
            && self.revision == other.revision
            && self.snapshot_id.same_as(&other.snapshot_id)
            && self.resource_lease_id.same_as(&other.resource_lease_id)
            && self.resource_lease_expires_at == other.resource_lease_expires_at
            && self.encoded_bytes == other.encoded_bytes
            && self.output.same_as(&other.output)
    }
}

impl Clone for TaskOutputSnapshot {
    fn clone(&self) -> (copy: Self)
        ensures
            copy@ == self@,
    {
        self.duplicate()
    }
}

/// An output whose resources are held for a client until `expires_at`.
pub struct RetainedTaskResourceSnapshot {
    pub expires_at: u64,
    pub output: VisibleTaskOutput,
}

/// What a `RetainedTaskResourceSnapshot` holds.
#[verifier::ext_equal]
pub struct RetainedTaskResourceSnapshotView {
    pub expires_at: u64,
    pub output: VisibleTaskOutputView,
}

impl DeepView for RetainedTaskResourceSnapshot {
    type V = RetainedTaskResourceSnapshotView;

    open spec fn deep_view(&self) -> RetainedTaskResourceSnapshotView {
        RetainedTaskResourceSnapshotView {
            expires_at: self.expires_at,
            output: self.output.deep_view(),
        }
    }
}

impl View for RetainedTaskResourceSnapshot {
    type V = RetainedTaskResourceSnapshotView;

    #[verifier::inline]
    open spec fn view(&self) -> RetainedTaskResourceSnapshotView {
        self.deep_view()
    }
}

impl Plain for RetainedTaskResourceSnapshot {
    fn duplicate(&self) -> (copy: Self) {
        RetainedTaskResourceSnapshot {
            expires_at: self.expires_at,
            output: self.output.duplicate(),
        }
    }

    fn same_as(&self, other: &Self) -> (same: bool) {
        self.expires_at == other.expires_at
            && self.output.same_as(&other.output)
    }
}

impl Clone for RetainedTaskResourceSnapshot {
    fn clone(&self) -> (copy: Self)
        ensures
            copy@ == self@,
    {
        self.duplicate()
    }
}

} // verus!
