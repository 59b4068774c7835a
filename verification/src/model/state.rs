//! The state of the registry.

use crate::id_set::IdSet;
use crate::model::key::{ActiveBilibiliTaskKey, ActiveBilibiliTaskKeyView};
use crate::model::options::{
    BilibiliDownloadOptions, BilibiliDownloadOptionsView, BilibiliPlaybackOptions,
    BilibiliPlaybackOptionsView,
};
use crate::model::output::{TaskOutputRecord, TaskOutputRecordView};
use crate::model::record::{PersistedTaskRecord, PersistedTaskRecordView};
use crate::model::task::{Task, TaskView};
use crate::model::visible::{
    RetainedTaskResourceSnapshot, RetainedTaskResourceSnapshotView, VisibleTaskOutput,
    VisibleTaskOutputView,
};
use crate::plain::Plain;
use crate::table::Table;
use vstd::prelude::*;

verus! {

/// Names the flag, kept by the registry, that says whether the work on a task has been asked to
/// stop. All copies name the same flag.
#[derive(Debug, PartialEq, Eq)]
pub struct BilibiliTaskCancellation {
    pub flag: usize,
}

/// What a `BilibiliTaskCancellation` holds.
#[verifier::ext_equal]
pub struct BilibiliTaskCancellationView {
    pub flag: nat,
}

impl DeepView for BilibiliTaskCancellation {
    type V = BilibiliTaskCancellationView;

    open spec fn deep_view(&self) -> BilibiliTaskCancellationView {
        BilibiliTaskCancellationView { flag: self.flag as nat }
    }
}

impl View for BilibiliTaskCancellation {
    type V = BilibiliTaskCancellationView;

    #[verifier::inline]
    open spec fn view(&self) -> BilibiliTaskCancellationView {
        self.deep_view()
    }
}

impl Plain for BilibiliTaskCancellation {
    fn duplicate(&self) -> (copy: Self) {
        BilibiliTaskCancellation { flag: self.flag }
    }

    fn same_as(&self, other: &Self) -> (same: bool) {
        self.flag == other.flag
    }
}

impl Clone for BilibiliTaskCancellation {
    fn clone(&self) -> (copy: Self)
        ensures
            copy@ == self@,
    {
        self.duplicate()
    }
}

/// Everything that the registry remembers. What clients see stands in the two visible tables; it
/// lags behind the live tables until a change has been committed.
pub struct RegistryInner {
    pub tasks_by_id: Table<String, Task>,
    pub outputs_by_task_id: Table<String, TaskOutputRecord>,
    pub visible_tasks_by_id: Table<String, Task>,
    pub visible_outputs_by_task_id: Table<String, VisibleTaskOutput>,
    pub download_options_by_id: Table<String, Option<BilibiliDownloadOptions>>,
    pub playback_options_by_id: Table<String, Option<BilibiliPlaybackOptions>>,
    pub active_task_ids_by_key: Table<ActiveBilibiliTaskKey, String>,
    pub queued_task_ids: Vec<String>,
    pub running_cancellations_by_id: Table<String, BilibiliTaskCancellation>,
    pub planning_cancellations_by_id: Table<String, BilibiliTaskCancellation>,
    pub retained_resource_snapshots: Table<String, RetainedTaskResourceSnapshot>,
    pub staged_resource_owner_counts: Table<String, usize>,
    pub pending_resource_cleanup_ids: IdSet,
    pub durable_resource_cleanup_ids: IdSet,
    pub resource_storage_revalidation_ids: IdSet,
    pub pending_publications_by_id: Table<String, Task>,
    pub persistence_generation: u64,
    /// The flags that cancellations name. No roll-back touches them.
    pub cancellation_flags: Vec<bool>,
}

/// What a `RegistryInner` holds.
#[verifier::ext_equal]
pub struct RegistryInnerView {
    pub tasks_by_id: Map<Seq<char>, TaskView>,
    pub outputs_by_task_id: Map<Seq<char>, TaskOutputRecordView>,
    pub visible_tasks_by_id: Map<Seq<char>, TaskView>,
    pub visible_outputs_by_task_id: Map<Seq<char>, VisibleTaskOutputView>,
    pub download_options_by_id: Map<Seq<char>, Option<BilibiliDownloadOptionsView>>,
    pub playback_options_by_id: Map<Seq<char>, Option<BilibiliPlaybackOptionsView>>,
    pub active_task_ids_by_key: Map<ActiveBilibiliTaskKeyView, Seq<char>>,
    pub queued_task_ids: Seq<Seq<char>>,
    pub running_cancellations_by_id: Map<Seq<char>, BilibiliTaskCancellationView>,
    pub planning_cancellations_by_id: Map<Seq<char>, BilibiliTaskCancellationView>,
    pub retained_resource_snapshots: Map<Seq<char>, RetainedTaskResourceSnapshotView>,
    pub staged_resource_owner_counts: Map<Seq<char>, usize>,
    pub pending_resource_cleanup_ids: Set<Seq<char>>,
    pub durable_resource_cleanup_ids: Set<Seq<char>>,
    pub resource_storage_revalidation_ids: Set<Seq<char>>,
    pub pending_publications_by_id: Map<Seq<char>, TaskView>,
    pub persistence_generation: u64,
    pub cancellation_flags: Seq<bool>,
}

impl DeepView for RegistryInner {
    type V = RegistryInnerView;

    open spec fn deep_view(&self) -> RegistryInnerView {
        RegistryInnerView {
            tasks_by_id: self.tasks_by_id.deep_view(),
            outputs_by_task_id: self.outputs_by_task_id.deep_view(),
            visible_tasks_by_id: self.visible_tasks_by_id.deep_view(),
            visible_outputs_by_task_id: self.visible_outputs_by_task_id.deep_view(),
            download_options_by_id: self.download_options_by_id.deep_view(),
            playback_options_by_id: self.playback_options_by_id.deep_view(),
            active_task_ids_by_key: self.active_task_ids_by_key.deep_view(),
            queued_task_ids: self.queued_task_ids.deep_view(),
            running_cancellations_by_id: self.running_cancellations_by_id.deep_view(),
            planning_cancellations_by_id: self.planning_cancellations_by_id.deep_view(),
            retained_resource_snapshots: self.retained_resource_snapshots.deep_view(),
            staged_resource_owner_counts: self.staged_resource_owner_counts.deep_view(),
            pending_resource_cleanup_ids: self.pending_resource_cleanup_ids.deep_view(),
            durable_resource_cleanup_ids: self.durable_resource_cleanup_ids.deep_view(),
            resource_storage_revalidation_ids: self.resource_storage_revalidation_ids.deep_view(),
            pending_publications_by_id: self.pending_publications_by_id.deep_view(),
            persistence_generation: self.persistence_generation,
            cancellation_flags: self.cancellation_flags@,
        }
    }
}

impl View for RegistryInner {
    type V = RegistryInnerView;

    #[verifier::inline]
    open spec fn view(&self) -> RegistryInnerView {
        self.deep_view()
    }
}

/// The part of the state that a rejected change is rolled back to.
pub struct RegistryMutationCheckpoint {
    pub tasks_by_id: Table<String, Task>,
    pub outputs_by_task_id: Table<String, TaskOutputRecord>,
    pub download_options_by_id: Table<String, Option<BilibiliDownloadOptions>>,
    pub playback_options_by_id: Table<String, Option<BilibiliPlaybackOptions>>,
    pub active_task_ids_by_key: Table<ActiveBilibiliTaskKey, String>,
    pub queued_task_ids: Vec<String>,
    pub running_cancellations_by_id: Table<String, BilibiliTaskCancellation>,
    pub planning_cancellations_by_id: Table<String, BilibiliTaskCancellation>,
    pub pending_resource_cleanup_ids: IdSet,
    pub pending_publications_by_id: Table<String, Task>,
}

/// What a `RegistryMutationCheckpoint` holds.
#[verifier::ext_equal]
pub struct RegistryMutationCheckpointView {
    pub tasks_by_id: Map<Seq<char>, TaskView>,
    pub outputs_by_task_id: Map<Seq<char>, TaskOutputRecordView>,
    pub download_options_by_id: Map<Seq<char>, Option<BilibiliDownloadOptionsView>>,
    pub playback_options_by_id: Map<Seq<char>, Option<BilibiliPlaybackOptionsView>>,
    pub active_task_ids_by_key: Map<ActiveBilibiliTaskKeyView, Seq<char>>,
    pub queued_task_ids: Seq<Seq<char>>,
    pub running_cancellations_by_id: Map<Seq<char>, BilibiliTaskCancellationView>,
    pub planning_cancellations_by_id: Map<Seq<char>, BilibiliTaskCancellationView>,
    pub pending_resource_cleanup_ids: Set<Seq<char>>,
    pub pending_publications_by_id: Map<Seq<char>, TaskView>,
}

impl DeepView for RegistryMutationCheckpoint {
    type V = RegistryMutationCheckpointView;

    open spec fn deep_view(&self) -> RegistryMutationCheckpointView {
        RegistryMutationCheckpointView {
            tasks_by_id: self.tasks_by_id.deep_view(),
            outputs_by_task_id: self.outputs_by_task_id.deep_view(),
            download_options_by_id: self.download_options_by_id.deep_view(),
            playback_options_by_id: self.playback_options_by_id.deep_view(),
            active_task_ids_by_key: self.active_task_ids_by_key.deep_view(),
            queued_task_ids: self.queued_task_ids.deep_view(),
            running_cancellations_by_id: self.running_cancellations_by_id.deep_view(),
            planning_cancellations_by_id: self.planning_cancellations_by_id.deep_view(),
            pending_resource_cleanup_ids: self.pending_resource_cleanup_ids.deep_view(),
            pending_publications_by_id: self.pending_publications_by_id.deep_view(),
        }
    }
}

impl View for RegistryMutationCheckpoint {
    type V = RegistryMutationCheckpointView;

    #[verifier::inline]
    open spec fn view(&self) -> RegistryMutationCheckpointView {
        self.deep_view()
    }
}

impl Plain for RegistryMutationCheckpoint {
    fn duplicate(&self) -> (copy: Self) {
        RegistryMutationCheckpoint {
            tasks_by_id: self.tasks_by_id.duplicate(),
            outputs_by_task_id: self.outputs_by_task_id.duplicate(),
            download_options_by_id: self.download_options_by_id.duplicate(),
            playback_options_by_id: self.playback_options_by_id.duplicate(),
            active_task_ids_by_key: self.active_task_ids_by_key.duplicate(),
            queued_task_ids: self.queued_task_ids.duplicate(),
            running_cancellations_by_id: self.running_cancellations_by_id.duplicate(),
            planning_cancellations_by_id: self.planning_cancellations_by_id.duplicate(),
            pending_resource_cleanup_ids: self.pending_resource_cleanup_ids.duplicate(),
            pending_publications_by_id: self.pending_publications_by_id.duplicate(),
        }
    }

    fn same_as(&self, other: &Self) -> (same: bool) {
        self.tasks_by_id.same_as(&other.tasks_by_id)
            && self.outputs_by_task_id.same_as(&other.outputs_by_task_id)
            && self.download_options_by_id.same_as(&other.download_options_by_id)
            && self.playback_options_by_id.same_as(&other.playback_options_by_id)
            && self.active_task_ids_by_key.same_as(&other.active_task_ids_by_key)
            && self.queued_task_ids.same_as(&other.queued_task_ids)
            && self.running_cancellations_by_id.same_as(&other.running_cancellations_by_id)
            && self.planning_cancellations_by_id.same_as(&other.planning_cancellations_by_id)
            && self.pending_resource_cleanup_ids.same_as(&other.pending_resource_cleanup_ids)
            && self.pending_publications_by_id.same_as(&other.pending_publications_by_id)
    }
}

impl Clone for RegistryMutationCheckpoint {
    fn clone(&self) -> (copy: Self)
        ensures
            copy@ == self@,
    {
        self.duplicate()
    }
}

/// What one save writes, and what follows once it is written.
pub struct TaskPersistenceSnapshot {
    pub generation: u64,
    pub records: Vec<PersistedTaskRecord>,
    pub resource_cleanup_ids: IdSet,
    pub pruned_task_ids: IdSet,
}

/// What a `TaskPersistenceSnapshot` holds.
#[verifier::ext_equal]
pub struct TaskPersistenceSnapshotView {
    pub generation: u64,
    pub records: Seq<PersistedTaskRecordView>,
    pub resource_cleanup_ids: Set<Seq<char>>,
    pub pruned_task_ids: Set<Seq<char>>,
}

impl DeepView for TaskPersistenceSnapshot {
    type V = TaskPersistenceSnapshotView;

    open spec fn deep_view(&self) -> TaskPersistenceSnapshotView {
        TaskPersistenceSnapshotView {
            generation: self.generation,
            records: self.records.deep_view(),
            resource_cleanup_ids: self.resource_cleanup_ids.deep_view(),
            pruned_task_ids: self.pruned_task_ids.deep_view(),
        }
    }
}

impl View for TaskPersistenceSnapshot {
    type V = TaskPersistenceSnapshotView;

    #[verifier::inline]
    open spec fn view(&self) -> TaskPersistenceSnapshotView {
        self.deep_view()
    }
}

impl Plain for TaskPersistenceSnapshot {
    fn duplicate(&self) -> (copy: Self) {
        TaskPersistenceSnapshot {
            generation: self.generation,
            records: self.records.duplicate(),
            resource_cleanup_ids: self.resource_cleanup_ids.duplicate(),
            pruned_task_ids: self.pruned_task_ids.duplicate(),
        }
    }

    fn same_as(&self, other: &Self) -> (same: bool) {
        self.generation == other.generation
            && self.records.same_as(&other.records)
            && self.resource_cleanup_ids.same_as(&other.resource_cleanup_ids)
            && self.pruned_task_ids.same_as(&other.pruned_task_ids)
    }
}

impl Clone for TaskPersistenceSnapshot {
    fn clone(&self) -> (copy: Self)
        ensures
            copy@ == self@,
    {
        self.duplicate()
    }
}

} // verus!
