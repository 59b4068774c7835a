//! The state as a whole: what always holds of it, and how it is rolled back.

use crate::id_set::IdSet;
use crate::inner::cancellation::sound_cancellations;
use crate::model::state::{
    RegistryInner, RegistryInnerView, RegistryMutationCheckpoint, RegistryMutationCheckpointView,
};
use crate::model::task::TaskView;
use crate::plain::Plain;
use crate::table::Table;
use vstd::prelude::*;

verus! {

/// The value of `key`, where there is one.
pub open spec fn lookup<A, B>(map: Map<A, B>, key: A) -> Option<B> {
    if map.contains_key(key) {
        Some(map[key])
    } else {
        None
    }
}

/// The options under `key`, where there are any.
pub open spec fn options_at<A>(map: Map<Seq<char>, Option<A>>, key: Seq<char>) -> Option<A> {
    if map.contains_key(key) {
        map[key]
    } else {
        None
    }
}

/// Tasks stand under their own identifiers.
pub open spec fn under_own_ids(tasks: Map<Seq<char>, TaskView>) -> bool {
    forall|id: Seq<char>| #[trigger] tasks.contains_key(id) ==> tasks[id].id == id
}

/// What always holds of the state: every task has an output, live and visible, tasks stand under
/// their own identifiers, a resource that is counted as staged has an owner, and every cancellation
/// names a flag of its own.
pub open spec fn consistent(state: RegistryInnerView) -> bool {
    &&& state.tasks_by_id.dom() =~= state.outputs_by_task_id.dom()
    &&& state.visible_tasks_by_id.dom() =~= state.visible_outputs_by_task_id.dom()
    &&& under_own_ids(state.tasks_by_id)
    &&& under_own_ids(state.visible_tasks_by_id)
    &&& under_own_ids(state.pending_publications_by_id)
    &&& forall|id: Seq<char>| #[trigger]
        state.staged_resource_owner_counts.contains_key(id)
            ==> state.staged_resource_owner_counts[id] >= 1
    &&& sound_cancellations(
        state.running_cancellations_by_id,
        state.planning_cancellations_by_id,
        state.cancellation_flags.len(),
    )
}

impl RegistryInner {
    /// A registry that knows no task.
    pub fn new() -> (inner: Self)
        ensures
            inner@ == empty_state(),
            consistent(inner@),
    {
        let inner = RegistryInner {
            tasks_by_id: Table::new(),
            outputs_by_task_id: Table::new(),
            visible_tasks_by_id: Table::new(),
            visible_outputs_by_task_id: Table::new(),
            download_options_by_id: Table::new(),
            playback_options_by_id: Table::new(),
            active_task_ids_by_key: Table::new(),
            queued_task_ids: Vec::new(),
            running_cancellations_by_id: Table::new(),
            planning_cancellations_by_id: Table::new(),
            retained_resource_snapshots: Table::new(),
            staged_resource_owner_counts: Table::new(),
            pending_resource_cleanup_ids: IdSet::new(),
            durable_resource_cleanup_ids: IdSet::new(),
            resource_storage_revalidation_ids: IdSet::new(),
            pending_publications_by_id: Table::new(),
            persistence_generation: 0,
            cancellation_flags: Vec::new(),
        };
        proof {
            assert(inner.queued_task_ids.deep_view() =~= Seq::<Seq<char>>::empty());
        }
        inner
    }
}

pub open spec fn empty_state() -> RegistryInnerView {
    RegistryInnerView {
        tasks_by_id: Map::empty(),
        outputs_by_task_id: Map::empty(),
        visible_tasks_by_id: Map::empty(),
        visible_outputs_by_task_id: Map::empty(),
        download_options_by_id: Map::empty(),
        playback_options_by_id: Map::empty(),
        active_task_ids_by_key: Map::empty(),
        queued_task_ids: Seq::empty(),
        running_cancellations_by_id: Map::empty(),
        planning_cancellations_by_id: Map::empty(),
        retained_resource_snapshots: Map::empty(),
        staged_resource_owner_counts: Map::empty(),
        pending_resource_cleanup_ids: Set::empty(),
        durable_resource_cleanup_ids: Set::empty(),
        resource_storage_revalidation_ids: Set::empty(),
        pending_publications_by_id: Map::empty(),
        persistence_generation: 0,
        cancellation_flags: Seq::empty(),
    }
}

/// The part of `state` that a rejected change is rolled back to.
pub open spec fn checkpoint_of(state: RegistryInnerView) -> RegistryMutationCheckpointView {
    RegistryMutationCheckpointView {
        tasks_by_id: state.tasks_by_id,
        outputs_by_task_id: state.outputs_by_task_id,
        download_options_by_id: state.download_options_by_id,
        playback_options_by_id: state.playback_options_by_id,
        active_task_ids_by_key: state.active_task_ids_by_key,
        queued_task_ids: state.queued_task_ids,
        running_cancellations_by_id: state.running_cancellations_by_id,
        planning_cancellations_by_id: state.planning_cancellations_by_id,
        pending_resource_cleanup_ids: state.pending_resource_cleanup_ids,
        pending_publications_by_id: state.pending_publications_by_id,
    }
}

/// `state` rolled back to `checkpoint`.
pub open spec fn rolled_back(
    state: RegistryInnerView,
    checkpoint: RegistryMutationCheckpointView,
) -> RegistryInnerView {
    RegistryInnerView {
        tasks_by_id: checkpoint.tasks_by_id,
        outputs_by_task_id: checkpoint.outputs_by_task_id,
        download_options_by_id: checkpoint.download_options_by_id,
        playback_options_by_id: checkpoint.playback_options_by_id,
        active_task_ids_by_key: checkpoint.active_task_ids_by_key,
        queued_task_ids: checkpoint.queued_task_ids,
        running_cancellations_by_id: checkpoint.running_cancellations_by_id,
        planning_cancellations_by_id: checkpoint.planning_cancellations_by_id,
        pending_resource_cleanup_ids: checkpoint.pending_resource_cleanup_ids,
        pending_publications_by_id: checkpoint.pending_publications_by_id,
        ..state
    }
}

/// What a checkpoint of a consistent state keeps of it, where there are at least `flag_count` flags
/// for cancellations.
pub open spec fn sound_checkpoint(
    checkpoint: RegistryMutationCheckpointView,
    flag_count: nat,
) -> bool {
    &&& checkpoint.tasks_by_id.dom() =~= checkpoint.outputs_by_task_id.dom()
    &&& under_own_ids(checkpoint.tasks_by_id)
    &&& under_own_ids(checkpoint.pending_publications_by_id)
    &&& sound_cancellations(
        checkpoint.running_cancellations_by_id,
        checkpoint.planning_cancellations_by_id,
        flag_count,
    )
}

impl RegistryMutationCheckpoint {
    pub fn capture(inner: &RegistryInner) -> (checkpoint: Self)
        ensures
            checkpoint@ == checkpoint_of(inner@),
    {
        RegistryMutationCheckpoint {
            tasks_by_id: inner.tasks_by_id.duplicate(),
            outputs_by_task_id: inner.outputs_by_task_id.duplicate(),
            download_options_by_id: inner.download_options_by_id.duplicate(),
            playback_options_by_id: inner.playback_options_by_id.duplicate(),
            active_task_ids_by_key: inner.active_task_ids_by_key.duplicate(),
            queued_task_ids: inner.queued_task_ids.duplicate(),
            running_cancellations_by_id: inner.running_cancellations_by_id.duplicate(),
            planning_cancellations_by_id: inner.planning_cancellations_by_id.duplicate(),
            pending_resource_cleanup_ids: inner.pending_resource_cleanup_ids.duplicate(),
            pending_publications_by_id: inner.pending_publications_by_id.duplicate(),
        }
    }

    pub fn restore(self, inner: &mut RegistryInner)
        ensures
            final(inner)@ == rolled_back(old(inner)@, self@),
    {
        inner.tasks_by_id = self.tasks_by_id;
        inner.outputs_by_task_id = self.outputs_by_task_id;
        inner.download_options_by_id = self.download_options_by_id;
        inner.playback_options_by_id = self.playback_options_by_id;
        inner.active_task_ids_by_key = self.active_task_ids_by_key;
        inner.queued_task_ids = self.queued_task_ids;
        inner.running_cancellations_by_id = self.running_cancellations_by_id;
        inner.planning_cancellations_by_id = self.planning_cancellations_by_id;
        inner.pending_resource_cleanup_ids = self.pending_resource_cleanup_ids;
        inner.pending_publications_by_id = self.pending_publications_by_id;
    }
}

/// Rolling a state back to its own checkpoint changes nothing.
pub proof fn law_own_checkpoint_changes_nothing(state: RegistryInnerView)
    ensures
        rolled_back(state, checkpoint_of(state)) == state,
{
}

/// Whatever was changed since a checkpoint of a consistent state was taken, rolling back makes the
/// state consistent again, as long as the visible tables and the staged counts were kept so.
pub proof fn lemma_rolled_back_consistent(
    state: RegistryInnerView,
    checkpoint: RegistryMutationCheckpointView,
)
    requires
        consistent(state),
        sound_checkpoint(checkpoint, state.cancellation_flags.len()),
    ensures
        consistent(rolled_back(state, checkpoint)),
{
}

} // verus!
