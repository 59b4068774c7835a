//! Laws of commits: what clients see and are told afterwards, and what a failed save leaves.

use crate::inner::checkpoint::{checkpoint_of, lookup, rolled_back};
use crate::inner::publication::{reconciled, showing_live, told};
use crate::inner::resources::owned_ids;
use crate::laws::outputs::{
    fetchable_resource, law_live_resources_are_owned, law_resources_that_are_remembered,
    leased_resource, live_resource,
};
use crate::laws::retention::law_nothing_else_is_forgotten;
use crate::model::basics::{TaskKind, TaskState, Timestamp};
use crate::model::output::{TaskOutputRecordView, TaskOutputSummaryView};
use crate::model::state::{
    RegistryInnerView, RegistryMutationCheckpointView, TaskPersistenceSnapshotView,
};
use crate::model::task::TaskView;
use crate::registry::BilibiliTaskRegistryView;
use crate::registry::commit::{
    CommitTermsView, FollowUp, Guarantee, PersistenceCommitOutcome, ReconciledOutputView,
    TaskStateSaveOutcome, begun, catching_up, commits, follow_up_after, installed, kept, news_after,
    reconciled_all, refreshing, resources_of, save_outcome, settled, settlement_problem,
    snapshot_of, unconditional, unsaved_outcome,
};
use crate::registry::watching::{named_ids, watched, watched_tasks};
use crate::status::Code;
use crate::text::trimmed;
use crate::timing::TaskRetentionPolicy;
use crate::visible_output::shown_after;
use vstd::prelude::*;

verus! {

/// A request whose change must be on disk is refused as unavailable where it is not, one whose
/// change must take effect where it did not, and one that needs nothing never.
pub proof fn law_requests_get_what_they_need(
    terms: CommitTermsView,
    outcome: PersistenceCommitOutcome,
)
    ensures
        settlement_problem(terms, outcome) is None <==> match outcome {
            PersistenceCommitOutcome::Durable => true,
            PersistenceCommitOutcome::InstalledButNotDurable
            | PersistenceCommitOutcome::Volatile => terms.needed != Guarantee::Durable,
            PersistenceCommitOutcome::Rejected | PersistenceCommitOutcome::Superseded =>
                terms.needed == Guarantee::Nothing,
        },
        settlement_problem(terms, outcome) matches Some(problem) ==> problem.code
            == Code::Unavailable && problem.message == terms.refusal,
{
}

/// The terms of the changes that there are: one that needs nothing cannot be refused or undone, one
/// that catches up is never undone, and one that is kept is needed on disk only where there is a
/// file.
pub proof fn law_terms(
    on_disk: bool,
    rollback: RegistryMutationCheckpointView,
    require_durable_commit: bool,
    needed: Guarantee,
    refusal: Seq<char>,
)
    ensures
        unconditional().rollback is None && unconditional().needed == Guarantee::Nothing
            && !unconditional().durability_required && !unconditional().require_durable_commit,
        catching_up(needed, refusal).rollback is None && catching_up(needed, refusal).needed
            == needed && catching_up(needed, refusal).durability_required && catching_up(
            needed,
            refusal,
        ).refusal == refusal && !catching_up(needed, refusal).require_durable_commit,
        ({
            let terms = kept(on_disk, Some(rollback), require_durable_commit, needed, refusal);
            &&& terms.durability_required == on_disk
            &&& terms.require_durable_commit == require_durable_commit
            &&& terms.refusal == refusal
            &&& on_disk ==> terms.rollback == Some(rollback) && terms.needed == needed
            &&& !on_disk ==> terms.rollback is None && terms.needed == Guarantee::Nothing
        }),
{
}

/// What a commit comes to: as the save says where there is one; and without a save it takes effect,
/// unless it was needed on disk or an output was unsound.
pub proof fn law_what_a_commit_comes_to(
    saved: Option<TaskStateSaveOutcome>,
    outputs_sound: bool,
    durability_required: bool,
)
    ensures
        save_outcome(saved) == PersistenceCommitOutcome::Durable <==> saved == Some(
            TaskStateSaveOutcome::Durable,
        ),
        save_outcome(saved) == PersistenceCommitOutcome::InstalledButNotDurable <==> saved == Some(
            TaskStateSaveOutcome::InstalledButNotDurable,
        ),
        save_outcome(saved) == PersistenceCommitOutcome::Rejected <==> saved is None,
        unsaved_outcome(outputs_sound, durability_required) == PersistenceCommitOutcome::Volatile
            <==> outputs_sound && !durability_required,
        unsaved_outcome(outputs_sound, durability_required) == PersistenceCommitOutcome::Rejected
            <==> !outputs_sound || durability_required,
{
}

/// Each task of which news waited is told of exactly once, as clients now see it, or with its last
/// words if they do not see it any more. Nothing is told of a commit that took no effect.
pub proof fn law_each_waiting_task_is_told_of_once(
    news: Seq<TaskView>,
    registry: BilibiliTaskRegistryView,
    outputs: Seq<ReconciledOutputView>,
    now: Timestamp,
    snapshot: Option<TaskPersistenceSnapshotView>,
    outcome: PersistenceCommitOutcome,
    terms: CommitTermsView,
    after: RegistryInnerView,
)
    requires
        commits(registry, outputs, true, now, snapshot, outcome, terms, after),
        news_after(news, begun(registry, outputs, true), snapshot, outcome, terms),
    ensures
        ({
            let live = reconciled_all(registry.inner, outputs);
            let waiting = live.pending_publications_by_id;
            let effective = outcome == PersistenceCommitOutcome::Durable || outcome
                == PersistenceCommitOutcome::Volatile || (outcome
                == PersistenceCommitOutcome::InstalledButNotDurable
                && !terms.require_durable_commit);
            &&& !effective ==> news.len() == 0
            &&& effective ==> exists|order: Seq<Seq<char>>|
                #![trigger order.to_set()]
                order.no_duplicates() && order.to_set() == waiting.dom() && news.len()
                    == order.len() && forall|i: int|
                    0 <= i < news.len() ==> #[trigger] news[i]
                        == if after.visible_tasks_by_id.contains_key(order[i]) {
                        after.visible_tasks_by_id[order[i]]
                    } else if live.tasks_by_id.contains_key(order[i]) {
                        live.tasks_by_id[order[i]]
                    } else {
                        waiting[order[i]]
                    }
            &&& effective ==> after.pending_publications_by_id.dom() == Set::<Seq<char>>::empty()
        }),
{
    let state = begun(registry, outputs, true);
    let live = reconciled_all(registry.inner, outputs);
    let waiting = live.pending_publications_by_id;
    assert(state.pending_publications_by_id.dom() =~= waiting.dom());
    let effective = outcome == PersistenceCommitOutcome::Durable || outcome
        == PersistenceCommitOutcome::Volatile || (outcome
        == PersistenceCommitOutcome::InstalledButNotDurable && !terms.require_durable_commit);
    if effective {
        let shown = if outcome == PersistenceCommitOutcome::Volatile {
            refreshing(showing_live(state))
        } else {
            installed(state, snapshot->0, outcome == PersistenceCommitOutcome::Durable)
        };
        assert(shown.pending_publications_by_id.dom() =~= waiting.dom());
        assert(after.visible_tasks_by_id == shown.visible_tasks_by_id);
        let order = choose|order: Seq<Seq<char>>|
            #![trigger order.to_set()]
            order.no_duplicates() && order.to_set() == shown.pending_publications_by_id.dom()
                && news =~= Seq::new(order.len(), |i: int| told(shown, order[i]));
        assert(order.to_set() == waiting.dom());
        assert forall|i: int| 0 <= i < news.len() implies #[trigger] news[i]
            == if after.visible_tasks_by_id.contains_key(order[i]) {
            after.visible_tasks_by_id[order[i]]
        } else if live.tasks_by_id.contains_key(order[i]) {
            live.tasks_by_id[order[i]]
        } else {
            waiting[order[i]]
        } by {
            assert(news[i] == told(shown, order[i]));
            assert(order.to_set().contains(order[i]));
            assert(waiting.contains_key(order[i]));
        }
        assert(after.pending_publications_by_id.dom() =~= Set::<Seq<char>>::empty());
    }
}

/// After a commit without a file clients see every task, and every output, as it is.
pub proof fn law_a_volatile_commit_shows_what_is_live(
    registry: BilibiliTaskRegistryView,
    outputs: Seq<ReconciledOutputView>,
    now: Timestamp,
    snapshot: Option<TaskPersistenceSnapshotView>,
    terms: CommitTermsView,
    after: RegistryInnerView,
)
    requires
        commits(
            registry,
            outputs,
            true,
            now,
            snapshot,
            PersistenceCommitOutcome::Volatile,
            terms,
            after,
        ),
    ensures
        ({
            let live = reconciled_all(registry.inner, outputs);
            &&& registry.persistence is None
            &&& after.tasks_by_id == live.tasks_by_id
            &&& after.outputs_by_task_id == live.outputs_by_task_id
            &&& after.visible_tasks_by_id == live.tasks_by_id
            &&& after.visible_outputs_by_task_id.dom() == live.outputs_by_task_id.dom()
            &&& forall|id: Seq<char>| #[trigger]
                live.outputs_by_task_id.contains_key(id) ==> after.visible_outputs_by_task_id[id]
                    == shown_after(
                    lookup(live.visible_outputs_by_task_id, id),
                    live.outputs_by_task_id[id],
                )
            &&& after.pending_resource_cleanup_ids == live.pending_resource_cleanup_ids
            &&& after.durable_resource_cleanup_ids == live.durable_resource_cleanup_ids
        }),
{
    let live = reconciled_all(registry.inner, outputs);
    assert(after.visible_outputs_by_task_id.dom() =~= live.outputs_by_task_id.dom());
}

/// What is to be deleted is deleted only after a durable save: what waited for it, and what
/// belonged to forgotten tasks, is then free to be deleted, and after any other save that took
/// effect it still waits.
pub proof fn law_a_durable_save_frees_what_is_to_be_deleted(
    registry: BilibiliTaskRegistryView,
    outputs: Seq<ReconciledOutputView>,
    now: Timestamp,
    snapshot: Option<TaskPersistenceSnapshotView>,
    outcome: PersistenceCommitOutcome,
    terms: CommitTermsView,
    after: RegistryInnerView,
    resource: Seq<char>,
)
    requires
        commits(registry, outputs, true, now, snapshot, outcome, terms, after),
        outcome == PersistenceCommitOutcome::Durable || outcome
            == PersistenceCommitOutcome::InstalledButNotDurable,
        !terms.require_durable_commit,
    ensures
        ({
            let live = reconciled_all(registry.inner, outputs);
            let waited = live.pending_resource_cleanup_ids.contains(resource);
            &&& outcome == PersistenceCommitOutcome::Durable && waited
                ==> after.durable_resource_cleanup_ids.contains(resource)
                && !after.pending_resource_cleanup_ids.contains(resource)
            &&& outcome == PersistenceCommitOutcome::InstalledButNotDurable && waited
                ==> after.pending_resource_cleanup_ids.contains(resource)
            &&& outcome == PersistenceCommitOutcome::InstalledButNotDurable
                ==> after.durable_resource_cleanup_ids == live.durable_resource_cleanup_ids
            &&& live.durable_resource_cleanup_ids.contains(resource)
                ==> after.durable_resource_cleanup_ids.contains(resource)
            &&& after.durable_resource_cleanup_ids.contains(resource)
                && !live.durable_resource_cleanup_ids.contains(resource) ==> waited
                || live_resource(live, resource)
        }),
{
    let live = reconciled_all(registry.inner, outputs);
    let pruned = snapshot->0.pruned_task_ids;
    if after.durable_resource_cleanup_ids.contains(resource)
        && !live.durable_resource_cleanup_ids.contains(resource)
        && !live.pending_resource_cleanup_ids.contains(resource) {
        assert(resources_of(live, pruned).contains(resource));
        let kept = live.outputs_by_task_id.restrict(pruned);
        let task = choose|task: Seq<char>| #[trigger]
            kept.contains_key(task) && owned_ids()(kept[task]).contains(
                resource,
            );
        let resources = live.outputs_by_task_id[task].resources;
        assert(kept[task].resources == resources);
        let i = choose|i: int|
            0 <= i < resources.len() && (#[trigger] resources[i]).resource.id == resource;
        assert(live.outputs_by_task_id[task].resources[i].resource.id == resource);
    }
}

/// A save that did not take effect, and one that is overtaken by another, shows nothing and tells
/// nothing: what is live stays, or goes back to where it was before the change.
pub proof fn law_a_save_without_effect_shows_nothing(
    registry: BilibiliTaskRegistryView,
    outputs: Seq<ReconciledOutputView>,
    outputs_sound: bool,
    now: Timestamp,
    snapshot: Option<TaskPersistenceSnapshotView>,
    outcome: PersistenceCommitOutcome,
    terms: CommitTermsView,
    after: RegistryInnerView,
)
    requires
        commits(registry, outputs, outputs_sound, now, snapshot, outcome, terms, after),
        outcome == PersistenceCommitOutcome::Rejected || outcome
            == PersistenceCommitOutcome::Superseded,
    ensures
        ({
            let live = reconciled_all(registry.inner, outputs);
            &&& after.visible_tasks_by_id == live.visible_tasks_by_id
            &&& after.visible_outputs_by_task_id == live.visible_outputs_by_task_id
            &&& after.retained_resource_snapshots == live.retained_resource_snapshots
            &&& terms.rollback is None || outcome == PersistenceCommitOutcome::Superseded
                ==> after.tasks_by_id == live.tasks_by_id && after.outputs_by_task_id
                == live.outputs_by_task_id && after.pending_publications_by_id.dom()
                == live.pending_publications_by_id.dom() && after.queued_task_ids
                == live.queued_task_ids && after.durable_resource_cleanup_ids
                == live.durable_resource_cleanup_ids
            &&& terms.rollback matches Some(checkpoint) ==> outcome
                == PersistenceCommitOutcome::Rejected ==> checkpoint_of(after) == checkpoint
        }),
{
    let live = reconciled_all(registry.inner, outputs);
    assert(begun(registry, outputs, outputs_sound).pending_publications_by_id.dom()
        =~= live.pending_publications_by_id.dom());
}

/// What is saved holds every task that is not forgotten, and no other, under the next generation.
pub proof fn law_a_save_holds_every_task_that_stays(
    snapshot: TaskPersistenceSnapshotView,
    state: RegistryInnerView,
    policy: TaskRetentionPolicy,
    now: Timestamp,
    id: Seq<char>,
)
    requires
        snapshot_of(snapshot, state, policy, now),
        state.tasks_by_id.contains_key(id),
        state.tasks_by_id[id].id == id,
    ensures
        snapshot.generation == state.persistence_generation + 1,
        (exists|i: int|
            0 <= i < snapshot.records.len() && (#[trigger] snapshot.records[i]).task
                == state.tasks_by_id[id]) || snapshot.pruned_task_ids.contains(id),
        snapshot.pruned_task_ids.contains(id) ==> forall|i: int|
            0 <= i < snapshot.records.len() ==> (#[trigger] snapshot.records[i]).task.id != id,
        match state.tasks_by_id[id].state {
            TaskState::Succeeded | TaskState::Failed | TaskState::Cancelled => true,
            TaskState::Completed => state.tasks_by_id[id].kind
                == TaskKind::BilibiliProgressivePlayback ==> !snapshot.pruned_task_ids.contains(id),
            _ => !snapshot.pruned_task_ids.contains(id),
        },
{
    let kept = state.tasks_by_id.dom().difference(snapshot.pruned_task_ids);
    if !snapshot.pruned_task_ids.contains(id) {
        assert(kept.contains(id));
        let i = choose|i: int|
            0 <= i < snapshot.records.len() && (#[trigger] snapshot.records[i]).task.id == id;
        assert(snapshot.records[i].task == state.tasks_by_id[id]);
    } else {
        law_nothing_else_is_forgotten(state.tasks_by_id, policy, now, id);
    }
}

/// An output that was derived anew is entered with its summary, and the news of it waits if that
/// changed. Of a task that is gone the output goes too.
pub proof fn law_a_derived_output_is_entered(
    state: RegistryInnerView,
    id: Seq<char>,
    output: TaskOutputRecordView,
    summary: TaskOutputSummaryView,
    other: Seq<char>,
)
    ensures
        ({
            let after = reconciled(state, id, output, summary);
            &&& state.tasks_by_id.contains_key(id) ==> {
                &&& after.outputs_by_task_id.contains_key(id)
                &&& after.outputs_by_task_id[id] == output
                &&& after.tasks_by_id[id] == (TaskView {
                    output_summary: Some(summary),
                    ..state.tasks_by_id[id]
                })
                &&& state.tasks_by_id[id].output_summary != Some(summary)
                    ==> after.pending_publications_by_id.contains_key(id)
                    && after.pending_publications_by_id[id] == after.tasks_by_id[id]
                &&& state.tasks_by_id[id].output_summary == Some(summary)
                    ==> after.pending_publications_by_id == state.pending_publications_by_id
            }
            &&& !state.tasks_by_id.contains_key(id) ==> !after.outputs_by_task_id.contains_key(id)
                && after.tasks_by_id == state.tasks_by_id
            &&& other != id && state.tasks_by_id.contains_key(other) ==> after.tasks_by_id[other]
                == state.tasks_by_id[other]
            &&& other != id && state.outputs_by_task_id.contains_key(other)
                ==> after.outputs_by_task_id.contains_key(other) && after.outputs_by_task_id[other]
                == state.outputs_by_task_id[other]
            &&& after.visible_tasks_by_id == state.visible_tasks_by_id
        }),
{
}

/// After a durable commit bodies are deleted, once it has been looked for those without a task;
/// after any other nothing is, unless a rejected change left bodies behind.
pub proof fn law_what_follows_a_commit(
    registry: BilibiliTaskRegistryView,
    outcome: PersistenceCommitOutcome,
    terms: CommitTermsView,
)
    ensures
        outcome == PersistenceCommitOutcome::Durable && registry.orphan_resource_scan_pending
            ==> follow_up_after(registry, outcome, terms) == FollowUp::ScanForOrphans,
        outcome == PersistenceCommitOutcome::Durable && !registry.orphan_resource_scan_pending
            ==> follow_up_after(registry, outcome, terms) == FollowUp::DeleteRetiredBodies,
        outcome != PersistenceCommitOutcome::Durable && (outcome
            != PersistenceCommitOutcome::Rejected || terms.rollback is None
            || !registry.resource_root_configured) ==> follow_up_after(registry, outcome, terms)
            == FollowUp::Nothing,
{
}

/// A client that names no task watches all of them, and one that names some watches those, whatever
/// white space is around the names.
pub proof fn law_clients_watch_what_they_name(
    visible: Map<Seq<char>, TaskView>,
    ids: Seq<Seq<char>>,
    id: Seq<char>,
)
    ensures
        watched_tasks(visible, named_ids(ids)).contains(id) <==> visible.contains_key(id) && (
        ids.len() == 0 || exists|i: int| 0 <= i < ids.len() && trimmed(#[trigger] ids[i]) == id),
        watched(named_ids(ids), id) <==> ids.len() == 0 || exists|i: int|
            0 <= i < ids.len() && trimmed(#[trigger] ids[i]) == id,
{
    if ids.len() == 0 {
        assert(named_ids(ids) =~= Set::<Seq<char>>::empty());
    } else {
        assert(trimmed(ids[0]) == trimmed(ids[0]));
        assert(named_ids(ids).contains(trimmed(ids[0])));
    }
}

/// Outputs that were derived anew are entered one after the other.
pub proof fn law_derived_outputs_are_entered_in_order(
    state: RegistryInnerView,
    outputs: Seq<ReconciledOutputView>,
    output: ReconciledOutputView,
)
    ensures
        reconciled_all(state, Seq::empty()) == state,
        reconciled_all(state, outputs.push(output)) == reconciled(
            reconciled_all(state, outputs),
            output.task_id,
            output.output,
            output.summary,
        ),
{
    assert(outputs.push(output).drop_last() =~= outputs);
    assert(outputs.push(output).last() == output);
}

/// A rejected change leaves nothing behind: where bodies are kept, those of resources that only it
/// had brought in are free to be deleted, and no others are on its account.
pub proof fn law_a_rejected_change_leaves_no_bodies(
    state: RegistryInnerView,
    checkpoint: RegistryMutationCheckpointView,
    terms: CommitTermsView,
    root_configured: bool,
    resource: Seq<char>,
)
    requires
        terms.rollback == Some(checkpoint),
    ensures
        ({
            let after = settled(
                state,
                None,
                PersistenceCommitOutcome::Rejected,
                terms,
                root_configured,
            );
            let back = RegistryInnerView {
                outputs_by_task_id: checkpoint.outputs_by_task_id,
                pending_resource_cleanup_ids: checkpoint.pending_resource_cleanup_ids,
                ..state
            };
            after.durable_resource_cleanup_ids.contains(resource)
                <==> state.durable_resource_cleanup_ids.contains(resource) || (root_configured
                && live_resource(state, resource) && !live_resource(back, resource)
                && !fetchable_resource(state, resource) && !leased_resource(state, resource)
                && !state.staged_resource_owner_counts.contains_key(resource)
                && !checkpoint.pending_resource_cleanup_ids.contains(resource)
                && !state.resource_storage_revalidation_ids.contains(resource))
        }),
{
    let rolled = rolled_back(state, checkpoint);
    let back = RegistryInnerView {
        outputs_by_task_id: checkpoint.outputs_by_task_id,
        pending_resource_cleanup_ids: checkpoint.pending_resource_cleanup_ids,
        ..state
    };
    law_resources_that_are_remembered(rolled, resource);
    law_live_resources_are_owned(state, resource);
    assert(live_resource(rolled, resource) == live_resource(back, resource));
    if fetchable_resource(rolled, resource) {
        let task = choose|task: Seq<char>| #[trigger]
            rolled.visible_outputs_by_task_id.contains_key(task)
                && rolled.visible_outputs_by_task_id[task].available_resources_by_id.contains_key(
                resource,
            );
        assert(state.visible_outputs_by_task_id.contains_key(task));
    }
    if fetchable_resource(state, resource) {
        let task = choose|task: Seq<char>| #[trigger]
            state.visible_outputs_by_task_id.contains_key(task)
                && state.visible_outputs_by_task_id[task].available_resources_by_id.contains_key(
                resource,
            );
        assert(rolled.visible_outputs_by_task_id.contains_key(task));
    }
    assert(leased_resource(rolled, resource) == leased_resource(state, resource));
}

} // verus!
