//! Laws of outputs and resources: what clients are shown, whose bodies stay, and who claims what.

use crate::gather::gathered;
use crate::inner::checkpoint::checkpoint_of;
use crate::inner::resources::{
    body_owner_ids, claim_problem, claimed, claims_problem, fetchable_ids, first_claim_problem,
    leased_ids, live_leased_ids, output_ids, owned_ids, projected_ids, record_named, released,
    reserved_ids, shown_ids, task_resources, unexpired_leases,
};
use crate::model::basics::{TaskArtifactState, Timestamp};
use crate::model::output::{
    CacheResourceRefView, TaskArtifactView, TaskOutputRecordView, TaskOutputSummaryView,
    TaskResourceRecordView, TaskResultView,
};
use crate::model::state::RegistryInnerView;
use crate::model::task::{Task, TaskView};
use crate::model::visible::{
    RetainedTaskResourceSnapshotView, TaskOutputSnapshot, VisibleTaskOutputView,
};
use crate::registry::BilibiliTaskRegistryView;
use crate::registry::commit::{Guarantee, Step};
use crate::registry::staging::{
    OutputReplacement, commit_problem, replacement, resources_among, staging_problem, with_claim,
    with_claim_rejected, with_output, without_claim,
};
use crate::registry::storage::{
    BodyCheck, BodyDeletion, BodyDeletionReport, BodyFacts, BodyProblem, RetiredOutputView,
    after_cleanup, body_owner_record, body_problem, cleanup_candidates, deleted_ids, in_doubt,
    lease_request, live_resources, offer, offered_by_lease, offered_visibly, passed_ids,
    resource_key, some_check_failed, some_deletion_failed, some_retired, stale_bodies,
    with_all_retired, with_retired,
};
use crate::status::{Code, Status};
use crate::text::{ascii_lower, trimmed};
use crate::timing::expired;
use crate::visible_output::{
    artifact_resource_ids, available_ids, resource_ids, resources_in, shown, shown_after,
};
use vstd::prelude::*;

verus! {

/// An available artifact points to the resource `id`, whatever the case of its ASCII letters.
pub open spec fn artifact_offers(artifact: TaskArtifactView, id: Seq<char>) -> bool {
    &&& artifact.state == TaskArtifactState::Available
    &&& artifact.resource matches Some(resource) && ascii_lower(resource.id) == id
}

/// Some available artifact of some result points to the resource `id`.
pub open spec fn results_offer(results: Seq<TaskResultView>, id: Seq<char>) -> bool {
    exists|i: int, j: int|
        0 <= i < results.len() && 0 <= j < results[i].artifacts.len() && artifact_offers(
            #[trigger] results[i].artifacts[j],
            id,
        )
}

/// Clients see an output as it is, and can fetch exactly those of its resources to which an
/// available artifact of it points.
pub proof fn law_clients_fetch_what_artifacts_offer(record: TaskOutputRecordView, id: Seq<char>)
    ensures
        shown(record).record == record,
        shown(record).encoded_bytes == record.encoded_bytes,
        shown(record).available_resources_by_id.contains_key(id) <==> results_offer(
            record.results,
            id,
        ) && exists|i: int|
            0 <= i < record.resources.len() && (#[trigger] record.resources[i]).resource.id == id,
        shown(record).available_resources_by_id.contains_key(id) ==> exists|i: int|
            0 <= i < record.resources.len() && #[trigger] record.resources[i] == shown(
                record,
            ).available_resources_by_id[id] && record.resources[i].resource.id == id && forall|
                j: int,
            |
                i < j < record.resources.len() ==> (#[trigger] record.resources[j]).resource.id
                    != id,
{
    lemma_available(record.results, id);
    lemma_resources_in(record.resources, available_ids(record.results), id);
}

proof fn lemma_artifacts(artifacts: Seq<TaskArtifactView>, id: Seq<char>)
    ensures
        artifact_resource_ids(artifacts).contains(id) <==> exists|j: int|
            0 <= j < artifacts.len() && artifact_offers(#[trigger] artifacts[j], id),
    decreases artifacts.len(),
{
    if artifacts.len() > 0 {
        let shorter = artifacts.drop_last();
        lemma_artifacts(shorter, id);
        assert(artifacts[artifacts.len() - 1] == artifacts.last());
        if exists|j: int| 0 <= j < shorter.len() && artifact_offers(#[trigger] shorter[j], id) {
            let j = choose|j: int|
                0 <= j < shorter.len() && artifact_offers(#[trigger] shorter[j], id);
            assert(artifacts[j] == shorter[j]);
        }
        if exists|j: int| 0 <= j < artifacts.len() && artifact_offers(#[trigger] artifacts[j], id) {
            let j = choose|j: int|
                0 <= j < artifacts.len() && artifact_offers(#[trigger] artifacts[j], id);
            if j < shorter.len() {
                assert(artifacts[j] == shorter[j]);
            }
        }
    }
}

proof fn lemma_available(results: Seq<TaskResultView>, id: Seq<char>)
    ensures
        available_ids(results).contains(id) <==> results_offer(results, id),
    decreases results.len(),
{
    if results.len() > 0 {
        let shorter = results.drop_last();
        let last = results.len() - 1;
        lemma_available(shorter, id);
        lemma_artifacts(results.last().artifacts, id);
        assert(results[last] == results.last());
        if results_offer(shorter, id) {
            let (i, j) = choose|i: int, j: int|
                0 <= i < shorter.len() && 0 <= j < shorter[i].artifacts.len() && artifact_offers(
                    #[trigger] shorter[i].artifacts[j],
                    id,
                );
            assert(results[i] == shorter[i]);
            assert(artifact_offers(results[i].artifacts[j], id));
        }
        if results_offer(results, id) {
            let (i, j) = choose|i: int, j: int|
                0 <= i < results.len() && 0 <= j < results[i].artifacts.len() && artifact_offers(
                    #[trigger] results[i].artifacts[j],
                    id,
                );
            if i < last {
                assert(results[i] == shorter[i]);
                assert(artifact_offers(shorter[i].artifacts[j], id));
            }
        }
        if artifact_resource_ids(results.last().artifacts).contains(id) {
            let j = choose|j: int|
                0 <= j < results.last().artifacts.len() && artifact_offers(
                    #[trigger] results.last().artifacts[j],
                    id,
                );
            assert(artifact_offers(results[last].artifacts[j], id));
        }
    }
}

proof fn lemma_resources_in(
    resources: Seq<TaskResourceRecordView>,
    ids: Set<Seq<char>>,
    id: Seq<char>,
)
    ensures
        resources_in(resources, ids).contains_key(id) <==> ids.contains(id) && exists|i: int|
            0 <= i < resources.len() && (#[trigger] resources[i]).resource.id == id,
        resources_in(resources, ids).contains_key(id) ==> exists|i: int|
            0 <= i < resources.len() && #[trigger] resources[i] == resources_in(resources, ids)[id]
                && resources[i].resource.id == id && forall|j: int|
                i < j < resources.len() ==> (#[trigger] resources[j]).resource.id != id,
    decreases resources.len(),
{
    if resources.len() > 0 {
        let shorter = resources.drop_last();
        let last = resources.len() - 1;
        lemma_resources_in(shorter, ids, id);
        assert(resources[last] == resources.last());
        if exists|i: int| 0 <= i < shorter.len() && (#[trigger] shorter[i]).resource.id == id {
            let i = choose|i: int| 0 <= i < shorter.len() && (#[trigger] shorter[i]).resource.id
                == id;
            assert(resources[i] == shorter[i]);
        }
        if exists|i: int| 0 <= i < resources.len() && (#[trigger] resources[i]).resource.id == id {
            let i = choose|i: int|
                0 <= i < resources.len() && (#[trigger] resources[i]).resource.id == id;
            if i < last {
                assert(resources[i] == shorter[i]);
            }
        }
        if resources_in(resources, ids).contains_key(id) {
            if resources.last().resource.id == id {
                assert(resources[last] == resources_in(resources, ids)[id]);
            } else {
                let i = choose|i: int|
                    0 <= i < shorter.len() && #[trigger] shorter[i] == resources_in(
                        shorter,
                        ids,
                    )[id] && shorter[i].resource.id == id && forall|j: int|
                        i < j < shorter.len() ==> (#[trigger] shorter[j]).resource.id != id;
                assert(resources[i] == shorter[i]);
                assert forall|j: int| i < j < resources.len() implies (
                #[trigger] resources[j]).resource.id != id by {
                    if j < last {
                        assert(resources[j] == shorter[j]);
                    }
                }
            }
        }
    }
}

/// A new revision, or a new snapshot, is shown in place of the old one; the same one stays shown.
pub proof fn law_a_new_revision_is_shown(
    previous: VisibleTaskOutputView,
    record: TaskOutputRecordView,
)
    ensures
        shown_after(None, record).record == record,
        record.revision != previous.record.revision || record.snapshot_id
            != previous.record.snapshot_id ==> shown_after(Some(previous), record).record
            == record,
        record.revision == previous.record.revision && record.snapshot_id
            == previous.record.snapshot_id ==> shown_after(Some(previous), record) == previous,
{
}

/// Some task has the resource `id` in its output.
pub open spec fn live_resource(state: RegistryInnerView, id: Seq<char>) -> bool {
    exists|task: Seq<char>, i: int|
        state.outputs_by_task_id.contains_key(task) && 0 <= i
            < state.outputs_by_task_id[task].resources.len() && (
        #[trigger] state.outputs_by_task_id[task].resources[i]).resource.id == id
}

/// Clients see the resource `id` in an output.
pub open spec fn seen_resource(state: RegistryInnerView, id: Seq<char>) -> bool {
    exists|task: Seq<char>, i: int|
        state.visible_outputs_by_task_id.contains_key(task) && 0 <= i
            < state.visible_outputs_by_task_id[task].record.resources.len() && (
        #[trigger] state.visible_outputs_by_task_id[task].record.resources[i]).resource.id == id
}

/// Clients can fetch the resource `id` of an output that they see.
pub open spec fn fetchable_resource(state: RegistryInnerView, id: Seq<char>) -> bool {
    exists|task: Seq<char>| #[trigger]
        state.visible_outputs_by_task_id.contains_key(task)
            && state.visible_outputs_by_task_id[task].available_resources_by_id.contains_key(id)
}

/// Some lease is on the resource `id`, be it expired or not.
pub open spec fn leased_resource(state: RegistryInnerView, id: Seq<char>) -> bool {
    exists|lease: Seq<char>, i: int|
        state.retained_resource_snapshots.contains_key(lease) && 0 <= i
            < state.retained_resource_snapshots[lease].output.record.resources.len() && (
        #[trigger] state.retained_resource_snapshots[lease].output.record.resources[i]).resource.id
            == id
}

/// Some lease is on the resource `id`, which does not expire or expires after `now`.
pub open spec fn lasting_leased_resource(
    state: RegistryInnerView,
    id: Seq<char>,
    now: Timestamp,
) -> bool {
    exists|lease: Seq<char>, i: int|
        state.retained_resource_snapshots.contains_key(lease) && 0 <= i
            < state.retained_resource_snapshots[lease].output.record.resources.len() && (
        #[trigger] state.retained_resource_snapshots[lease].output.record.resources[i]).resource.id
            == id && (
        state.retained_resource_snapshots[lease].output.record.resources[i].resource.expires_at matches Some(
            at,
        ) ==> at.seconds * 1_000_000_000 + at.nanos > now.seconds * 1_000_000_000 + now.nanos)
}

proof fn lemma_places(state: RegistryInnerView, id: Seq<char>, now: Timestamp)
    ensures
        output_ids(state).contains(id) <==> live_resource(state, id),
        gathered(state.visible_outputs_by_task_id, shown_ids()).contains(id) <==> seen_resource(
            state,
            id,
        ),
        gathered(state.visible_outputs_by_task_id, fetchable_ids()).contains(id)
            <==> fetchable_resource(state, id),
        gathered(state.retained_resource_snapshots, leased_ids()).contains(id) <==> leased_resource(
            state,
            id,
        ),
        gathered(state.retained_resource_snapshots, live_leased_ids(now)).contains(id)
            <==> lasting_leased_resource(state, id, now),
{
    if output_ids(state).contains(id) {
        let task = choose|task: Seq<char>| #[trigger]
            state.outputs_by_task_id.contains_key(task) && owned_ids()(
                state.outputs_by_task_id[task],
            ).contains(id);
        let resources = state.outputs_by_task_id[task].resources;
        let i = choose|i: int|
            0 <= i < resources.len() && (#[trigger] resources[i]).resource.id == id;
        assert(state.outputs_by_task_id[task].resources[i].resource.id == id);
    }
    if live_resource(state, id) {
        let (task, i) = choose|task: Seq<char>, i: int|
            state.outputs_by_task_id.contains_key(task) && 0 <= i
                < state.outputs_by_task_id[task].resources.len() && (
            #[trigger] state.outputs_by_task_id[task].resources[i]).resource.id == id;
        assert(owned_ids()(state.outputs_by_task_id[task]).contains(id));
    }
    if gathered(state.visible_outputs_by_task_id, shown_ids()).contains(id) {
        let task = choose|task: Seq<char>| #[trigger]
            state.visible_outputs_by_task_id.contains_key(task) && shown_ids()(
                state.visible_outputs_by_task_id[task],
            ).contains(id);
        let resources = state.visible_outputs_by_task_id[task].record.resources;
        let i = choose|i: int|
            0 <= i < resources.len() && (#[trigger] resources[i]).resource.id == id;
        assert(state.visible_outputs_by_task_id[task].record.resources[i].resource.id == id);
    }
    if seen_resource(state, id) {
        let (task, i) = choose|task: Seq<char>, i: int|
            state.visible_outputs_by_task_id.contains_key(task) && 0 <= i
                < state.visible_outputs_by_task_id[task].record.resources.len() && (
            #[trigger] state.visible_outputs_by_task_id[task].record.resources[i]).resource.id
                == id;
        assert(shown_ids()(state.visible_outputs_by_task_id[task]).contains(id));
    }
    if fetchable_resource(state, id) {
        let task = choose|task: Seq<char>| #[trigger]
            state.visible_outputs_by_task_id.contains_key(task)
                && state.visible_outputs_by_task_id[task].available_resources_by_id.contains_key(
                id,
            );
        assert(fetchable_ids()(state.visible_outputs_by_task_id[task]).contains(id));
    }
    if gathered(state.visible_outputs_by_task_id, fetchable_ids()).contains(id) {
        let task = choose|task: Seq<char>| #[trigger]
            state.visible_outputs_by_task_id.contains_key(task) && fetchable_ids()(
                state.visible_outputs_by_task_id[task],
            ).contains(id);
        assert(state.visible_outputs_by_task_id.contains_key(task));
    }
    if gathered(state.retained_resource_snapshots, leased_ids()).contains(id) {
        let lease = choose|lease: Seq<char>| #[trigger]
            state.retained_resource_snapshots.contains_key(lease) && leased_ids()(
                state.retained_resource_snapshots[lease],
            ).contains(id);
        let resources = state.retained_resource_snapshots[lease].output.record.resources;
        let i = choose|i: int|
            0 <= i < resources.len() && (#[trigger] resources[i]).resource.id == id;
        assert(state.retained_resource_snapshots[lease].output.record.resources[i].resource.id
            == id);
    }
    if leased_resource(state, id) {
        let (lease, i) = choose|lease: Seq<char>, i: int|
            state.retained_resource_snapshots.contains_key(lease) && 0 <= i
                < state.retained_resource_snapshots[lease].output.record.resources.len() && (
            #[trigger] state.retained_resource_snapshots[lease].output.record.resources[i]).resource.id
                == id;
        assert(leased_ids()(state.retained_resource_snapshots[lease]).contains(id));
    }
    if gathered(state.retained_resource_snapshots, live_leased_ids(now)).contains(id) {
        let lease = choose|lease: Seq<char>| #[trigger]
            state.retained_resource_snapshots.contains_key(lease) && live_leased_ids(now)(
                state.retained_resource_snapshots[lease],
            ).contains(id);
        let resources = state.retained_resource_snapshots[lease].output.record.resources;
        let i = choose|i: int|
            0 <= i < resources.len() && (#[trigger] resources[i]).resource.id == id
                && !expired(resources[i].resource.expires_at, now);
        assert(state.retained_resource_snapshots[lease].output.record.resources[i].resource.id
            == id);
    }
    if lasting_leased_resource(state, id, now) {
        let (lease, i) = choose|lease: Seq<char>, i: int|
            state.retained_resource_snapshots.contains_key(lease) && 0 <= i
                < state.retained_resource_snapshots[lease].output.record.resources.len() && (
            #[trigger] state.retained_resource_snapshots[lease].output.record.resources[i]).resource.id
                == id && (
            state.retained_resource_snapshots[lease].output.record.resources[i].resource.expires_at matches Some(
                at,
            ) ==> at.seconds * 1_000_000_000 + at.nanos > now.seconds * 1_000_000_000
                + now.nanos);
        let resources = state.retained_resource_snapshots[lease].output.record.resources;
        assert(resources[i].resource.id == id);
        assert(live_leased_ids(now)(state.retained_resource_snapshots[lease]).contains(id));
    }
}

/// The resources that tasks own are those in their outputs.
pub proof fn law_live_resources_are_owned(state: RegistryInnerView, id: Seq<char>)
    ensures
        output_ids(state).contains(id) <==> live_resource(state, id),
{
    lemma_places(state, id, Timestamp { seconds: 0, nanos: 0 });
}

/// The body of a resource stays while a task has it, clients see it, a lease is on it that it does
/// not expire under, or it is just being made; and in no other case.
pub proof fn law_bodies_stay_for_their_owners(
    state: RegistryInnerView,
    now: Timestamp,
    id: Seq<char>,
)
    ensures
        body_owner_ids(state, now).contains(id) <==> live_resource(state, id) || seen_resource(
            state,
            id,
        ) || lasting_leased_resource(state, id, now)
            || state.staged_resource_owner_counts.contains_key(id),
{
    lemma_places(state, id, now);
}

/// A body is deleted only if that was asked for and is durably written down, and only while nobody
/// owns it; once it is gone that is forgotten, unless the resource has an owner again.
pub proof fn law_only_bodies_without_an_owner_are_deleted(
    state: RegistryInnerView,
    now: Timestamp,
    deleted: Set<Seq<char>>,
    later: Timestamp,
    id: Seq<char>,
)
    ensures
        cleanup_candidates(state, now).contains(id)
            <==> state.durable_resource_cleanup_ids.contains(id) && !live_resource(state, id)
            && !seen_resource(state, id) && !lasting_leased_resource(state, id, now)
            && !state.staged_resource_owner_counts.contains_key(id),
        after_cleanup(state, deleted, later).durable_resource_cleanup_ids.contains(id)
            <==> state.durable_resource_cleanup_ids.contains(id) && (!deleted.contains(id)
            || live_resource(state, id) || seen_resource(state, id) || lasting_leased_resource(
            state,
            id,
            later,
        ) || state.staged_resource_owner_counts.contains_key(id)),
        after_cleanup(state, deleted, later).pending_resource_cleanup_ids
            == state.pending_resource_cleanup_ids,
        after_cleanup(state, deleted, later).outputs_by_task_id == state.outputs_by_task_id,
{
    lemma_places(state, id, now);
    lemma_places(state, id, later);
}

/// A resource is remembered while a task has it, clients can fetch it, a lease is on it, it is just
/// being made, its body is to be deleted or its body is in doubt.
pub proof fn law_resources_that_are_remembered(state: RegistryInnerView, id: Seq<char>)
    ensures
        reserved_ids(state).contains(id) <==> live_resource(state, id) || fetchable_resource(
            state,
            id,
        ) || leased_resource(state, id) || state.staged_resource_owner_counts.contains_key(id)
            || state.pending_resource_cleanup_ids.contains(id)
            || state.durable_resource_cleanup_ids.contains(id)
            || state.resource_storage_revalidation_ids.contains(id),
{
    lemma_places(state, id, Timestamp { seconds: 0, nanos: 0 });
}

/// A claim that was given up leaves each of its resources to be deleted that nothing else accounts
/// for, and no other.
pub proof fn law_a_given_up_claim_leaves_nothing_behind(
    state: RegistryInnerView,
    ids: Set<Seq<char>>,
    id: Seq<char>,
)
    ensures
        ({
            let after = with_claim_rejected(state, ids);
            &&& after.durable_resource_cleanup_ids.contains(id)
                <==> state.durable_resource_cleanup_ids.contains(id) || (ids.contains(id)
                && !live_resource(state, id) && !fetchable_resource(state, id) && !leased_resource(
                state,
                id,
            ) && !after.staged_resource_owner_counts.contains_key(id)
                && !state.pending_resource_cleanup_ids.contains(id)
                && !state.resource_storage_revalidation_ids.contains(id))
            &&& ids.contains(id) && state.staged_resource_owner_counts.contains_key(id)
                && state.staged_resource_owner_counts[id] <= 1
                ==> !after.staged_resource_owner_counts.contains_key(id)
            &&& ids.contains(id) && state.staged_resource_owner_counts.contains_key(id)
                && state.staged_resource_owner_counts[id] > 1
                ==> after.staged_resource_owner_counts.contains_key(id)
                && after.staged_resource_owner_counts[id] == state.staged_resource_owner_counts[id]
                - 1
            &&& !ids.contains(id) ==> after.staged_resource_owner_counts.contains_key(id)
                == state.staged_resource_owner_counts.contains_key(id)
            &&& after.outputs_by_task_id == state.outputs_by_task_id
            &&& after.pending_resource_cleanup_ids == state.pending_resource_cleanup_ids
        }),
{
    let after = without_claim(state, ids);
    law_resources_that_are_remembered(after, id);
    assert(live_resource(after, id) == live_resource(state, id));
    assert(fetchable_resource(after, id) == fetchable_resource(state, id));
    assert(leased_resource(after, id) == leased_resource(state, id));
}

/// A claim counts each of its resources once more, giving it up once less, and a resource that
/// nobody claims is not counted.
pub proof fn law_claims_are_counted(
    counts: Map<Seq<char>, usize>,
    ids: Set<Seq<char>>,
    id: Seq<char>,
)
    requires
        counts.contains_key(id) ==> 1 <= counts[id] < usize::MAX,
    ensures
        ({
            let count = if counts.contains_key(id) { counts[id] as int } else { 0 };
            let more = if claimed(counts, ids).contains_key(id) {
                claimed(counts, ids)[id] as int
            } else {
                0
            };
            let less = if released(counts, ids).contains_key(id) {
                released(counts, ids)[id] as int
            } else {
                0
            };
            &&& more == if ids.contains(id) { count + 1 } else { count }
            &&& less == if ids.contains(id) && count > 0 { count - 1 } else { count }
            &&& released(counts, ids).contains_key(id) ==> less >= 1
        }),
{
}

/// A lease lasts until the instant at which it ends, and not longer.
pub proof fn law_a_lease_lasts_until_it_ends(
    leases: Map<Seq<char>, RetainedTaskResourceSnapshotView>,
    instant: u64,
    id: Seq<char>,
)
    ensures
        unexpired_leases(leases, instant).contains_key(id) <==> leases.contains_key(id)
            && instant < leases[id].expires_at,
        unexpired_leases(leases, instant).contains_key(id) ==> unexpired_leases(leases, instant)[id]
            == leases[id],
{
}

/// A client that asks for the output of a task it sees gets it as it is shown, and until the lease
/// ends its resources are kept. Without a durable store, without a name or for an unknown task it
/// gets nothing.
pub proof fn law_a_lease_keeps_what_was_handed_out(
    registry: BilibiliTaskRegistryView,
    id: Seq<char>,
    lease_id: Seq<char>,
    expires_at: u64,
    instant: u64,
    result: Result<TaskOutputSnapshot, Status>,
    after: RegistryInnerView,
)
    requires
        lease_request(registry, id, lease_id, expires_at, instant, result, after),
    ensures
        ({
            let before = registry.inner;
            let durable = registry.resource_storage_available && (
            registry.persistence matches Some(persistence) && persistence.available);
            &&& result is Ok <==> trimmed(id).len() > 0 && durable
                && before.visible_tasks_by_id.contains_key(trimmed(id))
            &&& result matches Err(status) ==> (trimmed(id).len() == 0 ==> status@.code
                == Code::InvalidArgument) && (trimmed(id).len() > 0 && !durable ==> status@.code
                == Code::FailedPrecondition) && (trimmed(id).len() > 0 && durable ==> status@.code
                == Code::NotFound)
            &&& result matches Ok(snapshot) ==> {
                let output = before.visible_outputs_by_task_id[trimmed(id)];
                &&& snapshot@.task_id == trimmed(id)
                &&& snapshot@.output == output
                &&& snapshot@.revision == output.record.revision
                &&& snapshot@.snapshot_id == output.record.snapshot_id
                &&& snapshot@.encoded_bytes == output.encoded_bytes
                &&& snapshot@.resource_lease_id == lease_id
                &&& snapshot@.resource_lease_expires_at == expires_at
                &&& output.record.resources.len() > 0
                    ==> after.retained_resource_snapshots.contains_key(lease_id)
                    && after.retained_resource_snapshots[lease_id].expires_at == expires_at
                    && after.retained_resource_snapshots[lease_id].output == output
                &&& forall|i: int|
                    0 <= i < output.record.resources.len() ==> leased_resource(
                        after,
                        (#[trigger] output.record.resources[i]).resource.id,
                    )
            }
            &&& forall|other: Seq<char>| #[trigger]
                before.retained_resource_snapshots.contains_key(other) && other != lease_id
                    && instant < before.retained_resource_snapshots[other].expires_at
                    ==> after.retained_resource_snapshots.contains_key(other)
                    && after.retained_resource_snapshots[other]
                    == before.retained_resource_snapshots[other]
            &&& result is Ok ==> forall|other: Seq<char>| #[trigger]
                after.retained_resource_snapshots.contains_key(other) && other != lease_id
                    ==> before.retained_resource_snapshots.contains_key(other) && instant
                    < before.retained_resource_snapshots[other].expires_at
            &&& after.tasks_by_id == before.tasks_by_id
            &&& after.outputs_by_task_id == before.outputs_by_task_id
            &&& after.visible_outputs_by_task_id == before.visible_outputs_by_task_id
            &&& after.durable_resource_cleanup_ids == before.durable_resource_cleanup_ids
        }),
{
    if let Ok(snapshot) = result {
        let output = registry.inner.visible_outputs_by_task_id[trimmed(id)];
        assert forall|i: int| 0 <= i < output.record.resources.len() implies leased_resource(
            after,
            (#[trigger] output.record.resources[i]).resource.id,
        ) by {
            assert(after.retained_resource_snapshots[lease_id].output.record.resources[i]
                == output.record.resources[i]);
        }
    }
}

/// A body is sound if it is a regular file and has the size that its resource says, where it does.
pub proof fn law_sound_bodies_have_the_right_size(resource: CacheResourceRefView, body: BodyFacts)
    ensures
        body_problem(resource, body) is None <==> body.regular_file && (resource.size_known
            ==> body.length == resource.size_bytes),
        !body.regular_file ==> body_problem(resource, body) == Some(BodyProblem::NotARegularFile),
{
}

/// A resource is looked up without regard to white space around its identifier or to the case of
/// its ASCII letters.
pub proof fn law_resources_are_looked_up_by_their_letters(id: Seq<char>, other: Seq<char>)
    ensures
        resource_key(id) == resource_key(other) <==> ascii_lower(trimmed(id)) == ascii_lower(
            trimmed(other),
        ),
{
}

/// Whoever is offered a resource is offered one that clients can fetch, or else one that is leased;
/// and if either is there, something is offered.
pub proof fn law_offers_are_visible_or_leased(
    state: RegistryInnerView,
    id: Seq<char>,
    record: Option<TaskResourceRecordView>,
)
    requires
        offer(state, id, record),
    ensures
        fetchable_resource(state, id) ==> (record matches Some(record) && exists|task: Seq<char>|
            #[trigger]
            state.visible_outputs_by_task_id.contains_key(task)
                && state.visible_outputs_by_task_id[task].available_resources_by_id.contains_key(
                id,
            ) && state.visible_outputs_by_task_id[task].available_resources_by_id[id] == record),
        !fetchable_resource(state, id) ==> match record {
            Some(record) => exists|lease: Seq<char>| #[trigger]
                state.retained_resource_snapshots.contains_key(lease)
                    && state.retained_resource_snapshots[lease].output.available_resources_by_id.contains_key(
                id,
            ) && state.retained_resource_snapshots[lease].output.available_resources_by_id[id]
                    == record,
            None => forall|lease: Seq<char>| #[trigger]
                state.retained_resource_snapshots.contains_key(lease)
                    ==> !state.retained_resource_snapshots[lease].output.available_resources_by_id.contains_key(
                id),
        },
{
    if fetchable_resource(state, id) {
        let task = choose|task: Seq<char>| #[trigger]
            state.visible_outputs_by_task_id.contains_key(task)
                && state.visible_outputs_by_task_id[task].available_resources_by_id.contains_key(
                id,
            );
        assert(offered_visibly(
            state.visible_outputs_by_task_id,
            id,
            state.visible_outputs_by_task_id[task].available_resources_by_id[id],
        ));
    } else if record is None {
        assert forall|lease: Seq<char>| #[trigger]
            state.retained_resource_snapshots.contains_key(
                lease,
            ) implies !state.retained_resource_snapshots[lease].output.available_resources_by_id.contains_key(
        id) by {
            if state.retained_resource_snapshots[lease].output.available_resources_by_id.contains_key(
                id,
            ) {
                assert(offered_by_lease(
                    state.retained_resource_snapshots,
                    id,
                    state.retained_resource_snapshots[lease].output.available_resources_by_id[id],
                ));
            }
        }
    }
}

/// What the body of a resource must match is a record of that resource, and there is one whenever
/// the resource is live or seen.
pub proof fn law_bodies_match_a_record_of_theirs(
    state: RegistryInnerView,
    id: Seq<char>,
    now: Timestamp,
    record: Option<TaskResourceRecordView>,
)
    requires
        body_owner_record(state, id, now, record),
    ensures
        record matches Some(record) ==> record.resource.id == id,
        live_resource(state, id) || seen_resource(state, id) ==> record is Some,
        live_resource(state, id) ==> (record matches Some(record) && exists|
            task: Seq<char>,
            i: int,
        |
            state.outputs_by_task_id.contains_key(task) && 0 <= i
                < state.outputs_by_task_id[task].resources.len()
                && #[trigger] state.outputs_by_task_id[task].resources[i] == record),
        record is Some ==> live_resource(state, id) || seen_resource(state, id) || leased_resource(
            state,
            id,
        ),
        leased_resource(state, id) && (forall|lease: Seq<char>, i: int|
            state.retained_resource_snapshots.contains_key(lease) && 0 <= i
                < state.retained_resource_snapshots[lease].output.record.resources.len() ==> (
            #[trigger] state.retained_resource_snapshots[lease].output.record.resources[i]).resource.expires_at
                is None) ==> record is Some,
        !live_resource(state, id) && !seen_resource(state, id) ==> (record matches Some(record)
            ==> (record.resource.expires_at matches Some(at) ==> at.seconds * 1_000_000_000
            + at.nanos > now.seconds * 1_000_000_000 + now.nanos)),
{
    lemma_places(state, id, now);
    if live_resource(state, id) {
        let (key, i) = choose|key: Seq<char>, i: int|
            state.outputs_by_task_id.contains_key(key) && 0 <= i
                < live_resources()(state.outputs_by_task_id[key]).len()
                && #[trigger] live_resources()(
                state.outputs_by_task_id[key],
            )[i] == record->0 && record->0.resource.id == id;
        assert(state.outputs_by_task_id[key].resources[i] == record->0);
    }
}

/// Two records have the same identifier.
pub open spec fn repeated(resources: Seq<TaskResourceRecordView>) -> bool {
    exists|i: int, j: int|
        0 <= i < j < resources.len() && (#[trigger] resources[i]).resource.id == (
        #[trigger] resources[j]).resource.id
}

/// Another task than `task_id` has the resource `id`.
pub open spec fn others_resource(
    state: RegistryInnerView,
    task_id: Seq<char>,
    id: Seq<char>,
) -> bool {
    exists|task: Seq<char>, i: int|
        task != task_id && state.outputs_by_task_id.contains_key(task) && 0 <= i
            < state.outputs_by_task_id[task].resources.len() && (
        #[trigger] state.outputs_by_task_id[task].resources[i]).resource.id == id
}

/// The task `task_id` has the resource `id`.
pub open spec fn own_resource(
    state: RegistryInnerView,
    task_id: Seq<char>,
    id: Seq<char>,
) -> bool {
    state.outputs_by_task_id.contains_key(task_id) && exists|i: int|
        0 <= i < state.outputs_by_task_id[task_id].resources.len() && (
        #[trigger] state.outputs_by_task_id[task_id].resources[i]).resource.id == id
}

/// The room that resources take: those that would be the task's, those of all other tasks, those of
/// other tasks that clients can fetch, those on lease, those to be deleted and those being made.
pub proof fn law_what_takes_room(
    state: RegistryInnerView,
    task_id: Seq<char>,
    candidates: Set<Seq<char>>,
    id: Seq<char>,
)
    ensures
        projected_ids(state, task_id, candidates).contains(id) <==> candidates.contains(id)
            || others_resource(state, task_id, id) || (exists|task: Seq<char>|
            task != task_id && #[trigger] state.visible_outputs_by_task_id.contains_key(task)
                && state.visible_outputs_by_task_id[task].available_resources_by_id.contains_key(
                id,
            )) || leased_resource(state, id) || state.pending_resource_cleanup_ids.contains(id)
            || state.durable_resource_cleanup_ids.contains(id)
            || state.staged_resource_owner_counts.contains_key(id),
{
    lemma_places(state, id, Timestamp { seconds: 0, nanos: 0 });
    let live = state.outputs_by_task_id.remove(task_id);
    let visible = state.visible_outputs_by_task_id.remove(task_id);
    if gathered(live, owned_ids()).contains(id) {
        let task = choose|task: Seq<char>| #[trigger]
            live.contains_key(task) && owned_ids()(live[task]).contains(id);
        let resources = live[task].resources;
        let i = choose|i: int|
            0 <= i < resources.len() && (#[trigger] resources[i]).resource.id == id;
        assert(state.outputs_by_task_id[task].resources[i].resource.id == id);
    }
    if others_resource(state, task_id, id) {
        let (task, i) = choose|task: Seq<char>, i: int|
            task != task_id && state.outputs_by_task_id.contains_key(task) && 0 <= i
                < state.outputs_by_task_id[task].resources.len() && (
            #[trigger] state.outputs_by_task_id[task].resources[i]).resource.id == id;
        assert(live.contains_key(task));
        assert(owned_ids()(live[task]).contains(id));
    }
    if gathered(visible, fetchable_ids()).contains(id) {
        let task = choose|task: Seq<char>| #[trigger]
            visible.contains_key(task) && fetchable_ids()(visible[task]).contains(id);
        assert(state.visible_outputs_by_task_id.contains_key(task));
    }
    if exists|task: Seq<char>|
        task != task_id && #[trigger] state.visible_outputs_by_task_id.contains_key(task)
            && state.visible_outputs_by_task_id[task].available_resources_by_id.contains_key(id) {
        let task = choose|task: Seq<char>|
            task != task_id && #[trigger] state.visible_outputs_by_task_id.contains_key(task)
                && state.visible_outputs_by_task_id[task].available_resources_by_id.contains_key(
                id,
            );
        assert(visible.contains_key(task));
        assert(fetchable_ids()(visible[task]).contains(id));
    }
}

/// A task may have only resources of its own: each once, none that another task has, none that it
/// has already as something else, and none that is new to it but known otherwise; and no more than
/// there is room for.
pub proof fn law_granted_resources_are_the_tasks_own(
    state: RegistryInnerView,
    task_id: Seq<char>,
    resources: Seq<TaskResourceRecordView>,
    candidates: Set<Seq<char>>,
    claims: nat,
    limit: nat,
    index: int,
)
    requires
        claims_problem(state, task_id, resources, candidates, claims, limit) is None,
        0 <= index < resources.len(),
    ensures
        ({
            let id = resources[index].resource.id;
            &&& !repeated(resources)
            &&& !others_resource(state, task_id, id)
            &&& own_resource(state, task_id, id)
                ==> state.outputs_by_task_id[task_id].resources.contains(resources[index])
            &&& !own_resource(state, task_id, id) ==> !fetchable_resource(state, id)
                && !leased_resource(state, id) && !state.pending_resource_cleanup_ids.contains(id)
                && !state.durable_resource_cleanup_ids.contains(id)
            &&& state.staged_resource_owner_counts.contains_key(id)
                ==> state.staged_resource_owner_counts[id] == claims
            &&& !state.staged_resource_owner_counts.contains_key(id) ==> claims == 0
            &&& projected_ids(state, task_id, candidates).len() <= limit
        }),
{
    lemma_record_named(task_resources(state, task_id), resources[index].resource.id);
    if own_resource(state, task_id, resources[index].resource.id) {
        let i = choose|i: int|
            0 <= i < state.outputs_by_task_id[task_id].resources.len() && (
            #[trigger] state.outputs_by_task_id[task_id].resources[i]).resource.id
                == resources[index].resource.id;
        assert(task_resources(state, task_id)[i].resource.id == resources[index].resource.id);
    }
    lemma_no_problem(state, task_id, resources, resources.len() as int, claims, index);
    let id = resources[index].resource.id;
    lemma_places(state, id, Timestamp { seconds: 0, nanos: 0 });
    if repeated(resources) {
        let (i, j) = choose|i: int, j: int|
            0 <= i < j < resources.len() && (#[trigger] resources[i]).resource.id == (
            #[trigger] resources[j]).resource.id;
        lemma_no_problem(state, task_id, resources, resources.len() as int, claims, j);
        assert(resources.take(j)[i] == resources[i]);
        assert(resource_ids(resources.take(j)).contains(resources[j].resource.id));
    }
    if others_resource(state, task_id, id) {
        let (task, i) = choose|task: Seq<char>, i: int|
            task != task_id && state.outputs_by_task_id.contains_key(task) && 0 <= i
                < state.outputs_by_task_id[task].resources.len() && (
            #[trigger] state.outputs_by_task_id[task].resources[i]).resource.id == id;
        let others = state.outputs_by_task_id.remove(task_id);
        assert(others.contains_key(task));
        assert(owned_ids()(others[task]).contains(id));
        assert(gathered(others, owned_ids()).contains(id));
    }
}

proof fn lemma_no_problem(
    state: RegistryInnerView,
    task_id: Seq<char>,
    resources: Seq<TaskResourceRecordView>,
    count: int,
    claims: nat,
    index: int,
)
    requires
        first_claim_problem(state, task_id, resources, count, claims) is None,
        0 <= index < count,
    ensures
        claim_problem(state, task_id, resources, index, claims) is None,
    decreases count,
{
    if index < count - 1 {
        lemma_no_problem(state, task_id, resources, count - 1, claims, index);
    }
}

/// New resources of its own are granted to a task if there is room for them: resources that nothing
/// knows of yet, and that stand in the list once.
pub proof fn law_new_resources_are_granted(
    state: RegistryInnerView,
    task_id: Seq<char>,
    resources: Seq<TaskResourceRecordView>,
    candidates: Set<Seq<char>>,
    limit: nat,
)
    requires
        !repeated(resources),
        forall|i: int|
            0 <= i < resources.len() ==> !live_resource(
                state,
                (#[trigger] resources[i]).resource.id,
            ) && !fetchable_resource(state, resources[i].resource.id) && !leased_resource(
                state,
                resources[i].resource.id,
            ) && !state.staged_resource_owner_counts.contains_key(resources[i].resource.id)
                && !state.pending_resource_cleanup_ids.contains(resources[i].resource.id)
                && !state.durable_resource_cleanup_ids.contains(resources[i].resource.id),
        projected_ids(state, task_id, candidates).len() <= limit,
    ensures
        claims_problem(state, task_id, resources, candidates, 0, limit) is None,
{
    lemma_granted(state, task_id, resources, resources.len() as int);
}

proof fn lemma_granted(
    state: RegistryInnerView,
    task_id: Seq<char>,
    resources: Seq<TaskResourceRecordView>,
    count: int,
)
    requires
        0 <= count <= resources.len(),
        !repeated(resources),
        forall|i: int|
            0 <= i < resources.len() ==> !live_resource(
                state,
                (#[trigger] resources[i]).resource.id,
            ) && !fetchable_resource(state, resources[i].resource.id) && !leased_resource(
                state,
                resources[i].resource.id,
            ) && !state.staged_resource_owner_counts.contains_key(resources[i].resource.id)
                && !state.pending_resource_cleanup_ids.contains(resources[i].resource.id)
                && !state.durable_resource_cleanup_ids.contains(resources[i].resource.id),
    ensures
        first_claim_problem(state, task_id, resources, count, 0) is None,
    decreases count,
{
    if count > 0 {
        lemma_granted(state, task_id, resources, count - 1);
        let index = count - 1;
        let id = resources[index].resource.id;
        lemma_places(state, id, Timestamp { seconds: 0, nanos: 0 });
        let earlier = resources.take(index);
        if resource_ids(earlier).contains(id) {
            let i = choose|i: int|
                0 <= i < earlier.len() && (#[trigger] earlier[i]).resource.id == id;
            assert(resources[i] == earlier[i]);
            assert(repeated(resources));
        }
        let owned = task_resources(state, task_id);
        lemma_record_named(owned, id);
        if record_named(owned, id) is Some {
            let i = choose|i: int| 0 <= i < owned.len() && (#[trigger] owned[i]).resource.id == id;
            assert(state.outputs_by_task_id[task_id].resources[i].resource.id == id);
            assert(live_resource(state, id));
        }
        let others = state.outputs_by_task_id.remove(task_id);
        if gathered(others, owned_ids()).contains(id) {
            let task = choose|task: Seq<char>| #[trigger]
                others.contains_key(task) && owned_ids()(others[task]).contains(id);
            assert(state.outputs_by_task_id.contains_key(task));
            assert(owned_ids()(state.outputs_by_task_id[task]).contains(id));
            assert(output_ids(state).contains(id));
        }
    }
}

proof fn lemma_record_named(resources: Seq<TaskResourceRecordView>, id: Seq<char>)
    ensures
        record_named(resources, id) matches Some(record) ==> record.resource.id == id
            && resources.contains(record),
        record_named(resources, id) is Some <==> exists|i: int|
            0 <= i < resources.len() && (#[trigger] resources[i]).resource.id == id,
    decreases resources.len(),
{
    if resources.len() > 0 {
        let shorter = resources.drop_last();
        lemma_record_named(shorter, id);
        assert(resources[resources.len() - 1] == resources.last());
        if let Some(record) = record_named(shorter, id) {
            let i = shorter.index_of(record);
            assert(resources[i] == record);
        }
        if exists|i: int| 0 <= i < shorter.len() && (#[trigger] shorter[i]).resource.id == id {
            let i = choose|i: int| 0 <= i < shorter.len() && (#[trigger] shorter[i]).resource.id
                == id;
            assert(resources[i] == shorter[i]);
        }
        if exists|i: int| 0 <= i < resources.len() && (#[trigger] resources[i]).resource.id == id {
            let i = choose|i: int|
                0 <= i < resources.len() && (#[trigger] resources[i]).resource.id == id;
            if i < resources.len() - 1 {
                assert(resources[i] == shorter[i]);
            }
        }
    }
}

/// Resources can be claimed for a task that is there, while their storage can be used or is still
/// to be looked through; an output can be committed only once it can be used.
pub proof fn law_when_resources_can_be_claimed(
    registry: BilibiliTaskRegistryView,
    id: Seq<char>,
)
    ensures
        staging_problem(registry, id) is None <==> (registry.resource_storage_available
            || registry.orphan_resource_scan_pending) && trimmed(id).len() > 0
            && registry.inner.tasks_by_id.contains_key(trimmed(id)),
        commit_problem(registry, id) is None <==> registry.resource_storage_available && trimmed(
            id,
        ).len() > 0 && registry.inner.tasks_by_id.contains_key(trimmed(id)),
{
}

/// A new output takes the place of the old one, and its summary that of the old summary. A resource
/// of the old one that is not in the new one is to be deleted, and no other is on that account.
pub proof fn law_a_new_output_takes_the_place_of_the_old(
    state: RegistryInnerView,
    id: Seq<char>,
    output: TaskOutputRecordView,
    summary: TaskOutputSummaryView,
    resource: Seq<char>,
)
    requires
        state.tasks_by_id.contains_key(id),
        state.tasks_by_id[id].id == id,
        state.outputs_by_task_id.contains_key(id),
    ensures
        ({
            let after = with_output(state, id, output, summary);
            let old_resources = state.outputs_by_task_id[id].resources;
            let had = exists|i: int|
                0 <= i < old_resources.len() && (#[trigger] old_resources[i]).resource.id
                    == resource;
            let has = exists|i: int|
                0 <= i < output.resources.len() && (#[trigger] output.resources[i]).resource.id
                    == resource;
            &&& after.outputs_by_task_id == state.outputs_by_task_id.insert(id, output)
            &&& after.tasks_by_id == state.tasks_by_id.insert(
                id,
                TaskView { output_summary: Some(summary), ..state.tasks_by_id[id] },
            )
            &&& after.pending_resource_cleanup_ids.contains(resource)
                <==> state.pending_resource_cleanup_ids.contains(resource) || (had && !has)
            &&& after.durable_resource_cleanup_ids == state.durable_resource_cleanup_ids
            &&& after.visible_outputs_by_task_id == state.visible_outputs_by_task_id
        }),
{
}

/// The resources of a task that have expired leave its output and are to be deleted; a task that
/// has none stays as it is.
pub proof fn law_expired_resources_are_retired(
    state: RegistryInnerView,
    retired: RetiredOutputView,
    now: Timestamp,
)
    requires
        state.tasks_by_id.contains_key(retired.task_id) ==> state.tasks_by_id[retired.task_id].id
            == retired.task_id,
    ensures
        ({
            let after = with_retired(state, retired, now);
            let id = retired.task_id;
            let some = exists|resource: Seq<char>| #[trigger]
                retired.retired_resource_ids.contains(resource);
            if some && state.tasks_by_id.contains_key(id) {
                &&& after.outputs_by_task_id == state.outputs_by_task_id.insert(id, retired.output)
                &&& after.tasks_by_id.contains_key(id)
                &&& after.tasks_by_id[id].output_summary == Some(retired.summary)
                &&& after.tasks_by_id[id].updated_at == Some(now)
                &&& after.tasks_by_id[id].state == state.tasks_by_id[id].state
                &&& after.pending_publications_by_id.contains_key(id)
                &&& after.pending_publications_by_id[id] == after.tasks_by_id[id]
                &&& forall|resource: Seq<char>| #[trigger]
                    after.pending_resource_cleanup_ids.contains(resource)
                        <==> state.pending_resource_cleanup_ids.contains(resource)
                        || retired.retired_resource_ids.contains(resource)
            } else {
                after == state
            }
        }),
{
    if !(exists|resource: Seq<char>| #[trigger] retired.retired_resource_ids.contains(resource)) {
        assert(retired.retired_resource_ids =~= Set::<Seq<char>>::empty());
    } else {
        let resource = choose|resource: Seq<char>| #[trigger]
            retired.retired_resource_ids.contains(resource);
        assert(retired.retired_resource_ids != Set::<Seq<char>>::empty());
    }
}

/// A resource whose body is in doubt stops the storage until that is looked at.
pub proof fn law_doubt_stops_the_storage(
    registry: BilibiliTaskRegistryView,
    id: Seq<char>,
    other: Seq<char>,
)
    ensures
        !in_doubt(registry, id).resource_storage_available,
        in_doubt(registry, id).inner.resource_storage_revalidation_ids.contains(other)
            <==> registry.inner.resource_storage_revalidation_ids.contains(other) || other == id,
        in_doubt(registry, id).inner.outputs_by_task_id == registry.inner.outputs_by_task_id,
        in_doubt(registry, id).persistence == registry.persistence,
{
}

/// Those of a list of resources that are among some identifiers, in the order of the list.
pub proof fn law_resources_among_others(
    resources: Seq<TaskResourceRecordView>,
    ids: Set<Seq<char>>,
    record: TaskResourceRecordView,
)
    ensures
        resources_among(resources, ids).contains(record) <==> resources.contains(record)
            && ids.contains(record.resource.id),
    decreases resources.len(),
{
    if resources.len() > 0 {
        let shorter = resources.drop_last();
        law_resources_among_others(shorter, ids, record);
        let rest = resources_among(shorter, ids);
        let all = resources_among(resources, ids);
        assert(resources[resources.len() - 1] == resources.last());
        if rest.contains(record) {
            let i = rest.index_of(record);
            assert(all[i] == record);
        }
        if shorter.contains(record) {
            let i = shorter.index_of(record);
            assert(resources[i] == record);
        }
        if resources.contains(record) {
            let i = resources.index_of(record);
            if i < shorter.len() {
                assert(shorter[i] == record);
            } else if ids.contains(record.resource.id) {
                assert(all[rest.len() as int] == record);
            }
        }
        if all.contains(record) {
            let i = all.index_of(record);
            if i < rest.len() {
                assert(rest[i] == record);
            }
        }
    }
}

/// The bodies that stay although no task has them: those that clients still see and that are not in
/// doubt.
pub proof fn law_stale_bodies_are_still_seen(state: RegistryInnerView, id: Seq<char>)
    ensures
        stale_bodies(state).contains(id) <==> seen_resource(state, id) && !live_resource(state, id)
            && !state.resource_storage_revalidation_ids.contains(id),
{
    lemma_places(state, id, Timestamp { seconds: 0, nanos: 0 });
}

/// An output that cannot be made is refused as invalid and changes nothing. One that can takes the
/// place of the old one; it has to be written down if it differs, if the last save was not durable
/// or if news of the task waits, and if that fails everything goes back to where it was.
pub proof fn law_an_output_is_replaced_or_refused(
    registry: BilibiliTaskRegistryView,
    state: RegistryInnerView,
    id: Seq<char>,
    made: Result<OutputReplacement, String>,
    result: Result<Step<Task>, Status>,
    after: RegistryInnerView,
)
    requires
        replacement(registry, state, id, made, result, after),
        state.tasks_by_id.contains_key(id),
        state.tasks_by_id[id].id == id,
    ensures
        match made {
            Err(error) => result matches Err(status) && status@.code == Code::InvalidArgument
                && status@.message == error@ && after == state,
            Ok(made) => {
                let task = TaskView {
                    output_summary: Some(made.summary@),
                    ..state.tasks_by_id[id]
                };
                let durable = registry.persistence matches Some(persistence)
                    && persistence.available;
                &&& after.tasks_by_id == state.tasks_by_id.insert(id, task)
                &&& after.outputs_by_task_id == state.outputs_by_task_id.insert(id, made.output@)
                &&& after.visible_outputs_by_task_id == state.visible_outputs_by_task_id
                &&& if state.outputs_by_task_id[id] != made.output@ || !durable
                    || state.pending_publications_by_id.contains_key(id) {
                    &&& result matches Ok(Step::Commit(done, terms)) && done@ == task
                        && terms@.durability_required && terms@.rollback == Some(
                        checkpoint_of(state),
                    ) && terms@.needed == Guarantee::Committed && !terms@.require_durable_commit
                    &&& after.pending_publications_by_id.contains_key(id)
                    &&& after.pending_publications_by_id[id] == task
                } else {
                    result matches Ok(Step::Done(done)) && done@ == task
                        && after.pending_publications_by_id == state.pending_publications_by_id
                }
            },
        },
{
}

/// The resources of several tasks that have expired are all to be deleted, and there is something
/// to write down if some task has lost one.
pub proof fn law_all_expired_resources_are_retired(
    state: RegistryInnerView,
    retired: Seq<RetiredOutputView>,
    now: Timestamp,
    index: int,
    resource: Seq<char>,
)
    requires
        0 <= index < retired.len(),
        state.tasks_by_id.contains_key(retired[index].task_id),
        retired[index].retired_resource_ids.contains(resource),
        forall|id: Seq<char>| #[trigger]
            state.tasks_by_id.contains_key(id) ==> state.tasks_by_id[id].id == id,
    ensures
        with_all_retired(state, retired, now).pending_resource_cleanup_ids.contains(resource),
        some_retired(state, retired),
{
    lemma_all_retired(state, retired, now, index, resource);
    assert(retired[index].retired_resource_ids != Set::<Seq<char>>::empty());
}

proof fn lemma_all_retired(
    state: RegistryInnerView,
    retired: Seq<RetiredOutputView>,
    now: Timestamp,
    index: int,
    resource: Seq<char>,
)
    requires
        0 <= index < retired.len(),
        state.tasks_by_id.contains_key(retired[index].task_id),
        retired[index].retired_resource_ids.contains(resource),
    ensures
        with_all_retired(state, retired, now).pending_resource_cleanup_ids.contains(resource),
    decreases retired.len(),
{
    let shorter = retired.drop_last();
    if index < shorter.len() {
        assert(shorter[index] == retired[index]);
        lemma_all_retired(state, shorter, now, index, resource);
    } else {
        assert(retired.last() == retired[index]);
        assert(retired[index].retired_resource_ids != Set::<Seq<char>>::empty());
        lemma_retiring_keeps_tasks(state, shorter, now, retired[index].task_id);
    }
}

proof fn lemma_retiring_keeps_tasks(
    state: RegistryInnerView,
    retired: Seq<RetiredOutputView>,
    now: Timestamp,
    id: Seq<char>,
)
    requires
        state.tasks_by_id.contains_key(id),
    ensures
        with_all_retired(state, retired, now).tasks_by_id.contains_key(id),
    decreases retired.len(),
{
    if retired.len() > 0 {
        lemma_retiring_keeps_tasks(state, retired.drop_last(), now, id);
    }
}

/// Where no resource has expired nothing changes.
pub proof fn law_nothing_is_retired_before_its_time(
    state: RegistryInnerView,
    retired: Seq<RetiredOutputView>,
    now: Timestamp,
)
    requires
        forall|i: int|
            0 <= i < retired.len() ==> (#[trigger] retired[i]).retired_resource_ids == Set::<
                Seq<char>,
            >::empty(),
    ensures
        with_all_retired(state, retired, now) == state,
        !some_retired(state, retired),
    decreases retired.len(),
{
    if retired.len() > 0 {
        let shorter = retired.drop_last();
        assert forall|i: int| 0 <= i < shorter.len() implies (
        #[trigger] shorter[i]).retired_resource_ids == Set::<Seq<char>>::empty() by {
            assert(shorter[i] == retired[i]);
        }
        law_nothing_is_retired_before_its_time(state, shorter, now);
        assert(retired[retired.len() - 1] == retired.last());
    }
}

/// A check, or a deletion, that failed is not overlooked, and only what passed, or was deleted,
/// counts as such.
pub proof fn law_failures_are_not_overlooked(
    checks: Seq<BodyCheck>,
    reports: Seq<BodyDeletionReport>,
    index: int,
    id: Seq<char>,
)
    ensures
        0 <= index < checks.len() && !checks[index].passed ==> some_check_failed(checks),
        0 <= index < checks.len() && checks[index].passed ==> passed_ids(checks).contains(
            checks[index].resource_id@,
        ),
        0 <= index < reports.len() && reports[index].deletion == BodyDeletion::Failed
            ==> some_deletion_failed(reports),
        0 <= index < reports.len() && reports[index].deletion == BodyDeletion::Deleted
            ==> deleted_ids(reports).contains(reports[index].resource_id@),
        (forall|i: int| 0 <= i < checks.len() ==> (#[trigger] checks[i]).passed)
            ==> !some_check_failed(checks),
        (forall|i: int|
            0 <= i < reports.len() ==> (#[trigger] reports[i]).deletion != BodyDeletion::Failed)
            ==> !some_deletion_failed(reports),
        (forall|i: int|
            0 <= i < checks.len() ==> !(#[trigger] checks[i]).passed || checks[i].resource_id@
                != id) ==> !passed_ids(checks).contains(id),
        (forall|i: int|
            0 <= i < reports.len() ==> (#[trigger] reports[i]).deletion != BodyDeletion::Deleted
                || reports[i].resource_id@ != id) ==> !deleted_ids(reports).contains(id),
{
}

/// What is claimed stays as long as the claim: nobody deletes the body of a resource that is being
/// made.
pub proof fn law_claimed_resources_keep_their_bodies(
    state: RegistryInnerView,
    ids: Set<Seq<char>>,
    now: Timestamp,
    id: Seq<char>,
)
    requires
        ids.contains(id),
    ensures
        body_owner_ids(with_claim(state, ids), now).contains(id),
        !cleanup_candidates(with_claim(state, ids), now).contains(id),
        with_claim(state, ids).outputs_by_task_id == state.outputs_by_task_id,
        with_claim(state, ids).durable_resource_cleanup_ids == state.durable_resource_cleanup_ids,
{
    let after = with_claim(state, ids);
    assert(after.staged_resource_owner_counts.contains_key(id));
    lemma_places(after, id, now);
}

} // verus!
