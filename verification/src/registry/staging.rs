//! New outputs of tasks. The resources of an output are claimed before their bodies are made, so
//! that nothing deletes them in between.

use crate::gather::gathered;
use crate::id_set::IdSet;
use crate::inner::checkpoint::{checkpoint_of, consistent, lookup, under_own_ids};
use crate::inner::publication::staged;
use crate::inner::resources::{
    claim_problem, claimed, claims_problem, first_claim_problem, lemma_claims_staged,
    lemma_first_problem_stays, lemma_record_named, owned_ids, record_named, released, reserved_ids,
    staged_count, task_resources, unexpired_leases, without_ids,
};
use crate::model::basics::Timestamp;
use crate::model::output::{
    TaskOutputRecord, TaskOutputRecordView, TaskOutputSummary, TaskOutputSummaryView,
    TaskResourceRecord, TaskResourceRecordView,
};
use crate::model::state::{
    RegistryInnerView, RegistryMutationCheckpoint, TaskPersistenceSnapshotView,
};
use crate::model::task::{Task, TaskView};
use crate::plain::Plain;
use crate::registry::{BilibiliTaskRegistry, BilibiliTaskRegistryView};
use crate::registry::commit::{
    CommitTerms, CommitTermsView, FollowUp, Guarantee, PersistenceCommitOutcome,
    ReconciledOutputView, Step, commits, law_durable_commit_shows_live, lemma_reconciled_all,
    lemma_reconciled_keeps, reconciled_all, settlement_problem,
};
use crate::requests::{id_problem, normalize_required_id, not_found, task_not_found, with_task};
use crate::status::{Code, Status, StatusView, refusal};
use crate::text::trimmed;
use crate::visible_output::{add_resource_ids, resource_ids};
use vstd::prelude::*;

verus! {

/// Resources that are claimed for a new output of a task.
pub struct StagedTaskOutputReplacement {
    pub task_id: String,
    pub resources: Vec<TaskResourceRecord>,
    pub resource_ids: IdSet,
    pub resource_body_creation_ids: IdSet,
}

/// Those of `resources` whose identifiers are in `ids`.
pub open spec fn resources_among(
    resources: Seq<TaskResourceRecordView>,
    ids: Set<Seq<char>>,
) -> Seq<TaskResourceRecordView>
    decreases resources.len(),
{
    if resources.len() == 0 {
        resources
    } else {
        let rest = resources_among(resources.drop_last(), ids);
        if ids.contains(resources.last().resource.id) {
            rest.push(resources.last())
        } else {
            rest
        }
    }
}

impl StagedTaskOutputReplacement {
    /// The claim is sound: it covers exactly its resources.
    pub open spec fn well_formed(self) -> bool {
        self.resource_ids@ == resource_ids(self.resources.deep_view())
    }

    /// The resources whose bodies are still to be made.
    pub fn resources_requiring_body_creation(&self) -> (wanted: Vec<TaskResourceRecord>)
        ensures
            wanted.deep_view() == resources_among(
                self.resources.deep_view(),
                self.resource_body_creation_ids@,
            ),
    {
        let ghost all = self.resources.deep_view();
        let ghost ids = self.resource_body_creation_ids@;
        let mut wanted: Vec<TaskResourceRecord> = Vec::new();
        proof {
            assert(all.take(0).len() == 0);
            assert(wanted.deep_view() =~= resources_among(all.take(0), ids));
        }
        for index in 0..self.resources.len()
            invariant
                all == self.resources.deep_view(),
                ids == self.resource_body_creation_ids@,
                wanted.deep_view() == resources_among(all.take(index as int), ids),
        {
            let record = &self.resources[index];
            let ghost before = wanted.deep_view();
            proof {
                assert(all.take(index + 1).drop_last() =~= all.take(index as int));
                assert(all.take(index + 1).last() == record@);
            }
            if self.resource_body_creation_ids.contains(&record.resource.id) {
                wanted.push(record.duplicate());
                proof {
                    assert(wanted.deep_view() =~= before.push(record@));
                }
            }
        }
        proof {
            assert(all.take(all.len() as int) =~= all);
        }
        wanted
    }
}

pub open spec fn storage_unavailable() -> StatusView {
    refusal(Code::FailedPrecondition, "Task resource storage is unavailable."@)
}

fn resource_storage_unavailable() -> (status: Status)
    ensures
        status@ == storage_unavailable(),
{
    Status::new(Code::FailedPrecondition, "Task resource storage is unavailable.")
}

/// `state` without the leases that have ended.
pub open spec fn without_ended_leases(state: RegistryInnerView, instant: u64) -> RegistryInnerView {
    RegistryInnerView {
        retained_resource_snapshots: unexpired_leases(state.retained_resource_snapshots, instant),
        ..state
    }
}

/// `state` with the resources in `ids` claimed once more.
pub open spec fn with_claim(state: RegistryInnerView, ids: Set<Seq<char>>) -> RegistryInnerView {
    RegistryInnerView {
        staged_resource_owner_counts: claimed(state.staged_resource_owner_counts, ids),
        ..state
    }
}

/// `state` with one claim of the resources in `ids` given up.
pub open spec fn without_claim(
    state: RegistryInnerView,
    ids: Set<Seq<char>>,
) -> RegistryInnerView {
    RegistryInnerView {
        staged_resource_owner_counts: released(state.staged_resource_owner_counts, ids),
        ..state
    }
}

/// The resources in `ids` that nothing accounts for once the claim of them is given up.
pub open spec fn claim_orphans(state: RegistryInnerView, ids: Set<Seq<char>>) -> Set<Seq<char>> {
    ids.difference(reserved_ids(without_claim(state, ids)))
}

/// `state` with the claim of the resources in `ids` given up, and the bodies that nothing else
/// accounts for to be deleted.
pub open spec fn with_claim_rejected(
    state: RegistryInnerView,
    ids: Set<Seq<char>>,
) -> RegistryInnerView {
    RegistryInnerView {
        durable_resource_cleanup_ids: state.durable_resource_cleanup_ids.union(
            claim_orphans(state, ids),
        ),
        ..without_claim(state, ids)
    }
}

/// What is wrong with a request to claim resources, before the claim itself is looked at.
pub open spec fn staging_problem(
    registry: BilibiliTaskRegistryView,
    id: Seq<char>,
) -> Option<StatusView> {
    if !registry.resource_storage_available && !registry.orphan_resource_scan_pending {
        Some(storage_unavailable())
    } else if id_problem(id) is Some {
        id_problem(id)
    } else if !registry.inner.tasks_by_id.contains_key(trimmed(id)) {
        Some(not_found())
    } else {
        None
    }
}

/// What is wrong with committing a claimed output, before the claim itself is looked at.
pub open spec fn commit_problem(
    registry: BilibiliTaskRegistryView,
    task_id: Seq<char>,
) -> Option<StatusView> {
    if !registry.resource_storage_available {
        Some(storage_unavailable())
    } else if id_problem(task_id) is Some {
        id_problem(task_id)
    } else if !registry.inner.tasks_by_id.contains_key(trimmed(task_id)) {
        Some(not_found())
    } else {
        None
    }
}

/// A new output for a task, and its summary.
pub struct OutputReplacement {
    pub output: TaskOutputRecord,
    pub summary: TaskOutputSummary,
}

/// The resources that the task `id` owns and would not own any more.
pub open spec fn retired_ids(
    state: RegistryInnerView,
    id: Seq<char>,
    output: TaskOutputRecordView,
) -> Set<Seq<char>> {
    resource_ids(task_resources(state, id)).difference(resource_ids(output.resources))
}

/// `state` with the output of the task `id` replaced. What the task does not own any more is to be
/// deleted.
pub open spec fn with_output(
    state: RegistryInnerView,
    id: Seq<char>,
    output: TaskOutputRecordView,
    summary: TaskOutputSummaryView,
) -> RegistryInnerView {
    let changed = state.outputs_by_task_id[id] != output;
    RegistryInnerView {
        pending_resource_cleanup_ids: if changed {
            state.pending_resource_cleanup_ids.union(retired_ids(state, id, output))
        } else {
            state.pending_resource_cleanup_ids
        },
        outputs_by_task_id: state.outputs_by_task_id.insert(id, output),
        ..with_task(state, TaskView { output_summary: Some(summary), ..state.tasks_by_id[id] })
    }
}

/// The answer to a request to commit a claimed output, once the claim has been found sound.
pub open spec fn replacement(
    registry: BilibiliTaskRegistryView,
    state: RegistryInnerView,
    id: Seq<char>,
    replacement: Result<OutputReplacement, String>,
    result: Result<Step<Task>, Status>,
    after: RegistryInnerView,
) -> bool {
    match replacement {
        Err(error) => result matches Err(status) && status@ == refusal(
            Code::InvalidArgument,
            error@,
        ) && after == state,
        Ok(replacement) => {
            let replaced = with_output(state, id, replacement.output@, replacement.summary@);
            let task = replaced.tasks_by_id[id];
            if state.outputs_by_task_id[id] != replacement.output@
                || !registry.persistence_available()
                || state.pending_publications_by_id.contains_key(id) {
                result matches Ok(Step::Commit(done, terms)) && done@ == task && terms@
                    == output_terms(state) && after == staged(replaced, task)
            } else {
                result matches Ok(Step::Done(done)) && done@ == task && after == replaced
            }
        },
    }
}

/// The terms of replacing an output in `state`.
pub open spec fn output_terms(state: RegistryInnerView) -> CommitTermsView {
    CommitTermsView {
        durability_required: true,
        rollback: Some(checkpoint_of(state)),
        require_durable_commit: false,
        needed: Guarantee::Committed,
        refusal: "Task output could not be persisted durably."@,
    }
}

fn ids_of_resources(resources: &Vec<TaskResourceRecord>) -> (ids: IdSet)
    ensures
        ids@ == resource_ids(resources.deep_view()),
{
    let mut ids = IdSet::new();
    add_resource_ids(&mut ids, resources);
    proof {
        assert(ids@ =~= resource_ids(resources.deep_view()));
    }
    ids
}

impl BilibiliTaskRegistry {
    fn task_resource_ids(&self, task_id: &String) -> (ids: IdSet)
        ensures
            ids@ == resource_ids(task_resources(self@.inner, task_id@)),
    {
        match self.inner.outputs_by_task_id.get(task_id) {
            Some(output) => ids_of_resources(&output.resources),
            None => {
                let ids = IdSet::new();
                proof {
                    assert(ids@ =~= resource_ids(Seq::empty()));
                }
                ids
            },
        }
    }

    /// Claims `resources` for a new output of a task. `instant` is a reading of the clock by which
    /// leases end. Bodies may be made only while the claim is held.
    pub fn stage_task_output_replacement(
        &mut self,
        id: &str,
        resources: Vec<TaskResourceRecord>,
        instant: u64,
    ) -> (result: Result<StagedTaskOutputReplacement, Status>)
        requires
            old(self)@.well_formed(),
        ensures
            final(self)@.well_formed(),
            final(self)@.continues(old(self)@),
            final(self)@ == old(self)@.with_inner(final(self)@.inner),
            match staging_problem(old(self)@, id@) {
                Some(problem) => result matches Err(status) && status@ == problem && final(self)@
                    == old(self)@,
                None => {
                    let state = without_ended_leases(old(self)@.inner, instant);
                    let ids = resource_ids(resources.deep_view());
                    match claims_problem(
                        state,
                        trimmed(id@),
                        resources.deep_view(),
                        ids,
                        0,
                        old(self)@.max_registered_resources as nat,
                    ) {
                        Some(problem) => result matches Err(status) && status@ == problem
                            && final(self)@.inner == state,
                        None => (result matches Ok(staged) && staged.well_formed()
                            && staged.task_id@ == trimmed(id@) && staged.resources == resources
                            && staged.resource_body_creation_ids@ == ids.difference(
                            resource_ids(task_resources(state, trimmed(id@))),
                        )) && final(self)@.inner == with_claim(state, ids),
                    }
                },
            },
    {
        if !self.resource_storage_available && !self.orphan_resource_scan_pending {
            return Err(resource_storage_unavailable());
        }
        let normalized_id = match normalize_required_id(id) {
            Ok(normalized_id) => normalized_id,
            Err(status) => return Err(status),
        };
        let candidate_resource_ids = ids_of_resources(&resources);
        if !self.inner.tasks_by_id.contains_key(&normalized_id) {
            return Err(task_not_found());
        }
        self.inner.prune_expired_resource_snapshots(instant);
        let ghost state = self@.inner;
        if let Err(status) = self.inner.validate_task_output_resource_claims(
            &normalized_id,
            &resources,
            &candidate_resource_ids,
            false,
            self.max_registered_resources,
        ) {
            return Err(status);
        }
        let owned = self.task_resource_ids(&normalized_id);
        let resource_body_creation_ids = without_ids(&candidate_resource_ids, &owned);
        proof {
            lemma_claims_staged(
                state,
                normalized_id@,
                resources.deep_view(),
                resources@.len() as int,
                0,
            );
            assert forall|resource_id: Seq<char>| #[trigger]
                state.staged_resource_owner_counts.contains_key(resource_id)
                    && candidate_resource_ids@.contains(resource_id) implies false by {
                let i = choose|i: int|
                    0 <= i < resources.deep_view().len() && (
                    #[trigger] resources.deep_view()[i]).resource.id == resource_id;
                assert(staged_count(
                    state,
                    resources.deep_view()[i].resource.id,
                ) == 0);
            }
        }
        self.inner.claim_staged_resource_owners(&candidate_resource_ids);
        Ok(
            StagedTaskOutputReplacement {
                task_id: normalized_id,
                resources,
                resource_ids: candidate_resource_ids,
                resource_body_creation_ids,
            },
        )
    }

    /// Gives up a claim if the storage has failed in the meantime.
    pub fn confirm_staged_task_output(
        &mut self,
        staged: StagedTaskOutputReplacement,
    ) -> (result: Result<StagedTaskOutputReplacement, Status>)
        requires
            old(self)@.well_formed(),
            staged.resource_ids@.subset_of(
                old(self)@.inner.staged_resource_owner_counts.dom(),
            ),
        ensures
            final(self)@.well_formed(),
            final(self)@.continues(old(self)@),
            if old(self)@.resource_storage_available {
                result == Ok::<_, Status>(staged) && final(self)@ == old(self)@
            } else {
                (result matches Err(status) && status@ == storage_unavailable()) && final(self)@
                    == old(self)@.with_inner(
                    without_claim(old(self)@.inner, staged.resource_ids@),
                )
            },
    {
        if self.resource_storage_available {
            return Ok(staged);
        }
        self.inner.release_staged_resource_owners(&staged.resource_ids);
        Err(resource_storage_unavailable())
    }

    /// Commits a claimed output. `new_output` was made from the current output of the task and the
    /// claimed resources, or says why there can be none.
    pub fn commit_staged_task_output(
        &mut self,
        claim: &StagedTaskOutputReplacement,
        new_output: Result<OutputReplacement, String>,
        instant: u64,
    ) -> (result: Result<Step<Task>, Status>)
        requires
            old(self)@.well_formed(),
        ensures
            final(self)@.well_formed(),
            final(self)@.continues(old(self)@),
            final(self)@ == old(self)@.with_inner(final(self)@.inner),
            match commit_problem(old(self)@, claim.task_id@) {
                Some(problem) => result matches Err(status) && status@ == problem && final(self)@
                    == old(self)@,
                None => {
                    let state = without_ended_leases(old(self)@.inner, instant);
                    match claims_problem(
                        state,
                        trimmed(claim.task_id@),
                        claim.resources.deep_view(),
                        claim.resource_ids@,
                        1,
                        old(self)@.max_registered_resources as nat,
                    ) {
                        Some(problem) => result matches Err(status) && status@ == problem
                            && final(self)@.inner == state,
                        None => replacement(
                            old(self)@,
                            state,
                            trimmed(claim.task_id@),
                            new_output,
                            result,
                            final(self)@.inner,
                        ),
                    }
                },
            },
    {
        if !self.resource_storage_available {
            return Err(resource_storage_unavailable());
        }
        let id = match normalize_required_id(claim.task_id.as_str()) {
            Ok(id) => id,
            Err(status) => return Err(status),
        };
        if !self.inner.tasks_by_id.contains_key(&id) {
            return Err(task_not_found());
        }
        self.inner.prune_expired_resource_snapshots(instant);
        if let Err(status) = self.inner.validate_task_output_resource_claims(
            &id,
            &claim.resources,
            &claim.resource_ids,
            true,
            self.max_registered_resources,
        ) {
            return Err(status);
        }
        let new_output = match new_output {
            Ok(new_output) => new_output,
            Err(error) => return Err(Status::new(Code::InvalidArgument, error.as_str())),
        };
        let ghost state = self@.inner;
        let checkpoint = RegistryMutationCheckpoint::capture(&self.inner);
        let changed: bool = match self.inner.outputs_by_task_id.get(&id) {
            Some(previous) => !previous.same_as(&new_output.output),
            None => true,
        };
        if changed {
            let owned = self.task_resource_ids(&id);
            let kept = ids_of_resources(&new_output.output.resources);
            let retired = without_ids(&owned, &kept);
            self.inner.pending_resource_cleanup_ids.extend(&retired);
        }
        self.inner.outputs_by_task_id.insert(id.clone(), new_output.output);
        let mut task = match self.inner.tasks_by_id.get(&id) {
            Some(task) => task.duplicate(),
            None => return Err(task_not_found()),
        };
        task.output_summary = Some(new_output.summary);
        self.inner.put_task(task.duplicate());
        let requires_persistence: bool = changed || !self.persistence_available()
            || self.inner.pending_publications_by_id.contains_key(&id);
        proof {
            assert(self@.inner.tasks_by_id.dom() =~= state.tasks_by_id.dom());
            assert(self@.inner.outputs_by_task_id.dom() =~= state.outputs_by_task_id.dom());
            assert(self@.inner =~= with_output(
                state,
                id@,
                new_output.output@,
                new_output.summary@,
            ));
        }
        if !requires_persistence {
            return Ok(Step::Done(task));
        }
        self.inner.stage_publication(task.duplicate());
        Ok(
            Step::Commit(
                task,
                CommitTerms {
                    durability_required: true,
                    rollback: Some(checkpoint),
                    require_durable_commit: false,
                    needed: Guarantee::Committed,
                    refusal: "Task output could not be persisted durably.",
                },
            ),
        )
    }

    /// Gives up a claim whose output was committed.
    pub fn release_staged_task_output_resources(&mut self, ids: &IdSet)
        requires
            old(self)@.well_formed(),
            ids@.subset_of(old(self)@.inner.staged_resource_owner_counts.dom()),
        ensures
            final(self)@.well_formed(),
            final(self)@.continues(old(self)@),
            final(self)@ == old(self)@.with_inner(without_claim(old(self)@.inner, ids@)),
    {
        self.inner.release_staged_resource_owners(ids);
    }

    /// Gives up a claim whose output was not committed. Bodies that nothing else accounts for are
    /// to be deleted.
    pub fn reject_staged_task_output_resources(&mut self, ids: &IdSet) -> (follow_up: FollowUp)
        requires
            old(self)@.well_formed(),
            ids@.subset_of(old(self)@.inner.staged_resource_owner_counts.dom()),
        ensures
            final(self)@.well_formed(),
            final(self)@.continues(old(self)@),
            final(self)@ == old(self)@.with_inner(with_claim_rejected(old(self)@.inner, ids@)),
            follow_up == if claim_orphans(old(self)@.inner, ids@) =~= Set::empty()
                || old(self)@.orphan_resource_scan_pending {
                FollowUp::Nothing
            } else {
                FollowUp::DeleteRetiredBodies
            },
    {
        self.inner.release_staged_resource_owners(ids);
        let cleanup_needed: bool = self.inner.reserve_unowned_resource_cleanup(ids);
        if cleanup_needed && !self.orphan_resource_scan_pending {
            FollowUp::DeleteRetiredBodies
        } else {
            FollowUp::Nothing
        }
    }
}

/// Claiming resources and giving the claim up again leaves the counts as they were.
pub proof fn law_giving_up_a_claim_undoes_it(state: RegistryInnerView, ids: Set<Seq<char>>)
    requires
        consistent(state),
        forall|id: Seq<char>| #[trigger]
            state.staged_resource_owner_counts.contains_key(id)
                ==> state.staged_resource_owner_counts[id] < usize::MAX,
    ensures
        released(claimed(state.staged_resource_owner_counts, ids), ids)
            == state.staged_resource_owner_counts,
{
    let counts = state.staged_resource_owner_counts;
    assert(released(claimed(counts, ids), ids) =~= counts);
}

/// While a claim is held, its resources cannot be claimed again, neither for the same task nor for
/// another: the first of them is refused as registered already.
pub proof fn law_claimed_resources_cannot_be_claimed_again(
    state: RegistryInnerView,
    task_id: Seq<char>,
    resources: Seq<TaskResourceRecordView>,
    limit: nat,
    later: RegistryInnerView,
    other_task_id: Seq<char>,
    later_limit: nat,
)
    requires
        resources.len() > 0,
        claims_problem(state, task_id, resources, resource_ids(resources), 0, limit) is None,
        later.outputs_by_task_id == state.outputs_by_task_id,
        forall|id: Seq<char>| #[trigger]
            resource_ids(resources).contains(id) ==> staged_count(later, id) > 0,
    ensures
        claims_problem(
            later,
            other_task_id,
            resources,
            resource_ids(resources),
            0,
            later_limit,
        ) == Some(
            refusal(
                Code::AlreadyExists,
                "Task resource id is already registered: "@ + resources[0].resource.id + "."@,
            ),
        ),
{
    let id = resources[0].resource.id;
    let count = resources.len() as int;
    assert(resource_ids(resources).contains(id));
    if first_claim_problem(state, task_id, resources, 1, 0) is Some {
        lemma_first_problem_stays(state, task_id, resources, 1, count, 0);
    }
    reveal_with_fuel(first_claim_problem, 2);
    assert(claim_problem(state, task_id, resources, 0, 0) is None);
    if other_task_id != task_id {
        lemma_record_named(task_resources(later, other_task_id), id);
        if record_named(task_resources(later, other_task_id), id) is Some {
            let others = state.outputs_by_task_id.remove(task_id);
            assert(others.contains_key(other_task_id));
            assert(gathered(others, owned_ids()).contains(id));
        }
    }
    lemma_first_problem_stays(later, other_task_id, resources, 1, count, 0);
}

/// The resources of a claim whose bodies are still to be made are exactly those that the task does
/// not own yet.
pub proof fn law_bodies_are_made_of_new_resources(
    state: RegistryInnerView,
    task_id: Seq<char>,
    resources: Seq<TaskResourceRecordView>,
    record: TaskResourceRecordView,
)
    ensures
        resources_among(
            resources,
            resource_ids(resources).difference(resource_ids(task_resources(state, task_id))),
        ).contains(record) <==> resources.contains(record) && !resource_ids(
            task_resources(state, task_id),
        ).contains(record.resource.id),
{
    let ids = resource_ids(resources).difference(resource_ids(task_resources(state, task_id)));
    lemma_resources_among(resources, ids, record);
    if resources.contains(record) {
        let i = choose|i: int| 0 <= i < resources.len() && resources[i] == record;
        assert(resources[i].resource.id == record.resource.id);
    }
}

proof fn lemma_resources_among(
    resources: Seq<TaskResourceRecordView>,
    ids: Set<Seq<char>>,
    record: TaskResourceRecordView,
)
    ensures
        resources_among(resources, ids).contains(record) <==> resources.contains(record)
            && ids.contains(record.resource.id),
    decreases resources.len(),
{
    if resources.len() > 0 {
        let rest = resources.drop_last();
        lemma_resources_among(rest, ids, record);
        assert(resources =~= rest.push(resources.last()));
        lemma_push_contains(rest, resources.last(), record);
        lemma_push_contains(resources_among(rest, ids), resources.last(), record);
    } else {
        assert(!resources.contains(record));
    }
}

proof fn lemma_push_contains(
    records: Seq<TaskResourceRecordView>,
    last: TaskResourceRecordView,
    record: TaskResourceRecordView,
)
    ensures
        records.push(last).contains(record) <==> records.contains(record) || record == last,
{
    if records.contains(record) {
        let i = choose|i: int| 0 <= i < records.len() && records[i] == record;
        assert(records.push(last)[i] == record);
    }
    assert(records.push(last)[records.len() as int] == last);
    if records.push(last).contains(record) && record != last {
        let i = choose|i: int|
            0 <= i < records.push(last).len() && records.push(last)[i] == record;
        assert(records[i] == record);
    }
}

/// Committing an output is answered with the task and the summary of the new output. If the output
/// is the one that the task has, the last save was durable and no news of the task is waiting,
/// there is nothing to commit: nothing is written down, and no news is told.
pub proof fn law_unchanged_output_needs_no_commit(
    registry: BilibiliTaskRegistryView,
    state: RegistryInnerView,
    id: Seq<char>,
    new_output: OutputReplacement,
    result: Result<Step<Task>, Status>,
    after: RegistryInnerView,
)
    requires
        state.tasks_by_id.contains_key(id),
        under_own_ids(state.tasks_by_id),
        state.outputs_by_task_id.contains_key(id),
        replacement(registry, state, id, Ok(new_output), result, after),
    ensures
        result is Ok,
        after.tasks_by_id[id].output_summary == Some(new_output.summary@),
        result matches Ok(Step::Commit(task, _)) ==> task@ == after.tasks_by_id[id],
        result matches Ok(Step::Done(_)) <==> state.outputs_by_task_id[id] == new_output.output@
            && registry.persistence_available() && !state.pending_publications_by_id.contains_key(
            id,
        ),
        result matches Ok(Step::Done(task)) ==> {
            &&& task@ == after.tasks_by_id[id]
            &&& after.outputs_by_task_id == state.outputs_by_task_id
            &&& after.pending_publications_by_id == state.pending_publications_by_id
            &&& after.visible_tasks_by_id == state.visible_tasks_by_id
            &&& after.visible_outputs_by_task_id == state.visible_outputs_by_task_id
            &&& after.persistence_generation == state.persistence_generation
        },
{
}

/// Clients see the task `id` and its output as they are.
pub open spec fn shows_live(state: RegistryInnerView, id: Seq<char>) -> bool {
    &&& state.visible_tasks_by_id.contains_key(id)
    &&& state.visible_outputs_by_task_id.contains_key(id)
    &&& state.visible_tasks_by_id[id] == state.tasks_by_id[id]
    &&& state.visible_outputs_by_task_id[id].record == state.outputs_by_task_id[id]
}

/// `before` and `after` hold the same of the task `id`, live and as clients see it.
pub open spec fn same_of_task(
    before: RegistryInnerView,
    after: RegistryInnerView,
    id: Seq<char>,
) -> bool {
    &&& lookup(before.tasks_by_id, id) == lookup(after.tasks_by_id, id)
    &&& lookup(before.outputs_by_task_id, id) == lookup(after.outputs_by_task_id, id)
    &&& lookup(before.visible_tasks_by_id, id) == lookup(after.visible_tasks_by_id, id)
    &&& lookup(before.visible_outputs_by_task_id, id) == lookup(
        after.visible_outputs_by_task_id,
        id,
    )
}

/// Nothing more happens to the task `id` after `before` until `later` is saved durably, which leaves
/// `after`; nor is the task forgotten.
pub open spec fn saved_unrelatedly(
    before: RegistryInnerView,
    id: Seq<char>,
    later: BilibiliTaskRegistryView,
    outputs: Seq<ReconciledOutputView>,
    now: Timestamp,
    snapshot: Option<TaskPersistenceSnapshotView>,
    terms: CommitTermsView,
    after: RegistryInnerView,
) -> bool {
    &&& later.well_formed()
    &&& same_of_task(before, later.inner, id)
    &&& same_of_task(later.inner, reconciled_all(later.inner, outputs), id)
    &&& commits(
        later,
        outputs,
        true,
        now,
        snapshot,
        PersistenceCommitOutcome::Durable,
        terms,
        after,
    )
    &&& after.tasks_by_id.contains_key(id)
}

/// An output that could not be saved is refused as unavailable, and clients never see it: they see
/// what they saw, and a later save of something else shows them the same task and output again.
pub proof fn law_refused_output_is_never_shown(
    registry: BilibiliTaskRegistryView,
    instant: u64,
    id: Seq<char>,
    new_output: OutputReplacement,
    result: Result<Step<Task>, Status>,
    changed: RegistryInnerView,
    outputs: Seq<ReconciledOutputView>,
    outputs_sound: bool,
    committed_at: Timestamp,
    snapshot: Option<TaskPersistenceSnapshotView>,
    refused: RegistryInnerView,
    later: BilibiliTaskRegistryView,
    later_outputs: Seq<ReconciledOutputView>,
    later_now: Timestamp,
    later_snapshot: Option<TaskPersistenceSnapshotView>,
    later_terms: CommitTermsView,
    after: RegistryInnerView,
)
    requires
        registry.inner.tasks_by_id.contains_key(id),
        replacement(
            registry,
            without_ended_leases(registry.inner, instant),
            id,
            Ok(new_output),
            result,
            changed,
        ),
        result matches Ok(Step::Commit(_, terms)) && commits(
            registry.with_inner(changed),
            outputs,
            outputs_sound,
            committed_at,
            snapshot,
            PersistenceCommitOutcome::Rejected,
            terms@,
            refused,
        ),
        shows_live(registry.inner, id),
        saved_unrelatedly(
            refused,
            id,
            later,
            later_outputs,
            later_now,
            later_snapshot,
            later_terms,
            after,
        ),
    ensures
        result matches Ok(Step::Commit(_, terms)) && settlement_problem(
            terms@,
            PersistenceCommitOutcome::Rejected,
        ) == Some(
            refusal(Code::Unavailable, "Task output could not be persisted durably."@),
        ),
        refused.tasks_by_id == registry.inner.tasks_by_id,
        refused.outputs_by_task_id == registry.inner.outputs_by_task_id,
        refused.visible_tasks_by_id == registry.inner.visible_tasks_by_id,
        refused.visible_outputs_by_task_id == registry.inner.visible_outputs_by_task_id,
        after.visible_tasks_by_id.contains_key(id),
        after.visible_tasks_by_id[id] == registry.inner.visible_tasks_by_id[id],
        after.visible_outputs_by_task_id.contains_key(id),
        after.visible_outputs_by_task_id[id] == registry.inner.visible_outputs_by_task_id[id],
{
    lemma_reconciled_keeps(changed, outputs);
    law_durable_commit_shows_live(
        later,
        later_outputs,
        later_now,
        later_snapshot,
        later_terms,
        after,
    );
    lemma_reconciled_all(later.inner, later_outputs);
    assert(after.outputs_by_task_id.contains_key(id));
}

/// All that holds of committing a claimed output. If the output is the one that the task has, the
/// last save was durable and no news of the task is waiting, the answer is the task, and nothing is
/// saved or told. A save that is rejected is answered as unavailable, and clients see what they saw,
/// also after a later save of something else. Otherwise the answer is the task with the summary of
/// the new output.
pub proof fn law_output_commits(
    registry: BilibiliTaskRegistryView,
    task_id: Seq<char>,
    instant: u64,
    new_output: OutputReplacement,
    result: Result<Step<Task>, Status>,
    changed: RegistryInnerView,
    outputs: Seq<ReconciledOutputView>,
    outputs_sound: bool,
    committed_at: Timestamp,
    snapshot: Option<TaskPersistenceSnapshotView>,
    outcome: PersistenceCommitOutcome,
    committed: RegistryInnerView,
    later: BilibiliTaskRegistryView,
    later_outputs: Seq<ReconciledOutputView>,
    later_now: Timestamp,
    later_snapshot: Option<TaskPersistenceSnapshotView>,
    later_terms: CommitTermsView,
    after: RegistryInnerView,
)
    requires
        registry.well_formed(),
        commit_problem(registry, task_id) is None,
        replacement(
            registry,
            without_ended_leases(registry.inner, instant),
            trimmed(task_id),
            Ok(new_output),
            result,
            changed,
        ),
        result matches Ok(Step::Commit(_, terms)) ==> commits(
            registry.with_inner(changed),
            outputs,
            outputs_sound,
            committed_at,
            snapshot,
            outcome,
            terms@,
            committed,
        ),
    ensures
        ({
            let before = registry.inner;
            let id = trimmed(task_id);
            match result {
                Ok(Step::Done(task)) => {
                    &&& before.outputs_by_task_id[id] == new_output.output@
                    &&& registry.persistence_available()
                    &&& !before.pending_publications_by_id.contains_key(id)
                    &&& task@.output_summary == Some(new_output.summary@)
                    &&& changed.outputs_by_task_id == before.outputs_by_task_id
                    &&& changed.pending_publications_by_id == before.pending_publications_by_id
                    &&& changed.visible_tasks_by_id == before.visible_tasks_by_id
                    &&& changed.visible_outputs_by_task_id == before.visible_outputs_by_task_id
                    &&& changed.persistence_generation == before.persistence_generation
                },
                Ok(Step::Commit(task, terms)) => {
                    &&& before.outputs_by_task_id[id] != new_output.output@
                        || !registry.persistence_available()
                        || before.pending_publications_by_id.contains_key(id)
                    &&& task@.output_summary == Some(new_output.summary@)
                    &&& settlement_problem(terms@, outcome) == if outcome.committed() {
                        None
                    } else {
                        Some(
                            refusal(
                                Code::Unavailable,
                                "Task output could not be persisted durably."@,
                            ),
                        )
                    }
                    &&& outcome == PersistenceCommitOutcome::Rejected ==> {
                        &&& committed.visible_tasks_by_id == before.visible_tasks_by_id
                        &&& committed.visible_outputs_by_task_id
                            == before.visible_outputs_by_task_id
                        &&& shows_live(before, id) && saved_unrelatedly(
                            committed,
                            id,
                            later,
                            later_outputs,
                            later_now,
                            later_snapshot,
                            later_terms,
                            after,
                        ) ==> lookup(after.visible_tasks_by_id, id) == lookup(
                            before.visible_tasks_by_id,
                            id,
                        ) && lookup(after.visible_outputs_by_task_id, id) == lookup(
                            before.visible_outputs_by_task_id,
                            id,
                        )
                    }
                },
                _ => false,
            }
        }),
{
    let id = trimmed(task_id);
    law_unchanged_output_needs_no_commit(
        registry,
        without_ended_leases(registry.inner, instant),
        id,
        new_output,
        result,
        changed,
    );
    lemma_reconciled_keeps(changed, outputs);
    if result matches Ok(Step::Commit(_, _)) && outcome == PersistenceCommitOutcome::Rejected
        && shows_live(registry.inner, id) && saved_unrelatedly(
        committed,
        id,
        later,
        later_outputs,
        later_now,
        later_snapshot,
        later_terms,
        after,
    ) {
        law_refused_output_is_never_shown(
            registry,
            instant,
            id,
            new_output,
            result,
            changed,
            outputs,
            outputs_sound,
            committed_at,
            snapshot,
            committed,
            later,
            later_outputs,
            later_now,
            later_snapshot,
            later_terms,
            after,
        );
    }
}

} // verus!
