//! The bodies of resources: served, leased, checked, deleted.

use crate::gather::{gathered, lemma_gathered_grows};
use crate::id_set::{IdSet, lemma_take_to_set};
use crate::identifiers::{new_id, random_with_prefix};
use crate::inner::checkpoint::{checkpoint_of, consistent};
use crate::inner::publication::staged;
use crate::inner::resources::{
    body_owner_ids, claim_problem, claims_problem, first_claim_problem, leased_ids,
    lemma_claims_staged, live_leased_ids, output_ids, owned_ids, projected_ids, shown_ids,
    staged_count, task_resources, unexpired_ids, without_ids,
};
use crate::model::basics::Timestamp;
use crate::model::output::{
    CacheResourceRefView, TaskOutputRecord, TaskOutputRecordView, TaskOutputSummary,
    TaskOutputSummaryView, TaskResourceRecord, TaskResourceRecordView,
};
use crate::model::state::{RegistryInner, RegistryInnerView, RegistryMutationCheckpoint};
use crate::model::task::TaskView;
use crate::model::visible::{
    RetainedTaskResourceSnapshot, RetainedTaskResourceSnapshotView, TaskOutputSnapshot,
    TaskOutputSnapshotView, VisibleTaskOutput, VisibleTaskOutputView,
};
use crate::plain::Plain;
use crate::registry::{BilibiliTaskRegistry, BilibiliTaskRegistryView};
use crate::registry::commit::{CommitTerms, Guarantee, kept};
use crate::registry::staging::{
    claim_orphans, law_bodies_are_made_of_new_resources,
    law_claimed_resources_cannot_be_claimed_again, resources_among, staging_problem, with_claim,
    with_claim_rejected, without_ended_leases,
};
use crate::requests::{id_problem, normalize_required_id, not_found, task_not_found, with_task};
use crate::status::{Code, Status, refusal};
use crate::table::Table;
use crate::text::{ascii_lower, normalize_option_string, trimmed};
use crate::timing::{expired, is_expired};
use crate::visible_output::resource_ids;
use vstd::prelude::*;

verus! {

/// Some visible output offers the resource `id` as `record`.
pub open spec fn offered_visibly(
    outputs: Map<Seq<char>, VisibleTaskOutputView>,
    id: Seq<char>,
    record: TaskResourceRecordView,
) -> bool {
    exists|key: Seq<char>| #[trigger]
        outputs.contains_key(key) && outputs[key].available_resources_by_id.contains_key(id)
            && outputs[key].available_resources_by_id[id] == record
}

/// Some lease offers the resource `id` as `record`.
pub open spec fn offered_by_lease(
    leases: Map<Seq<char>, RetainedTaskResourceSnapshotView>,
    id: Seq<char>,
    record: TaskResourceRecordView,
) -> bool {
    exists|key: Seq<char>| #[trigger]
        leases.contains_key(key) && leases[key].output.available_resources_by_id.contains_key(id)
            && leases[key].output.available_resources_by_id[id] == record
}

/// `record` is what is offered as the resource `id`: by a visible output if one offers it, or else
/// by a lease. Which one of several offers is not said.
pub open spec fn offer(
    state: RegistryInnerView,
    id: Seq<char>,
    record: Option<TaskResourceRecordView>,
) -> bool {
    match record {
        Some(record) => offered_visibly(state.visible_outputs_by_task_id, id, record) || ((forall|
            other: TaskResourceRecordView,
        |
            !offered_visibly(state.visible_outputs_by_task_id, id, other)) && offered_by_lease(
            state.retained_resource_snapshots,
            id,
            record,
        )),
        None => forall|other: TaskResourceRecordView|
            !offered_visibly(state.visible_outputs_by_task_id, id, other) && !offered_by_lease(
                state.retained_resource_snapshots,
                id,
                other,
            ),
    }
}

fn visible_offer(
    outputs: &Table<String, VisibleTaskOutput>,
    id: &String,
) -> (found: Option<TaskResourceRecord>)
    ensures
        match found {
            Some(record) => offered_visibly(outputs@, id@, record@),
            None => forall|other: TaskResourceRecordView| !offered_visibly(outputs@, id@, other),
        },
{
    let count: usize = outputs.len();
    let ghost keys = outputs.keys();
    for index in 0..count
        invariant
            count == keys.len(),
            keys == outputs.keys(),
            forall|i: int|
                0 <= i < index
                    ==> !outputs@[#[trigger] keys[i]].available_resources_by_id.contains_key(id@),
    {
        if let Some(record) = outputs.value_at(index).available_resources_by_id.get(id) {
            proof {
                assert(outputs@.contains_key(keys[index as int]));
            }
            return Some(record.duplicate());
        }
    }
    proof {
        assert forall|key: Seq<char>| #[trigger] outputs@.contains_key(
            key,
        ) implies !outputs@[key].available_resources_by_id.contains_key(id@) by {
            let i = keys.index_of(key);
            assert(keys.contains(key));
            assert(keys[i] == key);
        }
    }
    None
}

fn leased_offer(
    leases: &Table<String, RetainedTaskResourceSnapshot>,
    id: &String,
) -> (found: Option<TaskResourceRecord>)
    ensures
        match found {
            Some(record) => offered_by_lease(leases@, id@, record@),
            None => forall|other: TaskResourceRecordView| !offered_by_lease(leases@, id@, other),
        },
{
    let count: usize = leases.len();
    let ghost keys = leases.keys();
    for index in 0..count
        invariant
            count == keys.len(),
            keys == leases.keys(),
            forall|i: int|
                0 <= i < index
                    ==> !leases@[#[trigger] keys[i]].output.available_resources_by_id.contains_key(
                    id@,
                ),
    {
        if let Some(record) = leases.value_at(index).output.available_resources_by_id.get(id) {
            proof {
                assert(leases@.contains_key(keys[index as int]));
            }
            return Some(record.duplicate());
        }
    }
    proof {
        assert forall|key: Seq<char>| #[trigger] leases@.contains_key(
            key,
        ) implies !leases@[key].output.available_resources_by_id.contains_key(id@) by {
            let i = keys.index_of(key);
            assert(keys.contains(key));
            assert(keys[i] == key);
        }
    }
    None
}

/// What was found of the body of a resource.
#[derive(Clone, Copy, Debug, PartialEq, Eq, Structural)]
pub struct BodyFacts {
    pub regular_file: bool,
    pub length: u64,
}

/// What is wrong with the body of a resource.
#[derive(Clone, Copy, Debug, PartialEq, Eq, Structural)]
pub enum BodyProblem {
    NotARegularFile,
    WrongSize,
}

impl BodyProblem {
    pub fn message(self) -> (message: &'static str)
        ensures
            message@ == match self {
                BodyProblem::NotARegularFile => "task resource body is not a regular file"@,
                BodyProblem::WrongSize =>
                    "task resource body size does not match its durable metadata"@,
            },
    {
        match self {
            BodyProblem::NotARegularFile => "task resource body is not a regular file",
            BodyProblem::WrongSize =>
                "task resource body size does not match its durable metadata",
        }
    }
}

pub open spec fn body_problem(
    resource: CacheResourceRefView,
    body: BodyFacts,
) -> Option<BodyProblem> {
    if !body.regular_file {
        Some(BodyProblem::NotARegularFile)
    } else if resource.size_known && resource.size_bytes != body.length {
        Some(BodyProblem::WrongSize)
    } else {
        None
    }
}

pub fn validate_task_resource_body(
    record: &TaskResourceRecord,
    body: BodyFacts,
) -> (result: Result<(), BodyProblem>)
    ensures
        result == match body_problem(record@.resource, body) {
            Some(problem) => Err(problem),
            None => Ok(()),
        },
{
    if !body.regular_file {
        return Err(BodyProblem::NotARegularFile);
    }
    if record.resource.size_known && (record.resource.size_bytes < 0
        || record.resource.size_bytes as u64 != body.length) {
        return Err(BodyProblem::WrongSize);
    }
    Ok(())
}

/// `registry` with the resource `id` in doubt: nothing is served until the storage has been
/// checked.
pub open spec fn in_doubt(
    registry: BilibiliTaskRegistryView,
    id: Seq<char>,
) -> BilibiliTaskRegistryView {
    BilibiliTaskRegistryView {
        resource_storage_available: false,
        inner: RegistryInnerView {
            resource_storage_revalidation_ids: registry.inner.resource_storage_revalidation_ids.insert(
                id,
            ),
            ..registry.inner
        },
        ..registry
    }
}

/// The identifier under which a resource is looked up.
pub open spec fn resource_key(id: Seq<char>) -> Seq<char> {
    ascii_lower(trimmed(id))
}

impl BilibiliTaskRegistry {
    /// The resource `id`, if it is offered and has not expired. `instant` is a reading of the
    /// clock by which leases end.
    pub fn task_resource(&mut self, id: &str, now: Timestamp, instant: u64) -> (found: Option<
        TaskResourceRecord,
    >)
        requires
            old(self)@.well_formed(),
        ensures
            final(self)@.well_formed(),
            final(self)@.continues(old(self)@),
            resource_key(id@).len() == 0 ==> found is None && final(self)@ == old(self)@,
            resource_key(id@).len() > 0 ==> {
                let state = without_ended_leases(old(self)@.inner, instant);
                &&& final(self)@ == old(self)@.with_inner(state)
                &&& exists|record: Option<TaskResourceRecordView>| #[trigger]
                    offer(state, resource_key(id@), record) && found.deep_view() == match record {
                        Some(record) => if expired(record.resource.expires_at, now) {
                            None
                        } else {
                            Some(record)
                        },
                        None => None,
                    }
            },
    {
        let key = normalize_option_string(id);
        if key.as_str().is_empty() {
            return None;
        }
        self.inner.prune_expired_resource_snapshots(instant);
        let found = match visible_offer(&self.inner.visible_outputs_by_task_id, &key) {
            Some(record) => Some(record),
            None => leased_offer(&self.inner.retained_resource_snapshots, &key),
        };
        proof {
            assert(offer(self@.inner, key@, found.deep_view()));
        }
        match found {
            Some(record) => if is_expired(&record.resource.expires_at, &now) {
                None
            } else {
                Some(record)
            },
            None => None,
        }
    }

    /// The resource `id`, if its body may be opened.
    pub fn open_task_resource(&mut self, id: &str, now: Timestamp, instant: u64) -> (found: Option<
        TaskResourceRecord,
    >)
        requires
            old(self)@.well_formed(),
        ensures
            final(self)@.well_formed(),
            final(self)@.continues(old(self)@),
            resource_key(id@).len() == 0 || !old(self)@.resource_root_configured ==> found is None
                && final(self)@ == old(self)@,
            resource_key(id@).len() > 0 && old(self)@.resource_root_configured ==> {
                let state = without_ended_leases(old(self)@.inner, instant);
                &&& final(self)@ == old(self)@.with_inner(state)
                &&& exists|record: Option<TaskResourceRecordView>| #[trigger]
                    offer(state, resource_key(id@), record) && found.deep_view() == match record {
                        Some(record) => if expired(record.resource.expires_at, now) {
                            None
                        } else {
                            Some(record)
                        },
                        None => None,
                    }
            },
    {
        if !self.resource_root_configured {
            return None;
        }
        self.task_resource(id, now, instant)
    }

    /// Puts a resource in doubt whose body could not be opened.
    pub fn mark_resource_storage_for_revalidation(&mut self, resource_id: &str)
        requires
            old(self)@.well_formed(),
        ensures
            final(self)@.well_formed(),
            final(self)@.continues(old(self)@),
            final(self)@ == in_doubt(old(self)@, resource_id@),
    {
        self.resource_storage_available = false;
        let _ = self.inner.resource_storage_revalidation_ids.insert(resource_id.to_owned());
    }

    /// Whether the opened body of a resource may be served: not if the resource has expired by
    /// now, nor if the body is not what it should be.
    pub fn admit_opened_task_resource(
        &mut self,
        id: &str,
        record: &TaskResourceRecord,
        body: BodyFacts,
        now: Timestamp,
    ) -> (result: Result<bool, BodyProblem>)
        requires
            old(self)@.well_formed(),
        ensures
            final(self)@.well_formed(),
            final(self)@.continues(old(self)@),
            match body_problem(record@.resource, body) {
                Some(problem) => result == Err::<bool, _>(problem) && final(self)@ == in_doubt(
                    old(self)@,
                    resource_key(id@),
                ),
                None => if expired(record@.resource.expires_at, now) {
                    result == Ok::<_, BodyProblem>(false) && final(self)@ == old(self)@
                } else {
                    result == Ok::<_, BodyProblem>(true) && final(self)@ == old(self)@.with_inner(
                        RegistryInnerView {
                            resource_storage_revalidation_ids: old(
                                self,
                            )@.inner.resource_storage_revalidation_ids.remove(resource_key(id@)),
                            ..old(self)@.inner
                        },
                    )
                },
            },
    {
        let key = normalize_option_string(id);
        if let Err(problem) = validate_task_resource_body(record, body) {
            self.mark_resource_storage_for_revalidation(key.as_str());
            return Err(problem);
        }
        if is_expired(&record.resource.expires_at, &now) {
            return Ok(false);
        }
        let _ = self.inner.resource_storage_revalidation_ids.remove(&key);
        Ok(true)
    }
}

/// What a client gets that asks for the output of the visible task `id`.
pub open spec fn leased_snapshot(
    state: RegistryInnerView,
    id: Seq<char>,
    lease_id: Seq<char>,
    expires_at: u64,
) -> TaskOutputSnapshotView {
    let output = state.visible_outputs_by_task_id[id];
    TaskOutputSnapshotView {
        task_id: id,
        revision: output.record.revision,
        snapshot_id: output.record.snapshot_id,
        resource_lease_id: lease_id,
        resource_lease_expires_at: expires_at,
        encoded_bytes: output.encoded_bytes,
        output,
    }
}

/// `state` with the resources of `snapshot`, if there are any, kept for as long as its lease.
pub open spec fn with_lease(
    state: RegistryInnerView,
    snapshot: TaskOutputSnapshotView,
) -> RegistryInnerView {
    if snapshot.output.record.resources.len() == 0 {
        state
    } else {
        RegistryInnerView {
            retained_resource_snapshots: state.retained_resource_snapshots.insert(
                snapshot.resource_lease_id,
                RetainedTaskResourceSnapshotView {
                    expires_at: snapshot.resource_lease_expires_at,
                    output: snapshot.output,
                },
            ),
            ..state
        }
    }
}

/// The answer to a request for the output of a task, under the lease `lease_id`.
pub open spec fn lease_request(
    registry: BilibiliTaskRegistryView,
    id: Seq<char>,
    lease_id: Seq<char>,
    expires_at: u64,
    instant: u64,
    result: Result<TaskOutputSnapshot, Status>,
    after: RegistryInnerView,
) -> bool {
    let state = without_ended_leases(registry.inner, instant);
    if id_problem(id) is Some {
        result matches Err(status) && Some(status@) == id_problem(id) && after == registry.inner
    } else if !(registry.resource_storage_available && registry.persistence_available()) {
        result matches Err(status) && status@ == refusal(
            Code::FailedPrecondition,
            "Durable task output is unavailable on this cache server."@,
        ) && after == registry.inner
    } else if !state.visible_tasks_by_id.contains_key(trimmed(id)) {
        result matches Err(status) && status@ == not_found() && after == state
    } else {
        let snapshot = leased_snapshot(state, trimmed(id), lease_id, expires_at);
        result matches Ok(done) && done@ == snapshot && after == with_lease(state, snapshot)
    }
}

impl BilibiliTaskRegistry {
    /// What a client sees of the output of a task, without a lease.
    pub fn task_output_snapshot(&self, id: &str, instant: u64) -> (result: Result<
        TaskOutputSnapshot,
        Status,
    >)
        requires
            self@.well_formed(),
        ensures
            match id_problem(id@) {
                Some(problem) => result matches Err(status) && status@ == problem,
                None => if !self@.inner.visible_tasks_by_id.contains_key(trimmed(id@)) {
                    result matches Err(status) && status@ == not_found()
                } else {
                    result matches Ok(snapshot) && snapshot@ == leased_snapshot(
                        self@.inner,
                        trimmed(id@),
                        Seq::empty(),
                        instant,
                    )
                },
            },
    {
        let normalized_id = match normalize_required_id(id) {
            Ok(normalized_id) => normalized_id,
            Err(status) => return Err(status),
        };
        match self.inner.visible_outputs_by_task_id.get(&normalized_id) {
            Some(output) => Ok(
                TaskOutputSnapshot {
                    task_id: normalized_id,
                    revision: output.record.revision,
                    snapshot_id: output.record.snapshot_id.clone(),
                    resource_lease_id: String::new(),
                    resource_lease_expires_at: instant,
                    encoded_bytes: output.encoded_bytes,
                    output: output.duplicate(),
                },
            ),
            None => Err(task_not_found()),
        }
    }

    /// Hands out the output of a task, and keeps its resources until `expires_at`.
    pub fn retain_task_output_snapshot(
        &mut self,
        id: &str,
        expires_at: u64,
        instant: u64,
    ) -> (result: Result<TaskOutputSnapshot, Status>)
        requires
            old(self)@.well_formed(),
        ensures
            final(self)@.well_formed(),
            final(self)@.continues(old(self)@),
            final(self)@ == old(self)@.with_inner(final(self)@.inner),
            exists|lease_id: Seq<char>|
                random_with_prefix(lease_id, "task-output-resource-lease-"@)
                    && #[trigger] lease_request(
                    old(self)@,
                    id@,
                    lease_id,
                    expires_at,
                    instant,
                    result,
                    final(self)@.inner,
                ),
    {
        let lease_id = new_id("task-output-resource-lease-");
        self.retain_task_output_snapshot_as(lease_id, id, expires_at, instant)
    }

    /// Hands out the output of a task under the lease `lease_id`.
    pub fn retain_task_output_snapshot_as(
        &mut self,
        lease_id: String,
        id: &str,
        expires_at: u64,
        instant: u64,
    ) -> (result: Result<TaskOutputSnapshot, Status>)
        requires
            old(self)@.well_formed(),
        ensures
            final(self)@.well_formed(),
            final(self)@.continues(old(self)@),
            final(self)@ == old(self)@.with_inner(final(self)@.inner),
            lease_request(
                old(self)@,
                id@,
                lease_id@,
                expires_at,
                instant,
                result,
                final(self)@.inner,
            ),
    {
        let normalized_id = match normalize_required_id(id) {
            Ok(normalized_id) => normalized_id,
            Err(status) => return Err(status),
        };
        if !self.task_output_v2_available() {
            return Err(
                Status::new(
                    Code::FailedPrecondition,
                    "Durable task output is unavailable on this cache server.",
                ),
            );
        }
        self.inner.prune_expired_resource_snapshots(instant);
        let snapshot = match self.inner.visible_outputs_by_task_id.get(&normalized_id) {
            Some(output) => TaskOutputSnapshot {
                task_id: normalized_id,
                revision: output.record.revision,
                snapshot_id: output.record.snapshot_id.clone(),
                resource_lease_id: lease_id,
                resource_lease_expires_at: expires_at,
                encoded_bytes: output.encoded_bytes,
                output: output.duplicate(),
            },
            None => return Err(task_not_found()),
        };
        if snapshot.output.record.resources.len() > 0 {
            let retained = RetainedTaskResourceSnapshot::from_output(&snapshot);
            self.inner.retained_resource_snapshots.insert(
                snapshot.resource_lease_id.clone(),
                retained,
            );
        }
        Ok(snapshot)
    }

    /// Ends leases.
    pub fn release_task_output_snapshots(&mut self, resource_lease_ids: &Vec<String>)
        requires
            old(self)@.well_formed(),
        ensures
            final(self)@.well_formed(),
            final(self)@.continues(old(self)@),
            final(self)@ == old(self)@.with_inner(
                RegistryInnerView {
                    retained_resource_snapshots: old(
                        self,
                    )@.inner.retained_resource_snapshots.remove_keys(
                        resource_lease_ids.deep_view().to_set(),
                    ),
                    ..old(self)@.inner
                },
            ),
    {
        let ghost all = resource_lease_ids.deep_view();
        let ghost before = self@;
        let ghost leases = before.inner.retained_resource_snapshots;
        proof {
            assert(leases.remove_keys(all.take(0).to_set()) =~= leases);
        }
        for index in 0..resource_lease_ids.len()
            invariant
                all == resource_lease_ids.deep_view(),
                leases == before.inner.retained_resource_snapshots,
                self@ == before.with_inner(
                    RegistryInnerView {
                        retained_resource_snapshots: leases.remove_keys(
                            all.take(index as int).to_set(),
                        ),
                        ..before.inner
                    },
                ),
        {
            proof {
                lemma_take_to_set(all, index as int);
                assert(all[index as int] == resource_lease_ids[index as int]@);
            }
            let _ = self.inner.retained_resource_snapshots.remove(&resource_lease_ids[index]);
            proof {
                assert(self@.inner.retained_resource_snapshots =~= leases.remove_keys(
                    all.take(index + 1).to_set(),
                ));
            }
        }
        proof {
            assert(all.take(all.len() as int) =~= all);
        }
    }
}

/// What came of checking the body of a resource.
pub struct BodyCheck {
    pub resource_id: String,
    pub passed: bool,
}

/// `record` is the record with the identifier `id` that one of the tables gives by `pick`.
pub open spec fn given<B>(
    map: Map<Seq<char>, B>,
    pick: spec_fn(B) -> Seq<TaskResourceRecordView>,
    id: Seq<char>,
    record: TaskResourceRecordView,
) -> bool {
    exists|key: Seq<char>, i: int|
        map.contains_key(key) && 0 <= i < pick(map[key]).len() && #[trigger] pick(map[key])[i]
            == record && record.resource.id == id
}

pub open spec fn live_resources() -> spec_fn(TaskOutputRecordView) -> Seq<TaskResourceRecordView> {
    |output: TaskOutputRecordView| output.resources
}

pub open spec fn shown_resources() -> spec_fn(VisibleTaskOutputView) -> Seq<
    TaskResourceRecordView,
> {
    |output: VisibleTaskOutputView| output.record.resources
}

pub open spec fn leased_resources() -> spec_fn(RetainedTaskResourceSnapshotView) -> Seq<
    TaskResourceRecordView,
> {
    |lease: RetainedTaskResourceSnapshotView| lease.output.record.resources
}

/// `record` is what the body of the resource `id` must match: that of a live output first, that of
/// a visible one next, that of a lease last, unless it has expired. Which one of several is not
/// said.
pub open spec fn body_owner_record(
    state: RegistryInnerView,
    id: Seq<char>,
    now: Timestamp,
    record: Option<TaskResourceRecordView>,
) -> bool {
    if output_ids(state).contains(id) {
        record matches Some(record) && given(
            state.outputs_by_task_id,
            live_resources(),
            id,
            record,
        )
    } else if gathered(state.visible_outputs_by_task_id, shown_ids()).contains(id) {
        record matches Some(record) && given(
            state.visible_outputs_by_task_id,
            shown_resources(),
            id,
            record,
        )
    } else if gathered(state.retained_resource_snapshots, leased_ids()).contains(id) {
        exists|leased: TaskResourceRecordView| #[trigger]
            given(state.retained_resource_snapshots, leased_resources(), id, leased) && record
                == if expired(leased.resource.expires_at, now) {
                None
            } else {
                Some(leased)
            }
    } else {
        record is None
    }
}

fn first_record<'a>(
    resources: &'a Vec<TaskResourceRecord>,
    id: &String,
) -> (found: Option<&'a TaskResourceRecord>)
    ensures
        match found {
            Some(record) => record@.resource.id == id@ && exists|i: int|
                0 <= i < resources.deep_view().len() && #[trigger] resources.deep_view()[i]
                    == record@,
            None => !resource_ids(resources.deep_view()).contains(id@),
        },
{
    for index in 0..resources.len()
        invariant
            forall|i: int|
                0 <= i < index ==> (#[trigger] resources.deep_view()[i]).resource.id != id@,
    {
        proof {
            assert(resources.deep_view()[index as int] == resources[index as int]@);
        }
        if resources[index].resource.id == *id {
            return Some(&resources[index]);
        }
    }
    None
}

impl RegistryInner {
    fn live_record(&self, id: &String) -> (found: Option<TaskResourceRecord>)
        ensures
            match found {
                Some(record) => output_ids(self@).contains(id@) && given(
                    self@.outputs_by_task_id,
                    live_resources(),
                    id@,
                    record@,
                ),
                None => !output_ids(self@).contains(id@),
            },
    {
        let outputs = &self.outputs_by_task_id;
        let count: usize = outputs.len();
        let ghost keys = outputs.keys();
        for index in 0..count
            invariant
                count == keys.len(),
                keys == outputs.keys(),
                outputs@ == self@.outputs_by_task_id,
                forall|i: int|
                    0 <= i < index ==> !resource_ids(
                        outputs@[#[trigger] keys[i]].resources,
                    ).contains(id@),
        {
            let output = outputs.value_at(index);
            if let Some(record) = first_record(&output.resources, id) {
                proof {
                    let key = keys[index as int];
                    let i = choose|i: int|
                        0 <= i < output.resources.deep_view().len()
                            && #[trigger] output.resources.deep_view()[i] == record@;
                    assert(outputs@.contains_key(key));
                    assert(live_resources()(outputs@[key])[i] == record@);
                    assert(resource_ids(outputs@[key].resources).contains(id@));
                }
                return Some(record.duplicate());
            }
        }
        proof {
            assert forall|key: Seq<char>| #[trigger] outputs@.contains_key(key) implies !(
            owned_ids()(outputs@[key])).contains(id@) by {
                let i = keys.index_of(key);
                assert(keys.contains(key));
                assert(keys[i] == key);
            }
        }
        None
    }

    fn shown_record(&self, id: &String) -> (found: Option<TaskResourceRecord>)
        ensures
            match found {
                Some(record) => gathered(self@.visible_outputs_by_task_id, shown_ids()).contains(
                    id@,
                ) && given(self@.visible_outputs_by_task_id, shown_resources(), id@, record@),
                None => !gathered(self@.visible_outputs_by_task_id, shown_ids()).contains(id@),
            },
    {
        let outputs = &self.visible_outputs_by_task_id;
        let count: usize = outputs.len();
        let ghost keys = outputs.keys();
        for index in 0..count
            invariant
                count == keys.len(),
                keys == outputs.keys(),
                outputs@ == self@.visible_outputs_by_task_id,
                forall|i: int|
                    0 <= i < index ==> !resource_ids(
                        outputs@[#[trigger] keys[i]].record.resources,
                    ).contains(id@),
        {
            let output = outputs.value_at(index);
            if let Some(record) = first_record(&output.record.resources, id) {
                proof {
                    let key = keys[index as int];
                    let i = choose|i: int|
                        0 <= i < output.record.resources.deep_view().len()
                            && #[trigger] output.record.resources.deep_view()[i] == record@;
                    assert(outputs@.contains_key(key));
                    assert(shown_resources()(outputs@[key])[i] == record@);
                    assert(resource_ids(outputs@[key].record.resources).contains(id@));
                }
                return Some(record.duplicate());
            }
        }
        proof {
            assert forall|key: Seq<char>| #[trigger] outputs@.contains_key(key) implies !(
            shown_ids()(outputs@[key])).contains(id@) by {
                let i = keys.index_of(key);
                assert(keys.contains(key));
                assert(keys[i] == key);
            }
        }
        None
    }

    fn leased_record(&self, id: &String) -> (found: Option<TaskResourceRecord>)
        ensures
            match found {
                Some(record) => gathered(self@.retained_resource_snapshots, leased_ids()).contains(
                    id@,
                ) && given(self@.retained_resource_snapshots, leased_resources(), id@, record@),
                None => !gathered(self@.retained_resource_snapshots, leased_ids()).contains(id@),
            },
    {
        let leases = &self.retained_resource_snapshots;
        let count: usize = leases.len();
        let ghost keys = leases.keys();
        for index in 0..count
            invariant
                count == keys.len(),
                keys == leases.keys(),
                leases@ == self@.retained_resource_snapshots,
                forall|i: int|
                    0 <= i < index ==> !resource_ids(
                        leases@[#[trigger] keys[i]].output.record.resources,
                    ).contains(id@),
        {
            let lease = leases.value_at(index);
            if let Some(record) = first_record(&lease.output.record.resources, id) {
                proof {
                    let key = keys[index as int];
                    let i = choose|i: int|
                        0 <= i < lease.output.record.resources.deep_view().len()
                            && #[trigger] lease.output.record.resources.deep_view()[i] == record@;
                    assert(leases@.contains_key(key));
                    assert(leased_resources()(leases@[key])[i] == record@);
                    assert(resource_ids(leases@[key].output.record.resources).contains(id@));
                }
                return Some(record.duplicate());
            }
        }
        proof {
            assert forall|key: Seq<char>| #[trigger] leases@.contains_key(key) implies !(
            leased_ids()(leases@[key])).contains(id@) by {
                let i = keys.index_of(key);
                assert(keys.contains(key));
                assert(keys[i] == key);
            }
        }
        None
    }

    /// What the body of a resource must match.
    pub fn resource_body_owner_record(&self, id: &String, now: &Timestamp) -> (found: Option<
        TaskResourceRecord,
    >)
        ensures
            body_owner_record(self@, id@, *now, found.deep_view()),
    {
        let live = self.live_record(id);
        if live.is_some() {
            return live;
        }
        let shown = self.shown_record(id);
        if shown.is_some() {
            return shown;
        }
        match self.leased_record(id) {
            Some(record) => {
                proof {
                    assert(given(
                        self@.retained_resource_snapshots,
                        leased_resources(),
                        id@,
                        record@,
                    ));
                }
                if is_expired(&record.resource.expires_at, now) {
                    None
                } else {
                    Some(record)
                }
            },
            None => None,
        }
    }
}

/// The bodies that are in doubt: those that nothing needs any more, and those that are to be
/// checked.
pub struct DoubtfulBodies {
    pub unowned: IdSet,
    pub to_check: Vec<TaskResourceRecord>,
}

pub open spec fn ids_of_records(records: Seq<TaskResourceRecordView>) -> Seq<Seq<char>> {
    Seq::new(records.len(), |i: int| records[i].resource.id)
}

/// The resources whose check failed.
pub open spec fn some_check_failed(checks: Seq<BodyCheck>) -> bool {
    exists|i: int| 0 <= i < checks.len() && !(#[trigger] checks[i]).passed
}

/// The resources whose check passed.
pub open spec fn passed_ids(checks: Seq<BodyCheck>) -> Set<Seq<char>> {
    Set::new(
        |id: Seq<char>|
            exists|i: int|
                0 <= i < checks.len() && (#[trigger] checks[i]).passed && checks[i].resource_id@
                    == id,
    )
}

impl BilibiliTaskRegistry {
    /// The bodies that have to be checked before anything is served again.
    pub fn begin_revalidation(&mut self, now: Timestamp, instant: u64) -> (doubtful: DoubtfulBodies)
        requires
            old(self)@.well_formed(),
        ensures
            final(self)@.well_formed(),
            final(self)@.continues(old(self)@),
            ({
                let state = without_ended_leases(old(self)@.inner, instant);
                &&& final(self)@ == old(self)@.with_inner(state)
                &&& doubtful.unowned@.union(
                    ids_of_records(doubtful.to_check.deep_view()).to_set(),
                ) == state.resource_storage_revalidation_ids
                &&& forall|id: Seq<char>| #[trigger]
                    doubtful.unowned@.contains(id) ==> body_owner_record(state, id, now, None)
                &&& forall|i: int|
                    0 <= i < doubtful.to_check@.len() ==> body_owner_record(
                        state,
                        (#[trigger] doubtful.to_check.deep_view()[i]).resource.id,
                        now,
                        Some(doubtful.to_check.deep_view()[i]),
                    )
            }),
    {
        self.inner.prune_expired_resource_snapshots(instant);
        let ghost state = self@.inner;
        let ids = &self.inner.resource_storage_revalidation_ids;
        let count: usize = ids.len();
        let ghost listed = ids.listed();
        let mut unowned = IdSet::new();
        let mut to_check: Vec<TaskResourceRecord> = Vec::new();
        proof {
            assert(unowned@.union(ids_of_records(to_check.deep_view()).to_set())
                =~= listed.take(0).to_set());
        }
        for index in 0..count
            invariant
                count == listed.len(),
                ids@ == state.resource_storage_revalidation_ids,
                listed == ids.listed(),
                state == self@.inner,
                unowned@.union(ids_of_records(to_check.deep_view()).to_set()) =~= listed.take(
                    index as int,
                ).to_set(),
                forall|id: Seq<char>| #[trigger]
                    unowned@.contains(id) ==> body_owner_record(state, id, now, None),
                forall|i: int|
                    0 <= i < to_check.deep_view().len() ==> body_owner_record(
                        state,
                        (#[trigger] to_check.deep_view()[i]).resource.id,
                        now,
                        Some(to_check.deep_view()[i]),
                    ),
        {
            proof {
                lemma_take_to_set(listed, index as int);
            }
            let id = ids.id_at(index);
            let ghost before = to_check.deep_view();
            match self.inner.resource_body_owner_record(id, &now) {
                Some(record) => {
                    proof {
                        lemma_owner_record_is_named(state, id@, now, record@);
                    }
                    to_check.push(record);
                    proof {
                        assert(to_check.deep_view() =~= before.push(record@));
                        assert(ids_of_records(to_check.deep_view()) =~= ids_of_records(
                            before,
                        ).push(id@));
                        lemma_push_to_set(ids_of_records(before), id@);
                    }
                },
                None => {
                    let _ = unowned.insert(id.clone());
                },
            }
        }
        proof {
            assert(listed.take(count as int) =~= listed);
        }
        DoubtfulBodies { unowned, to_check }
    }

    /// Enters what came of the checks, and says whether nothing is in doubt any more.
    pub fn finish_revalidation(&mut self, unowned: &IdSet, checks: &Vec<BodyCheck>) -> (settled:
        bool)
        requires
            old(self)@.well_formed(),
        ensures
            final(self)@.well_formed(),
            final(self)@.continues(old(self)@),
            ({
                let doubtful = old(self)@.inner.resource_storage_revalidation_ids.difference(
                    unowned@,
                ).difference(passed_ids(checks@));
                &&& final(self)@ == old(self)@.with_inner(
                    RegistryInnerView {
                        resource_storage_revalidation_ids: doubtful,
                        ..old(self)@.inner
                    },
                )
                &&& settled == (!some_check_failed(checks@) && doubtful =~= Set::empty())
            }),
    {
        let ghost before = self@;
        let ghost ids = before.inner.resource_storage_revalidation_ids;
        let mut doubtful = without_ids(&self.inner.resource_storage_revalidation_ids, unowned);
        let mut succeeded: bool = true;
        proof {
            assert(passed_ids(checks@.take(0)) =~= Set::<Seq<char>>::empty());
        }
        for index in 0..checks.len()
            invariant
                doubtful@ =~= ids.difference(unowned@).difference(
                    passed_ids(checks@.take(index as int)),
                ),
                succeeded == !some_check_failed(checks@.take(index as int)),
        {
            let check = &checks[index];
            proof {
                let short = checks@.take(index as int);
                let long = checks@.take(index + 1);
                assert(long[index as int] == *check);
                assert forall|id: Seq<char>| passed_ids(long).contains(id) <==> (passed_ids(
                    short,
                ).contains(id) || (check.passed && check.resource_id@ == id)) by {
                    if passed_ids(long).contains(id) {
                        let i = choose|i: int|
                            0 <= i < long.len() && (#[trigger] long[i]).passed
                                && long[i].resource_id@ == id;
                        if i < index {
                            assert(short[i] == long[i]);
                        }
                    }
                    if passed_ids(short).contains(id) {
                        let i = choose|i: int|
                            0 <= i < short.len() && (#[trigger] short[i]).passed
                                && short[i].resource_id@ == id;
                        assert(long[i] == short[i]);
                    }
                }
                if some_check_failed(long) {
                    let i = choose|i: int| 0 <= i < long.len() && !(#[trigger] long[i]).passed;
                    if i < index {
                        assert(short[i] == long[i]);
                    }
                }
                if some_check_failed(short) {
                    let i = choose|i: int| 0 <= i < short.len() && !(#[trigger] short[i]).passed;
                    assert(long[i] == short[i]);
                }
            }
            if check.passed {
                let _ = doubtful.remove(&check.resource_id);
            } else {
                succeeded = false;
            }
        }
        proof {
            assert(checks@.take(checks@.len() as int) =~= checks@);
        }
        let nothing_left: bool = doubtful.is_empty();
        self.inner.resource_storage_revalidation_ids = doubtful;
        succeeded && nothing_left
    }
}

proof fn lemma_owner_record_is_named(
    state: RegistryInnerView,
    id: Seq<char>,
    now: Timestamp,
    record: TaskResourceRecordView,
)
    requires
        body_owner_record(state, id, now, Some(record)),
    ensures
        record.resource.id == id,
{
}

proof fn lemma_push_to_set(ids: Seq<Seq<char>>, id: Seq<char>)
    ensures
        ids.push(id).to_set() =~= ids.to_set().insert(id),
{
    assert forall|other: Seq<char>| ids.push(id).to_set().contains(other)
        <==> ids.to_set().insert(id).contains(other) by {
        if ids.push(id).contains(other) {
            let i = ids.push(id).index_of(other);
            if i < ids.len() {
                assert(ids[i] == other);
            }
        }
        if ids.contains(other) {
            let i = ids.index_of(other);
            assert(ids.push(id)[i] == other);
        }
        assert(ids.push(id)[ids.len() as int] == id);
    }
}

/// How the attempt to delete the body of a resource ended.
#[derive(Clone, Copy, Debug, PartialEq, Eq, Structural)]
pub enum BodyDeletion {
    Deleted,
    /// The body is gone, but its directory holds something else.
    DirectoryNotEmpty,
    Failed,
}

/// What came of deleting the body of a resource.
pub struct BodyDeletionReport {
    pub resource_id: String,
    pub deletion: BodyDeletion,
}

pub open spec fn some_deletion_failed(reports: Seq<BodyDeletionReport>) -> bool {
    exists|i: int|
        0 <= i < reports.len() && (#[trigger] reports[i]).deletion == BodyDeletion::Failed
}

pub open spec fn deleted_ids(reports: Seq<BodyDeletionReport>) -> Set<Seq<char>> {
    Set::new(
        |id: Seq<char>|
            exists|i: int|
                0 <= i < reports.len() && (#[trigger] reports[i]).deletion == BodyDeletion::Deleted
                    && reports[i].resource_id@ == id,
    )
}

/// The resources whose bodies are to be deleted. None of them has an owner.
pub open spec fn cleanup_candidates(state: RegistryInnerView, now: Timestamp) -> Set<Seq<char>> {
    state.durable_resource_cleanup_ids.difference(body_owner_ids(state, now))
}

/// `state` once the bodies of the resources in `deleted` are gone. A resource that has found an
/// owner in the meantime stays to be looked after.
pub open spec fn after_cleanup(
    state: RegistryInnerView,
    deleted: Set<Seq<char>>,
    now: Timestamp,
) -> RegistryInnerView {
    RegistryInnerView {
        durable_resource_cleanup_ids: state.durable_resource_cleanup_ids.difference(
            deleted.difference(body_owner_ids(state, now)),
        ),
        ..state
    }
}

impl BilibiliTaskRegistry {
    /// The resources whose bodies are to be deleted now.
    pub fn begin_cleanup(&mut self, now: Timestamp, instant: u64) -> (candidates: IdSet)
        requires
            old(self)@.well_formed(),
        ensures
            final(self)@.well_formed(),
            final(self)@.continues(old(self)@),
            final(self)@ == old(self)@.with_inner(
                without_ended_leases(old(self)@.inner, instant),
            ),
            candidates@ == cleanup_candidates(
                without_ended_leases(old(self)@.inner, instant),
                now,
            ),
    {
        self.inner.prune_expired_resource_snapshots(instant);
        let owners = self.inner.resource_body_owner_ids(&now);
        without_ids(&self.inner.durable_resource_cleanup_ids, &owners)
    }

    /// Enters what came of the deletions, and says whether the storage is in order.
    /// `storage_revalidated` says whether nothing was in doubt before.
    pub fn finish_cleanup(
        &mut self,
        storage_revalidated: bool,
        reports: &Vec<BodyDeletionReport>,
        now: Timestamp,
    ) -> (succeeded: bool)
        requires
            old(self)@.well_formed(),
        ensures
            final(self)@.well_formed(),
            final(self)@.continues(old(self)@),
            succeeded == (storage_revalidated && !some_deletion_failed(reports@)),
            final(self)@ == (BilibiliTaskRegistryView {
                resource_storage_available: if succeeded {
                    !old(self)@.orphan_resource_scan_pending || (old(
                        self,
                    )@.resource_storage_available && reports@.len() > 0)
                } else {
                    old(self)@.resource_storage_available && reports@.len() > 0
                        && !some_deletion_failed(reports@)
                },
                inner: after_cleanup(old(self)@.inner, deleted_ids(reports@), now),
                ..old(self)@
            }),
    {
        let ghost before = self@;
        let ghost ids = before.inner.durable_resource_cleanup_ids;
        let mut cleaned = IdSet::new();
        let mut failed: bool = false;
        proof {
            assert(deleted_ids(reports@.take(0)) =~= Set::<Seq<char>>::empty());
        }
        for index in 0..reports.len()
            invariant
                cleaned@ =~= deleted_ids(reports@.take(index as int)),
                failed == some_deletion_failed(reports@.take(index as int)),
        {
            let report = &reports[index];
            proof {
                let short = reports@.take(index as int);
                let long = reports@.take(index + 1);
                assert(long[index as int] == *report);
                assert forall|id: Seq<char>| deleted_ids(long).contains(id) <==> (deleted_ids(
                    short,
                ).contains(id) || (report.deletion == BodyDeletion::Deleted && report.resource_id@
                    == id)) by {
                    if deleted_ids(long).contains(id) {
                        let i = choose|i: int|
                            0 <= i < long.len() && (#[trigger] long[i]).deletion
                                == BodyDeletion::Deleted && long[i].resource_id@ == id;
                        if i < index {
                            assert(short[i] == long[i]);
                        }
                    }
                    if deleted_ids(short).contains(id) {
                        let i = choose|i: int|
                            0 <= i < short.len() && (#[trigger] short[i]).deletion
                                == BodyDeletion::Deleted && short[i].resource_id@ == id;
                        assert(long[i] == short[i]);
                    }
                }
                if some_deletion_failed(long) {
                    let i = choose|i: int|
                        0 <= i < long.len() && (#[trigger] long[i]).deletion
                            == BodyDeletion::Failed;
                    if i < index {
                        assert(short[i] == long[i]);
                    }
                }
                if some_deletion_failed(short) {
                    let i = choose|i: int|
                        0 <= i < short.len() && (#[trigger] short[i]).deletion
                            == BodyDeletion::Failed;
                    assert(long[i] == short[i]);
                }
            }
            match report.deletion {
                BodyDeletion::Deleted => {
                    let _ = cleaned.insert(report.resource_id.clone());
                },
                BodyDeletion::DirectoryNotEmpty => {},
                BodyDeletion::Failed => {
                    failed = true;
                },
            }
        }
        proof {
            assert(reports@.take(reports@.len() as int) =~= reports@);
        }
        let owners = self.inner.resource_body_owner_ids(&now);
        let gone = without_ids(&cleaned, &owners);
        let rest = without_ids(&self.inner.durable_resource_cleanup_ids, &gone);
        self.inner.durable_resource_cleanup_ids = rest;
        let succeeded: bool = storage_revalidated && !failed;
        if reports.len() == 0 {
            self.resource_storage_available = storage_revalidated
                && !self.orphan_resource_scan_pending;
        } else {
            if failed {
                self.resource_storage_available = false;
            }
            if succeeded && !self.orphan_resource_scan_pending {
                self.resource_storage_available = true;
            }
        }
        succeeded
    }

    /// Starts the scan for bodies that no task knows of, if it is still to be made. Nothing is
    /// served meanwhile.
    pub fn begin_orphan_scan(&mut self) -> (wanted: bool)
        requires
            old(self)@.well_formed(),
        ensures
            final(self)@.well_formed(),
            final(self)@.continues(old(self)@),
            wanted == old(self)@.orphan_resource_scan_pending,
            final(self)@ == if wanted {
                BilibiliTaskRegistryView { resource_storage_available: false, ..old(self)@ }
            } else {
                old(self)@
            },
    {
        if !self.orphan_resource_scan_pending {
            return false;
        }
        self.resource_storage_available = false;
        true
    }

    /// Marks for deletion the bodies in `found` that have no owner.
    pub fn reserve_orphaned_bodies(&mut self, found: &IdSet, now: Timestamp)
        requires
            old(self)@.well_formed(),
        ensures
            final(self)@.well_formed(),
            final(self)@.continues(old(self)@),
            final(self)@ == old(self)@.with_inner(
                RegistryInnerView {
                    durable_resource_cleanup_ids: old(
                        self,
                    )@.inner.durable_resource_cleanup_ids.union(
                        found@.difference(body_owner_ids(old(self)@.inner, now)),
                    ),
                    ..old(self)@.inner
                },
            ),
    {
        let owners = self.inner.resource_body_owner_ids(&now);
        let orphaned = without_ids(found, &owners);
        self.inner.durable_resource_cleanup_ids.extend(&orphaned);
    }

    /// Ends the scan. If it failed, it is still to be made.
    pub fn finish_orphan_scan(&mut self, succeeded: bool)
        requires
            old(self)@.well_formed(),
        ensures
            final(self)@.well_formed(),
            final(self)@.continues(old(self)@),
            final(self)@ == if succeeded {
                BilibiliTaskRegistryView {
                    orphan_resource_scan_pending: false,
                    resource_storage_available: true,
                    ..old(self)@
                }
            } else {
                old(self)@
            },
    {
        if succeeded {
            self.orphan_resource_scan_pending = false;
            self.resource_storage_available = true;
        }
    }
}

/// The output of a task without its expired resources, its summary, and which resources those are.
pub struct RetiredOutput {
    pub task_id: String,
    pub output: TaskOutputRecord,
    pub summary: TaskOutputSummary,
    pub retired_resource_ids: IdSet,
}

/// What a `RetiredOutput` holds.
#[verifier::ext_equal]
pub struct RetiredOutputView {
    pub task_id: Seq<char>,
    pub output: TaskOutputRecordView,
    pub summary: TaskOutputSummaryView,
    pub retired_resource_ids: Set<Seq<char>>,
}

impl DeepView for RetiredOutput {
    type V = RetiredOutputView;

    open spec fn deep_view(&self) -> RetiredOutputView {
        RetiredOutputView {
            task_id: self.task_id@,
            output: self.output@,
            summary: self.summary@,
            retired_resource_ids: self.retired_resource_ids@,
        }
    }
}

/// `state` with the expired resources of a task retired; unchanged if there are none.
pub open spec fn with_retired(
    state: RegistryInnerView,
    retired: RetiredOutputView,
    now: Timestamp,
) -> RegistryInnerView {
    if retired.retired_resource_ids == Set::<Seq<char>>::empty()
        || !state.tasks_by_id.contains_key(retired.task_id) {
        state
    } else {
        let task = TaskView {
            output_summary: Some(retired.summary),
            updated_at: Some(now),
            ..state.tasks_by_id[retired.task_id]
        };
        staged(
            RegistryInnerView {
                outputs_by_task_id: state.outputs_by_task_id.insert(
                    retired.task_id,
                    retired.output,
                ),
                pending_resource_cleanup_ids: state.pending_resource_cleanup_ids.union(
                    retired.retired_resource_ids,
                ),
                ..with_task(state, task)
            },
            task,
        )
    }
}

pub open spec fn with_all_retired(
    state: RegistryInnerView,
    retired: Seq<RetiredOutputView>,
    now: Timestamp,
) -> RegistryInnerView
    decreases retired.len(),
{
    if retired.len() == 0 {
        state
    } else {
        with_retired(with_all_retired(state, retired.drop_last(), now), retired.last(), now)
    }
}

/// Some live task loses a resource.
pub open spec fn some_retired(
    state: RegistryInnerView,
    retired: Seq<RetiredOutputView>,
) -> bool {
    exists|i: int|
        0 <= i < retired.len() && !((#[trigger] retired[i]).retired_resource_ids == Set::<
            Seq<char>,
        >::empty()) && state.tasks_by_id.contains_key(retired[i].task_id)
}

proof fn lemma_all_retired(
    state: RegistryInnerView,
    retired: Seq<RetiredOutputView>,
    now: Timestamp,
)
    requires
        consistent(state),
    ensures
        consistent(with_all_retired(state, retired, now)),
        with_all_retired(state, retired, now).tasks_by_id.dom() == state.tasks_by_id.dom(),
        with_all_retired(state, retired, now).cancellation_flags == state.cancellation_flags,
    decreases retired.len(),
{
    if retired.len() > 0 {
        lemma_all_retired(state, retired.drop_last(), now);
        let before = with_all_retired(state, retired.drop_last(), now);
        let after = with_retired(before, retired.last(), now);
        assert(after.tasks_by_id.dom() =~= before.tasks_by_id.dom());
        assert(after.outputs_by_task_id.dom() =~= before.outputs_by_task_id.dom());
    }
}

impl BilibiliTaskRegistry {
    /// Retires expired resources. `retired` are the outputs that hold some, without them. The
    /// terms on which that is to be committed come back, unless there was nothing to retire.
    pub fn retire_expired_task_resources(
        &mut self,
        retired: Vec<RetiredOutput>,
        now: Timestamp,
    ) -> (terms: Option<CommitTerms>)
        requires
            old(self)@.well_formed(),
        ensures
            final(self)@.well_formed(),
            final(self)@.continues(old(self)@),
            final(self)@ == old(self)@.with_inner(
                with_all_retired(old(self)@.inner, retired.deep_view(), now),
            ),
            match terms {
                Some(terms) => some_retired(old(self)@.inner, retired.deep_view()) && terms@
                    == kept(
                    old(self)@.persistence is Some,
                    Some(checkpoint_of(old(self)@.inner)),
                    false,
                    Guarantee::Nothing,
                    Seq::empty(),
                ),
                None => !some_retired(old(self)@.inner, retired.deep_view()),
            },
    {
        let checkpoint = RegistryMutationCheckpoint::capture(&self.inner);
        let ghost before = self@;
        let ghost all = retired.deep_view();
        let mut found: bool = false;
        proof {
            assert(all.take(0).len() == 0);
        }
        for index in 0..retired.len()
            invariant
                all == retired.deep_view(),
                before.well_formed(),
                self@ == before.with_inner(with_all_retired(before.inner, all.take(index as int), now)),
                found == some_retired(before.inner, all.take(index as int)),
        {
            let item = &retired[index];
            proof {
                let short = all.take(index as int);
                let long = all.take(index + 1);
                assert(long.drop_last() =~= short);
                assert(long.last() == item.deep_view());
                lemma_all_retired(before.inner, short, now);
                if some_retired(before.inner, long) {
                    let i = choose|i: int|
                        0 <= i < long.len() && !((#[trigger] long[i]).retired_resource_ids
                            == Set::<Seq<char>>::empty()) && before.inner.tasks_by_id.contains_key(
                            long[i].task_id,
                        );
                    if i < index {
                        assert(short[i] == long[i]);
                    }
                }
                if some_retired(before.inner, short) {
                    let i = choose|i: int|
                        0 <= i < short.len() && !((#[trigger] short[i]).retired_resource_ids
                            == Set::<Seq<char>>::empty()) && before.inner.tasks_by_id.contains_key(
                            short[i].task_id,
                        );
                    assert(long[i] == short[i]);
                }
                assert(long[index as int] == item.deep_view());
            }
            if !item.retired_resource_ids.is_empty() {
                let current = match self.inner.tasks_by_id.get(&item.task_id) {
                    Some(task) => Some(task.duplicate()),
                    None => None,
                };
                if let Some(mut task) = current {
                    found = true;
                    task.output_summary = Some(item.summary.duplicate());
                    task.updated_at = Some(now);
                    self.inner.outputs_by_task_id.insert(
                        item.task_id.clone(),
                        item.output.duplicate(),
                    );
                    self.inner.pending_resource_cleanup_ids.extend(&item.retired_resource_ids);
                    self.inner.put_task(task.duplicate());
                    self.inner.stage_publication(task);
                }
            }
        }
        proof {
            assert(all.take(all.len() as int) =~= all);
            lemma_all_retired(before.inner, all, now);
            reveal_strlit("");
            assert(""@ =~= Seq::<char>::empty());
        }
        if !found {
            return None;
        }
        let on_disk: bool = self.persistence.is_some();
        Some(CommitTerms::kept(on_disk, Some(checkpoint), false, Guarantee::Nothing, ""))
    }
}

/// A body that has an owner is never among those to be deleted.
pub proof fn law_owned_bodies_are_kept(
    state: RegistryInnerView,
    id: Seq<char>,
    now: Timestamp,
    instant: u64,
)
    requires
        body_owner_ids(without_ended_leases(state, instant), now).contains(id),
    ensures
        !state.durable_resource_cleanup_ids.difference(
            body_owner_ids(without_ended_leases(state, instant), now),
        ).contains(id),
{
}

/// While a lease runs, the bodies of its unexpired resources have an owner.
pub proof fn law_leased_bodies_are_kept(
    state: RegistryInnerView,
    snapshot: TaskOutputSnapshotView,
    id: Seq<char>,
    now: Timestamp,
    instant: u64,
)
    requires
        instant < snapshot.resource_lease_expires_at,
        unexpired_ids(
            snapshot.output.record.resources,
            now,
        ).contains(id),
    ensures
        body_owner_ids(
            without_ended_leases(with_lease(state, snapshot), instant),
            now,
        ).contains(id),
{
    let leased = without_ended_leases(with_lease(state, snapshot), instant);
    let leases = leased.retained_resource_snapshots;
    assert(leases.contains_key(snapshot.resource_lease_id));
    assert(gathered(leases, live_leased_ids(now)).contains(id));
}

/// A claimed resource has an owner, so its body is not among those that are deleted while the claim
/// is held.
pub proof fn law_claimed_bodies_are_kept(
    state: RegistryInnerView,
    ids: Set<Seq<char>>,
    id: Seq<char>,
    now: Timestamp,
    instant: u64,
)
    requires
        ids.contains(id),
    ensures
        body_owner_ids(with_claim(state, ids), now).contains(id),
        !cleanup_candidates(
            without_ended_leases(with_claim(state, ids), instant),
            now,
        ).contains(id),
{
}

/// The resources that only an output shows which is not live any more, and whose bodies are not in
/// doubt. Their bodies stay.
pub open spec fn stale_bodies(state: RegistryInnerView) -> Set<Seq<char>> {
    gathered(state.visible_outputs_by_task_id, shown_ids()).difference(
        output_ids(state),
    ).difference(state.resource_storage_revalidation_ids)
}

/// A claim that was given up can be made again once the bodies have been cleaned up. `instant` is
/// when leases are looked at for the cleanup, `later` when they are looked at for the new claim.
pub proof fn law_a_given_up_claim_can_be_made_again(
    state: RegistryInnerView,
    task_id: Seq<char>,
    resources: Seq<TaskResourceRecordView>,
    limit: nat,
    now: Timestamp,
    instant: u64,
    deleted: Set<Seq<char>>,
    later: u64,
)
    requires
        consistent(state),
        claims_problem(state, task_id, resources, resource_ids(resources), 0, limit) is None,
        projected_ids(state, task_id, resource_ids(resources)).finite(),
        resource_ids(resources).disjoint(stale_bodies(state)),
        cleanup_candidates(
            without_ended_leases(
                with_claim_rejected(
                    with_claim(state, resource_ids(resources)),
                    resource_ids(resources),
                ),
                instant,
            ),
            now,
        ).subset_of(deleted),
    ensures
        claims_problem(
            without_ended_leases(
                after_cleanup(
                    without_ended_leases(
                        with_claim_rejected(
                            with_claim(state, resource_ids(resources)),
                            resource_ids(resources),
                        ),
                        instant,
                    ),
                    deleted,
                    now,
                ),
                later,
            ),
            task_id,
            resources,
            resource_ids(resources),
            0,
            limit,
        ) is None,
{
    let ids = resource_ids(resources);
    let count = resources.len() as int;
    let held = with_claim(state, ids);
    let rejected = with_claim_rejected(held, ids);
    let pruned = without_ended_leases(rejected, instant);
    let cleaned = after_cleanup(pruned, deleted, now);
    let again = without_ended_leases(cleaned, later);
    lemma_claims_staged(state, task_id, resources, count, 0);
    assert forall|id: Seq<char>| #[trigger] ids.contains(id) implies
        !state.staged_resource_owner_counts.contains_key(id) by {
        let i = choose|i: int| 0 <= i < count && (#[trigger] resources[i]).resource.id == id;
        assert(staged_count(state, resources[i].resource.id) == 0);
    }
    assert(rejected.staged_resource_owner_counts =~= state.staged_resource_owner_counts);
    let leases = state.retained_resource_snapshots;
    lemma_gathered_grows(again.retained_resource_snapshots, leases, leased_ids(), leased_ids());
    lemma_gathered_grows(
        pruned.retained_resource_snapshots,
        leases,
        live_leased_ids(now),
        leased_ids(),
    );
    assert forall|id: Seq<char>|
        ids.contains(id) && !state.durable_resource_cleanup_ids.contains(id) implies
        !again.durable_resource_cleanup_ids.contains(id) by {
        if claim_orphans(held, ids).contains(id) {
            assert(!body_owner_ids(pruned, now).contains(id));
            assert(cleanup_candidates(pruned, now).contains(id));
        }
    }
    lemma_claims_carry_over(state, again, task_id, resources, count);
    assert(projected_ids(again, task_id, ids).subset_of(projected_ids(state, task_id, ids)));
    vstd::set_lib::lemma_len_subset(
        projected_ids(again, task_id, ids),
        projected_ids(state, task_id, ids),
    );
}

/// Resources that can be claimed can still be claimed where no more stands in their way.
proof fn lemma_claims_carry_over(
    before: RegistryInnerView,
    after: RegistryInnerView,
    task_id: Seq<char>,
    resources: Seq<TaskResourceRecordView>,
    count: int,
)
    requires
        0 <= count <= resources.len(),
        first_claim_problem(before, task_id, resources, count, 0) is None,
        after.outputs_by_task_id == before.outputs_by_task_id,
        after.visible_outputs_by_task_id == before.visible_outputs_by_task_id,
        after.staged_resource_owner_counts == before.staged_resource_owner_counts,
        after.pending_resource_cleanup_ids == before.pending_resource_cleanup_ids,
        gathered(after.retained_resource_snapshots, leased_ids()).subset_of(
            gathered(before.retained_resource_snapshots, leased_ids()),
        ),
        forall|id: Seq<char>|
            resource_ids(resources).contains(id) && !before.durable_resource_cleanup_ids.contains(
                id,
            ) ==> !#[trigger] after.durable_resource_cleanup_ids.contains(id),
    ensures
        first_claim_problem(after, task_id, resources, count, 0) is None,
    decreases count,
{
    if count > 0 {
        lemma_claims_carry_over(before, after, task_id, resources, count - 1);
        assert(claim_problem(before, task_id, resources, count - 1, 0) is None);
        assert(resource_ids(resources).contains(resources[count - 1].resource.id));
    }
}

/// All that holds of a claim that was granted. While it is held, its resources are owned, so that no
/// cleanup deletes their bodies, and they cannot be claimed again. The bodies to be made are exactly
/// those of resources that the task does not own yet. Once the claim is given up and the bodies have
/// been cleaned up, it can be made again.
pub proof fn law_output_claims(
    registry: BilibiliTaskRegistryView,
    id: Seq<char>,
    resources: Seq<TaskResourceRecordView>,
    instant: u64,
    record: TaskResourceRecordView,
    other_task_id: Seq<char>,
    now: Timestamp,
    later: u64,
    deleted: Set<Seq<char>>,
    again: u64,
)
    requires
        registry.well_formed(),
        staging_problem(registry, id) is None,
        claims_problem(
            without_ended_leases(registry.inner, instant),
            trimmed(id),
            resources,
            resource_ids(resources),
            0,
            registry.max_registered_resources as nat,
        ) is None,
    ensures
        ({
            let ids = resource_ids(resources);
            let limit = registry.max_registered_resources as nat;
            let state = without_ended_leases(registry.inner, instant);
            let owned = resource_ids(task_resources(state, trimmed(id)));
            let held = without_ended_leases(with_claim(state, ids), later);
            let given_up = without_ended_leases(
                with_claim_rejected(with_claim(state, ids), ids),
                later,
            );
            let cleaned = after_cleanup(given_up, deleted, now);
            &&& ids.subset_of(body_owner_ids(held, now))
            &&& ids.disjoint(cleanup_candidates(held, now))
            &&& resources.len() > 0 ==> claims_problem(
                held,
                other_task_id,
                resources,
                ids,
                0,
                limit,
            ) == Some(
                refusal(
                    Code::AlreadyExists,
                    "Task resource id is already registered: "@ + resources[0].resource.id + "."@,
                ),
            )
            &&& resources_among(resources, ids.difference(owned)).contains(record)
                <==> resources.contains(record) && !owned.contains(record.resource.id)
            &&& projected_ids(state, trimmed(id), ids).finite() && ids.disjoint(
                stale_bodies(state),
            ) && cleanup_candidates(given_up, now).subset_of(deleted) ==> claims_problem(
                without_ended_leases(cleaned, again),
                trimmed(id),
                resources,
                ids,
                0,
                limit,
            ) is None
        }),
{
    let ids = resource_ids(resources);
    let limit = registry.max_registered_resources as nat;
    let state = without_ended_leases(registry.inner, instant);
    let held = without_ended_leases(with_claim(state, ids), later);
    let given_up = without_ended_leases(with_claim_rejected(with_claim(state, ids), ids), later);
    assert(consistent(state));
    assert forall|resource_id: Seq<char>| ids.contains(resource_id) implies body_owner_ids(
        held,
        now,
    ).contains(resource_id) by {
        law_claimed_bodies_are_kept(state, ids, resource_id, now, later);
    }
    lemma_claims_staged(state, trimmed(id), resources, resources.len() as int, 0);
    assert forall|resource_id: Seq<char>| #[trigger] ids.contains(resource_id) implies staged_count(
        held,
        resource_id,
    ) > 0 by {
        let i = choose|i: int|
            0 <= i < resources.len() && (#[trigger] resources[i]).resource.id == resource_id;
        assert(staged_count(state, resources[i].resource.id) == 0);
    }
    if resources.len() > 0 {
        law_claimed_resources_cannot_be_claimed_again(
            state,
            trimmed(id),
            resources,
            limit,
            held,
            other_task_id,
            limit,
        );
    }
    law_bodies_are_made_of_new_resources(state, trimmed(id), resources, record);
    if projected_ids(state, trimmed(id), ids).finite() && ids.disjoint(stale_bodies(state))
        && cleanup_candidates(given_up, now).subset_of(deleted) {
        law_a_given_up_claim_can_be_made_again(
            state,
            trimmed(id),
            resources,
            limit,
            now,
            later,
            deleted,
            again,
        );
    }
}

} // verus!
