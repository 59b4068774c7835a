//! Records among each other: no two of them may be mistaken for one another.

use crate::decimal::{decimal, decimal_text};
use crate::id_set::IdSet;
use crate::model::output::TaskResourceRecordView;
use crate::model::record::{PersistedTaskRecord, PersistedTaskRecordView};
use crate::store::candidates::{
    validate_bilibili_request_context, validate_bilibili_task_candidate_alignment,
    validate_bilibili_task_candidates, validate_executable_bilibili_v2_download_state,
};
use crate::store::errors::{
    StoreError, StoreErrorKind, StoreErrorView, StoreLimits, error_of, first_of, invalid,
    invalid_data, len_problem, validate_collection_len,
};
use crate::store::records::{TASK_STATE_SCHEMA_VERSION, record_problem};
use crate::text::{normalize, trimmed};
use crate::visible_output::{lemma_resource_ids_prefix, resource_ids};
use vstd::prelude::*;
use vstd::string::StringExecFns;

verus! {

pub const MAX_PERSISTED_TASKS: usize = 10_000;

/// How far a count of `number` things gets: it stops at `usize::MAX`.
pub open spec fn counted(number: nat) -> nat {
    if number <= usize::MAX {
        number
    } else {
        usize::MAX as nat
    }
}

/// How many resources the first `count` records own.
pub open spec fn resource_total(records: Seq<PersistedTaskRecordView>, count: int) -> nat
    decreases count,
{
    if count <= 0 {
        0
    } else {
        resource_total(records, count - 1) + records[count - 1].output.resources.len()
    }
}

pub open spec fn too_many_resources(limit: nat) -> StoreErrorView {
    invalid(
        "task state cannot contain more than "@ + decimal_text(limit) + " registered resources"@,
    )
}

pub(crate) fn too_many_registered_resources(limit: usize) -> (error: StoreError)
    ensures
        error@ == too_many_resources(limit as nat),
{
    let message = "task state cannot contain more than ".to_owned().concat(
        decimal(limit).as_str(),
    ).concat(" registered resources");
    invalid_data(message.as_str())
}

/// What is wrong with how many resources the records own together.
pub open spec fn resource_total_problem(
    records: Seq<PersistedTaskRecordView>,
    limit: nat,
) -> Option<StoreErrorView> {
    if counted(resource_total(records, records.len() as int)) > limit {
        Some(too_many_resources(limit))
    } else {
        None
    }
}

pub fn validate_registered_task_resource_count(
    records: &Vec<PersistedTaskRecord>,
    max_registered_task_resources: usize,
) -> (result: Result<(), StoreError>)
    ensures
        error_of(result) == resource_total_problem(
            records.deep_view(),
            max_registered_task_resources as nat,
        ),
{
    let ghost all = records.deep_view();
    let mut total: usize = 0;
    for index in 0..records.len()
        invariant
            all == records.deep_view(),
            total == counted(resource_total(all, index as int)),
    {
        proof {
            assert(all[index as int] == records[index as int]@);
        }
        total = total.saturating_add(records[index].output.resources.len());
    }
    if total > max_registered_task_resources {
        return Err(too_many_registered_resources(max_registered_task_resources));
    }
    Ok(())
}

/// What identifies the records that were seen so far, and how much they hold.
#[verifier::ext_equal]
pub struct SeenRecords {
    pub task_count: nat,
    pub resource_count: nat,
    pub task_ids: Set<Seq<char>>,
    pub snapshot_ids: Set<Seq<char>>,
    pub resource_ids: Set<Seq<char>>,
}

pub open spec fn nothing_seen() -> SeenRecords {
    SeenRecords {
        task_count: 0,
        resource_count: 0,
        task_ids: Set::empty(),
        snapshot_ids: Set::empty(),
        resource_ids: Set::empty(),
    }
}

/// What was seen once `record` has been seen too.
pub open spec fn seen_with(seen: SeenRecords, record: PersistedTaskRecordView) -> SeenRecords {
    SeenRecords {
        task_count: counted(seen.task_count + 1),
        resource_count: counted(seen.resource_count + record.output.resources.len()),
        task_ids: seen.task_ids.insert(trimmed(record.task.id)),
        snapshot_ids: seen.snapshot_ids.insert(record.output.snapshot_id),
        resource_ids: seen.resource_ids.union(resource_ids(record.output.resources)),
    }
}

/// The resource at `index` was seen before, or occurs before it.
pub open spec fn clashes_at(
    seen: Set<Seq<char>>,
    resources: Seq<TaskResourceRecordView>,
    index: int,
) -> bool {
    seen.contains(resources[index].resource.id) || resource_ids(resources.take(index)).contains(
        resources[index].resource.id,
    )
}

/// The first place from `start` on at which a resource clashes, or the end.
pub open spec fn first_clash(
    seen: Set<Seq<char>>,
    resources: Seq<TaskResourceRecordView>,
    start: int,
) -> int
    decreases resources.len() - start,
{
    if start >= resources.len() {
        resources.len() as int
    } else if clashes_at(seen, resources, start) {
        start
    } else {
        first_clash(seen, resources, start + 1)
    }
}

/// With what was seen before, `record` could be mistaken for another.
pub open spec fn identity_problem(
    seen: SeenRecords,
    record: PersistedTaskRecordView,
) -> Option<StoreErrorView> {
    if seen.task_ids.contains(trimmed(record.task.id)) {
        Some(invalid("task state contains a duplicate task id"@))
    } else if seen.snapshot_ids.contains(record.output.snapshot_id) {
        Some(invalid("task state contains a duplicate task output snapshot id"@))
    } else if first_clash(seen.resource_ids, record.output.resources, 0)
        < record.output.resources.len() {
        Some(invalid("task state contains a duplicate task output resource id"@))
    } else {
        None
    }
}

/// What was seen once the names in `record` have been looked at, up to the first that was seen
/// before.
pub open spec fn with_names(seen: SeenRecords, record: PersistedTaskRecordView) -> SeenRecords {
    let resources = record.output.resources;
    if seen.task_ids.contains(trimmed(record.task.id)) {
        seen
    } else if seen.snapshot_ids.contains(record.output.snapshot_id) {
        SeenRecords { task_ids: seen.task_ids.insert(trimmed(record.task.id)), ..seen }
    } else {
        SeenRecords {
            task_ids: seen.task_ids.insert(trimmed(record.task.id)),
            snapshot_ids: seen.snapshot_ids.insert(record.output.snapshot_id),
            resource_ids: seen.resource_ids.union(
                resource_ids(resources.take(first_clash(seen.resource_ids, resources, 0))),
            ),
            ..seen
        }
    }
}

/// What was seen once the first `count` records have been seen.
pub open spec fn seen_of(records: Seq<PersistedTaskRecordView>, count: int) -> SeenRecords
    decreases count,
{
    if count <= 0 {
        nothing_seen()
    } else {
        seen_with(seen_of(records, count - 1), records[count - 1])
    }
}

/// The first of the first `count` records that could be mistaken for an earlier one.
pub open spec fn first_identity_problem(
    records: Seq<PersistedTaskRecordView>,
    count: int,
) -> Option<StoreErrorView>
    decreases count,
{
    if count <= 0 {
        None
    } else {
        first_of(
            first_identity_problem(records, count - 1),
            identity_problem(seen_of(records, count - 1), records[count - 1]),
        )
    }
}

pub open spec fn identities_problem(
    records: Seq<PersistedTaskRecordView>,
) -> Option<StoreErrorView> {
    first_identity_problem(records, records.len() as int)
}

proof fn lemma_first_identity_problem_stays(
    records: Seq<PersistedTaskRecordView>,
    count: int,
    total: int,
)
    requires
        0 <= count <= total,
        first_identity_problem(records, count) is Some,
    ensures
        first_identity_problem(records, total) == first_identity_problem(records, count),
    decreases total - count,
{
    if count < total {
        lemma_first_identity_problem_stays(records, count, total - 1);
    }
}

/// What identifies the records that were seen so far.
struct SeenIds {
    task_ids: IdSet,
    snapshot_ids: IdSet,
    resource_ids: IdSet,
}

impl SeenIds {
    spec fn shows(self, seen: SeenRecords) -> bool {
        &&& self.task_ids@ == seen.task_ids
        &&& self.snapshot_ids@ == seen.snapshot_ids
        &&& self.resource_ids@ == seen.resource_ids
    }

    /// Enters the names in `record`, up to the first that was seen before.
    fn enter(&mut self, record: &PersistedTaskRecord, Ghost(seen): Ghost<SeenRecords>) -> (result:
        Result<(), StoreError>)
        requires
            old(self).shows(seen),
        ensures
            error_of(result) == identity_problem(seen, record@),
            final(self).shows(with_names(seen, record@)),
    {
        let resources = &record.output.resources;
        let ghost all = resources.deep_view();
        if !self.task_ids.insert(normalize(record.task.id.as_str())) {
            proof {
                assert(self.task_ids@ =~= seen.task_ids);
            }
            return Err(invalid_data("task state contains a duplicate task id"));
        }
        if !self.snapshot_ids.insert(record.output.snapshot_id.clone()) {
            proof {
                assert(self.snapshot_ids@ =~= seen.snapshot_ids);
            }
            return Err(invalid_data("task state contains a duplicate task output snapshot id"));
        }
        proof {
            assert(resource_ids(all.take(0)) =~= Set::<Seq<char>>::empty());
        }
        for index in 0..resources.len()
            invariant
                all == resources.deep_view(),
                self.task_ids@ == seen.task_ids.insert(trimmed(record@.task.id)),
                self.snapshot_ids@ == seen.snapshot_ids.insert(record@.output.snapshot_id),
                self.resource_ids@ =~= seen.resource_ids.union(
                    resource_ids(all.take(index as int)),
                ),
                first_clash(seen.resource_ids, all, 0) == first_clash(
                    seen.resource_ids,
                    all,
                    index as int,
                ),
                all == record@.output.resources,
                !seen.task_ids.contains(trimmed(record@.task.id)),
                !seen.snapshot_ids.contains(record@.output.snapshot_id),
        {
            proof {
                assert(all[index as int] == resources[index as int]@);
                lemma_resource_ids_prefix(all, index as int);
            }
            let ghost entered = self.resource_ids@;
            if !self.resource_ids.insert(resources[index].resource.id.clone()) {
                proof {
                    assert(self.resource_ids@ =~= entered);
                }
                return Err(invalid_data("task state contains a duplicate task output resource id"));
            }
        }
        proof {
            assert(all.take(all.len() as int) =~= all);
        }
        Ok(())
    }
}

/// A record that cannot be mistaken for another is seen in full.
proof fn lemma_all_names(seen: SeenRecords, record: PersistedTaskRecordView)
    requires
        identity_problem(seen, record) is None,
    ensures
        ({
            let named = with_names(seen, record);
            &&& named.task_ids == seen_with(seen, record).task_ids
            &&& named.snapshot_ids == seen_with(seen, record).snapshot_ids
            &&& named.resource_ids == seen_with(seen, record).resource_ids
        }),
{
    let resources = record.output.resources;
    lemma_first_clash_in_range(seen.resource_ids, resources, 0);
    assert(resources.take(resources.len() as int) =~= resources);
}

proof fn lemma_first_clash_in_range(
    seen: Set<Seq<char>>,
    resources: Seq<TaskResourceRecordView>,
    start: int,
)
    requires
        0 <= start <= resources.len(),
    ensures
        start <= first_clash(seen, resources, start) <= resources.len(),
    decreases resources.len() - start,
{
    if start < resources.len() {
        lemma_first_clash_in_range(seen, resources, start + 1);
    }
}

/// Whether no record can be mistaken for another.
pub fn validate_unique_task_record_identities(
    records: &Vec<PersistedTaskRecord>,
) -> (result: Result<(), StoreError>)
    ensures
        error_of(result) == identities_problem(records.deep_view()),
{
    let ghost all = records.deep_view();
    let mut seen = SeenIds {
        task_ids: IdSet::new(),
        snapshot_ids: IdSet::new(),
        resource_ids: IdSet::new(),
    };
    for index in 0..records.len()
        invariant
            all == records.deep_view(),
            seen.shows(seen_of(all, index as int)),
            first_identity_problem(all, index as int) is None,
    {
        let record = &records[index];
        proof {
            assert(all[index as int] == record@);
        }
        if let Err(error) = seen.enter(record, Ghost(seen_of(all, index as int))) {
            proof {
                lemma_first_identity_problem_stays(all, index + 1, all.len() as int);
            }
            return Err(error);
        }
        proof {
            lemma_all_names(seen_of(all, index as int), record@);
        }
    }
    Ok(())
}

/// What is wrong with writing down `record`, whatever its names are, after those that were seen
/// before, but for the number of its resources: the first problem.
pub open spec fn shape_problem(
    seen: SeenRecords,
    record: PersistedTaskRecordView,
    limits: StoreLimits,
) -> Option<StoreErrorView> {
    first_of(
        len_problem("persisted tasks"@, counted(seen.task_count + 1), MAX_PERSISTED_TASKS as nat),
        first_of(
            len_problem(
                "Bilibili accepted task candidates"@,
                record.bilibili_candidates.len(),
                limits.max_task_candidates as nat,
            ),
            record_problem(record),
        ),
    )
}

/// What is wrong with how many resources there are once those of `record` are added.
pub open spec fn added_resources_problem(
    seen: SeenRecords,
    record: PersistedTaskRecordView,
    limits: StoreLimits,
) -> Option<StoreErrorView> {
    if counted(seen.resource_count + record.output.resources.len())
        > limits.max_registered_task_resources {
        Some(too_many_resources(limits.max_registered_task_resources as nat))
    } else {
        None
    }
}

/// What is wrong with writing down `record` after those that were seen before: the first problem.
pub open spec fn next_problem(
    seen: SeenRecords,
    record: PersistedTaskRecordView,
    limits: StoreLimits,
) -> Option<StoreErrorView> {
    first_of(
        shape_problem(seen, record, limits),
        first_of(added_resources_problem(seen, record, limits), identity_problem(seen, record)),
    )
}

/// What was seen once `record` has been looked at, up to its first problem. Every record counts as a
/// task, and only one of a sound shape counts with its resources. Its names are entered only if
/// there are not too many resources.
pub open spec fn seen_after(
    seen: SeenRecords,
    record: PersistedTaskRecordView,
    limits: StoreLimits,
) -> SeenRecords {
    let with_task = SeenRecords { task_count: counted(seen.task_count + 1), ..seen };
    let with_resources = SeenRecords {
        resource_count: counted(seen.resource_count + record.output.resources.len()),
        ..with_task
    };
    if shape_problem(seen, record, limits) is Some {
        with_task
    } else if added_resources_problem(seen, record, limits) is Some {
        with_resources
    } else {
        with_names(with_resources, record)
    }
}

/// Checks records one by one, on the way to the file.
pub struct PersistedTaskSequenceValidator {
    task_count: usize,
    resource_count: usize,
    ids: SeenIds,
    limits: StoreLimits,
}

impl PersistedTaskSequenceValidator {
    /// What was seen so far.
    pub closed spec fn seen(self) -> SeenRecords {
        SeenRecords {
            task_count: self.task_count as nat,
            resource_count: self.resource_count as nat,
            task_ids: self.ids.task_ids@,
            snapshot_ids: self.ids.snapshot_ids@,
            resource_ids: self.ids.resource_ids@,
        }
    }

    pub closed spec fn limits(self) -> StoreLimits {
        self.limits
    }

    pub fn new(limits: StoreLimits) -> (validator: Self)
        ensures
            validator.seen() == nothing_seen(),
            validator.limits() == limits,
    {
        let validator = PersistedTaskSequenceValidator {
            task_count: 0,
            resource_count: 0,
            ids: SeenIds {
                task_ids: IdSet::new(),
                snapshot_ids: IdSet::new(),
                resource_ids: IdSet::new(),
            },
            limits,
        };
        proof {
            assert(validator.seen() =~= nothing_seen());
        }
        validator
    }

    /// Whether `record` may follow those that were looked at before. A record that is refused has
    /// been seen up to its first problem.
    pub fn validate(&mut self, record: &PersistedTaskRecord) -> (result: Result<(), StoreError>)
        ensures
            final(self).limits() == old(self).limits(),
            error_of(result) == next_problem(old(self).seen(), record@, old(self).limits()),
            final(self).seen() == seen_after(old(self).seen(), record@, old(self).limits()),
    {
        let ghost seen = self.seen();
        self.task_count = self.task_count.saturating_add(1);
        if let Err(error) = validate_collection_len(
            "persisted tasks",
            self.task_count,
            MAX_PERSISTED_TASKS,
        ) {
            return Err(error);
        }
        if let Err(error) = validate_collection_len(
            "Bilibili accepted task candidates",
            record.bilibili_candidates.len(),
            self.limits.max_task_candidates,
        ) {
            return Err(error);
        }
        if let Err(error) = validate_record(record) {
            return Err(error);
        }
        self.resource_count = self.resource_count.saturating_add(record.output.resources.len());
        if self.resource_count > self.limits.max_registered_task_resources {
            return Err(too_many_registered_resources(self.limits.max_registered_task_resources));
        }
        let ghost counts = self.seen();
        let result = self.ids.enter(record, Ghost(counts));
        proof {
            assert(self.seen() =~= with_names(counts, record@));
        }
        result
    }
}

/// A record that is not refused has been seen in full.
pub proof fn law_sound_records_are_seen_in_full(
    seen: SeenRecords,
    record: PersistedTaskRecordView,
    limits: StoreLimits,
)
    requires
        next_problem(seen, record, limits) is None,
    ensures
        seen_after(seen, record, limits) == seen_with(seen, record),
{
    let counts = SeenRecords {
        task_count: counted(seen.task_count + 1),
        resource_count: counted(seen.resource_count + record.output.resources.len()),
        ..seen
    };
    lemma_all_names(counts, record);
}

/// A record that is refused counts as a task all the same, and the same record is refused again.
pub proof fn law_a_refused_record_stays_refused(
    seen: SeenRecords,
    record: PersistedTaskRecordView,
    limits: StoreLimits,
)
    requires
        next_problem(seen, record, limits) is Some,
    ensures
        next_problem(seen_after(seen, record, limits), record, limits) is Some,
        seen_after(seen, record, limits).task_count == counted(seen.task_count + 1),
{
    let after = seen_after(seen, record, limits);
    if shape_problem(seen, record, limits) is None && added_resources_problem(
        seen,
        record,
        limits,
    ) is None && !seen.task_ids.contains(trimmed(record.task.id)) {
        assert(after.task_ids.contains(trimmed(record.task.id)));
    }
}

fn validate_record(record: &PersistedTaskRecord) -> (result: Result<(), StoreError>)
    ensures
        error_of(result) == record_problem(record@),
{
    if let Err(error) = validate_bilibili_request_context(&record.request_context) {
        return Err(error);
    }
    if let Err(error) = validate_executable_bilibili_v2_download_state(
        TASK_STATE_SCHEMA_VERSION,
        &record.task,
        &record.options,
        &record.request_context,
        &record.bilibili_candidates,
    ) {
        return Err(error);
    }
    if let Err(error) = validate_bilibili_task_candidate_alignment(
        &record.task,
        &record.bilibili_candidates,
    ) {
        return Err(error);
    }
    validate_bilibili_task_candidates(&record.bilibili_candidates)
}

/// Each of the first `count` records may follow those before it.
pub open spec fn may_be_saved(
    records: Seq<PersistedTaskRecordView>,
    count: int,
    limits: StoreLimits,
) -> bool {
    forall|i: int|
        0 <= i < count ==> next_problem(seen_of(records, i), #[trigger] records[i], limits) is None
}

proof fn lemma_seen_resource_count(records: Seq<PersistedTaskRecordView>, count: int)
    requires
        0 <= count,
    ensures
        seen_of(records, count).resource_count == counted(resource_total(records, count)),
    decreases count,
{
    if count > 0 {
        lemma_seen_resource_count(records, count - 1);
    }
}

proof fn lemma_saved_identities(
    records: Seq<PersistedTaskRecordView>,
    count: int,
    limits: StoreLimits,
)
    requires
        0 <= count <= records.len(),
        may_be_saved(records, count, limits),
    ensures
        first_identity_problem(records, count) is None,
        count > 0 ==> counted(resource_total(records, count))
            <= limits.max_registered_task_resources,
    decreases count,
{
    if count > 0 {
        lemma_saved_identities(records, count - 1, limits);
        lemma_seen_resource_count(records, count - 1);
        assert(next_problem(seen_of(records, count - 1), records[count - 1], limits) is None);
    }
}

/// Records that may be written down one after the other also pass the checks that are made on all of
/// them when they are read back.
pub proof fn law_saved_records_are_loaded(
    records: Seq<PersistedTaskRecordView>,
    limits: StoreLimits,
)
    requires
        may_be_saved(records, records.len() as int, limits),
    ensures
        identities_problem(records) is None,
        resource_total_problem(records, limits.max_registered_task_resources as nat) is None,
{
    lemma_saved_identities(records, records.len() as int, limits);
}

proof fn lemma_seen_task(records: Seq<PersistedTaskRecordView>, index: int, count: int)
    requires
        0 <= index < count <= records.len(),
    ensures
        seen_of(records, count).task_ids.contains(trimmed(records[index].task.id)),
    decreases count,
{
    if index < count - 1 {
        lemma_seen_task(records, index, count - 1);
    }
}

/// Records of which two have the same name, but for white space around it, are refused.
pub proof fn law_colliding_tasks_are_refused(
    records: Seq<PersistedTaskRecordView>,
    first: int,
    second: int,
)
    requires
        0 <= first < second < records.len(),
        trimmed(records[first].task.id) == trimmed(records[second].task.id),
    ensures
        identities_problem(records) is Some,
        identities_problem(records)->0.kind == StoreErrorKind::InvalidData,
{
    lemma_seen_task(records, first, second);
    assert(first_identity_problem(records, second + 1) is Some);
    lemma_first_identity_problem_stays(records, second + 1, records.len() as int);
    lemma_identity_problem_kind(records, records.len() as int);
}

proof fn lemma_identity_problem_kind(records: Seq<PersistedTaskRecordView>, count: int)
    ensures
        first_identity_problem(records, count) matches Some(error) ==> error.kind
            == StoreErrorKind::InvalidData,
    decreases count,
{
    if count > 0 {
        lemma_identity_problem_kind(records, count - 1);
    }
}

} // verus!
