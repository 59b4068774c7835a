//! Who owns the body files of resources, and which of them may be deleted.

use crate::decimal::{decimal, decimal_text};
use crate::gather::{add_keys, all_but, gathered, lemma_gathered_ends, lemma_gathered_step};
use crate::id_set::{IdSet, lemma_take_to_set};
use crate::inner::checkpoint::consistent;
use crate::model::basics::Timestamp;
use crate::model::output::{
    TaskOutputRecord, TaskOutputRecordView, TaskResourceRecord, TaskResourceRecordView,
};
use crate::model::state::{RegistryInner, RegistryInnerView};
use crate::model::visible::{
    RetainedTaskResourceSnapshot, RetainedTaskResourceSnapshotView, VisibleTaskOutput,
    VisibleTaskOutputView,
};
use crate::plain::Plain;
use crate::status::{Code, Status, StatusView, refusal};
use crate::table::Table;
use crate::timing::{expired, is_expired};
use crate::visible_output::{add_resource_ids, lemma_resource_ids_prefix, resource_ids};
use vstd::prelude::*;
use vstd::string::StringExecFns;

verus! {

pub open spec fn owned_ids() -> spec_fn(TaskOutputRecordView) -> Set<Seq<char>> {
    |output: TaskOutputRecordView| resource_ids(output.resources)
}

pub open spec fn shown_ids() -> spec_fn(VisibleTaskOutputView) -> Set<Seq<char>> {
    |output: VisibleTaskOutputView| resource_ids(output.record.resources)
}

pub open spec fn fetchable_ids() -> spec_fn(VisibleTaskOutputView) -> Set<Seq<char>> {
    |output: VisibleTaskOutputView| output.available_resources_by_id.dom()
}

pub open spec fn leased_ids() -> spec_fn(RetainedTaskResourceSnapshotView) -> Set<Seq<char>> {
    |snapshot: RetainedTaskResourceSnapshotView| resource_ids(snapshot.output.record.resources)
}

/// The identifiers of the records in `resources` that have not expired.
pub open spec fn unexpired_ids(
    resources: Seq<TaskResourceRecordView>,
    now: Timestamp,
) -> Set<Seq<char>> {
    Set::new(
        |id: Seq<char>|
            exists|i: int|
                0 <= i < resources.len() && (#[trigger] resources[i]).resource.id == id
                    && !expired(resources[i].resource.expires_at, now),
    )
}

pub open spec fn live_leased_ids(
    now: Timestamp,
) -> spec_fn(RetainedTaskResourceSnapshotView) -> Set<Seq<char>> {
    |snapshot: RetainedTaskResourceSnapshotView|
        unexpired_ids(snapshot.output.record.resources, now)
}

fn add_owned_ids(
    ids: &mut IdSet,
    outputs: &Table<String, TaskOutputRecord>,
    except: Option<&String>,
)
    ensures
        final(ids)@ == old(ids)@.union(
            gathered(
                all_but(
                    outputs@,
                    match except {
                        Some(id) => Some(id@),
                        None => None,
                    },
                ),
                owned_ids(),
            ),
        ),
{
    let count: usize = outputs.len();
    let ghost keys = outputs.keys();
    let ghost before = ids@;
    let ghost skipped = match except {
        Some(id) => Some(id@),
        None => None,
    };
    proof {
        lemma_gathered_ends(outputs@, skipped, owned_ids(), keys);
        assert(before =~= before.union(
            gathered(all_but(outputs@.restrict(keys.take(0).to_set()), skipped), owned_ids()),
        ));
    }
    for index in 0..count
        invariant
            count == keys.len(),
            keys == outputs.keys(),
            skipped == (match except {
                Some(id) => Some(id@),
                None => None,
            }),
            forall|key: Seq<char>| outputs@.contains_key(key) <==> keys.contains(key),
            ids@ =~= before.union(
                gathered(
                    all_but(outputs@.restrict(keys.take(index as int).to_set()), skipped),
                    owned_ids(),
                ),
            ),
    {
        proof {
            lemma_gathered_step(outputs@, skipped, owned_ids(), keys, index as int);
        }
        let skip: bool = match except {
            Some(id) => *outputs.key_at(index) == *id,
            None => false,
        };
        if !skip {
            add_resource_ids(ids, &outputs.value_at(index).resources);
        }
    }
}

fn add_shown_ids(ids: &mut IdSet, outputs: &Table<String, VisibleTaskOutput>)
    ensures
        final(ids)@ == old(ids)@.union(gathered(outputs@, shown_ids())),
{
    let count: usize = outputs.len();
    let ghost keys = outputs.keys();
    let ghost before = ids@;
    proof {
        lemma_gathered_ends(outputs@, None, shown_ids(), keys);
    }
    for index in 0..count
        invariant
            count == keys.len(),
            keys == outputs.keys(),
            forall|key: Seq<char>| outputs@.contains_key(key) <==> keys.contains(key),
            ids@ =~= before.union(
                gathered(
                    all_but(outputs@.restrict(keys.take(index as int).to_set()), None),
                    shown_ids(),
                ),
            ),
    {
        proof {
            lemma_gathered_step(outputs@, None, shown_ids(), keys, index as int);
        }
        add_resource_ids(ids, &outputs.value_at(index).record.resources);
    }
}

fn add_fetchable_ids(
    ids: &mut IdSet,
    outputs: &Table<String, VisibleTaskOutput>,
    except: Option<&String>,
)
    ensures
        final(ids)@ == old(ids)@.union(
            gathered(
                all_but(
                    outputs@,
                    match except {
                        Some(id) => Some(id@),
                        None => None,
                    },
                ),
                fetchable_ids(),
            ),
        ),
{
    let count: usize = outputs.len();
    let ghost keys = outputs.keys();
    let ghost before = ids@;
    let ghost skipped = match except {
        Some(id) => Some(id@),
        None => None,
    };
    proof {
        lemma_gathered_ends(outputs@, skipped, fetchable_ids(), keys);
    }
    for index in 0..count
        invariant
            count == keys.len(),
            keys == outputs.keys(),
            skipped == (match except {
                Some(id) => Some(id@),
                None => None,
            }),
            forall|key: Seq<char>| outputs@.contains_key(key) <==> keys.contains(key),
            ids@ =~= before.union(
                gathered(
                    all_but(outputs@.restrict(keys.take(index as int).to_set()), skipped),
                    fetchable_ids(),
                ),
            ),
    {
        proof {
            lemma_gathered_step(outputs@, skipped, fetchable_ids(), keys, index as int);
        }
        let skip: bool = match except {
            Some(id) => *outputs.key_at(index) == *id,
            None => false,
        };
        if !skip {
            add_keys(ids, &outputs.value_at(index).available_resources_by_id);
        }
    }
}

fn add_leased_ids(ids: &mut IdSet, snapshots: &Table<String, RetainedTaskResourceSnapshot>)
    ensures
        final(ids)@ == old(ids)@.union(gathered(snapshots@, leased_ids())),
{
    let count: usize = snapshots.len();
    let ghost keys = snapshots.keys();
    let ghost before = ids@;
    proof {
        lemma_gathered_ends(snapshots@, None, leased_ids(), keys);
    }
    for index in 0..count
        invariant
            count == keys.len(),
            keys == snapshots.keys(),
            forall|key: Seq<char>| snapshots@.contains_key(key) <==> keys.contains(key),
            ids@ =~= before.union(
                gathered(
                    all_but(snapshots@.restrict(keys.take(index as int).to_set()), None),
                    leased_ids(),
                ),
            ),
    {
        proof {
            lemma_gathered_step(snapshots@, None, leased_ids(), keys, index as int);
        }
        add_resource_ids(ids, &snapshots.value_at(index).output.record.resources);
    }
}

fn add_live_leased_ids(
    ids: &mut IdSet,
    snapshots: &Table<String, RetainedTaskResourceSnapshot>,
    now: &Timestamp,
)
    ensures
        final(ids)@ == old(ids)@.union(gathered(snapshots@, live_leased_ids(*now))),
{
    let count: usize = snapshots.len();
    let ghost keys = snapshots.keys();
    let ghost before = ids@;
    proof {
        lemma_gathered_ends(snapshots@, None, live_leased_ids(*now), keys);
    }
    for index in 0..count
        invariant
            count == keys.len(),
            keys == snapshots.keys(),
            forall|key: Seq<char>| snapshots@.contains_key(key) <==> keys.contains(key),
            ids@ =~= before.union(
                gathered(
                    all_but(snapshots@.restrict(keys.take(index as int).to_set()), None),
                    live_leased_ids(*now),
                ),
            ),
    {
        proof {
            lemma_gathered_step(snapshots@, None, live_leased_ids(*now), keys, index as int);
        }
        add_unexpired_ids(ids, &snapshots.value_at(index).output.record.resources, now);
    }
}

fn add_unexpired_ids(ids: &mut IdSet, resources: &Vec<TaskResourceRecord>, now: &Timestamp)
    ensures
        final(ids)@ == old(ids)@.union(unexpired_ids(resources.deep_view(), *now)),
{
    let ghost before = ids@;
    let ghost all = resources.deep_view();
    proof {
        assert(before.union(unexpired_ids(all.take(0), *now)) =~= before);
    }
    for index in 0..resources.len()
        invariant
            all == resources.deep_view(),
            ids@ =~= before.union(unexpired_ids(all.take(index as int), *now)),
    {
        let record = &resources[index];
        proof {
            assert(all[index as int] == record@);
            let short = all.take(index as int);
            let long = all.take(index + 1);
            assert forall|id: Seq<char>| unexpired_ids(long, *now).contains(id) <==> (unexpired_ids(
                short,
                *now,
            ).contains(id) || (id == record@.resource.id && !expired(
                record@.resource.expires_at,
                *now,
            ))) by {
                if unexpired_ids(long, *now).contains(id) {
                    let i = choose|i: int|
                        0 <= i < long.len() && (#[trigger] long[i]).resource.id == id && !expired(
                            long[i].resource.expires_at,
                            *now,
                        );
                    if i < index {
                        assert(short[i] == long[i]);
                    }
                }
                if unexpired_ids(short, *now).contains(id) {
                    let i = choose|i: int|
                        0 <= i < short.len() && (#[trigger] short[i]).resource.id == id && !expired(
                            short[i].resource.expires_at,
                            *now,
                        );
                    assert(long[i] == short[i]);
                }
                assert(long[index as int] == record@);
            }
        }
        if !is_expired(&record.resource.expires_at, now) {
            let _ = ids.insert(record.resource.id.clone());
        }
    }
    proof {
        assert(all.take(all.len() as int) =~= all);
    }
}

/// The resources that live outputs own.
pub open spec fn output_ids(state: RegistryInnerView) -> Set<Seq<char>> {
    gathered(state.outputs_by_task_id, owned_ids())
}

/// The resources whose body files must stay: those of live outputs, of outputs that clients see,
/// of unexpired leases, and those that are just being created.
pub open spec fn body_owner_ids(state: RegistryInnerView, now: Timestamp) -> Set<Seq<char>> {
    output_ids(state).union(gathered(state.visible_outputs_by_task_id, shown_ids())).union(
        gathered(state.retained_resource_snapshots, live_leased_ids(now)),
    ).union(state.staged_resource_owner_counts.dom())
}

/// The resources that the registry has any reason to remember.
pub open spec fn reserved_ids(state: RegistryInnerView) -> Set<Seq<char>> {
    output_ids(state).union(gathered(state.visible_outputs_by_task_id, fetchable_ids())).union(
        gathered(state.retained_resource_snapshots, leased_ids()),
    ).union(state.pending_resource_cleanup_ids).union(state.durable_resource_cleanup_ids).union(
        state.resource_storage_revalidation_ids,
    ).union(state.staged_resource_owner_counts.dom())
}

/// The resources that would be registered if those in `candidates` became resources of the task
/// `task_id`.
pub open spec fn projected_ids(
    state: RegistryInnerView,
    task_id: Seq<char>,
    candidates: Set<Seq<char>>,
) -> Set<Seq<char>> {
    gathered(state.outputs_by_task_id.remove(task_id), owned_ids()).union(
        gathered(state.visible_outputs_by_task_id.remove(task_id), fetchable_ids()),
    ).union(gathered(state.retained_resource_snapshots, leased_ids())).union(
        state.pending_resource_cleanup_ids,
    ).union(state.durable_resource_cleanup_ids).union(
        state.staged_resource_owner_counts.dom(),
    ).union(candidates)
}

/// The record with the identifier `id`; of several, the last.
pub open spec fn record_named(
    resources: Seq<TaskResourceRecordView>,
    id: Seq<char>,
) -> Option<TaskResourceRecordView>
    decreases resources.len(),
{
    if resources.len() == 0 {
        None
    } else if resources.last().resource.id == id {
        Some(resources.last())
    } else {
        record_named(resources.drop_last(), id)
    }
}

fn find_record<'a>(
    resources: &'a Vec<TaskResourceRecord>,
    id: &String,
) -> (found: Option<&'a TaskResourceRecord>)
    ensures
        match found {
            Some(record) => record_named(resources.deep_view(), id@) == Some(record@),
            None => record_named(resources.deep_view(), id@) is None,
        },
{
    let ghost all = resources.deep_view();
    let mut index: usize = resources.len();
    proof {
        assert(all.take(all.len() as int) =~= all);
    }
    while index > 0
        invariant
            all == resources.deep_view(),
            index <= resources@.len(),
            record_named(all, id@) == record_named(all.take(index as int), id@),
        decreases index,
    {
        index = index - 1;
        proof {
            assert(all.take(index + 1).drop_last() =~= all.take(index as int));
            assert(all.take(index + 1).last() == resources[index as int]@);
        }
        if resources[index].resource.id == *id {
            return Some(&resources[index]);
        }
    }
    None
}

/// The resources that the task `task_id` owns.
pub open spec fn task_resources(
    state: RegistryInnerView,
    task_id: Seq<char>,
) -> Seq<TaskResourceRecordView> {
    if state.outputs_by_task_id.contains_key(task_id) {
        state.outputs_by_task_id[task_id].resources
    } else {
        Seq::empty()
    }
}

pub open spec fn staged_count(state: RegistryInnerView, id: Seq<char>) -> nat {
    if state.staged_resource_owner_counts.contains_key(id) {
        state.staged_resource_owner_counts[id] as nat
    } else {
        0
    }
}

/// Why the resource `resources[index]` cannot be one of the task `task_id`. `claims` is how often
/// the caller itself has staged it.
pub open spec fn claim_problem(
    state: RegistryInnerView,
    task_id: Seq<char>,
    resources: Seq<TaskResourceRecordView>,
    index: int,
    claims: nat,
) -> Option<StatusView> {
    let record = resources[index];
    let id = record.resource.id;
    let owned = record_named(task_resources(state, task_id), id);
    if resource_ids(resources.take(index)).contains(id) {
        Some(refusal(Code::InvalidArgument, "Duplicate task resource id: "@ + id + "."@))
    } else if staged_count(state, id) < claims {
        Some(
            refusal(
                Code::FailedPrecondition,
                "Task output resource staging ownership was lost."@,
            ),
        )
    } else if owned is Some && owned != Some(record) {
        Some(
            refusal(
                Code::InvalidArgument,
                "Task resource id cannot be reused for a different representation: "@ + id + "."@,
            ),
        )
    } else if staged_count(state, id) > claims || gathered(
        state.outputs_by_task_id.remove(task_id),
        owned_ids(),
    ).contains(id) || (owned is None && (gathered(
        state.visible_outputs_by_task_id,
        fetchable_ids(),
    ).contains(id) || gathered(state.retained_resource_snapshots, leased_ids()).contains(id)
        || state.pending_resource_cleanup_ids.contains(id)
        || state.durable_resource_cleanup_ids.contains(id))) {
        Some(
            refusal(Code::AlreadyExists, "Task resource id is already registered: "@ + id + "."@),
        )
    } else {
        None
    }
}

/// The first problem among the first `count` resources.
pub open spec fn first_claim_problem(
    state: RegistryInnerView,
    task_id: Seq<char>,
    resources: Seq<TaskResourceRecordView>,
    count: int,
    claims: nat,
) -> Option<StatusView>
    decreases count,
{
    if count <= 0 {
        None
    } else {
        match first_claim_problem(state, task_id, resources, count - 1, claims) {
            Some(problem) => Some(problem),
            None => claim_problem(state, task_id, resources, count - 1, claims),
        }
    }
}

pub open spec fn capacity_refusal(limit: nat) -> StatusView {
    refusal(
        Code::ResourceExhausted,
        "Task resource storage cannot register more than "@ + decimal_text(limit)
            + " resource ids."@,
    )
}

/// Why the resources in `resources` cannot become those of the task `task_id`.
pub open spec fn claims_problem(
    state: RegistryInnerView,
    task_id: Seq<char>,
    resources: Seq<TaskResourceRecordView>,
    candidates: Set<Seq<char>>,
    claims: nat,
    limit: nat,
) -> Option<StatusView> {
    match first_claim_problem(state, task_id, resources, resources.len() as int, claims) {
        Some(problem) => Some(problem),
        None => if projected_ids(state, task_id, candidates).len() > limit {
            Some(capacity_refusal(limit))
        } else {
            None
        },
    }
}

pub open spec fn problem_of<T>(result: Result<T, Status>) -> Option<StatusView> {
    match result {
        Ok(_) => None,
        Err(status) => Some(status@),
    }
}

/// The staged counts with one more owner of each resource in `ids`.
pub open spec fn claimed(
    counts: Map<Seq<char>, usize>,
    ids: Set<Seq<char>>,
) -> Map<Seq<char>, usize> {
    Map::new(
        |id: Seq<char>| counts.contains_key(id) || ids.contains(id),
        |id: Seq<char>|
            if !ids.contains(id) {
                counts[id]
            } else if counts.contains_key(id) {
                (counts[id] + 1) as usize
            } else {
                1
            },
    )
}

/// The staged counts with one owner fewer of each resource in `ids`.
pub open spec fn released(
    counts: Map<Seq<char>, usize>,
    ids: Set<Seq<char>>,
) -> Map<Seq<char>, usize> {
    Map::new(
        |id: Seq<char>| counts.contains_key(id) && !(ids.contains(id) && counts[id] <= 1),
        |id: Seq<char>|
            if ids.contains(id) {
                (counts[id] - 1) as usize
            } else {
                counts[id]
            },
    )
}

impl RegistryInner {
    pub fn output_resource_ids(&self) -> (ids: IdSet)
        ensures
            ids@ == output_ids(self@),
    {
        let mut ids = IdSet::new();
        add_owned_ids(&mut ids, &self.outputs_by_task_id, None);
        proof {
            assert(ids@ =~= output_ids(self@));
        }
        ids
    }

    pub fn resource_body_owner_ids(&self, now: &Timestamp) -> (ids: IdSet)
        ensures
            ids@ == body_owner_ids(self@, *now),
    {
        let mut ids = self.output_resource_ids();
        add_shown_ids(&mut ids, &self.visible_outputs_by_task_id);
        add_live_leased_ids(&mut ids, &self.retained_resource_snapshots, now);
        add_keys(&mut ids, &self.staged_resource_owner_counts);
        ids
    }

    pub fn reserved_resource_ids(&self) -> (ids: IdSet)
        ensures
            ids@ == reserved_ids(self@),
    {
        let mut ids = self.output_resource_ids();
        add_fetchable_ids(&mut ids, &self.visible_outputs_by_task_id, None);
        add_leased_ids(&mut ids, &self.retained_resource_snapshots);
        ids.extend(&self.pending_resource_cleanup_ids);
        ids.extend(&self.durable_resource_cleanup_ids);
        ids.extend(&self.resource_storage_revalidation_ids);
        add_keys(&mut ids, &self.staged_resource_owner_counts);
        ids
    }

    fn validate_claim(
        &self,
        task_id: &String,
        resources: &Vec<TaskResourceRecord>,
        index: usize,
        claims: usize,
        seen_ids: &IdSet,
        other_task_ids: &IdSet,
        fetchable: &IdSet,
        leased: &IdSet,
    ) -> (result: Result<(), Status>)
        requires
            index < resources@.len(),
            seen_ids@ == resource_ids(resources.deep_view().take(index as int)),
            other_task_ids@ == gathered(self@.outputs_by_task_id.remove(task_id@), owned_ids()),
            fetchable@ == gathered(self@.visible_outputs_by_task_id, fetchable_ids()),
            leased@ == gathered(self@.retained_resource_snapshots, leased_ids()),
        ensures
            problem_of(result) == claim_problem(
                self@,
                task_id@,
                resources.deep_view(),
                index as int,
                claims as nat,
            ),
    {
        let record = &resources[index];
        proof {
            assert(resources.deep_view()[index as int] == record@);
        }
        let id = &record.resource.id;
        if seen_ids.contains(id) {
            let message = "Duplicate task resource id: ".to_owned().concat(id.as_str()).concat(".");
            return Err(Status::new(Code::InvalidArgument, message.as_str()));
        }
        let staged_owner_count: usize = match self.staged_resource_owner_counts.get(id) {
            Some(count) => *count,
            None => 0,
        };
        if staged_owner_count < claims {
            return Err(
                Status::new(
                    Code::FailedPrecondition,
                    "Task output resource staging ownership was lost.",
                ),
            );
        }
        let owned = match self.outputs_by_task_id.get(task_id) {
            Some(output) => find_record(&output.resources, id),
            None => None,
        };
        let differs: bool = match owned {
            Some(existing) => !existing.same_as(record),
            None => false,
        };
        if differs {
            let message =
                "Task resource id cannot be reused for a different representation: ".to_owned().concat(
            id.as_str()).concat(".");
            return Err(Status::new(Code::InvalidArgument, message.as_str()));
        }
        if staged_owner_count > claims || other_task_ids.contains(id) || (owned.is_none() && (
        fetchable.contains(id) || leased.contains(id) || self.pending_resource_cleanup_ids.contains(
            id,
        ) || self.durable_resource_cleanup_ids.contains(id))) {
            let message = "Task resource id is already registered: ".to_owned().concat(
                id.as_str(),
            ).concat(".");
            return Err(Status::new(Code::AlreadyExists, message.as_str()));
        }
        Ok(())
    }

    /// Whether the resources in `resources` may become those of the task `task_id`.
    pub fn validate_task_output_resource_claims(
        &self,
        task_id: &String,
        resources: &Vec<TaskResourceRecord>,
        candidate_resource_ids: &IdSet,
        claim_is_registered: bool,
        max_registered_resources: usize,
    ) -> (result: Result<(), Status>)
        ensures
            problem_of(result) == claims_problem(
                self@,
                task_id@,
                resources.deep_view(),
                candidate_resource_ids@,
                if claim_is_registered {
                    1
                } else {
                    0
                },
                max_registered_resources as nat,
            ),
    {
        let claims: usize = if claim_is_registered {
            1
        } else {
            0
        };
        let mut other_task_ids = IdSet::new();
        add_owned_ids(&mut other_task_ids, &self.outputs_by_task_id, Some(task_id));
        let mut fetchable = IdSet::new();
        add_fetchable_ids(&mut fetchable, &self.visible_outputs_by_task_id, None);
        let mut leased = IdSet::new();
        add_leased_ids(&mut leased, &self.retained_resource_snapshots);
        proof {
            assert(other_task_ids@ =~= gathered(
                self@.outputs_by_task_id.remove(task_id@),
                owned_ids(),
            ));
            assert(fetchable@ =~= gathered(self@.visible_outputs_by_task_id, fetchable_ids()));
            assert(leased@ =~= gathered(self@.retained_resource_snapshots, leased_ids()));
        }
        let mut seen_ids = IdSet::new();
        let ghost all = resources.deep_view();
        proof {
            assert(seen_ids@ =~= resource_ids(all.take(0)));
        }
        for index in 0..resources.len()
            invariant
                all == resources.deep_view(),
                claims == if claim_is_registered {
                    1nat
                } else {
                    0nat
                },
                seen_ids@ == resource_ids(all.take(index as int)),
                other_task_ids@ == gathered(self@.outputs_by_task_id.remove(task_id@), owned_ids()),
                fetchable@ == gathered(self@.visible_outputs_by_task_id, fetchable_ids()),
                leased@ == gathered(self@.retained_resource_snapshots, leased_ids()),
                first_claim_problem(self@, task_id@, all, index as int, claims as nat) is None,
        {
            let checked = self.validate_claim(
                task_id,
                resources,
                index,
                claims,
                &seen_ids,
                &other_task_ids,
                &fetchable,
                &leased,
            );
            if let Err(status) = checked {
                proof {
                    assert(first_claim_problem(self@, task_id@, all, index + 1, claims as nat)
                        == Some(status@));
                    lemma_first_problem_stays(
                        self@,
                        task_id@,
                        all,
                        index + 1,
                        all.len() as int,
                        claims as nat,
                    );
                }
                return Err(status);
            }
            let _ = seen_ids.insert(resources[index].resource.id.clone());
            proof {
                assert(all[index as int] == resources[index as int]@);
                lemma_resource_ids_prefix(all, index as int);
                assert(first_claim_problem(self@, task_id@, all, index + 1, claims as nat) is None);
            }
        }
        let mut projected = other_task_ids;
        add_fetchable_ids(&mut projected, &self.visible_outputs_by_task_id, Some(task_id));
        add_leased_ids(&mut projected, &self.retained_resource_snapshots);
        projected.extend(&self.pending_resource_cleanup_ids);
        projected.extend(&self.durable_resource_cleanup_ids);
        add_keys(&mut projected, &self.staged_resource_owner_counts);
        projected.extend(candidate_resource_ids);
        proof {
            assert(projected@ =~= projected_ids(self@, task_id@, candidate_resource_ids@));
        }
        if projected.len() > max_registered_resources {
            let message = "Task resource storage cannot register more than ".to_owned().concat(
                decimal(max_registered_resources).as_str(),
            ).concat(" resource ids.");
            return Err(Status::new(Code::ResourceExhausted, message.as_str()));
        }
        Ok(())
    }

    /// Counts one more owner of each resource in `resource_ids`.
    pub fn claim_staged_resource_owners(&mut self, resource_ids: &IdSet)
        requires
            forall|id: Seq<char>| #[trigger]
                old(self)@.staged_resource_owner_counts.contains_key(id) && resource_ids@.contains(id)
                    ==> old(self)@.staged_resource_owner_counts[id] < usize::MAX,
        ensures
            final(self)@ == (RegistryInnerView {
                staged_resource_owner_counts: claimed(
                    old(self)@.staged_resource_owner_counts,
                    resource_ids@,
                ),
                ..old(self)@
            }),
    {
        let count: usize = resource_ids.len();
        let ghost before = self@;
        let ghost counts = self@.staged_resource_owner_counts;
        let ghost listed = resource_ids.listed();
        proof {
            assert(claimed(counts, listed.take(0).to_set()) =~= counts);
        }
        for index in 0..count
            invariant
                count == listed.len(),
                listed == resource_ids.listed(),
                listed.no_duplicates(),
                resource_ids@ == listed.to_set(),
                counts == before.staged_resource_owner_counts,
                forall|id: Seq<char>| #[trigger]
                    counts.contains_key(id) && resource_ids@.contains(id) ==> counts[id]
                        < usize::MAX,
                self@ == (RegistryInnerView {
                    staged_resource_owner_counts: claimed(
                        counts,
                        listed.take(index as int).to_set(),
                    ),
                    ..before
                }),
        {
            proof {
                lemma_take_to_set(listed, index as int);
                lemma_not_in_prefix(listed, index as int);
            }
            let id = resource_ids.id_at(index);
            let next: usize = match self.staged_resource_owner_counts.get(id) {
                Some(count) => *count + 1,
                None => 1,
            };
            self.staged_resource_owner_counts.insert(id.clone(), next);
            proof {
                assert(self@.staged_resource_owner_counts =~= claimed(
                    counts,
                    listed.take(index + 1).to_set(),
                ));
            }
        }
        proof {
            assert(listed.take(count as int) =~= listed);
        }
    }

    /// Counts one owner fewer of each resource in `resource_ids`.
    pub fn release_staged_resource_owners(&mut self, resource_ids: &IdSet)
        requires
            consistent(old(self)@),
            resource_ids@.subset_of(old(self)@.staged_resource_owner_counts.dom()),
        ensures
            final(self)@ == (RegistryInnerView {
                staged_resource_owner_counts: released(
                    old(self)@.staged_resource_owner_counts,
                    resource_ids@,
                ),
                ..old(self)@
            }),
            consistent(final(self)@),
    {
        let count: usize = resource_ids.len();
        let ghost before = self@;
        let ghost counts = self@.staged_resource_owner_counts;
        let ghost listed = resource_ids.listed();
        proof {
            assert(released(counts, listed.take(0).to_set()) =~= counts);
        }
        for index in 0..count
            invariant
                count == listed.len(),
                listed == resource_ids.listed(),
                listed.no_duplicates(),
                resource_ids@ == listed.to_set(),
                counts == before.staged_resource_owner_counts,
                consistent(before),
                resource_ids@.subset_of(counts.dom()),
                self@ == (RegistryInnerView {
                    staged_resource_owner_counts: released(
                        counts,
                        listed.take(index as int).to_set(),
                    ),
                    ..before
                }),
        {
            proof {
                lemma_take_to_set(listed, index as int);
                lemma_not_in_prefix(listed, index as int);
            }
            let id = resource_ids.id_at(index);
            proof {
                assert(counts.contains_key(id@));
                assert(self@.staged_resource_owner_counts.contains_key(id@));
            }
            let current: usize = match self.staged_resource_owner_counts.get(id) {
                Some(count) => *count,
                None => 0,
            };
            if current > 1 {
                self.staged_resource_owner_counts.insert(id.clone(), current - 1);
            } else {
                let _ = self.staged_resource_owner_counts.remove(id);
            }
            proof {
                assert(self@.staged_resource_owner_counts =~= released(
                    counts,
                    listed.take(index + 1).to_set(),
                ));
            }
        }
        proof {
            assert(listed.take(count as int) =~= listed);
        }
    }

    /// Marks for deletion those of `candidates` that nothing accounts for, and says whether there
    /// are any.
    pub fn reserve_unowned_resource_cleanup(&mut self, candidates: &IdSet) -> (cleanup_needed: bool)
        ensures
            final(self)@ == (RegistryInnerView {
                durable_resource_cleanup_ids: old(self)@.durable_resource_cleanup_ids.union(
                    candidates@.difference(reserved_ids(old(self)@)),
                ),
                ..old(self)@
            }),
            cleanup_needed == !(candidates@.difference(reserved_ids(old(self)@)) =~= Set::empty()),
    {
        let reserved = self.reserved_resource_ids();
        let orphaned = without_ids(candidates, &reserved);
        let cleanup_needed: bool = !orphaned.is_empty();
        self.durable_resource_cleanup_ids.extend(&orphaned);
        cleanup_needed
    }

    /// Forgets the leases that have ended.
    pub fn prune_expired_resource_snapshots(&mut self, now: u64)
        ensures
            final(self)@ == (RegistryInnerView {
                retained_resource_snapshots: unexpired_leases(
                    old(self)@.retained_resource_snapshots,
                    now,
                ),
                ..old(self)@
            }),
    {
        let mut kept: Table<String, RetainedTaskResourceSnapshot> = Table::new();
        let count: usize = self.retained_resource_snapshots.len();
        let ghost keys = self.retained_resource_snapshots.keys();
        let ghost wanted = unexpired_leases(self@.retained_resource_snapshots, now);
        for index in 0..count
            invariant
                count == keys.len(),
                keys == self.retained_resource_snapshots.keys(),
                wanted == unexpired_leases(self@.retained_resource_snapshots, now),
                kept@.dom() =~= wanted.dom().intersect(keys.take(index as int).to_set()),
                forall|id: Seq<char>| #[trigger]
                    kept@.contains_key(id) ==> kept@[id] == wanted[id],
        {
            proof {
                lemma_take_to_set(keys, index as int);
            }
            let snapshot = self.retained_resource_snapshots.value_at(index);
            if snapshot.expires_at > now {
                kept.insert(
                    self.retained_resource_snapshots.key_at(index).clone(),
                    snapshot.duplicate(),
                );
            }
        }
        proof {
            assert(keys.take(count as int) =~= keys);
            assert forall|id: Seq<char>| wanted.contains_key(id) implies keys.to_set().contains(
                id,
            ) by {
                assert(self@.retained_resource_snapshots.contains_key(id));
            }
            assert(kept@ =~= wanted);
        }
        self.retained_resource_snapshots = kept;
    }
}

pub open spec fn unexpired_leases(
    leases: Map<Seq<char>, RetainedTaskResourceSnapshotView>,
    now: u64,
) -> Map<Seq<char>, RetainedTaskResourceSnapshotView> {
    Map::new(
        |id: Seq<char>| leases.contains_key(id) && leases[id].expires_at > now,
        |id: Seq<char>| leases[id],
    )
}

/// The identifiers in `ids` that are not in `excluded`.
pub(crate) fn without_ids(ids: &IdSet, excluded: &IdSet) -> (rest: IdSet)
    ensures
        rest@ == ids@.difference(excluded@),
{
    let mut rest = IdSet::new();
    let count: usize = ids.len();
    let ghost listed = ids.listed();
    proof {
        assert(listed.take(0).to_set() =~= Set::<Seq<char>>::empty());
    }
    for index in 0..count
        invariant
            count == listed.len(),
            listed == ids.listed(),
            rest@ =~= listed.take(index as int).to_set().difference(excluded@),
    {
        proof {
            lemma_take_to_set(listed, index as int);
        }
        let id = ids.id_at(index);
        if !excluded.contains(id) {
            let _ = rest.insert(id.clone());
        }
    }
    proof {
        assert(listed.take(count as int) =~= listed);
        assert(rest@ =~= ids@.difference(excluded@));
    }
    rest
}

proof fn lemma_not_in_prefix(listed: Seq<Seq<char>>, index: int)
    requires
        listed.no_duplicates(),
        0 <= index < listed.len(),
    ensures
        !listed.take(index).to_set().contains(listed[index]),
        listed.to_set().contains(listed[index]),
{
    if listed.take(index).contains(listed[index]) {
        let i = listed.take(index).index_of(listed[index]);
        assert(listed[i] == listed[index]);
    }
    assert(listed.contains(listed[index]));
}

/// Resources without a problem are staged as often as the caller has staged them, and no two are
/// the same.
pub proof fn lemma_claims_staged(
    state: RegistryInnerView,
    task_id: Seq<char>,
    resources: Seq<TaskResourceRecordView>,
    count: int,
    claims: nat,
)
    requires
        0 <= count <= resources.len(),
        first_claim_problem(state, task_id, resources, count, claims) is None,
    ensures
        forall|i: int|
            0 <= i < count ==> staged_count(state, (#[trigger] resources[i]).resource.id) == claims,
    decreases count,
{
    if count > 0 {
        lemma_claims_staged(state, task_id, resources, count - 1, claims);
        assert(claim_problem(state, task_id, resources, count - 1, claims) is None);
    }
}

/// The first problem of some resources is the first problem of all.
pub proof fn lemma_first_problem_stays(
    state: RegistryInnerView,
    task_id: Seq<char>,
    resources: Seq<TaskResourceRecordView>,
    count: int,
    total: int,
    claims: nat,
)
    requires
        0 <= count <= total,
        first_claim_problem(state, task_id, resources, count, claims) is Some,
    ensures
        first_claim_problem(state, task_id, resources, total, claims) == first_claim_problem(
            state,
            task_id,
            resources,
            count,
            claims,
        ),
    decreases total - count,
{
    if count < total {
        lemma_first_problem_stays(state, task_id, resources, count, total - 1, claims);
    }
}

/// A record that has a name is one of the resources.
pub proof fn lemma_record_named(resources: Seq<TaskResourceRecordView>, id: Seq<char>)
    ensures
        record_named(resources, id) is Some ==> resource_ids(resources).contains(id),
    decreases resources.len(),
{
    if resources.len() > 0 {
        lemma_record_named(resources.drop_last(), id);
        if resources.last().resource.id == id {
            assert(resources[resources.len() - 1].resource.id == id);
        } else if record_named(resources, id) is Some {
            let i = choose|i: int|
                0 <= i < resources.drop_last().len() && (
                #[trigger] resources.drop_last()[i]).resource.id == id;
            assert(resources[i].resource.id == id);
        }
    }
}

} // verus!
