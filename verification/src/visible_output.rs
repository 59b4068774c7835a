//! Which resources of an output can be fetched.

use crate::id_set::IdSet;
use crate::model::basics::TaskArtifactState;
use crate::model::output::{
    TaskArtifact, TaskArtifactView, TaskOutputRecord, TaskOutputRecordView, TaskResourceRecord,
    TaskResourceRecordView, TaskResult, TaskResultView,
};
use crate::model::visible::{
    RetainedTaskResourceSnapshot, TaskOutputSnapshot, VisibleTaskOutput, VisibleTaskOutputView,
};
use crate::plain::Plain;
use crate::table::Table;
use crate::text::{ascii_lower, lowercase_text};
use vstd::prelude::*;

verus! {

/// The resources to which the available artifacts in `artifacts` point.
pub open spec fn artifact_resource_ids(artifacts: Seq<TaskArtifactView>) -> Set<Seq<char>>
    decreases artifacts.len(),
{
    if artifacts.len() == 0 {
        Set::empty()
    } else {
        let ids = artifact_resource_ids(artifacts.drop_last());
        let artifact = artifacts.last();
        match artifact.resource {
            Some(resource) => if artifact.state == TaskArtifactState::Available {
                ids.insert(ascii_lower(resource.id))
            } else {
                ids
            },
            None => ids,
        }
    }
}

/// The resources to which the available artifacts of the results in `results` point.
pub open spec fn available_ids(results: Seq<TaskResultView>) -> Set<Seq<char>>
    decreases results.len(),
{
    if results.len() == 0 {
        Set::empty()
    } else {
        available_ids(results.drop_last()).union(artifact_resource_ids(results.last().artifacts))
    }
}

/// The records in `resources` whose identifier is in `ids`, by identifier.
pub open spec fn resources_in(
    resources: Seq<TaskResourceRecordView>,
    ids: Set<Seq<char>>,
) -> Map<Seq<char>, TaskResourceRecordView>
    decreases resources.len(),
{
    if resources.len() == 0 {
        Map::empty()
    } else {
        let found = resources_in(resources.drop_last(), ids);
        let last = resources.last();
        if ids.contains(last.resource.id) {
            found.insert(last.resource.id, last)
        } else {
            found
        }
    }
}

/// The output as clients see it.
pub open spec fn shown(record: TaskOutputRecordView) -> VisibleTaskOutputView {
    VisibleTaskOutputView {
        record,
        encoded_bytes: record.encoded_bytes,
        available_resources_by_id: resources_in(record.resources, available_ids(record.results)),
    }
}

fn add_artifact_resource_ids(ids: &mut IdSet, artifacts: &Vec<TaskArtifact>)
    ensures
        final(ids)@ == old(ids)@.union(artifact_resource_ids(artifacts.deep_view())),
{
    let ghost before = ids@;
    let ghost all = artifacts.deep_view();
    proof {
        assert(all.take(0).len() == 0);
        assert(before.union(artifact_resource_ids(all.take(0))) =~= before);
    }
    for index in 0..artifacts.len()
        invariant
            all == artifacts.deep_view(),
            ids@ == before.union(artifact_resource_ids(all.take(index as int))),
    {
        let artifact = &artifacts[index];
        proof {
            assert(all.take(index + 1).drop_last() =~= all.take(index as int));
            assert(all.take(index + 1).last() == artifact@);
        }
        if let Some(resource) = &artifact.resource {
            if artifact.state == TaskArtifactState::Available {
                let _ = ids.insert(lowercase_text(resource.id.as_str()));
            }
        }
        proof {
            assert(ids@ =~= before.union(artifact_resource_ids(all.take(index + 1))));
        }
    }
    proof {
        assert(all.take(all.len() as int) =~= all);
    }
}

fn available_resource_ids(results: &Vec<TaskResult>) -> (ids: IdSet)
    ensures
        ids@ == available_ids(results.deep_view()),
{
    let mut ids = IdSet::new();
    let ghost all = results.deep_view();
    proof {
        assert(all.take(0).len() == 0);
    }
    for index in 0..results.len()
        invariant
            all == results.deep_view(),
            ids@ == available_ids(all.take(index as int)),
    {
        proof {
            assert(all.take(index + 1).drop_last() =~= all.take(index as int));
            assert(all.take(index + 1).last() == results[index as int]@);
        }
        add_artifact_resource_ids(&mut ids, &results[index].artifacts);
    }
    proof {
        assert(all.take(all.len() as int) =~= all);
    }
    ids
}

impl VisibleTaskOutput {
    pub fn new(record: TaskOutputRecord) -> (output: Self)
        ensures
            output@ == shown(record@),
    {
        let ids = available_resource_ids(&record.results);
        let mut available_resources_by_id: Table<String, TaskResourceRecord> = Table::new();
        let ghost all = record@.resources;
        proof {
            assert(all.take(0).len() == 0);
        }
        for index in 0..record.resources.len()
            invariant
                all == record@.resources,
                ids@ == available_ids(record@.results),
                available_resources_by_id@ == resources_in(all.take(index as int), ids@),
        {
            let resource = &record.resources[index];
            proof {
                assert(all.take(index + 1).drop_last() =~= all.take(index as int));
                assert(all.take(index + 1).last() == resource@);
            }
            if ids.contains(&resource.resource.id) {
                available_resources_by_id.insert(resource.resource.id.clone(), resource.duplicate());
            }
        }
        proof {
            assert(all.take(all.len() as int) =~= all);
        }
        let encoded_bytes: usize = record.encoded_bytes;
        VisibleTaskOutput { record, encoded_bytes, available_resources_by_id }
    }
}

/// An output that is shown already is not shown anew: the same revision under the same snapshot
/// identifier stands for the same output.
pub open spec fn shown_after(
    previous: Option<VisibleTaskOutputView>,
    record: TaskOutputRecordView,
) -> VisibleTaskOutputView {
    match previous {
        Some(output) => if output.record.revision == record.revision && output.record.snapshot_id
            == record.snapshot_id {
            output
        } else {
            shown(record)
        },
        None => shown(record),
    }
}

pub fn shared_visible_task_output(
    previous: Option<&VisibleTaskOutput>,
    record: &TaskOutputRecord,
) -> (output: VisibleTaskOutput)
    ensures
        output@ == shown_after(
            match previous {
                Some(output) => Some(output@),
                None => None,
            },
            record@,
        ),
{
    if let Some(output) = previous {
        if output.record.revision == record.revision && output.record.snapshot_id
            == record.snapshot_id {
            return output.duplicate();
        }
    }
    VisibleTaskOutput::new(record.duplicate())
}

impl RetainedTaskResourceSnapshot {
    pub fn from_output(snapshot: &TaskOutputSnapshot) -> (retained: Self)
        ensures
            retained@.expires_at == snapshot@.resource_lease_expires_at,
            retained@.output == snapshot@.output,
    {
        RetainedTaskResourceSnapshot {
            expires_at: snapshot.resource_lease_expires_at,
            output: snapshot.output.duplicate(),
        }
    }
}

/// The identifiers of the records in `resources`.
pub open spec fn resource_ids(resources: Seq<TaskResourceRecordView>) -> Set<Seq<char>> {
    Set::new(
        |id: Seq<char>|
            exists|i: int| 0 <= i < resources.len() && (#[trigger] resources[i]).resource.id == id,
    )
}

pub proof fn lemma_resource_ids_prefix(resources: Seq<TaskResourceRecordView>, index: int)
    requires
        0 <= index < resources.len(),
    ensures
        resource_ids(resources.take(index + 1)) =~= resource_ids(resources.take(index)).insert(
            resources[index].resource.id,
        ),
{
    let short = resources.take(index);
    let long = resources.take(index + 1);
    assert forall|id: Seq<char>| resource_ids(long).contains(id) <==> resource_ids(short).insert(
        resources[index].resource.id,
    ).contains(id) by {
        if resource_ids(long).contains(id) {
            let i = choose|i: int| 0 <= i < long.len() && (#[trigger] long[i]).resource.id == id;
            if i < index {
                assert(short[i].resource.id == id);
            }
        }
        if resource_ids(short).contains(id) {
            let i = choose|i: int| 0 <= i < short.len() && (#[trigger] short[i]).resource.id == id;
            assert(long[i].resource.id == id);
        }
        assert(long[index] == resources[index]);
    }
}

/// Adds the identifiers of `resources`.
pub(crate) fn add_resource_ids(ids: &mut IdSet, resources: &Vec<TaskResourceRecord>)
    ensures
        final(ids)@ == old(ids)@.union(resource_ids(resources.deep_view())),
{
    let ghost before = ids@;
    let ghost all = resources.deep_view();
    proof {
        assert(before.union(resource_ids(all.take(0))) =~= before);
    }
    for index in 0..resources.len()
        invariant
            all == resources.deep_view(),
            ids@ == before.union(resource_ids(all.take(index as int))),
    {
        let _ = ids.insert(resources[index].resource.id.clone());
        proof {
            assert(all[index as int] == resources[index as int]@);
            lemma_resource_ids_prefix(all, index as int);
            assert(ids@ =~= before.union(resource_ids(all.take(index + 1))));
        }
    }
    proof {
        assert(all.take(all.len() as int) =~= all);
    }
}

} // verus!
