//! How a task is written down, and how it is read back.

use crate::decimal::{decimal, decimal_text};
use crate::model::options::{
    BilibiliDownloadOptions, BilibiliDownloadOptionsView, BilibiliPlaybackOptions,
    BilibiliPlaybackOptionsView, BilibiliRequestContext, BilibiliRequestContextView,
};
use crate::model::output::{
    CacheResourceRef, CacheResourceRefView, TaskArtifact, TaskArtifactView, TaskOutputRecord,
    TaskOutputRecordView, TaskResourceRecord, TaskResourceRecordView, TaskResult, TaskResultView,
};
use crate::model::playback::{BilibiliPlaybackSession, BilibiliPlaybackSessionView};
use crate::model::record::{
    BilibiliTaskCandidateRecord, BilibiliTaskCandidateRecordView, PersistedTaskRecord,
    PersistedTaskRecordView,
};
use crate::model::task::{BilibiliTaskResultItem, BilibiliTaskResultItemView, Task, TaskView};
use crate::plain::Plain;
use crate::store::candidates::{
    BILIBILI_REQUEST_CONTEXT_TASK_STATE_SCHEMA_VERSION, alignment_problem, candidates_problem,
    context_problem, execution_problem, migrate_legacy_executable_bilibili_v2_download_state,
    migrated_context, migrated_options, migration_problem, needs_migration,
    validate_bilibili_request_context, validate_bilibili_task_candidate_alignment,
    validate_bilibili_task_candidates, validate_executable_bilibili_v2_download_state,
};
use crate::store::errors::{
    StoreError, StoreErrorView, StoreLimits, error_of, first_of, invalid, invalid_data, len_problem,
    validate_collection_len,
};
use vstd::prelude::*;
use vstd::string::StringExecFns;

verus! {

/// The first schema. Its states hold no outputs.
pub const LEGACY_TASK_STATE_SCHEMA_VERSION: u32 = 1;

/// The first schema whose states hold accepted candidates.
pub const BILIBILI_CANDIDATE_TASK_STATE_SCHEMA_VERSION: u32 = 3;

/// The schema in which states are written.
pub const TASK_STATE_SCHEMA_VERSION: u32 = 5;

pub const MAX_PERSISTED_BILIBILI_VARIANTS: usize = 10_000;

pub const MAX_PERSISTED_DANMAKU_FORMATS: usize = 16;

/// How an output is written down.
pub struct PersistedTaskOutput {
    pub revision: u64,
    pub snapshot_id: String,
    pub primary_result_id: String,
    pub results: Vec<TaskResult>,
    pub resources: Vec<TaskResourceRecord>,
    pub legacy_managed: bool,
}

/// What a `PersistedTaskOutput` holds.
#[verifier::ext_equal]
pub struct PersistedTaskOutputView {
    pub revision: u64,
    pub snapshot_id: Seq<char>,
    pub primary_result_id: Seq<char>,
    pub results: Seq<TaskResultView>,
    pub resources: Seq<TaskResourceRecordView>,
    pub legacy_managed: bool,
}

impl View for PersistedTaskOutput {
    type V = PersistedTaskOutputView;

    open spec fn view(&self) -> PersistedTaskOutputView {
        PersistedTaskOutputView {
            revision: self.revision,
            snapshot_id: self.snapshot_id@,
            primary_result_id: self.primary_result_id@,
            results: self.results.deep_view(),
            resources: self.resources.deep_view(),
            legacy_managed: self.legacy_managed,
        }
    }
}

/// Where a resource can be fetched is not written down.
pub open spec fn without_uri(resource: CacheResourceRefView) -> CacheResourceRefView {
    CacheResourceRefView { uri: Seq::empty(), ..resource }
}

pub open spec fn stored_artifact(artifact: TaskArtifactView) -> TaskArtifactView {
    TaskArtifactView {
        resource: match artifact.resource {
            Some(resource) => Some(without_uri(resource)),
            None => None,
        },
        ..artifact
    }
}

pub open spec fn stored_result(result: TaskResultView) -> TaskResultView {
    TaskResultView {
        artifacts: Seq::new(
            result.artifacts.len(),
            |i: int| stored_artifact(result.artifacts[i]),
        ),
        ..result
    }
}

pub open spec fn stored_results(results: Seq<TaskResultView>) -> Seq<TaskResultView> {
    Seq::new(results.len(), |i: int| stored_result(results[i]))
}

pub open spec fn stored_resources(
    resources: Seq<TaskResourceRecordView>,
) -> Seq<TaskResourceRecordView> {
    Seq::new(
        resources.len(),
        |i: int| TaskResourceRecordView { resource: without_uri(resources[i].resource) },
    )
}

/// How an output is written down: without results, if those can be derived from its task.
pub open spec fn stored_output(output: TaskOutputRecordView) -> PersistedTaskOutputView {
    PersistedTaskOutputView {
        revision: output.revision,
        snapshot_id: output.snapshot_id,
        primary_result_id: output.primary_result_id,
        results: if output.legacy_managed {
            Seq::empty()
        } else {
            stored_results(output.results)
        },
        resources: stored_resources(output.resources),
        legacy_managed: output.legacy_managed,
    }
}

fn drop_uri(resource: &mut CacheResourceRef)
    ensures
        final(resource)@ == without_uri(old(resource)@),
{
    resource.uri = String::new();
}

fn store_artifact(artifact: &TaskArtifact) -> (stored: TaskArtifact)
    ensures
        stored@ == stored_artifact(artifact@),
{
    let mut stored = artifact.duplicate();
    if let Some(resource) = &mut stored.resource {
        drop_uri(resource);
    }
    stored
}

fn store_result(result: &TaskResult) -> (stored: TaskResult)
    ensures
        stored@ == stored_result(result@),
{
    let mut artifacts: Vec<TaskArtifact> = Vec::new();
    let ghost given = result@.artifacts;
    for index in 0..result.artifacts.len()
        invariant
            given == result.artifacts.deep_view(),
            artifacts@.len() == index,
            forall|i: int|
                0 <= i < index ==> (#[trigger] artifacts@[i])@ == stored_artifact(given[i]),
    {
        proof {
            assert(given[index as int] == result.artifacts[index as int]@);
        }
        artifacts.push(store_artifact(&result.artifacts[index]));
    }
    let mut stored = result.duplicate();
    stored.artifacts = artifacts;
    proof {
        assert(stored@.artifacts =~= stored_result(result@).artifacts);
    }
    stored
}

impl PersistedTaskOutput {
    pub fn from_output(output: &TaskOutputRecord) -> (stored: Self)
        ensures
            stored@ == stored_output(output@),
    {
        let mut results: Vec<TaskResult> = Vec::new();
        if !output.legacy_managed {
            for index in 0..output.results.len()
                invariant
                    results@.len() == index,
                    forall|i: int|
                        0 <= i < index ==> (#[trigger] results@[i])@ == stored_result(
                            output@.results[i],
                        ),
            {
                proof {
                    assert(output@.results[index as int] == output.results[index as int]@);
                }
                results.push(store_result(&output.results[index]));
            }
        }
        let mut resources: Vec<TaskResourceRecord> = Vec::new();
        for index in 0..output.resources.len()
            invariant
                resources@.len() == index,
                forall|i: int|
                    0 <= i < index ==> (#[trigger] resources@[i])@.resource == without_uri(
                        output@.resources[i].resource,
                    ),
        {
            proof {
                assert(output@.resources[index as int] == output.resources[index as int]@);
            }
            let mut record = output.resources[index].duplicate();
            drop_uri(&mut record.resource);
            resources.push(record);
        }
        let stored = PersistedTaskOutput {
            revision: output.revision,
            snapshot_id: output.snapshot_id.clone(),
            primary_result_id: output.primary_result_id.clone(),
            results,
            resources,
            legacy_managed: output.legacy_managed,
        };
        proof {
            assert(stored@.results =~= stored_output(output@).results);
            assert(stored@.resources =~= stored_output(output@).resources);
        }
        stored
    }
}

/// A stored result with what older states left out taken from the derived one.
pub open spec fn completed_result(
    stored: TaskResultView,
    derived: TaskResultView,
) -> TaskResultView {
    TaskResultView {
        subject: if stored.subject is None { derived.subject } else { stored.subject },
        provider_details: if stored.provider_details is None {
            derived.provider_details
        } else {
            stored.provider_details
        },
        ..stored
    }
}

pub open spec fn completed_results(
    stored: Seq<TaskResultView>,
    derived: Seq<TaskResultView>,
) -> Seq<TaskResultView> {
    Seq::new(
        stored.len(),
        |i: int|
            if i < derived.len() {
                completed_result(stored[i], derived[i])
            } else {
                stored[i]
            },
    )
}

/// What is wrong with a stored output whose results can be derived from its task.
pub open spec fn output_problem(
    stored: PersistedTaskOutputView,
    derived: Seq<TaskResultView>,
) -> Option<StoreErrorView> {
    if !stored.legacy_managed {
        None
    } else if stored.resources.len() > 0 {
        Some(invalid("legacy-managed task output cannot own resources"@))
    } else if stored.results.len() > 0 && completed_results(stored.results, derived) != derived {
        Some(invalid("legacy-managed task output does not match its task state"@))
    } else {
        None
    }
}

/// What a stored output stands for, given the results that are derived from its task.
pub open spec fn loaded_output(
    stored: PersistedTaskOutputView,
    derived: Seq<TaskResultView>,
) -> PersistedTaskOutputView {
    PersistedTaskOutputView {
        results: if stored.legacy_managed { derived } else { stored.results },
        ..stored
    }
}

fn complete_results(
    stored: &Vec<TaskResult>,
    derived: &Vec<TaskResult>,
) -> (completed: Vec<TaskResult>)
    ensures
        completed.deep_view() == completed_results(stored.deep_view(), derived.deep_view()),
{
    let mut completed: Vec<TaskResult> = Vec::new();
    for index in 0..stored.len()
        invariant
            completed@.len() == index,
            forall|i: int|
                0 <= i < index ==> (#[trigger] completed@[i])@ == completed_results(
                    stored.deep_view(),
                    derived.deep_view(),
                )[i],
    {
        let mut result = stored[index].duplicate();
        proof {
            assert(stored.deep_view()[index as int] == stored[index as int]@);
        }
        if index < derived.len() {
            proof {
                assert(derived.deep_view()[index as int] == derived[index as int]@);
            }
            if result.subject.is_none() {
                result.subject = derived[index].subject.duplicate();
            }
            if result.provider_details.is_none() {
                result.provider_details = derived[index].provider_details.duplicate();
            }
        }
        completed.push(result);
    }
    proof {
        assert(completed.deep_view() =~= completed_results(
            stored.deep_view(),
            derived.deep_view(),
        ));
    }
    completed
}

/// The output of a state that holds none: the one that is derived from the task, with no result
/// named as the primary one.
pub open spec fn derived_output(derived: TaskOutputRecordView) -> PersistedTaskOutputView {
    PersistedTaskOutputView {
        revision: derived.revision,
        snapshot_id: derived.snapshot_id,
        primary_result_id: Seq::empty(),
        results: derived.results,
        resources: derived.resources,
        legacy_managed: derived.legacy_managed,
    }
}

impl PersistedTaskOutput {
    /// Reads an output back. `derived_results` are the results that are derived from its task.
    pub fn into_output(self, derived_results: Vec<TaskResult>) -> (result: Result<
        PersistedTaskOutput,
        StoreError,
    >)
        ensures
            error_of(result) == output_problem(self@, derived_results.deep_view()),
            result matches Ok(output) ==> output@ == loaded_output(
                self@,
                derived_results.deep_view(),
            ),
    {
        if !self.legacy_managed {
            return Ok(self);
        }
        if self.resources.len() > 0 {
            return Err(invalid_data("legacy-managed task output cannot own resources"));
        }
        if self.results.len() > 0 {
            let completed = complete_results(&self.results, &derived_results);
            if !completed.same_as(&derived_results) {
                return Err(invalid_data("legacy-managed task output does not match its task state"));
            }
        }
        let mut output = self;
        output.results = derived_results;
        Ok(output)
    }

    /// The output of a state that holds none.
    pub fn from_derived(derived: TaskOutputRecord) -> (output: Self)
        ensures
            output@ == derived_output(derived@),
    {
        PersistedTaskOutput {
            revision: derived.revision,
            snapshot_id: derived.snapshot_id,
            primary_result_id: String::new(),
            results: derived.results,
            resources: derived.resources,
            legacy_managed: derived.legacy_managed,
        }
    }
}

/// What was written down of a task, apart from its output.
pub struct PersistedTaskFile {
    pub task: Task,
    pub options: Option<BilibiliDownloadOptions>,
    pub playback_options: Option<BilibiliPlaybackOptions>,
    pub request_context: Option<BilibiliRequestContext>,
    pub bilibili_candidates: Vec<BilibiliTaskCandidateRecord>,
    /// An output was written down too.
    pub has_output: bool,
}

/// What a `PersistedTaskFile` holds.
#[verifier::ext_equal]
pub struct PersistedTaskFileView {
    pub task: TaskView,
    pub options: Option<BilibiliDownloadOptionsView>,
    pub playback_options: Option<BilibiliPlaybackOptionsView>,
    pub request_context: Option<BilibiliRequestContextView>,
    pub bilibili_candidates: Seq<BilibiliTaskCandidateRecordView>,
    pub has_output: bool,
}

impl View for PersistedTaskFile {
    type V = PersistedTaskFileView;

    open spec fn view(&self) -> PersistedTaskFileView {
        PersistedTaskFileView {
            task: self.task@,
            options: self.options.deep_view(),
            playback_options: self.playback_options.deep_view(),
            request_context: self.request_context.deep_view(),
            bilibili_candidates: self.bilibili_candidates.deep_view(),
            has_output: self.has_output,
        }
    }
}

/// The options of a file, after its migration.
pub open spec fn current_options(
    file: PersistedTaskFileView,
    schema_version: u32,
) -> Option<BilibiliDownloadOptionsView> {
    if needs_migration(schema_version, file.task, file.bilibili_candidates) {
        Some(migrated_options(file.options))
    } else {
        file.options
    }
}

/// The request context of a file, after its migration.
pub open spec fn current_context(
    file: PersistedTaskFileView,
    schema_version: u32,
) -> Option<BilibiliRequestContextView> {
    if needs_migration(schema_version, file.task, file.bilibili_candidates) {
        Some(migrated_context(file.options))
    } else {
        file.request_context
    }
}

/// What a file holds that its schema does not know.
pub open spec fn schema_problem(
    file: PersistedTaskFileView,
    schema_version: u32,
) -> Option<StoreErrorView> {
    if schema_version < BILIBILI_CANDIDATE_TASK_STATE_SCHEMA_VERSION
        && file.bilibili_candidates.len() > 0 {
        Some(invalid("task state schemas before v3 cannot contain accepted Bilibili candidates"@))
    } else if schema_version < BILIBILI_REQUEST_CONTEXT_TASK_STATE_SCHEMA_VERSION
        && file.request_context is Some {
        Some(invalid("task state schemas before v4 cannot contain a Bilibili request context"@))
    } else {
        None
    }
}

/// What is wrong with a file: the first problem.
pub open spec fn file_problem(
    file: PersistedTaskFileView,
    schema_version: u32,
) -> Option<StoreErrorView> {
    let options = current_options(file, schema_version);
    let context = current_context(file, schema_version);
    first_of(
        schema_problem(file, schema_version),
        first_of(
            candidates_problem(file.bilibili_candidates),
            first_of(
                migration_problem(
                    schema_version,
                    file.task,
                    file.options,
                    file.bilibili_candidates,
                ),
                first_of(
                    context_problem(context),
                    first_of(
                        execution_problem(
                            schema_version,
                            file.task,
                            options,
                            context,
                            file.bilibili_candidates,
                        ),
                        first_of(
                            alignment_problem(file.task, file.bilibili_candidates),
                            if schema_version > LEGACY_TASK_STATE_SCHEMA_VERSION
                                && !file.has_output {
                                Some(missing_output(schema_version))
                            } else {
                                None
                            },
                        ),
                    ),
                ),
            ),
        ),
    )
}

pub open spec fn missing_output(schema_version: u32) -> StoreErrorView {
    invalid(
        "task state schema v"@ + decimal_text(schema_version as nat) + " task is missing output"@,
    )
}

/// A record that only lacks its output.
pub struct RecordDraft {
    pub task: Task,
    pub options: Option<BilibiliDownloadOptions>,
    pub playback_options: Option<BilibiliPlaybackOptions>,
    pub request_context: Option<BilibiliRequestContext>,
    pub bilibili_candidates: Vec<BilibiliTaskCandidateRecord>,
    /// The schema holds outputs.
    pub output_is_stored: bool,
}

impl PersistedTaskFile {
    /// Reads a task back, up to its output.
    pub fn into_draft(self, schema_version: u32) -> (result: Result<RecordDraft, StoreError>)
        ensures
            error_of(result) == file_problem(self@, schema_version),
            result matches Ok(draft) ==> {
                &&& draft.task@ == (TaskView { output_summary: None, ..self@.task })
                &&& draft.options.deep_view() == current_options(self@, schema_version)
                &&& draft.playback_options.deep_view() == self@.playback_options
                &&& draft.request_context.deep_view() == current_context(self@, schema_version)
                &&& draft.bilibili_candidates.deep_view() == self@.bilibili_candidates
                &&& draft.output_is_stored == (schema_version > LEGACY_TASK_STATE_SCHEMA_VERSION)
            },
    {
        if schema_version < BILIBILI_CANDIDATE_TASK_STATE_SCHEMA_VERSION
            && self.bilibili_candidates.len() > 0 {
            return Err(
                invalid_data(
                    "task state schemas before v3 cannot contain accepted Bilibili candidates",
                ),
            );
        }
        if schema_version < BILIBILI_REQUEST_CONTEXT_TASK_STATE_SCHEMA_VERSION
            && self.request_context.is_some() {
            return Err(
                invalid_data(
                    "task state schemas before v4 cannot contain a Bilibili request context",
                ),
            );
        }
        if let Err(error) = validate_bilibili_task_candidates(&self.bilibili_candidates) {
            return Err(error);
        }
        let mut task = self.task;
        let mut options = self.options;
        let mut request_context = self.request_context;
        if let Err(error) = migrate_legacy_executable_bilibili_v2_download_state(
            schema_version,
            &task,
            &mut options,
            &mut request_context,
            &self.bilibili_candidates,
        ) {
            return Err(error);
        }
        if let Err(error) = validate_bilibili_request_context(&request_context) {
            return Err(error);
        }
        if let Err(error) = validate_executable_bilibili_v2_download_state(
            schema_version,
            &task,
            &options,
            &request_context,
            &self.bilibili_candidates,
        ) {
            return Err(error);
        }
        if let Err(error) = validate_bilibili_task_candidate_alignment(
            &task,
            &self.bilibili_candidates,
        ) {
            return Err(error);
        }
        if schema_version > LEGACY_TASK_STATE_SCHEMA_VERSION && !self.has_output {
            let message = "task state schema v".to_owned().concat(
                decimal(schema_version as usize).as_str(),
            ).concat(" task is missing output");
            return Err(invalid_data(message.as_str()));
        }
        task.output_summary = None;
        Ok(
            RecordDraft {
                task,
                options,
                playback_options: self.playback_options,
                request_context,
                bilibili_candidates: self.bilibili_candidates,
                output_is_stored: schema_version > LEGACY_TASK_STATE_SCHEMA_VERSION,
            },
        )
    }
}

impl RecordDraft {
    /// The output of the record, before the rest of the server has looked at it. `derived` is the
    /// output that is derived from the task; it takes the place of one that is not stored.
    pub fn load_output(
        &self,
        stored: Option<PersistedTaskOutput>,
        derived: TaskOutputRecord,
    ) -> (result: Result<PersistedTaskOutput, StoreError>)
        ensures
            match stored {
                Some(stored) if self.output_is_stored => {
                    &&& error_of(result) == output_problem(stored@, derived@.results)
                    &&& result matches Ok(output) ==> output@ == loaded_output(
                        stored@,
                        derived@.results,
                    )
                },
                _ => result matches Ok(output) && output@ == derived_output(derived@),
            },
    {
        match stored {
            Some(stored) if self.output_is_stored => stored.into_output(derived.results),
            _ => Ok(PersistedTaskOutput::from_derived(derived)),
        }
    }

    /// The record with its output.
    pub fn into_record(self, output: TaskOutputRecord) -> (record: PersistedTaskRecord)
        ensures
            record@ == (PersistedTaskRecordView {
                task: self.task@,
                options: self.options.deep_view(),
                playback_options: self.playback_options.deep_view(),
                request_context: self.request_context.deep_view(),
                bilibili_candidates: self.bilibili_candidates.deep_view(),
                output: output@,
            }),
    {
        PersistedTaskRecord {
            task: self.task,
            options: self.options,
            playback_options: self.playback_options,
            request_context: self.request_context,
            bilibili_candidates: self.bilibili_candidates,
            output,
        }
    }
}

/// How a record is written down.
pub open spec fn file_of(record: PersistedTaskRecordView) -> PersistedTaskFileView {
    PersistedTaskFileView {
        task: record.task,
        options: record.options,
        playback_options: record.playback_options,
        request_context: record.request_context,
        bilibili_candidates: record.bilibili_candidates,
        has_output: true,
    }
}

/// What is wrong with a record that is to be written down, apart from how much it holds.
pub open spec fn record_problem(record: PersistedTaskRecordView) -> Option<StoreErrorView> {
    first_of(
        context_problem(record.request_context),
        first_of(
            execution_problem(
                TASK_STATE_SCHEMA_VERSION,
                record.task,
                record.options,
                record.request_context,
                record.bilibili_candidates,
            ),
            first_of(
                alignment_problem(record.task, record.bilibili_candidates),
                candidates_problem(record.bilibili_candidates),
            ),
        ),
    )
}

/// What may be written down can be read back, and nothing of it has changed.
pub proof fn law_saved_record_is_loaded(record: PersistedTaskRecordView)
    requires
        record_problem(record) is None,
    ensures
        file_problem(file_of(record), TASK_STATE_SCHEMA_VERSION) is None,
        current_options(file_of(record), TASK_STATE_SCHEMA_VERSION) == record.options,
        current_context(file_of(record), TASK_STATE_SCHEMA_VERSION) == record.request_context,
{
}

/// An output comes back as it was, but for where its resources can be fetched. If its results are
/// derived from its task, they must be those that were derived, and it must own no resources.
pub proof fn law_saved_output_is_loaded(
    output: TaskOutputRecordView,
    derived: Seq<TaskResultView>,
)
    requires
        output.legacy_managed ==> output.results == derived && output.resources.len() == 0,
    ensures
        output_problem(stored_output(output), derived) is None,
        loaded_output(stored_output(output), derived) == (PersistedTaskOutputView {
            revision: output.revision,
            snapshot_id: output.snapshot_id,
            primary_result_id: output.primary_result_id,
            results: if output.legacy_managed {
                output.results
            } else {
                stored_results(output.results)
            },
            resources: stored_resources(output.resources),
            legacy_managed: output.legacy_managed,
        }),
{
}

pub open spec fn variants_problem(
    label: Seq<char>,
    session: Option<BilibiliPlaybackSessionView>,
) -> Option<StoreErrorView> {
    match session {
        Some(session) => len_problem(
            label,
            session.variants.len(),
            MAX_PERSISTED_BILIBILI_VARIANTS as nat,
        ),
        None => None,
    }
}

fn validate_variants(
    label: &str,
    session: &Option<BilibiliPlaybackSession>,
) -> (result: Result<(), StoreError>)
    ensures
        error_of(result) == variants_problem(label@, session.deep_view()),
{
    match session {
        Some(session) => validate_collection_len(
            label,
            session.variants.len(),
            MAX_PERSISTED_BILIBILI_VARIANTS,
        ),
        None => Ok(()),
    }
}

/// The first problem with the sessions of the first `count` results.
pub open spec fn first_item_problem(
    items: Seq<BilibiliTaskResultItemView>,
    count: int,
) -> Option<StoreErrorView>
    decreases count,
{
    if count <= 0 {
        None
    } else {
        first_of(
            first_item_problem(items, count - 1),
            variants_problem(
                "Bilibili playback variants"@,
                items[count - 1].playback_session,
            ),
        )
    }
}

proof fn lemma_first_item_problem_stays(
    items: Seq<BilibiliTaskResultItemView>,
    count: int,
    total: int,
)
    requires
        0 <= count <= total,
        first_item_problem(items, count) is Some,
    ensures
        first_item_problem(items, total) == first_item_problem(items, count),
    decreases total - count,
{
    if count < total {
        lemma_first_item_problem_stays(items, count, total - 1);
    }
}

fn validate_item_variants(items: &Vec<BilibiliTaskResultItem>) -> (result: Result<(), StoreError>)
    ensures
        error_of(result) == first_item_problem(items.deep_view(), items@.len() as int),
{
    let ghost all = items.deep_view();
    for index in 0..items.len()
        invariant
            all == items.deep_view(),
            first_item_problem(all, index as int) is None,
    {
        proof {
            assert(all[index as int] == items[index as int]@);
        }
        if let Err(error) = validate_variants(
            "Bilibili playback variants",
            &items[index].playback_session,
        ) {
            proof {
                lemma_first_item_problem_stays(all, index + 1, all.len() as int);
            }
            return Err(error);
        }
    }
    Ok(())
}

/// The session that the details of a result hold.
pub open spec fn details_session(result: TaskResultView) -> Option<BilibiliPlaybackSessionView> {
    match result.provider_details {
        Some(details) => match details.bilibili {
            Some(bilibili) => bilibili.playback_session,
            None => None,
        },
        None => None,
    }
}

/// The first problem with the sessions in the details of the first `count` results.
pub open spec fn first_details_problem(
    results: Seq<TaskResultView>,
    count: int,
) -> Option<StoreErrorView>
    decreases count,
{
    if count <= 0 {
        None
    } else {
        first_of(
            first_details_problem(results, count - 1),
            variants_problem(
                "Bilibili task result playback variants"@,
                details_session(results[count - 1]),
            ),
        )
    }
}

proof fn lemma_first_details_problem_stays(
    results: Seq<TaskResultView>,
    count: int,
    total: int,
)
    requires
        0 <= count <= total,
        first_details_problem(results, count) is Some,
    ensures
        first_details_problem(results, total) == first_details_problem(results, count),
    decreases total - count,
{
    if count < total {
        lemma_first_details_problem_stays(results, count, total - 1);
    }
}

fn validate_details_variants(results: &Vec<TaskResult>) -> (result: Result<(), StoreError>)
    ensures
        error_of(result) == first_details_problem(results.deep_view(), results@.len() as int),
{
    let ghost all = results.deep_view();
    for index in 0..results.len()
        invariant
            all == results.deep_view(),
            first_details_problem(all, index as int) is None,
    {
        proof {
            assert(all[index as int] == results[index as int]@);
        }
        let checked = match &results[index].provider_details {
            Some(details) => match &details.bilibili {
                Some(bilibili) => validate_variants(
                    "Bilibili task result playback variants",
                    &bilibili.playback_session,
                ),
                None => Ok(()),
            },
            None => Ok(()),
        };
        if let Err(error) = checked {
            proof {
                lemma_first_details_problem_stays(all, index + 1, all.len() as int);
            }
            return Err(error);
        }
    }
    Ok(())
}

/// How many artifacts the first `count` results hold.
pub open spec fn artifact_total(results: Seq<TaskResultView>, count: int) -> nat
    decreases count,
{
    if count <= 0 {
        0
    } else {
        artifact_total(results, count - 1) + results[count - 1].artifacts.len()
    }
}

/// How many artifacts the results hold. The count stops at `usize::MAX`.
fn count_artifacts(results: &Vec<TaskResult>) -> (total: usize)
    ensures
        total == if artifact_total(results.deep_view(), results@.len() as int) <= usize::MAX {
            artifact_total(results.deep_view(), results@.len() as int)
        } else {
            usize::MAX as nat
        },
{
    let ghost all = results.deep_view();
    let mut total: usize = 0;
    for index in 0..results.len()
        invariant
            all == results.deep_view(),
            total == if artifact_total(all, index as int) <= usize::MAX {
                artifact_total(all, index as int)
            } else {
                usize::MAX as nat
            },
    {
        proof {
            assert(all[index as int] == results[index as int]@);
        }
        let more: usize = results[index].artifacts.len();
        total =
        if more > usize::MAX - total {
            usize::MAX
        } else {
            total + more
        };
    }
    total
}

/// What is wrong with how much a stored output holds.
pub open spec fn output_len_problem(
    output: PersistedTaskOutputView,
    limits: StoreLimits,
) -> Option<StoreErrorView> {
    let artifacts = artifact_total(output.results, output.results.len() as int);
    first_of(
        len_problem(
            "task output results"@,
            output.results.len(),
            limits.max_task_results as nat,
        ),
        first_of(
            len_problem(
                "task output resources"@,
                output.resources.len(),
                limits.max_task_resources as nat,
            ),
            first_of(
                if artifacts <= usize::MAX || limits.max_task_artifacts < usize::MAX {
                    len_problem(
                        "task output artifacts"@,
                        artifacts,
                        limits.max_task_artifacts as nat,
                    )
                } else {
                    None
                },
                first_details_problem(output.results, output.results.len() as int),
            ),
        ),
    )
}

/// What is wrong with how much a record holds: the first problem.
pub open spec fn record_len_problem(
    record: PersistedTaskRecordView,
    limits: StoreLimits,
) -> Option<StoreErrorView> {
    let task = record.task;
    first_of(
        len_problem(
            "Bilibili task result items"@,
            task.result_items.len(),
            limits.max_task_results as nat,
        ),
        first_of(
            match task.bilibili_selection {
                Some(selection) => len_problem(
                    "Bilibili selection ids"@,
                    selection.selection_ids.len(),
                    limits.max_task_results as nat,
                ),
                None => None,
            },
            first_of(
                len_problem(
                    "Bilibili accepted task candidates"@,
                    record.bilibili_candidates.len(),
                    limits.max_task_candidates as nat,
                ),
                first_of(
                    match record.options {
                        Some(options) => len_problem(
                            "Bilibili danmaku formats"@,
                            options.danmaku_formats.len(),
                            MAX_PERSISTED_DANMAKU_FORMATS as nat,
                        ),
                        None => None,
                    },
                    first_of(
                        variants_problem("Bilibili playback variants"@, task.playback_session),
                        first_of(
                            first_item_problem(
                                task.result_items,
                                task.result_items.len() as int,
                            ),
                            output_len_problem(stored_output(record.output), limits),
                        ),
                    ),
                ),
            ),
        ),
    )
}

fn validate_output_limits(
    output: &PersistedTaskOutput,
    limits: &StoreLimits,
) -> (result: Result<(), StoreError>)
    ensures
        error_of(result) == output_len_problem(output@, *limits),
{
    if let Err(error) = validate_collection_len(
        "task output results",
        output.results.len(),
        limits.max_task_results,
    ) {
        return Err(error);
    }
    if let Err(error) = validate_collection_len(
        "task output resources",
        output.resources.len(),
        limits.max_task_resources,
    ) {
        return Err(error);
    }
    if let Err(error) = validate_collection_len(
        "task output artifacts",
        count_artifacts(&output.results),
        limits.max_task_artifacts,
    ) {
        return Err(error);
    }
    validate_details_variants(&output.results)
}

/// Whether a record holds no more than a stored state may hold.
pub fn validate_collection_limits(
    record: &PersistedTaskRecord,
    limits: &StoreLimits,
) -> (result: Result<(), StoreError>)
    ensures
        error_of(result) == record_len_problem(record@, *limits),
{
    let task = &record.task;
    if let Err(error) = validate_collection_len(
        "Bilibili task result items",
        task.result_items.len(),
        limits.max_task_results,
    ) {
        return Err(error);
    }
    if let Some(selection) = &task.bilibili_selection {
        if let Err(error) = validate_collection_len(
            "Bilibili selection ids",
            selection.selection_ids.len(),
            limits.max_task_results,
        ) {
            return Err(error);
        }
    }
    if let Err(error) = validate_collection_len(
        "Bilibili accepted task candidates",
        record.bilibili_candidates.len(),
        limits.max_task_candidates,
    ) {
        return Err(error);
    }
    if let Some(options) = &record.options {
        if let Err(error) = validate_collection_len(
            "Bilibili danmaku formats",
            options.danmaku_formats.len(),
            MAX_PERSISTED_DANMAKU_FORMATS,
        ) {
            return Err(error);
        }
    }
    if let Err(error) = validate_variants("Bilibili playback variants", &task.playback_session) {
        return Err(error);
    }
    if let Err(error) = validate_item_variants(&task.result_items) {
        return Err(error);
    }
    validate_output_limits(&PersistedTaskOutput::from_output(&record.output), limits)
}

} // verus!
