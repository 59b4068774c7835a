//! What is written down of tasks, and what is read back.

use std::cell::Cell;
use std::io::ErrorKind;

use bilibili_tasks::model::basics::{
    Progress, TaskArtifactState, TaskKind, TaskState, Timestamp,
};
use bilibili_tasks::model::options::{
    BilibiliApiMode, BilibiliDownloadMode, BilibiliDownloadOptions, BilibiliPlaybackOptions,
    BilibiliPlaybackPolicy, BilibiliRequestContext, BilibiliSubtitleAiPolicy,
    BilibiliTaskSelection,
};
use bilibili_tasks::model::output::{
    BilibiliTaskResultDetails, CacheResourceRef, TaskArtifact, TaskOutputRecord, TaskProblem,
    TaskResourceRecord, TaskResult, TaskResultProgress, TaskResultProviderDetails,
    TaskResultSubject,
};
use bilibili_tasks::model::playback::{
    BilibiliPlaybackSession, BilibiliPlaybackVariant, ContentIdentityMessage, LanTranscodingPlan,
    PlaybackSource,
};
use bilibili_tasks::model::record::{
    BilibiliContentIdentity, BilibiliContentKind, BilibiliTaskCandidateRecord, PersistedTaskRecord,
};
use bilibili_tasks::model::task::{BilibiliTaskResultItem, Task};
use bilibili_tasks::registry::commit::TaskStateSaveOutcome;
use bilibili_tasks::store::budget::{
    BudgetClaim, BudgetKind, BudgetState, NextRead, PersistedBudget,
};
use bilibili_tasks::store::candidates::{
    BILIBILI_REQUEST_CONTEXT_TASK_STATE_SCHEMA_VERSION, MAX_PERSISTED_BILIBILI_PROFILE_ID_BYTES,
};
use bilibili_tasks::store::errors::{
    StoreError, StoreErrorKind, StoreLimits, validate_collection_len,
};
use bilibili_tasks::store::intents::{
    MAX_PERSISTED_CLEANUP_OWNER_ID_BYTES, MAX_PERSISTED_CLEANUP_RELATIVE_PATH_BYTES,
    PersistedFileCleanupIntent, PersistedFileCleanupKind, validate_file_cleanup_intents,
};
use bilibili_tasks::store::paths::{
    DirectoryChainError, Probe, ProbedDirectory, initial_parent_directories_requiring_sync,
    parent_directory_sync_chain, remember_pending_directory_syncs, settle_directory_syncs,
    temp_name_for,
};
use bilibili_tasks::store::records::{
    BILIBILI_CANDIDATE_TASK_STATE_SCHEMA_VERSION, LEGACY_TASK_STATE_SCHEMA_VERSION,
    MAX_PERSISTED_DANMAKU_FORMATS, PersistedTaskFile, PersistedTaskOutput,
    TASK_STATE_SCHEMA_VERSION, validate_collection_limits,
};
use bilibili_tasks::store::sequence::{
    MAX_PERSISTED_TASKS, PersistedTaskSequenceValidator, validate_registered_task_resource_count,
    validate_unique_task_record_identities,
};
use bilibili_tasks::store::snapshot::{
    BoundedSnapshotWriter, MAX_TASK_STATE_SNAPSHOT_BYTES, TaskSnapshotWriter,
    validate_loaded_records, validate_snapshot_header, validate_snapshot_len,
};

const MAX_REGISTERED_TASK_RESOURCES: usize = 2_000;
const MAX_TASK_RESULTS: usize = 200;

/// The second schema, whose states held outputs but no candidates.
const OUTPUT_SCHEMA_VERSION: u32 = 2;

fn limits() -> StoreLimits {
    StoreLimits {
        max_registered_task_resources: MAX_REGISTERED_TASK_RESOURCES,
        max_task_resources: 100,
        max_task_results: MAX_TASK_RESULTS,
        max_task_artifacts: 100,
        max_task_candidates: 100,
    }
}

fn derived_output(task: &Task) -> TaskOutputRecord {
    TaskOutputRecord {
        revision: 1,
        snapshot_id: format!("task-output-{}", task.id),
        primary_result_id: task.id.clone(),
        results: vec![TaskResult {
            id: task.id.clone(),
            state: task.state,
            ..Default::default()
        }],
        legacy_managed: true,
        ..Default::default()
    }
}

fn record_of(task: Task) -> PersistedTaskRecord {
    PersistedTaskRecord { output: derived_output(&task), task, ..Default::default() }
}

fn task(id: &str, source: &str) -> Task {
    Task { id: id.to_owned(), source: source.to_owned(), ..Default::default() }
}

fn resource(id: &str) -> TaskResourceRecord {
    TaskResourceRecord {
        resource: CacheResourceRef { id: id.to_owned(), ..Default::default() },
    }
}

fn file_of(record: &PersistedTaskRecord) -> PersistedTaskFile {
    PersistedTaskFile {
        task: record.task.clone(),
        options: record.options.clone(),
        playback_options: record.playback_options.clone(),
        request_context: record.request_context.clone(),
        bilibili_candidates: record.bilibili_candidates.clone(),
        has_output: true,
    }
}

/// Reads one record back, as a state of the given schema holds it.
fn reload_as(
    record: &PersistedTaskRecord,
    schema_version: u32,
) -> Result<PersistedTaskRecord, StoreError> {
    let draft = file_of(record).into_draft(schema_version)?;
    let derived = derived_output(&draft.task);
    let stored = PersistedTaskOutput::from_output(&record.output);
    let stored = draft.load_output(Some(stored), derived)?;
    let output = TaskOutputRecord {
        revision: stored.revision,
        snapshot_id: stored.snapshot_id,
        primary_result_id: stored.primary_result_id,
        results: stored.results,
        resources: stored.resources,
        legacy_managed: stored.legacy_managed,
        encoded_bytes: record.output.encoded_bytes,
    };
    Ok(draft.into_record(output))
}

fn reload(record: &PersistedTaskRecord) -> Result<PersistedTaskRecord, StoreError> {
    reload_as(record, TASK_STATE_SCHEMA_VERSION)
}

/// Whether the records could be written down together.
fn save(records: &[PersistedTaskRecord]) -> Result<(), StoreError> {
    write_snapshot(records.iter(), &Vec::new(), MAX_TASK_STATE_SNAPSHOT_BYTES).map(|_| ())
}

fn encode(record: &PersistedTaskRecord) -> Vec<u8> {
    let mut object = serde_json::Map::new();
    object.insert("id".to_owned(), serde_json::Value::from(record.task.id.clone()));
    object.insert("message".to_owned(), serde_json::Value::from(record.task.message.clone()));
    serde_json::to_vec_pretty(&object).expect("a record is encoded")
}

fn write_snapshot<'a>(
    records: impl Iterator<Item = &'a PersistedTaskRecord>,
    intents: &Vec<PersistedFileCleanupIntent>,
    byte_limit: usize,
) -> Result<Vec<u8>, StoreError> {
    let mut writer = TaskSnapshotWriter::new(intents, limits(), byte_limit)?;
    for record in records {
        writer.push(record, &encode(record))?;
    }
    let encoded_intents = intents
        .iter()
        .map(|intent| {
            let mut object = serde_json::Map::new();
            object.insert("owner_id".to_owned(), serde_json::Value::from(intent.owner_id.clone()));
            serde_json::to_vec_pretty(&object).expect("an intent is encoded")
        })
        .collect();
    writer.finish(&encoded_intents)
}

fn intent(
    kind: PersistedFileCleanupKind,
    owner_id: &str,
    relative_path: &str,
) -> Result<PersistedFileCleanupIntent, StoreError> {
    PersistedFileCleanupIntent::new(kind, owner_id.to_owned(), relative_path.to_owned())
}

#[test]
fn file_cleanup_intents_round_trip_and_fail_closed() {
    let transient = PersistedFileCleanupKind::BilibiliTransientOutput;
    let owned = PersistedFileCleanupKind::BilibiliOwnedOutputDirectory;
    let valid = || {
        intent(transient, "bilibili-cleanup-task", "Bilibili/video.zh-CN.srt")
            .expect("cleanup intent should be valid")
    };
    assert_eq!(Ok(()), validate_snapshot_header(TASK_STATE_SCHEMA_VERSION, &vec![valid()]));

    let duplicate_error =
        validate_snapshot_header(TASK_STATE_SCHEMA_VERSION, &vec![valid(), valid()])
            .expect_err("duplicate cleanup intents must fail closed");
    assert_eq!(StoreErrorKind::InvalidData, duplicate_error.kind());

    let legacy_error = validate_snapshot_header(
        BILIBILI_REQUEST_CONTEXT_TASK_STATE_SCHEMA_VERSION,
        &vec![valid()],
    )
    .expect_err("schemas before v5 must reject cleanup intents");
    assert_eq!(StoreErrorKind::InvalidData, legacy_error.kind());
    assert_eq!(
        Ok(()),
        validate_snapshot_header(
            BILIBILI_REQUEST_CONTEXT_TASK_STATE_SCHEMA_VERSION,
            &Vec::new(),
        )
    );

    assert!(intent(transient, "task", "Bilibili//noncanonical.srt").is_err());
    assert!(intent(transient, "task", ".tvos-net-player/task-resources/body").is_err());
    assert!(intent(transient, "task", ".TVOS-NET-PLAYER/task-resources/body").is_err());
    for relative_path in [
        ".tvos-net-player/bbdown-staging/bilibili-cleanup-task",
        "Bilibili/bilibili-cleanup-task",
    ] {
        intent(owned, "bilibili-cleanup-task", relative_path)
            .expect("task-owned output directory should be valid");
    }
    for relative_path in [
        ".tvos-net-player/resources/bilibili-cleanup-task",
        ".tvos-net-player/bbdown-staging/another-task",
        ".TVOS-NET-PLAYER/bbdown-staging/bilibili-cleanup-task",
        "Bilibili/another-task",
    ] {
        assert!(intent(owned, "bilibili-cleanup-task", relative_path).is_err());
    }
}

#[test]
fn cleanup_intents_are_bounded_and_name_relative_paths() {
    let local = PersistedFileCleanupKind::LocalLibraryItem;
    assert!(intent(local, "owner", "Movies/one.mp4").is_ok());
    for relative_path in ["", "/Movies/one.mp4", "Movies/../one.mp4", "Movies/./one", "Movies/"] {
        assert!(intent(local, "owner", relative_path).is_err(), "{relative_path}");
    }
    let longest_owner = "o".repeat(MAX_PERSISTED_CLEANUP_OWNER_ID_BYTES);
    assert!(intent(local, &longest_owner, "Movies/one.mp4").is_ok());
    assert!(intent(local, &format!("{longest_owner}o"), "Movies/one.mp4").is_err());
    let longest_path = "p".repeat(MAX_PERSISTED_CLEANUP_RELATIVE_PATH_BYTES);
    assert!(intent(local, "owner", &longest_path).is_ok());
    assert!(intent(local, "owner", &format!("{longest_path}p")).is_err());
    // Two bytes to each character.
    let wide_path = "\u{e9}".repeat(MAX_PERSISTED_CLEANUP_RELATIVE_PATH_BYTES / 2);
    assert!(intent(local, "owner", &wide_path).is_ok());
    assert!(intent(local, "owner", &format!("{wide_path}\u{e9}")).is_err());
    let two = vec![
        intent(local, "owner", "Movies/one.mp4").unwrap(),
        intent(local, "owner", "Movies/two.mp4").unwrap(),
    ];
    assert_eq!(Ok(()), validate_file_cleanup_intents(&two));
}

#[test]
fn bounded_snapshot_writer_counts_the_trailing_newline() {
    let mut writer = BoundedSnapshotWriter::new(4);
    writer.write_all(b"abc").unwrap();
    writer.write_all(b"\n").unwrap();
    assert_eq!(b"abc\n", writer.into_inner().as_slice());

    let mut writer = BoundedSnapshotWriter::new(3);
    writer.write_all(b"abc").unwrap();
    let error = writer
        .write_all(b"\n")
        .expect_err("the trailing newline must stay inside the snapshot limit");
    assert_eq!(StoreErrorKind::InvalidData, error.kind());
}

#[test]
fn bounded_snapshot_serialization_stops_before_polling_later_records() {
    let first = record_of(Task {
        message: "x".repeat(4 * 1024),
        ..task("streamed-task", "BV1streamed")
    });
    let polled = Cell::new(0_usize);
    let records = std::iter::from_fn(|| {
        let next = polled.get().saturating_add(1);
        polled.set(next);
        match next {
            1 => Some(&first),
            _ => panic!("serialization must stop before polling another record"),
        }
    });

    let error = match write_snapshot(records, &Vec::new(), 512) {
        Ok(_) => panic!("the first record must exceed the test snapshot budget"),
        Err(error) => error,
    };

    assert_eq!(StoreErrorKind::InvalidData, error.kind());
    assert_eq!(1, polled.get());
}

#[test]
fn snapshot_is_laid_out_as_one_indented_document() {
    let records = [record_of(task("one", "BV1one")), record_of(task("two", "BV1two"))];
    let intents =
        vec![intent(PersistedFileCleanupKind::LocalLibraryItem, "owner", "Movies/one.mp4").unwrap()];
    let bytes =
        write_snapshot(records.iter(), &intents, MAX_TASK_STATE_SNAPSHOT_BYTES).expect("fits");

    let parsed: serde_json::Value = serde_json::from_slice(&bytes).expect("the layout is JSON");
    assert_eq!(u64::from(TASK_STATE_SCHEMA_VERSION), parsed["schema_version"]);
    assert_eq!("two", parsed["tasks"][1]["id"]);
    assert_eq!("owner", parsed["file_cleanup_intents"][0]["owner_id"]);
    let text = String::from_utf8(bytes.clone()).expect("the layout is text");
    assert!(text.starts_with("{\n  \"schema_version\": 5,\n  \"tasks\": [\n    {\n      \"id\": \"one\","));
    assert!(text.ends_with("\n  ]\n}\n"));

    let exact = write_snapshot(records.iter(), &intents, bytes.len()).expect("fits exactly");
    assert_eq!(bytes, exact);
    assert!(write_snapshot(records.iter(), &intents, bytes.len() - 1).is_err());

    let empty = write_snapshot([].iter(), &Vec::new(), 1_000).expect("fits");
    assert_eq!(
        "{\n  \"schema_version\": 5,\n  \"tasks\": [],\n  \"file_cleanup_intents\": []\n}\n",
        String::from_utf8(empty).unwrap()
    );
}

#[test]
fn snapshot_length_is_bounded_before_it_is_read() {
    let limit = MAX_TASK_STATE_SNAPSHOT_BYTES as u64;
    assert_eq!(Ok(()), validate_snapshot_len(limit));
    let error = validate_snapshot_len(limit + 1).expect_err("the snapshot is too long");
    assert_eq!(StoreErrorKind::InvalidData, error.kind());
}

#[test]
fn save_rejects_collections_that_the_loader_would_reject() {
    let mut record = record_of(task("task-one", "BV1collection-limit"));
    record.options = Some(BilibiliDownloadOptions {
        danmaku_formats: vec![0; MAX_PERSISTED_DANMAKU_FORMATS + 1],
        ..Default::default()
    });

    let error =
        save(&[record]).expect_err("writer and loader collection limits must match");

    assert_eq!(StoreErrorKind::InvalidData, error.kind());
}

#[test]
fn task_state_rejects_cross_task_identity_collisions() {
    let record = |task_id: &str, resource_id: &str| {
        let mut record = record_of(task(task_id, &format!("BV1{task_id}")));
        record.output.legacy_managed = false;
        record.output.resources = vec![resource(resource_id)];
        record
    };
    let first = record("identity-one", "resource-one");
    let mut duplicate_task = record("identity-two", "resource-two");
    duplicate_task.task.id = format!("\u{2003}{}\u{2003}", first.task.id);
    let mut duplicate_snapshot = record("identity-two", "resource-two");
    duplicate_snapshot.output.snapshot_id = first.output.snapshot_id.clone();
    let duplicate_resource = record("identity-three", "resource-one");

    for (fixture_name, second) in [
        ("duplicate-task", duplicate_task),
        ("duplicate-snapshot", duplicate_snapshot),
        ("duplicate-resource", duplicate_resource),
    ] {
        let records = vec![first.clone(), second];
        let load_error = validate_loaded_records(&records, &limits())
            .expect_err("colliding task identities must fail closed during load");
        assert_eq!(StoreErrorKind::InvalidData, load_error.kind(), "{fixture_name}");
        let save_error = save(&records)
            .expect_err("colliding task identities must fail closed during save");
        assert_eq!(StoreErrorKind::InvalidData, save_error.kind(), "{fixture_name}");
        assert!(validate_unique_task_record_identities(&records).is_err(), "{fixture_name}");
    }
    let records = vec![first, record("identity-two", "resource-two")];
    assert_eq!(Ok(()), save(&records));
    assert_eq!(Ok(()), validate_loaded_records(&records, &limits()));
}

#[test]
fn persisted_resource_total_stays_below_the_startup_scan_headroom() {
    let mut record = record_of(task("task-resource-limit", "BV1resource-limit"));
    record.output.resources = (0..MAX_REGISTERED_TASK_RESOURCES)
        .map(|index| resource(&format!("resource-{index}")))
        .collect();

    let mut records = vec![record];
    validate_registered_task_resource_count(&records, MAX_REGISTERED_TASK_RESOURCES)
        .expect("the registered resource limit should be accepted");
    records[0].output.resources.push(resource("resource-over-limit"));

    let error = validate_registered_task_resource_count(&records, MAX_REGISTERED_TASK_RESOURCES)
        .expect_err("one additional registered resource must be rejected");
    assert_eq!(StoreErrorKind::InvalidData, error.kind());
}

#[test]
fn task_total_is_bounded() {
    let mut validator = PersistedTaskSequenceValidator::new(limits());
    let record = record_of(task("task", "BV1many"));
    assert_eq!(Ok(()), validator.validate(&record));
    for _ in 1..MAX_PERSISTED_TASKS {
        let error = validator.validate(&record).expect_err("the task is there already");
        assert_eq!("task state contains a duplicate task id", error.message);
    }
    let error = validator.validate(&record).expect_err("there are too many tasks");
    assert_eq!("persisted tasks cannot exceed 10000 entries", error.message);
}

#[test]
fn a_refused_record_has_been_seen_up_to_its_problem() {
    let refused = |record: &PersistedTaskRecord, validator: &mut PersistedTaskSequenceValidator| {
        validator.validate(record).expect_err("the record must be refused").message
    };
    let named = |task_id: &str, snapshot_id: &str, resource_ids: &[&str]| {
        let mut record = record_of(task(task_id, "BV1seen"));
        record.output.snapshot_id = snapshot_id.to_owned();
        record.output.resources = resource_ids.iter().map(|id| resource(id)).collect();
        record
    };
    let mut validator = PersistedTaskSequenceValidator::new(StoreLimits {
        max_registered_task_resources: 6,
        ..limits()
    });
    assert_eq!(Ok(()), validator.validate(&named("one", "snapshot-one", &["a"])));

    // The task of a record whose snapshot was seen is seen itself.
    assert_eq!(
        "task state contains a duplicate task output snapshot id",
        refused(&named("two", "snapshot-one", &[]), &mut validator)
    );
    assert_eq!(
        "task state contains a duplicate task id",
        refused(&named("two", "snapshot-two", &[]), &mut validator)
    );

    // So are the resources before one that was seen, but not those behind it.
    assert_eq!(
        "task state contains a duplicate task output resource id",
        refused(&named("three", "snapshot-three", &["b", "a", "c"]), &mut validator)
    );
    assert_eq!(
        "task state contains a duplicate task output resource id",
        refused(&named("four", "snapshot-four", &["b"]), &mut validator)
    );
    assert_eq!(Ok(()), validator.validate(&named("five", "snapshot-five", &["c"])));

    // All of their resources count.
    assert_eq!(
        "task state cannot contain more than 6 registered resources",
        refused(&named("six", "snapshot-six", &["d"]), &mut validator)
    );
    assert_eq!(
        "task state cannot contain more than 6 registered resources",
        refused(&named("six", "snapshot-six", &[]), &mut validator)
    );
}

#[test]
fn persisted_resource_budget_is_enforced_while_snapshot_resources_are_decoded() {
    let max_task_resources = 100;
    let mut budget = PersistedBudget::new(BudgetKind::Resources);
    budget.enter(2).expect("the budget is not in use yet");
    assert_eq!(Ok(()), budget.read_list(1, max_task_resources));
    assert_eq!(Ok(()), budget.read_list(1, max_task_resources));

    let mut budget = PersistedBudget::new(BudgetKind::Resources);
    budget.enter(2).expect("the budget is not in use yet");
    assert_eq!(Ok(()), budget.read_list(2, max_task_resources));
    let error = budget
        .read_list(1, max_task_resources)
        .expect_err("the third resource must be rejected during deserialization");

    assert_eq!(StoreErrorKind::InvalidData, error.kind());
    assert!(error.message.contains("cannot contain more than 2 registered resources"));
}

#[test]
fn bounded_vector_deserializer_rejects_an_extra_item_without_retaining_it() {
    let error = validate_collection_len("test values", 3, 2)
        .expect_err("the third item must exceed the bound");
    assert!(error.message.contains("cannot exceed 2"));
    assert_eq!("test values cannot exceed 2 entries", error.message);
    assert_eq!(Ok(()), validate_collection_len("test values", 2, 2));
}

#[test]
fn persisted_task_output_bounds_results_during_deserialization() {
    let mut record = record_of(task("many-results", "BV1many-results"));
    record.output.legacy_managed = false;
    record.output.results = (0..MAX_TASK_RESULTS + 1)
        .map(|_| TaskResult {
            id: "result".to_owned(),
            state: TaskState::Completed,
            ..Default::default()
        })
        .collect();

    let error = validate_collection_limits(&record, &limits())
        .expect_err("persisted results must be bounded");
    assert!(error.message.contains("task output results cannot exceed"));
    record.output.results.pop();
    assert_eq!(Ok(()), validate_collection_limits(&record, &limits()));
}

#[test]
fn persisted_task_output_rejects_cross_result_artifact_before_decoding_it() {
    let mut budget = PersistedBudget::new(BudgetKind::Artifacts);
    budget.enter(2).expect("the budget is not in use yet");
    assert_eq!(Ok(()), budget.read_list(2, 100));

    // The entry is refused before it is read.
    assert_eq!(NextRead::BudgetSpent, budget.next_read(0, 100));
    let error = budget.read_list(1, 100).expect_err("the third artifact must be rejected");
    assert!(
        error.message.contains("task output artifacts cannot exceed 2 entries"),
        "unexpected error: {}",
        error.message
    );
}

#[test]
fn persisted_task_output_accepts_cross_result_artifacts_at_aggregate_limit() {
    let mut budget = PersistedBudget::new(BudgetKind::Artifacts);
    budget.enter(2).expect("the budget is not in use yet");
    assert_eq!(Ok(()), budget.read_list(1, 100));
    assert_eq!(Ok(()), budget.read_list(1, 100));
    assert_eq!(Some(BudgetState { remaining: 0, limit: 2 }), budget.state);
}

#[test]
fn budget_is_entered_once_and_counts_what_is_taken() {
    let mut budget = PersistedBudget::new(BudgetKind::Resources);
    assert_eq!(BudgetClaim::Unbounded, budget.claim());
    assert_eq!(7, budget.limit(7));
    assert_eq!(5, budget.capacity(Some(9), 5));
    budget.enter(3).expect("the budget is not in use yet");
    let error = budget.enter(4).expect_err("the budget is in use");
    assert_eq!("task state resource deserialization is already active", error.message);
    assert_eq!(3, budget.limit(7));
    assert_eq!(3, budget.capacity(Some(9), 5));
    assert_eq!(0, budget.capacity(None, 5));

    let before = budget;
    let claim = budget.claim();
    assert_eq!(BudgetClaim::Claimed, claim);
    assert_eq!(Some(BudgetState { remaining: 2, limit: 3 }), budget.state);
    budget.release(claim);
    assert_eq!(before, budget);
    budget.release(claim);
    assert_eq!(before, budget);

    let error = budget.read_list(3, 2).expect_err("the list is too long");
    assert_eq!("task output resources cannot exceed 2 entries", error.message);
    budget.leave();
    assert_eq!(PersistedBudget::new(BudgetKind::Resources), budget);

    let mut artifacts = PersistedBudget::new(BudgetKind::Artifacts);
    artifacts.enter(0).expect("the budget is not in use yet");
    assert_eq!(BudgetClaim::Exhausted, artifacts.claim());
    let error = artifacts.enter(1).expect_err("the budget is in use");
    assert_eq!("task output artifact deserialization is already active", error.message);
    artifacts.leave();
    let error = artifacts.read_list(3, 2).expect_err("the list is too long");
    assert_eq!("task result artifacts cannot exceed 2 entries", error.message);
}

fn probed(path: &str, probe: Probe<ErrorKind>) -> ProbedDirectory<ErrorKind> {
    ProbedDirectory { path: path.to_owned(), probe }
}

#[test]
fn prepares_new_parent_directories_for_bottom_up_sync() {
    let state_directory = "/srv/cache/state/task-store";
    let first_directory = "/srv/cache/state";
    let root = "/srv/cache";

    let directories_to_sync = parent_directory_sync_chain(
        state_directory,
        vec![
            probed(state_directory, Probe::Nothing),
            probed(first_directory, Probe::Nothing),
            probed(root, Probe::Directory),
            probed("/srv", Probe::Directory),
        ],
    )
    .expect("nested parent directories should be prepared");
    assert_eq!(vec![state_directory, first_directory, root], directories_to_sync);

    assert_eq!(
        vec![state_directory],
        parent_directory_sync_chain(
            state_directory,
            vec![
                probed(state_directory, Probe::Directory),
                probed(first_directory, Probe::Directory),
            ],
        )
        .expect("an existing parent directory should still be prepared")
    );
}

#[test]
fn parent_directories_that_cannot_be_synchronised_are_reported() {
    assert_eq!(
        Err(DirectoryChainError::Refused(StoreError {
            kind: StoreErrorKind::NotADirectory,
            message: "task state parent is not a directory: state".to_owned(),
        })),
        parent_directory_sync_chain("state", vec![probed("state", Probe::SomethingElse)])
    );
    assert_eq!(
        Err(DirectoryChainError::Refused(StoreError {
            kind: StoreErrorKind::NotFound,
            message: "task state directory has no existing ancestor: state".to_owned(),
        })),
        parent_directory_sync_chain("state", vec![probed("state", Probe::Nothing)])
    );
    assert_eq!(
        Ok(vec!["state".to_owned(), ".".to_owned()]),
        parent_directory_sync_chain(
            "state",
            vec![probed("state", Probe::Nothing), probed("", Probe::Directory)],
        )
    );
}

#[test]
fn a_failed_look_at_a_directory_is_handed_on_as_it_is() {
    for kind in [ErrorKind::PermissionDenied, ErrorKind::InvalidInput] {
        assert_eq!(
            Err(DirectoryChainError::Failed(kind)),
            parent_directory_sync_chain(
                "state/task-store",
                vec![
                    probed("state/task-store", Probe::Nothing),
                    probed("state", Probe::Failed(kind)),
                    probed("", Probe::Directory),
                ],
            )
        );
    }
}

#[test]
fn directory_sync_retry_retains_the_original_creation_chain() {
    let ancestors = ["srv/state/task-store", "srv/state", "srv", ""]
        .map(|ancestor| ancestor.to_owned())
        .to_vec();
    let expected_directories = vec!["srv/state/task-store", "srv/state", "srv", "."];

    let mut pending = initial_parent_directories_requiring_sync(&ancestors);
    remember_pending_directory_syncs(&mut pending, &vec!["srv/state/task-store".to_owned()]);
    assert_eq!(
        TaskStateSaveOutcome::InstalledButNotDurable,
        settle_directory_syncs(&mut pending, false)
    );
    assert_eq!(expected_directories, pending);

    remember_pending_directory_syncs(&mut pending, &vec!["srv/state/task-store".to_owned()]);
    assert_eq!(TaskStateSaveOutcome::Durable, settle_directory_syncs(&mut pending, true));
    assert!(pending.is_empty());

    remember_pending_directory_syncs(
        &mut pending,
        &vec!["a".to_owned(), "b".to_owned(), "a".to_owned()],
    );
    assert_eq!(vec!["a", "b"], pending);
}

#[test]
fn file_is_written_beside_its_place_first() {
    assert_eq!("tasks.json.tmp", temp_name_for(Some("tasks.json")));
    assert_eq!("state.tmp", temp_name_for(Some("state")));
    assert_eq!("tasks.json.tmp", temp_name_for(None));
}

#[test]
fn migrates_v1_snapshot_to_compact_legacy_managed_output() {
    let mut legacy = record_of(Task {
        kind: TaskKind::BilibiliDownload,
        state: TaskState::Completed,
        title: "Legacy collection".to_owned(),
        ..task("bilibili-v1-output", "BV1legacyOutput")
    });
    let mut without_output = file_of(&legacy);
    without_output.has_output = false;
    let draft = without_output
        .into_draft(LEGACY_TASK_STATE_SCHEMA_VERSION)
        .expect("the first schema holds no outputs");
    let migrated = draft
        .load_output(None, legacy.output.clone())
        .expect("the output is derived from the task");
    assert_eq!(1, migrated.revision);
    assert!(migrated.legacy_managed);
    assert!(migrated.resources.is_empty());
    assert_eq!("", migrated.primary_result_id);

    let stored = PersistedTaskOutput::from_output(&legacy.output);
    assert!(stored.results.is_empty(), "legacy result bodies must not be duplicated");
    assert_eq!(legacy.output, reload(&legacy).expect("compact output should reload").output);

    let mut subject = legacy.output.results[0].clone();
    subject.subject = Some(TaskResultSubject { id: "2001".to_owned(), ..Default::default() });
    let duplicated = PersistedTaskOutput {
        results: legacy.output.results.clone(),
        ..PersistedTaskOutput::from_output(&legacy.output)
    };
    let loaded = duplicated
        .into_output(vec![subject.clone()])
        .expect("what an older state left out is taken from the derived results");
    assert_eq!(vec![subject], loaded.results);

    let mut tampered = PersistedTaskOutput::from_output(&legacy.output);
    tampered.results = legacy.output.results.clone();
    tampered.results[0].title = "Tampered result".to_owned();
    let error = tampered
        .into_output(legacy.output.results.clone())
        .err()
        .expect("mismatched duplicated legacy output should fail closed");
    assert_eq!(StoreErrorKind::InvalidData, error.kind());
    assert!(error.message.contains("legacy-managed task output does not match"));

    legacy.output.resources = vec![resource("owned")];
    let error = reload(&legacy).expect_err("a derived output cannot own resources");
    assert_eq!("legacy-managed task output cannot own resources", error.message);
}

#[test]
fn state_after_the_first_schema_holds_an_output_for_each_task() {
    let mut file = file_of(&record_of(task("no-output", "BV1no-output")));
    file.has_output = false;
    let error = file.into_draft(OUTPUT_SCHEMA_VERSION).err().expect("an output is missing");
    assert_eq!("task state schema v2 task is missing output", error.message);
}

fn nested_output() -> TaskOutputRecord {
    let subtitle_resource = TaskResourceRecord {
        resource: CacheResourceRef {
            id: "subtitle-z".to_owned(),
            uri: "file:///private/tmp/must-not-persist".to_owned(),
            content_type: "text/vtt; charset=utf-8".to_owned(),
            size_bytes: 321,
            size_known: true,
            supports_byte_ranges: true,
            etag: "subtitle-etag".to_owned(),
            expires_at: Some(Timestamp { seconds: 10_000, nanos: 11 }),
        },
    };
    let cover_resource = TaskResourceRecord {
        resource: CacheResourceRef {
            id: "cover-a".to_owned(),
            uri: "https://upstream.example.test/private-cover".to_owned(),
            content_type: "image/jpeg".to_owned(),
            size_bytes: 654,
            size_known: false,
            supports_byte_ranges: false,
            etag: "cover-etag".to_owned(),
            expires_at: Some(Timestamp { seconds: 20_000, nanos: 22 }),
        },
    };
    TaskOutputRecord {
        revision: 42,
        snapshot_id: "snapshot-v2-nested".to_owned(),
        primary_result_id: "result-a".to_owned(),
        results: vec![
            TaskResult {
                id: "result-z".to_owned(),
                state: TaskState::Failed,
                title: "Failed result".to_owned(),
                subtitle: "Nested fields".to_owned(),
                progress: Some(TaskResultProgress {
                    fraction: Progress::Measured { bits: 0.75_f64.to_bits() },
                    completed_bytes: 750,
                    total_bytes: 1_000,
                    total_bytes_known: true,
                    phase: "packaging".to_owned(),
                    message: "Packaging artifacts.".to_owned(),
                }),
                problem: Some(TaskProblem {
                    category: 3,
                    code: "bilibili.test_failure".to_owned(),
                    message: "Provider failed.".to_owned(),
                    retryable: true,
                }),
                library_item_id: "library.result-z".to_owned(),
                playback_source: None,
                artifacts: vec![
                    TaskArtifact {
                        id: "artifact-cover".to_owned(),
                        kind: 4,
                        state: TaskArtifactState::Unavailable,
                        title: "Cover".to_owned(),
                        format: "jpeg".to_owned(),
                        resource: Some(cover_resource.resource.clone()),
                        problem: Some(TaskProblem {
                            category: 2,
                            code: "artifact.cover_denied".to_owned(),
                            message: "Cover access denied.".to_owned(),
                            retryable: false,
                        }),
                        ..Default::default()
                    },
                    TaskArtifact {
                        id: "artifact-subtitle".to_owned(),
                        kind: 2,
                        state: TaskArtifactState::Available,
                        title: "Japanese subtitles".to_owned(),
                        format: "vtt".to_owned(),
                        language_tag: "ja-JP".to_owned(),
                        is_ai_generated: true,
                        resource: Some(subtitle_resource.resource.clone()),
                        ..Default::default()
                    },
                    TaskArtifact {
                        id: "artifact-media".to_owned(),
                        kind: 1,
                        state: TaskArtifactState::Available,
                        title: "Downloaded media".to_owned(),
                        format: "mp4".to_owned(),
                        library_item_id: "library.result-z".to_owned(),
                        ..Default::default()
                    },
                ],
                created_at: Some(Timestamp { seconds: 100, nanos: 1 }),
                updated_at: Some(Timestamp { seconds: 200, nanos: 2 }),
                subject: Some(TaskResultSubject {
                    provider: "bilibili".to_owned(),
                    kind: "video_page".to_owned(),
                    id: "2001".to_owned(),
                    index: 1,
                }),
                provider_details: Some(TaskResultProviderDetails {
                    bilibili: Some(BilibiliTaskResultDetails {
                        identity: Some(ContentIdentityMessage {
                            kind: 1,
                            aid: 1_001,
                            bvid: "BV1nestedOutput".to_owned(),
                            cid: 2_001,
                            epid: 0,
                        }),
                        playback_session: None,
                    }),
                }),
            },
            TaskResult {
                id: "result-a".to_owned(),
                state: TaskState::Completed,
                title: "Completed result".to_owned(),
                subtitle: "Second result".to_owned(),
                library_item_id: "library.result-a".to_owned(),
                ..Default::default()
            },
        ],
        resources: vec![subtitle_resource, cover_resource],
        legacy_managed: false,
        encoded_bytes: 0,
    }
}

#[test]
fn round_trips_nested_task_output_without_persisting_resource_locations() {
    let record = PersistedTaskRecord {
        task: Task {
            kind: TaskKind::BilibiliDownload,
            state: TaskState::Failed,
            ..task("task-v2-output", "BV1nestedOutput")
        },
        request_context: Some(BilibiliRequestContext {
            api_mode: BilibiliApiMode::Web,
            credential_profile_id: "profile-main".to_owned(),
        }),
        output: nested_output(),
        ..Default::default()
    };
    save(std::slice::from_ref(&record)).expect("task output should persist");

    let stored = PersistedTaskOutput::from_output(&record.output);
    assert!(stored.resources.iter().all(|resource| resource.resource.uri.is_empty()));
    assert!(
        stored
            .results
            .iter()
            .flat_map(|result| &result.artifacts)
            .filter_map(|artifact| artifact.resource.as_ref())
            .all(|resource| resource.uri.is_empty())
    );

    let reloaded = reload(&record).expect("task output should reload");
    let mut expected = nested_output();
    for resource in &mut expected.resources {
        resource.resource.uri = String::new();
    }
    for artifact in expected.results.iter_mut().flat_map(|result| &mut result.artifacts) {
        if let Some(resource) = &mut artifact.resource {
            resource.uri = String::new();
        }
    }
    assert_eq!(expected, reloaded.output);
    assert_eq!(record.request_context, reloaded.request_context);

    for (label, context) in [
        (
            "unknown API mode",
            BilibiliRequestContext {
                api_mode: BilibiliApiMode::Unrecognized(9_999),
                credential_profile_id: "profile-main".to_owned(),
            },
        ),
        (
            "non-normalized profile id",
            BilibiliRequestContext {
                api_mode: BilibiliApiMode::Web,
                credential_profile_id: " profile-main ".to_owned(),
            },
        ),
        (
            "oversized profile id",
            BilibiliRequestContext {
                api_mode: BilibiliApiMode::Web,
                credential_profile_id: "p".repeat(MAX_PERSISTED_BILIBILI_PROFILE_ID_BYTES + 1),
            },
        ),
    ] {
        let mut invalid = record.clone();
        invalid.request_context = Some(context);
        let error = reload(&invalid).expect_err(label);
        assert_eq!(StoreErrorKind::InvalidData, error.kind());
        assert!(error.message.contains("request context"), "{label}");
        assert!(save(&[invalid]).is_err(), "{label}");
    }

    let error = reload_as(&record, BILIBILI_CANDIDATE_TASK_STATE_SCHEMA_VERSION)
        .expect_err("schemas before v4 must reject request context state");
    assert_eq!(StoreErrorKind::InvalidData, error.kind());
    assert!(error.message.contains("before v4"));
}

fn candidate(index: u32, identity_sound: bool) -> BilibiliTaskCandidateRecord {
    let aid = 1_000 + u64::from(index);
    let cid = 2_000 + u64::from(index);
    let bvid = format!("BV1stable{index}");
    BilibiliTaskCandidateRecord {
        selection_id: format!("page:{index}:cid:{cid}:bvid:{bvid}:aid:{aid}"),
        title: format!("Part {index}"),
        subtitle: format!("Page {index}"),
        source_kind: "video_page".to_owned(),
        content_id: cid.to_string(),
        identity: BilibiliContentIdentity {
            kind: BilibiliContentKind::VideoPage,
            aid: Some(aid),
            bvid: Some(bvid),
            cid: Some(cid),
            epid: None,
        },
        identity_sound,
        index,
        duration_seconds: Some(60),
    }
}

fn candidate_result(index: u32, state: TaskState) -> BilibiliTaskResultItem {
    BilibiliTaskResultItem {
        id: format!("bilibili-v2-task-{index}"),
        title: format!("Part {index}"),
        subtitle: format!("Page {index}"),
        source_kind: "video_page".to_owned(),
        content_id: (2_000 + u64::from(index)).to_string(),
        index,
        state,
        message: "Queued for playback planning.".to_owned(),
        identity: Some(ContentIdentityMessage {
            kind: 1,
            aid: 1_000 + u64::from(index),
            bvid: format!("BV1stable{index}"),
            cid: 2_000 + u64::from(index),
            epid: 0,
        }),
        ..Default::default()
    }
}

fn candidate_record(indices: &[u32]) -> PersistedTaskRecord {
    let mut record = record_of(Task {
        kind: TaskKind::BilibiliProgressivePlayback,
        state: TaskState::Preparing,
        title: "Stable video".to_owned(),
        result_items: indices
            .iter()
            .map(|index| candidate_result(*index, TaskState::Preparing))
            .collect(),
        ..task("bilibili-v2-task", "BV1stable")
    });
    record.playback_options = Some(BilibiliPlaybackOptions::default());
    record.bilibili_candidates = indices.iter().map(|index| candidate(*index, true)).collect();
    record
}

#[test]
fn round_trips_accepted_bilibili_v2_candidates_and_rejects_tampering() {
    let record = candidate_record(&[1]);
    save(std::slice::from_ref(&record))
        .expect("accepted candidate should persist before planning");
    let reloaded = reload(&record).expect("accepted candidate should reload");
    assert_eq!(record.bilibili_candidates, reloaded.bilibili_candidates);
    assert_eq!(record.task.result_items, reloaded.task.result_items);

    reload_as(&record, BILIBILI_CANDIDATE_TASK_STATE_SCHEMA_VERSION)
        .expect("schema v3 candidates remain readable without request context");

    let mut invalid_identity = record.clone();
    invalid_identity.bilibili_candidates[0].identity_sound = false;
    let error =
        reload(&invalid_identity).expect_err("an incomplete stable identity must fail closed");
    assert_eq!(StoreErrorKind::InvalidData, error.kind());

    let error = reload_as(&record, OUTPUT_SCHEMA_VERSION)
        .expect_err("schemas before v3 must not accept durable candidate identities");
    assert_eq!(StoreErrorKind::InvalidData, error.kind());

    let mut wrong_task_kind = record.clone();
    wrong_task_kind.task.kind = TaskKind::LibraryRescan;
    let error =
        reload(&wrong_task_kind).expect_err("v2 candidates must remain bound to Bilibili tasks");
    assert_eq!(StoreErrorKind::InvalidData, error.kind());

    let mut misaligned = record;
    misaligned.task.result_items[0].content_id = "tampered-content-id".to_owned();
    let error =
        reload(&misaligned).expect_err("candidate and task result plans must stay aligned");
    assert_eq!(StoreErrorKind::InvalidData, error.kind());
}

#[test]
fn executable_bilibili_v2_download_requires_concrete_frozen_execution_state() {
    let mut record = candidate_record(&[1]);
    record.playback_options = None;
    record.task.kind = TaskKind::BilibiliDownload;
    record.task.state = TaskState::Queued;
    record.task.result_items[0].state = TaskState::Queued;
    record.output = derived_output(&record.task);
    record.options = Some(BilibiliDownloadOptions {
        download_mode: BilibiliDownloadMode::All,
        ..Default::default()
    });
    record.request_context =
        Some(BilibiliRequestContext { api_mode: BilibiliApiMode::Web, ..Default::default() });
    save(std::slice::from_ref(&record)).expect("concrete v2 execution state should persist");
    assert!(reload(&record).is_ok());

    let assert_rejected = |fixture: PersistedTaskRecord, label: &str| {
        let error = reload(&fixture).expect_err(label);
        assert_eq!(StoreErrorKind::InvalidData, error.kind(), "{label}");
        assert!(error.message.contains("frozen execution state"), "{label}");
    };
    let mut missing_options = record.clone();
    missing_options.options = None;
    assert_rejected(missing_options, "missing options must fail closed");
    let mut missing_context = record.clone();
    missing_context.request_context = None;
    assert_rejected(missing_context, "missing context must fail closed");
    let mut unspecified_download_mode = record.clone();
    unspecified_download_mode.options = Some(BilibiliDownloadOptions::default());
    assert_rejected(unspecified_download_mode, "unspecified download mode must fail closed");
    let mut unspecified_api_mode = record.clone();
    unspecified_api_mode.request_context = Some(BilibiliRequestContext::default());
    assert_rejected(unspecified_api_mode, "unspecified API mode must fail closed");

    let mut legacy = record;
    legacy.options = None;
    legacy.request_context = None;
    let legacy = reload_as(&legacy, BILIBILI_CANDIDATE_TASK_STATE_SCHEMA_VERSION)
        .expect("schema v3 candidate downloads remain explicitly legacy-compatible");
    assert_eq!(
        Some(BilibiliDownloadMode::All),
        legacy.options.as_ref().map(|options| options.download_mode)
    );
    assert_eq!(
        Some(BilibiliRequestContext { api_mode: BilibiliApiMode::Web, ..Default::default() }),
        legacy.request_context
    );
}

#[test]
fn bounds_accepted_bilibili_v2_candidates_on_save_and_load() {
    save(&[candidate_record(&[1])]).expect("a bounded v2 task should persist");

    let overflow = (1..=101).collect::<Vec<u32>>();
    let error = save(&[candidate_record(&overflow)])
        .expect_err("save must reject a v2 task above the execution cap");
    assert_eq!(StoreErrorKind::InvalidData, error.kind());
    assert!(
        error
            .message
            .contains("Bilibili accepted task candidates cannot exceed 100 entries")
    );
    assert_eq!(Ok(()), save(&[candidate_record(&overflow[..100])]));
}

#[test]
fn round_trips_bilibili_selection_and_result_items() {
    let timestamp = Timestamp { seconds: 100, nanos: 0 };
    let selection = BilibiliTaskSelection {
        mode: 4,
        selection_ids: vec!["page:1".to_owned(), "page:2".to_owned()],
        range_start_index: 0,
        range_end_index: 0,
    };
    let playback_source = PlaybackSource {
        item_id: "bilibili-playback-result-1".to_owned(),
        variant_id: "h264".to_owned(),
        protocol: 2,
        uri: "http://media.example.test:8080/hls/bilibili-playback-result-1/master.m3u8".to_owned(),
        expires_at: None,
    };
    let playback_policy = BilibiliPlaybackPolicy {
        transcoding_preference: 3,
        compatible_variant_preference: 2,
        weak_network_preference: 2,
    };
    let playback_session = BilibiliPlaybackSession {
        id: "bilibili-playback-result-1".to_owned(),
        title: "Part 1".to_owned(),
        content_id: "cid-1".to_owned(),
        selected_variant_id: "h264".to_owned(),
        selected_variant: Some(BilibiliPlaybackVariant {
            id: "h264".to_owned(),
            label: "1080p".to_owned(),
            source_kind: "dash".to_owned(),
            container: "mp4".to_owned(),
            video_codec: "avc1".to_owned(),
            audio_codec: "mp4a".to_owned(),
            width: 1920,
            height: 1080,
            bitrate: 1_000_000,
            size_bytes: 10_000_000,
        }),
        variants: Vec::new(),
        transcoding_plan: Some(LanTranscodingPlan {
            state: 1,
            profile_id: "avplayer-h264-aac-hls-v1".to_owned(),
            reason: "Already compatible.".to_owned(),
            source_variant_id: "h264".to_owned(),
            target_container: "hls/fmp4".to_owned(),
            target_video_codec: "h264".to_owned(),
            target_audio_codec: "aac".to_owned(),
            output_protocol: 2,
        }),
        effective_policy: Some(playback_policy),
    };
    let result_item = BilibiliTaskResultItem {
        id: "bilibili-playback-result-1".to_owned(),
        selection_id: "page:1".to_owned(),
        title: "Part 1".to_owned(),
        subtitle: "Page 1".to_owned(),
        source_kind: "video_page".to_owned(),
        content_id: "cid-1".to_owned(),
        index: 1,
        state: TaskState::Playable,
        message: "Playable online.".to_owned(),
        library_item_id: String::new(),
        playback_source: Some(playback_source.clone()),
        playback_session: Some(playback_session.clone()),
        identity: None,
    };
    let task = Task {
        kind: TaskKind::BilibiliProgressivePlayback,
        state: TaskState::Playable,
        title: "Persisted task".to_owned(),
        progress: Progress::Measured { bits: 0.5_f64.to_bits() },
        message: "Playable.".to_owned(),
        created_at: Some(timestamp),
        updated_at: Some(timestamp),
        playback_source: Some(playback_source),
        playback_session: Some(playback_session),
        bilibili_selection: Some(selection.clone()),
        result_items: vec![result_item.clone()],
        ..task("bilibili-playback-task", "BV1persist")
    };
    let record = PersistedTaskRecord {
        options: Some(BilibiliDownloadOptions {
            quality_preference: "1080p".to_owned(),
            download_subtitles: true,
            download_danmaku: true,
            audio_language: "ja-jp".to_owned(),
            subtitle_ai_policy: BilibiliSubtitleAiPolicy::PreferNonAi,
            download_cover: true,
            danmaku_formats: vec![2],
            download_mode: BilibiliDownloadMode::All,
            ..Default::default()
        }),
        playback_options: Some(BilibiliPlaybackOptions {
            quality_preference: "720p".to_owned(),
            encoding_preference: "h264".to_owned(),
            prefer_tv_api: false,
            audio_language: "ja-jp".to_owned(),
            playback_policy: Some(playback_policy),
        }),
        ..record_of(task)
    };
    save(std::slice::from_ref(&record)).expect("task state should persist");

    let reloaded = reload(&record).expect("task state should reload");

    assert_eq!(record, reloaded);
    assert_eq!(Some(selection), reloaded.task.bilibili_selection);
    assert_eq!(vec![result_item], reloaded.task.result_items);
    assert_eq!(
        Some(1),
        reloaded
            .task
            .playback_session
            .as_ref()
            .and_then(|session| session.transcoding_plan.as_ref())
            .map(|plan| plan.state)
    );
    let options = reloaded.options.as_ref().expect("download options should round-trip");
    assert_eq!("ja-jp", options.audio_language);
    assert_eq!(BilibiliSubtitleAiPolicy::PreferNonAi, options.subtitle_ai_policy);
    assert!(options.download_cover);
    assert_eq!(vec![2], options.danmaku_formats);
    assert_eq!(BilibiliDownloadMode::All, options.download_mode);
    let playback_options =
        reloaded.playback_options.as_ref().expect("playback options should round-trip");
    assert_eq!("ja-jp", playback_options.audio_language);
    assert_eq!(Some(playback_policy), playback_options.playback_policy);
}

#[test]
fn entries_that_were_read_before_an_error_are_spent() {
    let mut budget = PersistedBudget::new(BudgetKind::Artifacts);
    budget.enter(5).expect("the budget is not in use yet");
    let error = budget.read_list(4, 3).expect_err("the list is too long");
    assert_eq!("task result artifacts cannot exceed 3 entries", error.message);
    assert_eq!(Some(BudgetState { remaining: 2, limit: 5 }), budget.state);
    let error = budget.read_list(3, 3).expect_err("the budget does not reach");
    assert_eq!("task output artifacts cannot exceed 5 entries", error.message);
    assert_eq!(Some(BudgetState { remaining: 0, limit: 5 }), budget.state);
}
