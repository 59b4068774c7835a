//! The registry at work. The file, the bodies of resources and the clients are played by small
//! stand-ins, and so is the part of the server that derives outputs from tasks.

use std::cell::RefCell;
use std::collections::{BTreeMap, BTreeSet, HashSet, VecDeque};
use std::rc::Rc;

use bilibili_tasks::changes::BilibiliTaskProgress;
use bilibili_tasks::id_set::IdSet;
use bilibili_tasks::messages::{
    CANCELLED_AFTER_RESTART_MESSAGE, CANCELLED_BY_REQUEST_MESSAGE, CANCEL_REQUESTED_MESSAGE,
    PLAYABLE_EXPIRED_AFTER_RESTART_MESSAGE, PLAYBACK_CACHE_DELETED_MESSAGE,
    PLAYBACK_COMPLETED_MESSAGE, PLAYBACK_PLAYABLE_MESSAGE,
    PREPARING_INTERRUPTED_AFTER_RESTART_MESSAGE, QUEUED_MESSAGE, REQUEUED_AFTER_RESTART_MESSAGE,
};
use bilibili_tasks::model::basics::{
    Progress, TaskArtifactState, TaskKind, TaskState, Timestamp,
};
use bilibili_tasks::model::options::{
    BilibiliDownloadMode, BilibiliDownloadOptions, BilibiliPlaybackOptions,
    BilibiliSubtitleAiPolicy, BilibiliTaskSelection,
};
use bilibili_tasks::model::output::{
    CacheResourceRef, TaskArtifact, TaskOutputRecord, TaskOutputSummary, TaskProblem,
    TaskResourceRecord, TaskResult,
};
use bilibili_tasks::model::playback::{
    BilibiliPlaybackSession, BilibiliPlaybackVariant, PlaybackSource,
};
use bilibili_tasks::model::record::PersistedTaskRecord;
use bilibili_tasks::model::state::{
    BilibiliTaskCancellation, RegistryInner, RegistryMutationCheckpoint,
};
use bilibili_tasks::model::task::{BilibiliTaskResultItem, Task};
use bilibili_tasks::model::visible::TaskOutputSnapshot;
use bilibili_tasks::registry::commit::{
    CommitReport, CommitStart, CommitTerms, FollowUp, Guarantee, PersistenceCommitOutcome,
    ReconciledOutput, Step, TaskStateSaveOutcome,
};
use bilibili_tasks::registry::creation::{BilibiliPlaybackTaskCreation, DownloadCreation};
use bilibili_tasks::registry::lifecycle::BilibiliTaskWorkItem;
use bilibili_tasks::registry::queries::HlsSessionPublicationState;
use bilibili_tasks::registry::removal::{CacheRemoval, MarkedOutput};
use bilibili_tasks::registry::restore::{
    RegistrySetting, RestoredOutput, restore_persisted_records,
};
use bilibili_tasks::registry::staging::{OutputReplacement, StagedTaskOutputReplacement};
use bilibili_tasks::registry::storage::{
    BodyCheck, BodyDeletion, BodyDeletionReport, BodyFacts, BodyProblem, RetiredOutput,
    validate_task_resource_body,
};
use bilibili_tasks::registry::watching::{
    Delivery, TaskWatch, WATCHER_EVENT_BUFFER_CAPACITY, watch_after, watch_end,
};
use bilibili_tasks::registry::{BilibiliTaskRegistry, TaskStatePersistence};
use bilibili_tasks::states::is_terminal;
use bilibili_tasks::status::{Code, Status};
use bilibili_tasks::store::errors::{
    StoreError, StoreErrorKind, StoreLimits, invalid_data,
};
use bilibili_tasks::store::records::{
    PersistedTaskFile, PersistedTaskOutput, TASK_STATE_SCHEMA_VERSION, validate_collection_limits,
};
use bilibili_tasks::store::sequence::PersistedTaskSequenceValidator;
use bilibili_tasks::store::snapshot::validate_loaded_records;
use bilibili_tasks::text::normalize;
use bilibili_tasks::timing::{Duration, TaskRetentionPolicy, current_timestamp, timestamp_nanos};

const MAX_REGISTERED_TASK_RESOURCES: usize = 1_000;
const MAX_TASK_RESULT_ENCODED_BYTES: usize = 64 * 1024;
const HLS_PROTOCOL: i32 = 2;
const METADATA: i32 = 5;
const SUBTITLE: i32 = 2;
const MEDIA: i32 = 1;

fn limits() -> StoreLimits {
    StoreLimits {
        max_registered_task_resources: MAX_REGISTERED_TASK_RESOURCES,
        max_task_resources: 100,
        max_task_results: 1_000,
        max_task_artifacts: 1_000,
        max_task_candidates: 100,
    }
}

fn id_set(ids: &[&str]) -> IdSet {
    let mut set = IdSet::new();
    for id in ids {
        set.insert((*id).to_owned());
    }
    set
}

fn listed(ids: &IdSet) -> BTreeSet<String> {
    (0..ids.len()).map(|index| ids.id_at(index).clone()).collect()
}

// ---------------------------------------------------------------------------------------------
// Outputs.

fn derived_results(task: &Task) -> Vec<TaskResult> {
    if task.result_items.is_empty() {
        return vec![TaskResult {
            id: task.id.clone(),
            state: task.state,
            title: task.title.clone(),
            library_item_id: task.library_item_id.clone(),
            playback_source: task.playback_source.clone(),
            ..Default::default()
        }];
    }
    task.result_items
        .iter()
        .map(|item| TaskResult {
            id: item.id.clone(),
            state: item.state,
            title: item.title.clone(),
            subtitle: item.subtitle.clone(),
            library_item_id: item.library_item_id.clone(),
            playback_source: item.playback_source.clone(),
            ..Default::default()
        })
        .collect()
}

fn primary_id(results: &[TaskResult]) -> String {
    results
        .iter()
        .find(|result| matches!(result.state, TaskState::Completed | TaskState::Playable))
        .or(results.first())
        .map(|result| result.id.clone())
        .unwrap_or_default()
}

fn derived_output(task: &Task) -> TaskOutputRecord {
    let results = derived_results(task);
    TaskOutputRecord {
        revision: 1,
        snapshot_id: snapshot_id(&task.id, 1),
        primary_result_id: primary_id(&results),
        results,
        legacy_managed: true,
        ..Default::default()
    }
}

fn snapshot_id(task_id: &str, revision: u64) -> String {
    format!("task-output-{task_id}-{revision}")
}

/// The output of a task, brought in line with the task where it is derived from it.
fn reconciled_output(
    current: &TaskOutputRecord,
    task: &Task,
) -> Result<TaskOutputRecord, String> {
    let mut output = current.clone();
    if !output.legacy_managed {
        return Ok(output);
    }
    let results = derived_results(task);
    if results.iter().any(|result| result.title.len() > MAX_TASK_RESULT_ENCODED_BYTES) {
        return Err("task result is too large".to_owned());
    }
    if results != output.results {
        output.revision += 1;
        output.snapshot_id = snapshot_id(&task.id, output.revision);
        output.primary_result_id = primary_id(&results);
        output.results = results;
    }
    Ok(output)
}

fn summary(output: &TaskOutputRecord) -> TaskOutputSummary {
    let count = |wanted: &[TaskState]| {
        output.results.iter().filter(|result| wanted.contains(&result.state)).count() as u32
    };
    TaskOutputSummary {
        revision: output.revision,
        primary_result_id: output.primary_result_id.clone(),
        result_count: output.results.len() as u32,
        successful_result_count: count(&[TaskState::Completed, TaskState::Succeeded]),
        failed_result_count: count(&[TaskState::Failed]),
        available_artifact_count: output
            .results
            .iter()
            .flat_map(|result| &result.artifacts)
            .filter(|artifact| artifact.state == TaskArtifactState::Available)
            .count() as u32,
    }
}

fn replaced_output(
    task_id: &str,
    current: &TaskOutputRecord,
    results: Vec<TaskResult>,
    resources: Vec<TaskResourceRecord>,
) -> Result<TaskOutputRecord, String> {
    if results.iter().any(|result| result.id.is_empty()) {
        return Err("task result id is required".to_owned());
    }
    if !current.legacy_managed && current.results == results && current.resources == resources {
        return Ok(current.clone());
    }
    Ok(TaskOutputRecord {
        revision: current.revision + 1,
        snapshot_id: snapshot_id(task_id, current.revision + 1),
        primary_result_id: primary_id(&results),
        results,
        resources,
        legacy_managed: false,
        encoded_bytes: 0,
    })
}

/// The output without what was cached of a session.
fn output_without_cache(
    task: &Task,
    current: &TaskOutputRecord,
    session_id: &str,
    library_item_id: &str,
) -> Result<MarkedOutput, String> {
    let mut retired_resource_ids = IdSet::new();
    if current.legacy_managed {
        let output = reconciled_output(current, task)?;
        let summary = summary(&output);
        return Ok(MarkedOutput { output, summary, retired_resource_ids });
    }
    let mut output = current.clone();
    for result in &mut output.results {
        if result.id != session_id && result.library_item_id != library_item_id {
            continue;
        }
        result.state = TaskState::Failed;
        result.library_item_id = String::new();
        result.playback_source = None;
        for artifact in &mut result.artifacts {
            artifact.state = TaskArtifactState::Deleted;
            if let Some(resource) = artifact.resource.take() {
                retired_resource_ids.insert(resource.id.to_ascii_lowercase());
            }
        }
    }
    output.resources.retain(|resource| !retired_resource_ids.contains(&resource.resource.id));
    output.revision += 1;
    output.snapshot_id = snapshot_id(&task.id, output.revision);
    let summary = summary(&output);
    Ok(MarkedOutput { output, summary, retired_resource_ids })
}

fn has_expired(resource: &CacheResourceRef, now: &Timestamp) -> bool {
    resource.expires_at.is_some_and(|expires_at| timestamp_nanos(&expires_at) <= timestamp_nanos(now))
}

/// The output without its resources that have expired, where there are any.
fn output_after_expiry(
    task_id: &str,
    current: &TaskOutputRecord,
    now: &Timestamp,
    excluded: &IdSet,
) -> Option<RetiredOutput> {
    let mut retired_resource_ids = IdSet::new();
    for resource in &current.resources {
        if has_expired(&resource.resource, now) && !excluded.contains(&resource.resource.id) {
            retired_resource_ids.insert(resource.resource.id.clone());
        }
    }
    if retired_resource_ids.is_empty() {
        return None;
    }
    let mut output = current.clone();
    output.resources.retain(|resource| !retired_resource_ids.contains(&resource.resource.id));
    for artifact in output.results.iter_mut().flat_map(|result| &mut result.artifacts) {
        let expired = artifact
            .resource
            .as_ref()
            .is_some_and(|resource| {
                retired_resource_ids.contains(&resource.id.to_ascii_lowercase())
            });
        if expired {
            artifact.resource = None;
            artifact.state = TaskArtifactState::Unavailable;
            artifact.problem = Some(TaskProblem {
                code: "cache.resource_expired".to_owned(),
                ..Default::default()
            });
        }
    }
    output.revision += 1;
    output.snapshot_id = snapshot_id(task_id, output.revision);
    let summary = summary(&output);
    Some(RetiredOutput { task_id: task_id.to_owned(), output, summary, retired_resource_ids })
}

fn resource_record(mut resource: CacheResourceRef) -> TaskResourceRecord {
    resource.id = resource.id.to_ascii_lowercase();
    resource.uri = format!("/resources/{}", resource.id);
    TaskResourceRecord { resource }
}

fn is_canonical(resource_id: &str) -> bool {
    !resource_id.is_empty() && resource_id == resource_id.to_ascii_lowercase()
}

// ---------------------------------------------------------------------------------------------
// The file that holds the state.

#[derive(Default)]
struct FileState {
    records: Option<Vec<PersistedTaskRecord>>,
    invalid: bool,
    blocked: bool,
    fail_next_sync: bool,
    saves: usize,
}

#[derive(Clone, Default)]
struct StateFile(Rc<RefCell<FileState>>);

impl StateFile {
    fn holding(records: Vec<PersistedTaskRecord>) -> Self {
        let file = Self::default();
        file.0.borrow_mut().records = Some(records);
        file
    }

    fn block(&self) {
        self.0.borrow_mut().blocked = true;
    }

    fn unblock(&self) {
        self.0.borrow_mut().blocked = false;
    }

    fn save(&self, records: &[PersistedTaskRecord]) -> Result<TaskStateSaveOutcome, StoreError> {
        let mut state = self.0.borrow_mut();
        let mut validator = PersistedTaskSequenceValidator::new(limits());
        for record in records {
            validator.validate(record)?;
            validate_collection_limits(record, &limits())?;
        }
        if state.blocked {
            return Err(invalid_data("the file cannot be replaced"));
        }
        state.records = Some(records.to_vec());
        state.saves += 1;
        if std::mem::take(&mut state.fail_next_sync) {
            Ok(TaskStateSaveOutcome::InstalledButNotDurable)
        } else {
            Ok(TaskStateSaveOutcome::Durable)
        }
    }

    /// Reads what was written down, record by record, as it is read from a file.
    fn load(&self) -> Result<Vec<PersistedTaskRecord>, StoreError> {
        let state = self.0.borrow();
        if state.invalid {
            return Err(invalid_data("the file does not hold a state"));
        }
        let mut records = Vec::new();
        for record in state.records.iter().flatten() {
            let file = PersistedTaskFile {
                task: record.task.clone(),
                options: record.options.clone(),
                playback_options: record.playback_options.clone(),
                request_context: record.request_context.clone(),
                bilibili_candidates: record.bilibili_candidates.clone(),
                has_output: true,
            };
            let draft = file.into_draft(TASK_STATE_SCHEMA_VERSION)?;
            let derived = derived_output(&draft.task);
            let stored = PersistedTaskOutput::from_output(&record.output);
            let stored = draft.load_output(Some(stored), derived)?;
            let mut results = stored.results;
            for artifact in results.iter_mut().flat_map(|result| &mut result.artifacts) {
                artifact.resource =
                    artifact.resource.take().map(|resource| resource_record(resource).resource);
            }
            let output = TaskOutputRecord {
                revision: stored.revision,
                snapshot_id: stored.snapshot_id,
                primary_result_id: stored.primary_result_id,
                results,
                resources: stored
                    .resources
                    .into_iter()
                    .map(|record| resource_record(record.resource))
                    .collect(),
                legacy_managed: stored.legacy_managed,
                encoded_bytes: 0,
            };
            records.push(draft.into_record(output));
        }
        validate_loaded_records(&records, &limits())?;
        Ok(records)
    }
}

// ---------------------------------------------------------------------------------------------
// The bodies of resources.

#[derive(Default)]
struct StorageState {
    missing: bool,
    unreadable: bool,
    managed_missing: bool,
    bodies: BTreeMap<String, Vec<u8>>,
    undeletable: BTreeSet<String>,
    with_other_files: BTreeSet<String>,
}

#[derive(Clone, Default)]
struct Storage(Rc<RefCell<StorageState>>);

impl Storage {
    fn write(&self, resource: &TaskResourceRecord, body: &[u8]) {
        self.0.borrow_mut().bodies.insert(resource.resource.id.clone(), body.to_vec());
    }

    fn has(&self, id: &str) -> bool {
        self.0.borrow().bodies.contains_key(id)
    }

    fn body(&self, id: &str) -> Option<Vec<u8>> {
        self.0.borrow().bodies.get(id).cloned()
    }

    fn delete(&self, id: &str) -> BodyDeletion {
        let mut state = self.0.borrow_mut();
        if state.missing || state.undeletable.contains(id) {
            return BodyDeletion::Failed;
        }
        state.bodies.remove(id);
        if state.with_other_files.contains(id) {
            BodyDeletion::DirectoryNotEmpty
        } else {
            BodyDeletion::Deleted
        }
    }

    fn open(&self, id: &str) -> Option<Vec<u8>> {
        let state = self.0.borrow();
        if state.missing || state.managed_missing {
            return None;
        }
        state.bodies.get(id).cloned()
    }
}

// ---------------------------------------------------------------------------------------------
// Clients that watch tasks.

struct Watcher {
    watch: TaskWatch,
    news: VecDeque<Task>,
    kept: bool,
    lagged: bool,
}

struct Subscription {
    snapshots: Vec<Task>,
    watcher: Rc<RefCell<Watcher>>,
}

impl Subscription {
    fn snapshots(&self) -> &[Task] {
        &self.snapshots
    }

    /// The next piece of news, or how the subscription ended. Nothing, while there is none.
    fn recv(&mut self) -> Option<Result<Task, Status>> {
        let mut watcher = self.watcher.borrow_mut();
        match watcher.news.pop_front() {
            Some(task) => Some(Ok(task)),
            None if watcher.kept => None,
            None => Some(Err(watch_end(watcher.lagged))),
        }
    }
}

// ---------------------------------------------------------------------------------------------
// The registry.

struct World {
    registry: BilibiliTaskRegistry,
    file: Option<StateFile>,
    storage: Option<Storage>,
    watchers: Vec<Rc<RefCell<Watcher>>>,
    instant: u64,
}

impl World {
    fn publish(&mut self, task: &Task) {
        for watcher in &self.watchers {
            let mut watcher = watcher.borrow_mut();
            if !watcher.kept || !watcher.watch.matches(task) {
                continue;
            }
            let delivery = if watcher.news.len() < WATCHER_EVENT_BUFFER_CAPACITY {
                watcher.news.push_back(task.clone());
                Delivery::Accepted
            } else {
                Delivery::Full
            };
            let fate = watch_after(delivery);
            watcher.kept = fate.kept;
            watcher.lagged = fate.lagged;
        }
    }

    fn reconciled_outputs(&self) -> (Vec<ReconciledOutput>, bool) {
        let inner = &self.registry.inner;
        let mut outputs = Vec::new();
        for index in 0..inner.tasks_by_id.len() {
            let task = inner.tasks_by_id.value_at(index);
            let current = inner.outputs_by_task_id.get(&task.id).expect("every task has an output");
            match reconciled_output(current, task) {
                Ok(output) => {
                    let summary = summary(&output);
                    outputs.push(ReconciledOutput { task_id: task.id.clone(), output, summary });
                }
                Err(_) => return (outputs, false),
            }
        }
        (outputs, true)
    }

    fn commit(&mut self, terms: CommitTerms) -> PersistenceCommitOutcome {
        let (outputs, sound) = self.reconciled_outputs();
        let now = current_timestamp();
        let start = self.registry.begin_commit(outputs, sound, terms.durability_required, now);
        let (snapshot, outcome) = match start {
            CommitStart::Settled(outcome) => (None, outcome),
            CommitStart::Save(snapshot) => {
                let persistence =
                    self.registry.persistence.as_mut().expect("a snapshot is saved somewhere");
                let outcome = if persistence.admit_snapshot(snapshot.generation) {
                    let file = self.file.as_ref().expect("a persistent registry has a file");
                    persistence.record_save(file.save(&snapshot.records).ok())
                } else {
                    PersistenceCommitOutcome::Superseded
                };
                (Some(snapshot), outcome)
            }
        };
        let CommitReport { news, follow_up } =
            self.registry.finish_commit(snapshot, outcome, terms);
        for task in &news {
            self.publish(task);
        }
        self.follow_up(follow_up);
        outcome
    }

    fn follow_up(&mut self, follow_up: FollowUp) {
        match follow_up {
            FollowUp::Nothing => {}
            FollowUp::ScanForOrphans => self.scan_for_orphans(),
            FollowUp::DeleteRetiredBodies => {
                self.delete_retired_bodies();
            }
        }
    }

    fn delete_retired_bodies(&mut self) -> bool {
        let Some(storage) = self.storage.clone() else {
            return true;
        };
        let doubtful = self.registry.begin_revalidation(current_timestamp(), self.instant);
        let checks = doubtful
            .to_check
            .iter()
            .map(|record| BodyCheck {
                resource_id: record.resource.id.clone(),
                passed: storage.open(&record.resource.id).is_some_and(|body| {
                    let facts = BodyFacts { regular_file: true, length: body.len() as u64 };
                    validate_task_resource_body(record, facts).is_ok()
                }),
            })
            .collect::<Vec<_>>();
        let revalidated = self.registry.finish_revalidation(&doubtful.unowned, &checks);
        let candidates = self.registry.begin_cleanup(current_timestamp(), self.instant);
        let reports = listed(&candidates)
            .into_iter()
            .map(|resource_id| BodyDeletionReport {
                deletion: storage.delete(&resource_id),
                resource_id,
            })
            .collect::<Vec<_>>();
        self.registry.finish_cleanup(revalidated, &reports, current_timestamp())
    }

    fn scan_for_orphans(&mut self) {
        if !self.registry.begin_orphan_scan() {
            return;
        }
        let Some(storage) = self.storage.clone() else {
            self.registry.finish_orphan_scan(true);
            return;
        };
        let names = {
            let state = storage.0.borrow();
            if state.missing || state.unreadable {
                None
            } else {
                Some(state.bodies.keys().cloned().collect::<Vec<_>>())
            }
        };
        let succeeded = match names {
            Some(names) if names.iter().all(|name| is_canonical(name)) => {
                let mut found = IdSet::new();
                for name in names {
                    found.insert(name);
                }
                self.registry.reserve_orphaned_bodies(&found, current_timestamp());
                self.delete_retired_bodies()
            }
            _ => false,
        };
        self.registry.finish_orphan_scan(succeeded);
    }

    fn retire_expired(&mut self, excluded: &IdSet) {
        let now = current_timestamp();
        let mut retired = Vec::new();
        let inner = &self.registry.inner;
        for index in 0..inner.outputs_by_task_id.len() {
            let task_id = inner.outputs_by_task_id.key_at(index);
            let output = inner.outputs_by_task_id.value_at(index);
            retired.extend(output_after_expiry(task_id, output, &now, excluded));
        }
        if let Some(terms) = self.registry.retire_expired_task_resources(retired, now) {
            self.commit(terms);
        }
    }
}

fn restored_outputs(records: &[PersistedTaskRecord]) -> Vec<RestoredOutput> {
    records
        .iter()
        .map(|record| {
            let output = reconciled_output(&record.output, &record.task).ok();
            let summary = output.as_ref().map(summary).unwrap_or_default();
            RestoredOutput { output, summary }
        })
        .collect()
}

struct TestRegistry {
    world: RefCell<World>,
}

impl Default for TestRegistry {
    fn default() -> Self {
        Self::over(BilibiliTaskRegistry::volatile(MAX_REGISTERED_TASK_RESOURCES), None, None)
    }
}

impl TestRegistry {
    fn over(
        registry: BilibiliTaskRegistry,
        file: Option<StateFile>,
        storage: Option<Storage>,
    ) -> Self {
        TestRegistry {
            world: RefCell::new(World {
                registry,
                file,
                storage,
                watchers: Vec::new(),
                instant: 0,
            }),
        }
    }

    fn with_file(file: &StateFile) -> Self {
        Self::opened(file, TaskRetentionPolicy::default(), None)
    }

    fn with_file_and_retention(file: &StateFile, retention_policy: TaskRetentionPolicy) -> Self {
        Self::opened(file, retention_policy, None)
    }

    fn with_storage(file: &StateFile, storage: &Storage) -> Self {
        Self::opened(file, TaskRetentionPolicy::default(), Some(storage.clone()))
    }

    fn opened(
        file: &StateFile,
        retention_policy: TaskRetentionPolicy,
        storage: Option<Storage>,
    ) -> Self {
        let now = current_timestamp();
        let setting = |persistent| RegistrySetting {
            persistent,
            persistence_configured: true,
            retention_policy,
            resource_root_configured: storage.is_some(),
            max_registered_resources: MAX_REGISTERED_TASK_RESOURCES,
        };
        let restored = file.load().and_then(|records| {
            let outputs = restored_outputs(&restore_persisted_records(&records, now)?);
            BilibiliTaskRegistry::from_persisted_records(&records, &outputs, setting(true), now)
        });
        let persistent = restored.is_ok();
        let registry = restored.unwrap_or_else(|_| {
            BilibiliTaskRegistry::from_persisted_records(
                &Vec::new(),
                &Vec::new(),
                setting(false),
                now,
            )
            .expect("no records are restored")
        });
        let opened = Self::over(registry, persistent.then(|| file.clone()), storage);
        if persistent {
            opened.retry_pending_persistence();
            opened.world.borrow_mut().retire_expired(&IdSet::new());
        }
        opened
    }

    /// Makes a request, commits what came before it if it asks for that, and commits its change.
    fn run<T>(
        &self,
        mut request: impl FnMut(&mut BilibiliTaskRegistry, bool) -> Result<Step<T>, Status>,
    ) -> Result<T, Status> {
        let mut world = self.world.borrow_mut();
        let world = &mut *world;
        let mut step = request(&mut world.registry, false)?;
        if let Step::Flush(terms) = step {
            let needed = CommitTerms::catching_up(terms.needed, terms.refusal);
            let outcome = world.commit(terms);
            needed.settle(outcome)?;
            step = request(&mut world.registry, true)?;
        }
        match step {
            Step::Done(answer) => Ok(answer),
            Step::Flush(_) => panic!("a request must go on once what came before is committed"),
            Step::Commit(answer, terms) => {
                let needed = CommitTerms::catching_up(terms.needed, terms.refusal);
                let outcome = world.commit(terms);
                needed.settle(outcome)?;
                Ok(answer)
            }
        }
    }

    fn read<T>(&self, request: impl FnOnce(&BilibiliTaskRegistry) -> T) -> T {
        request(&self.world.borrow().registry)
    }

    fn fail_next_persistence_directory_sync(&self) {
        let world = self.world.borrow();
        world.file.as_ref().expect("there must be a file").0.borrow_mut().fail_next_sync = true;
    }

    fn persistence_available(&self) -> bool {
        self.read(|registry| registry.persistence_available())
    }

    fn persistence_configured(&self) -> bool {
        self.read(|registry| registry.persistence_configured())
    }

    fn task_output_v2_available(&self) -> bool {
        self.read(|registry| registry.task_output_v2_available())
    }

    fn retry_pending_persistence(&self) -> bool {
        let terms = CommitTerms::catching_up(Guarantee::Durable, "");
        self.world.borrow_mut().commit(terms).is_durable()
    }

    fn create_bilibili_task(
        &self,
        source: &str,
        options: Option<BilibiliDownloadOptions>,
    ) -> Result<Task, Status> {
        let mut draft = match self.read(|registry| {
            registry.create_bilibili_task(source, options, current_timestamp())
        })? {
            DownloadCreation::Existing(task) => return Ok(task),
            DownloadCreation::Draft(draft) => Some(draft),
        };
        self.run(|registry, _| {
            let draft = draft.take().expect("a creation is admitted once");
            let output = derived_output(&draft.task);
            let summary = summary(&output);
            Ok(registry.admit_bilibili_task(draft, output, summary))
        })
    }

    fn create_bilibili_playback_task(
        &self,
        source: &str,
        options: Option<BilibiliPlaybackOptions>,
        selection: Option<BilibiliTaskSelection>,
    ) -> Result<BilibiliPlaybackTaskCreation, Status> {
        let mut draft = Some(self.read(|registry| {
            registry.create_bilibili_playback_task(source, options, selection, current_timestamp())
        })?);
        self.run(|registry, _| {
            let draft = draft.take().expect("a creation is admitted once");
            let output = derived_output(&draft.task);
            let summary = summary(&output);
            Ok(registry.admit_bilibili_playback_task(draft, output, summary))
        })
    }

    fn get_task(&self, id: &str) -> Result<Task, Status> {
        self.read(|registry| registry.get_task(id))
    }

    fn task_output_snapshot(&self, id: &str) -> Result<TaskOutputSnapshot, Status> {
        self.read(|registry| registry.task_output_snapshot(id, 0))
    }

    fn retain_task_output_snapshot(
        &self,
        id: &str,
        expires_at: u64,
    ) -> Result<TaskOutputSnapshot, Status> {
        let mut world = self.world.borrow_mut();
        world.retire_expired(&IdSet::new());
        let instant = world.instant;
        let snapshot = world.registry.retain_task_output_snapshot(id, expires_at, instant)?;
        world.delete_retired_bodies();
        Ok(snapshot)
    }

    fn release_task_output_snapshots(&self, resource_lease_ids: &[String]) {
        let mut world = self.world.borrow_mut();
        world.registry.release_task_output_snapshots(&resource_lease_ids.to_vec());
        world.delete_retired_bodies();
    }

    fn stage_task_output_replacement(
        &self,
        id: &str,
        resources: Vec<TaskResourceRecord>,
    ) -> Result<Staged<'_>, Status> {
        let mut world = self.world.borrow_mut();
        let instant = world.instant;
        let claim = world.registry.stage_task_output_replacement(id, resources, instant)?;
        world.retire_expired(&claim.resource_ids);
        let claim = world.registry.confirm_staged_task_output(claim)?;
        Ok(Staged { registry: self, claim: Some(claim) })
    }

    fn replace_task_output(
        &self,
        id: &str,
        results: Vec<TaskResult>,
        resources: Vec<TaskResourceRecord>,
    ) -> Result<Task, Status> {
        self.stage_task_output_replacement(id, resources)?.commit(results)
    }

    fn task_resource(&self, id: &str) -> Option<TaskResourceRecord> {
        let mut world = self.world.borrow_mut();
        world.retire_expired(&IdSet::new());
        let instant = world.instant;
        let record = world.registry.task_resource(id, current_timestamp(), instant);
        world.delete_retired_bodies();
        record
    }

    /// The body of a resource, nothing if there is no such resource, or the problem with it. A
    /// body that cannot be opened at all has no problem to name.
    fn open_task_resource(&self, id: &str) -> Result<Option<Vec<u8>>, Option<BodyProblem>> {
        let mut world = self.world.borrow_mut();
        world.retire_expired(&IdSet::new());
        let Some(storage) = world.storage.clone() else {
            return Ok(None);
        };
        let instant = world.instant;
        let Some(record) = world.registry.open_task_resource(id, current_timestamp(), instant) else {
            return Ok(None);
        };
        let Some(body) = storage.open(&record.resource.id) else {
            world.registry.mark_resource_storage_for_revalidation(&record.resource.id);
            return Err(None);
        };
        let facts = BodyFacts { regular_file: true, length: body.len() as u64 };
        let admitted = world
            .registry
            .admit_opened_task_resource(id, &record, facts, current_timestamp())
            .map_err(Some)?;
        if !admitted {
            return Ok(None);
        }
        world.delete_retired_bodies();
        Ok(Some(body))
    }

    fn cleanup_durable_resource_bodies(&self) -> bool {
        self.world.borrow_mut().delete_retired_bodies()
    }

    fn cancel_task(&self, id: &str) -> Result<Task, Status> {
        self.run(|registry, flushed| registry.cancel_task(id, flushed, current_timestamp()))
    }

    fn cancel_task_with_hls_session_ids(
        &self,
        id: &str,
    ) -> Result<bilibili_tasks::registry::lifecycle::TaskCancellationOutcome, Status> {
        self.run(|registry, flushed| {
            registry.cancel_task_with_hls_session_ids(id, flushed, current_timestamp())
        })
    }

    fn try_claim_next_bilibili_task(&self) -> Option<BilibiliTaskWorkItem> {
        self.run(|registry, _| Ok(registry.try_claim_next_bilibili_task(current_timestamp())))
            .expect("a claim is not refused")
    }

    fn claim_next_bilibili_task(&self) -> BilibiliTaskWorkItem {
        self.try_claim_next_bilibili_task().expect("a task should be queued")
    }

    /// Whether whoever holds `cancellation` has been asked to stop.
    fn stop_requested(&self, cancellation: &BilibiliTaskCancellation) -> bool {
        self.read(|registry| cancellation.is_cancel_requested(registry))
    }

    fn update_task_progress(&self, id: &str, report: Report) -> bool {
        let mut world = self.world.borrow_mut();
        let receipt =
            world.registry.update_task_progress(id, report.into_progress(), current_timestamp());
        if let Some(task) = receipt.news {
            world.publish(&task);
        }
        receipt.accepted
    }

    fn update_playback_cache_progress(&self, id: &str, report: Report) -> bool {
        let mut world = self.world.borrow_mut();
        let receipt = world.registry.update_playback_cache_progress(
            id,
            report.into_progress(),
            current_timestamp(),
        );
        if let Some(task) = receipt.news {
            world.publish(&task);
        }
        receipt.accepted
    }

    fn complete_task_succeeded(
        &self,
        id: &str,
        library_item_id: String,
        message: String,
    ) -> Result<Task, Status> {
        self.run(|registry, flushed| {
            registry.complete_task_succeeded(
                id,
                library_item_id.clone(),
                message.clone(),
                flushed,
                current_timestamp(),
            )
        })
    }

    fn complete_task_failed(&self, id: &str, message: String) -> Result<Task, Status> {
        self.run(|registry, flushed| {
            registry.complete_task_failed(id, message.clone(), flushed, current_timestamp())
        })
    }

    fn complete_task_cancelled(&self, id: &str, message: String) -> Result<Task, Status> {
        self.run(|registry, flushed| {
            registry.complete_task_cancelled(id, message.clone(), flushed, current_timestamp())
        })
    }

    fn complete_playback_planned(
        &self,
        id: &str,
        title: String,
        playback_session: BilibiliPlaybackSession,
    ) -> Result<Task, Status> {
        self.run(|registry, _| {
            registry.complete_playback_planned(
                id,
                title.clone(),
                playback_session.clone(),
                current_timestamp(),
            )
        })
    }

    fn complete_playback_playable(
        &self,
        id: &str,
        title: String,
        playback_source: PlaybackSource,
        playback_session: BilibiliPlaybackSession,
    ) -> Result<Task, Status> {
        self.run(|registry, _| {
            registry.complete_playback_playable(
                id,
                title.clone(),
                playback_source.clone(),
                playback_session.clone(),
                current_timestamp(),
            )
        })
    }

    fn complete_playback_results_playable(
        &self,
        id: &str,
        title: String,
        message: String,
        playback_source: PlaybackSource,
        playback_session: BilibiliPlaybackSession,
        result_items: Vec<BilibiliTaskResultItem>,
    ) -> Result<Task, Status> {
        self.run(|registry, _| {
            registry.complete_playback_results_playable(
                id,
                title.clone(),
                message.clone(),
                playback_source.clone(),
                playback_session.clone(),
                result_items.clone(),
                current_timestamp(),
            )
        })
    }

    fn update_playback_results(
        &self,
        id: &str,
        title: Option<String>,
        message: String,
        progress: f64,
        result_items: Vec<BilibiliTaskResultItem>,
    ) -> Result<Task, Status> {
        self.run(|registry, _| {
            registry.update_playback_results(
                id,
                title.clone(),
                message.clone(),
                progress.to_bits(),
                result_items.clone(),
                current_timestamp(),
            )
        })
    }

    fn fail_hls_cache_fill_for_playback_session(
        &self,
        task_id: &str,
        session_id: &str,
        message: String,
    ) -> Result<Option<Task>, Status> {
        self.run(|registry, flushed| {
            registry.fail_hls_cache_fill_for_playback_session(
                task_id,
                session_id,
                message.clone(),
                flushed,
                current_timestamp(),
            )
        })
    }

    fn complete_playback_cached(&self, id: &str, library_item_id: String) -> Result<Task, Status> {
        self.run(|registry, flushed| {
            registry.complete_playback_cached(
                id,
                library_item_id.clone(),
                flushed,
                current_timestamp(),
            )
        })
    }

    fn complete_playback_hls_session_cached(
        &self,
        task_id: &str,
        session_id: &str,
        library_item_id: String,
    ) -> Result<Task, Status> {
        self.run(|registry, flushed| {
            registry.complete_playback_hls_session_cached(
                task_id,
                session_id,
                library_item_id.clone(),
                flushed,
                current_timestamp(),
            )
        })
    }

    fn complete_playback_hls_session_cached_with_metadata(
        &self,
        task_id: &str,
        session_id: &str,
        library_item_id: String,
        session: BilibiliPlaybackSession,
    ) -> Result<Task, Status> {
        self.run(|registry, flushed| {
            registry.complete_playback_hls_session_cached_with_metadata(
                task_id,
                session_id,
                library_item_id.clone(),
                session.clone(),
                flushed,
                current_timestamp(),
            )
        })
    }

    fn refresh_playback_source(
        &self,
        id: &str,
        playback_source: PlaybackSource,
    ) -> Result<Task, Status> {
        self.run(|registry, _| registry.refresh_playback_source(id, playback_source.clone()))
    }

    fn refresh_hls_playback_source(
        &self,
        session_id: &str,
        playback_source: PlaybackSource,
    ) -> Result<Task, Status> {
        self.run(|registry, _| {
            registry.refresh_hls_playback_source(session_id, playback_source.clone())
        })
    }

    fn fail_unrestorable_playback_session_after_cache_restore(
        &self,
        session_id: &str,
        message: String,
    ) -> Result<Option<Task>, Status> {
        self.run(|registry, flushed| {
            registry.fail_unrestorable_playback_session_after_cache_restore(
                session_id,
                message.clone(),
                flushed,
                current_timestamp(),
            )
        })
    }

    fn fail_unrestorable_playback_tasks(
        &self,
        restorable_playable: &[&str],
        restorable_completed: &[&str],
    ) -> Vec<String> {
        let restorable_playable = id_set(restorable_playable);
        let restorable_completed = id_set(restorable_completed);
        self.run(|registry, _| {
            Ok(registry.fail_unrestorable_playback_tasks(
                &restorable_playable,
                &restorable_completed,
                current_timestamp(),
            ))
        })
        .expect("a restore is not refused")
    }

    fn remove_completed_playback_task(
        &self,
        session_id: &str,
        library_item_id: &str,
    ) -> Result<bool, Status> {
        let removal = self.read(|registry| {
            registry.remove_completed_playback_task(session_id, library_item_id, current_timestamp())
        })?;
        match removal {
            CacheRemoval::Nothing => Ok(false),
            CacheRemoval::ClearResult(task) => self.run(|registry, _| {
                let current = registry
                    .inner
                    .outputs_by_task_id
                    .get(&task.id)
                    .expect("every task has an output");
                let session_id = normalize(session_id);
                let marked = output_without_cache(&task, current, &session_id, library_item_id);
                registry.clear_cached_result(task.clone(), marked)
            }),
            CacheRemoval::RemoveTask(last) => self.run(|registry, _| {
                let current = registry
                    .inner
                    .outputs_by_task_id
                    .get(&last.id)
                    .expect("every task has an output");
                let tombstone = TaskOutputRecord {
                    revision: current.revision + 1,
                    results: derived_results(&last),
                    ..Default::default()
                };
                let summary = summary(&tombstone);
                Ok(registry.remove_task(last.clone(), summary))
            }),
        }
    }

    fn subscribe(&self, ids: &[String]) -> Result<Subscription, Status> {
        let start = self.read(|registry| registry.subscribe(&ids.to_vec()))?;
        let watcher = Rc::new(RefCell::new(Watcher {
            watch: start.watch,
            news: VecDeque::new(),
            kept: true,
            lagged: false,
        }));
        self.world.borrow_mut().watchers.push(Rc::clone(&watcher));
        Ok(Subscription { snapshots: start.snapshots, watcher })
    }

    fn is_cancel_requested(&self, id: &str) -> bool {
        self.read(|registry| registry.is_cancel_requested(id))
    }

    fn hls_playback_source_uri(&self, session_id: &str) -> Option<String> {
        self.read(|registry| registry.hls_playback_source_uri(session_id))
    }

    fn hls_session_has_online_playback_after_cache_fill_failure(
        &self,
        task_id: &str,
        session_id: &str,
    ) -> bool {
        self.read(|registry| {
            registry.hls_session_has_online_playback_after_cache_fill_failure(task_id, session_id)
        })
    }

    fn playable_task_id_for_hls_session(&self, session_id: &str) -> Option<String> {
        self.read(|registry| registry.playable_task_id_for_hls_session(session_id))
    }

    fn is_playback_result_session_playable(&self, session_id: &str, cache_supported: bool) -> bool {
        self.read(|registry| {
            registry.is_playback_result_session_playable(session_id, cache_supported)
        })
    }

    fn playback_task_has_completed_hls_cache_item(
        &self,
        task: &Task,
        session_id: &str,
        library_item_id: &str,
    ) -> bool {
        self.read(|registry| {
            registry.playback_task_has_completed_hls_cache_item(task, session_id, library_item_id)
        })
    }

    fn protected_hls_cache_session_ids(&self) -> BTreeSet<String> {
        listed(&self.read(|registry| registry.protected_hls_cache_session_ids()))
    }

    fn interrupted_planning_result_session_ids(&self) -> BTreeSet<String> {
        listed(&self.read(|registry| registry.interrupted_planning_result_session_ids()))
    }

    fn playback_hls_session_ids(&self, id: &str) -> Vec<String> {
        self.read(|registry| registry.playback_hls_session_ids(id))
    }

    fn is_hls_session_playable_for_task(&self, task_id: &str, session_id: &str) -> bool {
        self.read(|registry| registry.is_hls_session_playable_for_task(task_id, session_id))
    }

    fn is_primary_hls_session_playable(&self, task_id: &str, session_id: &str) -> bool {
        self.read(|registry| registry.is_primary_hls_session_playable(task_id, session_id))
    }

    fn is_playback_task_playable(&self, id: &str) -> bool {
        self.read(|registry| registry.is_playback_task_playable(id))
    }

    fn hls_session_publication_state(
        &self,
        task_id: &str,
        session_id: &str,
    ) -> HlsSessionPublicationState {
        self.read(|registry| registry.hls_session_publication_state(task_id, session_id))
    }
}

/// A claim on resources whose bodies are about to be written. It is given up unless it is committed.
struct Staged<'a> {
    registry: &'a TestRegistry,
    claim: Option<StagedTaskOutputReplacement>,
}

impl Staged<'_> {
    fn resources_requiring_body_creation(&self) -> Vec<TaskResourceRecord> {
        self.claim.as_ref().expect("the claim is held").resources_requiring_body_creation()
    }

    fn commit(mut self, results: Vec<TaskResult>) -> Result<Task, Status> {
        let outcome = {
            let claim = self.claim.as_ref().expect("the claim is held");
            self.registry.world.borrow_mut().retire_expired(&claim.resource_ids);
            self.registry.run(|registry, _| {
                let replacement = match registry.inner.outputs_by_task_id.get(&claim.task_id) {
                    Some(current) => replaced_output(
                        &claim.task_id,
                        current,
                        results.clone(),
                        claim.resources.clone(),
                    ),
                    None => Err("there is no such task".to_owned()),
                };
                let replacement = replacement.map(|output| {
                    let summary = summary(&output);
                    OutputReplacement { output, summary }
                });
                registry.commit_staged_task_output(claim, replacement, 0)
            })
        };
        if outcome.is_ok() {
            if let Some(claim) = self.claim.take() {
                let mut world = self.registry.world.borrow_mut();
                world.registry.release_staged_task_output_resources(&claim.resource_ids);
            }
        }
        outcome
    }
}

impl Drop for Staged<'_> {
    fn drop(&mut self) {
        if let Some(claim) = self.claim.take() {
            let mut world = self.registry.world.borrow_mut();
            let follow_up =
                world.registry.reject_staged_task_output_resources(&claim.resource_ids);
            world.follow_up(follow_up);
        }
    }
}

/// What a worker reports, with the fraction as a number.
#[derive(Default)]
struct Report {
    progress: Option<f64>,
    downloaded_bytes: Option<i64>,
    total_bytes: Option<i64>,
    message: Option<String>,
}

impl Report {
    fn into_progress(self) -> BilibiliTaskProgress {
        BilibiliTaskProgress {
            progress_bits: self.progress.map(f64::to_bits),
            downloaded_bytes: self.downloaded_bytes,
            total_bytes: self.total_bytes,
            message: self.message,
        }
    }
}

/// The fraction that a progress stands for.
fn fraction(progress: Progress) -> f64 {
    match progress {
        Progress::Exact { done, total } if total == 0 => done as f64,
        Progress::Exact { done, total } => done as f64 / total as f64,
        Progress::Measured { bits } => f64::from_bits(bits),
    }
}

// ---------------------------------------------------------------------------------------------
// What the tests work with.

fn persisted_task_record(id: &str, source: &str) -> PersistedTaskRecord {
    persisted_task_record_with_timestamp(
        id,
        source,
        TaskKind::BilibiliDownload,
        TaskState::Queued,
        current_timestamp(),
    )
}

fn persisted_task_record_with_state(
    id: &str,
    source: &str,
    kind: TaskKind,
    state: TaskState,
    seconds: i64,
) -> PersistedTaskRecord {
    persisted_task_record_with_timestamp(id, source, kind, state, Timestamp { seconds, nanos: 0 })
}

fn persisted_task_record_with_timestamp(
    id: &str,
    source: &str,
    kind: TaskKind,
    state: TaskState,
    timestamp: Timestamp,
) -> PersistedTaskRecord {
    let task = Task {
        id: id.to_owned(),
        kind,
        state,
        source: source.to_owned(),
        message: QUEUED_MESSAGE.to_owned(),
        created_at: Some(timestamp),
        updated_at: Some(timestamp),
        finished_at: is_terminal(state).then_some(timestamp),
        ..Default::default()
    };
    PersistedTaskRecord { output: derived_output(&task), task, ..Default::default() }
}

fn persisted_completed_playback_task_record(id: &str, seconds: i64) -> PersistedTaskRecord {
    let mut record = persisted_task_record_with_state(
        id,
        "BV1completed-old",
        TaskKind::BilibiliProgressivePlayback,
        TaskState::Completed,
        seconds,
    );
    record.task.message = PLAYBACK_COMPLETED_MESSAGE.to_owned();
    record.task.library_item_id = format!("bilibili.hls.{id}");
    record.task.playback_source = Some(PlaybackSource {
        item_id: id.to_owned(),
        variant_id: "h264".to_owned(),
        protocol: HLS_PROTOCOL,
        uri: format!("http://media.example.test:8080/hls/{id}/master.m3u8"),
        expires_at: Some(Timestamp { seconds, nanos: 0 }),
    });
    record.task.playback_session = Some(playback_session(id));
    record.output = derived_output(&record.task);
    record
}

fn download_options(quality_preference: &str, download_subtitles: bool) -> BilibiliDownloadOptions {
    BilibiliDownloadOptions {
        quality_preference: quality_preference.to_owned(),
        download_subtitles,
        ..Default::default()
    }
}

fn playback_options(quality_preference: &str) -> BilibiliPlaybackOptions {
    BilibiliPlaybackOptions {
        quality_preference: quality_preference.to_owned(),
        encoding_preference: "h264".to_owned(),
        ..Default::default()
    }
}

fn playback_session(task_id: &str) -> BilibiliPlaybackSession {
    BilibiliPlaybackSession {
        id: task_id.to_owned(),
        title: "Planned playback".to_owned(),
        content_id: "cid-1".to_owned(),
        selected_variant_id: "h264".to_owned(),
        selected_variant: Some(BilibiliPlaybackVariant {
            id: "h264".to_owned(),
            label: "1920x1080".to_owned(),
            source_kind: "dash".to_owned(),
            container: "mp4".to_owned(),
            video_codec: "avc1.640028".to_owned(),
            audio_codec: "mp4a.40.2".to_owned(),
            width: 1920,
            height: 1080,
            bitrate: 1_000_000,
            size_bytes: 10_000_000,
        }),
        variants: Vec::new(),
        transcoding_plan: None,
        effective_policy: None,
    }
}

fn playback_source(task_id: &str) -> PlaybackSource {
    PlaybackSource {
        item_id: task_id.to_owned(),
        variant_id: "h264".to_owned(),
        protocol: HLS_PROTOCOL,
        uri: format!("http://media.example.test:8080/hls/{task_id}/master.m3u8"),
        expires_at: None,
    }
}

/// The result for a page of a video.
fn page_result(
    id: &str,
    page: u32,
    state: TaskState,
    message: &str,
    source: Option<PlaybackSource>,
    session: Option<BilibiliPlaybackSession>,
) -> BilibiliTaskResultItem {
    BilibiliTaskResultItem {
        id: id.to_owned(),
        selection_id: format!("page:{page}"),
        title: format!("Part {page}"),
        subtitle: String::new(),
        source_kind: "video_page".to_owned(),
        content_id: format!("cid-{page}"),
        index: page,
        state,
        message: message.to_owned(),
        library_item_id: String::new(),
        playback_source: source,
        playback_session: session,
        identity: None,
    }
}

fn playable_page(session_id: &str, page: u32) -> BilibiliTaskResultItem {
    page_result(
        session_id,
        page,
        TaskState::Playable,
        "Playable",
        Some(playback_source(session_id)),
        Some(playback_session(session_id)),
    )
}

fn test_task_resource(id: &str, size_bytes: i64) -> TaskResourceRecord {
    resource_record(CacheResourceRef {
        id: id.to_owned(),
        content_type: "text/plain".to_owned(),
        size_bytes,
        size_known: true,
        ..Default::default()
    })
}

fn test_artifact(
    id: &str,
    kind: i32,
    state: TaskArtifactState,
    resource: &TaskResourceRecord,
) -> TaskArtifact {
    TaskArtifact {
        id: id.to_owned(),
        kind,
        state,
        resource: Some(resource.resource.clone()),
        ..Default::default()
    }
}

fn test_task_result_with_resources(id: &str, resources: &[TaskResourceRecord]) -> TaskResult {
    TaskResult {
        id: id.to_owned(),
        state: TaskState::Completed,
        artifacts: resources
            .iter()
            .map(|resource| {
                test_artifact(
                    &format!("artifact-{}", resource.resource.id),
                    METADATA,
                    TaskArtifactState::Available,
                    resource,
                )
            })
            .collect(),
        ..Default::default()
    }
}

fn plain_result(id: &str) -> TaskResult {
    TaskResult { id: id.to_owned(), state: TaskState::Completed, ..Default::default() }
}

// ---------------------------------------------------------------------------------------------
// Tests.

#[test]
fn mutation_checkpoint_restores_pending_resource_cleanup_reservations() {
    let mut inner = RegistryInner::new();
    inner
        .pending_resource_cleanup_ids
        .insert("existing-resource".to_owned());
    let checkpoint = RegistryMutationCheckpoint::capture(&inner);

    inner
        .pending_resource_cleanup_ids
        .insert("rolled-back-resource".to_owned());
    checkpoint.restore(&mut inner);

    assert_eq!(
        BTreeSet::from(["existing-resource".to_owned()]),
        listed(&inner.pending_resource_cleanup_ids)
    );
}

#[test]
fn dedupes_active_tasks_by_source_and_options() {
    let registry = TestRegistry::default();
    let first = registry
        .create_bilibili_task("  BV1xx  ", Some(download_options("720P", false)))
        .expect("task should be created");
    let duplicate = registry
        .create_bilibili_task("BV1xx", Some(download_options("720p", false)))
        .expect("duplicate task should be returned");
    let different_quality = registry
        .create_bilibili_task("BV1xx", Some(download_options("1080p", false)))
        .expect("task with different options should be created");
    let different_subtitles = registry
        .create_bilibili_task("BV1xx", Some(download_options("720p", true)))
        .expect("task with different subtitle options should be created");

    assert_eq!(first.id, duplicate.id);
    assert_ne!(first.id, different_quality.id);
    assert_ne!(first.id, different_subtitles.id);
}

#[test]
fn creates_request_scoped_progressive_playback_tasks_without_colliding_with_downloads() {
    let registry = TestRegistry::default();
    let download = registry
        .create_bilibili_task("BV1play", None)
        .expect("download task should be created");
    let playback = registry
        .create_bilibili_playback_task("BV1play", Some(playback_options("720P")), None)
        .expect("playback task should be created");
    let repeated_playback = registry
        .create_bilibili_playback_task("  BV1play  ", Some(playback_options("720p")), None)
        .expect("repeated playback task should be created");
    let different_playback = registry
        .create_bilibili_playback_task("BV1play", Some(playback_options("1080p")), None)
        .expect("different playback task should be created");

    assert_ne!(download.id, playback.task.id);
    assert!(playback.created);
    assert!(repeated_playback.created);
    assert_ne!(playback.task.id, repeated_playback.task.id);
    assert_ne!(playback.task.id, different_playback.task.id);
}

#[test]
fn preparing_playback_cancel_sets_token_and_late_plan_stays_cancelled() {
    let registry = TestRegistry::default();
    let created = registry
        .create_bilibili_playback_task("BV1cancel-planning", None, None)
        .expect("playback task should be created");
    let cancellation = created
        .cancellation
        .clone()
        .expect("new playback task should expose cancellation");

    let cancel_requested = registry
        .cancel_task(&created.task.id)
        .expect("planning task should be cancellable");

    assert_eq!(TaskState::CancelRequested, cancel_requested.state());
    assert!(registry.stop_requested(&cancellation));
    assert!(registry.is_cancel_requested(&created.task.id));

    let final_task = registry
        .complete_playback_playable(
            &created.task.id,
            "Late playback plan".to_owned(),
            playback_source(&created.task.id),
            playback_session(&created.task.id),
        )
        .expect("late planning completion should be reconciled");

    assert_eq!(TaskState::Cancelled, final_task.state());
    assert_eq!(CANCELLED_BY_REQUEST_MESSAGE, final_task.message);
    assert!(final_task.playback_source.is_none());
    assert!(final_task.playback_session.is_none());
    assert!(!registry.is_cancel_requested(&created.task.id));

    let recreated = registry
        .create_bilibili_playback_task("BV1cancel-planning", None, None)
        .expect("cancelled source should be requeueable");
    assert!(recreated.created);
    assert_ne!(created.task.id, recreated.task.id);
}

#[test]
fn cancel_is_idempotent_and_allows_requeue() {
    let registry = TestRegistry::default();
    let first = registry
        .create_bilibili_task("BV1yy", None)
        .expect("task should be created");

    let cancelled = registry.cancel_task(&first.id).expect("cancel should work");
    assert_eq!(TaskState::Cancelled, cancelled.state());
    let cancelled_again = registry
        .cancel_task(&first.id)
        .expect("cancel is idempotent");
    assert_eq!(cancelled.id, cancelled_again.id);

    let requeued = registry
        .create_bilibili_task("BV1yy", None)
        .expect("source can be queued after cancellation");
    assert_ne!(first.id, requeued.id);
}

#[test]
fn unrelated_updates_do_not_lag_filtered_subscriptions() {
    let registry = TestRegistry::default();
    let watched = registry
        .create_bilibili_task("BV1watched", None)
        .expect("watched task should be created");
    let mut subscription = registry
        .subscribe(std::slice::from_ref(&watched.id))
        .expect("subscription should be created");

    for index in 0..=WATCHER_EVENT_BUFFER_CAPACITY {
        registry
            .create_bilibili_task(&format!("BV1unrelated-{index}"), None)
            .expect("unrelated task should be created");
    }

    let cancelled = registry
        .cancel_task(&watched.id)
        .expect("watched task should be cancelled");
    let event = subscription
        .recv()
        .expect("there should be news")
        .expect("filtered subscription should not lag on unrelated updates");

    assert_eq!(cancelled.id, event.id);
    assert_eq!(TaskState::Cancelled, event.state());
}

#[test]
fn claim_moves_queued_task_to_running_and_reports_progress() {
    let registry = TestRegistry::default();
    let task = registry
        .create_bilibili_task("BV1worker", None)
        .expect("task should be created");

    let work_item = registry.claim_next_bilibili_task();

    assert_eq!(task.id, work_item.task_id);
    assert_eq!("BV1worker", work_item.source);
    let running = registry.get_task(&task.id).expect("task should exist");
    assert_eq!(TaskState::Running, running.state());

    assert!(registry.update_task_progress(
        &task.id,
        Report {
            progress: Some(0.25),
            downloaded_bytes: Some(1024),
            total_bytes: Some(4096),
            message: Some("Downloading video stream.".to_owned()),
        },
    ));

    let updated = registry.get_task(&task.id).expect("task should exist");
    assert_eq!(TaskState::Running, updated.state());
    assert_eq!(0.25, fraction(updated.progress));
    assert_eq!(1024, updated.downloaded_bytes);
    assert_eq!(4096, updated.total_bytes);
    assert_eq!("Downloading video stream.", updated.message);
}

#[test]
fn running_cancel_sets_cancel_requested_and_token() {
    let registry = TestRegistry::default();
    let task = registry
        .create_bilibili_task("BV1cancel-running", None)
        .expect("task should be created");
    let work_item = registry.claim_next_bilibili_task();

    let cancelled = registry.cancel_task(&task.id).expect("cancel should work");

    assert_eq!(TaskState::CancelRequested, cancelled.state());
    assert!(registry.stop_requested(&work_item.cancellation));
    assert!(registry.is_cancel_requested(&task.id));

    let final_task = registry
        .complete_task_cancelled(&task.id, "Cancelled by adapter.".to_owned())
        .expect("completion should work");
    assert_eq!(TaskState::Cancelled, final_task.state());
    assert!(!registry.is_cancel_requested(&task.id));
}

#[test]
fn cancel_requested_wins_over_late_success_completion() {
    let registry = TestRegistry::default();
    let task = registry
        .create_bilibili_task("BV1cancel-race", None)
        .expect("task should be created");
    let _ = registry.claim_next_bilibili_task();
    let cancel_requested = registry.cancel_task(&task.id).expect("cancel should work");
    assert_eq!(TaskState::CancelRequested, cancel_requested.state());

    let final_task = registry
        .complete_task_succeeded(
            &task.id,
            "library-item-after-cancel".to_owned(),
            "Completed after cancellation.".to_owned(),
        )
        .expect("late completion should be reconciled");

    assert_eq!(TaskState::Cancelled, final_task.state());
    assert_eq!(CANCELLED_BY_REQUEST_MESSAGE, final_task.message);
    assert!(final_task.library_item_id.is_empty());
    assert!(!registry.is_cancel_requested(&task.id));
}

#[test]
fn restores_queued_task_with_options_from_disk() {
    let file = StateFile::default();
    let options = BilibiliDownloadOptions {
        quality_preference: "1080p".to_owned(),
        encoding_preference: "hevc".to_owned(),
        prefer_tv_api: true,
        download_subtitles: true,
        download_danmaku: false,
        audio_language: "ja-jp".to_owned(),
        subtitle_ai_policy: BilibiliSubtitleAiPolicy::PreferNonAi,
        download_cover: true,
        danmaku_formats: vec![1],
        download_mode: BilibiliDownloadMode::Unspecified,
    };
    let task = TestRegistry::with_file(&file)
        .create_bilibili_task("BV1persist", Some(options.clone()))
        .expect("task should be created");

    let restored = TestRegistry::with_file(&file);
    let restored_task = restored.get_task(&task.id).expect("task should restore");
    let work_item = restored
        .try_claim_next_bilibili_task()
        .expect("restored queued task should be claimable");

    assert_eq!(TaskState::Queued, restored_task.state());
    assert_eq!(task.id, work_item.task_id);
    assert_eq!(Some(options), work_item.options);
}

#[test]
fn restores_planned_progressive_playback_task_without_deduping_new_requests() {
    let file = StateFile::default();
    let options = playback_options("1080p");
    let registry = TestRegistry::with_file(&file);
    let created = registry
        .create_bilibili_playback_task("BV1planned", Some(options.clone()), None)
        .expect("playback task should be created");
    let planned = registry
        .complete_playback_planned(
            &created.task.id,
            "Planned playback".to_owned(),
            playback_session(&created.task.id),
        )
        .expect("planning should complete");

    let restored = TestRegistry::with_file(&file);
    let restored_task = restored.get_task(&planned.id).expect("task should restore");
    let duplicate = restored
        .create_bilibili_playback_task("BV1planned", Some(options), None)
        .expect("new request-scoped playback task should be created");

    assert_eq!(TaskState::Planned, restored_task.state());
    assert!(restored_task.playback_source.is_none());
    assert_eq!("cid-1", restored_task.playback_session.unwrap().content_id);
    assert!(!registry.is_cancel_requested(&planned.id));
    assert_ne!(planned.id, duplicate.task.id);
    assert!(duplicate.created);
}

#[test]
fn restores_playable_progressive_playback_task_after_restart() {
    let file = StateFile::default();
    let registry = TestRegistry::with_file(&file);
    let created = registry
        .create_bilibili_playback_task("BV1playable", Some(playback_options("1080p")), None)
        .expect("playback task should be created");
    let playable = registry
        .complete_playback_playable(
            &created.task.id,
            "Playable playback".to_owned(),
            playback_source(&created.task.id),
            playback_session(&created.task.id),
        )
        .expect("playback should become playable");

    let restored = TestRegistry::with_file(&file);
    let restored_task = restored
        .get_task(&playable.id)
        .expect("task should restore");
    let requeued = restored
        .create_bilibili_playback_task("BV1playable", Some(playback_options("1080p")), None)
        .expect("playable source should not dedupe future requests");

    assert_eq!(TaskState::Playable, restored_task.state());
    assert!(restored_task.playback_source.is_some());
    assert_ne!(playable.id, requeued.task.id);
}

#[test]
fn completed_progressive_playback_cache_rewrites_runtime_source_to_library_item() {
    let file = StateFile::default();
    let registry = TestRegistry::with_file(&file);
    let created = registry
        .create_bilibili_playback_task("BV1completed", Some(playback_options("1080p")), None)
        .expect("playback task should be created");
    registry
        .complete_playback_playable(
            &created.task.id,
            "Playable playback".to_owned(),
            playback_source(&created.task.id),
            playback_session(&created.task.id),
        )
        .expect("playback should become playable");

    let completed = registry
        .complete_playback_cached(&created.task.id, "bilibili.hls.completed".to_owned())
        .expect("playback cache should complete");

    assert_eq!(TaskState::Completed, completed.state());
    assert_eq!("bilibili.hls.completed", completed.library_item_id);
    let completed_source = completed
        .playback_source
        .as_ref()
        .expect("completed playback should keep a source");
    assert_eq!("bilibili.hls.completed", completed_source.item_id);

    let restored = TestRegistry::with_file(&file);
    let restored_task = restored
        .get_task(&completed.id)
        .expect("completed playback task should restore");

    assert_eq!(TaskState::Completed, restored_task.state());
    assert_eq!("bilibili.hls.completed", restored_task.library_item_id);
    let restored_source = restored_task
        .playback_source
        .as_ref()
        .expect("restored completed playback should keep a source");
    assert_eq!("bilibili.hls.completed", restored_source.item_id);
}

#[test]
fn remove_completed_playback_task_deletes_matching_completed_record() {
    let file = StateFile::default();
    let registry = TestRegistry::with_file(&file);
    let created = registry
        .create_bilibili_playback_task("BV1delete", Some(playback_options("1080p")), None)
        .expect("playback task should be created");
    registry
        .complete_playback_playable(
            &created.task.id,
            "Playable playback".to_owned(),
            playback_source(&created.task.id),
            playback_session(&created.task.id),
        )
        .expect("playback should become playable");
    let library_item_id = format!("bilibili.hls.{}", created.task.id);
    registry
        .complete_playback_cached(&created.task.id, library_item_id.clone())
        .expect("playback cache should complete");
    let durable_task = registry.get_task(&created.task.id).unwrap();
    let durable_output = registry.task_output_snapshot(&created.task.id).unwrap();

    file.block();
    let error = registry
        .remove_completed_playback_task(&created.task.id, &library_item_id)
        .expect_err("whole-task deletion must fail when durability fails");
    assert_eq!(Code::Unavailable, error.code());
    assert_eq!(durable_task, registry.get_task(&created.task.id).unwrap());
    let visible_output = registry.task_output_snapshot(&created.task.id).unwrap();
    assert_eq!(durable_output.revision, visible_output.revision);
    assert_eq!(
        durable_output.output.record.results,
        visible_output.output.record.results
    );

    file.unblock();

    assert!(
        registry
            .remove_completed_playback_task(&created.task.id, &library_item_id)
            .expect("completed playback task should be removable")
    );
    assert!(registry.get_task(&created.task.id).is_err());

    let restored = TestRegistry::with_file(&file);
    assert!(restored.get_task(&created.task.id).is_err());
}

#[test]
fn remove_completed_playback_task_notifies_watchers_before_record_removal() {
    let registry = TestRegistry::default();
    let created = registry
        .create_bilibili_playback_task("BV1delete", Some(playback_options("1080p")), None)
        .expect("playback task should be created");
    registry
        .complete_playback_playable(
            &created.task.id,
            "Playable playback".to_owned(),
            playback_source(&created.task.id),
            playback_session(&created.task.id),
        )
        .expect("playback should become playable");
    let library_item_id = format!("bilibili.hls.{}", created.task.id);
    registry
        .complete_playback_cached(&created.task.id, library_item_id.clone())
        .expect("playback cache should complete");
    let mut subscription = registry
        .subscribe(std::slice::from_ref(&created.task.id))
        .expect("subscription should be created");
    let previous_revision = subscription.snapshots()[0]
        .output_summary
        .as_ref()
        .expect("completed task should have an output summary")
        .revision;

    assert_eq!(1, subscription.snapshots().len());
    assert!(
        registry
            .remove_completed_playback_task(&created.task.id, &library_item_id)
            .expect("completed playback task should be removable")
    );

    let event = subscription
        .recv()
        .expect("there should be news")
        .expect("watcher should receive task removal tombstone");

    assert_eq!(created.task.id, event.id);
    assert_eq!(TaskState::Failed, event.state());
    assert_eq!(PLAYBACK_CACHE_DELETED_MESSAGE, event.message);
    assert!(event.library_item_id.is_empty());
    assert!(event.playback_source.is_none());
    assert!(event.playback_session.is_none());
    let summary = event
        .output_summary
        .expect("removal tombstone should carry a failed output summary");
    assert!(summary.revision > previous_revision);
    assert_eq!(1, summary.failed_result_count);
    assert_eq!(0, summary.successful_result_count);
    assert_eq!(0, summary.available_artifact_count);
    assert!(registry.get_task(&created.task.id).is_err());
}

#[test]
fn remove_completed_playback_task_rejects_mismatched_or_active_records() {
    let registry = TestRegistry::default();
    let created = registry
        .create_bilibili_playback_task("BV1active", Some(playback_options("1080p")), None)
        .expect("playback task should be created");

    let active_error = registry
        .remove_completed_playback_task(&created.task.id, "bilibili.hls.active")
        .expect_err("active task should not be removable");
    assert_eq!(Code::FailedPrecondition, active_error.code());

    registry
        .complete_playback_playable(
            &created.task.id,
            "Playable playback".to_owned(),
            playback_source(&created.task.id),
            playback_session(&created.task.id),
        )
        .expect("playback should become playable");
    let library_item_id = format!("bilibili.hls.{}", created.task.id);
    registry
        .complete_playback_cached(&created.task.id, library_item_id)
        .expect("playback cache should complete");

    let mismatch_error = registry
        .remove_completed_playback_task(&created.task.id, "bilibili.hls.other")
        .expect_err("mismatched item should not be removable");
    assert_eq!(Code::FailedPrecondition, mismatch_error.code());
    assert!(registry.get_task(&created.task.id).is_ok());
}

#[test]
fn refresh_playback_source_updates_restored_progressive_task_uri() {
    let registry = TestRegistry::default();
    let created = registry
        .create_bilibili_playback_task("BV1refresh", Some(playback_options("1080p")), None)
        .expect("playback task should be created");
    registry
        .complete_playback_playable(
            &created.task.id,
            "Playable playback".to_owned(),
            playback_source(&created.task.id),
            playback_session(&created.task.id),
        )
        .expect("playback should become playable");
    let mut refreshed_source = playback_source(&created.task.id);
    refreshed_source.uri = format!(
        "http://restored.example.test:9090/hls/{}/master.m3u8",
        created.task.id
    );

    let refreshed = registry
        .refresh_playback_source(&created.task.id, refreshed_source.clone())
        .expect("playback source should refresh");

    assert_eq!(TaskState::Playable, refreshed.state());
    assert_eq!(Some(refreshed_source), refreshed.playback_source);
}

#[test]
fn refresh_hls_playback_source_updates_secondary_result_uri() {
    let registry = TestRegistry::default();
    let created = registry
        .create_bilibili_playback_task(
            "BV1refresh-result",
            Some(playback_options("1080p")),
            None,
        )
        .expect("playback task should be created");
    let child_session_id = format!("{}-result-2", created.task.id);
    let child_source = playback_source(&child_session_id);
    let child_session = playback_session(&child_session_id);
    let result_items = vec![
        page_result(&created.task.id, 1, TaskState::Failed, "page 1 planning failed", None, None),
        page_result(&child_session_id, 2, TaskState::Playable, "Playable", Some(child_source.clone()), Some(child_session.clone())),
    ];
    registry
        .complete_playback_results_playable(
            &created.task.id,
            "Partially playable".to_owned(),
            "1/2 Bilibili playback result(s) are playable.".to_owned(),
            child_source,
            child_session,
            result_items,
        )
        .expect("playback results should become playable");
    let mut refreshed_source = playback_source(&child_session_id);
    let expected_uri =
        format!("http://restored.example.test:9090/hls/{child_session_id}/master.m3u8");
    refreshed_source.uri = expected_uri.clone();

    let refreshed = registry
        .refresh_hls_playback_source(&child_session_id, refreshed_source.clone())
        .expect("secondary playback source should refresh");

    let mut expected_primary_source = refreshed_source.clone();
    expected_primary_source.item_id = created.task.id.clone();
    assert_eq!(TaskState::Playable, refreshed.state());
    assert_eq!(Some(expected_primary_source), refreshed.playback_source);
    assert_eq!(2, refreshed.result_items.len());
    assert!(refreshed.result_items[0].playback_source.is_none());
    assert_eq!(
        Some(refreshed_source),
        refreshed.result_items[1].playback_source
    );
    assert_eq!(
        Some(expected_uri),
        registry.hls_playback_source_uri(&child_session_id)
    );
}

#[test]
fn fails_playable_task_when_primary_hls_session_is_unrestorable() {
    let registry = TestRegistry::default();
    let created = registry
        .create_bilibili_playback_task(
            "BV1missing-primary",
            Some(playback_options("1080p")),
            None,
        )
        .expect("playback task should be created");
    let child_session_id = format!("{}-result-2", created.task.id);
    let result_items = vec![
        playable_page(&created.task.id, 1),
        playable_page(&child_session_id, 2),
    ];
    registry
        .complete_playback_results_playable(
            &created.task.id,
            "Playable".to_owned(),
            "All results are playable.".to_owned(),
            playback_source(&created.task.id),
            playback_session(&created.task.id),
            result_items,
        )
        .expect("playback results should become playable");

    let failed_ids = registry
        .fail_unrestorable_playback_tasks(&[child_session_id.as_str()], &[]);
    let failed = registry
        .get_task(&created.task.id)
        .expect("failed task should remain readable");

    assert_eq!(vec![created.task.id], failed_ids);
    assert_eq!(TaskState::Failed, failed.state());
    assert!(failed.playback_source.is_none());
    assert!(failed.playback_session.is_none());
    assert!(
        failed
            .result_items
            .iter()
            .all(|item| { item.playback_source.is_none() && item.playback_session.is_none() })
    );
}

#[test]
fn clears_unrestorable_secondary_result_but_keeps_primary_playable() {
    let registry = TestRegistry::default();
    let created = registry
        .create_bilibili_playback_task(
            "BV1missing-secondary",
            Some(playback_options("1080p")),
            None,
        )
        .expect("playback task should be created");
    let child_session_id = format!("{}-result-2", created.task.id);
    let result_items = vec![
        playable_page(&created.task.id, 1),
        playable_page(&child_session_id, 2),
    ];
    registry
        .complete_playback_results_playable(
            &created.task.id,
            "Playable".to_owned(),
            "All results are playable.".to_owned(),
            playback_source(&created.task.id),
            playback_session(&created.task.id),
            result_items,
        )
        .expect("playback results should become playable");

    let changed_ids = registry.fail_unrestorable_playback_tasks(
        &[created.task.id.as_str()],
        &[],
    );
    let playable = registry
        .get_task(&created.task.id)
        .expect("playable task should remain readable");

    assert_eq!(vec![created.task.id], changed_ids);
    assert_eq!(TaskState::Playable, playable.state());
    assert!(playable.playback_source.is_some());
    assert!(playable.playback_session.is_some());
    assert_eq!(
        TaskState::Playable,
        playable.result_items[0].state
    );
    assert!(playable.result_items[0].playback_source.is_some());
    assert!(playable.result_items[0].playback_session.is_some());
    assert_eq!(TaskState::Failed, playable.result_items[1].state);
    assert!(playable.result_items[1].playback_source.is_none());
    assert!(playable.result_items[1].playback_session.is_none());
}

#[test]
fn clears_unrestorable_secondary_result_but_keeps_primary_completed() {
    let registry = TestRegistry::default();
    let created = registry
        .create_bilibili_playback_task(
            "BV1completed-missing-secondary",
            Some(playback_options("1080p")),
            None,
        )
        .expect("playback task should be created");
    let child_session_id = format!("{}-result-2", created.task.id);
    let result_items = vec![
        playable_page(&created.task.id, 1),
        playable_page(&child_session_id, 2),
    ];
    registry
        .complete_playback_results_playable(
            &created.task.id,
            "Playable".to_owned(),
            "All results are playable.".to_owned(),
            playback_source(&child_session_id),
            playback_session(&child_session_id),
            result_items,
        )
        .expect("playback results should become playable");
    let library_item_id = format!("bilibili.hls.{child_session_id}");
    registry
        .complete_playback_hls_session_cached(
            &created.task.id,
            &child_session_id,
            library_item_id.clone(),
        )
        .expect("primary child session should become completed");

    let changed_ids = registry.fail_unrestorable_playback_tasks(
        &[],
        &[child_session_id.as_str()],
    );
    let completed = registry
        .get_task(&created.task.id)
        .expect("completed task should remain readable");

    assert_eq!(vec![created.task.id], changed_ids);
    assert_eq!(TaskState::Completed, completed.state());
    assert_eq!(library_item_id, completed.library_item_id);
    assert_eq!(2, completed.result_items.len());
    assert_eq!(
        TaskState::Failed,
        completed.result_items[0].state
    );
    assert!(completed.result_items[0].playback_source.is_none());
    assert!(completed.result_items[0].playback_session.is_none());
    assert_eq!(
        TaskState::Completed,
        completed.result_items[1].state
    );
    assert_eq!(library_item_id, completed.result_items[1].library_item_id);
    assert!(completed.result_items[1].playback_source.is_some());
    assert!(completed.result_items[1].playback_session.is_some());
}

#[test]
fn cache_restore_missing_primary_result_session_fails_playable_task() {
    let registry = TestRegistry::default();
    let created = registry
        .create_bilibili_playback_task(
            "BV1missing-primary-result",
            Some(playback_options("1080p")),
            None,
        )
        .expect("playback task should be created");
    let child_session_id = format!("{}-result-2", created.task.id);
    let child_source = playback_source(&child_session_id);
    let child_session = playback_session(&child_session_id);
    let result_items = vec![
        page_result(&created.task.id, 1, TaskState::Failed, "page 1 planning failed", None, None),
        page_result(&child_session_id, 2, TaskState::Playable, "Playable", Some(child_source.clone()), Some(child_session.clone())),
    ];
    registry
        .complete_playback_results_playable(
            &created.task.id,
            "Partially playable".to_owned(),
            "1/2 Bilibili playback result(s) are playable.".to_owned(),
            child_source,
            child_session,
            result_items,
        )
        .expect("playback results should become playable");

    let failed = registry
        .fail_unrestorable_playback_session_after_cache_restore(
            &child_session_id,
            "missing".to_owned(),
        )
        .expect("missing primary should be handled")
        .expect("missing primary should update task");

    assert_eq!(TaskState::Failed, failed.state());
    assert_eq!("missing", failed.message);
    assert!(failed.playback_source.is_none());
    assert!(failed.playback_session.is_none());
    assert!(
        failed
            .result_items
            .iter()
            .all(|item| item.playback_source.is_none() && item.playback_session.is_none())
    );
}

#[test]
fn cache_restore_missing_secondary_result_session_keeps_primary_playable() {
    let registry = TestRegistry::default();
    let created = registry
        .create_bilibili_playback_task(
            "BV1missing-secondary-lazy",
            Some(playback_options("1080p")),
            None,
        )
        .expect("playback task should be created");
    let child_session_id = format!("{}-result-2", created.task.id);
    let result_items = vec![
        playable_page(&created.task.id, 1),
        playable_page(&child_session_id, 2),
    ];
    registry
        .complete_playback_results_playable(
            &created.task.id,
            "Playable".to_owned(),
            "All results are playable.".to_owned(),
            playback_source(&created.task.id),
            playback_session(&created.task.id),
            result_items,
        )
        .expect("playback results should become playable");

    let playable = registry
        .fail_unrestorable_playback_session_after_cache_restore(
            &child_session_id,
            "missing".to_owned(),
        )
        .expect("missing secondary should be handled")
        .expect("missing secondary should update task");

    assert_eq!(TaskState::Playable, playable.state());
    assert!(playable.playback_source.is_some());
    assert!(playable.playback_session.is_some());
    assert_eq!(
        TaskState::Playable,
        playable.result_items[0].state
    );
    assert!(playable.result_items[0].playback_source.is_some());
    assert!(playable.result_items[0].playback_session.is_some());
    assert_eq!(TaskState::Failed, playable.result_items[1].state);
    assert_eq!("missing", playable.result_items[1].message);
    assert!(playable.result_items[1].playback_source.is_none());
    assert!(playable.result_items[1].playback_session.is_none());
}

#[test]
fn cache_fill_failure_keeps_primary_playback_task_playable() {
    let registry = TestRegistry::default();
    let created = registry
        .create_bilibili_playback_task("BV1cache-fill-primary-failed", None, None)
        .expect("playback task should be created");
    registry
        .complete_playback_playable(
            &created.task.id,
            "Playable".to_owned(),
            playback_source(&created.task.id),
            playback_session(&created.task.id),
        )
        .expect("playback should become playable");

    let playable = registry
        .fail_hls_cache_fill_for_playback_session(
            &created.task.id,
            &created.task.id,
            "Playable online; offline cache fill failed: upstream failed".to_owned(),
        )
        .expect("cache fill failure should be handled")
        .expect("cache fill failure should update task");

    assert_eq!(TaskState::Playable, playable.state());
    assert_eq!(
        "Playable online; offline cache fill failed: upstream failed",
        playable.message
    );
    assert!(playable.playback_source.is_some());
    assert!(playable.playback_session.is_some());
    assert!(
        registry.hls_session_has_online_playback_after_cache_fill_failure(
            &created.task.id,
            &created.task.id,
        )
    );
}

#[test]
fn cache_fill_failure_keeps_primary_result_degraded_after_secondary_updates() {
    let registry = TestRegistry::default();
    let created = registry
        .create_bilibili_playback_task("BV1primary-degraded-secondary-updates", None, None)
        .expect("playback task should be created");
    let child_session_id = format!("{}-result-2", created.task.id);
    registry
        .complete_playback_results_playable(
            &created.task.id,
            "Playable".to_owned(),
            "All results are playable.".to_owned(),
            playback_source(&created.task.id),
            playback_session(&created.task.id),
            vec![
                playable_page(&created.task.id, 1),
                playable_page(&child_session_id, 2),
            ],
        )
        .expect("playback results should become playable");

    registry
        .fail_hls_cache_fill_for_playback_session(
            &created.task.id,
            &created.task.id,
            "Playable online; offline cache fill failed: upstream failed".to_owned(),
        )
        .expect("primary cache fill failure should be handled")
        .expect("primary cache fill failure should update task");
    let updated = registry
        .complete_playback_hls_session_cached(
            &created.task.id,
            &child_session_id,
            format!("bilibili.hls.{child_session_id}"),
        )
        .expect("secondary session should become completed");

    assert_eq!(TaskState::Playable, updated.state());
    assert_eq!(
        "Playable online; selected Bilibili playback results are cached offline.",
        updated.message
    );
    assert_eq!(TaskState::Failed, updated.result_items[0].state);
    assert_eq!(
        "Playable online; offline cache fill failed: upstream failed",
        updated.result_items[0].message
    );
    assert!(updated.result_items[0].playback_source.is_some());
    assert!(updated.result_items[0].playback_session.is_some());
    assert_eq!(
        TaskState::Completed,
        updated.result_items[1].state
    );
    assert!(
        registry.hls_session_has_online_playback_after_cache_fill_failure(
            &created.task.id,
            &created.task.id,
        ),
        "primary degraded state must survive task-level message updates"
    );
}

#[test]
fn cache_fill_failure_marks_completed_secondary_result_failed_but_keeps_playback() {
    let registry = TestRegistry::default();
    let created = registry
        .create_bilibili_playback_task("BV1cache-fill-secondary-failed", None, None)
        .expect("playback task should be created");
    let child_session_id = format!("{}-result-2", created.task.id);
    registry
        .complete_playback_results_playable(
            &created.task.id,
            "Playable".to_owned(),
            "All results are playable.".to_owned(),
            playback_source(&created.task.id),
            playback_session(&created.task.id),
            vec![
                playable_page(&created.task.id, 1),
                playable_page(&child_session_id, 2),
            ],
        )
        .expect("playback results should become playable");
    registry
        .complete_playback_hls_session_cached(
            &created.task.id,
            &created.task.id,
            format!("bilibili.hls.{}", created.task.id),
        )
        .expect("primary session should become completed");

    let updated = registry
        .fail_hls_cache_fill_for_playback_session(
            &created.task.id,
            &child_session_id,
            "Playable online; offline cache fill failed: upstream failed".to_owned(),
        )
        .expect("secondary cache fill failure should be handled")
        .expect("secondary cache fill failure should update task");

    assert_eq!(TaskState::Completed, updated.state());
    assert_eq!(
        "Completed offline; some Bilibili playback results failed to cache offline.",
        updated.message
    );
    assert_eq!(
        TaskState::Completed,
        updated.result_items[0].state
    );
    assert_eq!(TaskState::Failed, updated.result_items[1].state);
    assert_eq!(
        "Playable online; offline cache fill failed: upstream failed",
        updated.result_items[1].message
    );
    assert!(updated.result_items[1].library_item_id.is_empty());
    assert!(updated.result_items[1].playback_source.is_some());
    assert!(updated.result_items[1].playback_session.is_some());
    assert_eq!(
        Some(created.task.id.clone()),
        registry.playable_task_id_for_hls_session(&child_session_id)
    );
    assert!(registry.is_playback_result_session_playable(&child_session_id, true));
    assert!(
        registry.hls_session_has_online_playback_after_cache_fill_failure(
            &created.task.id,
            &child_session_id,
        )
    );

    let changed_ids = registry.fail_unrestorable_playback_tasks(
        &[child_session_id.as_str()],
        &[created.task.id.as_str()],
    );
    let restored = registry
        .get_task(&created.task.id)
        .expect("completed parent task should remain readable");

    assert!(changed_ids.is_empty());
    assert_eq!(TaskState::Completed, restored.state());
    assert_eq!(TaskState::Failed, restored.result_items[1].state);
    assert_eq!(
        "Playable online; offline cache fill failed: upstream failed",
        restored.result_items[1].message
    );
    assert!(restored.result_items[1].playback_source.is_some());
    assert!(restored.result_items[1].playback_session.is_some());

    let expired = registry
        .fail_unrestorable_playback_session_after_cache_restore(
            &child_session_id,
            "Failed to restore offline HLS cache after restart: missing manifest".to_owned(),
        )
        .expect("single-session restore failure should be handled")
        .expect("failed-but-playable secondary result should be updated");
    assert_eq!(TaskState::Completed, expired.state());
    assert_eq!(TaskState::Failed, expired.result_items[1].state);
    assert_eq!(
        "Failed to restore offline HLS cache after restart: missing manifest",
        expired.result_items[1].message
    );
    assert!(expired.result_items[1].library_item_id.is_empty());
    assert!(expired.result_items[1].playback_source.is_none());
    assert!(expired.result_items[1].playback_session.is_none());
    assert!(
        registry
            .playable_task_id_for_hls_session(&child_session_id)
            .is_none()
    );
    assert!(!registry.is_playback_result_session_playable(&child_session_id, true));
}

#[test]
fn cache_restore_missing_completed_secondary_result_keeps_parent_completed() {
    let registry = TestRegistry::default();
    let created = registry
        .create_bilibili_playback_task("BV1restore-secondary-failed", None, None)
        .expect("playback task should be created");
    let child_session_id = format!("{}-result-2", created.task.id);
    registry
        .complete_playback_results_playable(
            &created.task.id,
            "Playable".to_owned(),
            "All results are playable.".to_owned(),
            playback_source(&created.task.id),
            playback_session(&created.task.id),
            vec![
                playable_page(&created.task.id, 1),
                playable_page(&child_session_id, 2),
            ],
        )
        .expect("playback results should become playable");
    registry
        .complete_playback_hls_session_cached(
            &created.task.id,
            &created.task.id,
            format!("bilibili.hls.{}", created.task.id),
        )
        .expect("primary session should become completed");

    let updated = registry
        .fail_unrestorable_playback_session_after_cache_restore(
            &child_session_id,
            "missing restored secondary".to_owned(),
        )
        .expect("missing secondary should be handled")
        .expect("missing secondary should update task");

    assert_eq!(TaskState::Completed, updated.state());
    assert_eq!(
        "Completed offline cache restored; some Bilibili playback results expired after cache restore.",
        updated.message
    );
    assert_eq!(
        TaskState::Completed,
        updated.result_items[0].state
    );
    assert_eq!(TaskState::Failed, updated.result_items[1].state);
    assert_eq!(
        "missing restored secondary",
        updated.result_items[1].message
    );
    assert!(updated.result_items[1].playback_source.is_none());
    assert!(updated.result_items[1].playback_session.is_none());
}

#[test]
fn keeps_restorable_secondary_result_when_primary_completed() {
    let registry = TestRegistry::default();
    let created = registry
        .create_bilibili_playback_task(
            "BV1completed-restored-secondary",
            Some(playback_options("1080p")),
            None,
        )
        .expect("playback task should be created");
    let child_session_id = format!("{}-result-2", created.task.id);
    let result_items = vec![
        playable_page(&created.task.id, 1),
        playable_page(&child_session_id, 2),
    ];
    registry
        .complete_playback_results_playable(
            &created.task.id,
            "Playable".to_owned(),
            "All results are playable.".to_owned(),
            playback_source(&created.task.id),
            playback_session(&created.task.id),
            result_items,
        )
        .expect("playback results should become playable");
    let library_item_id = format!("bilibili.hls.{}", created.task.id);
    registry
        .complete_playback_hls_session_cached(
            &created.task.id,
            &created.task.id,
            library_item_id.clone(),
        )
        .expect("primary session should become completed");

    let changed_ids = registry.fail_unrestorable_playback_tasks(
        &[child_session_id.as_str()],
        &[created.task.id.as_str()],
    );
    let completed = registry
        .get_task(&created.task.id)
        .expect("completed task should remain readable");

    assert!(changed_ids.is_empty());
    assert_eq!(TaskState::Completed, completed.state());
    assert_eq!(library_item_id, completed.library_item_id);
    assert_eq!(2, completed.result_items.len());
    assert_eq!(
        TaskState::Completed,
        completed.result_items[0].state
    );
    assert_eq!(
        TaskState::Playable,
        completed.result_items[1].state
    );
    assert!(completed.result_items[1].library_item_id.is_empty());
    assert!(completed.result_items[1].playback_source.is_some());
    assert!(completed.result_items[1].playback_session.is_some());
}

#[test]
fn clears_stale_completed_secondary_result_when_completed_cache_item_is_missing() {
    let registry = TestRegistry::default();
    let created = registry
        .create_bilibili_playback_task(
            "BV1completed-stale-secondary-cache",
            Some(playback_options("1080p")),
            None,
        )
        .expect("playback task should be created");
    let child_session_id = format!("{}-result-2", created.task.id);
    let result_items = vec![
        playable_page(&created.task.id, 1),
        playable_page(&child_session_id, 2),
    ];
    registry
        .complete_playback_results_playable(
            &created.task.id,
            "Playable".to_owned(),
            "All results are playable.".to_owned(),
            playback_source(&created.task.id),
            playback_session(&created.task.id),
            result_items,
        )
        .expect("playback results should become playable");
    let primary_library_item_id = format!("bilibili.hls.{}", created.task.id);
    registry
        .complete_playback_hls_session_cached(
            &created.task.id,
            &created.task.id,
            primary_library_item_id.clone(),
        )
        .expect("primary session should become completed");
    registry
        .complete_playback_hls_session_cached(
            &created.task.id,
            &child_session_id,
            format!("bilibili.hls.{child_session_id}"),
        )
        .expect("secondary session should become completed");

    let changed_ids = registry.fail_unrestorable_playback_tasks(
        &[child_session_id.as_str()],
        &[created.task.id.as_str()],
    );
    let completed = registry
        .get_task(&created.task.id)
        .expect("completed task should remain readable");

    assert_eq!(vec![created.task.id], changed_ids);
    assert_eq!(TaskState::Completed, completed.state());
    assert_eq!(primary_library_item_id, completed.library_item_id);
    assert_eq!(
        "Completed offline cache restored; some Bilibili playback results expired after restart.",
        completed.message
    );
    assert_eq!(
        TaskState::Completed,
        completed.result_items[0].state
    );
    assert_eq!(
        TaskState::Failed,
        completed.result_items[1].state
    );
    assert!(completed.result_items[1].library_item_id.is_empty());
    assert!(completed.result_items[1].playback_source.is_none());
    assert!(completed.result_items[1].playback_session.is_none());
}

#[test]
fn hls_completion_caches_secondary_result_after_primary_completed() {
    let registry = TestRegistry::default();
    let created = registry
        .create_bilibili_playback_task("BV1completed-secondary-cache", None, None)
        .expect("playback task should be created");
    let child_session_id = format!("{}-result-2", created.task.id);
    let result_items = vec![
        playable_page(&created.task.id, 1),
        playable_page(&child_session_id, 2),
    ];
    registry
        .complete_playback_results_playable(
            &created.task.id,
            "Playable".to_owned(),
            "All results are playable.".to_owned(),
            playback_source(&created.task.id),
            playback_session(&created.task.id),
            result_items,
        )
        .expect("multi-result playback task should become playable");
    let primary_library_item_id = format!("bilibili.hls.{}", created.task.id);
    registry
        .complete_playback_hls_session_cached(
            &created.task.id,
            &created.task.id,
            primary_library_item_id.clone(),
        )
        .expect("primary session should become completed");
    let secondary_library_item_id = format!("bilibili.hls.{child_session_id}");

    let completed = registry
        .complete_playback_hls_session_cached(
            &created.task.id,
            &child_session_id,
            secondary_library_item_id.clone(),
        )
        .expect("secondary session should become completed");

    assert_eq!(TaskState::Completed, completed.state());
    assert_eq!(primary_library_item_id, completed.library_item_id);
    assert_eq!(
        TaskState::Completed,
        completed.result_items[0].state
    );
    assert_eq!(
        TaskState::Completed,
        completed.result_items[1].state
    );
    assert_eq!(
        secondary_library_item_id,
        completed.result_items[1].library_item_id
    );
    assert!(registry.playback_task_has_completed_hls_cache_item(
        &completed,
        &child_session_id,
        &secondary_library_item_id
    ));
}

#[test]
fn hls_completion_caches_secondary_result_without_completing_parent() {
    let registry = TestRegistry::default();
    let created = registry
        .create_bilibili_playback_task("BV1playable-secondary-cache", None, None)
        .expect("playback task should be created");
    let child_session_id = format!("{}-result-2", created.task.id);
    let result_items = vec![
        playable_page(&created.task.id, 1),
        playable_page(&child_session_id, 2),
    ];
    registry
        .complete_playback_results_playable(
            &created.task.id,
            "Playable".to_owned(),
            "All results are playable.".to_owned(),
            playback_source(&created.task.id),
            playback_session(&created.task.id),
            result_items,
        )
        .expect("multi-result playback task should become playable");
    let secondary_library_item_id = format!("bilibili.hls.{child_session_id}");

    let playable = registry
        .complete_playback_hls_session_cached(
            &created.task.id,
            &child_session_id,
            secondary_library_item_id.clone(),
        )
        .expect("secondary session should become completed");

    assert_eq!(TaskState::Playable, playable.state());
    assert!(playable.library_item_id.is_empty());
    assert_eq!(
        TaskState::Playable,
        playable.result_items[0].state
    );
    assert_eq!(
        TaskState::Completed,
        playable.result_items[1].state
    );
    assert_eq!(
        secondary_library_item_id,
        playable.result_items[1].library_item_id
    );
    assert!(registry.playback_task_has_completed_hls_cache_item(
        &playable,
        &child_session_id,
        &secondary_library_item_id
    ));
}

#[test]
fn hls_completion_updates_completed_playback_session_metadata() {
    let registry = TestRegistry::default();
    let created = registry
        .create_bilibili_playback_task("BV1completed-generated-metadata", None, None)
        .expect("playback task should be created");
    let child_session_id = format!("{}-result-2", created.task.id);
    let mut completed_session = playback_session(&child_session_id);
    completed_session.title = "Generated playback".to_owned();
    completed_session.selected_variant_id = "h264-generated".to_owned();
    if let Some(selected_variant) = completed_session.selected_variant.as_mut() {
        selected_variant.id = "h264-generated".to_owned();
        selected_variant.video_codec = "avc1.64002A".to_owned();
        selected_variant.audio_codec = "mp4a.40.2".to_owned();
        selected_variant.size_bytes = 42;
    }
    completed_session.variants = completed_session
        .selected_variant
        .clone()
        .into_iter()
        .collect();
    registry
        .complete_playback_results_playable(
            &created.task.id,
            "Playable".to_owned(),
            "All results are playable.".to_owned(),
            playback_source(&child_session_id),
            playback_session(&child_session_id),
            vec![
                playable_page(&created.task.id, 1),
                playable_page(&child_session_id, 2),
            ],
        )
        .expect("multi-result playback task should become playable");
    let library_item_id = format!("bilibili.hls.{child_session_id}");

    registry
        .complete_playback_hls_session_cached_with_metadata(
            &created.task.id,
            &child_session_id,
            library_item_id.clone(),
            completed_session.clone(),
        )
        .expect("primary child session should become completed");
    let completed = registry
        .get_task(&created.task.id)
        .expect("completed task should remain readable");

    assert_eq!(TaskState::Completed, completed.state());
    assert_eq!(
        "Generated playback",
        completed
            .playback_session
            .as_ref()
            .expect("task should keep completed playback session metadata")
            .title
    );
    assert_eq!(
        "h264-generated",
        completed
            .playback_source
            .as_ref()
            .expect("task should keep completed playback source")
            .variant_id
    );
    assert_eq!(
        TaskState::Playable,
        completed.result_items[0].state
    );
    assert_eq!(
        TaskState::Completed,
        completed.result_items[1].state
    );
    assert_eq!(
        Some(completed_session),
        completed.result_items[1].playback_session.clone()
    );
}

#[test]
fn protects_secondary_result_sessions_after_primary_completed() {
    let registry = TestRegistry::default();
    let created = registry
        .create_bilibili_playback_task("BV1completed-protected-secondary", None, None)
        .expect("playback task should be created");
    let child_session_id = format!("{}-result-2", created.task.id);
    let result_items = vec![
        playable_page(&created.task.id, 1),
        playable_page(&child_session_id, 2),
    ];
    registry
        .complete_playback_results_playable(
            &created.task.id,
            "Playable".to_owned(),
            "All results are playable.".to_owned(),
            playback_source(&created.task.id),
            playback_session(&created.task.id),
            result_items,
        )
        .expect("playback results should become playable");
    registry
        .complete_playback_hls_session_cached(
            &created.task.id,
            &created.task.id,
            format!("bilibili.hls.{}", created.task.id),
        )
        .expect("primary session should become completed");

    let protected = registry.protected_hls_cache_session_ids();
    let playback_session_ids = registry.playback_hls_session_ids(&created.task.id);
    let primary_library_item_id = format!("bilibili.hls.{}", created.task.id);

    assert!(!protected.contains(&created.task.id));
    assert!(!protected.contains(&primary_library_item_id));
    assert!(protected.contains(&child_session_id));
    assert_eq!(
        HashSet::from([created.task.id.clone(), child_session_id]),
        playback_session_ids.into_iter().collect()
    );
}

#[test]
fn playable_result_session_authorizes_serving_by_result_id() {
    let registry = TestRegistry::default();
    let created = registry
        .create_bilibili_playback_task("BV1playable-result-session", None, None)
        .expect("playback task should be created");
    let result_session_id = "session-1";

    registry
        .complete_playback_results_playable(
            &created.task.id,
            "Playable".to_owned(),
            "Result is playable.".to_owned(),
            playback_source(result_session_id),
            playback_session(result_session_id),
            vec![playable_page(result_session_id, 1)],
        )
        .expect("playback results should become playable");

    assert!(registry.is_playback_result_session_playable(result_session_id, false));
    assert!(registry.is_hls_session_playable_for_task(&created.task.id, result_session_id));
}

#[test]
fn removing_completed_secondary_cache_keeps_playable_parent() {
    let registry = TestRegistry::default();
    let created = registry
        .create_bilibili_playback_task("BV1delete-secondary-cache", None, None)
        .expect("playback task should be created");
    let child_session_id = format!("{}-result-2", created.task.id);
    registry
        .complete_playback_results_playable(
            &created.task.id,
            "Playable".to_owned(),
            "All results are playable.".to_owned(),
            playback_source(&created.task.id),
            playback_session(&created.task.id),
            vec![
                playable_page(&created.task.id, 1),
                playable_page(&child_session_id, 2),
            ],
        )
        .expect("playback results should become playable");
    let child_library_item_id = format!("bilibili.hls.{child_session_id}");
    registry
        .complete_playback_hls_session_cached(
            &created.task.id,
            &child_session_id,
            child_library_item_id.clone(),
        )
        .expect("secondary session should become completed");

    let removed = registry
        .remove_completed_playback_task(&child_session_id, &child_library_item_id)
        .expect("secondary cache removal should clear result metadata");

    assert!(removed);
    let task = registry
        .get_task(&created.task.id)
        .expect("playable parent task should remain");
    assert_eq!(TaskState::Playable, task.state());
    assert_eq!(TaskState::Playable, task.result_items[0].state);
    assert_eq!(TaskState::Failed, task.result_items[1].state);
    assert!(task.result_items[1].library_item_id.is_empty());
    assert!(task.result_items[1].playback_source.is_none());
    assert!(task.result_items[1].playback_session.is_none());
}

#[test]
fn removing_completed_secondary_cache_keeps_completed_parent() {
    let file = StateFile::default();
    let registry = TestRegistry::with_file(&file);
    let created = registry
        .create_bilibili_playback_task("BV1delete-completed-secondary-cache", None, None)
        .expect("playback task should be created");
    let child_session_id = format!("{}-result-2", created.task.id);
    registry
        .complete_playback_results_playable(
            &created.task.id,
            "Playable".to_owned(),
            "All results are playable.".to_owned(),
            playback_source(&created.task.id),
            playback_session(&created.task.id),
            vec![
                playable_page(&created.task.id, 1),
                playable_page(&child_session_id, 2),
            ],
        )
        .expect("playback results should become playable");
    let primary_library_item_id = format!("bilibili.hls.{}", created.task.id);
    registry
        .complete_playback_hls_session_cached(
            &created.task.id,
            &created.task.id,
            primary_library_item_id.clone(),
        )
        .expect("primary session should become completed");
    let child_library_item_id = format!("bilibili.hls.{child_session_id}");
    registry
        .complete_playback_hls_session_cached(
            &created.task.id,
            &child_session_id,
            child_library_item_id.clone(),
        )
        .expect("secondary session should become completed");

    let durable_task = registry.get_task(&created.task.id).unwrap();
    let durable_output = registry.task_output_snapshot(&created.task.id).unwrap();
    file.block();
    let error = registry
        .remove_completed_playback_task(&child_session_id, &child_library_item_id)
        .expect_err("completed child cache deletion must be durable");
    assert_eq!(Code::Unavailable, error.code());
    assert_eq!(durable_task, registry.get_task(&created.task.id).unwrap());
    let visible_output = registry.task_output_snapshot(&created.task.id).unwrap();
    assert_eq!(durable_output.revision, visible_output.revision);
    assert_eq!(
        durable_output.output.record.results,
        visible_output.output.record.results
    );
    file.unblock();

    let removed = registry
        .remove_completed_playback_task(&child_session_id, &child_library_item_id)
        .expect("secondary cache removal should clear result metadata");

    assert!(removed);
    let task = registry
        .get_task(&created.task.id)
        .expect("completed parent task should remain");
    assert_eq!(TaskState::Completed, task.state());
    assert_eq!(primary_library_item_id, task.library_item_id);
    assert_eq!(TaskState::Completed, task.result_items[0].state);
    assert_eq!(TaskState::Failed, task.result_items[1].state);
    assert!(task.result_items[1].library_item_id.is_empty());
    assert!(task.result_items[1].playback_source.is_none());
    assert!(task.result_items[1].playback_session.is_none());
}

#[test]
fn fails_unrestorable_playable_progressive_playback_tasks() {
    let registry = TestRegistry::default();
    let created = registry
        .create_bilibili_playback_task(
            "BV1missing-manifest",
            Some(playback_options("1080p")),
            None,
        )
        .expect("playback task should be created");
    let playable = registry
        .complete_playback_playable(
            &created.task.id,
            "Playable playback".to_owned(),
            playback_source(&created.task.id),
            playback_session(&created.task.id),
        )
        .expect("playback should become playable");

    registry.fail_unrestorable_playback_tasks(&[], &[]);
    let restored_task = registry
        .get_task(&playable.id)
        .expect("task should remain readable");

    assert_eq!(TaskState::Failed, restored_task.state());
    assert_eq!(
        PLAYABLE_EXPIRED_AFTER_RESTART_MESSAGE,
        restored_task.message
    );
    assert!(restored_task.playback_source.is_none());
    assert!(restored_task.playback_session.is_none());
}

#[test]
fn playable_progressive_playback_task_does_not_dedupe_future_playback_requests() {
    let registry = TestRegistry::default();
    let options = playback_options("1080p");
    let created = registry
        .create_bilibili_playback_task("BV1playable", Some(options.clone()), None)
        .expect("playback task should be created");
    let playable = registry
        .complete_playback_playable(
            &created.task.id,
            "Playable playback".to_owned(),
            playback_source(&created.task.id),
            playback_session(&created.task.id),
        )
        .expect("playback should become playable");

    let recreated = registry
        .create_bilibili_playback_task("BV1playable", Some(options), None)
        .expect("playable source should not block replanning");

    assert_eq!(TaskState::Playable, playable.state());
    assert!(recreated.created);
    assert_eq!(TaskState::Preparing, recreated.task.state());
    assert_ne!(playable.id, recreated.task.id);
}

#[test]
fn cancelling_playable_progressive_playback_task_clears_runtime_source() {
    let registry = TestRegistry::default();
    let options = playback_options("1080p");
    let created = registry
        .create_bilibili_playback_task("BV1cancel-playable", Some(options.clone()), None)
        .expect("playback task should be created");
    let playable = registry
        .complete_playback_playable(
            &created.task.id,
            "Playable playback".to_owned(),
            playback_source(&created.task.id),
            playback_session(&created.task.id),
        )
        .expect("playback should become playable");

    let cancelled = registry
        .cancel_task(&playable.id)
        .expect("playable task should be cancellable");
    let stored = registry
        .get_task(&playable.id)
        .expect("cancelled task should still be readable");
    let recreated = registry
        .create_bilibili_playback_task("BV1cancel-playable", Some(options), None)
        .expect("cancelled source should be requeueable");

    assert_eq!(TaskState::Cancelled, cancelled.state());
    assert!(cancelled.playback_source.is_none());
    assert!(cancelled.playback_session.is_none());
    assert_eq!(TaskState::Cancelled, stored.state());
    assert!(stored.playback_source.is_none());
    assert!(stored.playback_session.is_none());
    assert!(recreated.created);
    assert_ne!(playable.id, recreated.task.id);
}

#[test]
fn hls_finalization_after_cancel_requested_clears_result_playback_metadata() {
    let registry = TestRegistry::default();
    let created = registry
        .create_bilibili_playback_task("BV1cancel-finalizer", None, None)
        .expect("playback task should be created");
    let primary_session_id = created.task.id.clone();
    let child_session_id = format!("{primary_session_id}-result-2");
    registry
        .complete_playback_results_playable(
            &primary_session_id,
            "Playable playback".to_owned(),
            "All results are playable.".to_owned(),
            playback_source(&primary_session_id),
            playback_session(&primary_session_id),
            vec![
                playable_page(&primary_session_id, 1),
                playable_page(&child_session_id, 2),
            ],
        )
        .expect("playback results should become playable");
    {
        let inner = &mut registry.world.borrow_mut().registry.inner;
        let mut task =
            inner.tasks_by_id.get(&primary_session_id).expect("task should exist").clone();
        task.state = TaskState::CancelRequested;
        task.message = CANCEL_REQUESTED_MESSAGE.to_owned();
        inner.tasks_by_id.insert(primary_session_id.clone(), task);
    }

    let cancelled = registry
        .complete_playback_hls_session_cached(
            &primary_session_id,
            &primary_session_id,
            format!("bilibili.hls.{primary_session_id}"),
        )
        .expect("late HLS finalization should complete cancellation");

    assert_eq!(TaskState::Cancelled, cancelled.state());
    assert_eq!(CANCELLED_BY_REQUEST_MESSAGE, cancelled.message);
    assert!(cancelled.library_item_id.is_empty());
    assert!(cancelled.playback_source.is_none());
    assert!(cancelled.playback_session.is_none());
    assert_eq!(2, cancelled.result_items.len());
    for item in &cancelled.result_items {
        assert_eq!(TaskState::Cancelled, item.state);
        assert_eq!(CANCELLED_BY_REQUEST_MESSAGE, item.message);
        assert!(item.library_item_id.is_empty());
        assert!(item.playback_source.is_none());
        assert!(item.playback_session.is_none());
    }
}

#[test]
fn restores_preparing_progressive_playback_task_as_failed() {
    let file = StateFile::default();
    let registry = TestRegistry::with_file(&file);
    let created = registry
        .create_bilibili_playback_task("BV1preparing", None, None)
        .expect("playback task should be created");
    let child_session_id = format!("{}-result-2", created.task.id);
    registry
        .update_playback_results(
            &created.task.id,
            Some("Partially planned playback".to_owned()),
            "Planning selected Bilibili playback results.".to_owned(),
            0.5,
            vec![playable_page(&child_session_id, 2)],
        )
        .expect("partial playback results should persist");

    let restored = TestRegistry::with_file(&file);
    let restored_task = restored
        .get_task(&created.task.id)
        .expect("task should restore");
    let requeued = restored
        .create_bilibili_playback_task("BV1preparing", None, None)
        .expect("failed playback source should be requeueable");

    assert_eq!(TaskState::Failed, restored_task.state());
    assert_eq!(
        PREPARING_INTERRUPTED_AFTER_RESTART_MESSAGE,
        restored_task.message
    );
    assert_eq!(1, restored_task.result_items.len());
    assert_eq!(
        TaskState::Failed,
        restored_task.result_items[0].state
    );
    assert_eq!(
        PREPARING_INTERRUPTED_AFTER_RESTART_MESSAGE,
        restored_task.result_items[0].message
    );
    assert!(restored_task.result_items[0].library_item_id.is_empty());
    assert!(restored_task.result_items[0].playback_source.is_none());
    assert!(restored_task.result_items[0].playback_session.is_none());
    assert_ne!(created.task.id, requeued.task.id);
}

#[test]
fn restores_active_task_dedupe_by_source_and_options() {
    let file = StateFile::default();
    let registry = TestRegistry::with_file(&file);
    let first = registry
        .create_bilibili_task("BV1persist-dedupe", Some(download_options("720p", false)))
        .expect("task should be created");
    let second = registry
        .create_bilibili_task("BV1persist-dedupe", Some(download_options("1080p", false)))
        .expect("task with different options should be created");
    assert_ne!(first.id, second.id);

    let restored = TestRegistry::with_file(&file);
    let duplicate = restored
        .create_bilibili_task("BV1persist-dedupe", Some(download_options("720P", false)))
        .expect("duplicate active task should be returned");
    let different_subtitles = restored
        .create_bilibili_task("BV1persist-dedupe", Some(download_options("720p", true)))
        .expect("task with different options should be created");

    assert_eq!(first.id, duplicate.id);
    assert_ne!(first.id, different_subtitles.id);
}

#[test]
fn restores_running_task_as_queued_after_restart() {
    let file = StateFile::default();
    let registry = TestRegistry::with_file(&file);
    let task = registry
        .create_bilibili_task("BV1running-restart", None)
        .expect("task should be created");
    let _ = registry.claim_next_bilibili_task();
    assert_eq!(
        TaskState::Running,
        registry
            .get_task(&task.id)
            .expect("task should exist")
            .state()
    );

    let restored = TestRegistry::with_file(&file);
    let restored_task = restored.get_task(&task.id).expect("task should restore");
    let work_item = restored
        .try_claim_next_bilibili_task()
        .expect("requeued running task should be claimable");

    assert_eq!(TaskState::Queued, restored_task.state());
    assert_eq!(REQUEUED_AFTER_RESTART_MESSAGE, restored_task.message);
    assert_eq!(task.id, work_item.task_id);
}

#[test]
fn restores_cancel_requested_task_as_cancelled_after_restart() {
    let file = StateFile::default();
    let registry = TestRegistry::with_file(&file);
    let task = registry
        .create_bilibili_task("BV1cancel-restart", None)
        .expect("task should be created");
    let _ = registry.claim_next_bilibili_task();

    let cancel_requested = registry.cancel_task(&task.id).expect("cancel should work");
    assert_eq!(TaskState::CancelRequested, cancel_requested.state());

    let restored = TestRegistry::with_file(&file);
    let restored_task = restored.get_task(&task.id).expect("task should restore");
    let requeued = restored
        .create_bilibili_task("BV1cancel-restart", None)
        .expect("cancelled source should be requeueable");

    assert_eq!(TaskState::Cancelled, restored_task.state());
    assert_eq!(CANCELLED_AFTER_RESTART_MESSAGE, restored_task.message);
    assert_ne!(task.id, requeued.id);
}

#[test]
fn restores_cancel_requested_progressive_playback_task_as_cancelled_and_clears_results() {
    let file = StateFile::default();
    let registry = TestRegistry::with_file(&file);
    let created = registry
        .create_bilibili_playback_task("BV1cancel-progressive-restart", None, None)
        .expect("playback task should be created");
    let child_session_id = format!("{}-result-2", created.task.id);
    registry
        .update_playback_results(
            &created.task.id,
            Some("Partially planned playback".to_owned()),
            "Planning selected Bilibili playback results.".to_owned(),
            0.5,
            vec![playable_page(&child_session_id, 2)],
        )
        .expect("partial playback results should persist");

    let cancel_requested = registry
        .cancel_task(&created.task.id)
        .expect("playback cancel should work");
    assert_eq!(TaskState::CancelRequested, cancel_requested.state());

    let restored = TestRegistry::with_file(&file);
    let restored_task = restored
        .get_task(&created.task.id)
        .expect("task should restore");
    let requeued = restored
        .create_bilibili_playback_task("BV1cancel-progressive-restart", None, None)
        .expect("cancelled playback source should be requeueable");

    assert_eq!(TaskState::Cancelled, restored_task.state());
    assert_eq!(CANCELLED_AFTER_RESTART_MESSAGE, restored_task.message);
    assert_eq!(1, restored_task.result_items.len());
    assert_eq!(
        TaskState::Cancelled,
        restored_task.result_items[0].state
    );
    assert_eq!(
        BTreeSet::from([child_session_id]),
        restored.interrupted_planning_result_session_ids()
    );
    assert!(restored_task.result_items[0].library_item_id.is_empty());
    assert!(restored_task.result_items[0].playback_source.is_none());
    assert!(restored_task.result_items[0].playback_session.is_none());
    assert_ne!(created.task.id, requeued.task.id);
}

#[test]
fn post_load_save_failure_disables_and_successful_retry_restores_persistence() {
    let file = StateFile::default();
    let registry = TestRegistry::with_file(&file);
    assert!(registry.persistence_available());
    let task = registry
        .create_bilibili_task("BV1failed-write", None)
        .expect("initial task creation should persist");

    file.block();
    let results = vec![TaskResult {
        id: "result-one".to_owned(),
        state: TaskState::Completed,
        ..Default::default()
    }];
    let error = registry
        .replace_task_output(&task.id, results.clone(), Vec::new())
        .expect_err("authoritative output mutation must report failed durability");
    assert_eq!(Code::Unavailable, error.code());

    file.unblock();
    registry
        .replace_task_output(&task.id, results, Vec::new())
        .expect("an identical retry should persist the installed output");
    assert!(registry.persistence_available());
    drop(registry);
    let restored = TestRegistry::with_file(&file);
    assert_eq!(
        "result-one",
        restored
            .task_output_snapshot(&task.id)
            .unwrap()
            .output
            .record
            .results[0]
            .id
    );
}

#[test]
fn rejected_task_creation_rolls_back_queue_and_allows_retry() {
    let file = StateFile::default();
    let registry = TestRegistry::with_file(&file);
    file.block();

    let download_error = registry
        .create_bilibili_task("BV1rejected-create", None)
        .expect_err("download task creation must require a committed snapshot");
    let playback_error =
        match registry.create_bilibili_playback_task("BV1rejected-playback", None, None) {
            Ok(_) => panic!("playback task creation must require a committed snapshot"),
            Err(error) => error,
        };

    assert_eq!(Code::Unavailable, download_error.code());
    assert_eq!(Code::Unavailable, playback_error.code());
    assert!(registry.try_claim_next_bilibili_task().is_none());

    file.unblock();
    let download = registry
        .create_bilibili_task("BV1rejected-create", None)
        .expect("download task creation should retry after repair");
    let playback = registry
        .create_bilibili_playback_task("BV1rejected-playback", None, None)
        .expect("playback task creation should retry after repair");

    assert_eq!(
        download.id,
        registry.try_claim_next_bilibili_task().unwrap().task_id
    );
    assert_eq!(
        playback.task.id,
        registry.get_task(&playback.task.id).unwrap().id
    );
}

#[test]
fn installed_snapshot_stays_visible_when_directory_sync_fails() {
    let file = StateFile::default();
    let registry = TestRegistry::with_file(&file);
    let task = registry
        .create_bilibili_task("BV1post-rename", None)
        .expect("task should be created durably");
    let results = vec![TaskResult {
        id: "installed-result".to_owned(),
        state: TaskState::Completed,
        ..Default::default()
    }];

    registry.fail_next_persistence_directory_sync();
    let updated = registry
        .replace_task_output(&task.id, results.clone(), Vec::new())
        .expect("an installed snapshot must remain accepted");

    assert!(!registry.persistence_available());
    assert_eq!(
        updated.output_summary,
        registry.get_task(&task.id).unwrap().output_summary
    );
    let installed_records = file.load()
        .expect("the renamed snapshot should be readable");
    assert_eq!(1, installed_records.len());
    assert_eq!(results, installed_records[0].output.results);

    registry
        .replace_task_output(&task.id, results, Vec::new())
        .expect("an identical retry should restore durable persistence");
    assert!(registry.persistence_available());
}

#[test]
fn hls_completion_remains_retryable_until_directory_sync_is_durable() {
    let file = StateFile::default();
    let registry = TestRegistry::with_file(&file);
    let created = registry
        .create_bilibili_playback_task("BV1hls-completion-directory-sync", None, None)
        .expect("playback task should be created durably");
    registry
        .complete_playback_playable(
            &created.task.id,
            "Playable".to_owned(),
            playback_source(&created.task.id),
            playback_session(&created.task.id),
        )
        .expect("playable state should persist");
    let library_item_id = format!("bilibili.hls.{}", created.task.id);

    registry.fail_next_persistence_directory_sync();
    let error = registry
        .complete_playback_cached(&created.task.id, library_item_id.clone())
        .expect_err("the finalizer owner must remain queued until directory sync succeeds");

    assert_eq!(Code::Unavailable, error.code());
    assert!(!registry.persistence_available());
    let installed = registry
        .get_task(&created.task.id)
        .expect("the installed completion should remain visible while durability retries");
    assert_eq!(TaskState::Completed, installed.state());
    assert_eq!(library_item_id, installed.library_item_id);

    registry.fail_next_persistence_directory_sync();
    let error = registry
        .complete_playback_cached(&created.task.id, library_item_id.clone())
        .expect_err("another directory sync failure must keep the finalizer queued");
    assert_eq!(Code::Unavailable, error.code());
    assert!(!registry.persistence_available());

    let completed = registry
        .complete_playback_cached(&created.task.id, library_item_id.clone())
        .expect("the finalizer retry should make the installed completion durable");
    assert_eq!(TaskState::Completed, completed.state());
    assert_eq!(library_item_id, completed.library_item_id);
    assert!(registry.persistence_available());
}

#[test]
fn cache_fill_failure_remains_pending_until_persistence_recovers() {
    let file = StateFile::default();
    let registry = TestRegistry::with_file(&file);
    let created = registry
        .create_bilibili_playback_task("BV1cache-fill-pending", None, None)
        .expect("playback task should be created durably");
    registry
        .complete_playback_playable(
            &created.task.id,
            "Playable".to_owned(),
            playback_source(&created.task.id),
            playback_session(&created.task.id),
        )
        .expect("playable state should persist");

    file.block();
    let error = registry
        .fail_hls_cache_fill_for_playback_session(
            &created.task.id,
            &created.task.id,
            "Playable online; offline cache fill failed.".to_owned(),
        )
        .expect_err("an unpersisted cache-fill failure must remain pending");

    assert_eq!(Code::Unavailable, error.code());
    assert!(!registry.persistence_available());
    assert_eq!(
        PLAYBACK_PLAYABLE_MESSAGE,
        registry.get_task(&created.task.id).unwrap().message
    );

    file.unblock();
    assert!(registry.retry_pending_persistence());
    let persisted = registry
        .get_task(&created.task.id)
        .expect("task should remain readable");
    assert_eq!(
        "Playable online; offline cache fill failed.",
        persisted.message
    );
    assert!(registry.persistence_available());
}

#[test]
fn restored_session_failure_rolls_back_until_directory_sync_is_durable() {
    let file = StateFile::default();
    let registry = TestRegistry::with_file(&file);
    let created = registry
        .create_bilibili_playback_task("BV1restore-failure-pending", None, None)
        .expect("playback task should be created durably");
    registry
        .complete_playback_playable(
            &created.task.id,
            "Playable".to_owned(),
            playback_source(&created.task.id),
            playback_session(&created.task.id),
        )
        .expect("playable state should persist");

    registry.fail_next_persistence_directory_sync();
    let error = registry
        .fail_unrestorable_playback_session_after_cache_restore(
            &created.task.id,
            "Restored session failed.".to_owned(),
        )
        .expect_err("directory durability is required before deleting restored media");

    assert_eq!(Code::Unavailable, error.code());
    assert!(!registry.persistence_available());
    assert_eq!(
        TaskState::Playable,
        registry.get_task(&created.task.id).unwrap().state()
    );
    assert!(registry.is_primary_hls_session_playable(&created.task.id, &created.task.id));

    assert!(registry.retry_pending_persistence());
    let failed = registry
        .fail_unrestorable_playback_session_after_cache_restore(
            &created.task.id,
            "Restored session failed.".to_owned(),
        )
        .expect("durable retry should succeed")
        .expect("restored session should still be referenced");
    assert_eq!(TaskState::Failed, failed.state());
    assert!(registry.persistence_available());
}

#[test]
fn failed_snapshot_keeps_committed_hls_authorization_until_cancellation_can_persist() {
    let file = StateFile::default();
    let registry = TestRegistry::with_file(&file);
    let created = registry
        .create_bilibili_playback_task("BV1committed-hls", None, None)
        .expect("playback task should be created durably");
    registry
        .complete_playback_playable(
            &created.task.id,
            "Committed playback".to_owned(),
            playback_source(&created.task.id),
            playback_session(&created.task.id),
        )
        .expect("playable state should be persisted");

    file.block();
    let completion_error = registry
        .complete_task_failed(&created.task.id, "Hidden failure.".to_owned())
        .expect_err("unpersisted terminal state must not be acknowledged");

    assert_eq!(Code::Unavailable, completion_error.code());
    assert!(!registry.persistence_available());
    assert_eq!(
        TaskState::Playable,
        registry.get_task(&created.task.id).unwrap().state()
    );
    assert!(registry.is_playback_task_playable(&created.task.id));
    assert!(registry.is_primary_hls_session_playable(&created.task.id, &created.task.id));
    assert!(registry.is_hls_session_playable_for_task(&created.task.id, &created.task.id));
    assert_eq!(
        Some(created.task.id.clone()),
        registry.playable_task_id_for_hls_session(&created.task.id)
    );
    assert_eq!(
        vec![created.task.id.clone()],
        registry.playback_hls_session_ids(&created.task.id)
    );
    assert!(
        registry
            .protected_hls_cache_session_ids()
            .contains(&created.task.id),
        "eviction protection must follow the last committed playable task"
    );

    let error = registry
        .cancel_task(&created.task.id)
        .expect_err("cancellation must not act on an uncommitted terminal revision");
    assert_eq!(Code::Unavailable, error.code());
    assert_eq!(
        TaskState::Playable,
        registry.get_task(&created.task.id).unwrap().state()
    );
    assert!(registry.is_playback_task_playable(&created.task.id));

    file.unblock();
    let completed = registry
        .complete_task_failed(&created.task.id, "Hidden failure.".to_owned())
        .expect("terminal completion retry should publish pending state");
    assert_eq!(TaskState::Failed, completed.state());
    assert_eq!(
        TaskState::Failed,
        registry.get_task(&created.task.id).unwrap().state()
    );
    assert!(registry.persistence_available());
}

#[test]
fn running_cancellation_is_acknowledged_only_after_persistence_recovers() {
    let file = StateFile::default();
    let registry = TestRegistry::with_file(&file);
    let task = registry
        .create_bilibili_task("BV1cancel-persistence", None)
        .expect("task should be created durably");
    let work_item = registry
        .try_claim_next_bilibili_task()
        .expect("task should start running");

    file.block();
    let error = registry
        .cancel_task(&task.id)
        .expect_err("unpersisted cancellation must not be acknowledged");

    assert_eq!(Code::Unavailable, error.code());
    assert!(registry.stop_requested(&work_item.cancellation));
    assert_eq!(
        TaskState::Running,
        registry.get_task(&task.id).unwrap().state()
    );

    file.unblock();
    let cancelled = registry
        .cancel_task(&task.id)
        .expect("cancellation retry should persist pending intent");
    assert_eq!(TaskState::CancelRequested, cancelled.state());
    assert_eq!(
        TaskState::CancelRequested,
        registry.get_task(&task.id).unwrap().state()
    );
    assert!(registry.persistence_available());
}

#[test]
fn cancellation_captures_hls_sessions_after_pending_playable_repair() {
    let file = StateFile::default();
    let registry = TestRegistry::with_file(&file);
    let created = registry
        .create_bilibili_playback_task("BV1pending-playable-cancel", None, None)
        .expect("playback task should be created durably");

    file.block();
    registry
        .complete_playback_playable(
            &created.task.id,
            "Pending playback".to_owned(),
            playback_source(&created.task.id),
            playback_session(&created.task.id),
        )
        .expect("legacy playable mutation should remain staged in memory");

    assert_eq!(
        TaskState::Preparing,
        registry.get_task(&created.task.id).unwrap().state()
    );
    assert!(
        registry
            .playback_hls_session_ids(&created.task.id)
            .is_empty()
    );
    assert_eq!(
        HlsSessionPublicationState::Pending,
        registry.hls_session_publication_state(&created.task.id, &created.task.id)
    );

    file.unblock();
    let cancellation = registry
        .cancel_task_with_hls_session_ids(&created.task.id)
        .expect("cancellation should repair and then persist pending playback");

    assert_eq!(TaskState::Cancelled, cancellation.task.state());
    assert_eq!(vec![created.task.id], cancellation.hls_session_ids);
    assert!(registry.persistence_available());
}

#[test]
fn legacy_managed_output_revision_advances_with_task_state() {
    let registry = TestRegistry::default();
    let task = registry
        .create_bilibili_task("BV1legacy-output", None)
        .expect("task should be created");
    let queued = registry
        .task_output_snapshot(&task.id)
        .expect("queued output should exist");

    let claimed = registry
        .try_claim_next_bilibili_task()
        .expect("task should be claimed");
    assert_eq!(task.id, claimed.task_id);
    let running = registry
        .task_output_snapshot(&task.id)
        .expect("running output should exist");

    assert!(running.revision > queued.revision);
    assert_ne!(running.snapshot_id, queued.snapshot_id);
    assert_eq!(TaskState::Running, running.output.record.results[0].state);
    assert_eq!(
        running.revision,
        registry
            .get_task(&task.id)
            .unwrap()
            .output_summary
            .unwrap()
            .revision
    );
}

#[test]
fn unpersisted_progress_does_not_make_output_revision_regress_after_restart() {
    let file = StateFile::default();
    let registry = TestRegistry::with_file(&file);
    let task = registry
        .create_bilibili_task("BV1revision-restart", None)
        .expect("task should be created");
    registry
        .try_claim_next_bilibili_task()
        .expect("task should be claimed");
    let durable = registry.task_output_snapshot(&task.id).unwrap();
    for index in 1..=3 {
        assert!(registry.update_task_progress(
            &task.id,
            Report {
                progress: Some(f64::from(index) / 10.0),
                downloaded_bytes: Some(i64::from(index)),
                total_bytes: Some(10),
                message: Some(format!("Progress {index}")),
            },
        ));
    }
    let before_restart = registry.task_output_snapshot(&task.id).unwrap();
    assert_eq!(durable.revision, before_restart.revision);
    drop(registry);

    let restored = TestRegistry::with_file(&file);
    let after_restart = restored.task_output_snapshot(&task.id).unwrap();
    assert!(after_restart.revision >= before_restart.revision);
}

#[test]
fn restores_terminal_task_without_active_source_dedupe() {
    let file = StateFile::default();
    let registry = TestRegistry::with_file(&file);
    let task = registry
        .create_bilibili_task("BV1terminal", None)
        .expect("task should be created");
    let cancelled = registry
        .cancel_task(&task.id)
        .expect("task should be cancelled");
    assert_eq!(TaskState::Cancelled, cancelled.state());

    let restored = TestRegistry::with_file(&file);
    let restored_task = restored.get_task(&task.id).expect("task should restore");
    let requeued = restored
        .create_bilibili_task("BV1terminal", None)
        .expect("terminal source should be requeueable");

    assert_eq!(TaskState::Cancelled, restored_task.state());
    assert_ne!(task.id, requeued.id);
}

#[test]
fn oversized_legacy_reconciliation_never_replaces_durable_snapshot() {
    let file = StateFile::default();
    let registry = TestRegistry::with_file(&file);
    let creation = registry
        .create_bilibili_playback_task("BV1oversized-legacy", None, None)
        .expect("playback task should be created");
    let durable_task = registry.get_task(&creation.task.id).unwrap();
    let durable_snapshot = file.load().expect("durable snapshot should be readable");
    assert_eq!(2, file.0.borrow().saves);
    let oversized_result = BilibiliTaskResultItem {
        id: "result-one".to_owned(),
        selection_id: "page:1".to_owned(),
        title: "x".repeat(MAX_TASK_RESULT_ENCODED_BYTES + 1),
        subtitle: String::new(),
        source_kind: "video_page".to_owned(),
        content_id: "cid-1".to_owned(),
        index: 1,
        state: TaskState::Preparing,
        message: String::new(),
        library_item_id: String::new(),
        playback_source: None,
        playback_session: None,
        identity: None,
    };

    registry
        .update_playback_results(
            &creation.task.id,
            None,
            "Planning result.".to_owned(),
            0.5,
            vec![oversized_result],
        )
        .expect("legacy mutation remains staged in memory");

    assert_eq!(durable_task, registry.get_task(&creation.task.id).unwrap());
    assert_eq!(
        durable_snapshot,
        file.load().expect("durable snapshot should remain readable")
    );
    assert!(!registry.persistence_available());
    assert!(!registry.task_output_v2_available());
    drop(registry);

    let restored = TestRegistry::with_file(&file);
    assert!(restored.get_task(&creation.task.id).is_ok());
    assert!(
        restored
            .task_output_snapshot(&creation.task.id)
            .unwrap()
            .output
            .record
            .results
            .iter()
            .all(|result| {
                result.title.len() <= MAX_TASK_RESULT_ENCODED_BYTES
            })
    );
}

#[test]
fn invalid_persisted_state_disables_writeback_without_overwriting_file() {
    let file = StateFile::holding(vec![persisted_task_record(
        "repaired-task",
        "BV1repaired-state",
    )]);
    let storage = Storage::default();
    storage.write(&test_task_resource("unknown-owner", 8), b"preserve");
    file.0.borrow_mut().invalid = true;

    let registry = TestRegistry::with_storage(&file, &storage);
    let task = registry
        .create_bilibili_task("BV1invalid-state", None)
        .expect("registry should remain usable in memory");

    assert_eq!(TaskState::Queued, task.state());
    assert!(registry.persistence_configured());
    assert!(!registry.persistence_available());
    assert!(!registry.retry_pending_persistence());
    assert_eq!(0, file.0.borrow().saves);
    assert!(storage.has("unknown-owner"));

    let volatile_task_id = task.id;
    drop(registry);
    file.0.borrow_mut().invalid = false;
    let recovered = TestRegistry::with_file(&file);

    assert!(recovered.persistence_configured());
    assert!(recovered.persistence_available());
    assert!(recovered.get_task("repaired-task").is_ok());
    assert_eq!(Code::NotFound, recovered.get_task(&volatile_task_id).unwrap_err().code());
}

#[test]
fn legacy_output_is_published_only_after_failed_persistence_recovers() {
    let file = StateFile::default();
    let registry = TestRegistry::with_file(&file);
    let task = registry
        .create_bilibili_task("BV1durable-watch", None)
        .expect("task should be created durably");
    let mut subscription = registry
        .subscribe(std::slice::from_ref(&task.id))
        .expect("watcher should subscribe");
    let durable_task = registry.get_task(&task.id).unwrap();

    file.block();
    let error = registry
        .complete_task_failed(&task.id, "Expected failure.".to_owned())
        .expect_err("an unpersisted terminal state must not be acknowledged");
    assert_eq!(Code::Unavailable, error.code());
    assert!(!registry.persistence_available());
    assert_eq!(durable_task, registry.get_task(&task.id).unwrap());
    let mut reconnected = registry
        .subscribe(std::slice::from_ref(&task.id))
        .expect("reconnected watcher should subscribe to the committed view");
    assert_eq!([durable_task].as_slice(), reconnected.snapshots());
    assert!(
        subscription.recv().is_none(),
        "an unpersisted legacy output revision must not be published"
    );

    file.unblock();
    registry
        .create_bilibili_task("BV1durability-recovery", None)
        .expect("an unrelated mutation should retry the full snapshot");
    let published = subscription
        .recv()
        .expect("durable recovery should publish pending tasks")
        .expect("watcher should remain active");
    assert_eq!(TaskState::Failed, published.state());
    let reconnected_event = reconnected
        .recv()
        .expect("reconnected watcher should receive durable recovery")
        .expect("reconnected watcher should remain active");
    assert_eq!(published, reconnected_event);
    assert_eq!(
        registry.get_task(&task.id).unwrap().output_summary.map(|summary| summary.revision),
        published.output_summary.map(|summary| summary.revision)
    );

    drop(registry);
    let restored = TestRegistry::with_file(&file);
    assert_eq!(TaskState::Failed, restored.get_task(&task.id).unwrap().state());
}

#[test]
fn invalid_generic_output_cleans_new_staged_resource_bodies() {
    let (file, storage) = (StateFile::default(), Storage::default());
    let registry = TestRegistry::with_storage(&file, &storage);
    let task = registry
        .create_bilibili_task("BV1invalid-generic-output", None)
        .expect("task should be created durably");
    let resource = test_task_resource("invalid-output-resource", 4);
    storage.write(&resource, b"test");
    let invalid_results = vec![TaskResult {
        id: String::new(),
        state: TaskState::Completed,
        artifacts: vec![test_artifact(
            "artifact-one",
            METADATA,
            TaskArtifactState::Available,
            &resource,
        )],
        ..Default::default()
    }];

    let error = registry
        .replace_task_output(&task.id, invalid_results, vec![resource])
        .expect_err("invalid task output must be rejected");

    assert_eq!(Code::InvalidArgument, error.code());
    assert!(!storage.has("invalid-output-resource"));
    assert!(registry.task_resource("invalid-output-resource").is_none());
}

#[test]
fn missing_task_output_rejects_before_resource_body_creation() {
    let (file, storage) = (StateFile::default(), Storage::default());
    let registry = TestRegistry::with_storage(&file, &storage);
    let first = test_task_resource("missing-task-first", 5);
    let second = test_task_resource("missing-task-second", 6);

    let error = match registry.stage_task_output_replacement("missing-task", vec![first, second]) {
        Ok(_) => panic!("output for a missing task must be rejected before body creation"),
        Err(error) => error,
    };

    assert_eq!(Code::NotFound, error.code());
    assert!(!storage.has("missing-task-first"));
    assert!(!storage.has("missing-task-second"));
}

#[test]
fn dropping_staged_output_before_body_creation_keeps_v2_available() {
    let (file, storage) = (StateFile::default(), Storage::default());
    let registry = TestRegistry::with_storage(&file, &storage);
    let task = registry
        .create_bilibili_task("BV1drop-before-body", None)
        .expect("task should be created");
    let resource = test_task_resource("drop-before-body-resource", 4);

    {
        let staged = registry
            .stage_task_output_replacement(&task.id, vec![resource.clone()])
            .expect("new resource should acquire staged ownership");
        assert_eq!(1, staged.resources_requiring_body_creation().len());
    }

    assert!(registry.task_output_v2_available());
    assert!(!storage.has("drop-before-body-resource"));

    let retry = registry
        .stage_task_output_replacement(&task.id, vec![resource])
        .expect("a never-created body should remain claimable");
    assert_eq!(1, retry.resources_requiring_body_creation().len());
    drop(retry);
    assert!(registry.task_output_v2_available());
}

#[test]
fn resource_id_collision_rejects_before_body_creation_and_preserves_live_body() {
    let (file, storage) = (StateFile::default(), Storage::default());
    let registry = TestRegistry::with_storage(&file, &storage);
    let owner = registry
        .create_bilibili_task("BV1resource-owner", None)
        .expect("resource owner should be created");
    let rejected = registry
        .create_bilibili_task("BV1resource-collision", None)
        .expect("rejected output task should be created");
    let live = test_task_resource("live-resource", 4);
    let staged_live = registry
        .stage_task_output_replacement(&owner.id, vec![live.clone()])
        .expect("live resource should acquire staged ownership");
    storage.write(&live, b"live");
    staged_live
        .commit(vec![test_task_result_with_resources(
            "owner-result",
            std::slice::from_ref(&live),
        )])
        .expect("live resource should commit");
    let first = test_task_resource("collision-first", 5);
    let second = test_task_resource("collision-second", 6);

    let error = match registry
        .stage_task_output_replacement(&rejected.id, vec![live.clone(), first, second])
    {
        Ok(_) => panic!("a live resource id must reject staging before body creation"),
        Err(error) => error,
    };

    assert_eq!(Code::AlreadyExists, error.code());
    assert_eq!(Some(b"live".to_vec()), storage.body("live-resource"));
    assert!(registry.task_resource(&live.resource.id).is_some());
    assert!(!storage.has("collision-first"));
    assert!(!storage.has("collision-second"));
}

#[test]
fn existing_task_resource_is_not_exposed_for_body_recreation() {
    let (file, storage) = (StateFile::default(), Storage::default());
    let registry = TestRegistry::with_storage(&file, &storage);
    let task = registry
        .create_bilibili_task("BV1immutable-resource", None)
        .expect("task should be created");
    let resource = test_task_resource("immutable-resource", 4);
    let initial = registry
        .stage_task_output_replacement(&task.id, vec![resource.clone()])
        .expect("new resource should acquire staged ownership");
    let initial_resource = initial
        .resources_requiring_body_creation()
        .pop()
        .expect("new resource should require body creation");
    storage.write(&initial_resource, b"live");
    let results = vec![test_task_result_with_resources(
        "immutable-result",
        std::slice::from_ref(&resource),
    )];
    initial.commit(results.clone()).expect("initial resource should commit");

    let retry = registry
        .stage_task_output_replacement(&task.id, vec![resource.clone()])
        .expect("identical resource metadata should be reusable");
    assert_eq!(0, retry.resources_requiring_body_creation().len());
    retry.commit(results).expect("identical output should remain durable");
    assert_eq!(Some(b"live".to_vec()), storage.body("immutable-resource"));

    let duplicate_error = match registry
        .stage_task_output_replacement(&task.id, vec![resource.clone(), resource.clone()])
    {
        Ok(_) => panic!("duplicate resource ids must fail before body creation"),
        Err(error) => error,
    };
    assert_eq!(Code::InvalidArgument, duplicate_error.code());
    assert_eq!(Some(b"live".to_vec()), storage.body("immutable-resource"));

    let mut rebound = resource;
    rebound.resource.etag = "different-representation".to_owned();
    let error = match registry.stage_task_output_replacement(&task.id, vec![rebound]) {
        Ok(_) => panic!("resource representation changes must fail before body creation"),
        Err(error) => error,
    };
    assert_eq!(Code::InvalidArgument, error.code());
    assert_eq!(Some(b"live".to_vec()), storage.body("immutable-resource"));
}

#[test]
fn expired_task_resource_is_retired_durably_and_its_body_is_removed() {
    let (file, storage) = (StateFile::default(), Storage::default());
    let registry = TestRegistry::with_storage(&file, &storage);
    let task = registry
        .create_bilibili_task("BV1expired-resource", None)
        .expect("task should be created");
    let mut resource = test_task_resource("expired-output-resource", 7);
    resource.resource.expires_at = Some(Timestamp { seconds: 0, nanos: 0 });
    storage.write(&resource, b"expired");
    registry
        .replace_task_output(
            &task.id,
            vec![test_task_result_with_resources(
                "expired-result",
                std::slice::from_ref(&resource),
            )],
            vec![resource],
        )
        .expect("expired resource metadata should be accepted before retirement");
    assert!(storage.has("expired-output-resource"));

    let snapshot = registry
        .retain_task_output_snapshot(&task.id, 60)
        .expect("reading task output should retire expired resources");

    assert!(snapshot.output.record.resources.is_empty());
    let artifact = &snapshot.output.record.results[0].artifacts[0];
    assert_eq!(TaskArtifactState::Unavailable, artifact.state);
    assert!(artifact.resource.is_none());
    assert_eq!("cache.resource_expired", artifact.problem.as_ref().unwrap().code);
    assert_eq!(
        0,
        registry
            .get_task(&task.id)
            .unwrap()
            .output_summary
            .unwrap()
            .available_artifact_count
    );
    assert!(!storage.has("expired-output-resource"));

    drop(registry);
    let restored = TestRegistry::with_storage(&file, &storage);
    let restored_output = restored.task_output_snapshot(&task.id).unwrap();
    assert!(restored_output.output.record.resources.is_empty());
    assert_eq!(
        TaskArtifactState::Unavailable,
        restored_output.output.record.results[0].artifacts[0].state
    );
}

#[test]
fn failed_generic_output_is_rolled_back_until_an_explicit_retry_succeeds() {
    let (file, storage) = (StateFile::default(), Storage::default());
    let registry = TestRegistry::with_storage(&file, &storage);
    let task = registry
        .create_bilibili_task("BV1generic-watch", None)
        .expect("task should be created durably");
    let mut subscription = registry
        .subscribe(std::slice::from_ref(&task.id))
        .expect("watcher should subscribe");
    let durable_task = registry.get_task(&task.id).unwrap();
    let durable_output = registry.task_output_snapshot(&task.id).unwrap();
    let mut resource = test_task_resource("failed-output-resource", 4);
    resource.resource.etag = "failed-v1".to_owned();
    storage.write(&resource, b"old!");
    let results = vec![TaskResult {
        id: "result-one".to_owned(),
        state: TaskState::Completed,
        artifacts: vec![test_artifact(
            "artifact-one",
            METADATA,
            TaskArtifactState::Available,
            &resource,
        )],
        ..Default::default()
    }];

    file.block();
    let error = registry
        .replace_task_output(&task.id, results.clone(), vec![resource.clone()])
        .expect_err("authoritative output must report failed durability");
    assert_eq!(Code::Unavailable, error.code());
    assert_eq!(durable_task, registry.get_task(&task.id).unwrap());
    let visible_output = registry.task_output_snapshot(&task.id).unwrap();
    assert_eq!(durable_output.revision, visible_output.revision);
    assert_eq!(durable_output.snapshot_id, visible_output.snapshot_id);
    assert_eq!(durable_output.output.record.results, visible_output.output.record.results);
    assert!(registry.task_resource("failed-output-resource").is_none());
    assert!(!storage.has("failed-output-resource"));
    assert!(
        subscription.recv().is_none(),
        "failed authoritative output must remain unpublished"
    );
    let mut reconnected = registry
        .subscribe(std::slice::from_ref(&task.id))
        .expect("a new watcher should subscribe to the durable view");
    assert_eq!([durable_task.clone()].as_slice(), reconnected.snapshots());

    file.unblock();
    let restarted = TestRegistry::with_file(&file);
    let restarted_output = restarted.task_output_snapshot(&task.id).unwrap();
    assert_eq!(durable_output.revision, restarted_output.revision);
    assert_eq!(durable_output.output.record.results, restarted_output.output.record.results);
    assert!(restarted.task_resource("failed-output-resource").is_none());
    drop(restarted);

    registry
        .create_bilibili_task("BV1generic-recovery", None)
        .expect("an unrelated mutation should restore persistence health");
    assert!(
        subscription.recv().is_none(),
        "an unrelated recovery must not publish the rolled-back output"
    );
    assert!(
        reconnected.recv().is_none(),
        "a reconnected watcher must not receive the rolled-back output"
    );

    storage.write(&resource, b"new!");
    registry
        .replace_task_output(&task.id, results.clone(), vec![resource.clone()])
        .expect("an explicit retry should persist the authoritative output");
    let published = subscription
        .recv()
        .expect("durable retry should publish output")
        .expect("watcher should remain active");
    let durable_revision = registry.task_output_snapshot(&task.id).unwrap().revision;
    assert_eq!(
        Some(durable_revision),
        published.output_summary.as_ref().map(|summary| summary.revision)
    );
    let reconnected_event = reconnected
        .recv()
        .expect("durable retry should publish to reconnected watcher")
        .expect("reconnected watcher should remain active");
    assert_eq!(published.output_summary, reconnected_event.output_summary);
    assert!(registry.task_resource("failed-output-resource").is_some());

    registry
        .replace_task_output(&task.id, results, vec![resource])
        .expect("identical output should already be durable");
    assert!(
        subscription.recv().is_none(),
        "an identical durable retry must not publish a duplicate event"
    );
}

#[test]
fn direct_restore_rejects_normalized_duplicate_task_ids() {
    let first = persisted_task_record("normalized-identity", "BV1normalized-one");
    let mut duplicate = persisted_task_record("distinct-identity", "BV1normalized-two");
    duplicate.task.id = format!("\u{2003}{}\u{2003}", first.task.id);

    let error = match BilibiliTaskRegistry::from_persisted_records(
        &vec![first, duplicate],
        &Vec::new(),
        RegistrySetting {
            persistent: true,
            persistence_configured: true,
            retention_policy: TaskRetentionPolicy::default(),
            resource_root_configured: false,
            max_registered_resources: MAX_REGISTERED_TASK_RESOURCES,
        },
        current_timestamp(),
    ) {
        Err(error) => error,
        Ok(_) => panic!("direct restore must reject normalized duplicate task ids"),
    };

    assert_eq!(StoreErrorKind::InvalidData, error.kind());
}

fn owned_record(id: &str, source: &str, resource: TaskResourceRecord) -> PersistedTaskRecord {
    let mut record = persisted_task_record(id, source);
    record.output = replaced_output(
        id,
        &record.output,
        vec![test_task_result_with_resources(
            &format!("result-{id}"),
            std::slice::from_ref(&resource),
        )],
        vec![resource],
    )
    .expect("persisted output should be valid");
    record
}

#[test]
fn colliding_task_identity_blocks_startup_rewrite_and_resource_cleanup() {
    for (fixture_name, duplicate_task_id) in
        [("duplicate-task-id", true), ("duplicate-snapshot-id", false)]
    {
        let storage = Storage::default();
        let first_resource = test_task_resource("collision-owned-one", 3);
        let second_resource = test_task_resource("collision-owned-two", 3);
        storage.write(&first_resource, b"one");
        storage.write(&second_resource, b"two");
        let first = owned_record("collision-one", "BV1collision-one", first_resource);
        let mut second = owned_record("collision-two", "BV1collision-two", second_resource);
        if duplicate_task_id {
            second.task.id = format!("\u{2003}{}\u{2003}", first.task.id);
        } else {
            second.output.snapshot_id = first.output.snapshot_id.clone();
        }
        let file = StateFile::holding(vec![first, second]);

        let registry = TestRegistry::with_storage(&file, &storage);

        assert!(!registry.persistence_available(), "{fixture_name} must disable persistence");
        assert!(
            !registry.task_output_v2_available(),
            "{fixture_name} must disable task output v2"
        );
        assert_eq!(0, file.0.borrow().saves);
        assert!(storage.has("collision-owned-one"));
        assert!(storage.has("collision-owned-two"));
    }
}

#[test]
fn failed_startup_rewrite_preserves_resources_from_skipped_records() {
    let storage = Storage::default();
    let mut resource = test_task_resource("skipped-record-resource", 4);
    resource.resource.content_type = "text/vtt".to_owned();
    resource.resource.etag = "v1".to_owned();
    storage.write(&resource, b"test");
    let file = StateFile::holding(vec![owned_record("invalid-task", "", resource)]);
    file.block();

    let registry = TestRegistry::with_storage(&file, &storage);

    assert!(!registry.persistence_available());
    assert!(!registry.task_output_v2_available());
    assert!(storage.has("skipped-record-resource"));

    file.unblock();
    registry
        .create_bilibili_task("BV1resource-scan-recovery", None)
        .expect("a durable mutation should retry the orphan scan");

    assert!(registry.persistence_available());
    assert!(registry.task_output_v2_available());
    assert!(!storage.has("skipped-record-resource"));
}

#[test]
fn startup_scan_preserves_owned_resources_until_their_transition_is_durable() {
    let storage = Storage::default();
    let pending = test_task_resource("pending-owned-resource", 7);
    let unavailable = test_task_resource("unavailable-owned-resource", 11);
    let mut expired = test_task_resource("expired-owned-resource", 7);
    expired.resource.expires_at = Some(Timestamp { seconds: 0, nanos: 0 });
    storage.write(&pending, b"pending");
    storage.write(&unavailable, b"unavailable");
    storage.write(&expired, b"expired");

    let mut record = persisted_task_record("owned-resource-task", "BV1owned-resource");
    record.output = replaced_output(
        "owned-resource-task",
        &record.output,
        vec![TaskResult {
            id: "owned-resource-result".to_owned(),
            state: TaskState::Completed,
            artifacts: vec![
                test_artifact("pending-artifact", SUBTITLE, TaskArtifactState::Pending, &pending),
                test_artifact(
                    "unavailable-artifact",
                    SUBTITLE,
                    TaskArtifactState::Unavailable,
                    &unavailable,
                ),
                test_artifact("expired-artifact", SUBTITLE, TaskArtifactState::Available, &expired),
            ],
            ..Default::default()
        }],
        vec![pending.clone(), unavailable.clone(), expired],
    )
    .expect("persisted output should be valid");
    let file = StateFile::holding(vec![record]);
    file.block();

    let registry = TestRegistry::with_storage(&file, &storage);

    assert!(!registry.persistence_available());
    let owned = |registry: &TestRegistry| {
        registry
            .task_output_snapshot("owned-resource-task")
            .expect("owned output should be visible")
            .output
            .record
            .resources
            .len()
    };
    assert_eq!(3, owned(&registry));
    assert!(storage.has("pending-owned-resource"));
    assert!(storage.has("unavailable-owned-resource"));
    assert!(storage.has("expired-owned-resource"));

    file.unblock();
    assert!(registry.retry_pending_persistence());
    assert!(registry.task_output_v2_available());
    assert_eq!(3, owned(&registry));
    assert!(storage.has("pending-owned-resource"));
    assert!(storage.has("unavailable-owned-resource"));
    assert!(
        storage.has("expired-owned-resource"),
        "startup cleanup must not precede durable expiry retirement"
    );

    let retired = registry
        .retain_task_output_snapshot("owned-resource-task", 60)
        .expect("expired resource retirement should become durable");
    assert_eq!(2, retired.output.record.resources.len());
    assert!(!storage.has("expired-owned-resource"));
    assert!(storage.has("pending-owned-resource"));
    assert!(storage.has("unavailable-owned-resource"));

    registry
        .replace_task_output(
            "owned-resource-task",
            vec![TaskResult {
                id: "owned-resource-result".to_owned(),
                state: TaskState::Completed,
                artifacts: vec![
                    test_artifact(
                        "pending-artifact",
                        SUBTITLE,
                        TaskArtifactState::Available,
                        &pending,
                    ),
                    test_artifact(
                        "unavailable-artifact",
                        SUBTITLE,
                        TaskArtifactState::Available,
                        &unavailable,
                    ),
                ],
                ..Default::default()
            }],
            vec![pending, unavailable],
        )
        .expect("owned bodies should survive a later availability transition");
    assert!(
        registry
            .open_task_resource("pending-owned-resource")
            .expect("pending resource storage should remain readable")
            .is_some()
    );
    assert!(
        registry
            .open_task_resource("unavailable-owned-resource")
            .expect("unavailable resource storage should remain readable")
            .is_some()
    );
}

#[test]
fn replacement_claims_resource_before_startup_scan_recovery_and_body_write() {
    let storage = Storage::default();
    let mut expired = test_task_resource("expired-before-replacement", 7);
    expired.resource.expires_at = Some(Timestamp { seconds: 0, nanos: 0 });
    storage.write(&expired, b"expired");
    let file = StateFile::holding(vec![owned_record(
        "staged-resource-task",
        "BV1staged-resource",
        expired,
    )]);
    file.block();

    let registry = TestRegistry::with_storage(&file, &storage);
    assert!(!registry.persistence_available());
    assert!(!registry.task_output_v2_available());
    assert!(storage.has("expired-before-replacement"));

    file.unblock();
    let replacement = test_task_resource("staged-during-startup-scan", 5);
    let staged = registry
        .stage_task_output_replacement("staged-resource-task", vec![replacement])
        .expect("replacement should recover persistence before body creation");
    let replacement = staged
        .resources_requiring_body_creation()
        .pop()
        .expect("a new resource should require body creation");
    storage.write(&replacement, b"fresh");
    staged
        .commit(vec![test_task_result_with_resources(
            "replacement-result",
            std::slice::from_ref(&replacement),
        )])
        .expect("replacement should recover persistence without deleting its staged body");

    assert!(registry.persistence_available());
    assert!(registry.task_output_v2_available());
    assert!(!storage.has("expired-before-replacement"));
    assert!(storage.has("staged-during-startup-scan"));
    assert!(
        registry
            .open_task_resource("staged-during-startup-scan")
            .expect("replacement resource storage should remain readable")
            .is_some()
    );
}

#[test]
fn generic_task_output_round_trips_with_summary_and_resource_state() {
    let file = StateFile::default();
    let registry = TestRegistry::with_file(&file);
    let task = registry
        .create_bilibili_task("BV1generic-output", None)
        .expect("task should be created");
    let resource = resource_record(CacheResourceRef {
        id: "subtitle-resource".to_owned(),
        content_type: "text/vtt".to_owned(),
        size_bytes: 12,
        size_known: true,
        supports_byte_ranges: true,
        etag: "subtitle-v1".to_owned(),
        ..Default::default()
    });
    let updated = registry
        .replace_task_output(
            &task.id,
            vec![TaskResult {
                id: "episode-one".to_owned(),
                state: TaskState::Completed,
                title: "Episode one".to_owned(),
                artifacts: vec![test_artifact(
                    "subtitle-artifact",
                    SUBTITLE,
                    TaskArtifactState::Available,
                    &resource,
                )],
                ..Default::default()
            }],
            vec![resource],
        )
        .expect("generic output should be stored");
    let summary = updated.output_summary.expect("generic output should populate a summary");
    assert_eq!(1, summary.result_count);
    assert_eq!(1, summary.available_artifact_count);
    assert_eq!("episode-one", summary.primary_result_id);

    drop(registry);
    let restored = TestRegistry::with_file(&file);
    let snapshot = restored
        .task_output_snapshot(&task.id)
        .expect("generic output should restore");
    assert_eq!(summary.revision, snapshot.revision);
    assert_eq!("episode-one", snapshot.output.record.results[0].id);
    let restored_resource = restored
        .task_resource("subtitle-resource")
        .expect("available resource should restore");
    assert_eq!("/resources/subtitle-resource", restored_resource.resource.uri);
}

#[test]
fn unavailable_snapshot_resource_stays_reserved_without_becoming_servable() {
    let (file, storage) = (StateFile::default(), Storage::default());
    let registry = TestRegistry::with_storage(&file, &storage);
    let task = registry
        .create_bilibili_task("BV1unavailable-snapshot", None)
        .expect("task should be created");
    let resource = test_task_resource("unavailable-snapshot-resource", 4);
    storage.write(&resource, b"test");
    registry
        .replace_task_output(
            &task.id,
            vec![TaskResult {
                id: "unavailable-result".to_owned(),
                state: TaskState::Completed,
                artifacts: vec![test_artifact(
                    "unavailable-artifact",
                    SUBTITLE,
                    TaskArtifactState::Unavailable,
                    &resource,
                )],
                ..Default::default()
            }],
            vec![resource.clone()],
        )
        .expect("unavailable resource metadata should commit");
    let snapshot = registry
        .retain_task_output_snapshot(&task.id, 60)
        .expect("result page snapshot should retain every referenced resource id");

    registry
        .replace_task_output(&task.id, vec![plain_result("replacement")], Vec::new())
        .expect("current output should release the resource");

    assert!(storage.has("unavailable-snapshot-resource"));
    assert!(registry.task_resource("unavailable-snapshot-resource").is_none());
    let other_task = registry
        .create_bilibili_task("BV1snapshot-collision", None)
        .expect("second task should be created");
    let collision = match registry
        .stage_task_output_replacement(&other_task.id, vec![resource.clone()])
    {
        Ok(_) => panic!("an unexpired result page must reserve every referenced resource id"),
        Err(error) => error,
    };
    assert_eq!(Code::AlreadyExists, collision.code());
    assert_eq!(Some(b"test".to_vec()), storage.body("unavailable-snapshot-resource"));

    registry.release_task_output_snapshots(&[snapshot.resource_lease_id]);
    assert!(!storage.has("unavailable-snapshot-resource"));
    let staged = registry
        .stage_task_output_replacement(&other_task.id, vec![resource])
        .expect("released snapshot resource id should become reusable");
    assert_eq!(1, staged.resources_requiring_body_creation().len());
}

#[test]
fn retired_resource_body_is_kept_for_snapshot_then_removed_after_expiry() {
    let (file, storage) = (StateFile::default(), Storage::default());
    let registry = TestRegistry::with_storage(&file, &storage);
    let task = registry
        .create_bilibili_task("BV1resource-retention", None)
        .expect("task should be created");
    let resource = resource_record(CacheResourceRef {
        id: "Subtitle-Retained".to_owned(),
        content_type: "text/vtt".to_owned(),
        size_bytes: 4,
        size_known: true,
        etag: "v1".to_owned(),
        ..Default::default()
    });
    storage.write(&resource, b"test");
    registry
        .replace_task_output(
            &task.id,
            vec![TaskResult {
                id: "result-one".to_owned(),
                state: TaskState::Completed,
                artifacts: vec![test_artifact(
                    "subtitle-one",
                    SUBTITLE,
                    TaskArtifactState::Available,
                    &resource,
                )],
                ..Default::default()
            }],
            vec![resource],
        )
        .unwrap();
    let first_snapshot = registry.retain_task_output_snapshot(&task.id, 60).ok().unwrap();
    let second_snapshot = registry.retain_task_output_snapshot(&task.id, 60).ok().unwrap();
    assert_eq!(first_snapshot.snapshot_id, second_snapshot.snapshot_id);
    assert_ne!(first_snapshot.resource_lease_id, second_snapshot.resource_lease_id);

    registry
        .replace_task_output(&task.id, vec![plain_result("replacement")], Vec::new())
        .unwrap();

    assert!(storage.has("subtitle-retained"));
    assert!(registry.task_resource("SUBTITLE-RETAINED").is_some());
    registry.release_task_output_snapshots(&[first_snapshot.resource_lease_id]);
    assert!(storage.has("subtitle-retained"));
    assert!(registry.task_resource("subtitle-retained").is_some());
    registry.release_task_output_snapshots(&[second_snapshot.resource_lease_id]);
    assert!(!storage.has("subtitle-retained"));
    assert!(registry.task_resource("subtitle-retained").is_none());
}

#[test]
fn retired_resource_body_is_removed_once_every_lease_has_run_out() {
    let (file, storage) = (StateFile::default(), Storage::default());
    let registry = TestRegistry::with_storage(&file, &storage);
    let task = registry.create_bilibili_task("BV1lease-end", None).unwrap();
    let resource = test_task_resource("leased-resource", 4);
    storage.write(&resource, b"test");
    registry
        .replace_task_output(
            &task.id,
            vec![test_task_result_with_resources("result", std::slice::from_ref(&resource))],
            vec![resource],
        )
        .unwrap();
    registry.retain_task_output_snapshot(&task.id, 60).ok().unwrap();
    registry
        .replace_task_output(&task.id, vec![plain_result("replacement")], Vec::new())
        .unwrap();

    registry.world.borrow_mut().instant = 59;
    assert!(registry.cleanup_durable_resource_bodies());
    assert!(storage.has("leased-resource"));
    registry.world.borrow_mut().instant = 60;
    assert!(registry.cleanup_durable_resource_bodies());
    assert!(!storage.has("leased-resource"));
}

#[test]
fn resource_cleanup_reenables_v2_after_a_transient_filesystem_failure() {
    let (file, storage) = (StateFile::default(), Storage::default());
    let registry = TestRegistry::with_storage(&file, &storage);
    let task = registry
        .create_bilibili_task("BV1resource-cleanup-recovery", None)
        .expect("task should be created");
    let resource = test_task_resource("cleanup-recovery", 4);
    registry
        .replace_task_output(
            &task.id,
            vec![test_task_result_with_resources("result-one", std::slice::from_ref(&resource))],
            vec![resource],
        )
        .expect("resource output should persist");
    storage.0.borrow_mut().undeletable.insert("cleanup-recovery".to_owned());

    registry
        .replace_task_output(&task.id, vec![plain_result("replacement")], Vec::new())
        .expect("metadata replacement should remain durable");

    assert!(!registry.task_output_v2_available());
    storage.0.borrow_mut().undeletable.clear();
    assert!(registry.cleanup_durable_resource_bodies());
    assert!(registry.task_output_v2_available());
}

#[test]
fn resource_directory_with_other_files_keeps_its_id_reserved() {
    let (file, storage) = (StateFile::default(), Storage::default());
    let registry = TestRegistry::with_storage(&file, &storage);
    let task = registry.create_bilibili_task("BV1crowded-directory", None).unwrap();
    let resource = test_task_resource("crowded", 4);
    storage.write(&resource, b"test");
    let results =
        vec![test_task_result_with_resources("result", std::slice::from_ref(&resource))];
    registry.replace_task_output(&task.id, results.clone(), vec![resource.clone()]).unwrap();
    storage.0.borrow_mut().with_other_files.insert("crowded".to_owned());
    registry
        .replace_task_output(&task.id, vec![plain_result("replacement")], Vec::new())
        .unwrap();

    assert!(!storage.has("crowded"));
    assert!(registry.task_output_v2_available());
    let error = registry
        .replace_task_output(&task.id, results.clone(), vec![resource.clone()])
        .unwrap_err();
    assert_eq!(Code::AlreadyExists, error.code());

    storage.0.borrow_mut().with_other_files.clear();
    assert!(registry.cleanup_durable_resource_bodies());
    registry.replace_task_output(&task.id, results, vec![resource]).unwrap();
}

#[test]
fn missing_resource_root_keeps_retired_id_reserved_until_cleanup_retries() {
    let (file, storage) = (StateFile::default(), Storage::default());
    let registry = TestRegistry::with_storage(&file, &storage);
    let task = registry
        .create_bilibili_task("BV1resource-root-unavailable", None)
        .expect("task should be created");
    let resource = test_task_resource("root-unavailable-resource", 4);
    storage.write(&resource, b"old!");
    let results =
        vec![test_task_result_with_resources("result-one", std::slice::from_ref(&resource))];
    registry
        .replace_task_output(&task.id, results.clone(), vec![resource.clone()])
        .expect("resource output should persist");

    storage.0.borrow_mut().missing = true;
    registry
        .replace_task_output(&task.id, vec![plain_result("replacement")], Vec::new())
        .expect("metadata retirement should remain durable");

    assert!(!registry.task_output_v2_available());
    let reuse_error = registry
        .replace_task_output(&task.id, results, vec![resource])
        .expect_err("an unavailable root must keep the retired id reserved");
    assert_eq!(Code::FailedPrecondition, reuse_error.code());

    storage.0.borrow_mut().missing = false;
    assert!(registry.cleanup_durable_resource_bodies());
    assert!(registry.task_output_v2_available());
    assert!(!storage.has("root-unavailable-resource"));
}

#[test]
fn task_resource_open_failure_degrades_v2_until_storage_revalidates() {
    let (file, storage) = (StateFile::default(), Storage::default());
    let registry = TestRegistry::with_storage(&file, &storage);
    let task = registry
        .create_bilibili_task("BV1resource-storage-revalidation", None)
        .expect("task should be created");
    let resource = test_task_resource("storage-revalidation-resource", 4);
    storage.write(&resource, b"test");
    registry
        .replace_task_output(
            &task.id,
            vec![test_task_result_with_resources(
                "storage-revalidation-result",
                std::slice::from_ref(&resource),
            )],
            vec![resource],
        )
        .expect("resource output should persist");
    assert!(registry.task_output_v2_available());

    storage.0.borrow_mut().managed_missing = true;
    assert_eq!(Err(None), registry.open_task_resource("storage-revalidation-resource"));
    assert!(!registry.task_output_v2_available());

    assert!(registry.retry_pending_persistence());
    assert!(
        !registry.task_output_v2_available(),
        "a persistence retry must not clear an unresolved storage failure"
    );

    storage.0.borrow_mut().managed_missing = false;
    assert!(registry.retry_pending_persistence());
    assert!(registry.task_output_v2_available());
    assert!(
        registry
            .open_task_resource("storage-revalidation-resource")
            .expect("restored storage should pass secure revalidation")
            .is_some()
    );
}

#[test]
fn task_resource_body_of_the_wrong_size_is_not_served() {
    let (file, storage) = (StateFile::default(), Storage::default());
    let registry = TestRegistry::with_storage(&file, &storage);
    let task = registry.create_bilibili_task("BV1wrong-size", None).unwrap();
    let resource = test_task_resource("wrong-size", 4);
    storage.write(&resource, b"four and more");
    registry
        .replace_task_output(
            &task.id,
            vec![test_task_result_with_resources("result", std::slice::from_ref(&resource))],
            vec![resource.clone()],
        )
        .unwrap();

    assert_eq!(Err(Some(BodyProblem::WrongSize)), registry.open_task_resource("WRONG-size "));
    assert_eq!(
        "task resource body size does not match its durable metadata",
        BodyProblem::WrongSize.message()
    );
    assert!(!registry.task_output_v2_available());

    storage.write(&resource, b"four");
    assert!(registry.cleanup_durable_resource_bodies());
    assert!(registry.task_output_v2_available());
    assert_eq!(Ok(Some(b"four".to_vec())), registry.open_task_resource("wrong-size"));
    assert_eq!(
        Err(BodyProblem::NotARegularFile),
        validate_task_resource_body(&resource, BodyFacts { regular_file: false, length: 4 })
    );
    assert_eq!(
        "task resource body is not a regular file",
        BodyProblem::NotARegularFile.message()
    );
}

#[test]
fn task_resource_that_expires_while_it_is_opened_is_not_served() {
    let (file, storage) = (StateFile::default(), Storage::default());
    let registry = TestRegistry::with_storage(&file, &storage);
    let task = registry.create_bilibili_task("BV1resource-expiry-lock", None).unwrap();
    let now = current_timestamp();
    let expires_at = Timestamp { seconds: now.seconds + 1_000, nanos: now.nanos };
    let mut resource = test_task_resource("expiry-lock-resource", 4);
    resource.resource.expires_at = Some(expires_at);
    storage.write(&resource, b"test");
    registry
        .replace_task_output(
            &task.id,
            vec![test_task_result_with_resources(
                "expiry-lock-result",
                std::slice::from_ref(&resource),
            )],
            vec![resource],
        )
        .unwrap();

    let mut world = registry.world.borrow_mut();
    let record = world
        .registry
        .open_task_resource("expiry-lock-resource", now, 0)
        .expect("the resource has not expired yet");
    let body = BodyFacts { regular_file: true, length: 4 };
    let earlier = Timestamp { seconds: expires_at.seconds - 1, nanos: expires_at.nanos };
    let id = "expiry-lock-resource";
    assert_eq!(
        Ok(true),
        world.registry.admit_opened_task_resource(id, &record, body, earlier)
    );
    assert_eq!(
        Ok(false),
        world.registry.admit_opened_task_resource(id, &record, body, expires_at)
    );
    assert!(world.registry.open_task_resource(id, expires_at, 0).is_none());
}

#[test]
fn startup_removes_orphaned_resource_body_before_id_reuse() {
    let (file, storage) = (StateFile::default(), Storage::default());
    storage.write(&test_task_resource("orphan-one", 5), b"stale");

    let registry = TestRegistry::with_storage(&file, &storage);

    assert!(registry.persistence_available());
    assert!(!storage.has("orphan-one"));
}

#[test]
fn missing_cache_root_keeps_resource_v2_disabled_until_a_retry_can_scan_it() {
    let (file, storage) = (StateFile::default(), Storage::default());
    storage.0.borrow_mut().missing = true;
    let registry = TestRegistry::with_storage(&file, &storage);

    assert!(registry.persistence_available());
    assert!(!registry.task_output_v2_available());

    storage.0.borrow_mut().missing = false;
    registry
        .create_bilibili_task("BV1resource-root-recovery", None)
        .expect("a durable mutation should retry the resource scan");

    assert!(registry.task_output_v2_available());
}

#[test]
fn noncanonical_resource_directory_keeps_v2_disabled_until_removed() {
    let (file, storage) = (StateFile::default(), Storage::default());
    storage.0.borrow_mut().bodies.insert("Cover-One".to_owned(), b"stale".to_vec());
    let registry = TestRegistry::with_storage(&file, &storage);

    assert!(registry.persistence_available());
    assert!(!registry.task_output_v2_available());
    assert!(storage.has("Cover-One"));

    storage.0.borrow_mut().bodies.remove("Cover-One");
    registry
        .create_bilibili_task("BV1resource-name-recovery", None)
        .expect("a durable mutation should retry the resource scan");

    assert!(registry.task_output_v2_available());
}

#[test]
fn unreadable_resource_namespace_disables_v2_output() {
    let (file, storage) = (StateFile::default(), Storage::default());
    storage.0.borrow_mut().unreadable = true;

    let registry = TestRegistry::with_storage(&file, &storage);

    assert!(registry.persistence_available());
    assert!(!registry.task_output_v2_available());
}

#[test]
fn older_persistence_snapshot_cannot_overwrite_newer_snapshot() {
    let file = StateFile::default();
    let mut persistence = TaskStatePersistence::new();
    let mut save_snapshot = |generation: u64, record: PersistedTaskRecord| {
        if persistence.admit_snapshot(generation) {
            persistence.record_save(file.save(&[record]).ok())
        } else {
            PersistenceCommitOutcome::Superseded
        }
    };

    assert_eq!(
        PersistenceCommitOutcome::Durable,
        save_snapshot(2, persisted_task_record("bilibili-new", "BV1new"))
    );
    assert_eq!(
        PersistenceCommitOutcome::Superseded,
        save_snapshot(1, persisted_task_record("bilibili-old", "BV1old"))
    );

    let records = file.load().expect("task state should load");
    assert_eq!(1, records.len());
    assert_eq!("bilibili-new", records[0].task.id);
    assert_eq!("BV1new", records[0].task.source);
}

#[test]
fn retention_prunes_oldest_terminal_tasks_from_persisted_snapshot() {
    let download = TaskKind::BilibiliDownload;
    let file = StateFile::holding(vec![
        persisted_task_record_with_state(
            "terminal-old",
            "BV1old",
            download,
            TaskState::Cancelled,
            10,
        ),
        persisted_task_record_with_state("terminal-mid", "BV1mid", download, TaskState::Failed, 20),
        persisted_task_record_with_state(
            "terminal-new",
            "BV1new",
            download,
            TaskState::Succeeded,
            30,
        ),
    ]);

    let registry =
        TestRegistry::with_file_and_retention(&file, TaskRetentionPolicy::new(Some(2), None));

    assert!(registry.get_task("terminal-old").is_err());
    assert_eq!(
        TaskState::Failed,
        registry.get_task("terminal-mid").expect("mid task should be retained").state()
    );
    assert_eq!(
        TaskState::Succeeded,
        registry.get_task("terminal-new").expect("new task should be retained").state()
    );

    let task_ids = file
        .load()
        .expect("task state should reload")
        .into_iter()
        .map(|record| record.task.id)
        .collect::<Vec<_>>();
    assert_eq!(vec!["terminal-mid", "terminal-new"], task_ids);
}

#[test]
fn retention_prunes_old_terminal_tasks_but_keeps_active_and_completed_hls_tasks() {
    let download = TaskKind::BilibiliDownload;
    let file = StateFile::holding(vec![
        persisted_task_record_with_state(
            "queued-old",
            "BV1queued",
            download,
            TaskState::Queued,
            10,
        ),
        persisted_task_record_with_state(
            "cancelled-old",
            "BV1cancelled",
            download,
            TaskState::Cancelled,
            20,
        ),
        persisted_completed_playback_task_record("playback-completed-old", 30),
    ]);

    let registry = TestRegistry::with_file_and_retention(
        &file,
        TaskRetentionPolicy::new(None, Some(Duration::from_secs(1))),
    );

    assert_eq!(
        TaskState::Queued,
        registry
            .get_task("queued-old")
            .expect("active queued task should be retained")
            .state()
    );
    assert!(registry.get_task("cancelled-old").is_err());
    let completed = registry
        .get_task("playback-completed-old")
        .expect("completed HLS playback task should be retained");
    assert_eq!(TaskState::Completed, completed.state());
    assert_eq!("bilibili.hls.playback-completed-old", completed.library_item_id);

    let task_ids = file
        .load()
        .expect("task state should reload")
        .into_iter()
        .map(|record| record.task.id)
        .collect::<Vec<_>>();
    assert_eq!(vec!["queued-old", "playback-completed-old"], task_ids);
}

#[test]
fn removing_secondary_cache_updates_authoritative_output_and_resources() {
    let (file, storage) = (StateFile::default(), Storage::default());
    let registry = TestRegistry::with_storage(&file, &storage);
    let created =
        registry.create_bilibili_playback_task("BV1delete-v2-secondary", None, None).unwrap();
    let child_session_id = format!("{}-result-2", created.task.id);
    let item = |id: &str| BilibiliTaskResultItem {
        id: id.to_owned(),
        state: TaskState::Playable,
        playback_source: Some(playback_source(id)),
        playback_session: Some(playback_session(id)),
        ..Default::default()
    };
    registry
        .complete_playback_results_playable(
            &created.task.id,
            "Playable".to_owned(),
            "All results are playable.".to_owned(),
            playback_source(&created.task.id),
            playback_session(&created.task.id),
            vec![item(&created.task.id), item(&child_session_id)],
        )
        .unwrap();
    let child_library_item_id = format!("bilibili.hls.{child_session_id}");
    registry
        .complete_playback_hls_session_cached(
            &created.task.id,
            &child_session_id,
            child_library_item_id.clone(),
        )
        .unwrap();
    let resource = resource_record(CacheResourceRef {
        id: "Child-Media".to_owned(),
        content_type: "video/mp4".to_owned(),
        size_bytes: 4,
        size_known: true,
        etag: "child-v1".to_owned(),
        ..Default::default()
    });
    storage.write(&resource, b"test");
    registry
        .replace_task_output(
            &created.task.id,
            vec![
                TaskResult {
                    id: created.task.id.clone(),
                    state: TaskState::Playable,
                    playback_source: Some(playback_source(&created.task.id)),
                    ..Default::default()
                },
                TaskResult {
                    id: child_session_id.clone(),
                    state: TaskState::Completed,
                    library_item_id: child_library_item_id.clone(),
                    playback_source: Some(playback_source(&child_session_id)),
                    artifacts: vec![test_artifact(
                        "child-media",
                        MEDIA,
                        TaskArtifactState::Available,
                        &resource,
                    )],
                    ..Default::default()
                },
            ],
            vec![resource],
        )
        .unwrap();

    let durable_task = registry.get_task(&created.task.id).unwrap();
    let durable_output = registry.task_output_snapshot(&created.task.id).unwrap();
    file.block();
    let error = registry
        .remove_completed_playback_task(&child_session_id, &child_library_item_id)
        .expect_err("playable child cache deletion must be durable");
    assert_eq!(Code::Unavailable, error.code());
    assert_eq!(durable_task, registry.get_task(&created.task.id).unwrap());
    let visible_output = registry.task_output_snapshot(&created.task.id).unwrap();
    assert_eq!(durable_output.revision, visible_output.revision);
    assert_eq!(durable_output.output.record.results, visible_output.output.record.results);
    assert!(registry.task_resource("child-media").is_some());
    assert!(storage.has("child-media"));
    file.unblock();

    registry.remove_completed_playback_task(&child_session_id, &child_library_item_id).unwrap();

    let snapshot = registry.task_output_snapshot(&created.task.id).unwrap();
    let child = snapshot
        .output
        .record
        .results
        .iter()
        .find(|result| result.id == child_session_id)
        .unwrap();
    assert_eq!(TaskState::Failed, child.state);
    assert!(child.library_item_id.is_empty());
    assert!(child.playback_source.is_none());
    assert_eq!(TaskArtifactState::Deleted, child.artifacts[0].state);
    assert!(child.artifacts[0].resource.is_none());
    assert_eq!(
        1,
        registry
            .get_task(&created.task.id)
            .unwrap()
            .output_summary
            .unwrap()
            .failed_result_count
    );
    assert!(!storage.has("child-media"));
}

#[test]
fn retention_without_limits_keeps_every_task() {
    let download = TaskKind::BilibiliDownload;
    let file = StateFile::holding(
        (0..300)
            .map(|index| {
                persisted_task_record_with_state(
                    &format!("terminal-{index}"),
                    &format!("BV1{index}"),
                    download,
                    TaskState::Failed,
                    index,
                )
            })
            .collect(),
    );

    let registry =
        TestRegistry::with_file_and_retention(&file, TaskRetentionPolicy::new(None, None));

    assert!(registry.get_task("terminal-0").is_ok());
    assert_eq!(300, file.load().expect("task state should reload").len());
}

#[test]
fn downloads_are_claimed_in_the_order_in_which_they_were_requested() {
    let registry = TestRegistry::default();
    let first = registry.create_bilibili_task("BV1first", None).expect("a task should be made");
    let second = registry.create_bilibili_task("BV1second", None).expect("a task should be made");
    let third = registry.create_bilibili_task("BV1third", None).expect("a task should be made");
    registry.cancel_task(&second.id).expect("a queued task can be cancelled");

    assert_eq!(first.id, registry.claim_next_bilibili_task().task_id);
    assert_eq!(third.id, registry.claim_next_bilibili_task().task_id);
    assert!(registry.try_claim_next_bilibili_task().is_none());
}

#[test]
fn startup_scan_has_room_for_one_more_output() {
    assert_eq!(1_100, limits().max_resource_directories());
    let boundless = StoreLimits { max_registered_task_resources: usize::MAX, ..limits() };
    assert_eq!(usize::MAX, boundless.max_resource_directories());
}

#[test]
fn copies_of_a_cancellation_name_the_same_flag() {
    let registry = TestRegistry::default();
    let task = registry.create_bilibili_task("BV1copied", None).expect("a task should be made");
    let work_item = registry.claim_next_bilibili_task();
    let copy = work_item.cancellation.clone();

    assert!(!registry.stop_requested(&work_item.cancellation));
    assert!(!registry.stop_requested(&copy));
    registry.cancel_task(&task.id).expect("a running task can be cancelled");
    assert!(registry.stop_requested(&work_item.cancellation));
    assert!(registry.stop_requested(&copy));
    assert!(registry.stop_requested(&copy.clone()));
}

#[test]
fn a_stop_request_reaches_no_other_worker() {
    let registry = TestRegistry::default();
    let first = registry.create_bilibili_task("BV1stopped", None).expect("a task should be made");
    registry.create_bilibili_task("BV1going-on", None).expect("a task should be made");
    let playback = registry
        .create_bilibili_playback_task("BV1stopped", None, None)
        .expect("a playback should be made");
    let stopped = registry.claim_next_bilibili_task();
    let going_on = registry.claim_next_bilibili_task();
    let planning = playback.cancellation.expect("a new playback can be cancelled");

    registry.cancel_task(&first.id).expect("a running task can be cancelled");

    assert!(registry.stop_requested(&stopped.cancellation));
    assert!(!registry.stop_requested(&going_on.cancellation));
    assert!(!registry.stop_requested(&planning));
}

#[test]
fn a_stop_request_stays_after_the_task_has_ended() {
    let registry = TestRegistry::default();
    let task = registry.create_bilibili_task("BV1over", None).expect("a task should be made");
    let work_item = registry.claim_next_bilibili_task();
    registry.cancel_task(&task.id).expect("a running task can be cancelled");
    registry
        .complete_task_cancelled(&task.id, "Cancelled by adapter.".to_owned())
        .expect("a cancelled task can be ended");

    registry.create_bilibili_task("BV1over", None).expect("the source can be asked for again");
    let next = registry.claim_next_bilibili_task();

    assert!(registry.stop_requested(&work_item.cancellation));
    assert!(!registry.stop_requested(&next.cancellation));
}

#[test]
fn ending_a_task_again_gives_the_same_answer() {
    let file = StateFile::default();
    for registry in [TestRegistry::default(), TestRegistry::with_file(&file)] {
        let task = registry.create_bilibili_task("BV1ended", None).expect("a task should be made");
        registry.claim_next_bilibili_task();
        let ended = registry
            .complete_task_succeeded(&task.id, "library-item".to_owned(), "Done.".to_owned())
            .expect("a running task can be ended");

        let again = registry
            .complete_task_failed(&format!(" {} ", task.id), "Too late.".to_owned())
            .expect("an ended task answers with its end");

        assert_eq!(TaskState::Succeeded, again.state());
        assert_eq!("Done.", again.message);
        assert_eq!("library-item", again.library_item_id);
        assert_eq!(ended.progress, again.progress);
        assert_eq!(ended.finished_at, again.finished_at);
        assert_eq!(again, registry.get_task(&task.id).expect("the task is still there"));
    }
}

#[test]
fn a_removal_that_is_not_durable_can_be_repeated() {
    let file = StateFile::default();
    let registry = TestRegistry::with_file(&file);
    let created = registry
        .create_bilibili_playback_task("BV1removed-twice", None, None)
        .expect("a playback should be made");
    let id = created.task.id;
    registry
        .complete_playback_playable(
            &id,
            "Playable playback".to_owned(),
            playback_source(&id),
            playback_session(&id),
        )
        .expect("the playback becomes playable");
    let library_item_id = format!("bilibili.hls.{id}");
    registry
        .complete_playback_cached(&id, library_item_id.clone())
        .expect("the playback is cached");
    let visible = registry.get_task(&id).expect("the task is there");

    registry.fail_next_persistence_directory_sync();
    let error = registry
        .remove_completed_playback_task(&id, &library_item_id)
        .expect_err("a removal must be durable");
    assert_eq!(Code::Unavailable, error.code());
    assert_eq!(visible, registry.get_task(&id).expect("the task is still there"));

    assert!(
        registry
            .remove_completed_playback_task(&id, &library_item_id)
            .expect("the removal can be repeated")
    );
    assert!(registry.get_task(&id).is_err());
}

#[test]
fn claimed_resources_cannot_be_claimed_again_until_the_claim_is_given_up() {
    let (file, storage) = (StateFile::default(), Storage::default());
    let registry = TestRegistry::with_storage(&file, &storage);
    let task = registry.create_bilibili_task("BV1claiming", None).expect("a task should be made");
    let other = registry.create_bilibili_task("BV1waiting", None).expect("a task should be made");
    let resource = test_task_resource("claimed-once", 4);
    let claim = registry
        .stage_task_output_replacement(&task.id, vec![resource.clone()])
        .expect("the resource is free");

    for id in [&task.id, &other.id] {
        match registry.stage_task_output_replacement(id, vec![resource.clone()]) {
            Err(error) => {
                assert_eq!(Code::AlreadyExists, error.code());
                assert_eq!(
                    "Task resource id is already registered: claimed-once.",
                    error.message
                );
            }
            Ok(_) => panic!("the resource is claimed already"),
        }
    }

    drop(claim);
    let again = registry
        .stage_task_output_replacement(&other.id, vec![resource])
        .expect("the resource is free again");
    assert_eq!(1, again.resources_requiring_body_creation().len());
}

#[test]
fn an_unchanged_output_is_not_saved_again() {
    let (file, storage) = (StateFile::default(), Storage::default());
    let registry = TestRegistry::with_storage(&file, &storage);
    let task = registry.create_bilibili_task("BV1unchanged", None).expect("a task should be made");
    let results = vec![plain_result("only-result")];
    let first = registry
        .replace_task_output(&task.id, results.clone(), Vec::new())
        .expect("the output is saved");
    let saves = file.0.borrow().saves;
    let mut subscription = registry
        .subscribe(std::slice::from_ref(&task.id))
        .expect("the task can be watched");

    let second = registry
        .replace_task_output(&task.id, results, Vec::new())
        .expect("the output is the same");

    assert_eq!(first, second);
    assert_eq!(saves, file.0.borrow().saves);
    assert!(subscription.recv().is_none());
}

#[test]
fn a_refused_output_stays_out_of_sight_after_later_saves() {
    let (file, storage) = (StateFile::default(), Storage::default());
    let registry = TestRegistry::with_storage(&file, &storage);
    let task = registry.create_bilibili_task("BV1refused", None).expect("a task should be made");
    registry
        .replace_task_output(&task.id, vec![plain_result("kept-result")], Vec::new())
        .expect("the output is saved");
    let visible = registry.get_task(&task.id).expect("the task is there");
    let output = registry.task_output_snapshot(&task.id).expect("the output is there");

    file.block();
    let error = registry
        .replace_task_output(&task.id, vec![plain_result("refused-result")], Vec::new())
        .expect_err("the output cannot be saved");
    assert_eq!(Code::Unavailable, error.code());
    file.unblock();
    registry.create_bilibili_task("BV1unrelated", None).expect("something else can be saved");

    assert_eq!(visible, registry.get_task(&task.id).expect("the task is still there"));
    let later = registry.task_output_snapshot(&task.id).expect("the output is still there");
    assert_eq!(output.revision, later.revision);
    assert_eq!(output.output.record, later.output.record);
    assert_eq!("kept-result", later.output.record.results[0].id);
}
