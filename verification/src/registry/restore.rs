//! How a registry comes back after a restart.

use crate::active_key::{active_key_for_task, download_key, task_key};
use crate::changes::{close_playback, closed};
use crate::id_set::lemma_take_to_set;
use crate::inner::checkpoint::{consistent, empty_state};
use crate::messages::{
    CANCELLED_AFTER_RESTART_MESSAGE, PREPARING_INTERRUPTED_AFTER_RESTART_MESSAGE,
    REQUEUED_AFTER_RESTART_MESSAGE,
};
use crate::model::basics::{TaskKind, TaskState, Timestamp};
use crate::model::key::ActiveBilibiliTaskKeyView;
use crate::model::options::BilibiliDownloadOptionsView;
use crate::model::output::{
    TaskOutputRecord, TaskOutputRecordView, TaskOutputSummary, TaskOutputSummaryView,
};
use crate::model::playback::{PlaybackSource, PlaybackSourceView};
use crate::model::record::{PersistedTaskRecord, PersistedTaskRecordView};
use crate::model::state::{RegistryInner, RegistryInnerView};
use crate::model::task::{Task, TaskView};
use crate::model::visible::VisibleTaskOutput;
use crate::plain::Plain;
use crate::registry::{BilibiliTaskRegistry, BilibiliTaskRegistryView, TaskStatePersistence};
use crate::registry::commit::{
    Guarantee, PersistenceCommitOutcome, ReconciledOutputView, catching_up, commits,
    lemma_reconciled_keeps, saves, settlement_problem, unsaved_outcome,
};
use crate::registry::creation::{
    DownloadCreation, active_task, creation_terms, download_request, download_task, source_problem,
    with_download,
};
use crate::states::{active_state, is_active};
use crate::status::Status;
use crate::store::errors::{StoreError, error_of};
use crate::store::sequence::{identities_problem, validate_unique_task_record_identities};
use crate::table::Table;
use crate::text::{lemma_trimmed_idempotent, normalize, trimmed};
use crate::timing::{Duration, TaskRetentionPolicy};
use crate::visible_output::shown;
use vstd::prelude::*;

verus! {

/// Whether a task can be taken up again at all.
pub open spec fn restorable(task: TaskView) -> bool {
    &&& trimmed(task.id).len() > 0
    &&& trimmed(task.source).len() > 0
    &&& task.kind == TaskKind::BilibiliDownload || task.is_playback()
    &&& !(task.state is Unspecified) && !(task.state is Unrecognized)
    &&& task.is_playback() ==> {
        &&& task.state == TaskState::Planned ==> task.playback_session is Some
        &&& task.state == TaskState::Playable ==> task.playback_source is Some
            && task.playback_session is Some
        &&& task.state == TaskState::Completed ==> task.library_item_id.len() > 0
    }
}

/// A source that is served from the cache, under the library entry.
pub open spec fn settled_source(
    source: PlaybackSourceView,
    library_item_id: Seq<char>,
) -> PlaybackSourceView {
    PlaybackSourceView { item_id: library_item_id, expires_at: None, ..source }
}

/// A task as it is taken up again. Nobody works on it any more: a download that was under way is
/// queued again, a playback that was being prepared has failed, and what was asked to stop has
/// stopped.
pub open spec fn resumed(task: TaskView, now: Timestamp) -> TaskView {
    let named = TaskView { id: trimmed(task.id), source: trimmed(task.source), ..task };
    if task.state == TaskState::CancelRequested {
        if task.is_playback() {
            closed(named, TaskState::Cancelled, CANCELLED_AFTER_RESTART_MESSAGE@, now)
        } else {
            TaskView {
                state: TaskState::Cancelled,
                message: CANCELLED_AFTER_RESTART_MESSAGE@,
                updated_at: Some(now),
                finished_at: Some(now),
                ..named
            }
        }
    } else if task.is_playback() {
        if task.state == TaskState::Preparing || task.state == TaskState::Running {
            closed(named, TaskState::Failed, PREPARING_INTERRUPTED_AFTER_RESTART_MESSAGE@, now)
        } else if task.state == TaskState::Completed {
            TaskView {
                playback_source: match task.playback_source {
                    Some(source) => Some(settled_source(source, task.library_item_id)),
                    None => None,
                },
                ..named
            }
        } else {
            named
        }
    } else if task.state == TaskState::Running {
        TaskView {
            state: TaskState::Queued,
            message: REQUEUED_AFTER_RESTART_MESSAGE@,
            updated_at: Some(now),
            finished_at: None,
            ..named
        }
    } else {
        named
    }
}

/// A record as it is taken up again, if it is.
pub open spec fn restored_record(
    record: PersistedTaskRecordView,
    now: Timestamp,
) -> Option<PersistedTaskRecordView> {
    if restorable(record.task) {
        Some(PersistedTaskRecordView { task: resumed(record.task, now), ..record })
    } else {
        None
    }
}

fn is_restorable(task: &Task) -> (found: bool)
    requires
        task@.id == trimmed(task@.id),
        task@.source == trimmed(task@.source),
    ensures
        found == restorable(task@),
{
    let kind = task.kind();
    let state = task.state();
    if task.id.as_str().is_empty() || task.source.as_str().is_empty() || !matches!(
        kind,
        TaskKind::BilibiliDownload | TaskKind::BilibiliProgressivePlayback
    ) || state == TaskState::Unspecified {
        return false;
    }
    if kind != TaskKind::BilibiliProgressivePlayback {
        return true;
    }
    match state {
        TaskState::Planned => task.playback_session.is_some(),
        TaskState::Playable => task.playback_source.is_some() && task.playback_session.is_some(),
        TaskState::Completed => !task.library_item_id.as_str().is_empty(),
        _ => true,
    }
}

/// Takes a record up again. What cannot be taken up is left out.
pub fn restore_persisted_record(record: PersistedTaskRecord, now: Timestamp) -> (restored: Option<
    PersistedTaskRecord,
>)
    ensures
        restored.deep_view() == restored_record(record@, now),
{
    let mut record = record;
    let ghost given = record@;
    let mut task = record.task.duplicate();
    task.id = normalize(task.id.as_str());
    task.source = normalize(task.source.as_str());
    proof {
        lemma_trimmed_idempotent(given.task.id);
        lemma_trimmed_idempotent(given.task.source);
    }
    if !is_restorable(&task) {
        return None;
    }
    let playback: bool = task.kind == TaskKind::BilibiliProgressivePlayback;
    match task.state {
        TaskState::CancelRequested => {
            if playback {
                close_playback(
                    &mut task,
                    TaskState::Cancelled,
                    CANCELLED_AFTER_RESTART_MESSAGE,
                    now,
                );
            } else {
                task.state = TaskState::Cancelled;
                task.message = CANCELLED_AFTER_RESTART_MESSAGE.to_owned();
                task.updated_at = Some(now);
                task.finished_at = Some(now);
            }
        },
        TaskState::Running => {
            if playback {
                close_playback(
                    &mut task,
                    TaskState::Failed,
                    PREPARING_INTERRUPTED_AFTER_RESTART_MESSAGE,
                    now,
                );
            } else {
                task.state = TaskState::Queued;
                task.message = REQUEUED_AFTER_RESTART_MESSAGE.to_owned();
                task.updated_at = Some(now);
                task.finished_at = None;
            }
        },
        TaskState::Preparing => {
            if playback {
                close_playback(
                    &mut task,
                    TaskState::Failed,
                    PREPARING_INTERRUPTED_AFTER_RESTART_MESSAGE,
                    now,
                );
            }
        },
        TaskState::Completed => {
            if playback {
                task.playback_source = match task.playback_source {
                    Some(source) => Some(
                        PlaybackSource {
                            item_id: task.library_item_id.clone(),
                            expires_at: None,
                            ..source
                        },
                    ),
                    None => None,
                };
            }
        },
        _ => {},
    }
    record.task = task;
    Some(record)
}

/// The records of `records` that are taken up again, in their order.
pub open spec fn restored_records(
    records: Seq<PersistedTaskRecordView>,
    now: Timestamp,
) -> Seq<PersistedTaskRecordView>
    decreases records.len(),
{
    if records.len() == 0 {
        Seq::empty()
    } else {
        let earlier = restored_records(records.drop_last(), now);
        match restored_record(records.last(), now) {
            Some(record) => earlier.push(record),
            None => earlier,
        }
    }
}

/// Takes the stored records up again. None is, where two could be mistaken for each other.
pub fn restore_persisted_records(records: &Vec<PersistedTaskRecord>, now: Timestamp) -> (result:
    Result<Vec<PersistedTaskRecord>, StoreError>)
    ensures
        error_of(result) == identities_problem(records.deep_view()),
        result matches Ok(restored) ==> restored.deep_view() == restored_records(
            records.deep_view(),
            now,
        ),
{
    validate_unique_task_record_identities(records)?;
    let ghost all = records.deep_view();
    let mut restored: Vec<PersistedTaskRecord> = Vec::new();
    proof {
        assert(restored.deep_view() =~= restored_records(all.take(0), now));
    }
    for index in 0..records.len()
        invariant
            all == records.deep_view(),
            restored.deep_view() == restored_records(all.take(index as int), now),
    {
        let ghost before = restored.deep_view();
        proof {
            assert(all.take(index + 1).drop_last() =~= all.take(index as int));
            assert(all.take(index + 1).last() == records[index as int]@);
        }
        if let Some(record) = restore_persisted_record(records[index].duplicate(), now) {
            restored.push(record);
            proof {
                assert(restored.deep_view() =~= before.push(record@));
            }
        }
    }
    proof {
        assert(all.take(all.len() as int) =~= all);
    }
    Ok(restored)
}

/// A record that is taken up again, with its output derived anew from its task, where that was
/// possible, and the summary of that output.
pub struct RestoredRecord {
    pub record: PersistedTaskRecord,
    pub output: Option<TaskOutputRecord>,
    pub summary: TaskOutputSummary,
}

/// What a `RestoredRecord` holds.
#[verifier::ext_equal]
pub struct RestoredRecordView {
    pub record: PersistedTaskRecordView,
    pub output: Option<TaskOutputRecordView>,
    pub summary: TaskOutputSummaryView,
}

impl DeepView for RestoredRecord {
    type V = RestoredRecordView;

    open spec fn deep_view(&self) -> RestoredRecordView {
        RestoredRecordView {
            record: self.record@,
            output: self.output.deep_view(),
            summary: self.summary@,
        }
    }
}

/// The output of a restored record, derived anew from its task, where that was possible, and the
/// summary of that output.
pub struct RestoredOutput {
    pub output: Option<TaskOutputRecord>,
    pub summary: TaskOutputSummary,
}

/// What a `RestoredOutput` holds.
#[verifier::ext_equal]
pub struct RestoredOutputView {
    pub output: Option<TaskOutputRecordView>,
    pub summary: TaskOutputSummaryView,
}

impl DeepView for RestoredOutput {
    type V = RestoredOutputView;

    open spec fn deep_view(&self) -> RestoredOutputView {
        RestoredOutputView { output: self.output.deep_view(), summary: self.summary@ }
    }
}

/// The restored records with their outputs, as many as there are outputs for.
pub open spec fn with_outputs(
    records: Seq<PersistedTaskRecordView>,
    outputs: Seq<RestoredOutputView>,
) -> Seq<RestoredRecordView> {
    Seq::new(
        if records.len() <= outputs.len() {
            records.len()
        } else {
            outputs.len()
        },
        |i: int|
            RestoredRecordView {
                record: records[i],
                output: outputs[i].output,
                summary: outputs[i].summary,
            },
    )
}

/// `state` with `task` and its output in it.
pub open spec fn taken_up(
    state: RegistryInnerView,
    task: TaskView,
    output: TaskOutputRecordView,
) -> RegistryInnerView {
    RegistryInnerView {
        tasks_by_id: state.tasks_by_id.insert(task.id, task),
        outputs_by_task_id: state.outputs_by_task_id.insert(task.id, output),
        ..state
    }
}

/// `state` with `restored` taken up. A download that is not done waits for a worker, unless one
/// for the same request waits already. Where no output could be derived nothing is taken up.
pub open spec fn with_restored(
    state: RegistryInnerView,
    restored: RestoredRecordView,
) -> RegistryInnerView {
    let task = TaskView { output_summary: Some(restored.summary), ..restored.record.task };
    let active = active_state(task.state);
    let key = task_key(task, restored.record.options, restored.record.playback_options);
    match restored.output {
        None => state,
        Some(output) => if active && task.kind == TaskKind::BilibiliDownload {
            if state.active_task_ids_by_key.contains_key(key) {
                state
            } else {
                RegistryInnerView {
                    active_task_ids_by_key: state.active_task_ids_by_key.insert(key, task.id),
                    queued_task_ids: state.queued_task_ids.push(task.id),
                    download_options_by_id: state.download_options_by_id.insert(
                        task.id,
                        restored.record.options,
                    ),
                    ..taken_up(state, task, output)
                }
            }
        } else if active && task.is_playback() {
            RegistryInnerView {
                playback_options_by_id: state.playback_options_by_id.insert(
                    task.id,
                    restored.record.playback_options,
                ),
                ..taken_up(state, task, output)
            }
        } else {
            taken_up(state, task, output)
        },
    }
}

pub open spec fn with_all_restored(restored: Seq<RestoredRecordView>) -> RegistryInnerView
    decreases restored.len(),
{
    if restored.len() == 0 {
        empty_state()
    } else {
        with_restored(with_all_restored(restored.drop_last()), restored.last())
    }
}

/// `state` with all that is live shown to clients.
pub open spec fn all_shown(state: RegistryInnerView) -> RegistryInnerView {
    RegistryInnerView {
        visible_tasks_by_id: state.tasks_by_id,
        visible_outputs_by_task_id: state.outputs_by_task_id.map_values(
            |output: TaskOutputRecordView| shown(output),
        ),
        ..state
    }
}

/// What a registry is made of, besides its tasks.
pub struct RegistrySetting {
    /// The file that holds the state could be read, and is written to.
    pub persistent: bool,
    pub persistence_configured: bool,
    pub retention_policy: TaskRetentionPolicy,
    pub resource_root_configured: bool,
    pub max_registered_resources: usize,
}

/// A registry with the restored records in it. Where bodies of resources may lie around, they have
/// to be looked at before the storage is used.
pub open spec fn opened(
    restored: Seq<RestoredRecordView>,
    setting: RegistrySetting,
) -> BilibiliTaskRegistryView {
    BilibiliTaskRegistryView {
        inner: all_shown(with_all_restored(restored)),
        persistence: if setting.persistent {
            Some(TaskStatePersistence { available: true, latest_seen_generation: 0 })
        } else {
            None
        },
        persistence_configured: setting.persistence_configured,
        retention_policy: setting.retention_policy,
        resource_root_configured: setting.resource_root_configured,
        resource_storage_available: !setting.resource_root_configured,
        orphan_resource_scan_pending: setting.resource_root_configured,
        max_registered_resources: setting.max_registered_resources,
    }
}

impl RegistryInner {
    fn take_up(&mut self, restored: &RestoredRecord)
        ensures
            final(self)@ == with_restored(old(self)@, restored.deep_view()),
    {
        let output = match &restored.output {
            Some(output) => output.duplicate(),
            None => return,
        };
        let mut task = restored.record.task.duplicate();
        task.output_summary = Some(restored.summary.duplicate());
        let id = task.id.clone();
        let active: bool = is_active(task.state);
        if active && task.kind == TaskKind::BilibiliDownload {
            let key = active_key_for_task(
                &task,
                &restored.record.options,
                &restored.record.playback_options,
            );
            if self.active_task_ids_by_key.contains_key(&key) {
                return;
            }
            let ghost queued = self.queued_task_ids.deep_view();
            self.active_task_ids_by_key.insert(key, id.clone());
            self.queued_task_ids.push(id.clone());
            self.download_options_by_id.insert(id.clone(), restored.record.options.duplicate());
            proof {
                assert(self.queued_task_ids.deep_view() =~= queued.push(id@));
            }
        }
        if active && task.kind == TaskKind::BilibiliProgressivePlayback {
            self.playback_options_by_id.insert(
                id.clone(),
                restored.record.playback_options.duplicate(),
            );
        }
        self.outputs_by_task_id.insert(id.clone(), output);
        self.tasks_by_id.insert(id, task);
    }

    fn show_all(&mut self)
        ensures
            final(self)@ == all_shown(old(self)@),
    {
        let ghost before = self@;
        let mut visible: Table<String, VisibleTaskOutput> = Table::new();
        let count: usize = self.outputs_by_task_id.len();
        for index in 0..count
            invariant
                before == self@,
                count == self.outputs_by_task_id.keys().len(),
                visible@.dom() =~= self.outputs_by_task_id.keys().take(index as int).to_set(),
                forall|id: Seq<char>| #[trigger]
                    visible@.contains_key(id) ==> before.outputs_by_task_id.contains_key(id)
                        && visible@[id] == shown(before.outputs_by_task_id[id]),
        {
            proof {
                lemma_take_to_set(self.outputs_by_task_id.keys(), index as int);
            }
            visible.insert(
                self.outputs_by_task_id.key_at(index).clone(),
                VisibleTaskOutput::new(self.outputs_by_task_id.value_at(index).duplicate()),
            );
        }
        proof {
            let keys = self.outputs_by_task_id.keys();
            assert(keys.take(keys.len() as int) =~= keys);
            let all = before.outputs_by_task_id.map_values(
                |output: TaskOutputRecordView| shown(output),
            );
            assert forall|id: Seq<char>| visible@.contains_key(id) == all.contains_key(id) by {
                assert(before.outputs_by_task_id.contains_key(id) == keys.contains(id));
            }
            assert(visible@ =~= all);
        }
        self.visible_tasks_by_id = self.tasks_by_id.duplicate();
        self.visible_outputs_by_task_id = visible;
    }
}

/// Taking up records keeps the live state consistent, and shows nothing yet.
pub proof fn lemma_restored_consistent(restored: Seq<RestoredRecordView>)
    ensures
        consistent(with_all_restored(restored)),
        consistent(all_shown(with_all_restored(restored))),
    decreases restored.len(),
{
    let after = with_all_restored(restored);
    if restored.len() > 0 {
        lemma_restored_consistent(restored.drop_last());
        let before = with_all_restored(restored.drop_last());
        assert(after.tasks_by_id.dom() =~= after.outputs_by_task_id.dom());
    }
    assert(all_shown(after).visible_tasks_by_id.dom() =~= all_shown(
        after,
    ).visible_outputs_by_task_id.dom());
}

impl BilibiliTaskRegistry {
    /// Opens a registry with the records of an earlier run. `outputs` are the outputs of the
    /// restored records, in their order, derived anew.
    pub fn from_persisted_records(
        records: &Vec<PersistedTaskRecord>,
        outputs: &Vec<RestoredOutput>,
        setting: RegistrySetting,
        now: Timestamp,
    ) -> (result: Result<Self, StoreError>)
        ensures
            error_of(result) == identities_problem(records.deep_view()),
            result matches Ok(registry) ==> registry@.well_formed() && registry@ == opened(
                with_outputs(restored_records(records.deep_view(), now), outputs.deep_view()),
                setting,
            ),
    {
        let restored = match restore_persisted_records(records, now) {
            Ok(restored) => restored,
            Err(error) => return Err(error),
        };
        let ghost all = restored.deep_view();
        let ghost derived = outputs.deep_view();
        let mut paired: Vec<RestoredRecord> = Vec::new();
        let mut index: usize = 0;
        while index < restored.len() && index < outputs.len()
            invariant
                all == restored.deep_view(),
                derived == outputs.deep_view(),
                index <= all.len(),
                index <= derived.len(),
                paired.deep_view() =~= with_outputs(
                    all.take(index as int),
                    derived.take(index as int),
                ),
            decreases restored.len() - index,
        {
            let ghost before = paired.deep_view();
            paired.push(
                RestoredRecord {
                    record: restored[index].duplicate(),
                    output: outputs[index].output.duplicate(),
                    summary: outputs[index].summary.duplicate(),
                },
            );
            proof {
                assert(paired.deep_view() =~= before.push(
                    RestoredRecordView {
                        record: all[index as int],
                        output: derived[index as int].output,
                        summary: derived[index as int].summary,
                    },
                ));
            }
            index += 1;
        }
        proof {
            assert(paired.deep_view() =~= with_outputs(all, derived));
        }
        Ok(Self::open(&paired, setting))
    }

    fn open(
        restored: &Vec<RestoredRecord>,
        setting: RegistrySetting,
    ) -> (registry: Self)
        ensures
            registry@ == opened(restored.deep_view(), setting),
            registry@.well_formed(),
    {
        let ghost all = restored.deep_view();
        let mut inner = RegistryInner::new();
        proof {
            assert(all.take(0).len() == 0);
        }
        for index in 0..restored.len()
            invariant
                all == restored.deep_view(),
                inner@ == with_all_restored(all.take(index as int)),
        {
            proof {
                assert(all.take(index + 1).drop_last() =~= all.take(index as int));
                assert(all.take(index + 1).last() == restored[index as int].deep_view());
            }
            inner.take_up(&restored[index]);
        }
        proof {
            assert(all.take(all.len() as int) =~= all);
            lemma_restored_consistent(all);
        }
        inner.show_all();
        BilibiliTaskRegistry {
            inner,
            persistence: if setting.persistent {
                Some(TaskStatePersistence::new())
            } else {
                None
            },
            persistence_configured: setting.persistence_configured,
            retention_policy: setting.retention_policy,
            resource_root_configured: setting.resource_root_configured,
            resource_storage_available: !setting.resource_root_configured,
            orphan_resource_scan_pending: setting.resource_root_configured,
            max_registered_resources: setting.max_registered_resources,
        }
    }

    /// A registry that knows no task and keeps nothing on disk.
    pub fn volatile(max_registered_resources: usize) -> (registry: Self)
        ensures
            registry@ == opened(
                Seq::empty(),
                (RegistrySetting {
                    persistent: false,
                    persistence_configured: false,
                    retention_policy: registry@.retention_policy,
                    resource_root_configured: false,
                    max_registered_resources,
                }),
            ),
            registry.retention_policy.max_terminal_tasks == Some(200usize),
            registry.retention_policy.max_terminal_task_age == Some(
                Duration { seconds: 2_592_000, nanos: 0 },
            ),
            registry@.well_formed(),
    {
        let none: Vec<RestoredRecord> = Vec::new();
        proof {
            assert(none.deep_view() =~= Seq::<RestoredRecordView>::empty());
        }
        Self::open(
            &none,
            RegistrySetting {
                persistent: false,
                persistence_configured: false,
                retention_policy: TaskRetentionPolicy::default(),
                resource_root_configured: false,
                max_registered_resources,
            },
        )
    }
}

/// After a restart nobody works on a task, and none is asked to stop.
pub open spec fn at_rest(task: TaskView) -> bool {
    task.state != TaskState::CancelRequested && task.state != TaskState::Running && (
    task.is_playback() ==> task.state != TaskState::Preparing)
}

/// A task that is taken up again is at rest, stands under a name without white space around it,
/// and could be taken up once more.
pub proof fn law_restored_task_is_at_rest(record: PersistedTaskRecordView, now: Timestamp)
    requires
        restored_record(record, now) is Some,
    ensures
        at_rest(restored_record(record, now)->0.task),
        restored_record(record, now)->0.task.id == trimmed(record.task.id),
        restorable(restored_record(record, now)->0.task),
{
    lemma_trimmed_idempotent(record.task.id);
    lemma_trimmed_idempotent(record.task.source);
}

/// A second restart changes nothing.
pub proof fn law_restoring_twice_is_restoring_once(
    record: PersistedTaskRecordView,
    first: Timestamp,
    second: Timestamp,
)
    requires
        restored_record(record, first) is Some,
    ensures
        restored_record(restored_record(record, first)->0, second) == restored_record(
            record,
            first,
        ),
{
    lemma_trimmed_idempotent(record.task.id);
    lemma_trimmed_idempotent(record.task.source);
}

/// A task that was at rest comes back as it was. Only the source of a completed playback is brought
/// in line with the library entry.
pub proof fn law_task_at_rest_comes_back(record: PersistedTaskRecordView, now: Timestamp)
    requires
        restorable(record.task),
        at_rest(record.task),
        record.task.id == trimmed(record.task.id),
        record.task.source == trimmed(record.task.source),
        record.task.is_playback() && record.task.state == TaskState::Completed ==> (
        record.task.playback_source matches Some(source) ==> source == settled_source(
            source,
            record.task.library_item_id,
        )),
    ensures
        restored_record(record, now) == Some(record),
{
}

/// `restored[other]` waits for a worker under the key of `restored[index]`.
pub open spec fn same_download(restored: Seq<RestoredRecordView>, index: int, other: int) -> bool {
    let left = restored[index].record;
    let right = restored[other].record;
    &&& left.task.kind == TaskKind::BilibiliDownload && active_state(left.task.state)
    &&& right.task.kind == TaskKind::BilibiliDownload && active_state(right.task.state)
    &&& task_key(left.task, left.options, left.playback_options) == task_key(
        right.task,
        right.options,
        right.playback_options,
    )
}

/// After a restart every record whose output could be derived is there again, with that output,
/// unless another one has its name or stands for the same download.
pub proof fn law_restart_brings_tasks_back(restored: Seq<RestoredRecordView>, index: int)
    requires
        0 <= index < restored.len(),
        restored[index].output is Some,
        forall|other: int|
            #![trigger restored[other]]
            0 <= other < restored.len() && other != index ==> restored[other].record.task.id
                != restored[index].record.task.id && !same_download(restored, index, other),
    ensures
        ({
            let state = with_all_restored(restored);
            let given = restored[index];
            &&& state.tasks_by_id.contains_key(given.record.task.id)
            &&& state.tasks_by_id[given.record.task.id] == (TaskView {
                output_summary: Some(given.summary),
                ..given.record.task
            })
            &&& state.outputs_by_task_id[given.record.task.id] == given.output->0
        }),
    decreases restored.len(),
{
    let shorter = restored.drop_last();
    if index < shorter.len() {
        assert(shorter[index] == restored[index]);
        assert forall|other: int|
            #![trigger shorter[other]]
            0 <= other < shorter.len() && other != index implies shorter[other].record.task.id
            != shorter[index].record.task.id && !same_download(shorter, index, other) by {
            assert(shorter[other] == restored[other]);
        }
        law_restart_brings_tasks_back(shorter, index);
        assert(restored[restored.len() - 1] == restored.last());
    } else {
        let record = restored[index].record;
        let key = task_key(record.task, record.options, record.playback_options);
        if record.task.kind == TaskKind::BilibiliDownload && active_state(record.task.state) {
            assert forall|other: int|
                #![trigger shorter[other]]
                0 <= other < shorter.len() implies !(shorter[other].record.task.kind
                == TaskKind::BilibiliDownload && active_state(shorter[other].record.task.state)
                && task_key(
                shorter[other].record.task,
                shorter[other].record.options,
                shorter[other].record.playback_options,
            ) == key) by {
                assert(shorter[other] == restored[other]);
            }
            lemma_key_is_new(shorter, key);
        }
    }
}

proof fn lemma_key_is_new(restored: Seq<RestoredRecordView>, key: ActiveBilibiliTaskKeyView)
    requires
        forall|other: int|
            #![trigger restored[other]]
            0 <= other < restored.len() ==> !(restored[other].record.task.kind
                == TaskKind::BilibiliDownload && active_state(restored[other].record.task.state)
                && task_key(
                restored[other].record.task,
                restored[other].record.options,
                restored[other].record.playback_options,
            ) == key),
    ensures
        !with_all_restored(restored).active_task_ids_by_key.contains_key(key),
    decreases restored.len(),
{
    if restored.len() > 0 {
        let shorter = restored.drop_last();
        assert forall|other: int|
            #![trigger shorter[other]]
            0 <= other < shorter.len() implies !(shorter[other].record.task.kind
            == TaskKind::BilibiliDownload && active_state(shorter[other].record.task.state)
            && task_key(
            shorter[other].record.task,
            shorter[other].record.options,
            shorter[other].record.playback_options,
        ) == key) by {
            assert(shorter[other] == restored[other]);
        }
        lemma_key_is_new(shorter, key);
        assert(restored[restored.len() - 1] == restored.last());
    }
}

/// In a registry that was opened, every task is shown as it is.
pub proof fn law_opened_registry_shows_all(
    restored: Seq<RestoredRecordView>,
    setting: RegistrySetting,
    id: Seq<char>,
)
    requires
        opened(restored, setting).inner.tasks_by_id.contains_key(id),
    ensures
        ({
            let state = opened(restored, setting).inner;
            &&& state.visible_tasks_by_id.contains_key(id)
            &&& state.visible_tasks_by_id[id] == state.tasks_by_id[id]
            &&& state.visible_outputs_by_task_id[id] == shown(state.outputs_by_task_id[id])
        }),
{
    lemma_restored_consistent(restored);
}

/// A download that is not done waits for a worker after a restart, or another one for the same
/// request does.
pub proof fn law_restored_download_is_queued(restored: Seq<RestoredRecordView>, index: int)
    requires
        0 <= index < restored.len(),
        restored[index].output is Some,
        restored[index].record.task.kind == TaskKind::BilibiliDownload,
        active_state(restored[index].record.task.state),
    ensures
        ({
            let state = with_all_restored(restored);
            let record = restored[index].record;
            let key = task_key(record.task, record.options, record.playback_options);
            &&& state.active_task_ids_by_key.contains_key(key)
            &&& state.queued_task_ids.contains(state.active_task_ids_by_key[key])
            &&& state.tasks_by_id.contains_key(state.active_task_ids_by_key[key])
        }),
{
    lemma_key_is_queued(restored);
    lemma_key_is_known(restored, index);
}

spec fn keys_are_queued(state: RegistryInnerView) -> bool {
    forall|key: ActiveBilibiliTaskKeyView| #[trigger]
        state.active_task_ids_by_key.contains_key(key) ==> state.queued_task_ids.contains(
            state.active_task_ids_by_key[key],
        ) && state.tasks_by_id.contains_key(state.active_task_ids_by_key[key])
}

proof fn lemma_key_is_queued(restored: Seq<RestoredRecordView>)
    ensures
        keys_are_queued(with_all_restored(restored)),
    decreases restored.len(),
{
    if restored.len() > 0 {
        lemma_key_is_queued(restored.drop_last());
        let before = with_all_restored(restored.drop_last());
        let after = with_all_restored(restored);
        assert forall|key: ActiveBilibiliTaskKeyView| #[trigger]
            after.active_task_ids_by_key.contains_key(key) implies after.queued_task_ids.contains(
            after.active_task_ids_by_key[key],
        ) && after.tasks_by_id.contains_key(after.active_task_ids_by_key[key]) by {
            let id = after.active_task_ids_by_key[key];
            if before.active_task_ids_by_key.contains_key(key) {
                assert(id == before.active_task_ids_by_key[key]);
                let place = before.queued_task_ids.index_of(id);
                assert(after.queued_task_ids[place] == id);
            } else {
                assert(after.queued_task_ids[before.queued_task_ids.len() as int] == id);
            }
        }
    }
}

proof fn lemma_key_is_known(restored: Seq<RestoredRecordView>, index: int)
    requires
        0 <= index < restored.len(),
        restored[index].output is Some,
        restored[index].record.task.kind == TaskKind::BilibiliDownload,
        active_state(restored[index].record.task.state),
    ensures
        with_all_restored(restored).active_task_ids_by_key.contains_key(
            task_key(
                restored[index].record.task,
                restored[index].record.options,
                restored[index].record.playback_options,
            ),
        ),
    decreases restored.len(),
{
    if index < restored.len() - 1 {
        assert(restored.drop_last()[index] == restored[index]);
        lemma_key_is_known(restored.drop_last(), index);
    }
}

/// A registry that was opened although its file could not be read holds no task. Whatever calls
/// follow, it was meant to keep its state on disk and does not, and it writes nothing to that file:
/// to write down what is left to be written down comes to nothing.
pub proof fn law_unreadable_state_is_not_overwritten(
    setting: RegistrySetting,
    history: Seq<BilibiliTaskRegistryView>,
    index: int,
    outputs_sound: bool,
    refusal: Seq<char>,
)
    requires
        !setting.persistent,
        setting.persistence_configured,
        history.len() > 0,
        history[0] == opened(Seq::empty(), setting),
        forall|i: int|
            0 <= i < history.len() - 1 ==> (#[trigger] history[i + 1]).continues(history[i]),
        0 <= index < history.len(),
    ensures
        history[0].inner.tasks_by_id =~= Map::empty(),
        history[0].inner.visible_tasks_by_id =~= Map::empty(),
        history[index].persistence_configured,
        !history[index].persistence_available(),
        history[index].persistence is None,
        !saves(history[index], outputs_sound),
        settlement_problem(
            catching_up(Guarantee::Durable, refusal),
            unsaved_outcome(
                outputs_sound,
                catching_up(Guarantee::Durable, refusal).durability_required,
            ),
        ) is Some,
    decreases index,
{
    if index > 0 {
        law_unreadable_state_is_not_overwritten(
            setting,
            history,
            index - 1,
            outputs_sound,
            refusal,
        );
        assert(history[index - 1 + 1].continues(history[index - 1]));
    }
}

/// Without a file, a download that is asked for anew still becomes a task: it is registered, it
/// waits for a worker, and clients see it as queued.
pub proof fn law_downloads_are_registered_without_a_file(
    registry: BilibiliTaskRegistryView,
    source: Seq<char>,
    options: Option<BilibiliDownloadOptionsView>,
    id: Seq<char>,
    now: Timestamp,
    created: Result<DownloadCreation, Status>,
    output: TaskOutputRecordView,
    summary: TaskOutputSummaryView,
    refusal: Seq<char>,
    outputs: Seq<ReconciledOutputView>,
    committed_at: Timestamp,
    outcome: PersistenceCommitOutcome,
    after: RegistryInnerView,
)
    requires
        registry.persistence is None,
        source_problem(source) is None,
        active_task(registry.inner, download_key(trimmed(source), options)) is None,
        download_request(registry.inner, source, options, id, now, created),
        commits(
            registry.with_inner(
                with_download(
                    registry.inner,
                    TaskView { output_summary: Some(summary), ..download_task(id, source, now) },
                    download_key(trimmed(source), options),
                    options,
                    output,
                ),
            ),
            outputs,
            true,
            committed_at,
            None,
            outcome,
            creation_terms(registry, refusal),
            after,
        ),
    ensures
        created matches Ok(DownloadCreation::Draft(draft)) && draft.task@ == download_task(
            id,
            source,
            now,
        ),
        settlement_problem(creation_terms(registry, refusal), outcome) is None,
        after.queued_task_ids.contains(id),
        after.tasks_by_id.contains_key(id),
        after.visible_tasks_by_id == after.tasks_by_id,
        after.visible_tasks_by_id[id].state == TaskState::Queued,
{
    let queued = registry.inner.queued_task_ids;
    let changed = with_download(
        registry.inner,
        TaskView { output_summary: Some(summary), ..download_task(id, source, now) },
        download_key(trimmed(source), options),
        options,
        output,
    );
    lemma_reconciled_keeps(changed, outputs);
    assert(changed.tasks_by_id.contains_key(id));
    assert(queued.push(id)[queued.len() as int] == id);
}

/// All that holds of a registry that was opened although its file could not be read, `history` being
/// what became of it call by call. It holds no task. At any time, it was meant to keep its state on
/// disk and does not, a commit writes nothing, and to write down what is left to be written down
/// comes to nothing. Even so a download that is asked for anew becomes a queued task, in memory.
pub proof fn law_unreadable_state(
    setting: RegistrySetting,
    history: Seq<BilibiliTaskRegistryView>,
    index: int,
    outputs_sound: bool,
    retry_refusal: Seq<char>,
    source: Seq<char>,
    options: Option<BilibiliDownloadOptionsView>,
    id: Seq<char>,
    now: Timestamp,
    created: Result<DownloadCreation, Status>,
    output: TaskOutputRecordView,
    summary: TaskOutputSummaryView,
    creation_refusal: Seq<char>,
    outputs: Seq<ReconciledOutputView>,
    committed_at: Timestamp,
    outcome: PersistenceCommitOutcome,
    after: RegistryInnerView,
)
    requires
        !setting.persistent,
        setting.persistence_configured,
        history.len() > 0,
        history[0] == opened(Seq::empty(), setting),
        forall|i: int|
            0 <= i < history.len() - 1 ==> (#[trigger] history[i + 1]).continues(history[i]),
        0 <= index < history.len(),
        source_problem(source) is None,
        active_task(history[index].inner, download_key(trimmed(source), options)) is None,
        download_request(history[index].inner, source, options, id, now, created),
        commits(
            history[index].with_inner(
                with_download(
                    history[index].inner,
                    TaskView { output_summary: Some(summary), ..download_task(id, source, now) },
                    download_key(trimmed(source), options),
                    options,
                    output,
                ),
            ),
            outputs,
            true,
            committed_at,
            None,
            outcome,
            creation_terms(history[index], creation_refusal),
            after,
        ),
    ensures
        history[0].inner.tasks_by_id =~= Map::empty(),
        history[index].persistence_configured,
        !history[index].persistence_available(),
        !saves(history[index], outputs_sound),
        unsaved_outcome(
            outputs_sound,
            catching_up(Guarantee::Durable, retry_refusal).durability_required,
        ) != PersistenceCommitOutcome::Durable,
        created matches Ok(DownloadCreation::Draft(_)),
        settlement_problem(creation_terms(history[index], creation_refusal), outcome) is None,
        after.visible_tasks_by_id.contains_key(id),
        after.visible_tasks_by_id[id].state == TaskState::Queued,
        outcome == PersistenceCommitOutcome::Volatile,
{
    law_unreadable_state_is_not_overwritten(
        setting,
        history,
        index,
        outputs_sound,
        retry_refusal,
    );
    law_downloads_are_registered_without_a_file(
        history[index],
        source,
        options,
        id,
        now,
        created,
        output,
        summary,
        creation_refusal,
        outputs,
        committed_at,
        outcome,
        after,
    );
}

} // verus!
