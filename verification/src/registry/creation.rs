//! New tasks.

use crate::active_key::download_key;
use crate::identifiers::{new_id, random_with_prefix};
use crate::inner::cancellation::{next_cancellation, with_next_cancellation};
use crate::inner::checkpoint::checkpoint_of;
use crate::inner::publication::staged;
use crate::messages::{PLAYBACK_PREPARING_MESSAGE, QUEUED_MESSAGE};
use crate::model::basics::{Progress, TaskKind, TaskState, Timestamp, no_progress};
use crate::model::key::{ActiveBilibiliTaskKey, ActiveBilibiliTaskKeyView};
use crate::model::options::{
    BilibiliDownloadOptions, BilibiliDownloadOptionsView, BilibiliPlaybackOptions,
    BilibiliPlaybackOptionsView, BilibiliTaskSelection, BilibiliTaskSelectionView,
};
use crate::model::output::{TaskOutputRecord, TaskOutputRecordView, TaskOutputSummary};
use crate::model::state::{BilibiliTaskCancellation, RegistryInnerView, RegistryMutationCheckpoint};
use crate::model::task::{Task, TaskView};
use crate::plain::Plain;
use crate::registry::{BilibiliTaskRegistry, BilibiliTaskRegistryView};
use crate::registry::commit::{CommitTerms, CommitTermsView, Guarantee, Step};
use crate::registry::lifecycle::with_ended_task;
use crate::states::{active_state, is_active};
use crate::status::{Code, Status, StatusView, refusal};
use crate::text::{normalize, trimmed};
use vstd::prelude::*;

verus! {

/// A task that nothing has been done for yet.
pub open spec fn fresh_task(
    id: Seq<char>,
    kind: TaskKind,
    state: TaskState,
    source: Seq<char>,
    message: Seq<char>,
    selection: Option<BilibiliTaskSelectionView>,
    now: Timestamp,
) -> TaskView {
    TaskView {
        id,
        kind,
        state,
        source,
        title: Seq::empty(),
        progress: no_progress(),
        downloaded_bytes: 0,
        total_bytes: 0,
        message,
        library_item_id: Seq::empty(),
        created_at: Some(now),
        updated_at: Some(now),
        finished_at: None,
        playback_source: None,
        playback_session: None,
        bilibili_selection: selection,
        result_items: Seq::empty(),
        output_summary: None,
    }
}

fn new_task(
    id: String,
    kind: TaskKind,
    state: TaskState,
    source: String,
    message: &str,
    selection: Option<BilibiliTaskSelection>,
    now: Timestamp,
) -> (task: Task)
    ensures
        task@ == fresh_task(id@, kind, state, source@, message@, selection.deep_view(), now),
{
    let task = Task {
        id,
        kind,
        state,
        source,
        title: String::new(),
        progress: Progress::default(),
        downloaded_bytes: 0,
        total_bytes: 0,
        message: message.to_owned(),
        library_item_id: String::new(),
        created_at: Some(now),
        updated_at: Some(now),
        finished_at: None,
        playback_source: None,
        playback_session: None,
        bilibili_selection: selection,
        result_items: Vec::new(),
        output_summary: None,
    };
    proof {
        assert(task.result_items.deep_view() =~= Seq::empty());
    }
    task
}

pub open spec fn download_task(id: Seq<char>, source: Seq<char>, now: Timestamp) -> TaskView {
    fresh_task(
        id,
        TaskKind::BilibiliDownload,
        TaskState::Queued,
        trimmed(source),
        QUEUED_MESSAGE@,
        None,
        now,
    )
}

pub open spec fn playback_task(
    id: Seq<char>,
    source: Seq<char>,
    selection: Option<BilibiliTaskSelectionView>,
    now: Timestamp,
) -> TaskView {
    fresh_task(
        id,
        TaskKind::BilibiliProgressivePlayback,
        TaskState::Preparing,
        trimmed(source),
        PLAYBACK_PREPARING_MESSAGE@,
        selection,
        now,
    )
}

/// A request without a source is refused.
pub open spec fn source_problem(source: Seq<char>) -> Option<StatusView> {
    if trimmed(source).len() == 0 {
        Some(refusal(Code::InvalidArgument, "Bilibili URL or id is required."@))
    } else {
        None
    }
}

fn required_source(source: &str) -> (result: Result<String, Status>)
    ensures
        match result {
            Ok(normalized) => source_problem(source@) is None && normalized@ == trimmed(source@),
            Err(status) => source_problem(source@) == Some(status@),
        },
{
    let normalized = normalize(source);
    if normalized.as_str().is_empty() {
        Err(Status::new(Code::InvalidArgument, "Bilibili URL or id is required."))
    } else {
        Ok(normalized)
    }
}

/// The active task that was made by a request with this key.
pub open spec fn active_task(
    state: RegistryInnerView,
    key: ActiveBilibiliTaskKeyView,
) -> Option<TaskView> {
    if state.active_task_ids_by_key.contains_key(key) {
        let id = state.active_task_ids_by_key[key];
        if state.tasks_by_id.contains_key(id) && active_state(state.tasks_by_id[id].state) {
            Some(state.tasks_by_id[id])
        } else {
            None
        }
    } else {
        None
    }
}

/// A download that is about to be registered, together with an output derived from it.
pub struct DownloadDraft {
    pub task: Task,
    pub key: ActiveBilibiliTaskKey,
    pub options: Option<BilibiliDownloadOptions>,
}

/// What comes of a request for a download.
pub enum DownloadCreation {
    /// The same request is under way already.
    Existing(Task),
    Draft(DownloadDraft),
}

/// What a request for a download comes to, if a new task got the identifier `id`.
pub open spec fn download_request(
    state: RegistryInnerView,
    source: Seq<char>,
    options: Option<BilibiliDownloadOptionsView>,
    id: Seq<char>,
    now: Timestamp,
    result: Result<DownloadCreation, Status>,
) -> bool {
    let key = download_key(trimmed(source), options);
    match source_problem(source) {
        Some(problem) => result matches Err(status) && status@ == problem,
        None => match active_task(state, key) {
            Some(active) => result matches Ok(DownloadCreation::Existing(task)) && task@ == active,
            None => result matches Ok(DownloadCreation::Draft(draft)) && draft.task@
                == download_task(id, source, now) && draft.key@ == key && draft.options.deep_view()
                == options,
        },
    }
}

/// The terms of registering a new task.
pub open spec fn creation_terms(
    registry: BilibiliTaskRegistryView,
    refusal: Seq<char>,
) -> CommitTermsView {
    CommitTermsView {
        durability_required: registry.persistence is Some,
        rollback: if registry.persistence is Some {
            Some(checkpoint_of(registry.inner))
        } else {
            None
        },
        require_durable_commit: false,
        needed: Guarantee::Committed,
        refusal,
    }
}

/// `state` with a download registered: it waits for a worker, and the same request finds it.
pub open spec fn with_download(
    state: RegistryInnerView,
    task: TaskView,
    key: ActiveBilibiliTaskKeyView,
    options: Option<BilibiliDownloadOptionsView>,
    output: TaskOutputRecordView,
) -> RegistryInnerView {
    staged(
        RegistryInnerView {
            active_task_ids_by_key: state.active_task_ids_by_key.insert(key, task.id),
            download_options_by_id: state.download_options_by_id.insert(task.id, options),
            queued_task_ids: state.queued_task_ids.push(task.id),
            outputs_by_task_id: state.outputs_by_task_id.insert(task.id, output),
            tasks_by_id: state.tasks_by_id.insert(task.id, task),
            ..state
        },
        task,
    )
}

/// A playback that is about to be registered, together with an output derived from it.
pub struct PlaybackDraft {
    pub task: Task,
    pub options: Option<BilibiliPlaybackOptions>,
}

/// A registered playback task.
pub struct BilibiliPlaybackTaskCreation {
    pub task: Task,
    pub created: bool,
    pub cancellation: Option<BilibiliTaskCancellation>,
}

/// `state` with a playback registered: its plan is being made, and can be cancelled.
pub open spec fn with_playback(
    state: RegistryInnerView,
    task: TaskView,
    options: Option<BilibiliPlaybackOptionsView>,
    output: TaskOutputRecordView,
) -> RegistryInnerView {
    staged(
        RegistryInnerView {
            playback_options_by_id: state.playback_options_by_id.insert(task.id, options),
            planning_cancellations_by_id: state.planning_cancellations_by_id.insert(
                task.id,
                next_cancellation(state),
            ),
            outputs_by_task_id: state.outputs_by_task_id.insert(task.id, output),
            tasks_by_id: state.tasks_by_id.insert(task.id, task),
            ..with_next_cancellation(state)
        },
        task,
    )
}

impl BilibiliTaskRegistry {
    fn creation_terms(&self, refusal: &'static str) -> (terms: CommitTerms)
        ensures
            terms@ == creation_terms(self@, refusal@),
    {
        let on_disk: bool = self.persistence.is_some();
        CommitTerms {
            durability_required: on_disk,
            rollback: if on_disk {
                Some(RegistryMutationCheckpoint::capture(&self.inner))
            } else {
                None
            },
            require_durable_commit: false,
            needed: Guarantee::Committed,
            refusal,
        }
    }

    /// Starts a download. While the same request is under way, its task is the answer.
    pub fn create_bilibili_task(
        &self,
        source: &str,
        options: Option<BilibiliDownloadOptions>,
        now: Timestamp,
    ) -> (result: Result<DownloadCreation, Status>)
        ensures
            exists|id: Seq<char>|
                random_with_prefix(id, "bilibili-"@) && #[trigger] download_request(
                    self@.inner,
                    source@,
                    options.deep_view(),
                    id,
                    now,
                    result,
                ),
    {
        let id = new_id("bilibili-");
        let ghost chosen = id@;
        let result = self.create_bilibili_task_as(id, source, options, now);
        proof {
            assert(download_request(
                self@.inner,
                source@,
                options.deep_view(),
                chosen,
                now,
                result,
            ));
        }
        result
    }

    /// Starts a download under the identifier `id`.
    pub fn create_bilibili_task_as(
        &self,
        id: String,
        source: &str,
        options: Option<BilibiliDownloadOptions>,
        now: Timestamp,
    ) -> (result: Result<DownloadCreation, Status>)
        ensures
            download_request(self@.inner, source@, options.deep_view(), id@, now, result),
    {
        let normalized_source = match required_source(source) {
            Ok(normalized_source) => normalized_source,
            Err(status) => return Err(status),
        };
        let key = ActiveBilibiliTaskKey::download(normalized_source.as_str(), &options);
        if let Some(active_task_id) = self.inner.active_task_ids_by_key.get(&key) {
            if let Some(task) = self.inner.tasks_by_id.get(active_task_id) {
                if is_active(task.state) {
                    return Ok(DownloadCreation::Existing(task.duplicate()));
                }
            }
        }
        let task = new_task(
            id,
            TaskKind::BilibiliDownload,
            TaskState::Queued,
            normalized_source,
            QUEUED_MESSAGE,
            None,
            now,
        );
        Ok(DownloadCreation::Draft(DownloadDraft { task, key, options }))
    }

    /// Registers a download. `output` and `summary` were derived from the task of the draft.
    pub fn admit_bilibili_task(
        &mut self,
        draft: DownloadDraft,
        output: TaskOutputRecord,
        summary: TaskOutputSummary,
    ) -> (step: Step<Task>)
        requires
            old(self)@.well_formed(),
        ensures
            final(self)@.well_formed(),
            final(self)@.continues(old(self)@),
            ({
                let task = TaskView { output_summary: Some(summary@), ..draft.task@ };
                &&& step matches Step::Commit(done, terms) && done@ == task && terms@
                    == creation_terms(
                    old(self)@,
                    "Task creation could not be persisted durably."@,
                )
                &&& final(self)@ == old(self)@.with_inner(
                    with_download(
                        old(self)@.inner,
                        task,
                        draft.key@,
                        draft.options.deep_view(),
                        output@,
                    ),
                )
            }),
    {
        let terms = self.creation_terms("Task creation could not be persisted durably.");
        let mut task = draft.task;
        task.output_summary = Some(summary);
        let ghost queue = self.inner.queued_task_ids.deep_view();
        self.inner.active_task_ids_by_key.insert(draft.key, task.id.clone());
        self.inner.download_options_by_id.insert(task.id.clone(), draft.options);
        self.inner.queued_task_ids.push(task.id.clone());
        proof {
            assert(self.inner.queued_task_ids.deep_view() =~= queue.push(task@.id));
        }
        self.inner.outputs_by_task_id.insert(task.id.clone(), output);
        self.inner.put_task(task.duplicate());
        self.inner.stage_publication(task.duplicate());
        Step::Commit(task, terms)
    }

    /// Starts a playback. Every request starts one of its own.
    pub fn create_bilibili_playback_task(
        &self,
        source: &str,
        options: Option<BilibiliPlaybackOptions>,
        selection: Option<BilibiliTaskSelection>,
        now: Timestamp,
    ) -> (result: Result<PlaybackDraft, Status>)
        ensures
            match result {
                Ok(draft) => source_problem(source@) is None && random_with_prefix(
                    draft.task@.id,
                    "bilibili-playback-"@,
                ) && draft.task@ == playback_task(
                    draft.task@.id,
                    source@,
                    selection.deep_view(),
                    now,
                ) && draft.options.deep_view() == options.deep_view(),
                Err(status) => source_problem(source@) == Some(status@),
            },
    {
        let id = new_id("bilibili-playback-");
        self.create_bilibili_playback_task_as(id, source, options, selection, now)
    }

    /// Starts a playback under the identifier `id`.
    pub fn create_bilibili_playback_task_as(
        &self,
        id: String,
        source: &str,
        options: Option<BilibiliPlaybackOptions>,
        selection: Option<BilibiliTaskSelection>,
        now: Timestamp,
    ) -> (result: Result<PlaybackDraft, Status>)
        ensures
            match result {
                Ok(draft) => source_problem(source@) is None && draft.task@ == playback_task(
                    id@,
                    source@,
                    selection.deep_view(),
                    now,
                ) && draft.options.deep_view() == options.deep_view(),
                Err(status) => source_problem(source@) == Some(status@),
            },
    {
        let normalized_source = match required_source(source) {
            Ok(normalized_source) => normalized_source,
            Err(status) => return Err(status),
        };
        let task = new_task(
            id,
            TaskKind::BilibiliProgressivePlayback,
            TaskState::Preparing,
            normalized_source,
            PLAYBACK_PREPARING_MESSAGE,
            selection,
            now,
        );
        Ok(PlaybackDraft { task, options })
    }

    /// Registers a playback. `output` and `summary` were derived from the task of the draft.
    pub fn admit_bilibili_playback_task(
        &mut self,
        draft: PlaybackDraft,
        output: TaskOutputRecord,
        summary: TaskOutputSummary,
    ) -> (step: Step<BilibiliPlaybackTaskCreation>)
        requires
            old(self)@.well_formed(),
        ensures
            final(self)@.well_formed(),
            final(self)@.continues(old(self)@),
            ({
                let task = TaskView { output_summary: Some(summary@), ..draft.task@ };
                &&& step matches Step::Commit(creation, terms) && creation.task@ == task
                    && creation.created && terms@ == creation_terms(
                    old(self)@,
                    "Playback task creation could not be persisted durably."@,
                ) && (creation.cancellation matches Some(cancellation) && cancellation@
                    == final(self)@.inner.planning_cancellations_by_id[task.id])
                &&& final(self)@ == old(self)@.with_inner(
                    with_playback(old(self)@.inner, task, draft.options.deep_view(), output@),
                )
            }),
    {
        let terms = self.creation_terms("Playback task creation could not be persisted durably.");
        let mut task = draft.task;
        task.output_summary = Some(summary);
        self.inner.playback_options_by_id.insert(task.id.clone(), draft.options);
        let cancellation = self.inner.new_cancellation();
        self.inner.planning_cancellations_by_id.insert(task.id.clone(), cancellation.duplicate());
        self.inner.outputs_by_task_id.insert(task.id.clone(), output);
        self.inner.put_task(task.duplicate());
        self.inner.stage_publication(task.duplicate());
        Step::Commit(
            BilibiliPlaybackTaskCreation {
                task,
                created: true,
                cancellation: Some(cancellation),
            },
            terms,
        )
    }
}

/// Once a download is registered, the same request finds it instead of starting another.
pub proof fn law_same_request_finds_the_download(
    state: RegistryInnerView,
    task: TaskView,
    source: Seq<char>,
    options: Option<BilibiliDownloadOptionsView>,
    output: TaskOutputRecordView,
)
    requires
        active_state(task.state),
    ensures
        ({
            let key = download_key(trimmed(source), options);
            active_task(with_download(state, task, key, options, output), key) == Some(task)
        }),
{
}

/// Registering a playback leaves alone what requests for downloads find.
pub proof fn law_playback_is_never_shared(
    state: RegistryInnerView,
    task: TaskView,
    options: Option<BilibiliPlaybackOptionsView>,
    output: TaskOutputRecordView,
    key: ActiveBilibiliTaskKeyView,
)
    requires
        !state.tasks_by_id.contains_key(task.id),
        state.active_task_ids_by_key.contains_key(key) ==> state.tasks_by_id.contains_key(
            state.active_task_ids_by_key[key],
        ),
    ensures
        active_task(with_playback(state, task, options, output), key) == active_task(state, key),
{
}

/// Once the task of a download has ended, the same request starts another.
pub proof fn law_ended_download_is_not_found(
    state: RegistryInnerView,
    task: TaskView,
    key: ActiveBilibiliTaskKeyView,
)
    requires
        !active_state(task.state),
        state.active_task_ids_by_key.contains_key(key) ==> state.active_task_ids_by_key[key]
            == task.id,
    ensures
        active_task(with_ended_task(state, task), key) is None,
{
}

/// What clients see does not change when a task is registered: it changes with the commit.
pub proof fn law_a_new_task_is_shown_by_its_commit(
    state: RegistryInnerView,
    task: TaskView,
    key: ActiveBilibiliTaskKeyView,
    download_options: Option<BilibiliDownloadOptionsView>,
    playback_options: Option<BilibiliPlaybackOptionsView>,
    output: TaskOutputRecordView,
)
    ensures
        ({
            let after = with_download(state, task, key, download_options, output);
            &&& after.visible_tasks_by_id == state.visible_tasks_by_id
            &&& after.visible_outputs_by_task_id == state.visible_outputs_by_task_id
        }),
        ({
            let after = with_playback(state, task, playback_options, output);
            &&& after.visible_tasks_by_id == state.visible_tasks_by_id
            &&& after.visible_outputs_by_task_id == state.visible_outputs_by_task_id
        }),
{
}

} // verus!
