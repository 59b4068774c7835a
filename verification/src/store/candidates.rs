//! The parts of a source that a request has accepted, and how their download is to be carried out.

use crate::model::basics::{TaskKind, TaskState};
use crate::model::options::{
    BilibiliApiMode, BilibiliDownloadMode, BilibiliDownloadOptions, BilibiliDownloadOptionsView,
    BilibiliRequestContext, BilibiliRequestContextView, BilibiliSubtitleAiPolicy,
};
use crate::model::record::{BilibiliTaskCandidateRecord, BilibiliTaskCandidateRecordView};
use crate::model::task::{BilibiliTaskResultItemView, Task, TaskView};
use crate::plain::Plain;
use crate::store::errors::{StoreError, StoreErrorView, error_of, first_of, invalid, invalid_data};
use crate::store::intents::{exceeds_utf8_len, utf8_len};
use crate::text::{normalize, same_text, trimmed};
use vstd::prelude::*;

verus! {

/// The first schema whose states say how an accepted download is to be carried out.
pub const BILIBILI_REQUEST_CONTEXT_TASK_STATE_SCHEMA_VERSION: u32 = 4;

pub const MAX_PERSISTED_BILIBILI_PROFILE_ID_BYTES: usize = 256;

/// A text of white space alone.
pub open spec fn blank(text: Seq<char>) -> bool {
    trimmed(text).len() == 0
}

fn is_blank(text: &str) -> (result: bool)
    ensures
        result == blank(text@),
{
    normalize(text).as_str().is_empty()
}

pub open spec fn sound_candidate(candidate: BilibiliTaskCandidateRecordView) -> bool {
    &&& !blank(candidate.selection_id)
    &&& !blank(candidate.title)
    &&& !blank(candidate.source_kind)
    &&& !blank(candidate.content_id)
    &&& candidate.index != 0
    &&& candidate.identity_sound
    &&& (candidate.identity.bvid matches Some(bvid) ==> bvid == trimmed(bvid))
}

pub open spec fn candidate_problem(
    candidate: BilibiliTaskCandidateRecordView,
) -> Option<StoreErrorView> {
    if sound_candidate(candidate) {
        None
    } else {
        Some(invalid("persisted Bilibili task candidate contains an invalid required field"@))
    }
}

pub fn validate_bilibili_task_candidate(
    candidate: &BilibiliTaskCandidateRecord,
) -> (result: Result<(), StoreError>)
    ensures
        error_of(result) == candidate_problem(candidate@),
{
    let bvid_sound: bool = match &candidate.identity.bvid {
        Some(bvid) => same_text(bvid.as_str(), normalize(bvid.as_str()).as_str()),
        None => true,
    };
    if is_blank(candidate.selection_id.as_str()) || is_blank(candidate.title.as_str()) || is_blank(
        candidate.source_kind.as_str(),
    ) || is_blank(candidate.content_id.as_str()) || candidate.index == 0
        || !candidate.identity_sound || !bvid_sound {
        return Err(
            invalid_data("persisted Bilibili task candidate contains an invalid required field"),
        );
    }
    Ok(())
}

/// The first problem among the first `count` candidates.
pub open spec fn first_candidate_problem(
    candidates: Seq<BilibiliTaskCandidateRecordView>,
    count: int,
) -> Option<StoreErrorView>
    decreases count,
{
    if count <= 0 {
        None
    } else {
        first_of(
            first_candidate_problem(candidates, count - 1),
            candidate_problem(candidates[count - 1]),
        )
    }
}

pub open spec fn candidates_problem(
    candidates: Seq<BilibiliTaskCandidateRecordView>,
) -> Option<StoreErrorView> {
    first_candidate_problem(candidates, candidates.len() as int)
}

proof fn lemma_first_candidate_problem_stays(
    candidates: Seq<BilibiliTaskCandidateRecordView>,
    count: int,
    total: int,
)
    requires
        0 <= count <= total,
        first_candidate_problem(candidates, count) is Some,
    ensures
        first_candidate_problem(candidates, total) == first_candidate_problem(candidates, count),
    decreases total - count,
{
    if count < total {
        lemma_first_candidate_problem_stays(candidates, count, total - 1);
    }
}

pub fn validate_bilibili_task_candidates(
    candidates: &Vec<BilibiliTaskCandidateRecord>,
) -> (result: Result<(), StoreError>)
    ensures
        error_of(result) == candidates_problem(candidates.deep_view()),
{
    let ghost all = candidates.deep_view();
    for index in 0..candidates.len()
        invariant
            all == candidates.deep_view(),
            first_candidate_problem(all, index as int) is None,
    {
        proof {
            assert(all[index as int] == candidates[index as int]@);
        }
        if let Err(error) = validate_bilibili_task_candidate(&candidates[index]) {
            proof {
                lemma_first_candidate_problem_stays(all, index + 1, all.len() as int);
            }
            return Err(error);
        }
    }
    Ok(())
}

pub open spec fn sound_context(context: BilibiliRequestContextView) -> bool {
    &&& !(context.api_mode is Unrecognized)
    &&& context.credential_profile_id == trimmed(context.credential_profile_id)
    &&& utf8_len(context.credential_profile_id) <= MAX_PERSISTED_BILIBILI_PROFILE_ID_BYTES
}

pub open spec fn context_problem(
    context: Option<BilibiliRequestContextView>,
) -> Option<StoreErrorView> {
    match context {
        Some(context) => if sound_context(context) {
            None
        } else {
            Some(invalid("persisted Bilibili request context is invalid"@))
        },
        None => None,
    }
}

pub fn validate_bilibili_request_context(
    context: &Option<BilibiliRequestContext>,
) -> (result: Result<(), StoreError>)
    ensures
        error_of(result) == context_problem(context.deep_view()),
{
    match context {
        Some(context) => {
            let profile = context.credential_profile_id.as_str();
            if matches!(context.api_mode, BilibiliApiMode::Unrecognized(_)) || !same_text(
                profile,
                normalize(profile).as_str(),
            ) || exceeds_utf8_len(profile, MAX_PERSISTED_BILIBILI_PROFILE_ID_BYTES) {
                return Err(invalid_data("persisted Bilibili request context is invalid"));
            }
            Ok(())
        },
        None => Ok(()),
    }
}

/// A download of accepted candidates that is still to be carried out.
pub open spec fn executable(
    task: TaskView,
    candidates: Seq<BilibiliTaskCandidateRecordView>,
) -> bool {
    &&& candidates.len() > 0
    &&& task.kind == TaskKind::BilibiliDownload
    &&& task.state == TaskState::Queued || task.state == TaskState::Running
}

fn is_executable(task: &Task, candidates: &Vec<BilibiliTaskCandidateRecord>) -> (result: bool)
    ensures
        result == executable(task@, candidates.deep_view()),
{
    candidates.len() > 0 && task.kind == TaskKind::BilibiliDownload && matches!(
        task.state,
        TaskState::Queued | TaskState::Running
    )
}

/// What is wrong with how an accepted download is to be carried out: it must be said what to
/// download, and by which interface.
pub open spec fn execution_problem(
    schema_version: u32,
    task: TaskView,
    options: Option<BilibiliDownloadOptionsView>,
    context: Option<BilibiliRequestContextView>,
    candidates: Seq<BilibiliTaskCandidateRecordView>,
) -> Option<StoreErrorView> {
    if schema_version < BILIBILI_REQUEST_CONTEXT_TASK_STATE_SCHEMA_VERSION || !executable(
        task,
        candidates,
    ) {
        None
    } else if options matches Some(options) && options.download_mode is Unrecognized {
        Some(invalid("persisted executable Bilibili v2 download mode is invalid"@))
    } else if context matches Some(context) && context.api_mode is Unrecognized {
        Some(invalid("persisted executable Bilibili v2 API mode is invalid"@))
    } else if options is None || options->0.download_mode == BilibiliDownloadMode::Unspecified
        || context is None || context->0.api_mode == BilibiliApiMode::Unspecified {
        Some(
            invalid(
                "persisted executable Bilibili v2 download is missing concrete frozen execution state"@,
            ),
        )
    } else {
        None
    }
}

pub fn validate_executable_bilibili_v2_download_state(
    schema_version: u32,
    task: &Task,
    options: &Option<BilibiliDownloadOptions>,
    request_context: &Option<BilibiliRequestContext>,
    candidates: &Vec<BilibiliTaskCandidateRecord>,
) -> (result: Result<(), StoreError>)
    ensures
        error_of(result) == execution_problem(
            schema_version,
            task@,
            options.deep_view(),
            request_context.deep_view(),
            candidates.deep_view(),
        ),
{
    if schema_version < BILIBILI_REQUEST_CONTEXT_TASK_STATE_SCHEMA_VERSION || !is_executable(
        task,
        candidates,
    ) {
        return Ok(());
    }
    let mode_concrete: bool = match options {
        Some(options) => match options.download_mode {
            BilibiliDownloadMode::Unrecognized(_) => {
                return Err(
                    invalid_data("persisted executable Bilibili v2 download mode is invalid"),
                );
            },
            BilibiliDownloadMode::Unspecified => false,
            _ => true,
        },
        None => false,
    };
    let api_concrete: bool = match request_context {
        Some(context) => match context.api_mode {
            BilibiliApiMode::Unrecognized(_) => {
                return Err(invalid_data("persisted executable Bilibili v2 API mode is invalid"));
            },
            BilibiliApiMode::Unspecified => false,
            _ => true,
        },
        None => false,
    };
    if !mode_concrete || !api_concrete {
        return Err(
            invalid_data(
                "persisted executable Bilibili v2 download is missing concrete frozen execution state",
            ),
        );
    }
    Ok(())
}

/// The options of a download that asks for nothing in particular.
pub open spec fn default_options() -> BilibiliDownloadOptionsView {
    BilibiliDownloadOptionsView {
        quality_preference: Seq::empty(),
        encoding_preference: Seq::empty(),
        prefer_tv_api: false,
        download_subtitles: false,
        download_danmaku: false,
        audio_language: Seq::empty(),
        subtitle_ai_policy: BilibiliSubtitleAiPolicy::Unspecified,
        download_cover: false,
        danmaku_formats: Seq::empty(),
        download_mode: BilibiliDownloadMode::Unspecified,
    }
}

fn new_default_options() -> (options: BilibiliDownloadOptions)
    ensures
        options@ == default_options(),
{
    let options = BilibiliDownloadOptions {
        quality_preference: String::new(),
        encoding_preference: String::new(),
        prefer_tv_api: false,
        download_subtitles: false,
        download_danmaku: false,
        audio_language: String::new(),
        subtitle_ai_policy: BilibiliSubtitleAiPolicy::Unspecified,
        download_cover: false,
        danmaku_formats: Vec::new(),
        download_mode: BilibiliDownloadMode::Unspecified,
    };
    proof {
        assert(options@ =~= default_options());
    }
    options
}

/// The options that a state from before the fourth schema stands for.
pub open spec fn migrated_options(
    options: Option<BilibiliDownloadOptionsView>,
) -> BilibiliDownloadOptionsView {
    let given = match options {
        Some(options) => options,
        None => default_options(),
    };
    BilibiliDownloadOptionsView {
        download_mode: if given.download_mode == BilibiliDownloadMode::Unspecified {
            BilibiliDownloadMode::All
        } else {
            given.download_mode
        },
        ..given
    }
}

/// The request context that a state from before the fourth schema stands for.
pub open spec fn migrated_context(
    options: Option<BilibiliDownloadOptionsView>,
) -> BilibiliRequestContextView {
    BilibiliRequestContextView {
        api_mode: if migrated_options(options).prefer_tv_api {
            BilibiliApiMode::Tv
        } else {
            BilibiliApiMode::Web
        },
        credential_profile_id: Seq::empty(),
    }
}

/// A state that needs to be migrated: it is from before the fourth schema, and its download is
/// still to be carried out.
pub open spec fn needs_migration(
    schema_version: u32,
    task: TaskView,
    candidates: Seq<BilibiliTaskCandidateRecordView>,
) -> bool {
    schema_version < BILIBILI_REQUEST_CONTEXT_TASK_STATE_SCHEMA_VERSION && executable(
        task,
        candidates,
    )
}

/// Why a state cannot be migrated.
pub open spec fn migration_problem(
    schema_version: u32,
    task: TaskView,
    options: Option<BilibiliDownloadOptionsView>,
    candidates: Seq<BilibiliTaskCandidateRecordView>,
) -> Option<StoreErrorView> {
    if needs_migration(schema_version, task, candidates) && (options matches Some(options)
        && options.download_mode is Unrecognized) {
        Some(invalid("persisted legacy Bilibili v2 download mode is invalid"@))
    } else {
        None
    }
}

/// Says how the download of an old state is to be carried out: everything that is not said
/// otherwise, by the interface that the options prefer.
pub fn migrate_legacy_executable_bilibili_v2_download_state(
    schema_version: u32,
    task: &Task,
    options: &mut Option<BilibiliDownloadOptions>,
    request_context: &mut Option<BilibiliRequestContext>,
    candidates: &Vec<BilibiliTaskCandidateRecord>,
) -> (result: Result<(), StoreError>)
    ensures
        error_of(result) == migration_problem(
            schema_version,
            task@,
            old(options).deep_view(),
            candidates.deep_view(),
        ),
        if result is Ok && needs_migration(schema_version, task@, candidates.deep_view()) {
            final(options).deep_view() == Some(migrated_options(old(options).deep_view()))
                && final(request_context).deep_view() == Some(
                migrated_context(old(options).deep_view()),
            )
        } else {
            final(options).deep_view() == old(options).deep_view()
                && final(request_context).deep_view() == old(request_context).deep_view()
        },
{
    if schema_version >= BILIBILI_REQUEST_CONTEXT_TASK_STATE_SCHEMA_VERSION || !is_executable(
        task,
        candidates,
    ) {
        return Ok(());
    }
    let mut migrated = match options {
        Some(options) => options.duplicate(),
        None => new_default_options(),
    };
    if matches!(migrated.download_mode, BilibiliDownloadMode::Unrecognized(_)) {
        return Err(invalid_data("persisted legacy Bilibili v2 download mode is invalid"));
    }
    if migrated.download_mode == BilibiliDownloadMode::Unspecified {
        migrated.download_mode = BilibiliDownloadMode::All;
    }
    *request_context =
    Some(
        BilibiliRequestContext {
            api_mode: if migrated.prefer_tv_api {
                BilibiliApiMode::Tv
            } else {
                BilibiliApiMode::Web
            },
            credential_profile_id: String::new(),
        },
    );
    *options = Some(migrated);
    Ok(())
}

/// A migrated state says everything that a new state has to say.
pub proof fn law_migrated_state_is_executable(
    old_version: u32,
    new_version: u32,
    task: TaskView,
    options: Option<BilibiliDownloadOptionsView>,
    candidates: Seq<BilibiliTaskCandidateRecordView>,
)
    requires
        needs_migration(old_version, task, candidates),
        migration_problem(old_version, task, options, candidates) is None,
    ensures
        execution_problem(
            new_version,
            task,
            Some(migrated_options(options)),
            Some(migrated_context(options)),
            candidates,
        ) is None,
        context_problem(Some(migrated_context(options))) is None,
{
    let profile = migrated_context(options).credential_profile_id;
    assert(trimmed(profile) =~= profile);
    assert(utf8_len(profile) == 0);
}

/// A candidate and the result that stands for it agree.
pub open spec fn agrees(
    candidate: BilibiliTaskCandidateRecordView,
    item: BilibiliTaskResultItemView,
) -> bool {
    &&& item.selection_id.len() == 0
    &&& candidate.source_kind == item.source_kind
    &&& candidate.content_id == item.content_id
    &&& candidate.index == item.index
}

/// Some of the first `count` candidates has the selection `selection_id`.
pub open spec fn selected_before(
    candidates: Seq<BilibiliTaskCandidateRecordView>,
    count: int,
    selection_id: Seq<char>,
) -> bool {
    exists|i: int|
        0 <= i < count && (#[trigger] candidates[i]).selection_id == selection_id
}

/// The first problem among the first `count` candidates and results.
pub open spec fn first_misalignment(
    candidates: Seq<BilibiliTaskCandidateRecordView>,
    items: Seq<BilibiliTaskResultItemView>,
    count: int,
) -> Option<StoreErrorView>
    decreases count,
{
    if count <= 0 {
        None
    } else {
        let last = candidates[count - 1];
        first_of(
            first_misalignment(candidates, items, count - 1),
            if selected_before(candidates, count - 1, last.selection_id) {
                Some(
                    invalid(
                        "persisted Bilibili task candidates contain duplicate selection identities"@,
                    ),
                )
            } else if !agrees(last, items[count - 1]) {
                Some(
                    invalid(
                        "persisted Bilibili task candidate does not match its task result plan"@,
                    ),
                )
            } else {
                None
            },
        )
    }
}

proof fn lemma_first_misalignment_stays(
    candidates: Seq<BilibiliTaskCandidateRecordView>,
    items: Seq<BilibiliTaskResultItemView>,
    count: int,
    total: int,
)
    requires
        0 <= count <= total,
        first_misalignment(candidates, items, count) is Some,
    ensures
        first_misalignment(candidates, items, total) == first_misalignment(
            candidates,
            items,
            count,
        ),
    decreases total - count,
{
    if count < total {
        lemma_first_misalignment_stays(candidates, items, count, total - 1);
    }
}

/// What is wrong with the candidates of a task: where there are any, there is one for each result,
/// and the two agree.
pub open spec fn alignment_problem(
    task: TaskView,
    candidates: Seq<BilibiliTaskCandidateRecordView>,
) -> Option<StoreErrorView> {
    if candidates.len() == 0 {
        None
    } else if !(task.kind == TaskKind::BilibiliDownload || task.is_playback())
        || task.bilibili_selection is Some {
        Some(invalid("persisted Bilibili v2 candidates belong only to v2 Bilibili tasks"@))
    } else if candidates.len() != task.result_items.len() {
        Some(invalid("persisted Bilibili task candidates do not match task result count"@))
    } else {
        first_misalignment(candidates, task.result_items, candidates.len() as int)
    }
}

fn is_selected_before(
    candidates: &Vec<BilibiliTaskCandidateRecord>,
    index: usize,
) -> (found: bool)
    requires
        index < candidates@.len(),
    ensures
        found == selected_before(
            candidates.deep_view(),
            index as int,
            candidates.deep_view()[index as int].selection_id,
        ),
{
    let ghost all = candidates.deep_view();
    for other in 0..index
        invariant
            index < candidates@.len(),
            all == candidates.deep_view(),
            forall|i: int|
                0 <= i < other ==> (#[trigger] all[i]).selection_id
                    != all[index as int].selection_id,
    {
        proof {
            assert(all[other as int] == candidates[other as int]@);
            assert(all[index as int] == candidates[index as int]@);
        }
        if candidates[other].selection_id == candidates[index].selection_id {
            return true;
        }
    }
    false
}

pub fn validate_bilibili_task_candidate_alignment(
    task: &Task,
    candidates: &Vec<BilibiliTaskCandidateRecord>,
) -> (result: Result<(), StoreError>)
    ensures
        error_of(result) == alignment_problem(task@, candidates.deep_view()),
{
    if candidates.len() == 0 {
        return Ok(());
    }
    if !matches!(
        task.kind,
        TaskKind::BilibiliDownload | TaskKind::BilibiliProgressivePlayback
    ) || task.bilibili_selection.is_some() {
        return Err(
            invalid_data("persisted Bilibili v2 candidates belong only to v2 Bilibili tasks"),
        );
    }
    if candidates.len() != task.result_items.len() {
        return Err(
            invalid_data("persisted Bilibili task candidates do not match task result count"),
        );
    }
    let ghost all = candidates.deep_view();
    let ghost items = task@.result_items;
    for index in 0..candidates.len()
        invariant
            all == candidates.deep_view(),
            items == task@.result_items,
            candidates@.len() == task.result_items@.len(),
            alignment_problem(task@, all) == first_misalignment(all, items, all.len() as int),
            first_misalignment(all, items, index as int) is None,
    {
        let candidate = &candidates[index];
        let item = &task.result_items[index];
        proof {
            assert(all[index as int] == candidate@);
            assert(items[index as int] == item@);
            assert(first_misalignment(all, items, index + 1) is Some ==> first_misalignment(
                all,
                items,
                all.len() as int,
            ) == first_misalignment(all, items, index + 1)) by {
                if first_misalignment(all, items, index + 1) is Some {
                    lemma_first_misalignment_stays(all, items, index + 1, all.len() as int);
                }
            }
        }
        if is_selected_before(candidates, index) {
            return Err(
                invalid_data(
                    "persisted Bilibili task candidates contain duplicate selection identities",
                ),
            );
        }
        if !item.selection_id.as_str().is_empty() || candidate.source_kind != item.source_kind
            || candidate.content_id != item.content_id || candidate.index != item.index {
            return Err(
                invalid_data(
                    "persisted Bilibili task candidate does not match its task result plan",
                ),
            );
        }
    }
    Ok(())
}

} // verus!
