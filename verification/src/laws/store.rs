//! Laws of the stored state: what is accepted, what is refused, and what is written down.

use crate::model::basics::{TaskKind, TaskState};
use crate::model::options::{
    BilibiliApiMode, BilibiliDownloadMode, BilibiliDownloadOptionsView, BilibiliRequestContextView,
};
use crate::model::output::{
    CacheResourceRefView, TaskArtifactView, TaskOutputRecordView, TaskResourceRecordView,
    TaskResultView,
};
use crate::model::playback::BilibiliPlaybackSessionView;
use crate::model::record::{BilibiliTaskCandidateRecordView, PersistedTaskRecordView};
use crate::model::task::{BilibiliTaskResultItemView, TaskView};
use crate::store::budget::{PersistedBudget, entries_read, list_problem, spent};
use crate::store::candidates::{
    alignment_problem, candidates_problem, context_problem, execution_problem,
    first_candidate_problem, first_misalignment, sound_candidate,
};
use crate::store::errors::StoreLimits;
use crate::store::intents::{
    PersistedFileCleanupIntentView, PersistedFileCleanupKind, first_intent_problem, holds_control,
    intent_problem, intents_problem, is_control, path_names, utf8_len,
};
use crate::store::paths::{ProbedDirectory, chain_paths, chain_problem, first_found, remembered};
use crate::store::records::{
    PersistedTaskFileView, PersistedTaskOutputView, artifact_total, completed_results,
    current_context, current_options, derived_output, details_session, file_of, file_problem,
    first_details_problem, first_item_problem, loaded_output, output_problem, record_len_problem,
    record_problem, stored_output,
};
use crate::store::sequence::{
    SeenRecords, clashes_at, first_clash, first_identity_problem, identities_problem,
    identity_problem, next_problem, resource_total, resource_total_problem, seen_after, seen_of,
};
use crate::store::snapshot::{
    closed_entries, entries, entry_problem, framed, header_problem, indented, size_problem,
};
use crate::text::{ascii_lower, trimmed};
use crate::visible_output::resource_ids;
use vstd::prelude::*;
use vstd::string::StringSliceAdditionalSpecFns;

verus! {

/// A candidate has all that it must have.
pub open spec fn complete_candidate(candidate: BilibiliTaskCandidateRecordView) -> bool {
    &&& trimmed(candidate.selection_id).len() > 0
    &&& trimmed(candidate.title).len() > 0
    &&& trimmed(candidate.source_kind).len() > 0
    &&& trimmed(candidate.content_id).len() > 0
    &&& candidate.index > 0
    &&& candidate.identity_sound
    &&& candidate.identity.bvid matches Some(bvid) ==> trimmed(bvid) == bvid
}

/// Candidates are accepted if each has a selection, a title, a source and a content, counts from
/// one and is soundly identified.
pub proof fn law_complete_candidates_are_accepted(
    candidates: Seq<BilibiliTaskCandidateRecordView>,
)
    ensures
        candidates_problem(candidates) is None <==> forall|i: int|
            0 <= i < candidates.len() ==> complete_candidate(#[trigger] candidates[i]),
{
    lemma_candidates(candidates, candidates.len() as int);
}

proof fn lemma_candidates(candidates: Seq<BilibiliTaskCandidateRecordView>, count: int)
    requires
        0 <= count <= candidates.len(),
    ensures
        first_candidate_problem(candidates, count) is None <==> forall|i: int|
            0 <= i < count ==> complete_candidate(#[trigger] candidates[i]),
    decreases count,
{
    if count > 0 {
        lemma_candidates(candidates, count - 1);
        assert(complete_candidate(candidates[count - 1])
            <==> sound_candidate(candidates[count - 1]));
    }
}

/// The candidate at each place stands for the result at that place, and no two candidates are the
/// same selection.
pub open spec fn aligned(
    candidates: Seq<BilibiliTaskCandidateRecordView>,
    items: Seq<BilibiliTaskResultItemView>,
    count: int,
) -> bool {
    &&& forall|i: int|
        0 <= i < count ==> {
            let candidate = #[trigger] candidates[i];
            &&& items[i].selection_id.len() == 0
            &&& candidate.source_kind == items[i].source_kind
            &&& candidate.content_id == items[i].content_id
            &&& candidate.index == items[i].index
        }
    &&& forall|i: int, j: int|
        0 <= i < j < count ==> (#[trigger] candidates[i]).selection_id != (
        #[trigger] candidates[j]).selection_id
}

/// Candidates go with a task without a selection of its own, one for each of its results and equal
/// to it, and no two for the same selection.
pub proof fn law_candidates_stand_for_the_results(
    task: TaskView,
    candidates: Seq<BilibiliTaskCandidateRecordView>,
)
    ensures
        alignment_problem(task, candidates) is None <==> candidates.len() == 0 || ((task.kind
            == TaskKind::BilibiliDownload || task.kind == TaskKind::BilibiliProgressivePlayback)
            && task.bilibili_selection is None && candidates.len() == task.result_items.len()
            && aligned(candidates, task.result_items, candidates.len() as int)),
{
    if candidates.len() == task.result_items.len() {
        lemma_aligned(candidates, task.result_items, candidates.len() as int);
    }
}

proof fn lemma_aligned(
    candidates: Seq<BilibiliTaskCandidateRecordView>,
    items: Seq<BilibiliTaskResultItemView>,
    count: int,
)
    requires
        0 <= count <= candidates.len(),
        candidates.len() == items.len(),
    ensures
        first_misalignment(candidates, items, count) is None <==> aligned(
            candidates,
            items,
            count,
        ),
    decreases count,
{
    if count > 0 {
        lemma_aligned(candidates, items, count - 1);
        let last = candidates[count - 1];
        if aligned(candidates, items, count) {
            assert forall|i: int| 0 <= i < count - 1 implies (
            #[trigger] candidates[i]).selection_id != last.selection_id by {}
        }
        if first_misalignment(candidates, items, count) is None {
            assert forall|i: int, j: int| 0 <= i < j < count implies (
            #[trigger] candidates[i]).selection_id != (#[trigger] candidates[j]).selection_id by {}
        }
    }
}

/// An accepted download that is still to be carried out says what is to be downloaded and by which
/// interface. Nothing is asked of any other task, nor before the fourth schema.
pub proof fn law_executable_downloads_say_how(
    schema_version: u32,
    task: TaskView,
    options: Option<BilibiliDownloadOptionsView>,
    context: Option<BilibiliRequestContextView>,
    candidates: Seq<BilibiliTaskCandidateRecordView>,
)
    ensures
        execution_problem(schema_version, task, options, context, candidates) is None <==> (
        schema_version >= 4 && candidates.len() > 0 && task.kind == TaskKind::BilibiliDownload && (
        task.state == TaskState::Queued || task.state == TaskState::Running) ==> (
        options matches Some(options) && options.download_mode != BilibiliDownloadMode::Unspecified
            && !(options.download_mode is Unrecognized)) && (context matches Some(context)
            && context.api_mode != BilibiliApiMode::Unspecified && !(
        context.api_mode is Unrecognized))),
{
}

/// A request context is accepted if its interface is known and its profile has no white space
/// around it and takes at most 256 bytes.
pub proof fn law_sound_contexts_are_accepted(context: Option<BilibiliRequestContextView>)
    ensures
        context_problem(context) is None <==> (context matches Some(context) ==> !(
        context.api_mode is Unrecognized) && trimmed(context.credential_profile_id)
            == context.credential_profile_id && utf8_len(context.credential_profile_id) <= 256),
{
}

/// A download from before the fourth schema that is still to be carried out gets all of what it may
/// download where it did not say, and the interface that its options prefer. Others stay as they
/// are.
pub proof fn law_old_downloads_are_migrated(file: PersistedTaskFileView, schema_version: u32)
    ensures
        ({
            let options = current_options(file, schema_version);
            let context = current_context(file, schema_version);
            if schema_version < 4 && file.bilibili_candidates.len() > 0 && file.task.kind
                == TaskKind::BilibiliDownload && (file.task.state == TaskState::Queued
                || file.task.state == TaskState::Running) {
                &&& options matches Some(migrated) && match file.options {
                    Some(given) => migrated == (BilibiliDownloadOptionsView {
                        download_mode: migrated.download_mode,
                        ..given
                    }) && migrated.download_mode == if given.download_mode
                        == BilibiliDownloadMode::Unspecified {
                        BilibiliDownloadMode::All
                    } else {
                        given.download_mode
                    },
                    None => migrated.download_mode == BilibiliDownloadMode::All
                        && !migrated.prefer_tv_api && !migrated.download_subtitles
                        && !migrated.download_danmaku && !migrated.download_cover
                        && migrated.quality_preference.len() == 0
                        && migrated.encoding_preference.len() == 0
                        && migrated.audio_language.len() == 0 && migrated.danmaku_formats.len()
                        == 0,
                }
                &&& context matches Some(migrated) && migrated.credential_profile_id.len() == 0
                    && migrated.api_mode == if file.options matches Some(given)
                    && given.prefer_tv_api {
                    BilibiliApiMode::Tv
                } else {
                    BilibiliApiMode::Web
                }
            } else {
                options == file.options && context == file.request_context
            }
        }),
{
}

/// A file is accepted if it holds nothing that its schema does not know, and what it holds is
/// sound: its candidates, its download mode, its context, how it is to be carried out, how its
/// candidates stand for its results, and from the second schema on its output.
pub proof fn law_sound_files_are_accepted(file: PersistedTaskFileView, schema_version: u32)
    ensures
        file_problem(file, schema_version) is None ==> {
            &&& schema_version < 3 ==> file.bilibili_candidates.len() == 0
            &&& schema_version < 4 ==> file.request_context is None
            &&& forall|i: int|
                0 <= i < file.bilibili_candidates.len() ==> complete_candidate(
                    #[trigger] file.bilibili_candidates[i],
                )
            &&& file.bilibili_candidates.len() > 0 ==> file.bilibili_candidates.len()
                == file.task.result_items.len()
            &&& schema_version > 1 ==> file.has_output
            &&& file.bilibili_candidates.len() > 0 && file.task.kind == TaskKind::BilibiliDownload
                && (file.task.state == TaskState::Queued || file.task.state == TaskState::Running)
                ==> (current_options(file, schema_version) matches Some(options)
                && options.download_mode != BilibiliDownloadMode::Unspecified && !(
            options.download_mode is Unrecognized)) && (current_context(
                file,
                schema_version,
            ) matches Some(context) && context.api_mode != BilibiliApiMode::Unspecified)
        },
        file.bilibili_candidates.len() == 0 && file.request_context is None && (file.has_output
            || schema_version <= 1) ==> file_problem(file, schema_version) is None,
{
    law_complete_candidates_are_accepted(file.bilibili_candidates);
    law_candidates_stand_for_the_results(file.task, file.bilibili_candidates);
    law_old_downloads_are_migrated(file, schema_version);
}

/// The variants of a session are not too many.
pub open spec fn few_variants(session: Option<BilibiliPlaybackSessionView>) -> bool {
    session matches Some(session) ==> session.variants.len() <= 10_000
}

/// The details of a result hold no session with too many variants.
pub open spec fn few_details(result: TaskResultView) -> bool {
    result.provider_details matches Some(details) ==> (details.bilibili matches Some(bilibili)
        ==> few_variants(bilibili.playback_session))
}

proof fn lemma_items_len(items: Seq<BilibiliTaskResultItemView>, count: int)
    requires
        0 <= count <= items.len(),
    ensures
        first_item_problem(items, count) is None <==> forall|i: int|
            0 <= i < count ==> few_variants((#[trigger] items[i]).playback_session),
    decreases count,
{
    if count > 0 {
        lemma_items_len(items, count - 1);
    }
}

proof fn lemma_details_len(results: Seq<TaskResultView>, count: int)
    requires
        0 <= count <= results.len(),
    ensures
        first_details_problem(results, count) is None <==> forall|i: int|
            0 <= i < count ==> few_details(#[trigger] results[i]),
    decreases count,
{
    if count > 0 {
        lemma_details_len(results, count - 1);
        assert(few_details(results[count - 1]) <==> few_variants(
            details_session(results[count - 1]),
        ));
    }
}

/// A record is small enough if each of its lists is: its results, its selections, its candidates,
/// its formats, the variants of its sessions, and the results, resources and artifacts of its
/// output.
pub proof fn law_small_records_are_accepted(record: PersistedTaskRecordView, limits: StoreLimits)
    requires
        limits.max_task_artifacts < usize::MAX,
    ensures
        record_len_problem(record, limits) is None <==> {
            let output = stored_output(record.output);
            &&& record.task.result_items.len() <= limits.max_task_results
            &&& record.task.bilibili_selection matches Some(selection)
                ==> selection.selection_ids.len() <= limits.max_task_results
            &&& record.bilibili_candidates.len() <= limits.max_task_candidates
            &&& record.options matches Some(options) ==> options.danmaku_formats.len() <= 16
            &&& few_variants(record.task.playback_session)
            &&& forall|i: int|
                0 <= i < record.task.result_items.len() ==> few_variants(
                    (#[trigger] record.task.result_items[i]).playback_session,
                )
            &&& output.results.len() <= limits.max_task_results
            &&& output.resources.len() <= limits.max_task_resources
            &&& artifact_total(output.results, output.results.len() as int)
                <= limits.max_task_artifacts
            &&& forall|i: int|
                0 <= i < output.results.len() ==> few_details(#[trigger] output.results[i])
        },
{
    let output = stored_output(record.output);
    lemma_items_len(record.task.result_items, record.task.result_items.len() as int);
    lemma_details_len(output.results, output.results.len() as int);
}

/// Artifacts are counted over all results.
pub proof fn law_artifacts_are_counted(results: Seq<TaskResultView>, more: TaskResultView)
    ensures
        artifact_total(results.push(more), results.len() as int + 1) == artifact_total(
            results,
            results.len() as int,
        ) + more.artifacts.len(),
        artifact_total(results, 0) == 0,
{
    lemma_artifact_prefix(results, more, results.len() as int);
}

proof fn lemma_artifact_prefix(results: Seq<TaskResultView>, more: TaskResultView, count: int)
    requires
        0 <= count <= results.len(),
    ensures
        artifact_total(results.push(more), count) == artifact_total(results, count),
    decreases count,
{
    if count > 0 {
        lemma_artifact_prefix(results, more, count - 1);
        assert(results.push(more)[count - 1] == results[count - 1]);
    }
}

/// An output is written down as it is, but without where its resources can be fetched, and without
/// its results where these can be derived from its task.
pub proof fn law_outputs_are_written_down(output: TaskOutputRecordView, i: int, j: int)
    ensures
        ({
            let stored = stored_output(output);
            &&& stored.revision == output.revision
            &&& stored.snapshot_id == output.snapshot_id
            &&& stored.primary_result_id == output.primary_result_id
            &&& stored.legacy_managed == output.legacy_managed
            &&& output.legacy_managed ==> stored.results.len() == 0
            &&& !output.legacy_managed ==> stored.results.len() == output.results.len()
            &&& stored.resources.len() == output.resources.len()
            &&& 0 <= i < output.resources.len() ==> {
                let resource = stored.resources[i].resource;
                &&& resource.uri.len() == 0
                &&& output.resources[i].resource
                    == (CacheResourceRefView {
                    uri: output.resources[i].resource.uri,
                    ..resource
                })
            }
            &&& !output.legacy_managed && 0 <= i < output.results.len() ==> {
                let result = stored.results[i];
                &&& result.artifacts.len() == output.results[i].artifacts.len()
                &&& output.results[i] == (TaskResultView {
                    artifacts: output.results[i].artifacts,
                    ..result
                })
                &&& 0 <= j < output.results[i].artifacts.len() ==> {
                    let given = output.results[i].artifacts[j];
                    let artifact = result.artifacts[j];
                    &&& given == (TaskArtifactView {
                        resource: given.resource,
                        ..artifact
                    })
                    &&& artifact.resource is Some <==> given.resource is Some
                    &&& artifact.resource matches Some(resource) ==> resource.uri.len() == 0
                        && given.resource->0 == (CacheResourceRefView {
                        uri: given.resource->0.uri,
                        ..resource
                    })
                }
            }
        }),
{
}

/// What is read of an output is what is stored, but for results that can be derived from its task:
/// of such an output only derived results are kept, and it may neither own resources nor say
/// anything else than what is derived.
pub proof fn law_outputs_are_read(
    stored: PersistedTaskOutputView,
    derived: Seq<TaskResultView>,
)
    ensures
        ({
            let loaded = loaded_output(stored, derived);
            &&& loaded.revision == stored.revision
            &&& loaded.snapshot_id == stored.snapshot_id
            &&& loaded.primary_result_id == stored.primary_result_id
            &&& loaded.resources == stored.resources
            &&& loaded.legacy_managed == stored.legacy_managed
            &&& stored.legacy_managed ==> loaded.results == derived
            &&& !stored.legacy_managed ==> loaded.results == stored.results
        }),
        !stored.legacy_managed ==> output_problem(stored, derived) is None,
        stored.legacy_managed && stored.resources.len() > 0 ==> output_problem(
            stored,
            derived,
        ) is Some,
        stored.legacy_managed && stored.resources.len() == 0 && (stored.results.len() == 0
            || stored.results == derived) ==> output_problem(stored, derived) is None,
        stored.legacy_managed && stored.results.len() > 0 && stored.results.len() != derived.len()
            ==> output_problem(stored, derived) is Some,
{
    if stored.results == derived {
        assert(completed_results(stored.results, derived) =~= derived);
    }
    if stored.results.len() != derived.len() {
        assert(completed_results(stored.results, derived).len() != derived.len());
    }
}

/// The output of a state that holds none is derived from its task, and names no result as the
/// first.
pub proof fn law_missing_outputs_are_derived(derived: TaskOutputRecordView)
    ensures
        derived_output(derived).revision == derived.revision,
        derived_output(derived).snapshot_id == derived.snapshot_id,
        derived_output(derived).results == derived.results,
        derived_output(derived).resources == derived.resources,
        derived_output(derived).legacy_managed == derived.legacy_managed,
        derived_output(derived).primary_result_id.len() == 0,
{
}

/// The names on a path are what stands between its strokes.
pub proof fn law_paths_are_cut_at_strokes(before: Seq<char>, after: Seq<char>, name: Seq<char>)
    requires
        !name.contains('/'),
    ensures
        path_names(name) == seq![name],
        path_names(before + seq!['/'] + after) == path_names(before) + path_names(after),
{
    lemma_one_name(name);
    lemma_cut(before, after);
}

proof fn lemma_one_name(name: Seq<char>)
    requires
        !name.contains('/'),
    ensures
        path_names(name) == seq![name],
    decreases name.len(),
{
    if name.len() > 0 {
        let rest = name.drop_last();
        assert(!rest.contains('/')) by {
            if rest.contains('/') {
                let i = rest.index_of('/');
                assert(name[i] == '/');
            }
        }
        assert(name[name.len() - 1] == name.last());
        assert(name.last() != '/') by {
            if name.last() == '/' {
                assert(name.contains('/'));
            }
        }
        lemma_one_name(rest);
        assert(rest.push(name.last()) =~= name);
        assert(path_names(name) =~= seq![name]);
    } else {
        assert(name =~= Seq::<char>::empty());
    }
}

proof fn lemma_names_exist(path: Seq<char>)
    ensures
        path_names(path).len() > 0,
    decreases path.len(),
{
    if path.len() > 0 {
        lemma_names_exist(path.drop_last());
    }
}

proof fn lemma_cut(before: Seq<char>, after: Seq<char>)
    ensures
        path_names(before + seq!['/'] + after) == path_names(before) + path_names(after),
    decreases after.len(),
{
    let whole = before + seq!['/'] + after;
    if after.len() == 0 {
        assert(whole.drop_last() =~= before);
        assert(whole.last() == '/');
        assert(path_names(whole) =~= path_names(before) + path_names(after));
    } else {
        let shorter = after.drop_last();
        lemma_cut(before, shorter);
        lemma_names_exist(shorter);
        assert(whole.drop_last() =~= before + seq!['/'] + shorter);
        assert(whole.last() == after.last());
        assert(path_names(whole) =~= path_names(before) + path_names(after));
    }
}

/// An intent may be carried out: its owner has a name without white space around it and without
/// control characters, in at most 8192 bytes; and its path, in at most 4096 bytes, leads down only.
/// A directory bears the name of its owner. In the storage that the server keeps for itself only
/// the owner's directory where outputs are staged may be deleted.
pub open spec fn may_be_deleted(intent: PersistedFileCleanupIntentView) -> bool {
    let owner = intent.owner_id;
    let path = intent.relative_path;
    let names = path_names(path);
    let internal = ascii_lower(names[0]) == ".tvos-net-player"@;
    &&& owner.len() > 0
    &&& trimmed(owner) == owner
    &&& utf8_len(owner) <= 8192
    &&& forall|i: int|
        0 <= i < owner.len() ==> (#[trigger] owner[i]) as int >= 0x20 && !(0x7f <= owner[i] as int
            <= 0x9f)
    &&& path.len() > 0
    &&& utf8_len(path) <= 4096
    &&& forall|i: int| 0 <= i < path.len() ==> (#[trigger] path[i]) as int != 0
    &&& forall|i: int|
        0 <= i < names.len() ==> (#[trigger] names[i]).len() > 0 && names[i] != "."@ && names[i]
            != ".."@
    &&& match intent.kind {
        PersistedFileCleanupKind::BilibiliOwnedOutputDirectory => names.last() == owner && (internal
            ==> names.len() == 3 && names[0] == ".tvos-net-player"@ && names[1]
            == "bbdown-staging"@),
        _ => !internal,
    }
}

/// Intents are accepted if each may be carried out, none stands twice and there are at most 100000.
pub proof fn law_harmless_intents_are_accepted(intents: Seq<PersistedFileCleanupIntentView>)
    ensures
        intents_problem(intents) is None <==> intents.len() <= 100_000 && (forall|i: int|
            0 <= i < intents.len() ==> may_be_deleted(#[trigger] intents[i])) && (forall|
            i: int,
            j: int,
        |
            0 <= i < j < intents.len() ==> #[trigger] intents[i] != #[trigger] intents[j]),
{
    lemma_intents(intents, intents.len() as int);
}

proof fn lemma_intent(intent: PersistedFileCleanupIntentView)
    ensures
        intent_problem(intent) is None <==> may_be_deleted(intent),
{
    let owner = intent.owner_id;
    let path = intent.relative_path;
    if path.contains('\0') {
        let i = path.index_of('\0');
        assert(path[i] as int == 0);
    }
    if !holds_control(owner) {
        assert forall|i: int| 0 <= i < owner.len() implies (#[trigger] owner[i]) as int >= 0x20
            && !(0x7f <= owner[i] as int <= 0x9f) by {
            assert(!is_control(owner[i]));
        }
    } else {
        let i = choose|i: int|
            0 <= i < owner.len() && is_control(#[trigger] owner[i]);
        assert(!(owner[i] as int >= 0x20 && !(0x7f <= owner[i] as int <= 0x9f)));
    }
    if !path.contains('\0') {
        assert forall|i: int| 0 <= i < path.len() implies (#[trigger] path[i]) as int != 0 by {
            if path[i] as int == 0 {
                assert(path[i] == '\0');
            }
        }
    }
}

proof fn lemma_intents(intents: Seq<PersistedFileCleanupIntentView>, count: int)
    requires
        0 <= count <= intents.len(),
    ensures
        first_intent_problem(intents, count) is None <==> (forall|i: int|
            0 <= i < count ==> may_be_deleted(#[trigger] intents[i])) && (forall|i: int, j: int|
            0 <= i < j < count ==> #[trigger] intents[i] != #[trigger] intents[j]),
    decreases count,
{
    if count > 0 {
        lemma_intents(intents, count - 1);
        let last = intents[count - 1];
        let earlier = intents.take(count - 1);
        lemma_intent(last);
        if earlier.contains(last) {
            let i = earlier.index_of(last);
            assert(intents[i] == last);
        } else {
            assert forall|i: int| 0 <= i < count - 1 implies #[trigger] intents[i] != last by {
                assert(earlier[i] == intents[i]);
            }
        }
    }
}

/// Two records that can be told apart: by the task, whatever white space is around its name, by the
/// snapshot of the output and by every resource.
pub open spec fn told_apart(left: PersistedTaskRecordView, right: PersistedTaskRecordView) -> bool {
    &&& trimmed(left.task.id) != trimmed(right.task.id)
    &&& left.output.snapshot_id != right.output.snapshot_id
    &&& forall|i: int, j: int|
        0 <= i < left.output.resources.len() && 0 <= j < right.output.resources.len() ==> (
        #[trigger] left.output.resources[i]).resource.id != (
        #[trigger] right.output.resources[j]).resource.id
}

/// The resources of an output can be told apart.
pub open spec fn own_names(resources: Seq<TaskResourceRecordView>) -> bool {
    forall|i: int, j: int|
        0 <= i < j < resources.len() ==> (#[trigger] resources[i]).resource.id != (
        #[trigger] resources[j]).resource.id
}

/// Records are accepted together if, and only if, all of them and all of their resources can be
/// told apart.
pub proof fn law_records_must_be_told_apart(records: Seq<PersistedTaskRecordView>)
    ensures
        identities_problem(records) is None <==> (forall|i: int|
            0 <= i < records.len() ==> own_names((#[trigger] records[i]).output.resources)) && (
        forall|i: int, j: int|
            0 <= i < j < records.len() ==> told_apart(
                #[trigger] records[i],
                #[trigger] records[j],
            )),
{
    lemma_identities(records, records.len() as int);
}

proof fn lemma_clash(seen: Set<Seq<char>>, resources: Seq<TaskResourceRecordView>, start: int)
    requires
        0 <= start <= resources.len(),
    ensures
        start <= first_clash(seen, resources, start) <= resources.len(),
        first_clash(seen, resources, start) == resources.len() <==> forall|i: int|
            start <= i < resources.len() ==> !clashes_at(seen, resources, i),
    decreases resources.len() - start,
{
    if start < resources.len() && !clashes_at(seen, resources, start) {
        lemma_clash(seen, resources, start + 1);
    }
}

proof fn lemma_no_clash(seen: Set<Seq<char>>, resources: Seq<TaskResourceRecordView>)
    ensures
        first_clash(seen, resources, 0) == resources.len() <==> own_names(resources) && forall|
            i: int,
        |
            0 <= i < resources.len() ==> !seen.contains((#[trigger] resources[i]).resource.id),
        first_clash(seen, resources, 0) <= resources.len(),
{
    lemma_clash(seen, resources, 0);
    if own_names(resources) && forall|i: int|
        0 <= i < resources.len() ==> !seen.contains((#[trigger] resources[i]).resource.id) {
        assert forall|i: int| 0 <= i < resources.len() implies !clashes_at(seen, resources, i) by {
            let earlier = resources.take(i);
            if resource_ids(earlier).contains(resources[i].resource.id) {
                let j = choose|j: int|
                    0 <= j < earlier.len() && (#[trigger] earlier[j]).resource.id
                        == resources[i].resource.id;
                assert(resources[j] == earlier[j]);
            }
        }
    }
    if forall|i: int| 0 <= i < resources.len() ==> !clashes_at(seen, resources, i) {
        assert forall|i: int| 0 <= i < resources.len() implies !seen.contains(
            (#[trigger] resources[i]).resource.id,
        ) by {
            assert(!clashes_at(seen, resources, i));
        }
        assert forall|i: int, j: int| 0 <= i < j < resources.len() implies (
        #[trigger] resources[i]).resource.id != (#[trigger] resources[j]).resource.id by {
            assert(!clashes_at(seen, resources, j));
            assert(resources.take(j)[i] == resources[i]);
        }
    }
}

proof fn lemma_seen(records: Seq<PersistedTaskRecordView>, count: int, id: Seq<char>)
    requires
        0 <= count <= records.len(),
    ensures
        seen_of(records, count).task_ids.contains(id) <==> exists|i: int|
            0 <= i < count && trimmed((#[trigger] records[i]).task.id) == id,
        seen_of(records, count).snapshot_ids.contains(id) <==> exists|i: int|
            0 <= i < count && (#[trigger] records[i]).output.snapshot_id == id,
        seen_of(records, count).resource_ids.contains(id) <==> exists|i: int|
            0 <= i < count && resource_ids((#[trigger] records[i]).output.resources).contains(id),
    decreases count,
{
    if count > 0 {
        lemma_seen(records, count - 1, id);
        let before = seen_of(records, count - 1);
        let last = records[count - 1];
        let after = seen_of(records, count);
        if after.task_ids.contains(id) && before.task_ids.contains(id) {
            let i = choose|i: int|
                0 <= i < count - 1 && trimmed((#[trigger] records[i]).task.id) == id;
            assert(trimmed(records[i].task.id) == id);
        } else if after.task_ids.contains(id) {
            assert(trimmed(records[count - 1].task.id) == id);
        }
        if after.snapshot_ids.contains(id) && before.snapshot_ids.contains(id) {
            let i = choose|i: int|
                0 <= i < count - 1 && (#[trigger] records[i]).output.snapshot_id == id;
            assert(records[i].output.snapshot_id == id);
        } else if after.snapshot_ids.contains(id) {
            assert(records[count - 1].output.snapshot_id == id);
        }
        if after.resource_ids.contains(id) && before.resource_ids.contains(id) {
            let i = choose|i: int|
                0 <= i < count - 1 && resource_ids(
                    (#[trigger] records[i]).output.resources,
                ).contains(id);
            assert(resource_ids(records[i].output.resources).contains(id));
        } else if after.resource_ids.contains(id) {
            assert(resource_ids(records[count - 1].output.resources).contains(id));
        }
    }
}

proof fn lemma_identity(records: Seq<PersistedTaskRecordView>, count: int)
    requires
        0 < count <= records.len(),
    ensures
        identity_problem(seen_of(records, count - 1), records[count - 1]) is None <==> own_names(
            records[count - 1].output.resources,
        ) && forall|i: int|
            0 <= i < count - 1 ==> told_apart(#[trigger] records[i], records[count - 1]),
{
    let last = records[count - 1];
    let seen = seen_of(records, count - 1);
    let resources = last.output.resources;
    lemma_seen(records, count - 1, trimmed(last.task.id));
    lemma_seen(records, count - 1, last.output.snapshot_id);
    lemma_no_clash(seen.resource_ids, resources);
    if identity_problem(seen, last) is None {
        assert forall|i: int| 0 <= i < count - 1 implies told_apart(#[trigger] records[i], last) by {
            let earlier = records[i];
            assert forall|a: int, b: int|
                0 <= a < earlier.output.resources.len() && 0 <= b < resources.len() implies (
            #[trigger] earlier.output.resources[a]).resource.id != (
            #[trigger] resources[b]).resource.id by {
                let id = resources[b].resource.id;
                lemma_seen(records, count - 1, id);
                assert(!seen.resource_ids.contains(id));
                if earlier.output.resources[a].resource.id == id {
                    assert(resource_ids(earlier.output.resources).contains(id));
                    assert(resource_ids(records[i].output.resources).contains(id));
                }
            }
        }
    }
    if own_names(resources) && forall|i: int|
        0 <= i < count - 1 ==> told_apart(#[trigger] records[i], last) {
        if seen.task_ids.contains(trimmed(last.task.id)) {
            let i = choose|i: int|
                0 <= i < count - 1 && trimmed((#[trigger] records[i]).task.id) == trimmed(
                    last.task.id,
                );
            assert(told_apart(records[i], last));
        }
        if seen.snapshot_ids.contains(last.output.snapshot_id) {
            let i = choose|i: int|
                0 <= i < count - 1 && (#[trigger] records[i]).output.snapshot_id
                    == last.output.snapshot_id;
            assert(told_apart(records[i], last));
        }
        assert forall|b: int| 0 <= b < resources.len() implies !seen.resource_ids.contains(
            (#[trigger] resources[b]).resource.id,
        ) by {
            let id = resources[b].resource.id;
            lemma_seen(records, count - 1, id);
            if seen.resource_ids.contains(id) {
                let i = choose|i: int|
                    0 <= i < count - 1 && resource_ids(
                        (#[trigger] records[i]).output.resources,
                    ).contains(id);
                let earlier = records[i].output.resources;
                let a = choose|a: int|
                    0 <= a < earlier.len() && (#[trigger] earlier[a]).resource.id == id;
                assert(told_apart(records[i], last));
                assert(records[i].output.resources[a].resource.id != last.output.resources[b].resource.id);
            }
        }
    }
}

proof fn lemma_identities(records: Seq<PersistedTaskRecordView>, count: int)
    requires
        0 <= count <= records.len(),
    ensures
        first_identity_problem(records, count) is None <==> (forall|i: int|
            0 <= i < count ==> own_names((#[trigger] records[i]).output.resources)) && (forall|
            i: int,
            j: int,
        |
            0 <= i < j < count ==> told_apart(#[trigger] records[i], #[trigger] records[j])),
    decreases count,
{
    if count > 0 {
        lemma_identities(records, count - 1);
        lemma_identity(records, count);
    }
}

/// Resources are counted over all records, and no more may be registered than there is room for.
pub proof fn law_resources_are_counted(
    records: Seq<PersistedTaskRecordView>,
    more: PersistedTaskRecordView,
    limit: nat,
)
    requires
        limit < usize::MAX,
    ensures
        resource_total(records, 0) == 0,
        resource_total(records.push(more), records.len() as int + 1) == resource_total(
            records,
            records.len() as int,
        ) + more.output.resources.len(),
        resource_total_problem(records, limit) is None <==> resource_total(
            records,
            records.len() as int,
        ) <= limit,
{
    lemma_resource_prefix(records, more, records.len() as int);
}

proof fn lemma_resource_prefix(
    records: Seq<PersistedTaskRecordView>,
    more: PersistedTaskRecordView,
    count: int,
)
    requires
        0 <= count <= records.len(),
    ensures
        resource_total(records.push(more), count) == resource_total(records, count),
    decreases count,
{
    if count > 0 {
        lemma_resource_prefix(records, more, count - 1);
        assert(records.push(more)[count - 1] == records[count - 1]);
    }
}

/// A record may be written after others if there are not too many tasks, candidates or resources
/// with it, it is sound in itself, and it can be told apart from those before.
pub proof fn law_what_may_be_written_next(
    seen: SeenRecords,
    record: PersistedTaskRecordView,
    limits: StoreLimits,
)
    requires
        seen.task_count < usize::MAX,
        seen.resource_count + record.output.resources.len() <= usize::MAX,
    ensures
        next_problem(seen, record, limits) is None <==> {
            &&& seen.task_count + 1 <= 10_000
            &&& record.bilibili_candidates.len() <= limits.max_task_candidates
            &&& record_problem(record) is None
            &&& seen.resource_count + record.output.resources.len()
                <= limits.max_registered_task_resources
            &&& !seen.task_ids.contains(trimmed(record.task.id))
            &&& !seen.snapshot_ids.contains(record.output.snapshot_id)
            &&& own_names(record.output.resources)
            &&& forall|i: int|
                0 <= i < record.output.resources.len() ==> !seen.resource_ids.contains(
                    (#[trigger] record.output.resources[i]).resource.id,
                )
        },
        entry_problem(seen, record, limits) is None <==> next_problem(seen, record, limits) is None
            && record_len_problem(record, limits) is None,
{
    lemma_no_clash(seen.resource_ids, record.output.resources);
}

/// A record is sound if its context is, it says how it is to be carried out, its candidates stand
/// for its results and they have what they must have.
pub proof fn law_sound_records(record: PersistedTaskRecordView)
    ensures
        record_problem(record) is None <==> {
            let candidates = record.bilibili_candidates;
            &&& context_problem(record.request_context) is None
            &&& candidates.len() > 0 && record.task.kind == TaskKind::BilibiliDownload && (
            record.task.state == TaskState::Queued || record.task.state == TaskState::Running) ==> (
            record.options matches Some(options) && options.download_mode
                != BilibiliDownloadMode::Unspecified && !(options.download_mode is Unrecognized))
                && (record.request_context matches Some(context) && context.api_mode
                != BilibiliApiMode::Unspecified && !(context.api_mode is Unrecognized))
            &&& candidates.len() > 0 ==> (record.task.kind == TaskKind::BilibiliDownload
                || record.task.kind == TaskKind::BilibiliProgressivePlayback)
                && record.task.bilibili_selection is None && candidates.len()
                == record.task.result_items.len() && aligned(
                candidates,
                record.task.result_items,
                candidates.len() as int,
            )
            &&& forall|i: int|
                0 <= i < candidates.len() ==> complete_candidate(#[trigger] candidates[i])
        },
{
    law_complete_candidates_are_accepted(record.bilibili_candidates);
    law_candidates_stand_for_the_results(record.task, record.bilibili_candidates);
}

/// The schemas from the first to the fifth can be read, and only the fifth knows of intents.
pub proof fn law_known_schemas_are_read(
    schema_version: u32,
    intents: Seq<PersistedFileCleanupIntentView>,
)
    ensures
        header_problem(schema_version, intents) is None <==> 1 <= schema_version <= 5 && (
        schema_version < 5 ==> intents.len() == 0) && intents_problem(intents) is None,
{
    if intents.len() == 0 {
        law_harmless_intents_are_accepted(intents);
    }
}

/// Indenting leaves every byte but puts so many spaces behind each line feed.
pub proof fn law_indenting_moves_lines(before: Seq<u8>, after: Seq<u8>, width: nat, byte: u8)
    ensures
        indented(before + after, width) == indented(before, width) + indented(after, width),
        byte != 10 ==> indented(seq![byte], width) == seq![byte],
        indented(seq![10u8], width) == seq![10u8] + Seq::new(width, |i: int| 32u8),
        indented(Seq::empty(), width) == Seq::<u8>::empty(),
{
    lemma_indented(before, after, width);
    assert(seq![byte].drop_last() =~= Seq::<u8>::empty());
    assert(seq![10u8].drop_last() =~= Seq::<u8>::empty());
    reveal_with_fuel(indented, 2);
    assert(Seq::<u8>::empty().push(byte) =~= seq![byte]);
    assert(Seq::<u8>::empty().push(10u8) =~= seq![10u8]);
}

proof fn lemma_indented(before: Seq<u8>, after: Seq<u8>, width: nat)
    ensures
        indented(before + after, width) == indented(before, width) + indented(after, width),
    decreases after.len(),
{
    let whole = before + after;
    if after.len() == 0 {
        assert(whole =~= before);
        assert(indented(after, width) =~= Seq::<u8>::empty());
        assert(indented(before, width) + indented(after, width) =~= indented(before, width));
    } else {
        lemma_indented(before, after.drop_last(), width);
        assert(whole.drop_last() =~= before + after.drop_last());
        assert(whole.last() == after.last());
        assert(indented(whole, width) =~= indented(before, width) + indented(after, width));
    }
}

/// Each entry is written behind those before it, on lines of its own.
pub proof fn law_entries_are_written_in_order(values: Seq<Seq<u8>>, value: Seq<u8>)
    ensures
        entries(Seq::<Seq<u8>>::empty()) == Seq::<u8>::empty(),
        values.len() == 0 ==> entries(values.push(value)) == "\n    ".spec_bytes() + indented(
            value,
            4,
        ),
        values.len() > 0 ==> entries(values.push(value)) == entries(values)
            + ",\n    ".spec_bytes() + indented(value, 4),
        values.len() == 0 ==> closed_entries(values) == Seq::<u8>::empty(),
        values.len() > 0 ==> closed_entries(values) == entries(values) + "\n  ".spec_bytes(),
{
    assert(values.push(value).drop_last() =~= values);
    assert(values.push(value).last() == value);
    if values.len() == 0 {
        assert(entries(values) =~= Seq::<u8>::empty());
        assert(entries(values.push(value)) =~= "\n    ".spec_bytes() + indented(value, 4));
    }
}

/// A stored state holds its schema, its tasks and its intents, in this order.
pub proof fn law_states_are_framed(tasks: Seq<Seq<u8>>, intents: Seq<Seq<u8>>)
    ensures
        framed(tasks, intents) == "{\n  \"schema_version\": 5,\n  \"tasks\": [".spec_bytes()
            + closed_entries(tasks) + "],\n  \"file_cleanup_intents\": [".spec_bytes()
            + closed_entries(intents) + "]\n}\n".spec_bytes(),
{
}

/// A list is read if it is no longer than it may be and, where a budget is shared, than what is
/// left of it; what is read is taken off the budget.
pub proof fn law_lists_are_read_within_their_budget(
    budget: PersistedBudget,
    count: nat,
    list_limit: nat,
)
    ensures
        list_problem(budget, count, list_limit) is None <==> count <= list_limit && (
        budget.state matches Some(state) ==> count <= state.remaining),
        list_problem(budget, count, list_limit) is None ==> entries_read(budget, count, list_limit)
            == count,
        entries_read(budget, count, list_limit) <= count,
        entries_read(budget, count, list_limit) <= list_limit,
        budget.state matches Some(state) ==> entries_read(budget, count, list_limit)
            <= state.remaining && (spent(
            budget,
            entries_read(budget, count, list_limit) as int,
        ).state matches Some(left) && left.remaining == state.remaining - entries_read(
            budget,
            count,
            list_limit,
        ) && left.limit == state.limit),
{
}

/// The first directory of which there is something decides: if it is a directory its ancestors can
/// be synchronised; and where there is none at all they cannot.
pub proof fn law_the_first_existing_directory_decides<E>(
    parent: Seq<char>,
    ancestors: Seq<ProbedDirectory<E>>,
)
    ensures
        chain_problem(parent, ancestors) is None <==> exists|index: int|
            0 <= index < ancestors.len() && !((#[trigger] ancestors[index]).probe is Nothing) && !(
            ancestors[index].probe is SomethingElse) && !(ancestors[index].probe is Failed)
                && forall|earlier: int|
                0 <= earlier < index ==> (#[trigger] ancestors[earlier]).probe is Nothing,
{
    lemma_first_found(ancestors, 0);
    if exists|index: int|
        0 <= index < ancestors.len() && !((#[trigger] ancestors[index]).probe is Nothing) && !(
        ancestors[index].probe is SomethingElse) && !(ancestors[index].probe is Failed) && forall|
            earlier: int,
        |
            0 <= earlier < index ==> (#[trigger] ancestors[earlier]).probe is Nothing {
        let index = choose|index: int|
            0 <= index < ancestors.len() && !((#[trigger] ancestors[index]).probe is Nothing) && !(
            ancestors[index].probe is SomethingElse) && !(ancestors[index].probe is Failed)
                && forall|earlier: int|
                0 <= earlier < index ==> (#[trigger] ancestors[earlier]).probe is Nothing;
        let found = first_found(ancestors, 0)->0;
        if found < index {
            assert(ancestors[found].probe is Nothing);
        }
        if index < found {
            assert(ancestors[index].probe is Nothing);
        }
    }
    if chain_problem(parent, ancestors) is None {
        let found = first_found(ancestors, 0)->0;
        assert(!(ancestors[found].probe is Nothing));
    }
}

proof fn lemma_first_found<E>(ancestors: Seq<ProbedDirectory<E>>, start: int)
    requires
        0 <= start <= ancestors.len(),
    ensures
        match first_found(ancestors, start) {
            Some(index) => start <= index < ancestors.len() && !(ancestors[index].probe is Nothing)
                && forall|earlier: int|
                start <= earlier < index ==> (#[trigger] ancestors[earlier]).probe is Nothing,
            None => forall|index: int|
                start <= index < ancestors.len() ==> (#[trigger] ancestors[index]).probe is Nothing,
        },
    decreases ancestors.len() - start,
{
    if start < ancestors.len() && ancestors[start].probe is Nothing {
        lemma_first_found(ancestors, start + 1);
    }
}

/// What is to be synchronised is remembered: all that was and all that is added, each once.
pub proof fn law_pending_directories_are_remembered(
    pending: Seq<Seq<char>>,
    added: Seq<Seq<char>>,
    path: Seq<char>,
)
    requires
        pending.no_duplicates(),
    ensures
        remembered(pending, added).no_duplicates(),
        remembered(pending, added).contains(path) <==> pending.contains(path) || added.contains(
            path,
        ),
        remembered(pending, added).len() >= pending.len(),
        remembered(pending, added).take(pending.len() as int) == pending,
    decreases added.len(),
{
    if added.len() == 0 {
        assert(pending.take(pending.len() as int) =~= pending);
    } else {
        let shorter = added.drop_last();
        law_pending_directories_are_remembered(pending, shorter, path);
        law_pending_directories_are_remembered(pending, shorter, added.last());
        let rest = remembered(pending, shorter);
        let all = remembered(pending, added);
        assert(all.take(pending.len() as int) =~= rest.take(pending.len() as int));
        assert(added[added.len() - 1] == added.last());
        if shorter.contains(path) {
            let i = shorter.index_of(path);
            assert(added[i] == path);
        }
        if added.contains(path) && path != added.last() {
            let i = added.index_of(path);
            assert(shorter[i] == path);
        }
        if rest.contains(path) {
            let i = rest.index_of(path);
            assert(all[i] == path);
        }
        if !rest.contains(added.last()) {
            assert(all[rest.len() as int] == added.last());
            if all.contains(path) {
                let i = all.index_of(path);
                if i < rest.len() {
                    assert(rest[i] == path);
                }
            }
        }
    }
}

/// What does not fit is refused.
pub proof fn law_what_fits_is_accepted(fits: bool)
    ensures
        size_problem(fits) is None <==> fits,
{
}

/// A record is written down whole: its task, its options, its context, its candidates and its
/// output.
pub proof fn law_records_are_written_down_whole(record: PersistedTaskRecordView)
    ensures
        file_of(record).task == record.task,
        file_of(record).options == record.options,
        file_of(record).playback_options == record.playback_options,
        file_of(record).request_context == record.request_context,
        file_of(record).bilibili_candidates == record.bilibili_candidates,
        file_of(record).has_output,
{
}

/// So many records have been seen as there were, with so many resources.
pub proof fn law_records_are_counted(records: Seq<PersistedTaskRecordView>, count: int)
    requires
        0 <= count <= records.len(),
        count <= usize::MAX,
        resource_total(records, count) <= usize::MAX,
    ensures
        seen_of(records, count).task_count == count,
        seen_of(records, count).resource_count == resource_total(records, count),
    decreases count,
{
    if count > 0 {
        law_records_are_counted(records, count - 1);
    }
}

/// Of a record that is refused its task is counted all the same; its resources are if it is refused
/// for them or for its names, and its names are remembered only up to the first that was seen
/// before.
pub proof fn law_what_is_seen_of_a_record(
    seen: SeenRecords,
    record: PersistedTaskRecordView,
    limits: StoreLimits,
)
    requires
        seen.task_count < usize::MAX,
        seen.resource_count + record.output.resources.len() <= usize::MAX,
    ensures
        ({
            let after = seen_after(seen, record, limits);
            &&& after.task_count == seen.task_count + 1
            &&& record_problem(record) is Some ==> after.resource_count == seen.resource_count
                && after.task_ids == seen.task_ids && after.snapshot_ids == seen.snapshot_ids
                && after.resource_ids == seen.resource_ids
            &&& next_problem(seen, record, limits) is None ==> after.resource_count
                == seen.resource_count + record.output.resources.len() && after.task_ids.contains(
                trimmed(record.task.id),
            ) && after.snapshot_ids.contains(record.output.snapshot_id) && forall|i: int|
                0 <= i < record.output.resources.len() ==> after.resource_ids.contains(
                    (#[trigger] record.output.resources[i]).resource.id,
                )
            &&& seen.task_ids.subset_of(after.task_ids)
            &&& seen.snapshot_ids.subset_of(after.snapshot_ids)
            &&& seen.resource_ids.subset_of(after.resource_ids)
            &&& after.task_ids.subset_of(seen.task_ids.insert(trimmed(record.task.id)))
            &&& seen.task_ids.contains(trimmed(record.task.id)) ==> after.snapshot_ids
                == seen.snapshot_ids && after.resource_ids == seen.resource_ids
        }),
{
    let resources = record.output.resources;
    lemma_no_clash(seen.resource_ids, resources);
    if next_problem(seen, record, limits) is None {
        let after = seen_after(seen, record, limits);
        assert(resources.take(resources.len() as int) =~= resources);
        assert forall|i: int| 0 <= i < resources.len() implies after.resource_ids.contains(
            (#[trigger] resources[i]).resource.id,
        ) by {
            assert(resource_ids(resources).contains(resources[i].resource.id));
        }
    }
}

/// The directories to be synchronised are those that were probed, in their order, where the empty
/// path stands for the current directory.
pub proof fn law_probed_directories_are_synchronised<E>(
    ancestors: Seq<ProbedDirectory<E>>,
    count: int,
    index: int,
)
    requires
        0 <= index < count <= ancestors.len(),
    ensures
        chain_paths(ancestors, count).len() == count,
        ancestors[index].path@.len() > 0 ==> chain_paths(ancestors, count)[index]
            == ancestors[index].path@,
        ancestors[index].path@.len() == 0 ==> chain_paths(ancestors, count)[index] == "."@,
{
}

/// What a stored result leaves out of its subject and its details is taken from the derived one,
/// and what it says stands.
pub proof fn law_what_older_states_left_out_is_derived(
    stored: Seq<TaskResultView>,
    derived: Seq<TaskResultView>,
    index: int,
)
    requires
        0 <= index < stored.len(),
    ensures
        completed_results(stored, derived).len() == stored.len(),
        index >= derived.len() ==> completed_results(stored, derived)[index] == stored[index],
        index < derived.len() ==> {
            let result = completed_results(stored, derived)[index];
            &&& stored[index] == (TaskResultView {
                subject: stored[index].subject,
                provider_details: stored[index].provider_details,
                ..result
            })
            &&& stored[index].subject is Some ==> result.subject == stored[index].subject
            &&& stored[index].subject is None ==> result.subject == derived[index].subject
            &&& stored[index].provider_details is Some ==> result.provider_details
                == stored[index].provider_details
            &&& stored[index].provider_details is None ==> result.provider_details
                == derived[index].provider_details
        },
{
}

} // verus!
