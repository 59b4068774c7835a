//! Laws of requests: which of them share a task, and what a new task is.

use crate::active_key::{
    ascending_numbers, danmaku_format_keys, download_key, lemma_lists_numbers_unique, lists_numbers,
    playback_key, task_key,
};
use crate::identifiers::{random_id, random_with_prefix};
use crate::inner::checkpoint::checkpoint_of;
use crate::model::basics::{TaskKind, TaskState, Timestamp};
use crate::model::key::ActiveBilibiliTaskKeyView;
use crate::model::options::{
    BilibiliDownloadMode, BilibiliDownloadOptionsView, BilibiliPlaybackOptionsView,
    BilibiliSubtitleAiPolicy, BilibiliTaskSelectionView,
};
use crate::model::output::TaskOutputRecordView;
use crate::model::state::RegistryInnerView;
use crate::model::task::TaskView;
use crate::registry::BilibiliTaskRegistryView;
use crate::registry::commit::{PersistenceCommitOutcome, settlement_problem};
use crate::registry::creation::{
    DownloadCreation, creation_terms, download_request, download_task, playback_task, with_download,
    with_playback,
};
use crate::status::{Code, Status};
use crate::text::{ascii_lower, lemma_trimmed_idempotent, trimmed};
use vstd::prelude::*;

verus! {

/// What a download is asked for with; a request without options asks for nothing in particular.
pub open spec fn wishes(
    options: Option<BilibiliDownloadOptionsView>,
) -> BilibiliDownloadOptionsView {
    match options {
        Some(options) => options,
        None => BilibiliDownloadOptionsView {
            quality_preference: Seq::empty(),
            encoding_preference: Seq::empty(),
            prefer_tv_api: false,
            download_subtitles: false,
            download_danmaku: false,
            audio_language: Seq::empty(),
            subtitle_ai_policy: BilibiliSubtitleAiPolicy::Unspecified,
            download_cover: false,
            danmaku_formats: Seq::empty(),
            download_mode: BilibiliDownloadMode::Unspecified,
        },
    }
}

/// Two texts that say the same wish: white space around them and the case of their ASCII letters
/// make no difference.
pub open spec fn same_wish(left: Seq<char>, right: Seq<char>) -> bool {
    ascii_lower(trimmed(left)) == ascii_lower(trimmed(right))
}

/// Two requests for downloads that ask for the same.
pub open spec fn same_request(
    source: Seq<char>,
    options: Option<BilibiliDownloadOptionsView>,
    other_source: Seq<char>,
    other_options: Option<BilibiliDownloadOptionsView>,
) -> bool {
    let left = wishes(options);
    let right = wishes(other_options);
    &&& trimmed(source) == trimmed(other_source)
    &&& same_wish(left.quality_preference, right.quality_preference)
    &&& same_wish(left.encoding_preference, right.encoding_preference)
    &&& same_wish(left.audio_language, right.audio_language)
    &&& left.prefer_tv_api == right.prefer_tv_api
    &&& left.download_subtitles == right.download_subtitles
    &&& left.download_danmaku == right.download_danmaku
    &&& left.download_cover == right.download_cover
    &&& left.subtitle_ai_policy == right.subtitle_ai_policy || ((left.subtitle_ai_policy
        == BilibiliSubtitleAiPolicy::Include || left.subtitle_ai_policy
        == BilibiliSubtitleAiPolicy::Unspecified) && (right.subtitle_ai_policy
        == BilibiliSubtitleAiPolicy::Include || right.subtitle_ai_policy
        == BilibiliSubtitleAiPolicy::Unspecified))
    &&& forall|format: i32|
        format != 0 ==> (#[trigger] left.danmaku_formats.contains(format)
            <==> right.danmaku_formats.contains(format))
}

/// Two requests for downloads have the same key if, and only if, they ask for the same.
pub proof fn law_requests_share_a_key_if_they_ask_for_the_same(
    source: Seq<char>,
    options: Option<BilibiliDownloadOptionsView>,
    other_source: Seq<char>,
    other_options: Option<BilibiliDownloadOptionsView>,
)
    ensures
        download_key(source, options) == download_key(other_source, other_options)
            <==> same_request(source, options, other_source, other_options),
{
    let left = wishes(options);
    let right = wishes(other_options);
    lemma_nothing_asked();
    lemma_formats(left.danmaku_formats);
    lemma_formats(right.danmaku_formats);
    let a = danmaku_format_keys(left.danmaku_formats);
    let b = danmaku_format_keys(right.danmaku_formats);
    if same_request(source, options, other_source, other_options) {
        assert(left.danmaku_formats.to_set().remove(0) =~= right.danmaku_formats.to_set().remove(0));
        lemma_lists_numbers_unique(a, b, left.danmaku_formats.to_set().remove(0));
    }
    if a == b {
        assert forall|format: i32| format != 0 implies (#[trigger] left.danmaku_formats.contains(
            format,
        ) <==> right.danmaku_formats.contains(format)) by {
            assert(a.to_set().contains(format) == left.danmaku_formats.to_set().contains(format));
            assert(b.to_set().contains(format) == right.danmaku_formats.to_set().contains(format));
        }
    }
    assert(download_key(source, options).danmaku_formats == a);
    assert(download_key(other_source, other_options).danmaku_formats == b);
}

/// While a download is active, a request that asks for the same is answered with its task, and
/// one that asks for something else is not: it gets a task of its own, unless it would have been
/// answered with another one before.
pub proof fn law_only_the_same_request_shares_a_download(
    state: RegistryInnerView,
    source: Seq<char>,
    options: Option<BilibiliDownloadOptionsView>,
    id: Seq<char>,
    now: Timestamp,
    first: Result<DownloadCreation, Status>,
    task: TaskView,
    output: TaskOutputRecordView,
    other_source: Seq<char>,
    other_options: Option<BilibiliDownloadOptionsView>,
    other_id: Seq<char>,
    later: Timestamp,
    alone: Result<DownloadCreation, Status>,
    second: Result<DownloadCreation, Status>,
)
    requires
        !state.tasks_by_id.contains_key(id),
        forall|key: ActiveBilibiliTaskKeyView| #[trigger]
            state.active_task_ids_by_key.contains_key(key) ==> state.active_task_ids_by_key[key]
                != id,
        trimmed(other_source).len() > 0,
        download_request(state, source, options, id, now, first),
        download_request(state, other_source, other_options, other_id, later, alone),
        task.id == id,
        task.state == TaskState::Queued || task.state == TaskState::Running || task.state
            == TaskState::CancelRequested,
        first matches Ok(DownloadCreation::Draft(draft)) && download_request(
            with_download(state, task, draft.key@, draft.options.deep_view(), output),
            other_source,
            other_options,
            other_id,
            later,
            second,
        ),
    ensures
        same_request(source, options, other_source, other_options) ==> (second matches Ok(
            DownloadCreation::Existing(found),
        ) && found@ == task),
        !same_request(source, options, other_source, other_options) ==> match alone {
            Ok(DownloadCreation::Existing(before)) => second matches Ok(
                DownloadCreation::Existing(found),
            ) && found@ == before@,
            Ok(DownloadCreation::Draft(before)) => second matches Ok(
                DownloadCreation::Draft(draft),
            ) && draft.task@ == before.task@ && draft.task@.id == other_id,
            Err(_) => false,
        },
{
    law_requests_share_a_key_if_they_ask_for_the_same(
        trimmed(source),
        options,
        trimmed(other_source),
        other_options,
    );
    lemma_trimmed_idempotent(source);
    lemma_trimmed_idempotent(other_source);
}

/// A request without a source is refused, and no other one is.
pub proof fn law_only_requests_without_a_source_are_refused(
    state: RegistryInnerView,
    source: Seq<char>,
    options: Option<BilibiliDownloadOptionsView>,
    id: Seq<char>,
    now: Timestamp,
    result: Result<DownloadCreation, Status>,
)
    requires
        download_request(state, source, options, id, now, result),
    ensures
        result is Err <==> trimmed(source).len() == 0,
        result matches Err(status) ==> status@.code == Code::InvalidArgument,
{
}

/// A task on which nothing has been done.
pub open spec fn untouched(task: TaskView, now: Timestamp) -> bool {
    &&& task.title.len() == 0
    &&& task.downloaded_bytes == 0
    &&& task.total_bytes == 0
    &&& task.library_item_id.len() == 0
    &&& task.created_at == Some(now)
    &&& task.updated_at == Some(now)
    &&& task.finished_at is None
    &&& task.playback_source is None
    &&& task.playback_session is None
    &&& task.result_items.len() == 0
    &&& task.output_summary is None
}

/// A new download waits for a worker, and a new playback is being prepared.
pub proof fn law_new_tasks_are_untouched(
    id: Seq<char>,
    source: Seq<char>,
    selection: Option<BilibiliTaskSelectionView>,
    now: Timestamp,
)
    ensures
        ({
            let download = download_task(id, source, now);
            &&& download.id == id
            &&& download.kind == TaskKind::BilibiliDownload
            &&& download.state == TaskState::Queued
            &&& download.source == trimmed(source)
            &&& download.bilibili_selection is None
            &&& untouched(download, now)
        }),
        ({
            let playback = playback_task(id, source, selection, now);
            &&& playback.id == id
            &&& playback.kind == TaskKind::BilibiliProgressivePlayback
            &&& playback.state == TaskState::Preparing
            &&& playback.source == trimmed(source)
            &&& playback.bilibili_selection == selection
            &&& untouched(playback, now)
        }),
{
}

/// Registering a download puts it at the end of the queue, with its options, and has the news of it
/// told; registering a playback does not queue it. Neither changes any other task.
pub proof fn law_registering_adds_one_task(
    state: RegistryInnerView,
    task: TaskView,
    key: ActiveBilibiliTaskKeyView,
    options: Option<BilibiliDownloadOptionsView>,
    playback_options: Option<BilibiliPlaybackOptionsView>,
    output: TaskOutputRecordView,
    other: Seq<char>,
)
    requires
        other != task.id,
    ensures
        ({
            let after = with_download(state, task, key, options, output);
            &&& after.queued_task_ids.len() == state.queued_task_ids.len() + 1
            &&& after.queued_task_ids.last() == task.id
            &&& after.queued_task_ids.drop_last() == state.queued_task_ids
            &&& after.tasks_by_id.contains_key(task.id) && after.tasks_by_id[task.id] == task
            &&& after.outputs_by_task_id.contains_key(task.id)
                && after.outputs_by_task_id[task.id] == output
            &&& after.download_options_by_id.contains_key(task.id)
                && after.download_options_by_id[task.id] == options
            &&& after.pending_publications_by_id.contains_key(task.id)
                && after.pending_publications_by_id[task.id] == task
            &&& after.tasks_by_id.contains_key(other) <==> state.tasks_by_id.contains_key(other)
            &&& after.tasks_by_id[other] == state.tasks_by_id[other]
            &&& after.outputs_by_task_id[other] == state.outputs_by_task_id[other]
            &&& after.cancellation_flags == state.cancellation_flags
        }),
        ({
            let after = with_playback(state, task, playback_options, output);
            &&& after.queued_task_ids == state.queued_task_ids
            &&& after.active_task_ids_by_key == state.active_task_ids_by_key
            &&& after.tasks_by_id.contains_key(task.id) && after.tasks_by_id[task.id] == task
            &&& after.outputs_by_task_id.contains_key(task.id)
                && after.outputs_by_task_id[task.id] == output
            &&& after.playback_options_by_id.contains_key(task.id)
                && after.playback_options_by_id[task.id] == playback_options
            &&& after.planning_cancellations_by_id.contains_key(task.id)
            &&& after.pending_publications_by_id.contains_key(task.id)
                && after.pending_publications_by_id[task.id] == task
            &&& after.tasks_by_id.contains_key(other) <==> state.tasks_by_id.contains_key(other)
            &&& after.tasks_by_id[other] == state.tasks_by_id[other]
            &&& after.outputs_by_task_id[other] == state.outputs_by_task_id[other]
        }),
{
    assert(state.queued_task_ids.push(task.id).drop_last() =~= state.queued_task_ids);
}

/// Asking for nothing and saying nothing is the same.
proof fn lemma_nothing_asked()
    ensures
        ascii_lower(trimmed(Seq::empty())) == Seq::<char>::empty(),
        danmaku_format_keys(Seq::empty()) == Seq::<i32>::empty(),
{
    assert(ascii_lower(trimmed(Seq::empty())) =~= Seq::<char>::empty());
    lemma_formats(Seq::empty());
    let none = danmaku_format_keys(Seq::empty());
    if none.len() > 0 {
        assert(none.to_set().contains(none[0]));
        assert(Seq::<i32>::empty().to_set().contains(none[0]));
    }
    assert(none =~= Seq::<i32>::empty());
}

proof fn lemma_formats(values: Seq<i32>)
    ensures
        lists_numbers(danmaku_format_keys(values), values.to_set().remove(0)),
{
    let numbers = lemma_some_list(values);
    assert(lists_numbers(numbers, values.to_set().remove(0)));
}

proof fn lemma_some_list(values: Seq<i32>) -> (numbers: Seq<i32>)
    ensures
        lists_numbers(numbers, values.to_set().remove(0)),
    decreases values.len(),
{
    if values.len() == 0 {
        let numbers = Seq::<i32>::empty();
        assert(numbers.to_set() =~= values.to_set().remove(0));
        numbers
    } else {
        let shorter = lemma_some_list(values.drop_last());
        let last = values.last();
        assert forall|n: i32| values.contains(n) <==> values.drop_last().contains(n) || n
            == last by {
            if values.contains(n) {
                let i = values.index_of(n);
                if i < values.len() - 1 {
                    assert(values.drop_last()[i] == n);
                }
            }
            if values.drop_last().contains(n) {
                let i = values.drop_last().index_of(n);
                assert(values[i] == n);
            }
            assert(values[values.len() - 1] == last);
        }
        assert forall|n: i32| #[trigger] shorter.contains(n) <==> values.drop_last().contains(n) && n
            != 0 by {
            assert(shorter.to_set().contains(n)
                == values.drop_last().to_set().remove(0).contains(n));
        }
        if last == 0 || shorter.contains(last) {
            assert(shorter.to_set() =~= values.to_set().remove(0));
            shorter
        } else {
            let longer = lemma_inserted(shorter, last);
            assert(longer.to_set() =~= values.to_set().remove(0));
            longer
        }
    }
}

proof fn lemma_inserted(numbers: Seq<i32>, number: i32) -> (longer: Seq<i32>)
    requires
        ascending_numbers(numbers),
        !numbers.contains(number),
    ensures
        ascending_numbers(longer),
        forall|n: i32| longer.contains(n) <==> numbers.contains(n) || n == number,
    decreases numbers.len(),
{
    if numbers.len() == 0 || numbers.last() < number {
        let longer = numbers.push(number);
        assert forall|n: i32| longer.contains(n) <==> numbers.contains(n) || n == number by {
            lemma_pushed(numbers, number, n);
        }
        longer
    } else {
        let last = numbers.last();
        let rest = numbers.drop_last();
        assert(numbers[numbers.len() - 1] == last);
        if rest.contains(number) {
            let i = rest.index_of(number);
            assert(numbers[i] == number);
        }
        let shorter = lemma_inserted(rest, number);
        let longer = shorter.push(last);
        assert forall|i: int| 0 <= i < shorter.len() implies #[trigger] shorter[i] < last by {
            assert(shorter.contains(shorter[i]));
            if rest.contains(shorter[i]) {
                let j = rest.index_of(shorter[i]);
                assert(numbers[j] < numbers[numbers.len() - 1]);
            }
        }
        assert(rest.push(last) =~= numbers);
        assert forall|n: i32| longer.contains(n) <==> numbers.contains(n) || n == number by {
            lemma_pushed(shorter, last, n);
            lemma_pushed(rest, last, n);
        }
        longer
    }
}

proof fn lemma_pushed(numbers: Seq<i32>, number: i32, n: i32)
    ensures
        numbers.push(number).contains(n) <==> numbers.contains(n) || n == number,
{
    if numbers.push(number).contains(n) {
        let i = numbers.push(number).index_of(n);
        if i < numbers.len() {
            assert(numbers[i] == n);
        }
    }
    if numbers.contains(n) {
        let i = numbers.index_of(n);
        assert(numbers.push(number)[i] == n);
    }
    assert(numbers.push(number)[numbers.len() as int] == number);
}

/// A new task has to take effect, on disk where there is a file; if it does not, all is as before.
pub proof fn law_a_new_task_must_take_effect(
    registry: BilibiliTaskRegistryView,
    refusal: Seq<char>,
    outcome: PersistenceCommitOutcome,
)
    ensures
        ({
            let terms = creation_terms(registry, refusal);
            &&& terms.durability_required <==> registry.persistence is Some
            &&& registry.persistence is Some ==> terms.rollback == Some(
                checkpoint_of(registry.inner),
            )
            &&& registry.persistence is None ==> terms.rollback is None
            &&& !terms.require_durable_commit
            &&& terms.refusal == refusal
            &&& settlement_problem(terms, outcome) is Some <==> outcome
                == PersistenceCommitOutcome::Rejected || outcome
                == PersistenceCommitOutcome::Superseded
        }),
{
}

/// Two requests for playbacks have the same key if, and only if, they ask for the same source, the
/// same quality, encoding and language, and the same interface. No download has the key of a
/// playback.
pub proof fn law_playback_requests_share_a_key_if_they_ask_for_the_same(
    source: Seq<char>,
    options: BilibiliPlaybackOptionsView,
    other_source: Seq<char>,
    other_options: BilibiliPlaybackOptionsView,
    download_options: Option<BilibiliDownloadOptionsView>,
)
    ensures
        playback_key(source, Some(options)) == playback_key(other_source, Some(other_options))
            <==> trimmed(source) == trimmed(other_source) && same_wish(
            options.quality_preference,
            other_options.quality_preference,
        ) && same_wish(options.encoding_preference, other_options.encoding_preference) && same_wish(
            options.audio_language,
            other_options.audio_language,
        ) && options.prefer_tv_api == other_options.prefer_tv_api,
        playback_key(source, Some(options)) != download_key(other_source, download_options),
        playback_key(source, None) == playback_key(other_source, None) <==> trimmed(source)
            == trimmed(other_source),
{
}

/// A task is asked for by its source and its options, by those for playbacks if it is one and else
/// by those for downloads.
pub proof fn law_tasks_have_the_key_of_their_request(
    task: TaskView,
    options: Option<BilibiliDownloadOptionsView>,
    playback_options: Option<BilibiliPlaybackOptionsView>,
)
    ensures
        task.kind == TaskKind::BilibiliDownload ==> task_key(task, options, playback_options)
            == download_key(task.source, options),
        task.kind == TaskKind::BilibiliProgressivePlayback ==> task_key(
            task,
            options,
            playback_options,
        ) == playback_key(task.source, playback_options),
{
}

/// A new identifier is its prefix and thirty-two hexadecimal digits in small letters.
pub proof fn law_new_identifiers_are_made_of_digits(id: Seq<char>, prefix: Seq<char>, i: int)
    requires
        random_with_prefix(id, prefix),
    ensures
        id.len() == prefix.len() + 32,
        id.take(prefix.len() as int) == prefix,
        id[prefix.len() as int + 12] == '4',
        prefix.len() <= i < id.len() ==> 48 <= id[i] as int <= 57 || 97 <= id[i] as int <= 102,
{
    let text = choose|text: Seq<char>| #[trigger] random_id(text) && id == prefix + text;
    assert(id.take(prefix.len() as int) =~= prefix);
    if prefix.len() <= i < id.len() {
        assert(id[i] == text[i - prefix.len()]);
    }
}

} // verus!
