//! When two requests are the same request.

use crate::id_set::lemma_take_to_set;
use crate::model::basics::TaskKind;
use crate::model::key::{ActiveBilibiliTaskKey, ActiveBilibiliTaskKeyView};
use crate::model::options::{
    BilibiliDownloadOptions, BilibiliDownloadOptionsView, BilibiliPlaybackOptions,
    BilibiliPlaybackOptionsView, BilibiliSubtitleAiPolicy,
};
use crate::model::task::{Task, TaskView};
use crate::text::{ascii_lower, normalize, normalize_option_string, trimmed};
use vstd::prelude::*;

verus! {

/// Asking for machine-made subtitles and not saying anything about them is the same.
pub open spec fn subtitle_ai_policy_key(value: BilibiliSubtitleAiPolicy) -> BilibiliSubtitleAiPolicy {
    if value == BilibiliSubtitleAiPolicy::Include {
        BilibiliSubtitleAiPolicy::Unspecified
    } else {
        value
    }
}

pub fn normalize_subtitle_ai_policy_key(
    value: BilibiliSubtitleAiPolicy,
) -> (key: BilibiliSubtitleAiPolicy)
    ensures
        key == subtitle_ai_policy_key(value),
{
    match value {
        BilibiliSubtitleAiPolicy::Include => BilibiliSubtitleAiPolicy::Unspecified,
        _ => value,
    }
}

pub open spec fn ascending_numbers(numbers: Seq<i32>) -> bool {
    forall|i: int, j: int| 0 <= i < j < numbers.len() ==> numbers[i] < numbers[j]
}

/// `numbers` lists exactly the members of `set`, ascending.
pub open spec fn lists_numbers(numbers: Seq<i32>, set: Set<i32>) -> bool {
    ascending_numbers(numbers) && numbers.to_set() == set
}

/// The formats that are asked for: the distinct numbers in `values` but zero, which asks for
/// nothing, ascending.
pub open spec fn danmaku_format_keys(values: Seq<i32>) -> Seq<i32> {
    choose|numbers: Seq<i32>| lists_numbers(numbers, values.to_set().remove(0))
}

/// There is only one such list.
pub proof fn lemma_lists_numbers_unique(left: Seq<i32>, right: Seq<i32>, set: Set<i32>)
    requires
        lists_numbers(left, set),
        lists_numbers(right, set),
    ensures
        left == right,
    decreases left.len(),
{
    if left.len() == 0 {
        if right.len() > 0 {
            assert(right.to_set().contains(right[0]));
            assert(left.contains(right[0]));
        }
        assert(left =~= right);
    } else {
        assert(left.to_set().contains(left[0]));
        assert(right.contains(left[0]));
        assert(right.to_set().contains(right[0]));
        assert(left.contains(right[0]));
        let in_right = right.index_of(left[0]);
        let in_left = left.index_of(right[0]);
        assert(left[0] == right[0]);
        let rest = set.remove(left[0]);
        assert forall|n: i32| left.skip(1).to_set().contains(n) <==> rest.contains(n) by {
            lemma_skip_first_number(left, n);
        }
        assert forall|n: i32| right.skip(1).to_set().contains(n) <==> rest.contains(n) by {
            lemma_skip_first_number(right, n);
        }
        assert(left.skip(1).to_set() =~= rest);
        assert(right.skip(1).to_set() =~= rest);
        lemma_lists_numbers_unique(left.skip(1), right.skip(1), rest);
        assert(left.skip(1).len() == right.skip(1).len());
        assert forall|i: int| 0 <= i < left.len() implies left[i] == right[i] by {
            if i > 0 {
                assert(left.skip(1)[i - 1] == right.skip(1)[i - 1]);
            }
        }
        assert(left =~= right);
    }
}

proof fn lemma_skip_first_number(numbers: Seq<i32>, n: i32)
    requires
        ascending_numbers(numbers),
        numbers.len() > 0,
    ensures
        numbers.skip(1).contains(n) <==> (numbers.contains(n) && n != numbers[0]),
{
    if numbers.skip(1).contains(n) {
        let i = numbers.skip(1).index_of(n);
        assert(numbers[i + 1] == n);
    }
    if numbers.contains(n) && n != numbers[0] {
        let i = numbers.index_of(n);
        assert(numbers.skip(1)[i - 1] == n);
    }
}

fn insert_number(numbers: &mut Vec<i32>, number: i32)
    requires
        ascending_numbers(old(numbers)@),
    ensures
        ascending_numbers(final(numbers)@),
        final(numbers)@.to_set() == old(numbers)@.to_set().insert(number),
{
    let ghost before = numbers@;
    let mut index: usize = 0;
    while index < numbers.len() && numbers[index] < number
        invariant
            numbers@ == before,
            index <= numbers.len(),
            forall|i: int| 0 <= i < index ==> before[i] < number,
        decreases numbers.len() - index,
    {
        index = index + 1;
    }
    if index < numbers.len() && numbers[index] == number {
        proof {
            assert(before[index as int] == number);
            assert(before.to_set().insert(number) =~= before.to_set());
        }
        return;
    }
    numbers.insert(index, number);
    proof {
        let after = numbers@;
        assert(after =~= before.insert(index as int, number));
        assert forall|n: i32| after.to_set().contains(n) <==> before.to_set().insert(
            number,
        ).contains(n) by {
            if after.contains(n) {
                let i = after.index_of(n);
                if i != index {
                    assert(before[if i < index { i } else { i - 1 }] == n);
                }
            }
            if before.contains(n) {
                let i = before.index_of(n);
                assert(after[if i < index { i } else { i + 1 }] == n);
            }
            assert(after[index as int] == number);
        }
        assert(after.to_set() =~= before.to_set().insert(number));
    }
}

pub fn normalize_danmaku_format_keys(values: &Vec<i32>) -> (keys: Vec<i32>)
    ensures
        keys@ == danmaku_format_keys(values@),
        lists_numbers(keys@, values@.to_set().remove(0)),
{
    let mut keys: Vec<i32> = Vec::new();
    proof {
        assert(keys@.to_set() =~= values@.take(0).to_set().remove(0));
    }
    for index in 0..values.len()
        invariant
            ascending_numbers(keys@),
            keys@.to_set() =~= values@.take(index as int).to_set().remove(0),
    {
        proof {
            lemma_take_to_set(values@, index as int);
        }
        if values[index] != 0 {
            insert_number(&mut keys, values[index]);
        }
    }
    proof {
        assert(values@.take(values@.len() as int) =~= values@);
        let set = values@.to_set().remove(0);
        assert(lists_numbers(keys@, set));
        lemma_lists_numbers_unique(keys@, danmaku_format_keys(values@), set);
    }
    keys
}

/// The key of a request that says nothing but its source.
pub open spec fn plain_key(kind: TaskKind, source: Seq<char>) -> ActiveBilibiliTaskKeyView {
    ActiveBilibiliTaskKeyView {
        kind,
        source: trimmed(source),
        quality_preference: Seq::empty(),
        encoding_preference: Seq::empty(),
        audio_language: Seq::empty(),
        prefer_tv_api: false,
        download_subtitles: false,
        download_danmaku: false,
        subtitle_ai_policy: BilibiliSubtitleAiPolicy::Unspecified,
        download_cover: false,
        danmaku_formats: Seq::empty(),
    }
}

pub open spec fn download_key(
    source: Seq<char>,
    options: Option<BilibiliDownloadOptionsView>,
) -> ActiveBilibiliTaskKeyView {
    let key = plain_key(TaskKind::BilibiliDownload, source);
    match options {
        Some(options) => ActiveBilibiliTaskKeyView {
            quality_preference: ascii_lower(trimmed(options.quality_preference)),
            encoding_preference: ascii_lower(trimmed(options.encoding_preference)),
            audio_language: ascii_lower(trimmed(options.audio_language)),
            prefer_tv_api: options.prefer_tv_api,
            download_subtitles: options.download_subtitles,
            download_danmaku: options.download_danmaku,
            subtitle_ai_policy: subtitle_ai_policy_key(options.subtitle_ai_policy),
            download_cover: options.download_cover,
            danmaku_formats: danmaku_format_keys(options.danmaku_formats),
            ..key
        },
        None => key,
    }
}

pub open spec fn playback_key(
    source: Seq<char>,
    options: Option<BilibiliPlaybackOptionsView>,
) -> ActiveBilibiliTaskKeyView {
    let key = plain_key(TaskKind::BilibiliProgressivePlayback, source);
    match options {
        Some(options) => ActiveBilibiliTaskKeyView {
            quality_preference: ascii_lower(trimmed(options.quality_preference)),
            encoding_preference: ascii_lower(trimmed(options.encoding_preference)),
            audio_language: ascii_lower(trimmed(options.audio_language)),
            prefer_tv_api: options.prefer_tv_api,
            ..key
        },
        None => key,
    }
}

impl ActiveBilibiliTaskKey {
    pub fn new(kind: TaskKind, source: &str) -> (key: Self)
        ensures
            key@ == plain_key(kind, source@),
    {
        ActiveBilibiliTaskKey {
            kind,
            source: normalize(source),
            quality_preference: String::new(),
            encoding_preference: String::new(),
            audio_language: String::new(),
            prefer_tv_api: false,
            download_subtitles: false,
            download_danmaku: false,
            subtitle_ai_policy: BilibiliSubtitleAiPolicy::Unspecified,
            download_cover: false,
            danmaku_formats: Vec::new(),
        }
    }

    pub fn download(source: &str, options: &Option<BilibiliDownloadOptions>) -> (key: Self)
        ensures
            key@ == download_key(source@, options.deep_view()),
    {
        let mut key = Self::new(TaskKind::BilibiliDownload, source);
        if let Some(options) = options {
            key.quality_preference = normalize_option_string(options.quality_preference.as_str());
            key.encoding_preference = normalize_option_string(options.encoding_preference.as_str());
            key.audio_language = normalize_option_string(options.audio_language.as_str());
            key.prefer_tv_api = options.prefer_tv_api;
            key.download_subtitles = options.download_subtitles;
            key.download_danmaku = options.download_danmaku;
            key.subtitle_ai_policy = normalize_subtitle_ai_policy_key(options.subtitle_ai_policy);
            key.download_cover = options.download_cover;
            key.danmaku_formats = normalize_danmaku_format_keys(&options.danmaku_formats);
            proof {
                assert(key.danmaku_formats.deep_view() =~= key.danmaku_formats@);
                assert(options.danmaku_formats.deep_view() =~= options.danmaku_formats@);
            }
        }
        key
    }

    pub fn playback(source: &str, options: &Option<BilibiliPlaybackOptions>) -> (key: Self)
        ensures
            key@ == playback_key(source@, options.deep_view()),
    {
        let mut key = Self::new(TaskKind::BilibiliProgressivePlayback, source);
        if let Some(options) = options {
            key.quality_preference = normalize_option_string(options.quality_preference.as_str());
            key.encoding_preference = normalize_option_string(options.encoding_preference.as_str());
            key.audio_language = normalize_option_string(options.audio_language.as_str());
            key.prefer_tv_api = options.prefer_tv_api;
        }
        key
    }
}

/// The key of the request that made `task`.
pub open spec fn task_key(
    task: TaskView,
    download_options: Option<BilibiliDownloadOptionsView>,
    playback_options: Option<BilibiliPlaybackOptionsView>,
) -> ActiveBilibiliTaskKeyView {
    if task.is_playback() {
        playback_key(task.source, playback_options)
    } else {
        download_key(task.source, download_options)
    }
}

pub fn active_key_for_task(
    task: &Task,
    download_options: &Option<BilibiliDownloadOptions>,
    playback_options: &Option<BilibiliPlaybackOptions>,
) -> (key: ActiveBilibiliTaskKey)
    ensures
        key@ == task_key(task@, download_options.deep_view(), playback_options.deep_view()),
{
    if task.kind == TaskKind::BilibiliProgressivePlayback {
        ActiveBilibiliTaskKey::playback(task.source.as_str(), playback_options)
    } else {
        ActiveBilibiliTaskKey::download(task.source.as_str(), download_options)
    }
}

} // verus!
