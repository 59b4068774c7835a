//! The key by which an active request is recognised.

use crate::model::basics::TaskKind;
use crate::model::options::BilibiliSubtitleAiPolicy;
use crate::plain::Plain;
use vstd::prelude::*;

verus! {

/// What two requests must have in common to be the same request.
#[derive(Debug, Default, PartialEq, Eq)]
pub struct ActiveBilibiliTaskKey {
    pub kind: TaskKind,
    pub source: String,
    pub quality_preference: String,
    pub encoding_preference: String,
    pub audio_language: String,
    pub prefer_tv_api: bool,
    pub download_subtitles: bool,
    pub download_danmaku: bool,
    pub subtitle_ai_policy: BilibiliSubtitleAiPolicy,
    pub download_cover: bool,
    pub danmaku_formats: Vec<i32>,
}

/// What a `ActiveBilibiliTaskKey` holds.
#[verifier::ext_equal]
pub struct ActiveBilibiliTaskKeyView {
    pub kind: TaskKind,
    pub source: Seq<char>,
    pub quality_preference: Seq<char>,
    pub encoding_preference: Seq<char>,
    pub audio_language: Seq<char>,
    pub prefer_tv_api: bool,
    pub download_subtitles: bool,
    pub download_danmaku: bool,
    pub subtitle_ai_policy: BilibiliSubtitleAiPolicy,
    pub download_cover: bool,
    pub danmaku_formats: Seq<i32>,
}

impl DeepView for ActiveBilibiliTaskKey {
    type V = ActiveBilibiliTaskKeyView;

    open spec fn deep_view(&self) -> ActiveBilibiliTaskKeyView {
        ActiveBilibiliTaskKeyView {
            kind: self.kind,
            source: self.source.deep_view(),
            quality_preference: self.quality_preference.deep_view(),
            encoding_preference: self.encoding_preference.deep_view(),
            audio_language: self.audio_language.deep_view(),
            prefer_tv_api: self.prefer_tv_api,
            download_subtitles: self.download_subtitles,
            download_danmaku: self.download_danmaku,
            subtitle_ai_policy: self.subtitle_ai_policy,
            download_cover: self.download_cover,
            danmaku_formats: self.danmaku_formats.deep_view(),
        }
    }
}

impl View for ActiveBilibiliTaskKey {
    type V = ActiveBilibiliTaskKeyView;

    #[verifier::inline]
    open spec fn view(&self) -> ActiveBilibiliTaskKeyView {
        self.deep_view()
    }
}

impl Plain for ActiveBilibiliTaskKey {
    fn duplicate(&self) -> (copy: Self) {
        ActiveBilibiliTaskKey {
            kind: self.kind,
            source: self.source.duplicate(),
            quality_preference: self.quality_preference.duplicate(),
            encoding_preference: self.encoding_preference.duplicate(),
            audio_language: self.audio_language.duplicate(),
            prefer_tv_api: self.prefer_tv_api,
            download_subtitles: self.download_subtitles,
            download_danmaku: self.download_danmaku,
            subtitle_ai_policy: self.subtitle_ai_policy,
            download_cover: self.download_cover,
            danmaku_formats: self.danmaku_formats.duplicate(),
        }
    }

    fn same_as(&self, other: &Self) -> (same: bool) {
        self.kind == other.kind
            && self.source.same_as(&other.source)
            && self.quality_preference.same_as(&other.quality_preference)
            && self.encoding_preference.same_as(&other.encoding_preference)
            && self.audio_language.same_as(&other.audio_language)
            && self.prefer_tv_api == other.prefer_tv_api
            && self.download_subtitles == other.download_subtitles
            && self.download_danmaku == other.download_danmaku
            && self.subtitle_ai_policy == other.subtitle_ai_policy
            && self.download_cover == other.download_cover
            && self.danmaku_formats.same_as(&other.danmaku_formats)
    }
}

impl Clone for ActiveBilibiliTaskKey {
    fn clone(&self) -> (copy: Self)
        ensures
            copy@ == self@,
    {
        self.duplicate()
    }
}

} // verus!
