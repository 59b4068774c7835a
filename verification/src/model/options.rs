//! What a request asks for.

use crate::plain::Plain;
use vstd::prelude::*;

verus! {

/// Which machine-made subtitles a download takes along.
#[derive(Clone, Copy, Debug, Default, PartialEq, Eq, Structural)]
pub enum BilibiliSubtitleAiPolicy {
    #[default]
    Unspecified,
    Include,
    PreferNonAi,
    Other(i32),
}

impl DeepView for BilibiliSubtitleAiPolicy {
    type V = BilibiliSubtitleAiPolicy;

    open spec fn deep_view(&self) -> BilibiliSubtitleAiPolicy {
        *self
    }
}

impl Plain for BilibiliSubtitleAiPolicy {
    fn duplicate(&self) -> (copy: Self) {
        *self
    }

    fn same_as(&self, other: &Self) -> (same: bool) {
        *self == *other
    }
}

/// What a download fetches. `Other` is a mode that the protocol defines and that is not named here;
/// `Unrecognized` is a number that the protocol does not define.
#[derive(Clone, Copy, Debug, Default, PartialEq, Eq, Structural)]
pub enum BilibiliDownloadMode {
    #[default]
    Unspecified,
    All,
    Other(i32),
    Unrecognized(i32),
}

impl DeepView for BilibiliDownloadMode {
    type V = BilibiliDownloadMode;

    open spec fn deep_view(&self) -> BilibiliDownloadMode {
        *self
    }
}

impl Plain for BilibiliDownloadMode {
    fn duplicate(&self) -> (copy: Self) {
        *self
    }

    fn same_as(&self, other: &Self) -> (same: bool) {
        *self == *other
    }
}

/// Which provider interface a request goes through. `Other` is a mode that the protocol defines and
/// that is not named here; `Unrecognized` is a number that the protocol does not define.
#[derive(Clone, Copy, Debug, Default, PartialEq, Eq, Structural)]
pub enum BilibiliApiMode {
    #[default]
    Unspecified,
    Web,
    Tv,
    Other(i32),
    Unrecognized(i32),
}

impl DeepView for BilibiliApiMode {
    type V = BilibiliApiMode;

    open spec fn deep_view(&self) -> BilibiliApiMode {
        *self
    }
}

impl Plain for BilibiliApiMode {
    fn duplicate(&self) -> (copy: Self) {
        *self
    }

    fn same_as(&self, other: &Self) -> (same: bool) {
        *self == *other
    }
}

/// How a playback session picks its stream.
#[derive(Clone, Copy, Debug, Default, PartialEq, Eq, Structural)]
pub struct BilibiliPlaybackPolicy {
    pub transcoding_preference: i32,
    pub compatible_variant_preference: i32,
    pub weak_network_preference: i32,
}

impl DeepView for BilibiliPlaybackPolicy {
    type V = BilibiliPlaybackPolicy;

    open spec fn deep_view(&self) -> BilibiliPlaybackPolicy {
        *self
    }
}

impl Plain for BilibiliPlaybackPolicy {
    fn duplicate(&self) -> (copy: Self) {
        *self
    }

    fn same_as(&self, other: &Self) -> (same: bool) {
        *self == *other
    }
}

/// The choices of a download request.
#[derive(Debug, Default, PartialEq, Eq)]
pub struct BilibiliDownloadOptions {
    pub quality_preference: String,
    pub encoding_preference: String,
    pub prefer_tv_api: bool,
    pub download_subtitles: bool,
    pub download_danmaku: bool,
    pub audio_language: String,
    pub subtitle_ai_policy: BilibiliSubtitleAiPolicy,
    pub download_cover: bool,
    pub danmaku_formats: Vec<i32>,
    pub download_mode: BilibiliDownloadMode,
}

/// What a `BilibiliDownloadOptions` holds.
#[verifier::ext_equal]
pub struct BilibiliDownloadOptionsView {
    pub quality_preference: Seq<char>,
    pub encoding_preference: Seq<char>,
    pub prefer_tv_api: bool,
    pub download_subtitles: bool,
    pub download_danmaku: bool,
    pub audio_language: Seq<char>,
    pub subtitle_ai_policy: BilibiliSubtitleAiPolicy,
    pub download_cover: bool,
    pub danmaku_formats: Seq<i32>,
    pub download_mode: BilibiliDownloadMode,
}

impl DeepView for BilibiliDownloadOptions {
    type V = BilibiliDownloadOptionsView;

    open spec fn deep_view(&self) -> BilibiliDownloadOptionsView {
        BilibiliDownloadOptionsView {
            quality_preference: self.quality_preference.deep_view(),
            encoding_preference: self.encoding_preference.deep_view(),
            prefer_tv_api: self.prefer_tv_api,
            download_subtitles: self.download_subtitles,
            download_danmaku: self.download_danmaku,
            audio_language: self.audio_language.deep_view(),
            subtitle_ai_policy: self.subtitle_ai_policy,
            download_cover: self.download_cover,
            danmaku_formats: self.danmaku_formats.deep_view(),
            download_mode: self.download_mode,
        }
    }
}

impl View for BilibiliDownloadOptions {
    type V = BilibiliDownloadOptionsView;

    #[verifier::inline]
    open spec fn view(&self) -> BilibiliDownloadOptionsView {
        self.deep_view()
    }
}

impl Plain for BilibiliDownloadOptions {
    fn duplicate(&self) -> (copy: Self) {
        BilibiliDownloadOptions {
            quality_preference: self.quality_preference.duplicate(),
            encoding_preference: self.encoding_preference.duplicate(),
            prefer_tv_api: self.prefer_tv_api,
            download_subtitles: self.download_subtitles,
            download_danmaku: self.download_danmaku,
            audio_language: self.audio_language.duplicate(),
            subtitle_ai_policy: self.subtitle_ai_policy,
            download_cover: self.download_cover,
            danmaku_formats: self.danmaku_formats.duplicate(),
            download_mode: self.download_mode,
        }
    }

    fn same_as(&self, other: &Self) -> (same: bool) {
        self.quality_preference.same_as(&other.quality_preference)
            && self.encoding_preference.same_as(&other.encoding_preference)
            && self.prefer_tv_api == other.prefer_tv_api
            && self.download_subtitles == other.download_subtitles
            && self.download_danmaku == other.download_danmaku
            && self.audio_language.same_as(&other.audio_language)
            && self.subtitle_ai_policy == other.subtitle_ai_policy
            && self.download_cover == other.download_cover
            && self.danmaku_formats.same_as(&other.danmaku_formats)
            && self.download_mode == other.download_mode
    }
}

impl Clone for BilibiliDownloadOptions {
    fn clone(&self) -> (copy: Self)
        ensures
            copy@ == self@,
    {
        self.duplicate()
    }
}

/// The choices of a playback request.
#[derive(Debug, Default, PartialEq, Eq)]
pub struct BilibiliPlaybackOptions {
    pub quality_preference: String,
    pub encoding_preference: String,
    pub prefer_tv_api: bool,
    pub audio_language: String,
    pub playback_policy: Option<BilibiliPlaybackPolicy>,
}

/// What a `BilibiliPlaybackOptions` holds.
#[verifier::ext_equal]
pub struct BilibiliPlaybackOptionsView {
    pub quality_preference: Seq<char>,
    pub encoding_preference: Seq<char>,
    pub prefer_tv_api: bool,
    pub audio_language: Seq<char>,
    pub playback_policy: Option<BilibiliPlaybackPolicy>,
}

impl DeepView for BilibiliPlaybackOptions {
    type V = BilibiliPlaybackOptionsView;

    open spec fn deep_view(&self) -> BilibiliPlaybackOptionsView {
        BilibiliPlaybackOptionsView {
            quality_preference: self.quality_preference.deep_view(),
            encoding_preference: self.encoding_preference.deep_view(),
            prefer_tv_api: self.prefer_tv_api,
            audio_language: self.audio_language.deep_view(),
            playback_policy: self.playback_policy.deep_view(),
        }
    }
}

impl View for BilibiliPlaybackOptions {
    type V = BilibiliPlaybackOptionsView;

    #[verifier::inline]
    open spec fn view(&self) -> BilibiliPlaybackOptionsView {
        self.deep_view()
    }
}

impl Plain for BilibiliPlaybackOptions {
    fn duplicate(&self) -> (copy: Self) {
        BilibiliPlaybackOptions {
            quality_preference: self.quality_preference.duplicate(),
            encoding_preference: self.encoding_preference.duplicate(),
            prefer_tv_api: self.prefer_tv_api,
            audio_language: self.audio_language.duplicate(),
            playback_policy: self.playback_policy.duplicate(),
        }
    }

    fn same_as(&self, other: &Self) -> (same: bool) {
        self.quality_preference.same_as(&other.quality_preference)
            && self.encoding_preference.same_as(&other.encoding_preference)
            && self.prefer_tv_api == other.prefer_tv_api
            && self.audio_language.same_as(&other.audio_language)
            && self.playback_policy.same_as(&other.playback_policy)
    }
}

impl Clone for BilibiliPlaybackOptions {
    fn clone(&self) -> (copy: Self)
        ensures
            copy@ == self@,
    {
        self.duplicate()
    }
}

/// On whose behalf, and through which interface, a request runs.
#[derive(Debug, Default, PartialEq, Eq)]
pub struct BilibiliRequestContext {
    pub api_mode: BilibiliApiMode,
    pub credential_profile_id: String,
}

/// What a `BilibiliRequestContext` holds.
#[verifier::ext_equal]
pub struct BilibiliRequestContextView {
    pub api_mode: BilibiliApiMode,
    pub credential_profile_id: Seq<char>,
}

impl DeepView for BilibiliRequestContext {
    type V = BilibiliRequestContextView;

    open spec fn deep_view(&self) -> BilibiliRequestContextView {
        BilibiliRequestContextView {
            api_mode: self.api_mode,
            credential_profile_id: self.credential_profile_id.deep_view(),
        }
    }
}

impl View for BilibiliRequestContext {
    type V = BilibiliRequestContextView;

    #[verifier::inline]
    open spec fn view(&self) -> BilibiliRequestContextView {
        self.deep_view()
    }
}

impl Plain for BilibiliRequestContext {
    fn duplicate(&self) -> (copy: Self) {
        BilibiliRequestContext {
            api_mode: self.api_mode,
            credential_profile_id: self.credential_profile_id.duplicate(),
        }
    }

    fn same_as(&self, other: &Self) -> (same: bool) {
        self.api_mode == other.api_mode
            && self.credential_profile_id.same_as(&other.credential_profile_id)
    }
}

impl Clone for BilibiliRequestContext {
    fn clone(&self) -> (copy: Self)
        ensures
            copy@ == self@,
    {
        self.duplicate()
    }
}

/// Which parts of a source a request takes.
#[derive(Debug, Default, PartialEq, Eq)]
pub struct BilibiliTaskSelection {
    pub mode: i32,
    pub selection_ids: Vec<String>,
    pub range_start_index: u32,
    pub range_end_index: u32,
}

/// What a `BilibiliTaskSelection` holds.
#[verifier::ext_equal]
pub struct BilibiliTaskSelectionView {
    pub mode: i32,
    pub selection_ids: Seq<Seq<char>>,
    pub range_start_index: u32,
    pub range_end_index: u32,
}

impl DeepView for BilibiliTaskSelection {
    type V = BilibiliTaskSelectionView;

    open spec fn deep_view(&self) -> BilibiliTaskSelectionView {
        BilibiliTaskSelectionView {
            mode: self.mode,
            selection_ids: self.selection_ids.deep_view(),
            range_start_index: self.range_start_index,
            range_end_index: self.range_end_index,
        }
    }
}

impl View for BilibiliTaskSelection {
    type V = BilibiliTaskSelectionView;

    #[verifier::inline]
    open spec fn view(&self) -> BilibiliTaskSelectionView {
        self.deep_view()
    }
}

impl Plain for BilibiliTaskSelection {
    fn duplicate(&self) -> (copy: Self) {
        BilibiliTaskSelection {
            mode: self.mode,
            selection_ids: self.selection_ids.duplicate(),
            range_start_index: self.range_start_index,
            range_end_index: self.range_end_index,
        }
    }

    fn same_as(&self, other: &Self) -> (same: bool) {
        self.mode == other.mode
            && self.selection_ids.same_as(&other.selection_ids)
            && self.range_start_index == other.range_start_index
            && self.range_end_index == other.range_end_index
    }
}

impl Clone for BilibiliTaskSelection {
    fn clone(&self) -> (copy: Self)
        ensures
            copy@ == self@,
    {
        self.duplicate()
    }
}

} // verus!
