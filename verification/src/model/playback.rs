//! Playback sessions and their sources.

use crate::model::basics::Timestamp;
use crate::model::options::BilibiliPlaybackPolicy;
use crate::plain::Plain;
use vstd::prelude::*;

verus! {

/// Where a player fetches a session.
#[derive(Debug, Default, PartialEq, Eq)]
pub struct PlaybackSource {
    pub item_id: String,
    pub variant_id: String,
    pub protocol: i32,
    pub uri: String,
    pub expires_at: Option<Timestamp>,
}

/// What a `PlaybackSource` holds.
#[verifier::ext_equal]
pub struct PlaybackSourceView {
    pub item_id: Seq<char>,
    pub variant_id: Seq<char>,
    pub protocol: i32,
    pub uri: Seq<char>,
    pub expires_at: Option<Timestamp>,
}

impl DeepView for PlaybackSource {
    type V = PlaybackSourceView;

    open spec fn deep_view(&self) -> PlaybackSourceView {
        PlaybackSourceView {
            item_id: self.item_id.deep_view(),
            variant_id: self.variant_id.deep_view(),
            protocol: self.protocol,
            uri: self.uri.deep_view(),
            expires_at: self.expires_at.deep_view(),
        }
    }
}

impl View for PlaybackSource {
    type V = PlaybackSourceView;

    #[verifier::inline]
    open spec fn view(&self) -> PlaybackSourceView {
        self.deep_view()
    }
}

impl Plain for PlaybackSource {
    fn duplicate(&self) -> (copy: Self) {
        PlaybackSource {
            item_id: self.item_id.duplicate(),
            variant_id: self.variant_id.duplicate(),
            protocol: self.protocol,
            uri: self.uri.duplicate(),
            expires_at: self.expires_at.duplicate(),
        }
    }

    fn same_as(&self, other: &Self) -> (same: bool) {
        self.item_id.same_as(&other.item_id)
            && self.variant_id.same_as(&other.variant_id)
            && self.protocol == other.protocol
            && self.uri.same_as(&other.uri)
            && self.expires_at.same_as(&other.expires_at)
    }
}

impl Clone for PlaybackSource {
    fn clone(&self) -> (copy: Self)
        ensures
            copy@ == self@,
    {
        self.duplicate()
    }
}

/// One stream of a session.
#[derive(Debug, Default, PartialEq, Eq)]
pub struct BilibiliPlaybackVariant {
    pub id: String,
    pub label: String,
    pub source_kind: String,
    pub container: String,
    pub video_codec: String,
    pub audio_codec: String,
    pub width: i32,
    pub height: i32,
    pub bitrate: i64,
    pub size_bytes: i64,
}

/// What a `BilibiliPlaybackVariant` holds.
#[verifier::ext_equal]
pub struct BilibiliPlaybackVariantView {
    pub id: Seq<char>,
    pub label: Seq<char>,
    pub source_kind: Seq<char>,
    pub container: Seq<char>,
    pub video_codec: Seq<char>,
    pub audio_codec: Seq<char>,
    pub width: i32,
    pub height: i32,
    pub bitrate: i64,
    pub size_bytes: i64,
}

impl DeepView for BilibiliPlaybackVariant {
    type V = BilibiliPlaybackVariantView;

    open spec fn deep_view(&self) -> BilibiliPlaybackVariantView {
        BilibiliPlaybackVariantView {
            id: self.id.deep_view(),
            label: self.label.deep_view(),
            source_kind: self.source_kind.deep_view(),
            container: self.container.deep_view(),
            video_codec: self.video_codec.deep_view(),
            audio_codec: self.audio_codec.deep_view(),
            width: self.width,
            height: self.height,
            bitrate: self.bitrate,
            size_bytes: self.size_bytes,
        }
    }
}

impl View for BilibiliPlaybackVariant {
    type V = BilibiliPlaybackVariantView;

    #[verifier::inline]
    open spec fn view(&self) -> BilibiliPlaybackVariantView {
        self.deep_view()
    }
}

impl Plain for BilibiliPlaybackVariant {
    fn duplicate(&self) -> (copy: Self) {
        BilibiliPlaybackVariant {
            id: self.id.duplicate(),
            label: self.label.duplicate(),
            source_kind: self.source_kind.duplicate(),
            container: self.container.duplicate(),
            video_codec: self.video_codec.duplicate(),
            audio_codec: self.audio_codec.duplicate(),
            width: self.width,
            height: self.height,
            bitrate: self.bitrate,
            size_bytes: self.size_bytes,
        }
    }

    fn same_as(&self, other: &Self) -> (same: bool) {
        self.id.same_as(&other.id)
            && self.label.same_as(&other.label)
            && self.source_kind.same_as(&other.source_kind)
            && self.container.same_as(&other.container)
            && self.video_codec.same_as(&other.video_codec)
            && self.audio_codec.same_as(&other.audio_codec)
            && self.width == other.width
            && self.height == other.height
            && self.bitrate == other.bitrate
            && self.size_bytes == other.size_bytes
    }
}

impl Clone for BilibiliPlaybackVariant {
    fn clone(&self) -> (copy: Self)
        ensures
            copy@ == self@,
    {
        self.duplicate()
    }
}

/// How a stream is converted for the local network.
#[derive(Debug, Default, PartialEq, Eq)]
pub struct LanTranscodingPlan {
    pub state: i32,
    pub profile_id: String,
    pub reason: String,
    pub source_variant_id: String,
    pub target_container: String,
    pub target_video_codec: String,
    pub target_audio_codec: String,
    pub output_protocol: i32,
}

/// What a `LanTranscodingPlan` holds.
#[verifier::ext_equal]
pub struct LanTranscodingPlanView {
    pub state: i32,
    pub profile_id: Seq<char>,
    pub reason: Seq<char>,
    pub source_variant_id: Seq<char>,
    pub target_container: Seq<char>,
    pub target_video_codec: Seq<char>,
    pub target_audio_codec: Seq<char>,
    pub output_protocol: i32,
}

impl DeepView for LanTranscodingPlan {
    type V = LanTranscodingPlanView;

    open spec fn deep_view(&self) -> LanTranscodingPlanView {
        LanTranscodingPlanView {
            state: self.state,
            profile_id: self.profile_id.deep_view(),
            reason: self.reason.deep_view(),
            source_variant_id: self.source_variant_id.deep_view(),
            target_container: self.target_container.deep_view(),
            target_video_codec: self.target_video_codec.deep_view(),
            target_audio_codec: self.target_audio_codec.deep_view(),
            output_protocol: self.output_protocol,
        }
    }
}

impl View for LanTranscodingPlan {
    type V = LanTranscodingPlanView;

    #[verifier::inline]
    open spec fn view(&self) -> LanTranscodingPlanView {
        self.deep_view()
    }
}

impl Plain for LanTranscodingPlan {
    fn duplicate(&self) -> (copy: Self) {
        LanTranscodingPlan {
            state: self.state,
            profile_id: self.profile_id.duplicate(),
            reason: self.reason.duplicate(),
            source_variant_id: self.source_variant_id.duplicate(),
            target_container: self.target_container.duplicate(),
            target_video_codec: self.target_video_codec.duplicate(),
            target_audio_codec: self.target_audio_codec.duplicate(),
            output_protocol: self.output_protocol,
        }
    }

    fn same_as(&self, other: &Self) -> (same: bool) {
        self.state == other.state
            && self.profile_id.same_as(&other.profile_id)
            && self.reason.same_as(&other.reason)
            && self.source_variant_id.same_as(&other.source_variant_id)
            && self.target_container.same_as(&other.target_container)
            && self.target_video_codec.same_as(&other.target_video_codec)
            && self.target_audio_codec.same_as(&other.target_audio_codec)
            && self.output_protocol == other.output_protocol
    }
}

impl Clone for LanTranscodingPlan {
    fn clone(&self) -> (copy: Self)
        ensures
            copy@ == self@,
    {
        self.duplicate()
    }
}

/// A planned or running playback session.
#[derive(Debug, Default, PartialEq, Eq)]
pub struct BilibiliPlaybackSession {
    pub id: String,
    pub title: String,
    pub content_id: String,
    pub selected_variant_id: String,
    pub selected_variant: Option<BilibiliPlaybackVariant>,
    pub variants: Vec<BilibiliPlaybackVariant>,
    pub transcoding_plan: Option<LanTranscodingPlan>,
    pub effective_policy: Option<BilibiliPlaybackPolicy>,
}

/// What a `BilibiliPlaybackSession` holds.
#[verifier::ext_equal]
pub struct BilibiliPlaybackSessionView {
    pub id: Seq<char>,
    pub title: Seq<char>,
    pub content_id: Seq<char>,
    pub selected_variant_id: Seq<char>,
    pub selected_variant: Option<BilibiliPlaybackVariantView>,
    pub variants: Seq<BilibiliPlaybackVariantView>,
    pub transcoding_plan: Option<LanTranscodingPlanView>,
    pub effective_policy: Option<BilibiliPlaybackPolicy>,
}

impl DeepView for BilibiliPlaybackSession {
    type V = BilibiliPlaybackSessionView;

    open spec fn deep_view(&self) -> BilibiliPlaybackSessionView {
        BilibiliPlaybackSessionView {
            id: self.id.deep_view(),
            title: self.title.deep_view(),
            content_id: self.content_id.deep_view(),
            selected_variant_id: self.selected_variant_id.deep_view(),
            selected_variant: self.selected_variant.deep_view(),
            variants: self.variants.deep_view(),
            transcoding_plan: self.transcoding_plan.deep_view(),
            effective_policy: self.effective_policy.deep_view(),
        }
    }
}

impl View for BilibiliPlaybackSession {
    type V = BilibiliPlaybackSessionView;

    #[verifier::inline]
    open spec fn view(&self) -> BilibiliPlaybackSessionView {
        self.deep_view()
    }
}

impl Plain for BilibiliPlaybackSession {
    fn duplicate(&self) -> (copy: Self) {
        BilibiliPlaybackSession {
            id: self.id.duplicate(),
            title: self.title.duplicate(),
            content_id: self.content_id.duplicate(),
            selected_variant_id: self.selected_variant_id.duplicate(),
            selected_variant: self.selected_variant.duplicate(),
            variants: self.variants.duplicate(),
            transcoding_plan: self.transcoding_plan.duplicate(),
            effective_policy: self.effective_policy.duplicate(),
        }
    }

    fn same_as(&self, other: &Self) -> (same: bool) {
        self.id.same_as(&other.id)
            && self.title.same_as(&other.title)
            && self.content_id.same_as(&other.content_id)
            && self.selected_variant_id.same_as(&other.selected_variant_id)
            && self.selected_variant.same_as(&other.selected_variant)
            && self.variants.same_as(&other.variants)
            && self.transcoding_plan.same_as(&other.transcoding_plan)
            && self.effective_policy.same_as(&other.effective_policy)
    }
}

impl Clone for BilibiliPlaybackSession {
    fn clone(&self) -> (copy: Self)
        ensures
            copy@ == self@,
    {
        self.duplicate()
    }
}

/// The identity of a piece of content, as clients see it.
#[derive(Debug, Default, PartialEq, Eq)]
pub struct ContentIdentityMessage {
    pub kind: i32,
    pub aid: u64,
    pub bvid: String,
    pub cid: u64,
    pub epid: u64,
}

/// What a `ContentIdentityMessage` holds.
#[verifier::ext_equal]
pub struct ContentIdentityMessageView {
    pub kind: i32,
    pub aid: u64,
    pub bvid: Seq<char>,
    pub cid: u64,
    pub epid: u64,
}

impl DeepView for ContentIdentityMessage {
    type V = ContentIdentityMessageView;

    open spec fn deep_view(&self) -> ContentIdentityMessageView {
        ContentIdentityMessageView {
            kind: self.kind,
            aid: self.aid,
            bvid: self.bvid.deep_view(),
            cid: self.cid,
            epid: self.epid,
        }
    }
}

impl View for ContentIdentityMessage {
    type V = ContentIdentityMessageView;

    #[verifier::inline]
    open spec fn view(&self) -> ContentIdentityMessageView {
        self.deep_view()
    }
}

impl Plain for ContentIdentityMessage {
    fn duplicate(&self) -> (copy: Self) {
        ContentIdentityMessage {
            kind: self.kind,
            aid: self.aid,
            bvid: self.bvid.duplicate(),
            cid: self.cid,
            epid: self.epid,
        }
    }

    fn same_as(&self, other: &Self) -> (same: bool) {
        self.kind == other.kind
            && self.aid == other.aid
            && self.bvid.same_as(&other.bvid)
            && self.cid == other.cid
            && self.epid == other.epid
    }
}

impl Clone for ContentIdentityMessage {
    fn clone(&self) -> (copy: Self)
        ensures
            copy@ == self@,
    {
        self.duplicate()
    }
}

} // verus!
