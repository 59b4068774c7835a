//! What is kept of a task across restarts.

use crate::model::options::{
    BilibiliDownloadOptions, BilibiliDownloadOptionsView, BilibiliPlaybackOptions,
    BilibiliPlaybackOptionsView, BilibiliRequestContext, BilibiliRequestContextView,
};
use crate::model::output::{TaskOutputRecord, TaskOutputRecordView};
use crate::model::task::{Task, TaskView};
use crate::plain::Plain;
use vstd::prelude::*;

verus! {

/// What kind of content a candidate is.
#[derive(Clone, Copy, Debug, Default, PartialEq, Eq, Structural)]
pub enum BilibiliContentKind {
    #[default]
    VideoPage,
    SeasonEpisode,
    CollectionItem,
}

impl DeepView for BilibiliContentKind {
    type V = BilibiliContentKind;

    open spec fn deep_view(&self) -> BilibiliContentKind {
        *self
    }
}

impl Plain for BilibiliContentKind {
    fn duplicate(&self) -> (copy: Self) {
        *self
    }

    fn same_as(&self, other: &Self) -> (same: bool) {
        *self == *other
    }
}

/// The stable identity of a candidate.
#[derive(Debug, Default, PartialEq, Eq)]
pub struct BilibiliContentIdentity {
    pub kind: BilibiliContentKind,
    pub aid: Option<u64>,
    pub bvid: Option<String>,
    pub cid: Option<u64>,
    pub epid: Option<u64>,
}

/// What a `BilibiliContentIdentity` holds.
#[verifier::ext_equal]
pub struct BilibiliContentIdentityView {
    pub kind: BilibiliContentKind,
    pub aid: Option<u64>,
    pub bvid: Option<Seq<char>>,
    pub cid: Option<u64>,
    pub epid: Option<u64>,
}

impl DeepView for BilibiliContentIdentity {
    type V = BilibiliContentIdentityView;

    open spec fn deep_view(&self) -> BilibiliContentIdentityView {
        BilibiliContentIdentityView {
            kind: self.kind,
            aid: self.aid.deep_view(),
            bvid: self.bvid.deep_view(),
            cid: self.cid.deep_view(),
            epid: self.epid.deep_view(),
        }
    }
}

impl View for BilibiliContentIdentity {
    type V = BilibiliContentIdentityView;

    #[verifier::inline]
    open spec fn view(&self) -> BilibiliContentIdentityView {
        self.deep_view()
    }
}

impl Plain for BilibiliContentIdentity {
    fn duplicate(&self) -> (copy: Self) {
        BilibiliContentIdentity {
            kind: self.kind,
            aid: self.aid.duplicate(),
            bvid: self.bvid.duplicate(),
            cid: self.cid.duplicate(),
            epid: self.epid.duplicate(),
        }
    }

    fn same_as(&self, other: &Self) -> (same: bool) {
        self.kind == other.kind
            && self.aid.same_as(&other.aid)
            && self.bvid.same_as(&other.bvid)
            && self.cid.same_as(&other.cid)
            && self.epid.same_as(&other.epid)
    }
}

impl Clone for BilibiliContentIdentity {
    fn clone(&self) -> (copy: Self)
        ensures
            copy@ == self@,
    {
        self.duplicate()
    }
}

/// A part of a source that a request has accepted. `identity_sound` says that the resolver
/// found the identity complete and in agreement with `content_id`.
#[derive(Debug, Default, PartialEq, Eq)]
pub struct BilibiliTaskCandidateRecord {
    pub selection_id: String,
    pub title: String,
    pub subtitle: String,
    pub source_kind: String,
    pub content_id: String,
    pub identity: BilibiliContentIdentity,
    pub identity_sound: bool,
    pub index: u32,
    pub duration_seconds: Option<u32>,
}

/// What a `BilibiliTaskCandidateRecord` holds.
#[verifier::ext_equal]
pub struct BilibiliTaskCandidateRecordView {
    pub selection_id: Seq<char>,
    pub title: Seq<char>,
    pub subtitle: Seq<char>,
    pub source_kind: Seq<char>,
    pub content_id: Seq<char>,
    pub identity: BilibiliContentIdentityView,
    pub identity_sound: bool,
    pub index: u32,
    pub duration_seconds: Option<u32>,
}

impl DeepView for BilibiliTaskCandidateRecord {
    type V = BilibiliTaskCandidateRecordView;

    open spec fn deep_view(&self) -> BilibiliTaskCandidateRecordView {
        BilibiliTaskCandidateRecordView {
            selection_id: self.selection_id.deep_view(),
            title: self.title.deep_view(),
            subtitle: self.subtitle.deep_view(),
            source_kind: self.source_kind.deep_view(),
            content_id: self.content_id.deep_view(),
            identity: self.identity.deep_view(),
            identity_sound: self.identity_sound,
            index: self.index,
            duration_seconds: self.duration_seconds.deep_view(),
        }
    }
}

impl View for BilibiliTaskCandidateRecord {
    type V = BilibiliTaskCandidateRecordView;

    #[verifier::inline]
    open spec fn view(&self) -> BilibiliTaskCandidateRecordView {
        self.deep_view()
    }
}

impl Plain for BilibiliTaskCandidateRecord {
    fn duplicate(&self) -> (copy: Self) {
        BilibiliTaskCandidateRecord {
            selection_id: self.selection_id.duplicate(),
            title: self.title.duplicate(),
            subtitle: self.subtitle.duplicate(),
            source_kind: self.source_kind.duplicate(),
            content_id: self.content_id.duplicate(),
            identity: self.identity.duplicate(),
            identity_sound: self.identity_sound,
            index: self.index,
            duration_seconds: self.duration_seconds.duplicate(),
        }
    }

    fn same_as(&self, other: &Self) -> (same: bool) {
        self.selection_id.same_as(&other.selection_id)
            && self.title.same_as(&other.title)
            && self.subtitle.same_as(&other.subtitle)
            && self.source_kind.same_as(&other.source_kind)
            && self.content_id.same_as(&other.content_id)
            && self.identity.same_as(&other.identity)
            && self.identity_sound == other.identity_sound
            && self.index == other.index
            && self.duration_seconds.same_as(&other.duration_seconds)
    }
}

impl Clone for BilibiliTaskCandidateRecord {
    fn clone(&self) -> (copy: Self)
        ensures
            copy@ == self@,
    {
        self.duplicate()
    }
}

/// A task with all that a restart needs of it.
#[derive(Debug, Default, PartialEq, Eq)]
pub struct PersistedTaskRecord {
    pub task: Task,
    pub options: Option<BilibiliDownloadOptions>,
    pub playback_options: Option<BilibiliPlaybackOptions>,
    pub request_context: Option<BilibiliRequestContext>,
    pub bilibili_candidates: Vec<BilibiliTaskCandidateRecord>,
    pub output: TaskOutputRecord,
}

/// What a `PersistedTaskRecord` holds.
#[verifier::ext_equal]
pub struct PersistedTaskRecordView {
    pub task: TaskView,
    pub options: Option<BilibiliDownloadOptionsView>,
    pub playback_options: Option<BilibiliPlaybackOptionsView>,
    pub request_context: Option<BilibiliRequestContextView>,
    pub bilibili_candidates: Seq<BilibiliTaskCandidateRecordView>,
    pub output: TaskOutputRecordView,
}

impl DeepView for PersistedTaskRecord {
    type V = PersistedTaskRecordView;

    open spec fn deep_view(&self) -> PersistedTaskRecordView {
        PersistedTaskRecordView {
            task: self.task.deep_view(),
            options: self.options.deep_view(),
            playback_options: self.playback_options.deep_view(),
            request_context: self.request_context.deep_view(),
            bilibili_candidates: self.bilibili_candidates.deep_view(),
            output: self.output.deep_view(),
        }
    }
}

impl View for PersistedTaskRecord {
    type V = PersistedTaskRecordView;

    #[verifier::inline]
    open spec fn view(&self) -> PersistedTaskRecordView {
        self.deep_view()
    }
}

impl Plain for PersistedTaskRecord {
    fn duplicate(&self) -> (copy: Self) {
        PersistedTaskRecord {
            task: self.task.duplicate(),
            options: self.options.duplicate(),
            playback_options: self.playback_options.duplicate(),
            request_context: self.request_context.duplicate(),
            bilibili_candidates: self.bilibili_candidates.duplicate(),
            output: self.output.duplicate(),
        }
    }

    fn same_as(&self, other: &Self) -> (same: bool) {
        self.task.same_as(&other.task)
            && self.options.same_as(&other.options)
            && self.playback_options.same_as(&other.playback_options)
            && self.request_context.same_as(&other.request_context)
            && self.bilibili_candidates.same_as(&other.bilibili_candidates)
            && self.output.same_as(&other.output)
    }
}

impl Clone for PersistedTaskRecord {
    fn clone(&self) -> (copy: Self)
        ensures
            copy@ == self@,
    {
        self.duplicate()
    }
}

} // verus!
