//! Tasks.

use crate::model::basics::{Progress, TaskKind, TaskState, Timestamp};
use crate::model::options::{BilibiliTaskSelection, BilibiliTaskSelectionView};
use crate::model::output::{TaskOutputSummary, TaskOutputSummaryView};
use crate::model::playback::{
    BilibiliPlaybackSession, BilibiliPlaybackSessionView, ContentIdentityMessage,
    ContentIdentityMessageView, PlaybackSource, PlaybackSourceView,
};
use crate::plain::Plain;
use vstd::prelude::*;

verus! {

/// One selected part of a Bilibili task.
#[derive(Debug, Default, PartialEq, Eq)]
pub struct BilibiliTaskResultItem {
    pub id: String,
    pub selection_id: String,
    pub title: String,
    pub subtitle: String,
    pub source_kind: String,
    pub content_id: String,
    pub index: u32,
    pub state: TaskState,
    pub message: String,
    pub library_item_id: String,
    pub playback_source: Option<PlaybackSource>,
    pub playback_session: Option<BilibiliPlaybackSession>,
    pub identity: Option<ContentIdentityMessage>,
}

/// What a `BilibiliTaskResultItem` holds.
#[verifier::ext_equal]
pub struct BilibiliTaskResultItemView {
    pub id: Seq<char>,
    pub selection_id: Seq<char>,
    pub title: Seq<char>,
    pub subtitle: Seq<char>,
    pub source_kind: Seq<char>,
    pub content_id: Seq<char>,
    pub index: u32,
    pub state: TaskState,
    pub message: Seq<char>,
    pub library_item_id: Seq<char>,
    pub playback_source: Option<PlaybackSourceView>,
    pub playback_session: Option<BilibiliPlaybackSessionView>,
    pub identity: Option<ContentIdentityMessageView>,
}

impl DeepView for BilibiliTaskResultItem {
    type V = BilibiliTaskResultItemView;

    open spec fn deep_view(&self) -> BilibiliTaskResultItemView {
        BilibiliTaskResultItemView {
            id: self.id.deep_view(),
            selection_id: self.selection_id.deep_view(),
            title: self.title.deep_view(),
            subtitle: self.subtitle.deep_view(),
            source_kind: self.source_kind.deep_view(),
            content_id: self.content_id.deep_view(),
            index: self.index,
            state: self.state,
            message: self.message.deep_view(),
            library_item_id: self.library_item_id.deep_view(),
            playback_source: self.playback_source.deep_view(),
            playback_session: self.playback_session.deep_view(),
            identity: self.identity.deep_view(),
        }
    }
}

impl View for BilibiliTaskResultItem {
    type V = BilibiliTaskResultItemView;

    #[verifier::inline]
    open spec fn view(&self) -> BilibiliTaskResultItemView {
        self.deep_view()
    }
}

impl Plain for BilibiliTaskResultItem {
    fn duplicate(&self) -> (copy: Self) {
        BilibiliTaskResultItem {
            id: self.id.duplicate(),
            selection_id: self.selection_id.duplicate(),
            title: self.title.duplicate(),
            subtitle: self.subtitle.duplicate(),
            source_kind: self.source_kind.duplicate(),
            content_id: self.content_id.duplicate(),
            index: self.index,
            state: self.state,
            message: self.message.duplicate(),
            library_item_id: self.library_item_id.duplicate(),
            playback_source: self.playback_source.duplicate(),
            playback_session: self.playback_session.duplicate(),
            identity: self.identity.duplicate(),
        }
    }

    fn same_as(&self, other: &Self) -> (same: bool) {
        self.id.same_as(&other.id)
            && self.selection_id.same_as(&other.selection_id)
            && self.title.same_as(&other.title)
            && self.subtitle.same_as(&other.subtitle)
            && self.source_kind.same_as(&other.source_kind)
            && self.content_id.same_as(&other.content_id)
            && self.index == other.index
            && self.state == other.state
            && self.message.same_as(&other.message)
            && self.library_item_id.same_as(&other.library_item_id)
            && self.playback_source.same_as(&other.playback_source)
            && self.playback_session.same_as(&other.playback_session)
            && self.identity.same_as(&other.identity)
    }
}

impl Clone for BilibiliTaskResultItem {
    fn clone(&self) -> (copy: Self)
        ensures
            copy@ == self@,
    {
        self.duplicate()
    }
}

/// A task, as clients see it.
#[derive(Debug, Default, PartialEq, Eq)]
pub struct Task {
    pub id: String,
    pub kind: TaskKind,
    pub state: TaskState,
    pub source: String,
    pub title: String,
    pub progress: Progress,
    pub downloaded_bytes: i64,
    pub total_bytes: i64,
    pub message: String,
    pub library_item_id: String,
    pub created_at: Option<Timestamp>,
    pub updated_at: Option<Timestamp>,
    pub finished_at: Option<Timestamp>,
    pub playback_source: Option<PlaybackSource>,
    pub playback_session: Option<BilibiliPlaybackSession>,
    pub bilibili_selection: Option<BilibiliTaskSelection>,
    pub result_items: Vec<BilibiliTaskResultItem>,
    pub output_summary: Option<TaskOutputSummary>,
}

/// What a `Task` holds.
#[verifier::ext_equal]
pub struct TaskView {
    pub id: Seq<char>,
    pub kind: TaskKind,
    pub state: TaskState,
    pub source: Seq<char>,
    pub title: Seq<char>,
    pub progress: Progress,
    pub downloaded_bytes: i64,
    pub total_bytes: i64,
    pub message: Seq<char>,
    pub library_item_id: Seq<char>,
    pub created_at: Option<Timestamp>,
    pub updated_at: Option<Timestamp>,
    pub finished_at: Option<Timestamp>,
    pub playback_source: Option<PlaybackSourceView>,
    pub playback_session: Option<BilibiliPlaybackSessionView>,
    pub bilibili_selection: Option<BilibiliTaskSelectionView>,
    pub result_items: Seq<BilibiliTaskResultItemView>,
    pub output_summary: Option<TaskOutputSummaryView>,
}

impl DeepView for Task {
    type V = TaskView;

    open spec fn deep_view(&self) -> TaskView {
        TaskView {
            id: self.id.deep_view(),
            kind: self.kind,
            state: self.state,
            source: self.source.deep_view(),
            title: self.title.deep_view(),
            progress: self.progress,
            downloaded_bytes: self.downloaded_bytes,
            total_bytes: self.total_bytes,
            message: self.message.deep_view(),
            library_item_id: self.library_item_id.deep_view(),
            created_at: self.created_at.deep_view(),
            updated_at: self.updated_at.deep_view(),
            finished_at: self.finished_at.deep_view(),
            playback_source: self.playback_source.deep_view(),
            playback_session: self.playback_session.deep_view(),
            bilibili_selection: self.bilibili_selection.deep_view(),
            result_items: self.result_items.deep_view(),
            output_summary: self.output_summary.deep_view(),
        }
    }
}

impl View for Task {
    type V = TaskView;

    #[verifier::inline]
    open spec fn view(&self) -> TaskView {
        self.deep_view()
    }
}

impl Plain for Task {
    fn duplicate(&self) -> (copy: Self) {
        Task {
            id: self.id.duplicate(),
            kind: self.kind,
            state: self.state,
            source: self.source.duplicate(),
            title: self.title.duplicate(),
            progress: self.progress,
            downloaded_bytes: self.downloaded_bytes,
            total_bytes: self.total_bytes,
            message: self.message.duplicate(),
            library_item_id: self.library_item_id.duplicate(),
            created_at: self.created_at.duplicate(),
            updated_at: self.updated_at.duplicate(),
            finished_at: self.finished_at.duplicate(),
            playback_source: self.playback_source.duplicate(),
            playback_session: self.playback_session.duplicate(),
            bilibili_selection: self.bilibili_selection.duplicate(),
            result_items: self.result_items.duplicate(),
            output_summary: self.output_summary.duplicate(),
        }
    }

    fn same_as(&self, other: &Self) -> (same: bool) {
        self.id.same_as(&other.id)
            && self.kind == other.kind
            && self.state == other.state
            && self.source.same_as(&other.source)
            && self.title.same_as(&other.title)
            && self.progress == other.progress
            && self.downloaded_bytes == other.downloaded_bytes
            && self.total_bytes == other.total_bytes
            && self.message.same_as(&other.message)
            && self.library_item_id.same_as(&other.library_item_id)
            && self.created_at.same_as(&other.created_at)
            && self.updated_at.same_as(&other.updated_at)
            && self.finished_at.same_as(&other.finished_at)
            && self.playback_source.same_as(&other.playback_source)
            && self.playback_session.same_as(&other.playback_session)
            && self.bilibili_selection.same_as(&other.bilibili_selection)
            && self.result_items.same_as(&other.result_items)
            && self.output_summary.same_as(&other.output_summary)
    }
}

impl Clone for Task {
    fn clone(&self) -> (copy: Self)
        ensures
            copy@ == self@,
    {
        self.duplicate()
    }
}

} // verus!
