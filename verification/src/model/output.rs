//! What a task has produced.

use crate::model::basics::{Progress, TaskArtifactState, TaskState, Timestamp};
use crate::model::playback::{
    BilibiliPlaybackSession, BilibiliPlaybackSessionView, ContentIdentityMessage,
    ContentIdentityMessageView, PlaybackSource, PlaybackSourceView,
};
use crate::plain::Plain;
use vstd::prelude::*;

verus! {

/// A body file that clients can fetch.
#[derive(Debug, Default, PartialEq, Eq)]
pub struct CacheResourceRef {
    pub id: String,
    pub uri: String,
    pub content_type: String,
    pub size_bytes: i64,
    pub size_known: bool,
    pub supports_byte_ranges: bool,
    pub etag: String,
    pub expires_at: Option<Timestamp>,
}

/// What a `CacheResourceRef` holds.
#[verifier::ext_equal]
pub struct CacheResourceRefView {
    pub id: Seq<char>,
    pub uri: Seq<char>,
    pub content_type: Seq<char>,
    pub size_bytes: i64,
    pub size_known: bool,
    pub supports_byte_ranges: bool,
    pub etag: Seq<char>,
    pub expires_at: Option<Timestamp>,
}

impl DeepView for CacheResourceRef {
    type V = CacheResourceRefView;

    open spec fn deep_view(&self) -> CacheResourceRefView {
        CacheResourceRefView {
            id: self.id.deep_view(),
            uri: self.uri.deep_view(),
            content_type: self.content_type.deep_view(),
            size_bytes: self.size_bytes,
            size_known: self.size_known,
            supports_byte_ranges: self.supports_byte_ranges,
            etag: self.etag.deep_view(),
            expires_at: self.expires_at.deep_view(),
        }
    }
}

impl View for CacheResourceRef {
    type V = CacheResourceRefView;

    #[verifier::inline]
    open spec fn view(&self) -> CacheResourceRefView {
        self.deep_view()
    }
}

impl Plain for CacheResourceRef {
    fn duplicate(&self) -> (copy: Self) {
        CacheResourceRef {
            id: self.id.duplicate(),
            uri: self.uri.duplicate(),
            content_type: self.content_type.duplicate(),
            size_bytes: self.size_bytes,
            size_known: self.size_known,
            supports_byte_ranges: self.supports_byte_ranges,
            etag: self.etag.duplicate(),
            expires_at: self.expires_at.duplicate(),
        }
    }

    fn same_as(&self, other: &Self) -> (same: bool) {
        self.id.same_as(&other.id)
            && self.uri.same_as(&other.uri)
            && self.content_type.same_as(&other.content_type)
            && self.size_bytes == other.size_bytes
            && self.size_known == other.size_known
            && self.supports_byte_ranges == other.supports_byte_ranges
            && self.etag.same_as(&other.etag)
            && self.expires_at.same_as(&other.expires_at)
    }
}

impl Clone for CacheResourceRef {
    fn clone(&self) -> (copy: Self)
        ensures
            copy@ == self@,
    {
        self.duplicate()
    }
}

/// A registered resource of a task.
#[derive(Debug, Default, PartialEq, Eq)]
pub struct TaskResourceRecord {
    pub resource: CacheResourceRef,
}

/// What a `TaskResourceRecord` holds.
#[verifier::ext_equal]
pub struct TaskResourceRecordView {
    pub resource: CacheResourceRefView,
}

impl DeepView for TaskResourceRecord {
    type V = TaskResourceRecordView;

    open spec fn deep_view(&self) -> TaskResourceRecordView {
        TaskResourceRecordView {
            resource: self.resource.deep_view(),
        }
    }
}

impl View for TaskResourceRecord {
    type V = TaskResourceRecordView;

    #[verifier::inline]
    open spec fn view(&self) -> TaskResourceRecordView {
        self.deep_view()
    }
}

impl Plain for TaskResourceRecord {
    fn duplicate(&self) -> (copy: Self) {
        TaskResourceRecord {
            resource: self.resource.duplicate(),
        }
    }

    fn same_as(&self, other: &Self) -> (same: bool) {
        self.resource.same_as(&other.resource)
    }
}

impl Clone for TaskResourceRecord {
    fn clone(&self) -> (copy: Self)
        ensures
            copy@ == self@,
    {
        self.duplicate()
    }
}

/// Why something is missing or failed.
#[derive(Debug, Default, PartialEq, Eq)]
pub struct TaskProblem {
    pub category: i32,
    pub code: String,
    pub message: String,
    pub retryable: bool,
}

/// What a `TaskProblem` holds.
#[verifier::ext_equal]
pub struct TaskProblemView {
    pub category: i32,
    pub code: Seq<char>,
    pub message: Seq<char>,
    pub retryable: bool,
}

impl DeepView for TaskProblem {
    type V = TaskProblemView;

    open spec fn deep_view(&self) -> TaskProblemView {
        TaskProblemView {
            category: self.category,
            code: self.code.deep_view(),
            message: self.message.deep_view(),
            retryable: self.retryable,
        }
    }
}

impl View for TaskProblem {
    type V = TaskProblemView;

    #[verifier::inline]
    open spec fn view(&self) -> TaskProblemView {
        self.deep_view()
    }
}

impl Plain for TaskProblem {
    fn duplicate(&self) -> (copy: Self) {
        TaskProblem {
            category: self.category,
            code: self.code.duplicate(),
            message: self.message.duplicate(),
            retryable: self.retryable,
        }
    }

    fn same_as(&self, other: &Self) -> (same: bool) {
        self.category == other.category
            && self.code.same_as(&other.code)
            && self.message.same_as(&other.message)
            && self.retryable == other.retryable
    }
}

impl Clone for TaskProblem {
    fn clone(&self) -> (copy: Self)
        ensures
            copy@ == self@,
    {
        self.duplicate()
    }
}

/// One artifact of a result.
#[derive(Debug, Default, PartialEq, Eq)]
pub struct TaskArtifact {
    pub id: String,
    pub kind: i32,
    pub state: TaskArtifactState,
    pub title: String,
    pub format: String,
    pub language_tag: String,
    pub is_ai_generated: bool,
    pub resource: Option<CacheResourceRef>,
    pub problem: Option<TaskProblem>,
    pub library_item_id: String,
}

/// What a `TaskArtifact` holds.
#[verifier::ext_equal]
pub struct TaskArtifactView {
    pub id: Seq<char>,
    pub kind: i32,
    pub state: TaskArtifactState,
    pub title: Seq<char>,
    pub format: Seq<char>,
    pub language_tag: Seq<char>,
    pub is_ai_generated: bool,
    pub resource: Option<CacheResourceRefView>,
    pub problem: Option<TaskProblemView>,
    pub library_item_id: Seq<char>,
}

impl DeepView for TaskArtifact {
    type V = TaskArtifactView;

    open spec fn deep_view(&self) -> TaskArtifactView {
        TaskArtifactView {
            id: self.id.deep_view(),
            kind: self.kind,
            state: self.state,
            title: self.title.deep_view(),
            format: self.format.deep_view(),
            language_tag: self.language_tag.deep_view(),
            is_ai_generated: self.is_ai_generated,
            resource: self.resource.deep_view(),
            problem: self.problem.deep_view(),
            library_item_id: self.library_item_id.deep_view(),
        }
    }
}

impl View for TaskArtifact {
    type V = TaskArtifactView;

    #[verifier::inline]
    open spec fn view(&self) -> TaskArtifactView {
        self.deep_view()
    }
}

impl Plain for TaskArtifact {
    fn duplicate(&self) -> (copy: Self) {
        TaskArtifact {
            id: self.id.duplicate(),
            kind: self.kind,
            state: self.state,
            title: self.title.duplicate(),
            format: self.format.duplicate(),
            language_tag: self.language_tag.duplicate(),
            is_ai_generated: self.is_ai_generated,
            resource: self.resource.duplicate(),
            problem: self.problem.duplicate(),
            library_item_id: self.library_item_id.duplicate(),
        }
    }

    fn same_as(&self, other: &Self) -> (same: bool) {
        self.id.same_as(&other.id)
            && self.kind == other.kind
            && self.state == other.state
            && self.title.same_as(&other.title)
            && self.format.same_as(&other.format)
            && self.language_tag.same_as(&other.language_tag)
            && self.is_ai_generated == other.is_ai_generated
            && self.resource.same_as(&other.resource)
            && self.problem.same_as(&other.problem)
            && self.library_item_id.same_as(&other.library_item_id)
    }
}

impl Clone for TaskArtifact {
    fn clone(&self) -> (copy: Self)
        ensures
            copy@ == self@,
    {
        self.duplicate()
    }
}

/// How far one result has come.
#[derive(Debug, Default, PartialEq, Eq)]
pub struct TaskResultProgress {
    pub fraction: Progress,
    pub completed_bytes: i64,
    pub total_bytes: i64,
    pub total_bytes_known: bool,
    pub phase: String,
    pub message: String,
}

/// What a `TaskResultProgress` holds.
#[verifier::ext_equal]
pub struct TaskResultProgressView {
    pub fraction: Progress,
    pub completed_bytes: i64,
    pub total_bytes: i64,
    pub total_bytes_known: bool,
    pub phase: Seq<char>,
    pub message: Seq<char>,
}

impl DeepView for TaskResultProgress {
    type V = TaskResultProgressView;

    open spec fn deep_view(&self) -> TaskResultProgressView {
        TaskResultProgressView {
            fraction: self.fraction,
            completed_bytes: self.completed_bytes,
            total_bytes: self.total_bytes,
            total_bytes_known: self.total_bytes_known,
            phase: self.phase.deep_view(),
            message: self.message.deep_view(),
        }
    }
}

impl View for TaskResultProgress {
    type V = TaskResultProgressView;

    #[verifier::inline]
    open spec fn view(&self) -> TaskResultProgressView {
        self.deep_view()
    }
}

impl Plain for TaskResultProgress {
    fn duplicate(&self) -> (copy: Self) {
        TaskResultProgress {
            fraction: self.fraction,
            completed_bytes: self.completed_bytes,
            total_bytes: self.total_bytes,
            total_bytes_known: self.total_bytes_known,
            phase: self.phase.duplicate(),
            message: self.message.duplicate(),
        }
    }

    fn same_as(&self, other: &Self) -> (same: bool) {
        self.fraction == other.fraction
            && self.completed_bytes == other.completed_bytes
            && self.total_bytes == other.total_bytes
            && self.total_bytes_known == other.total_bytes_known
            && self.phase.same_as(&other.phase)
            && self.message.same_as(&other.message)
    }
}

impl Clone for TaskResultProgress {
    fn clone(&self) -> (copy: Self)
        ensures
            copy@ == self@,
    {
        self.duplicate()
    }
}

/// What one result is about.
#[derive(Debug, Default, PartialEq, Eq)]
pub struct TaskResultSubject {
    pub provider: String,
    pub kind: String,
    pub id: String,
    pub index: u32,
}

/// What a `TaskResultSubject` holds.
#[verifier::ext_equal]
pub struct TaskResultSubjectView {
    pub provider: Seq<char>,
    pub kind: Seq<char>,
    pub id: Seq<char>,
    pub index: u32,
}

impl DeepView for TaskResultSubject {
    type V = TaskResultSubjectView;

    open spec fn deep_view(&self) -> TaskResultSubjectView {
        TaskResultSubjectView {
            provider: self.provider.deep_view(),
            kind: self.kind.deep_view(),
            id: self.id.deep_view(),
            index: self.index,
        }
    }
}

impl View for TaskResultSubject {
    type V = TaskResultSubjectView;

    #[verifier::inline]
    open spec fn view(&self) -> TaskResultSubjectView {
        self.deep_view()
    }
}

impl Plain for TaskResultSubject {
    fn duplicate(&self) -> (copy: Self) {
        TaskResultSubject {
            provider: self.provider.duplicate(),
            kind: self.kind.duplicate(),
            id: self.id.duplicate(),
            index: self.index,
        }
    }

    fn same_as(&self, other: &Self) -> (same: bool) {
        self.provider.same_as(&other.provider)
            && self.kind.same_as(&other.kind)
            && self.id.same_as(&other.id)
            && self.index == other.index
    }
}

impl Clone for TaskResultSubject {
    fn clone(&self) -> (copy: Self)
        ensures
            copy@ == self@,
    {
        self.duplicate()
    }
}

/// What the provider adds to one result.
#[derive(Debug, Default, PartialEq, Eq)]
pub struct BilibiliTaskResultDetails {
    pub identity: Option<ContentIdentityMessage>,
    pub playback_session: Option<BilibiliPlaybackSession>,
}

/// What a `BilibiliTaskResultDetails` holds.
#[verifier::ext_equal]
pub struct BilibiliTaskResultDetailsView {
    pub identity: Option<ContentIdentityMessageView>,
    pub playback_session: Option<BilibiliPlaybackSessionView>,
}

impl DeepView for BilibiliTaskResultDetails {
    type V = BilibiliTaskResultDetailsView;

    open spec fn deep_view(&self) -> BilibiliTaskResultDetailsView {
        BilibiliTaskResultDetailsView {
            identity: self.identity.deep_view(),
            playback_session: self.playback_session.deep_view(),
        }
    }
}

impl View for BilibiliTaskResultDetails {
    type V = BilibiliTaskResultDetailsView;

    #[verifier::inline]
    open spec fn view(&self) -> BilibiliTaskResultDetailsView {
        self.deep_view()
    }
}

impl Plain for BilibiliTaskResultDetails {
    fn duplicate(&self) -> (copy: Self) {
        BilibiliTaskResultDetails {
            identity: self.identity.duplicate(),
            playback_session: self.playback_session.duplicate(),
        }
    }

    fn same_as(&self, other: &Self) -> (same: bool) {
        self.identity.same_as(&other.identity)
            && self.playback_session.same_as(&other.playback_session)
    }
}

impl Clone for BilibiliTaskResultDetails {
    fn clone(&self) -> (copy: Self)
        ensures
            copy@ == self@,
    {
        self.duplicate()
    }
}

/// The provider part of one result, where there is one.
#[derive(Debug, Default, PartialEq, Eq)]
pub struct TaskResultProviderDetails {
    pub bilibili: Option<BilibiliTaskResultDetails>,
}

/// What a `TaskResultProviderDetails` holds.
#[verifier::ext_equal]
pub struct TaskResultProviderDetailsView {
    pub bilibili: Option<BilibiliTaskResultDetailsView>,
}

impl DeepView for TaskResultProviderDetails {
    type V = TaskResultProviderDetailsView;

    open spec fn deep_view(&self) -> TaskResultProviderDetailsView {
        TaskResultProviderDetailsView {
            bilibili: self.bilibili.deep_view(),
        }
    }
}

impl View for TaskResultProviderDetails {
    type V = TaskResultProviderDetailsView;

    #[verifier::inline]
    open spec fn view(&self) -> TaskResultProviderDetailsView {
        self.deep_view()
    }
}

impl Plain for TaskResultProviderDetails {
    fn duplicate(&self) -> (copy: Self) {
        TaskResultProviderDetails {
            bilibili: self.bilibili.duplicate(),
        }
    }

    fn same_as(&self, other: &Self) -> (same: bool) {
        self.bilibili.same_as(&other.bilibili)
    }
}

impl Clone for TaskResultProviderDetails {
    fn clone(&self) -> (copy: Self)
        ensures
            copy@ == self@,
    {
        self.duplicate()
    }
}

/// One result of a task.
#[derive(Debug, Default, PartialEq, Eq)]
pub struct TaskResult {
    pub id: String,
    pub state: TaskState,
    pub title: String,
    pub subtitle: String,
    pub progress: Option<TaskResultProgress>,
    pub problem: Option<TaskProblem>,
    pub library_item_id: String,
    pub playback_source: Option<PlaybackSource>,
    pub artifacts: Vec<TaskArtifact>,
    pub created_at: Option<Timestamp>,
    pub updated_at: Option<Timestamp>,
    pub subject: Option<TaskResultSubject>,
    pub provider_details: Option<TaskResultProviderDetails>,
}

/// What a `TaskResult` holds.
#[verifier::ext_equal]
pub struct TaskResultView {
    pub id: Seq<char>,
    pub state: TaskState,
    pub title: Seq<char>,
    pub subtitle: Seq<char>,
    pub progress: Option<TaskResultProgressView>,
    pub problem: Option<TaskProblemView>,
    pub library_item_id: Seq<char>,
    pub playback_source: Option<PlaybackSourceView>,
    pub artifacts: Seq<TaskArtifactView>,
    pub created_at: Option<Timestamp>,
    pub updated_at: Option<Timestamp>,
    pub subject: Option<TaskResultSubjectView>,
    pub provider_details: Option<TaskResultProviderDetailsView>,
}

impl DeepView for TaskResult {
    type V = TaskResultView;

    open spec fn deep_view(&self) -> TaskResultView {
        TaskResultView {
            id: self.id.deep_view(),
            state: self.state,
            title: self.title.deep_view(),
            subtitle: self.subtitle.deep_view(),
            progress: self.progress.deep_view(),
            problem: self.problem.deep_view(),
            library_item_id: self.library_item_id.deep_view(),
            playback_source: self.playback_source.deep_view(),
            artifacts: self.artifacts.deep_view(),
            created_at: self.created_at.deep_view(),
            updated_at: self.updated_at.deep_view(),
            subject: self.subject.deep_view(),
            provider_details: self.provider_details.deep_view(),
        }
    }
}

impl View for TaskResult {
    type V = TaskResultView;

    #[verifier::inline]
    open spec fn view(&self) -> TaskResultView {
        self.deep_view()
    }
}

impl Plain for TaskResult {
    fn duplicate(&self) -> (copy: Self) {
        TaskResult {
            id: self.id.duplicate(),
            state: self.state,
            title: self.title.duplicate(),
            subtitle: self.subtitle.duplicate(),
            progress: self.progress.duplicate(),
            problem: self.problem.duplicate(),
            library_item_id: self.library_item_id.duplicate(),
            playback_source: self.playback_source.duplicate(),
            artifacts: self.artifacts.duplicate(),
            created_at: self.created_at.duplicate(),
            updated_at: self.updated_at.duplicate(),
            subject: self.subject.duplicate(),
            provider_details: self.provider_details.duplicate(),
        }
    }

    fn same_as(&self, other: &Self) -> (same: bool) {
        self.id.same_as(&other.id)
            && self.state == other.state
            && self.title.same_as(&other.title)
            && self.subtitle.same_as(&other.subtitle)
            && self.progress.same_as(&other.progress)
            && self.problem.same_as(&other.problem)
            && self.library_item_id.same_as(&other.library_item_id)
            && self.playback_source.same_as(&other.playback_source)
            && self.artifacts.same_as(&other.artifacts)
            && self.created_at.same_as(&other.created_at)
            && self.updated_at.same_as(&other.updated_at)
            && self.subject.same_as(&other.subject)
            && self.provider_details.same_as(&other.provider_details)
    }
}

impl Clone for TaskResult {
    fn clone(&self) -> (copy: Self)
        ensures
            copy@ == self@,
    {
        self.duplicate()
    }
}

/// The output of a task in one revision. `encoded_bytes` is its size on the wire.
#[derive(Debug, Default, PartialEq, Eq)]
pub struct TaskOutputRecord {
    pub revision: u64,
    pub snapshot_id: String,
    pub primary_result_id: String,
    pub results: Vec<TaskResult>,
    pub resources: Vec<TaskResourceRecord>,
    pub legacy_managed: bool,
    pub encoded_bytes: usize,
}

/// What a `TaskOutputRecord` holds.
#[verifier::ext_equal]
pub struct TaskOutputRecordView {
    pub revision: u64,
    pub snapshot_id: Seq<char>,
    pub primary_result_id: Seq<char>,
    pub results: Seq<TaskResultView>,
    pub resources: Seq<TaskResourceRecordView>,
    pub legacy_managed: bool,
    pub encoded_bytes: usize,
}

impl DeepView for TaskOutputRecord {
    type V = TaskOutputRecordView;

    open spec fn deep_view(&self) -> TaskOutputRecordView {
        TaskOutputRecordView {
            revision: self.revision,
            snapshot_id: self.snapshot_id.deep_view(),
            primary_result_id: self.primary_result_id.deep_view(),
            results: self.results.deep_view(),
            resources: self.resources.deep_view(),
            legacy_managed: self.legacy_managed,
            encoded_bytes: self.encoded_bytes,
        }
    }
}

impl View for TaskOutputRecord {
    type V = TaskOutputRecordView;

    #[verifier::inline]
    open spec fn view(&self) -> TaskOutputRecordView {
        self.deep_view()
    }
}

impl Plain for TaskOutputRecord {
    fn duplicate(&self) -> (copy: Self) {
        TaskOutputRecord {
            revision: self.revision,
            snapshot_id: self.snapshot_id.duplicate(),
            primary_result_id: self.primary_result_id.duplicate(),
            results: self.results.duplicate(),
            resources: self.resources.duplicate(),
            legacy_managed: self.legacy_managed,
            encoded_bytes: self.encoded_bytes,
        }
    }

    fn same_as(&self, other: &Self) -> (same: bool) {
        self.revision == other.revision
            && self.snapshot_id.same_as(&other.snapshot_id)
            && self.primary_result_id.same_as(&other.primary_result_id)
            && self.results.same_as(&other.results)
            && self.resources.same_as(&other.resources)
            && self.legacy_managed == other.legacy_managed
            && self.encoded_bytes == other.encoded_bytes
    }
}

impl Clone for TaskOutputRecord {
    fn clone(&self) -> (copy: Self)
        ensures
            copy@ == self@,
    {
        self.duplicate()
    }
}

/// The figures of an output that a task message carries.
#[derive(Debug, Default, PartialEq, Eq)]
pub struct TaskOutputSummary {
    pub revision: u64,
    pub primary_result_id: String,
    pub result_count: u32,
    pub successful_result_count: u32,
    pub failed_result_count: u32,
    pub available_artifact_count: u32,
}

/// What a `TaskOutputSummary` holds.
#[verifier::ext_equal]
pub struct TaskOutputSummaryView {
    pub revision: u64,
    pub primary_result_id: Seq<char>,
    pub result_count: u32,
    pub successful_result_count: u32,
    pub failed_result_count: u32,
    pub available_artifact_count: u32,
}

impl DeepView for TaskOutputSummary {
    type V = TaskOutputSummaryView;

    open spec fn deep_view(&self) -> TaskOutputSummaryView {
        TaskOutputSummaryView {
            revision: self.revision,
            primary_result_id: self.primary_result_id.deep_view(),
            result_count: self.result_count,
            successful_result_count: self.successful_result_count,
            failed_result_count: self.failed_result_count,
            available_artifact_count: self.available_artifact_count,
        }
    }
}

impl View for TaskOutputSummary {
    type V = TaskOutputSummaryView;

    #[verifier::inline]
    open spec fn view(&self) -> TaskOutputSummaryView {
        self.deep_view()
    }
}

impl Plain for TaskOutputSummary {
    fn duplicate(&self) -> (copy: Self) {
        TaskOutputSummary {
            revision: self.revision,
            primary_result_id: self.primary_result_id.duplicate(),
            result_count: self.result_count,
            successful_result_count: self.successful_result_count,
            failed_result_count: self.failed_result_count,
            available_artifact_count: self.available_artifact_count,
        }
    }

    fn same_as(&self, other: &Self) -> (same: bool) {
        self.revision == other.revision
            && self.primary_result_id.same_as(&other.primary_result_id)
            && self.result_count == other.result_count
            && self.successful_result_count == other.successful_result_count
            && self.failed_result_count == other.failed_result_count
            && self.available_artifact_count == other.available_artifact_count
    }
}

impl Clone for TaskOutputSummary {
    fn clone(&self) -> (copy: Self)
        ensures
            copy@ == self@,
    {
        self.duplicate()
    }
}

} // verus!
