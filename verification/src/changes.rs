//! What happens to a task, step by step.

use crate::hls::{
    primary_hls_session_id, primary_session, task_uses_hls_session_as_primary, uses_as_primary,
};
use crate::id_set::IdSet;
use crate::messages::{
    CANCELLED_BY_REQUEST_MESSAGE, CANCELLED_MESSAGE, CANCEL_REQUESTED_MESSAGE,
    PLAYABLE_EXPIRED_AFTER_RESTART_MESSAGE, PLAYBACK_CACHE_DELETED_MESSAGE,
    PLAYBACK_COMPLETED_MESSAGE, PLAYBACK_PLANNED_MESSAGE, PLAYBACK_PLAYABLE_MESSAGE,
    RUNNING_MESSAGE,
};
use crate::model::basics::{Progress, TaskKind, TaskState, Timestamp, full_progress, no_progress};
use crate::model::playback::{
    BilibiliPlaybackSession, BilibiliPlaybackSessionView, PlaybackSource, PlaybackSourceView,
};
use crate::model::task::{BilibiliTaskResultItem, BilibiliTaskResultItemView, Task, TaskView};
use crate::plain::Plain;
use crate::results::{
    adopt_session, cache_items_for_session, cache_with, cached_as, cached_source_option,
    changed_where, clear_completed_result_cache_item_for_session, clear_result_playback_metadata,
    clear_unrestorable_result_playback_metadata,
    clear_unrestorable_result_playback_metadata_for_session, ended_items, expire_with,
    fail_cache_with, items_progress, known_as, lost_in_restart,
    mark_result_cache_fill_failed_for_session, named_and_serving, newer_session,
    point_source_at_cache, refresh_result_item_playback_session,
    refresh_result_item_playback_source, result_items_progress, served_as, serves_as, some_item,
    with_session, with_source,
};
use crate::states::is_served;
use vstd::prelude::*;

verus! {

/// A playback task that has ended: nothing of it is played any more.
pub open spec fn closed(
    task: TaskView,
    state: TaskState,
    message: Seq<char>,
    now: Timestamp,
) -> TaskView {
    TaskView {
        state,
        message,
        library_item_id: Seq::empty(),
        playback_source: None,
        playback_session: None,
        result_items: ended_items(task.result_items, state, message),
        updated_at: Some(now),
        finished_at: Some(now),
        ..task
    }
}

pub(crate) fn close_playback(task: &mut Task, state: TaskState, message: &str, now: Timestamp)
    ensures
        final(task)@ == closed(old(task)@, state, message@, now),
{
    task.state = state;
    task.message = message.to_owned();
    task.library_item_id = String::new();
    task.playback_source = None;
    task.playback_session = None;
    clear_result_playback_metadata(&mut task.result_items, state, message);
    task.updated_at = Some(now);
    task.finished_at = Some(now);
}

/// A task whose worker has been asked to stop.
pub open spec fn asked_to_stop(task: TaskView, now: Timestamp) -> TaskView {
    TaskView {
        state: TaskState::CancelRequested,
        message: CANCEL_REQUESTED_MESSAGE@,
        updated_at: Some(now),
        ..task
    }
}

pub(crate) fn ask_to_stop(task: &mut Task, now: Timestamp)
    ensures
        final(task)@ == asked_to_stop(old(task)@, now),
{
    task.state = TaskState::CancelRequested;
    task.message = CANCEL_REQUESTED_MESSAGE.to_owned();
    task.updated_at = Some(now);
}

/// A task that is cancelled while nobody works on it. The library entry that it names, if any,
/// stays named.
pub open spec fn cancelled_at_rest(task: TaskView, now: Timestamp) -> TaskView {
    TaskView {
        state: TaskState::Cancelled,
        message: CANCELLED_MESSAGE@,
        playback_source: if task.is_playback() { None } else { task.playback_source },
        playback_session: if task.is_playback() { None } else { task.playback_session },
        result_items: if task.is_playback() {
            ended_items(task.result_items, TaskState::Cancelled, CANCELLED_MESSAGE@)
        } else {
            task.result_items
        },
        updated_at: Some(now),
        finished_at: Some(now),
        ..task
    }
}

pub(crate) fn cancel_at_rest(task: &mut Task, now: Timestamp)
    ensures
        final(task)@ == cancelled_at_rest(old(task)@, now),
{
    task.state = TaskState::Cancelled;
    task.message = CANCELLED_MESSAGE.to_owned();
    task.updated_at = Some(now);
    task.finished_at = Some(now);
    if task.kind == TaskKind::BilibiliProgressivePlayback {
        task.playback_source = None;
        task.playback_session = None;
        clear_result_playback_metadata(
            &mut task.result_items,
            TaskState::Cancelled,
            CANCELLED_MESSAGE,
        );
    }
}

/// A task on which a worker has started.
pub open spec fn started(task: TaskView, now: Timestamp) -> TaskView {
    TaskView {
        state: TaskState::Running,
        message: RUNNING_MESSAGE@,
        updated_at: Some(now),
        ..task
    }
}

pub(crate) fn start(task: &mut Task, now: Timestamp)
    ensures
        final(task)@ == started(old(task)@, now),
{
    task.state = TaskState::Running;
    task.message = RUNNING_MESSAGE.to_owned();
    task.updated_at = Some(now);
}

/// The bits of the double 1.0.
pub const ONE_BITS: u64 = 0x3FF0_0000_0000_0000;

/// The bits of the double 0.99.
pub const NEARLY_ONE_BITS: u64 = 0x3FEF_AE14_7AE1_47AE;

/// The bits of the double -0.0.
pub const SIGN_BIT: u64 = 0x8000_0000_0000_0000;

/// The bits of the double infinity.
pub const INFINITY_BITS: u64 = 0x7FF0_0000_0000_0000;

/// A measured fraction, brought between nothing and `upper`, both as the bits of a double. Of
/// doubles that are not negative, the greater one has the greater bits. What is not a finite
/// number is no fraction.
pub open spec fn measured(bits: u64, upper: u64) -> Option<Progress> {
    let magnitude = if bits >= SIGN_BIT { bits - SIGN_BIT } else { bits as int };
    if magnitude >= INFINITY_BITS {
        None
    } else if bits > SIGN_BIT {
        Some(Progress::Measured { bits: 0 })
    } else if bits < SIGN_BIT && bits > upper {
        Some(Progress::Measured { bits: upper })
    } else {
        Some(Progress::Measured { bits })
    }
}

pub(crate) fn measure(bits: u64, upper: u64) -> (progress: Option<Progress>)
    ensures
        progress == measured(bits, upper),
{
    let magnitude: u64 = if bits >= SIGN_BIT {
        bits - SIGN_BIT
    } else {
        bits
    };
    if magnitude >= INFINITY_BITS {
        None
    } else if bits > SIGN_BIT {
        Some(Progress::Measured { bits: 0 })
    } else if bits < SIGN_BIT && bits > upper {
        Some(Progress::Measured { bits: upper })
    } else {
        Some(Progress::Measured { bits })
    }
}

/// What a worker reports. The fraction is given as the bits of a double.
#[derive(Debug, Default)]
pub struct BilibiliTaskProgress {
    pub progress_bits: Option<u64>,
    pub downloaded_bytes: Option<i64>,
    pub total_bytes: Option<i64>,
    pub message: Option<String>,
}

pub open spec fn not_negative(value: i64) -> i64 {
    if value < 0 {
        0
    } else {
        value
    }
}

pub open spec fn or_current<A>(reported: Option<A>, current: A) -> A {
    match reported {
        Some(value) => value,
        None => current,
    }
}

/// A task with a worker's report entered.
pub open spec fn progressed(
    task: TaskView,
    report: BilibiliTaskProgress,
    now: Timestamp,
) -> TaskView {
    TaskView {
        progress: match report.progress_bits {
            Some(bits) => or_current(measured(bits, ONE_BITS), task.progress),
            None => task.progress,
        },
        downloaded_bytes: match report.downloaded_bytes {
            Some(value) => not_negative(value),
            None => task.downloaded_bytes,
        },
        total_bytes: match report.total_bytes {
            Some(value) => not_negative(value),
            None => task.total_bytes,
        },
        message: or_current(report.message.deep_view(), task.message),
        updated_at: Some(now),
        ..task
    }
}

pub(crate) fn enter_progress(task: &mut Task, report: BilibiliTaskProgress, now: Timestamp)
    ensures
        final(task)@ == progressed(old(task)@, report, now),
{
    if let Some(bits) = report.progress_bits {
        if let Some(progress) = measure(bits, ONE_BITS) {
            task.progress = progress;
        }
    }
    if let Some(value) = report.downloaded_bytes {
        task.downloaded_bytes = if value < 0 {
            0
        } else {
            value
        };
    }
    if let Some(value) = report.total_bytes {
        task.total_bytes = if value < 0 {
            0
        } else {
            value
        };
    }
    if let Some(message) = report.message {
        task.message = message;
    }
    task.updated_at = Some(now);
}

/// A task that ends because it was asked to, whatever its worker made of it. What it was played
/// from stays.
pub open spec fn stopped(task: TaskView, now: Timestamp) -> TaskView {
    TaskView {
        state: TaskState::Cancelled,
        message: CANCELLED_BY_REQUEST_MESSAGE@,
        updated_at: Some(now),
        finished_at: Some(now),
        ..task
    }
}

pub(crate) fn stop(task: &mut Task, now: Timestamp)
    ensures
        final(task)@ == stopped(old(task)@, now),
{
    task.state = TaskState::Cancelled;
    task.message = CANCELLED_BY_REQUEST_MESSAGE.to_owned();
    task.updated_at = Some(now);
    task.finished_at = Some(now);
}

/// A playback task whose plan is ready.
pub open spec fn planned(
    task: TaskView,
    title: Seq<char>,
    session: BilibiliPlaybackSessionView,
    now: Timestamp,
) -> TaskView {
    if task.state == TaskState::CancelRequested {
        stopped(task, now)
    } else {
        TaskView {
            state: TaskState::Planned,
            title,
            message: PLAYBACK_PLANNED_MESSAGE@,
            progress: no_progress(),
            playback_source: None,
            playback_session: Some(session),
            updated_at: Some(now),
            ..task
        }
    }
}

pub(crate) fn plan(
    task: &mut Task,
    title: String,
    session: BilibiliPlaybackSession,
    now: Timestamp,
)
    ensures
        final(task)@ == planned(old(task)@, title@, session@, now),
{
    if task.state == TaskState::CancelRequested {
        stop(task, now);
    } else {
        task.state = TaskState::Planned;
        task.title = title;
        task.message = PLAYBACK_PLANNED_MESSAGE.to_owned();
        task.progress = Progress::default();
        task.playback_source = None;
        task.playback_session = Some(session);
        task.updated_at = Some(now);
    }
}

/// A playback task that can be played.
pub open spec fn playable(
    task: TaskView,
    title: Seq<char>,
    source: PlaybackSourceView,
    session: BilibiliPlaybackSessionView,
    now: Timestamp,
) -> TaskView {
    if task.state == TaskState::CancelRequested {
        stopped(task, now)
    } else {
        TaskView {
            state: TaskState::Playable,
            title,
            message: PLAYBACK_PLAYABLE_MESSAGE@,
            progress: no_progress(),
            playback_source: Some(source),
            playback_session: Some(session),
            updated_at: Some(now),
            ..task
        }
    }
}

pub(crate) fn make_playable(
    task: &mut Task,
    title: String,
    source: PlaybackSource,
    session: BilibiliPlaybackSession,
    now: Timestamp,
)
    ensures
        final(task)@ == playable(old(task)@, title@, source@, session@, now),
{
    if task.state == TaskState::CancelRequested {
        stop(task, now);
    } else {
        task.state = TaskState::Playable;
        task.title = title;
        task.message = PLAYBACK_PLAYABLE_MESSAGE.to_owned();
        task.progress = Progress::default();
        task.playback_source = Some(source);
        task.playback_session = Some(session);
        task.updated_at = Some(now);
    }
}

/// A playback task with new results on the way. Its progress stays below all.
pub open spec fn with_results(
    task: TaskView,
    title: Option<Seq<char>>,
    message: Seq<char>,
    progress_bits: u64,
    items: Seq<BilibiliTaskResultItemView>,
    now: Timestamp,
) -> TaskView {
    TaskView {
        title: or_current(title, task.title),
        message,
        progress: or_current(measured(progress_bits, NEARLY_ONE_BITS), task.progress),
        result_items: items,
        updated_at: Some(now),
        ..task
    }
}

pub(crate) fn enter_results(
    task: &mut Task,
    title: Option<String>,
    message: String,
    progress_bits: u64,
    items: Vec<BilibiliTaskResultItem>,
    now: Timestamp,
)
    ensures
        final(task)@ == with_results(
            old(task)@,
            title.deep_view(),
            message@,
            progress_bits,
            items.deep_view(),
            now,
        ),
{
    if let Some(title) = title {
        task.title = title;
    }
    task.message = message;
    if let Some(progress) = measure(progress_bits, NEARLY_ONE_BITS) {
        task.progress = progress;
    }
    task.result_items = items;
    task.updated_at = Some(now);
}

/// A playback task with several results that can be played.
pub open spec fn playable_with_results(
    task: TaskView,
    title: Seq<char>,
    message: Seq<char>,
    source: PlaybackSourceView,
    session: BilibiliPlaybackSessionView,
    items: Seq<BilibiliTaskResultItemView>,
    now: Timestamp,
) -> TaskView {
    if task.state == TaskState::CancelRequested {
        TaskView {
            playback_source: None,
            playback_session: None,
            result_items: ended_items(
                task.result_items,
                TaskState::Cancelled,
                CANCELLED_BY_REQUEST_MESSAGE@,
            ),
            ..stopped(task, now)
        }
    } else {
        TaskView {
            state: TaskState::Playable,
            title,
            message,
            progress: no_progress(),
            playback_source: Some(source),
            playback_session: Some(session),
            result_items: items,
            updated_at: Some(now),
            ..task
        }
    }
}

pub(crate) fn make_playable_with_results(
    task: &mut Task,
    title: String,
    message: String,
    source: PlaybackSource,
    session: BilibiliPlaybackSession,
    items: Vec<BilibiliTaskResultItem>,
    now: Timestamp,
)
    ensures
        final(task)@ == playable_with_results(
            old(task)@,
            title@,
            message@,
            source@,
            session@,
            items.deep_view(),
            now,
        ),
{
    if task.state == TaskState::CancelRequested {
        stop(task, now);
        task.playback_source = None;
        task.playback_session = None;
        clear_result_playback_metadata(
            &mut task.result_items,
            TaskState::Cancelled,
            CANCELLED_BY_REQUEST_MESSAGE,
        );
    } else {
        task.state = TaskState::Playable;
        task.title = title;
        task.message = message;
        task.progress = Progress::default();
        task.playback_source = Some(source);
        task.playback_session = Some(session);
        task.result_items = items;
        task.updated_at = Some(now);
    }
}

pub const RESULTS_CACHED_AFTER_COMPLETION_MESSAGE: &'static str =
    "Completed offline; selected Bilibili playback results are cached.";

pub const RESULTS_CACHED_WHILE_PLAYABLE_MESSAGE: &'static str =
    "Playable online; selected Bilibili playback results are cached offline.";

/// A playback task of which the session `session_id` is completely cached. The primary session
/// completes the task; that of a result only completes the result.
pub open spec fn cached(
    task: TaskView,
    session_id: Seq<char>,
    library_item_id: Seq<char>,
    session: Option<BilibiliPlaybackSessionView>,
    now: Timestamp,
) -> TaskView {
    let items = changed_where(
        task.result_items,
        known_as(session_id),
        cache_with(library_item_id, session),
    );
    if task.state == TaskState::CancelRequested {
        closed(task, TaskState::Cancelled, CANCELLED_BY_REQUEST_MESSAGE@, now)
    } else if uses_as_primary(task, session_id) {
        TaskView {
            state: TaskState::Completed,
            message: PLAYBACK_COMPLETED_MESSAGE@,
            library_item_id,
            playback_source: cached_source_option(task.playback_source, library_item_id, session),
            playback_session: newer_session(task.playback_session, session),
            result_items: items,
            progress: full_progress(),
            updated_at: Some(now),
            finished_at: Some(now),
            ..task
        }
    } else {
        TaskView {
            result_items: items,
            progress: items_progress(items),
            message: if task.state == TaskState::Completed {
                RESULTS_CACHED_AFTER_COMPLETION_MESSAGE@
            } else {
                RESULTS_CACHED_WHILE_PLAYABLE_MESSAGE@
            },
            updated_at: Some(now),
            ..task
        }
    }
}

pub(crate) fn enter_cached_session(
    task: &mut Task,
    session_id: &str,
    library_item_id: &String,
    session: &Option<BilibiliPlaybackSession>,
    now: Timestamp,
)
    ensures
        final(task)@ == cached(
            old(task)@,
            session_id@,
            library_item_id@,
            session.deep_view(),
            now,
        ),
{
    if task.state == TaskState::CancelRequested {
        close_playback(task, TaskState::Cancelled, CANCELLED_BY_REQUEST_MESSAGE, now);
    } else if task_uses_hls_session_as_primary(task, session_id) {
        task.state = TaskState::Completed;
        task.message = PLAYBACK_COMPLETED_MESSAGE.to_owned();
        task.library_item_id = library_item_id.clone();
        point_source_at_cache(&mut task.playback_source, library_item_id, session);
        adopt_session(&mut task.playback_session, session);
        cache_items_for_session(&mut task.result_items, session_id, library_item_id, session);
        task.progress = Progress::Exact { done: 1, total: 1 };
        task.updated_at = Some(now);
        task.finished_at = Some(now);
    } else {
        cache_items_for_session(&mut task.result_items, session_id, library_item_id, session);
        task.progress = result_items_progress(&task.result_items);
        task.message =
        if task.state == TaskState::Completed {
            RESULTS_CACHED_AFTER_COMPLETION_MESSAGE.to_owned()
        } else {
            RESULTS_CACHED_WHILE_PLAYABLE_MESSAGE.to_owned()
        };
        task.updated_at = Some(now);
    }
}

/// What a playback task says once some of its results could not be cached.
pub const RESULTS_NOT_CACHED_AFTER_COMPLETION_MESSAGE: &'static str =
    "Completed offline; some Bilibili playback results failed to cache offline.";

pub const RESULTS_NOT_CACHED_WHILE_PLAYABLE_MESSAGE: &'static str =
    "Playable online; some Bilibili playback results failed to cache offline.";

/// A playback task of which the cache for `session_id` could not be filled; nothing, if that does
/// not concern it. If it is the primary session, the task itself carries the message.
pub open spec fn cache_fill_failed(
    task: TaskView,
    session_id: Seq<char>,
    message: Seq<char>,
    now: Timestamp,
) -> Option<TaskView> {
    let concerned = some_item(task.result_items, served_as(session_id));
    let items = changed_where(
        task.result_items,
        served_as(session_id),
        fail_cache_with(message),
    );
    let progress = if concerned { items_progress(items) } else { task.progress };
    if uses_as_primary(task, session_id) {
        if task.state == TaskState::Playable {
            Some(
                TaskView { message, result_items: items, progress, updated_at: Some(now), ..task },
            )
        } else {
            None
        }
    } else if task.is_served() && concerned {
        Some(
            TaskView {
                message: if task.state == TaskState::Completed {
                    RESULTS_NOT_CACHED_AFTER_COMPLETION_MESSAGE@
                } else {
                    RESULTS_NOT_CACHED_WHILE_PLAYABLE_MESSAGE@
                },
                result_items: items,
                progress,
                updated_at: Some(now),
                ..task
            },
        )
    } else {
        None
    }
}

pub(crate) fn fail_cache_fill(
    task: &mut Task,
    session_id: &str,
    message: String,
    now: Timestamp,
) -> (changed: bool)
    ensures
        changed == (cache_fill_failed(old(task)@, session_id@, message@, now) is Some),
        final(task)@ == or_current(
            cache_fill_failed(old(task)@, session_id@, message@, now),
            old(task)@,
        ),
{
    if task_uses_hls_session_as_primary(task, session_id) {
        if task.state != TaskState::Playable {
            return false;
        }
        if mark_result_cache_fill_failed_for_session(
            &mut task.result_items,
            session_id,
            message.as_str(),
        ) {
            task.progress = result_items_progress(&task.result_items);
        }
        task.message = message;
        task.updated_at = Some(now);
        return true;
    }
    if !is_served(task.state) {
        return false;
    }
    let ghost before = task@.result_items;
    if !mark_result_cache_fill_failed_for_session(
        &mut task.result_items,
        session_id,
        message.as_str(),
    ) {
        proof {
            assert forall|i: int| 0 <= i < before.len() implies !served_as(session_id@)(
                #[trigger] before[i],
            ) by {}
            assert(changed_where(before, served_as(session_id@), fail_cache_with(message@))
                =~= before);
        }
        return false;
    }
    task.progress = result_items_progress(&task.result_items);
    task.message =
    if task.state == TaskState::Completed {
        RESULTS_NOT_CACHED_AFTER_COMPLETION_MESSAGE.to_owned()
    } else {
        RESULTS_NOT_CACHED_WHILE_PLAYABLE_MESSAGE.to_owned()
    };
    task.updated_at = Some(now);
    true
}

/// The refreshed source of the task itself: it plays from the library once the task is completed.
pub open spec fn refreshed_source(
    task: TaskView,
    source: PlaybackSourceView,
) -> PlaybackSourceView {
    PlaybackSourceView {
        item_id: if task.state == TaskState::Completed && task.library_item_id.len() > 0 {
            task.library_item_id
        } else {
            task.id
        },
        ..source
    }
}

pub fn primary_playback_source_for_refresh(
    task: &Task,
    playback_source: &PlaybackSource,
) -> (source: PlaybackSource)
    ensures
        source@ == refreshed_source(task@, playback_source@),
{
    let mut refreshed = playback_source.duplicate();
    refreshed.item_id =
    if task.state == TaskState::Completed && !task.library_item_id.as_str().is_empty() {
        task.library_item_id.clone()
    } else {
        task.id.clone()
    };
    refreshed
}

/// The results with the new source entered for `session_id`, and the new session where there is
/// one.
pub open spec fn refreshed_items(
    items: Seq<BilibiliTaskResultItemView>,
    session_id: Seq<char>,
    source: PlaybackSourceView,
    session: Option<BilibiliPlaybackSessionView>,
) -> Seq<BilibiliTaskResultItemView> {
    let sourced = changed_where(items, named_and_serving(session_id), with_source(source));
    match session {
        Some(session) => changed_where(sourced, serves_as(session_id), with_session(session)),
        None => sourced,
    }
}

/// A served playback task with the source of the session `session_id` brought up to date.
/// `by_task_id` says that the session was looked up as the identifier of the task: its own source
/// is then brought up to date whichever session is its primary one.
pub open spec fn refreshed_playback(
    task: TaskView,
    session_id: Seq<char>,
    source: PlaybackSourceView,
    session: Option<BilibiliPlaybackSessionView>,
    by_task_id: bool,
) -> TaskView {
    let sourced = TaskView {
        playback_source: if by_task_id || uses_as_primary(task, session_id) {
            Some(refreshed_source(task, source))
        } else {
            task.playback_source
        },
        ..task
    };
    let is_primary = if by_task_id {
        uses_as_primary(sourced, session_id)
    } else {
        uses_as_primary(task, session_id)
    };
    TaskView {
        playback_session: if is_primary {
            newer_session(task.playback_session, session)
        } else {
            task.playback_session
        },
        result_items: refreshed_items(task.result_items, session_id, source, session),
        ..sourced
    }
}

pub(crate) fn refresh_playback(
    task: &mut Task,
    session_id: &str,
    source: &PlaybackSource,
    session: &Option<BilibiliPlaybackSession>,
    by_task_id: bool,
)
    ensures
        final(task)@ == refreshed_playback(
            old(task)@,
            session_id@,
            source@,
            session.deep_view(),
            by_task_id,
        ),
{
    let was_primary: bool = task_uses_hls_session_as_primary(task, session_id);
    if by_task_id || was_primary {
        task.playback_source = Some(primary_playback_source_for_refresh(task, source));
    }
    let is_primary: bool = if by_task_id {
        task_uses_hls_session_as_primary(task, session_id)
    } else {
        was_primary
    };
    if is_primary {
        adopt_session(&mut task.playback_session, session);
    }
    refresh_result_item_playback_source(task, session_id, source);
    if let Some(session) = session {
        refresh_result_item_playback_session(task, session_id, session);
    }
}

/// A task that its worker has brought to an end in `state`. A task that was asked to stop ends as
/// cancelled, whatever its worker made of it. The library entry and the progress are those of a
/// success only.
pub open spec fn completed(
    task: TaskView,
    state: TaskState,
    message: Seq<char>,
    library_item_id: Option<Seq<char>>,
    progress_bits: Option<u64>,
    now: Timestamp,
) -> TaskView {
    let asked = task.state == TaskState::CancelRequested;
    let end_state = if asked { TaskState::Cancelled } else { state };
    let end_message = if asked && state != TaskState::Cancelled {
        CANCELLED_BY_REQUEST_MESSAGE@
    } else {
        message
    };
    if task.is_playback() && (end_state == TaskState::Failed || end_state == TaskState::Cancelled) {
        closed(task, end_state, end_message, now)
    } else {
        TaskView {
            state: end_state,
            message: end_message,
            library_item_id: if end_state == TaskState::Succeeded {
                or_current(library_item_id, task.library_item_id)
            } else {
                task.library_item_id
            },
            progress: match progress_bits {
                Some(bits) => if end_state == TaskState::Succeeded {
                    or_current(measured(bits, ONE_BITS), task.progress)
                } else {
                    task.progress
                },
                None => task.progress,
            },
            updated_at: Some(now),
            finished_at: Some(now),
            ..task
        }
    }
}

pub(crate) fn complete(
    task: &mut Task,
    state: TaskState,
    message: String,
    library_item_id: Option<String>,
    progress_bits: Option<u64>,
    now: Timestamp,
)
    ensures
        final(task)@ == completed(
            old(task)@,
            state,
            message@,
            library_item_id.deep_view(),
            progress_bits,
            now,
        ),
{
    let asked: bool = task.state == TaskState::CancelRequested;
    let end_state = if asked {
        TaskState::Cancelled
    } else {
        state
    };
    let end_message = if asked && state != TaskState::Cancelled {
        CANCELLED_BY_REQUEST_MESSAGE.to_owned()
    } else {
        message
    };
    if task.kind == TaskKind::BilibiliProgressivePlayback && matches!(
        end_state,
        TaskState::Failed | TaskState::Cancelled
    ) {
        close_playback(task, end_state, end_message.as_str(), now);
        return;
    }
    task.state = end_state;
    task.message = end_message;
    if end_state == TaskState::Succeeded {
        if let Some(library_item_id) = library_item_id {
            task.library_item_id = library_item_id;
        }
        if let Some(bits) = progress_bits {
            if let Some(progress) = measure(bits, ONE_BITS) {
                task.progress = progress;
            }
        }
    }
    task.updated_at = Some(now);
    task.finished_at = Some(now);
}

/// The tombstone of a task whose cache was deleted.
pub open spec fn removed(task: TaskView, now: Timestamp) -> TaskView {
    closed(task, TaskState::Failed, PLAYBACK_CACHE_DELETED_MESSAGE@, now)
}

pub const RESULTS_LOST_AFTER_COMPLETION_MESSAGE: &'static str =
    "Completed offline cache restored; some Bilibili playback results expired after cache restore.";

pub const RESULTS_LOST_WHILE_PLAYABLE_MESSAGE: &'static str =
    "Playable online; some Bilibili playback results expired after cache restore.";

/// A task with some of its results expired, and its progress and message to match.
pub open spec fn with_expired_results(
    task: TaskView,
    items: Seq<BilibiliTaskResultItemView>,
    message: Seq<char>,
    now: Timestamp,
) -> TaskView {
    TaskView {
        result_items: items,
        progress: items_progress(items),
        message,
        updated_at: Some(now),
        ..task
    }
}

/// A served playback task whose session `session_id` could not be restored. Without its primary
/// session the task has failed; without that of a result, the result has.
pub open spec fn without_session(
    task: TaskView,
    session_id: Seq<char>,
    message: Seq<char>,
    now: Timestamp,
) -> TaskView {
    if uses_as_primary(task, session_id) {
        closed(task, TaskState::Failed, message, now)
    } else {
        with_expired_results(
            task,
            changed_where(task.result_items, serves_as(session_id), expire_with(message)),
            if task.state == TaskState::Completed {
                RESULTS_LOST_AFTER_COMPLETION_MESSAGE@
            } else {
                RESULTS_LOST_WHILE_PLAYABLE_MESSAGE@
            },
            now,
        )
    }
}

pub(crate) fn drop_session(
    task: &mut Task,
    session_id: &str,
    message: &str,
    now: Timestamp,
)
    ensures
        final(task)@ == without_session(old(task)@, session_id@, message@, now),
{
    if task_uses_hls_session_as_primary(task, session_id) {
        close_playback(task, TaskState::Failed, message, now);
        return;
    }
    let _ = clear_unrestorable_result_playback_metadata_for_session(
        &mut task.result_items,
        session_id,
        message,
    );
    task.progress = result_items_progress(&task.result_items);
    task.message =
    if task.state == TaskState::Completed {
        RESULTS_LOST_AFTER_COMPLETION_MESSAGE.to_owned()
    } else {
        RESULTS_LOST_WHILE_PLAYABLE_MESSAGE.to_owned()
    };
    task.updated_at = Some(now);
}

pub const RESULTS_EXPIRED_AFTER_COMPLETION_MESSAGE: &'static str =
    "Completed offline cache restored; some Bilibili playback results expired after restart.";

pub const RESULTS_EXPIRED_WHILE_PLAYABLE_MESSAGE: &'static str =
    "Playable online; some Bilibili playback results expired after restart.";

/// The primary session of a served task came back after a restart.
pub open spec fn primary_came_back(
    task: TaskView,
    playable: Set<Seq<char>>,
    completed: Set<Seq<char>>,
) -> bool {
    match primary_session(task) {
        Some(session_id) => if task.state == TaskState::Completed {
            completed.contains(session_id)
        } else {
            playable.contains(session_id)
        },
        None => false,
    }
}

/// What a restart makes of a served playback task, given the sessions that came back; nothing, if
/// it stays as it is.
pub open spec fn after_restart(
    task: TaskView,
    playable: Set<Seq<char>>,
    completed: Set<Seq<char>>,
    now: Timestamp,
) -> Option<TaskView> {
    let lost = lost_in_restart(playable, completed);
    if !task.is_playback() || !task.is_served() {
        None
    } else if !primary_came_back(task, playable, completed) {
        Some(closed(task, TaskState::Failed, PLAYABLE_EXPIRED_AFTER_RESTART_MESSAGE@, now))
    } else if some_item(task.result_items, lost) {
        Some(
            with_expired_results(
                task,
                changed_where(
                    task.result_items,
                    lost,
                    expire_with(PLAYABLE_EXPIRED_AFTER_RESTART_MESSAGE@),
                ),
                if task.state == TaskState::Completed {
                    RESULTS_EXPIRED_AFTER_COMPLETION_MESSAGE@
                } else {
                    RESULTS_EXPIRED_WHILE_PLAYABLE_MESSAGE@
                },
                now,
            ),
        )
    } else {
        None
    }
}

pub(crate) fn enter_restart(
    task: &mut Task,
    playable: &IdSet,
    completed: &IdSet,
    now: Timestamp,
) -> (changed: bool)
    ensures
        changed == (after_restart(old(task)@, playable@, completed@, now) is Some),
        final(task)@ == or_current(
            after_restart(old(task)@, playable@, completed@, now),
            old(task)@,
        ),
{
    if task.kind != TaskKind::BilibiliProgressivePlayback || !is_served(task.state) {
        return false;
    }
    let came_back: bool = match primary_hls_session_id(task) {
        Some(session_id) => if task.state == TaskState::Completed {
            completed.contains(&session_id)
        } else {
            playable.contains(&session_id)
        },
        None => false,
    };
    if !came_back {
        close_playback(task, TaskState::Failed, PLAYABLE_EXPIRED_AFTER_RESTART_MESSAGE, now);
        return true;
    }
    let ghost before = task@.result_items;
    if !clear_unrestorable_result_playback_metadata(&mut task.result_items, playable, completed) {
        proof {
            let lost = lost_in_restart(playable@, completed@);
            assert forall|i: int| 0 <= i < before.len() implies !lost(#[trigger] before[i]) by {}
            assert(changed_where(
                before,
                lost,
                expire_with(PLAYABLE_EXPIRED_AFTER_RESTART_MESSAGE@),
            ) =~= before);
        }
        return false;
    }
    task.progress = result_items_progress(&task.result_items);
    task.message =
    if task.state == TaskState::Completed {
        RESULTS_EXPIRED_AFTER_COMPLETION_MESSAGE.to_owned()
    } else {
        RESULTS_EXPIRED_WHILE_PLAYABLE_MESSAGE.to_owned()
    };
    task.updated_at = Some(now);
    true
}

pub const RESULT_DELETED_AFTER_COMPLETION_MESSAGE: &'static str =
    "Completed offline; one cached Bilibili playback result was deleted.";

pub const RESULT_DELETED_WHILE_PLAYABLE_MESSAGE: &'static str =
    "Playable online; one cached Bilibili playback result was deleted.";

/// A served playback task of which the cached result for a session was deleted.
pub open spec fn without_cached_result(
    task: TaskView,
    session_id: Seq<char>,
    library_item_id: Seq<char>,
    now: Timestamp,
) -> TaskView {
    let deleted = expire_with(PLAYBACK_CACHE_DELETED_MESSAGE@);
    if task.state == TaskState::Completed {
        with_expired_results(
            task,
            changed_where(task.result_items, cached_as(session_id, library_item_id), deleted),
            RESULT_DELETED_AFTER_COMPLETION_MESSAGE@,
            now,
        )
    } else {
        with_expired_results(
            task,
            changed_where(task.result_items, serves_as(session_id), deleted),
            RESULT_DELETED_WHILE_PLAYABLE_MESSAGE@,
            now,
        )
    }
}

pub(crate) fn delete_cached_result(
    task: &mut Task,
    session_id: &str,
    library_item_id: &str,
    now: Timestamp,
)
    ensures
        final(task)@ == without_cached_result(old(task)@, session_id@, library_item_id@, now),
{
    if task.state == TaskState::Completed {
        let _ = clear_completed_result_cache_item_for_session(
            &mut task.result_items,
            session_id,
            library_item_id,
            PLAYBACK_CACHE_DELETED_MESSAGE,
        );
        task.message = RESULT_DELETED_AFTER_COMPLETION_MESSAGE.to_owned();
    } else {
        let _ = clear_unrestorable_result_playback_metadata_for_session(
            &mut task.result_items,
            session_id,
            PLAYBACK_CACHE_DELETED_MESSAGE,
        );
        task.message = RESULT_DELETED_WHILE_PLAYABLE_MESSAGE.to_owned();
    }
    task.progress = result_items_progress(&task.result_items);
    task.updated_at = Some(now);
}

/// What is entered of a reported fraction lies between nothing and `upper`, where minus zero counts
/// as nothing.
pub proof fn law_measured_progress_stays_in_range(bits: u64, upper: u64)
    requires
        upper <= ONE_BITS,
    ensures
        measured(bits, upper) matches Some(progress) ==> {
            &&& progress is Measured
            &&& progress->bits <= upper || progress->bits == SIGN_BIT
        },
{
}

} // verus!
