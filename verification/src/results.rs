//! How the results of a task change.

use crate::hls::{
    item_serves, item_survives_restore, item_uses,
    result_item_can_serve_online_playback_after_task_completion,
    result_item_can_survive_restore_when_session_is_restorable, result_item_uses_hls_session,
};
use crate::id_set::IdSet;
use crate::messages::{PLAYABLE_EXPIRED_AFTER_RESTART_MESSAGE, PLAYBACK_COMPLETED_MESSAGE};
use crate::model::basics::{Progress, TaskState, no_progress};
use crate::model::playback::{
    BilibiliPlaybackSession, BilibiliPlaybackSessionView, PlaybackSource, PlaybackSourceView,
};
use crate::model::task::{BilibiliTaskResultItem, BilibiliTaskResultItemView, Task, TaskView};
use crate::plain::Plain;
use crate::states::{is_served, served_state};
use crate::text::same_text;
use vstd::prelude::*;

verus! {

pub type Items = Seq<BilibiliTaskResultItemView>;

/// The results with `change` made to those for which `applies` holds.
pub open spec fn changed_where(
    items: Items,
    applies: spec_fn(BilibiliTaskResultItemView) -> bool,
    change: spec_fn(BilibiliTaskResultItemView) -> BilibiliTaskResultItemView,
) -> Items {
    Seq::new(
        items.len(),
        |i: int|
            if applies(items[i]) {
                change(items[i])
            } else {
                items[i]
            },
    )
}

/// `applies` holds for some result.
pub open spec fn some_item(
    items: Items,
    applies: spec_fn(BilibiliTaskResultItemView) -> bool,
) -> bool {
    exists|i: int| 0 <= i < items.len() && applies(#[trigger] items[i])
}

/// The states that count as done in the progress of a task.
pub open spec fn finished_item(item: BilibiliTaskResultItemView) -> bool {
    item.state == TaskState::Playable || item.state == TaskState::Completed || item.state
        == TaskState::Failed || item.state == TaskState::Cancelled
}

pub open spec fn finished_count(items: Items) -> nat
    decreases items.len(),
{
    if items.len() == 0 {
        0
    } else {
        finished_count(items.drop_last()) + if finished_item(items.last()) {
            1nat
        } else {
            0nat
        }
    }
}

/// The share of the results that are done; nothing, where there are no results.
pub open spec fn items_progress(items: Items) -> Progress {
    if items.len() == 0 {
        no_progress()
    } else {
        Progress::Exact { done: finished_count(items) as u64, total: items.len() as u64 }
    }
}

pub proof fn lemma_finished_count(items: Items)
    ensures
        finished_count(items) <= items.len(),
    decreases items.len(),
{
    if items.len() > 0 {
        lemma_finished_count(items.drop_last());
    }
}

pub fn result_items_progress(items: &Vec<BilibiliTaskResultItem>) -> (progress: Progress)
    ensures
        progress == items_progress(items.deep_view()),
{
    if items.is_empty() {
        return Progress::default();
    }
    let ghost all = items.deep_view();
    let mut finished: u64 = 0;
    proof {
        assert(all.take(0).len() == 0);
    }
    for index in 0..items.len()
        invariant
            all == items.deep_view(),
            finished == finished_count(all.take(index as int)),
            finished <= index <= u64::MAX,
    {
        proof {
            assert(all.take(index + 1).drop_last() =~= all.take(index as int));
            assert(all.take(index + 1).last() == items[index as int]@);
        }
        if matches!(
            items[index].state,
            TaskState::Playable | TaskState::Completed | TaskState::Failed | TaskState::Cancelled
        ) {
            finished = finished + 1;
        }
    }
    proof {
        assert(all.take(all.len() as int) =~= all);
    }
    Progress::Exact { done: finished, total: items.len() as u64 }
}

/// A result of a task that has ended in `state`: nothing of it is played any more, and unless it
/// had failed or been cancelled on its own it ends as the task does.
pub open spec fn ended_item(
    item: BilibiliTaskResultItemView,
    state: TaskState,
    message: Seq<char>,
) -> BilibiliTaskResultItemView {
    let ended_before = item.state == TaskState::Failed || item.state == TaskState::Cancelled;
    BilibiliTaskResultItemView {
        state: if ended_before { item.state } else { state },
        message: if ended_before { item.message } else { message },
        library_item_id: Seq::empty(),
        playback_source: None,
        playback_session: None,
        ..item
    }
}

pub open spec fn ended_items(items: Items, state: TaskState, message: Seq<char>) -> Items {
    Seq::new(items.len(), |i: int| ended_item(items[i], state, message))
}

fn end_item(item: &mut BilibiliTaskResultItem, terminal_state: TaskState, terminal_message: &str)
    ensures
        final(item)@ == ended_item(old(item)@, terminal_state, terminal_message@),
{
    if !matches!(item.state, TaskState::Failed | TaskState::Cancelled) {
        item.state = terminal_state;
        item.message = terminal_message.to_owned();
    }
    item.library_item_id = String::new();
    item.playback_source = None;
    item.playback_session = None;
}

pub fn clear_result_playback_metadata(
    items: &mut Vec<BilibiliTaskResultItem>,
    terminal_state: TaskState,
    terminal_message: &str,
)
    ensures
        final(items).deep_view() == ended_items(
            old(items).deep_view(),
            terminal_state,
            terminal_message@,
        ),
{
    let ghost before = items.deep_view();
    let count: usize = items.len();
    for index in 0..count
        invariant
            count == before.len(),
            items@.len() == before.len(),
            forall|i: int|
                0 <= i < index ==> #[trigger] items@[i]@ == ended_item(
                    before[i],
                    terminal_state,
                    terminal_message@,
                ),
            forall|i: int| index <= i < before.len() ==> #[trigger] items@[i]@ == before[i],
    {
        proof {
            assert(items@[index as int]@ == before[index as int]);
        }
        end_item(&mut items[index], terminal_state, terminal_message);
    }
    proof {
        assert(items.deep_view() =~= ended_items(before, terminal_state, terminal_message@));
    }
}

/// A result whose session is gone.
pub open spec fn expired_item(
    item: BilibiliTaskResultItemView,
    message: Seq<char>,
) -> BilibiliTaskResultItemView {
    BilibiliTaskResultItemView {
        state: TaskState::Failed,
        message,
        library_item_id: Seq::empty(),
        playback_source: None,
        playback_session: None,
        ..item
    }
}

fn expire_item(item: &mut BilibiliTaskResultItem, message: &str)
    ensures
        final(item)@ == expired_item(old(item)@, message@),
{
    item.state = TaskState::Failed;
    item.message = message.to_owned();
    item.library_item_id = String::new();
    item.playback_source = None;
    item.playback_session = None;
}

/// A served result of which no session came back after a restart.
pub open spec fn lost_in_restart(
    playable: Set<Seq<char>>,
    completed: Set<Seq<char>>,
) -> spec_fn(BilibiliTaskResultItemView) -> bool {
    |item: BilibiliTaskResultItemView|
        item_serves(item) && !item_survives_restore(item, playable, completed)
}

pub open spec fn expire_with(
    message: Seq<char>,
) -> spec_fn(BilibiliTaskResultItemView) -> BilibiliTaskResultItemView {
    |item: BilibiliTaskResultItemView| expired_item(item, message)
}

pub fn clear_unrestorable_result_playback_metadata(
    items: &mut Vec<BilibiliTaskResultItem>,
    restorable_playable_session_ids: &IdSet,
    restorable_completed_session_ids: &IdSet,
) -> (changed: bool)
    ensures
        final(items).deep_view() == changed_where(
            old(items).deep_view(),
            lost_in_restart(restorable_playable_session_ids@, restorable_completed_session_ids@),
            expire_with(PLAYABLE_EXPIRED_AFTER_RESTART_MESSAGE@),
        ),
        changed == some_item(
            old(items).deep_view(),
            lost_in_restart(restorable_playable_session_ids@, restorable_completed_session_ids@),
        ),
{
    let ghost before = items.deep_view();
    let ghost applies = lost_in_restart(
        restorable_playable_session_ids@,
        restorable_completed_session_ids@,
    );
    let ghost change = expire_with(PLAYABLE_EXPIRED_AFTER_RESTART_MESSAGE@);
    let mut changed: bool = false;
    let count: usize = items.len();
    for index in 0..count
        invariant
            count == before.len(),
            items@.len() == before.len(),
            applies == lost_in_restart(
                restorable_playable_session_ids@,
                restorable_completed_session_ids@,
            ),
            change == expire_with(PLAYABLE_EXPIRED_AFTER_RESTART_MESSAGE@),
            changed == exists|i: int| 0 <= i < index && applies(#[trigger] before[i]),
            forall|i: int|
                0 <= i < index ==> #[trigger] items@[i]@ == changed_where(
                    before,
                    applies,
                    change,
                )[i],
            forall|i: int| index <= i < before.len() ==> #[trigger] items@[i]@ == before[i],
    {
        proof {
            assert(items@[index as int]@ == before[index as int]);
        }
        if !result_item_can_survive_restore_when_session_is_restorable(
            &items[index],
            restorable_playable_session_ids,
            restorable_completed_session_ids,
        ) && result_item_can_serve_online_playback_after_task_completion(&items[index]) {
            expire_item(&mut items[index], PLAYABLE_EXPIRED_AFTER_RESTART_MESSAGE);
            changed = true;
            proof {
                assert(applies(before[index as int]));
            }
        }
    }
    proof {
        assert(items.deep_view() =~= changed_where(before, applies, change));
    }
    changed
}

/// A result that is known by `session_id` and can be played.
pub open spec fn serves_as(
    session_id: Seq<char>,
) -> spec_fn(BilibiliTaskResultItemView) -> bool {
    |item: BilibiliTaskResultItemView| item_serves(item) && item_uses(item, session_id)
}

pub fn clear_unrestorable_result_playback_metadata_for_session(
    items: &mut Vec<BilibiliTaskResultItem>,
    session_id: &str,
    message: &str,
) -> (changed: bool)
    ensures
        final(items).deep_view() == changed_where(
            old(items).deep_view(),
            serves_as(session_id@),
            expire_with(message@),
        ),
        changed == some_item(old(items).deep_view(), serves_as(session_id@)),
{
    let ghost before = items.deep_view();
    let ghost applies = serves_as(session_id@);
    let ghost change = expire_with(message@);
    let mut changed: bool = false;
    let count: usize = items.len();
    for index in 0..count
        invariant
            count == before.len(),
            items@.len() == before.len(),
            applies == serves_as(session_id@),
            change == expire_with(message@),
            changed == exists|i: int| 0 <= i < index && applies(#[trigger] before[i]),
            forall|i: int|
                0 <= i < index ==> #[trigger] items@[i]@ == changed_where(
                    before,
                    applies,
                    change,
                )[i],
            forall|i: int| index <= i < before.len() ==> #[trigger] items@[i]@ == before[i],
    {
        proof {
            assert(items@[index as int]@ == before[index as int]);
        }
        if result_item_can_serve_online_playback_after_task_completion(&items[index])
            && result_item_uses_hls_session(&items[index], session_id) {
            expire_item(&mut items[index], message);
            changed = true;
            proof {
                assert(applies(before[index as int]));
            }
        }
    }
    proof {
        assert(items.deep_view() =~= changed_where(before, applies, change));
    }
    changed
}

/// A result that is known by `session_id` and is playable or cached.
pub open spec fn served_as(
    session_id: Seq<char>,
) -> spec_fn(BilibiliTaskResultItemView) -> bool {
    |item: BilibiliTaskResultItemView| served_state(item.state) && item_uses(item, session_id)
}

/// A result whose cache could not be filled. What it is played from stays.
pub open spec fn fail_cache_with(
    message: Seq<char>,
) -> spec_fn(BilibiliTaskResultItemView) -> BilibiliTaskResultItemView {
    |item: BilibiliTaskResultItemView|
        BilibiliTaskResultItemView {
            state: TaskState::Failed,
            message,
            library_item_id: Seq::empty(),
            ..item
        }
}

pub fn mark_result_cache_fill_failed_for_session(
    items: &mut Vec<BilibiliTaskResultItem>,
    session_id: &str,
    message: &str,
) -> (changed: bool)
    ensures
        final(items).deep_view() == changed_where(
            old(items).deep_view(),
            served_as(session_id@),
            fail_cache_with(message@),
        ),
        changed == some_item(old(items).deep_view(), served_as(session_id@)),
{
    let ghost before = items.deep_view();
    let ghost applies = served_as(session_id@);
    let ghost change = fail_cache_with(message@);
    let mut changed: bool = false;
    let count: usize = items.len();
    for index in 0..count
        invariant
            count == before.len(),
            items@.len() == before.len(),
            applies == served_as(session_id@),
            change == fail_cache_with(message@),
            changed == exists|i: int| 0 <= i < index && applies(#[trigger] before[i]),
            forall|i: int|
                0 <= i < index ==> #[trigger] items@[i]@ == changed_where(
                    before,
                    applies,
                    change,
                )[i],
            forall|i: int| index <= i < before.len() ==> #[trigger] items@[i]@ == before[i],
    {
        proof {
            assert(items@[index as int]@ == before[index as int]);
        }
        if is_served(items[index].state) && result_item_uses_hls_session(
            &items[index],
            session_id,
        ) {
            let item = &mut items[index];
            item.state = TaskState::Failed;
            item.message = message.to_owned();
            item.library_item_id = String::new();
            changed = true;
            proof {
                assert(applies(before[index as int]));
            }
        }
    }
    proof {
        assert(items.deep_view() =~= changed_where(before, applies, change));
    }
    changed
}

/// A cached result that is known by `session_id` and stands in the library as `library_item_id`.
pub open spec fn cached_as(
    session_id: Seq<char>,
    library_item_id: Seq<char>,
) -> spec_fn(BilibiliTaskResultItemView) -> bool {
    |item: BilibiliTaskResultItemView|
        item.library_item_id == library_item_id && item.state == TaskState::Completed && item_uses(
            item,
            session_id,
        )
}

pub fn clear_completed_result_cache_item_for_session(
    items: &mut Vec<BilibiliTaskResultItem>,
    session_id: &str,
    library_item_id: &str,
    message: &str,
) -> (changed: bool)
    ensures
        final(items).deep_view() == changed_where(
            old(items).deep_view(),
            cached_as(session_id@, library_item_id@),
            expire_with(message@),
        ),
        changed == some_item(old(items).deep_view(), cached_as(session_id@, library_item_id@)),
{
    let ghost before = items.deep_view();
    let ghost applies = cached_as(session_id@, library_item_id@);
    let ghost change = expire_with(message@);
    let mut changed: bool = false;
    let count: usize = items.len();
    for index in 0..count
        invariant
            count == before.len(),
            items@.len() == before.len(),
            applies == cached_as(session_id@, library_item_id@),
            change == expire_with(message@),
            changed == exists|i: int| 0 <= i < index && applies(#[trigger] before[i]),
            forall|i: int|
                0 <= i < index ==> #[trigger] items@[i]@ == changed_where(
                    before,
                    applies,
                    change,
                )[i],
            forall|i: int| index <= i < before.len() ==> #[trigger] items@[i]@ == before[i],
    {
        proof {
            assert(items@[index as int]@ == before[index as int]);
        }
        if same_text(items[index].library_item_id.as_str(), library_item_id) && items[index].state
            == TaskState::Completed && result_item_uses_hls_session(&items[index], session_id) {
            expire_item(&mut items[index], message);
            changed = true;
            proof {
                assert(applies(before[index as int]));
            }
        }
    }
    proof {
        assert(items.deep_view() =~= changed_where(before, applies, change));
    }
    changed
}

/// Whether some cached result is known by `session_id` and stands in the library as
/// `library_item_id`.
pub(crate) fn holds_cached_item(
    items: &Vec<BilibiliTaskResultItem>,
    session_id: &str,
    library_item_id: &str,
) -> (found: bool)
    ensures
        found == some_item(items.deep_view(), cached_as(session_id@, library_item_id@)),
{
    let ghost applies = cached_as(session_id@, library_item_id@);
    for index in 0..items.len()
        invariant
            applies == cached_as(session_id@, library_item_id@),
            forall|i: int| 0 <= i < index ==> !applies(#[trigger] items.deep_view()[i]),
    {
        proof {
            assert(items.deep_view()[index as int] == items@[index as int]@);
        }
        if items[index].state == TaskState::Completed && same_text(
            items[index].library_item_id.as_str(),
            library_item_id,
        ) && result_item_uses_hls_session(&items[index], session_id) {
            proof {
                assert(applies(items.deep_view()[index as int]));
            }
            return true;
        }
    }
    false
}

/// Whether some result is known by `session_id` and can be played.
pub(crate) fn holds_serving_item(
    items: &Vec<BilibiliTaskResultItem>,
    session_id: &str,
) -> (found: bool)
    ensures
        found == some_item(items.deep_view(), serves_as(session_id@)),
{
    let ghost applies = serves_as(session_id@);
    for index in 0..items.len()
        invariant
            applies == serves_as(session_id@),
            forall|i: int| 0 <= i < index ==> !applies(#[trigger] items.deep_view()[i]),
    {
        proof {
            assert(items.deep_view()[index as int] == items@[index as int]@);
        }
        if result_item_uses_hls_session(&items[index], session_id)
            && result_item_can_serve_online_playback_after_task_completion(&items[index]) {
            proof {
                assert(applies(items.deep_view()[index as int]));
            }
            return true;
        }
    }
    false
}

/// A source that now plays the cached session: it stands in the library and does not expire.
pub open spec fn cached_source(
    source: PlaybackSourceView,
    library_item_id: Seq<char>,
    session: Option<BilibiliPlaybackSessionView>,
) -> PlaybackSourceView {
    PlaybackSourceView {
        item_id: library_item_id,
        variant_id: match session {
            Some(session) => session.selected_variant_id,
            None => source.variant_id,
        },
        expires_at: None,
        ..source
    }
}

pub open spec fn cached_source_option(
    source: Option<PlaybackSourceView>,
    library_item_id: Seq<char>,
    session: Option<BilibiliPlaybackSessionView>,
) -> Option<PlaybackSourceView> {
    match source {
        Some(source) => Some(cached_source(source, library_item_id, session)),
        None => None,
    }
}

/// The newer session where there is one.
pub open spec fn newer_session(
    current: Option<BilibiliPlaybackSessionView>,
    newer: Option<BilibiliPlaybackSessionView>,
) -> Option<BilibiliPlaybackSessionView> {
    match newer {
        Some(session) => Some(session),
        None => current,
    }
}

pub(crate) fn point_source_at_cache(
    source: &mut Option<PlaybackSource>,
    library_item_id: &String,
    session: &Option<BilibiliPlaybackSession>,
)
    ensures
        final(source).deep_view() == cached_source_option(
            old(source).deep_view(),
            library_item_id@,
            session.deep_view(),
        ),
{
    if let Some(found) = source {
        found.item_id = library_item_id.clone();
        if let Some(session) = session {
            found.variant_id = session.selected_variant_id.clone();
        }
        found.expires_at = None;
    }
}

pub(crate) fn adopt_session(
    current: &mut Option<BilibiliPlaybackSession>,
    newer: &Option<BilibiliPlaybackSession>,
)
    ensures
        final(current).deep_view() == newer_session(old(current).deep_view(), newer.deep_view()),
{
    if let Some(session) = newer {
        *current = Some(session.duplicate());
    }
}

/// A result whose session is completely cached.
pub open spec fn cache_with(
    library_item_id: Seq<char>,
    session: Option<BilibiliPlaybackSessionView>,
) -> spec_fn(BilibiliTaskResultItemView) -> BilibiliTaskResultItemView {
    |item: BilibiliTaskResultItemView|
        BilibiliTaskResultItemView {
            state: TaskState::Completed,
            message: PLAYBACK_COMPLETED_MESSAGE@,
            library_item_id,
            playback_source: cached_source_option(item.playback_source, library_item_id, session),
            playback_session: newer_session(item.playback_session, session),
            ..item
        }
}

/// A result that is known by `session_id`.
pub open spec fn known_as(session_id: Seq<char>) -> spec_fn(BilibiliTaskResultItemView) -> bool {
    |item: BilibiliTaskResultItemView| item_uses(item, session_id)
}

pub(crate) fn cache_items_for_session(
    items: &mut Vec<BilibiliTaskResultItem>,
    session_id: &str,
    library_item_id: &String,
    session: &Option<BilibiliPlaybackSession>,
)
    ensures
        final(items).deep_view() == changed_where(
            old(items).deep_view(),
            known_as(session_id@),
            cache_with(library_item_id@, session.deep_view()),
        ),
{
    let ghost before = items.deep_view();
    let ghost applies = known_as(session_id@);
    let ghost change = cache_with(library_item_id@, session.deep_view());
    let count: usize = items.len();
    for index in 0..count
        invariant
            count == before.len(),
            items@.len() == before.len(),
            applies == known_as(session_id@),
            change == cache_with(library_item_id@, session.deep_view()),
            forall|i: int|
                0 <= i < index ==> #[trigger] items@[i]@ == changed_where(
                    before,
                    applies,
                    change,
                )[i],
            forall|i: int| index <= i < before.len() ==> #[trigger] items@[i]@ == before[i],
    {
        proof {
            assert(items@[index as int]@ == before[index as int]);
        }
        if result_item_uses_hls_session(&items[index], session_id) {
            let item = &mut items[index];
            item.state = TaskState::Completed;
            item.message = PLAYBACK_COMPLETED_MESSAGE.to_owned();
            item.library_item_id = library_item_id.clone();
            point_source_at_cache(&mut item.playback_source, library_item_id, session);
            adopt_session(&mut item.playback_session, session);
        }
    }
    proof {
        assert(items.deep_view() =~= changed_where(before, applies, change));
    }
}

/// A result with the identifier `session_id` that can be played.
pub open spec fn named_and_serving(
    session_id: Seq<char>,
) -> spec_fn(BilibiliTaskResultItemView) -> bool {
    |item: BilibiliTaskResultItemView| item.id == session_id && item_serves(item)
}

pub open spec fn with_source(
    source: PlaybackSourceView,
) -> spec_fn(BilibiliTaskResultItemView) -> BilibiliTaskResultItemView {
    |item: BilibiliTaskResultItemView|
        BilibiliTaskResultItemView { playback_source: Some(source), ..item }
}

pub open spec fn with_session(
    session: BilibiliPlaybackSessionView,
) -> spec_fn(BilibiliTaskResultItemView) -> BilibiliTaskResultItemView {
    |item: BilibiliTaskResultItemView|
        BilibiliTaskResultItemView { playback_session: Some(session), ..item }
}

pub fn refresh_result_item_playback_source(
    task: &mut Task,
    session_id: &str,
    playback_source: &PlaybackSource,
)
    ensures
        final(task)@ == (TaskView {
            result_items: changed_where(
                old(task)@.result_items,
                named_and_serving(session_id@),
                with_source(playback_source@),
            ),
            ..old(task)@
        }),
{
    let ghost whole = task@;
    let ghost before = task@.result_items;
    let ghost applies = named_and_serving(session_id@);
    let ghost change = with_source(playback_source@);
    let count: usize = task.result_items.len();
    for index in 0..count
        invariant
            count == before.len(),
            task.result_items@.len() == before.len(),
            applies == named_and_serving(session_id@),
            change == with_source(playback_source@),
            task@ == (TaskView { result_items: task@.result_items, ..whole }),
            forall|i: int|
                0 <= i < index ==> #[trigger] task.result_items@[i]@ == changed_where(
                    before,
                    applies,
                    change,
                )[i],
            forall|i: int|
                index <= i < before.len() ==> #[trigger] task.result_items@[i]@ == before[i],
    {
        proof {
            assert(task.result_items@[index as int]@ == before[index as int]);
        }
        if same_text(task.result_items[index].id.as_str(), session_id)
            && result_item_can_serve_online_playback_after_task_completion(
            &task.result_items[index],
        ) {
            let item = &mut task.result_items[index];
            item.playback_source = Some(playback_source.duplicate());
        }
    }
    proof {
        assert(task@.result_items =~= changed_where(before, applies, change));
    }
}

pub fn refresh_result_item_playback_session(
    task: &mut Task,
    session_id: &str,
    playback_session: &BilibiliPlaybackSession,
)
    ensures
        final(task)@ == (TaskView {
            result_items: changed_where(
                old(task)@.result_items,
                serves_as(session_id@),
                with_session(playback_session@),
            ),
            ..old(task)@
        }),
{
    let ghost whole = task@;
    let ghost before = task@.result_items;
    let ghost applies = serves_as(session_id@);
    let ghost change = with_session(playback_session@);
    let count: usize = task.result_items.len();
    for index in 0..count
        invariant
            count == before.len(),
            task.result_items@.len() == before.len(),
            applies == serves_as(session_id@),
            change == with_session(playback_session@),
            task@ == (TaskView { result_items: task@.result_items, ..whole }),
            forall|i: int|
                0 <= i < index ==> #[trigger] task.result_items@[i]@ == changed_where(
                    before,
                    applies,
                    change,
                )[i],
            forall|i: int|
                index <= i < before.len() ==> #[trigger] task.result_items@[i]@ == before[i],
    {
        proof {
            assert(task.result_items@[index as int]@ == before[index as int]);
        }
        if result_item_can_serve_online_playback_after_task_completion(&task.result_items[index])
            && result_item_uses_hls_session(&task.result_items[index], session_id) {
            let item = &mut task.result_items[index];
            item.playback_session = Some(playback_session.duplicate());
        }
    }
    proof {
        assert(task@.result_items =~= changed_where(before, applies, change));
    }
}

} // verus!
