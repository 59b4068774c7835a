//! Laws of playbacks: how they become playable, are cached and are brought up to date.

use crate::changes::{
    cache_fill_failed, cached, planned, playable, playable_with_results, with_results,
    without_cached_result,
};
use crate::hls::uses_as_primary;
use crate::inner::checkpoint::under_own_ids;
use crate::inner::retention::forgotten_ids;
use crate::laws::restart::{item_over_in, lost_results, over_in};
use crate::laws::sessions::{
    known_by, law_media_stay_for_playbacks_that_need_them, law_results_are_known_by_their_sessions,
    law_results_that_can_be_played, law_served_results_are_found, law_tasks_know_their_sessions,
    playable_item, plays_first,
};
use crate::model::basics::{Progress, TaskKind, TaskState, Timestamp};
use crate::model::playback::{BilibiliPlaybackSessionView, PlaybackSourceView};
use crate::model::state::{RegistryInnerView, TaskPersistenceSnapshotView};
use crate::model::task::{BilibiliTaskResultItemView, Task, TaskView};
use crate::registry::BilibiliTaskRegistryView;
use crate::registry::commit::{
    CommitTermsView, Guarantee, PersistenceCommitOutcome, ReconciledOutputView, Step, commits,
    law_durable_commit_shows_live, law_only_ended_tasks_are_forgotten, lemma_reconciled_keeps,
    reconciled_all,
};
use crate::registry::playback::{
    cache_completion, cache_completion_request, cache_fill_failure, ids_problem, preparation,
    refreshable, refreshing_request,
};
use crate::registry::queries::authorizes_session;
use crate::results::{
    cached_as, finished_count, finished_item, items_progress, known_as, named_and_serving,
    served_as, serves_as,
};
use crate::status::{Code, Status};
use crate::text::trimmed;
use vstd::prelude::*;

verus! {

/// What a task is and what it was made for.
pub open spec fn same_purpose(before: TaskView, after: TaskView) -> bool {
    &&& after.id == before.id
    &&& after.kind == before.kind
    &&& after.source == before.source
    &&& after.created_at == before.created_at
    &&& after.bilibili_selection == before.bilibili_selection
    &&& after.output_summary == before.output_summary
    &&& after.downloaded_bytes == before.downloaded_bytes
    &&& after.total_bytes == before.total_bytes
}

/// What a result is and what it was made for.
pub open spec fn same_part(
    before: BilibiliTaskResultItemView,
    after: BilibiliTaskResultItemView,
) -> bool {
    &&& after.id == before.id
    &&& after.selection_id == before.selection_id
    &&& after.title == before.title
    &&& after.subtitle == before.subtitle
    &&& after.source_kind == before.source_kind
    &&& after.content_id == before.content_id
    &&& after.index == before.index
    &&& after.identity == before.identity
}

/// A task that was asked to stop has stopped.
pub open spec fn stopped_by_request(before: TaskView, after: TaskView, now: Timestamp) -> bool {
    &&& same_purpose(before, after)
    &&& after.state == TaskState::Cancelled
    &&& after.message == "Cancelled by request."@
    &&& after.updated_at == Some(now)
    &&& after.finished_at == Some(now)
    &&& after.title == before.title
    &&& after.library_item_id == before.library_item_id
    &&& after.progress == before.progress
}

/// A plan makes a playback planned, with the title and the session of the plan, and nothing to play
/// yet; but one that was asked to stop is cancelled.
pub proof fn law_a_plan_is_entered(
    task: TaskView,
    title: Seq<char>,
    session: BilibiliPlaybackSessionView,
    now: Timestamp,
)
    ensures
        ({
            let after = planned(task, title, session, now);
            if task.state == TaskState::CancelRequested {
                stopped_by_request(task, after, now) && after.playback_source
                    == task.playback_source && after.playback_session == task.playback_session
                    && after.result_items == task.result_items
            } else {
                &&& same_purpose(task, after)
                &&& after.state == TaskState::Planned
                &&& after.title == title
                &&& after.message == "Bilibili playback plan is ready."@
                &&& after.playback_session == Some(session)
                &&& after.playback_source is None
                &&& after.progress == (Progress::Exact { done: 0, total: 1 })
                &&& after.updated_at == Some(now)
                &&& after.finished_at == task.finished_at
                &&& after.library_item_id == task.library_item_id
                &&& after.result_items == task.result_items
            }
        }),
{
}

/// A playback becomes playable with the title, the source and the session that were found; but one
/// that was asked to stop is cancelled.
pub proof fn law_a_playable_playback_has_what_was_found(
    task: TaskView,
    title: Seq<char>,
    source: PlaybackSourceView,
    session: BilibiliPlaybackSessionView,
    now: Timestamp,
)
    ensures
        ({
            let after = playable(task, title, source, session, now);
            if task.state == TaskState::CancelRequested {
                stopped_by_request(task, after, now) && after.playback_source
                    == task.playback_source && after.playback_session == task.playback_session
                    && after.result_items == task.result_items
            } else {
                &&& same_purpose(task, after)
                &&& after.state == TaskState::Playable
                &&& after.title == title
                &&& after.message == "Bilibili playback session is playable."@
                &&& after.playback_session == Some(session)
                &&& after.playback_source == Some(source)
                &&& after.progress == (Progress::Exact { done: 0, total: 1 })
                &&& after.updated_at == Some(now)
                &&& after.finished_at == task.finished_at
                &&& after.library_item_id == task.library_item_id
                &&& after.result_items == task.result_items
            }
        }),
{
}

/// A playback of several parts becomes playable with what was found; but of one that was asked to
/// stop nothing is played, and its results end with it.
pub proof fn law_playable_results_are_those_found(
    task: TaskView,
    title: Seq<char>,
    message: Seq<char>,
    source: PlaybackSourceView,
    session: BilibiliPlaybackSessionView,
    items: Seq<BilibiliTaskResultItemView>,
    now: Timestamp,
)
    ensures
        ({
            let after = playable_with_results(task, title, message, source, session, items, now);
            if task.state == TaskState::CancelRequested {
                &&& stopped_by_request(task, after, now)
                &&& after.playback_source is None
                &&& after.playback_session is None
                &&& after.result_items.len() == task.result_items.len()
                &&& forall|i: int|
                    0 <= i < task.result_items.len() ==> item_over_in(
                        task.result_items[i],
                        #[trigger] after.result_items[i],
                        TaskState::Cancelled,
                        "Cancelled by request."@,
                    )
            } else {
                &&& same_purpose(task, after)
                &&& after.state == TaskState::Playable
                &&& after.title == title
                &&& after.message == message
                &&& after.playback_session == Some(session)
                &&& after.playback_source == Some(source)
                &&& after.result_items == items
                &&& after.progress == (Progress::Exact { done: 0, total: 1 })
                &&& after.updated_at == Some(now)
                &&& after.finished_at == task.finished_at
                &&& after.library_item_id == task.library_item_id
            }
        }),
{
}

/// New results replace the old ones, and change neither the state of a playback nor what it plays.
/// A title is kept where no new one is given.
pub proof fn law_new_results_are_entered(
    task: TaskView,
    title: Option<Seq<char>>,
    message: Seq<char>,
    progress_bits: u64,
    items: Seq<BilibiliTaskResultItemView>,
    now: Timestamp,
)
    ensures
        ({
            let after = with_results(task, title, message, progress_bits, items, now);
            &&& same_purpose(task, after)
            &&& after.state == task.state
            &&& title matches Some(title) ==> after.title == title
            &&& title is None ==> after.title == task.title
            &&& after.message == message
            &&& after.result_items == items
            &&& after.playback_source == task.playback_source
            &&& after.playback_session == task.playback_session
            &&& after.library_item_id == task.library_item_id
            &&& after.updated_at == Some(now)
            &&& after.finished_at == task.finished_at
            &&& progress_bits <= 0x3FEF_AE14_7AE1_47AE ==> after.progress == (Progress::Measured {
                bits: progress_bits,
            })
            &&& 0x3FEF_AE14_7AE1_47AE < progress_bits < 0x7FF0_0000_0000_0000 ==> after.progress
                == (Progress::Measured { bits: 0x3FEF_AE14_7AE1_47AE })
            &&& 0x7FF0_0000_0000_0000 <= progress_bits < 0x8000_0000_0000_0000 ==> after.progress
                == task.progress
        }),
{
}

/// A playback that has ended, or that is none, is not prepared any further. Otherwise it is entered
/// as prepared and nothing else but what it held is given up, and the news waits.
pub proof fn law_only_a_live_playback_is_prepared(
    result: Result<Step<Task>, Status>,
    after: RegistryInnerView,
    before: RegistryInnerView,
    id: Seq<char>,
    changed: TaskView,
)
    requires
        preparation(result, after, before, id, changed),
    ensures
        result is Err <==> trimmed(id).len() == 0 || !before.tasks_by_id.contains_key(trimmed(id))
            || before.tasks_by_id[trimmed(id)].kind != TaskKind::BilibiliProgressivePlayback,
        result is Err ==> after == before,
        result matches Ok(Step::Done(task)) ==> after == before && task@
            == before.tasks_by_id[trimmed(id)] && (task@.state == TaskState::Succeeded
            || task@.state == TaskState::Failed || task@.state == TaskState::Cancelled
            || task@.state == TaskState::Completed),
        result matches Ok(Step::Commit(task, terms)) ==> {
            &&& task@ == changed
            &&& terms@.rollback is None
            &&& terms@.needed == Guarantee::Nothing
            &&& !terms@.durability_required
            &&& !terms@.require_durable_commit
            &&& before.tasks_by_id[trimmed(id)].state != TaskState::Succeeded
            &&& before.tasks_by_id[trimmed(id)].state != TaskState::Failed
            &&& before.tasks_by_id[trimmed(id)].state != TaskState::Cancelled
            &&& before.tasks_by_id[trimmed(id)].state != TaskState::Completed
            &&& after.tasks_by_id == before.tasks_by_id.insert(changed.id, changed)
            &&& after.pending_publications_by_id == before.pending_publications_by_id.insert(
                changed.id,
                changed,
            )
            &&& !after.planning_cancellations_by_id.contains_key(changed.id)
            &&& after.outputs_by_task_id == before.outputs_by_task_id
            &&& after.visible_tasks_by_id == before.visible_tasks_by_id
            &&& after.queued_task_ids == before.queued_task_ids
        },
        result matches Ok(step) ==> !(step is Flush),
{
}

/// A source that is brought up to date: all of the new one but the item, which is the library entry
/// of a completed task, and else the task.
pub open spec fn task_source(
    task: TaskView,
    source: PlaybackSourceView,
    entered: PlaybackSourceView,
) -> bool {
    &&& entered.uri == source.uri
    &&& entered.variant_id == source.variant_id
    &&& entered.protocol == source.protocol
    &&& entered.expires_at == source.expires_at
    &&& if task.state == TaskState::Completed && task.library_item_id.len() > 0 {
        entered.item_id == task.library_item_id
    } else {
        entered.item_id == task.id
    }
}

/// The result `item` with the new source, if it can be played and has the name `wanted`.
pub open spec fn item_sourced(
    item: BilibiliTaskResultItemView,
    wanted: Seq<char>,
    source: PlaybackSourceView,
) -> BilibiliTaskResultItemView {
    if item.id == wanted && playable_item(item) {
        BilibiliTaskResultItemView { playback_source: Some(source), ..item }
    } else {
        item
    }
}

/// A refresh is refused if no playback, and no result of a served one, has the wanted name, and
/// does nothing to a playback that is not served.
pub proof fn law_only_served_playbacks_are_refreshed(
    before: RegistryInnerView,
    session_id: Seq<char>,
    source: PlaybackSourceView,
    session: Option<BilibiliPlaybackSessionView>,
    result: Result<Step<Task>, Status>,
    after: RegistryInnerView,
)
    requires
        refreshing_request(before, session_id, source, session, result, after),
        under_own_ids(before.tasks_by_id),
    ensures
        ({
            let wanted = trimmed(session_id);
            match result {
                Err(status) => after == before && (wanted.len() == 0 ==> status@.code
                    == Code::InvalidArgument) && (wanted.len() == 0 || (before.tasks_by_id.contains_key(
                    wanted,
                ) && before.tasks_by_id[wanted].kind != TaskKind::BilibiliProgressivePlayback) || (
                !before.tasks_by_id.contains_key(wanted) && forall|id: Seq<char>, i: int|
                    before.tasks_by_id.contains_key(id) && before.tasks_by_id[id].kind
                        == TaskKind::BilibiliProgressivePlayback && (before.tasks_by_id[id].state
                        == TaskState::Playable || before.tasks_by_id[id].state
                        == TaskState::Completed) && 0 <= i
                        < before.tasks_by_id[id].result_items.len() && playable_item(
                        #[trigger] before.tasks_by_id[id].result_items[i],
                    ) ==> before.tasks_by_id[id].result_items[i].id != wanted)),
                Ok(Step::Done(task)) => after == before && before.tasks_by_id.contains_key(wanted)
                    && task@ == before.tasks_by_id[wanted] && task@.state != TaskState::Playable
                    && task@.state != TaskState::Completed,
                Ok(Step::Commit(task, terms)) => {
                    let old_task = before.tasks_by_id[task@.id];
                    &&& before.tasks_by_id.contains_key(task@.id)
                    &&& old_task.kind == TaskKind::BilibiliProgressivePlayback
                    &&& old_task.state == TaskState::Playable || old_task.state
                        == TaskState::Completed
                    &&& before.tasks_by_id.contains_key(wanted) ==> task@.id == wanted
                    &&& after.tasks_by_id == before.tasks_by_id.insert(task@.id, task@)
                    &&& after.pending_publications_by_id
                        == before.pending_publications_by_id.insert(task@.id, task@)
                    &&& after.outputs_by_task_id == before.outputs_by_task_id
                    &&& after.active_task_ids_by_key == before.active_task_ids_by_key
                    &&& after.queued_task_ids == before.queued_task_ids
                    &&& after.visible_tasks_by_id == before.visible_tasks_by_id
                },
                Ok(Step::Flush(_)) => false,
            }
        }),
{
    let wanted = trimmed(session_id);
    assert forall|id: Seq<char>, i: int|
        before.tasks_by_id.contains_key(id) && before.tasks_by_id[id].kind
            == TaskKind::BilibiliProgressivePlayback && (before.tasks_by_id[id].state
            == TaskState::Playable || before.tasks_by_id[id].state == TaskState::Completed) && 0
            <= i < before.tasks_by_id[id].result_items.len() && playable_item(
            #[trigger] before.tasks_by_id[id].result_items[i],
        ) && before.tasks_by_id[id].result_items[i].id
            == wanted implies refreshable(
        before.tasks_by_id[id],
        wanted,
    ) by {
        law_results_that_can_be_played(before.tasks_by_id[id].result_items[i]);
    }
}

/// After a refresh the session that a playback plays first is exactly the one that was given,
/// whatever it held before, and without one it is as it was. The source of the task is the new one
/// where the task itself, or the session that it plays first, was asked for.
pub proof fn law_a_refresh_enters_the_given_session(
    before: RegistryInnerView,
    session_id: Seq<char>,
    source: PlaybackSourceView,
    session: Option<BilibiliPlaybackSessionView>,
    result: Result<Step<Task>, Status>,
    after: RegistryInnerView,
)
    requires
        refreshing_request(before, session_id, source, session, result, after),
        under_own_ids(before.tasks_by_id),
    ensures
        result matches Ok(Step::Commit(task, terms)) ==> {
            let wanted = trimmed(session_id);
            let old_task = before.tasks_by_id[task@.id];
            &&& same_purpose(old_task, task@)
            &&& task@.state == old_task.state
            &&& task@.title == old_task.title
            &&& task@.message == old_task.message
            &&& task@.progress == old_task.progress
            &&& task@.library_item_id == old_task.library_item_id
            &&& task@.updated_at == old_task.updated_at
            &&& task@.finished_at == old_task.finished_at
            &&& session is None ==> task@.playback_session == old_task.playback_session
            &&& old_task.playback_session matches Some(played) ==> played.id == wanted ==> (
            session matches Some(given) ==> task@.playback_session == Some(given))
            &&& old_task.playback_session matches Some(played) ==> played.id != wanted
                ==> task@.playback_session == old_task.playback_session
            &&& old_task.playback_session is None && task@.playback_session is Some
                ==> task@.playback_session == session
            &&& task@.id != wanted && plays_first(old_task, wanted) ==> (session matches Some(given)
                ==> task@.playback_session == Some(given))
            &&& task@.id == wanted || plays_first(old_task, wanted) ==> (
            task@.playback_source matches Some(entered) && task_source(old_task, source, entered))
            &&& task@.id != wanted && !plays_first(old_task, wanted) ==> task@.playback_source
                == old_task.playback_source
        },
{
    assert forall|id: Seq<char>| #[trigger] before.tasks_by_id.contains_key(id) implies (
    uses_as_primary(before.tasks_by_id[id], trimmed(session_id)) <==> plays_first(
        before.tasks_by_id[id],
        trimmed(session_id),
    )) by {
        law_tasks_know_their_sessions(before.tasks_by_id[id], trimmed(session_id));
    }
}

/// After a refresh a result that can be played has the new source if it has the wanted name, and
/// the given session if it is known by the wanted session; all other results are as they were.
pub proof fn law_a_refresh_enters_the_results(
    before: RegistryInnerView,
    session_id: Seq<char>,
    source: PlaybackSourceView,
    session: Option<BilibiliPlaybackSessionView>,
    result: Result<Step<Task>, Status>,
    after: RegistryInnerView,
    index: int,
)
    requires
        refreshing_request(before, session_id, source, session, result, after),
        under_own_ids(before.tasks_by_id),
    ensures
        result matches Ok(Step::Commit(task, terms)) ==> {
            let wanted = trimmed(session_id);
            let old_items = before.tasks_by_id[task@.id].result_items;
            &&& task@.result_items.len() == old_items.len()
            &&& 0 <= index < old_items.len() ==> {
                let item = task@.result_items[index];
                let sourced = item_sourced(old_items[index], wanted, source);
                &&& item.playback_source == sourced.playback_source
                &&& same_part(old_items[index], item)
                &&& item.state == old_items[index].state
                &&& item.message == old_items[index].message
                &&& item.library_item_id == old_items[index].library_item_id
                &&& if playable_item(sourced) && known_by(sourced, wanted) && session is Some {
                    item.playback_session == session
                } else {
                    item.playback_session == old_items[index].playback_session
                }
            }
        },
{
    if let Ok(Step::Commit(task, terms)) = result {
        let wanted = trimmed(session_id);
        let old_items = before.tasks_by_id[task@.id].result_items;
        if 0 <= index < old_items.len() {
            let sourced = item_sourced(old_items[index], wanted, source);
            law_results_that_can_be_played(old_items[index]);
            law_results_that_can_be_played(sourced);
            law_results_are_known_by_their_sessions(sourced, wanted);
            assert(named_and_serving(wanted)(old_items[index]) <==> old_items[index].id == wanted
                && playable_item(old_items[index]));
            assert(serves_as(wanted)(sourced) <==> playable_item(sourced) && known_by(
                sourced,
                wanted,
            ));
        }
    }
}

/// How far a task with several results is: so many of all are playable, completed, failed or
/// cancelled.
pub proof fn law_progress_counts_results(items: Seq<BilibiliTaskResultItemView>)
    requires
        0 < items.len() <= u64::MAX,
    ensures
        ({
            let done = Set::new(
                |i: int|
                    0 <= i < items.len() && (items[i].state == TaskState::Playable
                        || items[i].state == TaskState::Completed || items[i].state
                        == TaskState::Failed || items[i].state == TaskState::Cancelled),
            );
            &&& done.finite()
            &&& items_progress(items) matches Progress::Exact { done: count, total } && count
                == done.len() && total == items.len()
        }),
{
    lemma_count(items);
}

spec fn done_places(items: Seq<BilibiliTaskResultItemView>) -> Set<int> {
    Set::new(
        |i: int|
            0 <= i < items.len() && (items[i].state == TaskState::Playable || items[i].state
                == TaskState::Completed || items[i].state == TaskState::Failed || items[i].state
                == TaskState::Cancelled),
    )
}

proof fn lemma_count(items: Seq<BilibiliTaskResultItemView>)
    ensures
        done_places(items).finite(),
        done_places(items).len() == finished_count(items),
        finished_count(items) <= items.len(),
    decreases items.len(),
{
    if items.len() == 0 {
        assert(done_places(items) =~= Set::empty());
    } else {
        let shorter = items.drop_last();
        let last = items.len() - 1;
        lemma_count(shorter);
        assert(items.last() == items[last]);
        if finished_item(items.last()) {
            assert(done_places(items) =~= done_places(shorter).insert(last));
        } else {
            assert(done_places(items) =~= done_places(shorter));
        }
    }
}

/// `entered` is `source` once its session is cached: it is played from the library entry and does
/// not expire, in the variant of the given session where there is one.
pub open spec fn cached_from(
    source: Option<PlaybackSourceView>,
    entered: Option<PlaybackSourceView>,
    library_item_id: Seq<char>,
    session: Option<BilibiliPlaybackSessionView>,
) -> bool {
    match source {
        None => entered is None,
        Some(source) => entered matches Some(entered) && entered.item_id == library_item_id
            && entered.expires_at is None && entered.uri == source.uri && entered.protocol
            == source.protocol && entered.variant_id == match session {
            Some(session) => session.selected_variant_id,
            None => source.variant_id,
        },
    }
}

/// The results that are known by `wanted` are cached, and the others are as they were.
pub open spec fn cached_results(
    before: TaskView,
    after: TaskView,
    wanted: Seq<char>,
    library_item_id: Seq<char>,
    session: Option<BilibiliPlaybackSessionView>,
) -> bool {
    &&& after.result_items.len() == before.result_items.len()
    &&& forall|i: int|
        0 <= i < before.result_items.len() ==> {
            let old_item = before.result_items[i];
            let item = #[trigger] after.result_items[i];
            if known_by(old_item, wanted) {
                &&& same_part(old_item, item)
                &&& item.state == TaskState::Completed
                &&& item.message == "Bilibili playback session is cached for offline playback."@
                &&& item.library_item_id == library_item_id
                &&& cached_from(
                    old_item.playback_source,
                    item.playback_source,
                    library_item_id,
                    session,
                )
                &&& session is Some ==> item.playback_session == session
                &&& session is None ==> item.playback_session == old_item.playback_session
            } else {
                item == old_item
            }
        }
}

/// When the session that a playback plays first is cached, the playback is completed under the
/// library entry, with the given session or else its own. When that of a result is, the result is,
/// and the playback goes on. A playback that was asked to stop is cancelled.
pub proof fn law_a_cached_session_is_entered(
    task: TaskView,
    wanted: Seq<char>,
    library_item_id: Seq<char>,
    session: Option<BilibiliPlaybackSessionView>,
    now: Timestamp,
)
    ensures
        ({
            let after = cached(task, wanted, library_item_id, session, now);
            &&& same_purpose(task, after)
            &&& if task.state == TaskState::CancelRequested {
                over_in(task, after, TaskState::Cancelled, "Cancelled by request."@, now)
            } else {
                &&& cached_results(task, after, wanted, library_item_id, session)
                &&& after.title == task.title
                &&& after.updated_at == Some(now)
                &&& if plays_first(task, wanted) {
                    &&& after.state == TaskState::Completed
                    &&& after.message
                        == "Bilibili playback session is cached for offline playback."@
                    &&& after.library_item_id == library_item_id
                    &&& after.finished_at == Some(now)
                    &&& after.progress == (Progress::Exact { done: 1, total: 1 })
                    &&& cached_from(
                        task.playback_source,
                        after.playback_source,
                        library_item_id,
                        session,
                    )
                    &&& session is Some ==> after.playback_session == session
                    &&& session is None ==> after.playback_session == task.playback_session
                } else {
                    &&& after.state == task.state
                    &&& after.library_item_id == task.library_item_id
                    &&& after.finished_at == task.finished_at
                    &&& after.playback_source == task.playback_source
                    &&& after.playback_session == task.playback_session
                    &&& after.progress == items_progress(after.result_items)
                    &&& task.state == TaskState::Completed ==> after.message
                        == "Completed offline; selected Bilibili playback results are cached."@
                    &&& task.state == TaskState::Playable ==> after.message
                        == "Playable online; selected Bilibili playback results are cached offline."@
                }
            }
        }),
{
    law_tasks_know_their_sessions(task, wanted);
    assert forall|i: int| 0 <= i < task.result_items.len() implies (known_as(wanted)(
        #[trigger] task.result_items[i],
    ) <==> known_by(task.result_items[i], wanted)) by {
        law_results_are_known_by_their_sessions(task.result_items[i], wanted);
    }
}

/// That a session is cached is refused of what is no playback, has nothing to play or does not
/// serve the session; it changes nothing of one that has ended, unless a result of it is still
/// played online as that session; and otherwise it is entered.
pub proof fn law_only_what_is_served_is_cached(
    registry: BilibiliTaskRegistryView,
    task_id: Seq<char>,
    session_id: Seq<char>,
    library_item_id: Seq<char>,
    session: Option<BilibiliPlaybackSessionView>,
    now: Timestamp,
    result: Result<Step<Task>, Status>,
    after: RegistryInnerView,
)
    requires
        cache_completion(
            registry,
            task_id,
            session_id,
            library_item_id,
            session,
            now,
            result,
            after,
        ),
        trimmed(task_id).len() > 0,
    ensures
        ({
            let before = registry.inner;
            let id = trimmed(task_id);
            let wanted = trimmed(session_id);
            let task = before.tasks_by_id[id];
            let over = task.state == TaskState::Succeeded || task.state == TaskState::Failed
                || task.state == TaskState::Cancelled || task.state == TaskState::Completed;
            let online = task.state == TaskState::Completed && exists|i: int|
                0 <= i < task.result_items.len() && known_by(
                    #[trigger] task.result_items[i],
                    wanted,
                ) && (task.result_items[i].state == TaskState::Playable || (playable_item(
                    task.result_items[i],
                ) && task.result_items[i].state == TaskState::Failed));
            let serves = task.playback_source is Some && task.playback_session is Some && (
            plays_first(task, wanted) || exists|i: int|
                0 <= i < task.result_items.len() && known_by(
                    #[trigger] task.result_items[i],
                    wanted,
                ) && (task.result_items[i].state == TaskState::Playable
                    || task.result_items[i].state == TaskState::Completed));
            if !before.tasks_by_id.contains_key(id) || task.kind
                != TaskKind::BilibiliProgressivePlayback {
                result is Err && after == before
            } else if over && !online {
                result matches Ok(Step::Done(done)) && done@ == task && after == before
            } else if !serves {
                result is Err && after == before
            } else {
                &&& result matches Ok(Step::Commit(done, terms)) && done@ == cached(
                    task,
                    wanted,
                    library_item_id,
                    session,
                    now,
                )
                &&& after.tasks_by_id == before.tasks_by_id.insert(
                    task.id,
                    cached(task, wanted, library_item_id, session, now),
                )
            }
        }),
{
    let task = registry.inner.tasks_by_id[trimmed(task_id)];
    let wanted = trimmed(session_id);
    law_tasks_know_their_sessions(task, wanted);
    law_served_results_are_found(task, wanted);
    law_a_cached_session_is_entered(task, wanted, library_item_id, session, now);
}

/// After a session that a playback plays first is cached, and that is durably written down, the
/// playback stays with its media: it is never forgotten, and what it plays is not given up.
pub proof fn law_a_cached_playback_keeps_its_media(
    registry: BilibiliTaskRegistryView,
    task_id: Seq<char>,
    session_id: Seq<char>,
    library_item_id: Seq<char>,
    now: Timestamp,
    result: Result<Step<Task>, Status>,
    entered: RegistryInnerView,
    outputs: Seq<ReconciledOutputView>,
    later: Timestamp,
    snapshot: Option<TaskPersistenceSnapshotView>,
    terms: CommitTermsView,
    after: RegistryInnerView,
)
    requires
        registry.well_formed(),
        trimmed(task_id).len() > 0,
        registry.inner.tasks_by_id.contains_key(trimmed(task_id)),
        registry.inner.tasks_by_id[trimmed(task_id)].state == TaskState::Playable,
        plays_first(registry.inner.tasks_by_id[trimmed(task_id)], trimmed(session_id)),
        cache_completion(
            registry,
            task_id,
            session_id,
            library_item_id,
            None,
            now,
            result,
            entered,
        ),
        result is Ok,
        registry.with_inner(entered).well_formed(),
        commits(
            registry.with_inner(entered),
            outputs,
            true,
            later,
            snapshot,
            PersistenceCommitOutcome::Durable,
            terms,
            after,
        ),
    ensures
        after.visible_tasks_by_id.contains_key(trimmed(task_id)),
        after.visible_tasks_by_id[trimmed(task_id)].state == TaskState::Completed,
        after.visible_tasks_by_id[trimmed(task_id)].library_item_id == library_item_id,
        authorizes_session(after.visible_tasks_by_id[trimmed(task_id)], trimmed(session_id)),
{
    let id = trimmed(task_id);
    let wanted = trimmed(session_id);
    let task = registry.inner.tasks_by_id[id];
    law_only_what_is_served_is_cached(
        registry,
        task_id,
        session_id,
        library_item_id,
        None,
        now,
        result,
        entered,
    );
    law_a_cached_session_is_entered(task, wanted, library_item_id, None, now);
    let done = cached(task, wanted, library_item_id, None, now);
    assert(entered.tasks_by_id[id] == done);
    let live = reconciled_all(entered, outputs);
    lemma_reconciled_keeps(entered, outputs);
    law_durable_commit_shows_live(
        registry.with_inner(entered),
        outputs,
        later,
        snapshot,
        terms,
        after,
    );
    assert(live.tasks_by_id.contains_key(id));
    if forgotten_ids(
        live.tasks_by_id,
        registry.retention_policy,
        later,
    ).contains(id) {
        law_only_ended_tasks_are_forgotten(live, registry.retention_policy, later, id);
    }
    let seen = after.visible_tasks_by_id[id];
    assert(plays_first(seen, wanted));
    law_media_stay_for_playbacks_that_need_them(seen, wanted);
}

/// When the cache for a session cannot be filled, the results that serve it have failed with the
/// message and keep what they are played from, and the playback goes on. It carries the message
/// itself only for the session that it plays first, and only while it is playable. Where nothing
/// serves the session nothing changes.
pub proof fn law_a_cache_that_cannot_be_filled(
    task: TaskView,
    wanted: Seq<char>,
    message: Seq<char>,
    now: Timestamp,
)
    ensures
        ({
            let served = task.state == TaskState::Playable || task.state == TaskState::Completed;
            let concerned = exists|i: int|
                0 <= i < task.result_items.len() && known_by(
                    #[trigger] task.result_items[i],
                    wanted,
                ) && (task.result_items[i].state == TaskState::Playable
                    || task.result_items[i].state == TaskState::Completed);
            match cache_fill_failed(task, wanted, message, now) {
                None => if plays_first(task, wanted) {
                    task.state != TaskState::Playable
                } else {
                    !served || !concerned
                },
                Some(after) => {
                    &&& same_purpose(task, after)
                    &&& if plays_first(task, wanted) {
                        task.state == TaskState::Playable && after.message == message
                    } else {
                        served && concerned && after.message == if task.state
                            == TaskState::Completed {
                            "Completed offline; some Bilibili playback results failed to cache offline."@
                        } else {
                            "Playable online; some Bilibili playback results failed to cache offline."@
                        }
                    }
                    &&& after.state == task.state
                    &&& after.title == task.title
                    &&& after.library_item_id == task.library_item_id
                    &&& after.playback_source == task.playback_source
                    &&& after.playback_session == task.playback_session
                    &&& after.updated_at == Some(now)
                    &&& after.finished_at == task.finished_at
                    &&& concerned ==> after.progress == items_progress(after.result_items)
                    &&& !concerned ==> after.progress == task.progress
                    &&& after.result_items.len() == task.result_items.len()
                    &&& forall|i: int|
                        0 <= i < task.result_items.len() ==> {
                            let old_item = task.result_items[i];
                            let item = #[trigger] after.result_items[i];
                            if known_by(old_item, wanted) && (old_item.state == TaskState::Playable
                                || old_item.state == TaskState::Completed) {
                                &&& same_part(old_item, item)
                                &&& item.state == TaskState::Failed
                                &&& item.message == message
                                &&& item.library_item_id.len() == 0
                                &&& item.playback_source == old_item.playback_source
                                &&& item.playback_session == old_item.playback_session
                            } else {
                                item == old_item
                            }
                        }
                },
            }
        }),
{
    law_tasks_know_their_sessions(task, wanted);
    assert forall|i: int| 0 <= i < task.result_items.len() implies (served_as(wanted)(
        #[trigger] task.result_items[i],
    ) <==> known_by(task.result_items[i], wanted) && (task.result_items[i].state
        == TaskState::Playable || task.result_items[i].state == TaskState::Completed)) by {
        law_results_are_known_by_their_sessions(task.result_items[i], wanted);
    }
}

/// Deleting the cache of a session takes it from the results that it was deleted of: of a completed
/// playback from those that are cached as it under that entry, and of a playable one from all that
/// can be played as it. The playback itself stays as it is.
pub proof fn law_a_deleted_cache_is_taken_from_its_results(
    task: TaskView,
    wanted: Seq<char>,
    library_item_id: Seq<char>,
    now: Timestamp,
)
    ensures
        ({
            let after = without_cached_result(task, wanted, library_item_id, now);
            let message = "Bilibili playback cache was deleted."@;
            &&& same_purpose(task, after)
            &&& after.state == task.state
            &&& after.title == task.title
            &&& after.library_item_id == task.library_item_id
            &&& after.playback_source == task.playback_source
            &&& after.playback_session == task.playback_session
            &&& after.updated_at == Some(now)
            &&& after.finished_at == task.finished_at
            &&& after.progress == items_progress(after.result_items)
            &&& if task.state == TaskState::Completed {
                after.message
                    == "Completed offline; one cached Bilibili playback result was deleted."@
                    && lost_results(
                    task,
                    after,
                    |item: BilibiliTaskResultItemView|
                        known_by(item, wanted) && item.state == TaskState::Completed
                            && item.library_item_id == library_item_id,
                    message,
                )
            } else {
                after.message == "Playable online; one cached Bilibili playback result was deleted."@
                    && lost_results(
                    task,
                    after,
                    |item: BilibiliTaskResultItemView|
                        known_by(item, wanted) && playable_item(item),
                    message,
                )
            }
        }),
{
    assert forall|i: int| 0 <= i < task.result_items.len() implies (serves_as(wanted)(
        #[trigger] task.result_items[i],
    ) <==> known_by(task.result_items[i], wanted) && playable_item(task.result_items[i])) && (
    cached_as(wanted, library_item_id)(task.result_items[i]) <==> known_by(
        task.result_items[i],
        wanted,
    ) && task.result_items[i].state == TaskState::Completed && task.result_items[i].library_item_id
        == library_item_id) by {
        law_results_are_known_by_their_sessions(task.result_items[i], wanted);
        law_results_that_can_be_played(task.result_items[i]);
    }
}

/// A request that names a task and a session is looked at if it names both.
pub proof fn law_requests_name_a_task_and_a_session(task_id: Seq<char>, session_id: Seq<char>)
    ensures
        ids_problem(task_id, session_id) is None <==> trimmed(task_id).len() > 0 && trimmed(
            session_id,
        ).len() > 0,
        ids_problem(task_id, session_id) matches Some(problem) ==> problem.code
            == Code::InvalidArgument,
{
}

/// Whatever is still to be written down is written down before a cache is completed; nothing
/// happens until then, nor for a request that does not name its task and session.
pub proof fn law_a_cache_is_completed_once_all_is_written_down(
    registry: BilibiliTaskRegistryView,
    task_id: Seq<char>,
    session_id: Seq<char>,
    library_item_id: Seq<char>,
    session: Option<BilibiliPlaybackSessionView>,
    flushed: bool,
    now: Timestamp,
    result: Result<Step<Task>, Status>,
    after: RegistryInnerView,
)
    requires
        cache_completion_request(
            registry,
            task_id,
            session_id,
            library_item_id,
            session,
            flushed,
            now,
            result,
            after,
        ),
    ensures
        ({
            let named = trimmed(task_id).len() > 0 && trimmed(session_id).len() > 0;
            let behind = registry.persistence matches Some(persistence) && !persistence.available;
            &&& !named ==> (result matches Err(status) && status@.code == Code::InvalidArgument)
                && after == registry.inner
            &&& named && behind && !flushed ==> (result matches Ok(Step::Flush(terms))
                && terms@.needed == Guarantee::Durable && terms@.durability_required
                && terms@.rollback is None) && after == registry.inner
            &&& named && (!behind || flushed) ==> cache_completion(
                registry,
                task_id,
                session_id,
                library_item_id,
                session,
                now,
                result,
                after,
            )
        }),
{
}

/// That a cache could not be filled is entered of a playback that it concerns, durably where there
/// is a file; of any other nothing changes.
pub proof fn law_a_failed_cache_is_entered(
    registry: BilibiliTaskRegistryView,
    task_id: Seq<char>,
    session_id: Seq<char>,
    message: Seq<char>,
    now: Timestamp,
    result: Result<Step<Option<Task>>, Status>,
    after: RegistryInnerView,
)
    requires
        cache_fill_failure(registry, task_id, session_id, message, now, result, after),
    ensures
        ({
            let before = registry.inner;
            let id = trimmed(task_id);
            let task = before.tasks_by_id[id];
            if id.len() == 0 || !before.tasks_by_id.contains_key(id) || task.kind
                != TaskKind::BilibiliProgressivePlayback {
                result is Err && after == before
            } else {
                match cache_fill_failed(task, trimmed(session_id), message, now) {
                    None => result matches Ok(Step::Done(None)) && after == before,
                    Some(changed) => {
                        &&& result matches Ok(Step::Commit(Some(done), terms)) && done@ == changed
                            && (registry.persistence is Some ==> terms@.needed == Guarantee::Durable
                            && terms@.durability_required) && terms@.rollback is None
                        &&& after.tasks_by_id == before.tasks_by_id.insert(changed.id, changed)
                        &&& after.pending_publications_by_id
                            == before.pending_publications_by_id.insert(changed.id, changed)
                        &&& after.visible_tasks_by_id == before.visible_tasks_by_id
                    },
                }
            }
        }),
{
}

} // verus!
