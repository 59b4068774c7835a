//! Laws of sessions: by which a task or a result is known, which are served, and whose media stay.

use crate::hls::{
    completed_with_online_result, has_served_result, item_kept_online, item_serves,
    item_session_ids, item_survives_restore, item_uses, library_id, library_session,
    primary_session, restored_session, served_items, serves_session, session_identity,
    sessions_of_items, task_session_ids, task_uses, uses_as_primary,
};
use crate::messages::{CANCELLED_AFTER_RESTART_MESSAGE, PREPARING_INTERRUPTED_AFTER_RESTART_MESSAGE};
use crate::model::basics::{TaskKind, TaskState};
use crate::model::task::{BilibiliTaskResultItemView, TaskView};
use crate::registry::queries::{
    HlsSessionPublicationState, authorizes_session, finds, finds_task, first_item_named,
    holds_cache_item, interrupted_ids, protected_ids, publication_state, result_session_playable,
    session_kept_online, source_uri,
};
use crate::registry::removal::{completed_with, holds_cached_result, serves_anyhow};
use crate::states::served_state;
use crate::text::{holds_text, trimmed};
use vstd::prelude::*;

verus! {

/// `id` names the session `session`: directly, or as the library entry of it.
pub open spec fn names(id: Seq<char>, session: Seq<char>) -> bool {
    ||| session.len() > 0 && id == "bilibili.hls."@ + session
    ||| id.len() > 0 && id == session && forall|rest: Seq<char>|
        rest.len() > 0 ==> id != #[trigger] ("bilibili.hls."@ + rest)
}

/// A result is known by the session that it is played in, by that of its source, and while it has
/// either of them by its own identifier.
pub open spec fn known_by(item: BilibiliTaskResultItemView, session: Seq<char>) -> bool {
    ||| item.playback_session matches Some(played) && names(played.id, session)
    ||| item.playback_source matches Some(source) && names(source.item_id, session)
    ||| (item.playback_session is Some || item.playback_source is Some) && names(item.id, session)
}

/// A task plays `session` first: as its session says, or without one as its source does.
pub open spec fn plays_first(task: TaskView, session: Seq<char>) -> bool {
    match task.playback_session {
        Some(played) => played.id == session,
        None => task.playback_source matches Some(source) && source.item_id == session,
    }
}

/// A task knows a session: it plays it first, or a result of it is known by it.
pub open spec fn knows(task: TaskView, session: Seq<char>) -> bool {
    plays_first(task, session) || exists|i: int|
        0 <= i < task.result_items.len() && known_by(#[trigger] task.result_items[i], session)
}

/// A result that says of itself that its cache could not be filled, and that can still be played.
pub open spec fn fell_back_online(item: BilibiliTaskResultItemView) -> bool {
    &&& item.state == TaskState::Failed
    &&& holds_text(item.message, "offline cache fill failed"@)
    &&& item.playback_source is Some
    &&& item.playback_session is Some
}

/// A result that can be played.
pub open spec fn playable_item(item: BilibiliTaskResultItemView) -> bool {
    item.state == TaskState::Playable || item.state == TaskState::Completed || fell_back_online(item)
}

/// A library entry and its session name each other, and no two sessions share an entry.
pub proof fn law_library_entries_name_their_sessions(
    session: Seq<char>,
    other: Seq<char>,
    id: Seq<char>,
)
    ensures
        session.len() > 0 ==> library_session(library_id(session)) == Some(session),
        library_id(session) == library_id(other) ==> session == other,
        library_session(id) matches Some(found) ==> library_id(found) == id && found.len() > 0,
        library_id(session) == "bilibili.hls."@ + session,
{
    lemma_prefix(session);
    lemma_prefix(other);
    let start = "bilibili.hls."@.len() as int;
    if id.len() > start {
        assert(id =~= id.subrange(0, start) + id.subrange(start, id.len() as int));
    }
}

proof fn lemma_prefix(session: Seq<char>)
    ensures
        ("bilibili.hls."@ + session).subrange(
            "bilibili.hls."@.len() as int,
            ("bilibili.hls."@ + session).len() as int,
        ) == session,
        ("bilibili.hls."@ + session).subrange(0, "bilibili.hls."@.len() as int)
            == "bilibili.hls."@,
{
    let prefix = "bilibili.hls."@;
    assert((prefix + session).subrange(prefix.len() as int, (prefix + session).len() as int)
        =~= session);
    assert((prefix + session).subrange(0, prefix.len() as int) =~= prefix);
}

proof fn lemma_names(id: Seq<char>, session: Seq<char>)
    ensures
        names(id, session) <==> id.len() > 0 && session_identity(id) == session,
{
    let prefix = "bilibili.hls."@;
    reveal_strlit("bilibili.hls.");
    let start = prefix.len() as int;
    lemma_prefix(session);
    if library_session(id) is Some {
        let rest = id.subrange(start, id.len() as int);
        assert(id =~= prefix + rest);
        lemma_prefix(rest);
    } else {
        assert forall|rest: Seq<char>| rest.len() > 0 implies id != #[trigger] (prefix + rest) by {
            lemma_prefix(rest);
        }
    }
}

/// A result is known by exactly the sessions that it names.
pub proof fn law_results_are_known_by_their_sessions(
    item: BilibiliTaskResultItemView,
    session: Seq<char>,
)
    ensures
        item_uses(item, session) <==> known_by(item, session),
        item_session_ids(item).contains(session) <==> known_by(item, session),
{
    lemma_names(item.id, session);
    if let Some(played) = item.playback_session {
        lemma_names(played.id, session);
    }
    if let Some(source) = item.playback_source {
        lemma_names(source.item_id, session);
    }
}

/// A task knows exactly the session that it plays first and those of its results; cancelling tells
/// of all of them.
pub proof fn law_tasks_know_their_sessions(task: TaskView, session: Seq<char>)
    ensures
        uses_as_primary(task, session) <==> plays_first(task, session),
        primary_session(task) == Some(session) <==> plays_first(task, session),
        task_uses(task, session) <==> knows(task, session),
        task_session_ids(task).contains(session) <==> knows(task, session),
{
    assert forall|i: int| 0 <= i < task.result_items.len() implies (item_uses(
        #[trigger] task.result_items[i],
        session,
    ) <==> known_by(task.result_items[i], session)) by {
        law_results_are_known_by_their_sessions(task.result_items[i], session);
    }
    if exists|i: int|
        0 <= i < task.result_items.len() && known_by(#[trigger] task.result_items[i], session) {
        let i = choose|i: int|
            0 <= i < task.result_items.len() && known_by(#[trigger] task.result_items[i], session);
        assert(item_uses(task.result_items[i], session));
    }
}

/// What a result must be like to be played.
pub proof fn law_results_that_can_be_played(item: BilibiliTaskResultItemView)
    ensures
        item_serves(item) <==> playable_item(item),
        item_kept_online(item) <==> fell_back_online(item),
        served_state(item.state) <==> item.state == TaskState::Playable || item.state
            == TaskState::Completed,
{
}

/// The media of a session stay for a visible playback that has not ended or is completed, if the
/// task knows the session, and while the playback is being made also under its own name. A playback
/// that failed or was cancelled keeps nothing, and a download never does.
pub proof fn law_media_stay_for_playbacks_that_need_them(task: TaskView, session: Seq<char>)
    ensures
        authorizes_session(task, session) <==> task.kind == TaskKind::BilibiliProgressivePlayback
            && (((task.state == TaskState::Playable || task.state == TaskState::Completed
            || task.state == TaskState::Queued || task.state == TaskState::Running || task.state
            == TaskState::Preparing || task.state == TaskState::CancelRequested) && knows(
            task,
            session,
        )) || ((task.state == TaskState::Queued || task.state == TaskState::Running || task.state
            == TaskState::Preparing || task.state == TaskState::CancelRequested) && task.id
            == session)),
{
    law_tasks_know_their_sessions(task, session);
}

/// A session whose own task is completed or playable keeps its media: what plays a session first is
/// never given up for it.
pub proof fn law_a_served_session_keeps_its_media(
    visible: Map<Seq<char>, TaskView>,
    id: Seq<char>,
    session: Seq<char>,
)
    requires
        visible.contains_key(id),
        visible[id].kind == TaskKind::BilibiliProgressivePlayback,
        visible[id].state == TaskState::Completed || visible[id].state == TaskState::Playable,
        knows(visible[id], session),
    ensures
        exists|other: Seq<char>| #[trigger]
            visible.contains_key(other) && authorizes_session(visible[other], session),
{
    law_media_stay_for_playbacks_that_need_them(visible[id], session);
}

/// A session is served online by a playable playback that knows it, and by a completed one that has
/// a result for it which is still played online.
pub proof fn law_sessions_are_served_online(task: TaskView, session: Seq<char>)
    ensures
        serves_session(task, session) <==> task.kind == TaskKind::BilibiliProgressivePlayback && ((
        task.state == TaskState::Playable && knows(task, session)) || (task.state
            == TaskState::Completed && exists|i: int|
            0 <= i < task.result_items.len() && known_by(#[trigger] task.result_items[i], session)
                && (task.result_items[i].state == TaskState::Playable || fell_back_online(
                task.result_items[i],
            )))),
{
    law_tasks_know_their_sessions(task, session);
    lemma_items_known(task, session);
}

proof fn lemma_items_known(task: TaskView, session: Seq<char>)
    ensures
        forall|i: int|
            0 <= i < task.result_items.len() ==> (#[trigger] item_uses(
                task.result_items[i],
                session,
            ) <==> known_by(task.result_items[i], session)),
        forall|i: int|
            0 <= i < task.result_items.len() ==> (item_uses(task.result_items[i], session)
                <==> #[trigger] known_by(task.result_items[i], session)),
{
    assert forall|i: int| 0 <= i < task.result_items.len() implies (#[trigger] item_uses(
        task.result_items[i],
        session,
    ) <==> known_by(task.result_items[i], session)) by {
        law_results_are_known_by_their_sessions(task.result_items[i], session);
    }
}

/// What clients see decides whether a session is published; what is live and not yet seen makes it
/// pending. So committing what is live publishes exactly what was pending or published in it.
pub proof fn law_publication_follows_what_is_seen(
    visible: Map<Seq<char>, TaskView>,
    live: Map<Seq<char>, TaskView>,
    task_id: Seq<char>,
    session: Seq<char>,
)
    ensures
        publication_state(visible, live, task_id, session)
            == HlsSessionPublicationState::Published <==> task_id.len() > 0 && session.len() > 0
            && visible.contains_key(task_id) && serves_session(visible[task_id], session),
        publication_state(visible, live, task_id, session) == HlsSessionPublicationState::Pending
            <==> task_id.len() > 0 && session.len() > 0 && live.contains_key(task_id)
            && serves_session(live[task_id], session) && !(visible.contains_key(task_id)
            && serves_session(visible[task_id], session)),
        publication_state(visible, live, task_id, session) == HlsSessionPublicationState::Pending
            ==> publication_state(live, live, task_id, session)
            == HlsSessionPublicationState::Published,
        publication_state(live, live, task_id, session) != HlsSessionPublicationState::Pending,
{
}

/// What is looked up by a session is found where there is one, and what is found has what was asked
/// for.
pub proof fn law_lookups_find_what_is_there(
    tasks: Map<Seq<char>, TaskView>,
    session_id: Seq<char>,
    holds: spec_fn(TaskView) -> bool,
    found: Option<Seq<char>>,
    found_task: Option<TaskView>,
)
    requires
        finds(tasks, session_id, holds, found),
        finds_task(tasks, session_id, holds, found_task),
    ensures
        found is Some <==> trimmed(session_id).len() > 0 && exists|id: Seq<char>| #[trigger]
            tasks.contains_key(id) && holds(tasks[id]),
        found matches Some(id) ==> tasks.contains_key(id) && holds(tasks[id]),
        found_task is Some <==> trimmed(session_id).len() > 0 && exists|id: Seq<char>| #[trigger]
            tasks.contains_key(id) && holds(tasks[id]),
        found_task matches Some(task) ==> holds(task) && exists|id: Seq<char>| #[trigger]
            tasks.contains_key(id) && tasks[id] == task,
{
}

/// A completed playback is found by every session that it knows.
pub proof fn law_completed_playbacks_are_known_by_all_their_sessions(
    task: TaskView,
    session: Seq<char>,
    library_item_id: Seq<char>,
)
    ensures
        completed_with(task, session) <==> task.kind == TaskKind::BilibiliProgressivePlayback
            && task.state == TaskState::Completed && knows(task, session),
        serves_anyhow(task, session) <==> task.kind == TaskKind::BilibiliProgressivePlayback && (
        task.state == TaskState::Playable || task.state == TaskState::Completed) && (plays_first(
            task,
            session,
        ) || exists|i: int|
            0 <= i < task.result_items.len() && known_by(#[trigger] task.result_items[i], session)
                && playable_item(task.result_items[i])),
        holds_cached_result(task, session, library_item_id) <==> task.kind
            == TaskKind::BilibiliProgressivePlayback && task.state == TaskState::Playable && exists|
            i: int,
        |
            0 <= i < task.result_items.len() && known_by(#[trigger] task.result_items[i], session)
                && task.result_items[i].state == TaskState::Completed
                && task.result_items[i].library_item_id == library_item_id,
        holds_cache_item(task, session, library_item_id) <==> task.kind
            == TaskKind::BilibiliProgressivePlayback && ((task.library_item_id == library_item_id
            && plays_first(task, session)) || exists|i: int|
            0 <= i < task.result_items.len() && known_by(#[trigger] task.result_items[i], session)
                && task.result_items[i].state == TaskState::Completed
                && task.result_items[i].library_item_id == library_item_id),
{
    law_tasks_know_their_sessions(task, session);
    lemma_items_known(task, session);
    let items = task.result_items;
    assert forall|i: int| 0 <= i < items.len() implies (item_serves(#[trigger] items[i])
        <==> playable_item(items[i])) by {}
    assert forall|i: int| 0 <= i < items.len() && known_by(#[trigger] items[i], session) implies
        item_uses(items[i], session) by {}
}

/// A session can still be played online although its cache could not be filled if the playable task
/// says so of it as its first, or a result that is known by it does.
pub proof fn law_sessions_that_fell_back_online(task: TaskView, session: Seq<char>)
    ensures
        session_kept_online(task, session) <==> task.kind == TaskKind::BilibiliProgressivePlayback
            && ((task.state == TaskState::Playable && holds_text(
            task.message,
            "offline cache fill failed"@,
        ) && task.playback_source is Some && task.playback_session is Some && plays_first(
            task,
            session,
        )) || exists|i: int|
            0 <= i < task.result_items.len() && known_by(#[trigger] task.result_items[i], session)
                && fell_back_online(task.result_items[i])),
{
    law_tasks_know_their_sessions(task, session);
    lemma_items_known(task, session);
}

/// A result can be played as a session of its own name if it has a session and can be played, while
/// its task is playable, or completed where completed caches can be played.
pub proof fn law_results_are_sessions_of_their_own(
    task: TaskView,
    session: Seq<char>,
    completed_too: bool,
)
    ensures
        result_session_playable(task, session, completed_too) <==> task.kind
            == TaskKind::BilibiliProgressivePlayback && (task.state == TaskState::Playable || (
        task.state == TaskState::Completed && completed_too)) && exists|i: int|
            0 <= i < task.result_items.len() && (#[trigger] task.result_items[i]).id == session
                && playable_item(task.result_items[i])
                && task.result_items[i].playback_session is Some,
{
}

/// The caches that must not be evicted for a task: of a playback that has not ended, all of its
/// sessions; of a completed one, those of its playable or cached results but the one it plays
/// first; of any other, none.
pub proof fn law_caches_are_protected(task: TaskView, session: Seq<char>)
    ensures
        protected_ids()(task).contains(session) <==> task.kind
            == TaskKind::BilibiliProgressivePlayback && match task.state {
            TaskState::Succeeded | TaskState::Failed | TaskState::Cancelled => false,
            TaskState::Completed => !plays_first(task, session) && exists|i: int|
                0 <= i < task.result_items.len() && known_by(
                    #[trigger] task.result_items[i],
                    session,
                ) && (task.result_items[i].state == TaskState::Playable
                    || task.result_items[i].state == TaskState::Completed),
            _ => knows(task, session),
        },
{
    law_tasks_know_their_sessions(task, session);
    lemma_served_items(task.result_items, session);
    lemma_items_known(task, session);
    if task.state == TaskState::Completed && exists|i: int|
        0 <= i < task.result_items.len() && known_by(#[trigger] task.result_items[i], session) && (
        task.result_items[i].state == TaskState::Playable || task.result_items[i].state
            == TaskState::Completed) {
        let i = choose|i: int|
            0 <= i < task.result_items.len() && known_by(#[trigger] task.result_items[i], session)
                && (task.result_items[i].state == TaskState::Playable || task.result_items[i].state
                == TaskState::Completed);
        assert(item_uses(task.result_items[i], session));
    }
}

proof fn lemma_served_items(items: Seq<BilibiliTaskResultItemView>, session: Seq<char>)
    ensures
        sessions_of_items(served_items(items)).contains(session) <==> exists|i: int|
            0 <= i < items.len() && item_uses(#[trigger] items[i], session) && (items[i].state
                == TaskState::Playable || items[i].state == TaskState::Completed),
    decreases items.len(),
{
    if items.len() > 0 {
        let rest = items.drop_last();
        lemma_served_items(rest, session);
        let before = served_items(rest);
        let after = served_items(items);
        let last = items.last();
        if sessions_of_items(after).contains(session) {
            let i = choose|i: int| 0 <= i < after.len() && item_uses(#[trigger] after[i], session);
            if i < before.len() {
                assert(before[i] == after[i]);
                assert(sessions_of_items(before).contains(session));
                let j = choose|j: int|
                    0 <= j < rest.len() && item_uses(#[trigger] rest[j], session) && (rest[j].state
                        == TaskState::Playable || rest[j].state == TaskState::Completed);
                assert(items[j] == rest[j]);
            } else {
                assert(items[items.len() - 1] == last);
            }
        }
        if exists|i: int|
            0 <= i < items.len() && item_uses(#[trigger] items[i], session) && (items[i].state
                == TaskState::Playable || items[i].state == TaskState::Completed) {
            let i = choose|i: int|
                0 <= i < items.len() && item_uses(#[trigger] items[i], session) && (items[i].state
                    == TaskState::Playable || items[i].state == TaskState::Completed);
            if i < rest.len() {
                assert(rest[i] == items[i]);
                let j = choose|j: int|
                    0 <= j < before.len() && item_uses(#[trigger] before[j], session);
                assert(after[j] == before[j]);
            } else {
                assert(after[before.len() as int] == last);
            }
        }
    }
}

/// The results of a playback whose planning a restart has interrupted, by their trimmed names.
pub proof fn law_interrupted_results_are_named(task: TaskView, id: Seq<char>)
    ensures
        interrupted_ids()(task).contains(id) <==> task.kind
            == TaskKind::BilibiliProgressivePlayback && ((task.state == TaskState::Failed
            && task.message == PREPARING_INTERRUPTED_AFTER_RESTART_MESSAGE@) || (task.state
            == TaskState::Cancelled && task.message == CANCELLED_AFTER_RESTART_MESSAGE@))
            && id.len() > 0 && exists|i: int|
            0 <= i < task.result_items.len() && trimmed((#[trigger] task.result_items[i]).id) == id,
{
}

/// A session is played from where its task says if that is its source's item, the task itself or
/// what the task plays first, and else from where the first result of that name says.
pub proof fn law_sessions_are_played_from_their_source(task: TaskView, session: Seq<char>)
    ensures
        task.playback_source matches Some(source) ==> source.item_id == session || task.id == session
            || plays_first(task, session) ==> source_uri(task, session) == Some(source.uri),
        !(task.playback_source matches Some(source) && (source.item_id == session || task.id
            == session || plays_first(task, session))) ==> match source_uri(task, session) {
            Some(uri) => exists|i: int|
                0 <= i < task.result_items.len() && (#[trigger] task.result_items[i]).id == session
                    && (task.result_items[i].playback_source matches Some(source) && source.uri
                    == uri) && forall|j: int|
                    0 <= j < i ==> (#[trigger] task.result_items[j]).id != session,
            None => forall|i: int|
                0 <= i < task.result_items.len() && (#[trigger] task.result_items[i]).id == session
                    && task.result_items[i].playback_source is Some ==> exists|j: int|
                    0 <= j < i && (#[trigger] task.result_items[j]).id == session,
        },
{
    lemma_first_named(task.result_items, session, 0);
}

proof fn lemma_first_named(items: Seq<BilibiliTaskResultItemView>, id: Seq<char>, start: int)
    requires
        0 <= start <= items.len(),
    ensures
        match first_item_named(items, id, start) {
            Some(item) => exists|i: int|
                start <= i < items.len() && (#[trigger] items[i]) == item && item.id == id
                    && forall|j: int| start <= j < i ==> (#[trigger] items[j]).id != id,
            None => forall|i: int| start <= i < items.len() ==> (#[trigger] items[i]).id != id,
        },
    decreases items.len() - start,
{
    if start < items.len() && items[start].id != id {
        lemma_first_named(items, id, start + 1);
        if let Some(item) = first_item_named(items, id, start + 1) {
            let i = choose|i: int|
                start + 1 <= i < items.len() && (#[trigger] items[i]) == item && item.id == id
                    && forall|j: int| start + 1 <= j < i ==> (#[trigger] items[j]).id != id;
            assert(items[i] == item);
            assert forall|j: int| start <= j < i implies (#[trigger] items[j]).id != id by {}
        }
    } else if start < items.len() {
        assert(items[start].id == id);
    }
}

/// A result comes back after a restart if one of its sessions does: a cached one under its own
/// library entry, and one that is played online as such.
pub proof fn law_results_come_back_with_a_session(
    item: BilibiliTaskResultItemView,
    playable: Set<Seq<char>>,
    completed: Set<Seq<char>>,
)
    ensures
        item_survives_restore(item, playable, completed) <==> exists|session: Seq<char>| #[trigger]
            known_by(item, session) && if item.state == TaskState::Completed {
                completed.contains(session) && item.library_item_id == "bilibili.hls."@ + session
            } else {
                (item.state == TaskState::Playable || fell_back_online(item)) && playable.contains(
                    session,
                )
            },
{
    assert forall|session: Seq<char>| #[trigger] known_by(item, session) <==> item_uses(
        item,
        session,
    ) by {
        law_results_are_known_by_their_sessions(item, session);
    }
    if item_survives_restore(item, playable, completed) {
        let session = choose|session: Seq<char>|
            restored_session(item, playable, completed, session);
        assert(known_by(item, session));
    }
    if exists|session: Seq<char>| #[trigger]
        known_by(item, session) && if item.state == TaskState::Completed {
            completed.contains(session) && item.library_item_id == "bilibili.hls."@ + session
        } else {
            (item.state == TaskState::Playable || fell_back_online(item)) && playable.contains(
                session,
            )
        } {
        let session = choose|session: Seq<char>| #[trigger]
            known_by(item, session) && if item.state == TaskState::Completed {
                completed.contains(session) && item.library_item_id == "bilibili.hls."@ + session
            } else {
                (item.state == TaskState::Playable || fell_back_online(item)) && playable.contains(
                    session,
                )
            };
        assert(restored_session(item, playable, completed, session));
    }
}

/// The first session of a playback is completed by a cache only if it is the task's, or that of a
/// playable or cached result.
pub proof fn law_served_results_are_found(task: TaskView, session: Seq<char>)
    ensures
        has_served_result(task, session) <==> exists|i: int|
            0 <= i < task.result_items.len() && known_by(#[trigger] task.result_items[i], session)
                && (task.result_items[i].state == TaskState::Playable || task.result_items[i].state
                == TaskState::Completed),
        completed_with_online_result(task, session) <==> task.state == TaskState::Completed
            && exists|i: int|
            0 <= i < task.result_items.len() && known_by(#[trigger] task.result_items[i], session)
                && (task.result_items[i].state == TaskState::Playable || fell_back_online(
                task.result_items[i],
            )),
{
    lemma_items_known(task, session);
}

} // verus!
