//! HLS sessions: by which identifiers a task and its results are known to the media cache.

use crate::id_set::{IdSet, lemma_take_to_set};
use crate::model::basics::{TaskKind, TaskState};
use crate::model::task::{BilibiliTaskResultItem, BilibiliTaskResultItemView, Task, TaskView};
use crate::ordered::{ascending, insert_ordered, lists};
use crate::states::{is_served, result_item_state, served_state};
use crate::text::{contains_text, holds_text, same_text};
use vstd::prelude::*;
use vstd::string::{StrSliceExecFns, StringExecFns};

verus! {

/// What stands before the session in the library identifier of a completely cached session.
pub const HLS_LIBRARY_ITEM_PREFIX: &'static str = "bilibili.hls.";

/// What a message says that leaves a result playable though its cache could not be filled.
pub const CACHE_FILL_FAILURE_TEXT: &'static str = "offline cache fill failed";

/// The library identifier of the completely cached session `session_id`.
pub open spec fn library_id(session_id: Seq<char>) -> Seq<char> {
    HLS_LIBRARY_ITEM_PREFIX@ + session_id
}

pub fn completed_library_item_id(session_id: &str) -> (id: String)
    ensures
        id@ == library_id(session_id@),
{
    HLS_LIBRARY_ITEM_PREFIX.to_owned().concat(session_id)
}

/// The session of which `id` is the library identifier.
pub open spec fn library_session(id: Seq<char>) -> Option<Seq<char>> {
    let start = HLS_LIBRARY_ITEM_PREFIX@.len() as int;
    if id.len() > start && id.subrange(0, start) == HLS_LIBRARY_ITEM_PREFIX@ {
        Some(id.subrange(start, id.len() as int))
    } else {
        None
    }
}

pub fn session_id_from_library_item_id(id: &str) -> (session_id: Option<String>)
    ensures
        session_id.deep_view() == library_session(id@),
{
    let start: usize = HLS_LIBRARY_ITEM_PREFIX.unicode_len();
    let end: usize = id.unicode_len();
    if end > start && same_text(id.substring_char(0, start), HLS_LIBRARY_ITEM_PREFIX) {
        Some(id.substring_char(start, end).to_owned())
    } else {
        None
    }
}

/// The session that `id` names, directly or as a library identifier.
pub open spec fn session_identity(id: Seq<char>) -> Seq<char> {
    match library_session(id) {
        Some(session_id) => session_id,
        None => id,
    }
}

/// `ids` and the session that `id` names; an empty `id` names none.
pub open spec fn with_identity(ids: Set<Seq<char>>, id: Seq<char>) -> Set<Seq<char>> {
    if id.len() == 0 {
        ids
    } else {
        ids.insert(session_identity(id))
    }
}

pub fn push_hls_session_identity(ids: &mut Vec<String>, id: &str)
    requires
        ascending(old(ids).deep_view()),
    ensures
        ascending(final(ids).deep_view()),
        final(ids).deep_view().to_set() == with_identity(old(ids).deep_view().to_set(), id@),
{
    if id.is_empty() {
        return;
    }
    let identity = match session_id_from_library_item_id(id) {
        Some(session_id) => session_id,
        None => id.to_owned(),
    };
    insert_ordered(ids, identity);
}

/// The sessions by which a result is known.
pub open spec fn item_session_ids(item: BilibiliTaskResultItemView) -> Set<Seq<char>> {
    let of_session = match item.playback_session {
        Some(session) => with_identity(Set::empty(), session.id),
        None => Set::empty(),
    };
    let of_source = match item.playback_source {
        Some(source) => with_identity(of_session, source.item_id),
        None => of_session,
    };
    if item.playback_source is Some || item.playback_session is Some {
        with_identity(of_source, item.id)
    } else {
        of_source
    }
}

pub fn result_item_hls_session_ids(item: &BilibiliTaskResultItem) -> (ids: Vec<String>)
    ensures
        lists(ids.deep_view(), item_session_ids(item@)),
{
    let mut ids: Vec<String> = Vec::new();
    proof {
        assert(ids.deep_view().to_set() =~= Set::<Seq<char>>::empty());
    }
    if let Some(session) = &item.playback_session {
        push_hls_session_identity(&mut ids, session.id.as_str());
    }
    if let Some(source) = &item.playback_source {
        push_hls_session_identity(&mut ids, source.item_id.as_str());
    }
    if item.playback_source.is_some() || item.playback_session.is_some() {
        push_hls_session_identity(&mut ids, item.id.as_str());
    }
    ids
}

pub(crate) fn holds_id(ids: &Vec<String>, id: &str) -> (found: bool)
    ensures
        found == ids.deep_view().to_set().contains(id@),
{
    for index in 0..ids.len()
        invariant
            forall|i: int| 0 <= i < index ==> ids.deep_view()[i] != id@,
    {
        if same_text(ids[index].as_str(), id) {
            proof {
                assert(ids.deep_view()[index as int] == id@);
                assert(ids.deep_view().contains(id@));
            }
            return true;
        }
    }
    proof {
        assert(!ids.deep_view().contains(id@));
    }
    false
}

pub open spec fn item_uses(item: BilibiliTaskResultItemView, session_id: Seq<char>) -> bool {
    item_session_ids(item).contains(session_id)
}

pub fn result_item_uses_hls_session(item: &BilibiliTaskResultItem, session_id: &str) -> (uses: bool)
    ensures
        uses == item_uses(item@, session_id@),
{
    holds_id(&result_item_hls_session_ids(item), session_id)
}

/// A result whose cache could not be filled, and which can still be played online.
pub open spec fn item_kept_online(item: BilibiliTaskResultItemView) -> bool {
    &&& item.state == TaskState::Failed
    &&& holds_text(item.message, CACHE_FILL_FAILURE_TEXT@)
    &&& item.playback_source is Some
    &&& item.playback_session is Some
}

pub fn result_item_has_online_playback_after_cache_fill_failure(
    item: &BilibiliTaskResultItem,
) -> (kept: bool)
    ensures
        kept == item_kept_online(item@),
{
    result_item_state(item) == Some(TaskState::Failed)
        && contains_text(item.message.as_str(), CACHE_FILL_FAILURE_TEXT)
        && item.playback_source.is_some() && item.playback_session.is_some()
}

/// A result that can be played, whatever has become of its task.
pub open spec fn item_serves(item: BilibiliTaskResultItemView) -> bool {
    served_state(item.state) || item_kept_online(item)
}

pub fn result_item_can_serve_online_playback_after_task_completion(
    item: &BilibiliTaskResultItem,
) -> (serves: bool)
    ensures
        serves == item_serves(item@),
{
    is_served(item.state) || result_item_has_online_playback_after_cache_fill_failure(item)
}

/// `session_id` is one of the sessions of `item` that came back after a restart.
pub open spec fn restored_session(
    item: BilibiliTaskResultItemView,
    playable: Set<Seq<char>>,
    completed: Set<Seq<char>>,
    session_id: Seq<char>,
) -> bool {
    &&& item_uses(item, session_id)
    &&& if item.state == TaskState::Completed {
        completed.contains(session_id) && item.library_item_id == library_id(session_id)
    } else {
        (item.state == TaskState::Playable || item_kept_online(item)) && playable.contains(
            session_id,
        )
    }
}

/// A result of which some session came back: a cached one under its own library identifier.
pub open spec fn item_survives_restore(
    item: BilibiliTaskResultItemView,
    playable: Set<Seq<char>>,
    completed: Set<Seq<char>>,
) -> bool {
    exists|session_id: Seq<char>| restored_session(item, playable, completed, session_id)
}

pub fn result_item_can_survive_restore_when_session_is_restorable(
    item: &BilibiliTaskResultItem,
    restorable_playable_session_ids: &IdSet,
    restorable_completed_session_ids: &IdSet,
) -> (survives: bool)
    ensures
        survives == item_survives_restore(
            item@,
            restorable_playable_session_ids@,
            restorable_completed_session_ids@,
        ),
{
    let session_ids = result_item_hls_session_ids(item);
    let ghost playable = restorable_playable_session_ids@;
    let ghost completed = restorable_completed_session_ids@;
    let online: bool = item.state == TaskState::Playable
        || result_item_has_online_playback_after_cache_fill_failure(item);
    for index in 0..session_ids.len()
        invariant
            lists(session_ids.deep_view(), item_session_ids(item@)),
            playable == restorable_playable_session_ids@,
            completed == restorable_completed_session_ids@,
            online == (item@.state == TaskState::Playable || item_kept_online(item@)),
            forall|i: int|
                0 <= i < index ==> !restored_session(
                    item@,
                    playable,
                    completed,
                    #[trigger] session_ids.deep_view()[i],
                ),
    {
        let session_id = &session_ids[index];
        proof {
            assert(session_ids.deep_view()[index as int] == session_id@);
            assert(session_ids.deep_view().to_set().contains(session_id@));
        }
        let restored: bool = if item.state == TaskState::Completed {
            restorable_completed_session_ids.contains(session_id) && item.library_item_id
                == completed_library_item_id(session_id.as_str())
        } else {
            online && restorable_playable_session_ids.contains(session_id)
        };
        if restored {
            proof {
                assert(restored_session(item@, playable, completed, session_id@));
            }
            return true;
        }
    }
    proof {
        if item_survives_restore(item@, playable, completed) {
            let session_id = choose|session_id: Seq<char>|
                restored_session(item@, playable, completed, session_id);
            assert(session_ids.deep_view().to_set().contains(session_id));
            let i = session_ids.deep_view().index_of(session_id);
            assert(session_ids.deep_view()[i] == session_id);
        }
    }
    false
}

/// The session that a task plays first: that of its session, or else that of its source.
pub open spec fn primary_session(task: TaskView) -> Option<Seq<char>> {
    match task.playback_session {
        Some(session) => Some(session.id),
        None => match task.playback_source {
            Some(source) => Some(source.item_id),
            None => None,
        },
    }
}

pub fn primary_hls_session_id(task: &Task) -> (session_id: Option<String>)
    ensures
        session_id.deep_view() == primary_session(task@),
{
    match &task.playback_session {
        Some(session) => Some(session.id.clone()),
        None => match &task.playback_source {
            Some(source) => Some(source.item_id.clone()),
            None => None,
        },
    }
}

pub open spec fn uses_as_primary(task: TaskView, session_id: Seq<char>) -> bool {
    primary_session(task) == Some(session_id)
}

pub fn task_uses_hls_session_as_primary(task: &Task, session_id: &str) -> (uses: bool)
    ensures
        uses == uses_as_primary(task@, session_id@),
{
    match primary_hls_session_id(task) {
        Some(primary_id) => same_text(primary_id.as_str(), session_id),
        None => false,
    }
}

/// Some result is known by `session_id`.
pub open spec fn some_item_uses(
    items: Seq<BilibiliTaskResultItemView>,
    session_id: Seq<char>,
) -> bool {
    exists|i: int| 0 <= i < items.len() && item_uses(#[trigger] items[i], session_id)
}

pub open spec fn task_uses(task: TaskView, session_id: Seq<char>) -> bool {
    uses_as_primary(task, session_id) || some_item_uses(task.result_items, session_id)
}

pub fn task_uses_hls_session(task: &Task, session_id: &str) -> (uses: bool)
    ensures
        uses == task_uses(task@, session_id@),
{
    if task_uses_hls_session_as_primary(task, session_id) {
        return true;
    }
    for index in 0..task.result_items.len()
        invariant
            forall|i: int|
                0 <= i < index ==> !item_uses(#[trigger] task@.result_items[i], session_id@),
    {
        if result_item_uses_hls_session(&task.result_items[index], session_id) {
            proof {
                assert(item_uses(task@.result_items[index as int], session_id@));
            }
            return true;
        }
    }
    false
}

/// Some result that is known by `session_id` is playable or cached.
pub open spec fn has_served_result(task: TaskView, session_id: Seq<char>) -> bool {
    exists|i: int|
        0 <= i < task.result_items.len() && item_uses(#[trigger] task.result_items[i], session_id)
            && served_state(task.result_items[i].state)
}

pub fn task_has_playable_or_completed_result_session(task: &Task, session_id: &str) -> (found: bool)
    ensures
        found == has_served_result(task@, session_id@),
{
    for index in 0..task.result_items.len()
        invariant
            forall|i: int|
                0 <= i < index ==> !(item_uses(#[trigger] task@.result_items[i], session_id@)
                    && served_state(task@.result_items[i].state)),
    {
        let item = &task.result_items[index];
        proof {
            assert(task@.result_items[index as int] == item@);
        }
        if result_item_uses_hls_session(item, session_id) && is_served(item.state) {
            return true;
        }
    }
    false
}

/// A result of a completed task that is known by `session_id` and is still played online.
pub open spec fn completed_with_online_result(task: TaskView, session_id: Seq<char>) -> bool {
    &&& task.state == TaskState::Completed
    &&& exists|i: int|
        0 <= i < task.result_items.len() && item_uses(#[trigger] task.result_items[i], session_id)
            && (task.result_items[i].state == TaskState::Playable || item_kept_online(
            task.result_items[i],
        ))
}

pub fn completed_task_has_playable_result_session(task: &Task, session_id: &str) -> (found: bool)
    ensures
        found == completed_with_online_result(task@, session_id@),
{
    if task.state != TaskState::Completed {
        return false;
    }
    for index in 0..task.result_items.len()
        invariant
            task@.state == TaskState::Completed,
            forall|i: int|
                0 <= i < index ==> !(item_uses(#[trigger] task@.result_items[i], session_id@) && (
                task@.result_items[i].state == TaskState::Playable || item_kept_online(
                    task@.result_items[i],
                ))),
    {
        let item = &task.result_items[index];
        proof {
            assert(task@.result_items[index as int] == item@);
        }
        if result_item_uses_hls_session(item, session_id) && (item.state == TaskState::Playable
            || result_item_has_online_playback_after_cache_fill_failure(item)) {
            return true;
        }
    }
    false
}

/// A playable task whose first session could not be cached, and which is still played online.
pub open spec fn task_kept_online(task: TaskView, session_id: Seq<char>) -> bool {
    &&& task.state == TaskState::Playable
    &&& holds_text(task.message, CACHE_FILL_FAILURE_TEXT@)
    &&& task.playback_source is Some
    &&& task.playback_session is Some
    &&& uses_as_primary(task, session_id)
}

pub fn task_has_online_playback_after_cache_fill_failure(
    task: &Task,
    session_id: &str,
) -> (kept: bool)
    ensures
        kept == task_kept_online(task@, session_id@),
{
    task.state == TaskState::Playable && contains_text(
        task.message.as_str(),
        CACHE_FILL_FAILURE_TEXT,
    ) && task.playback_source.is_some() && task.playback_session.is_some()
        && task_uses_hls_session_as_primary(task, session_id)
}

/// The playback task serves `session_id`: online, or beside its cached first session.
pub open spec fn serves_session(task: TaskView, session_id: Seq<char>) -> bool {
    &&& task.is_playback()
    &&& (task.state == TaskState::Playable && task_uses(task, session_id))
        || completed_with_online_result(task, session_id)
}

pub fn task_has_playable_hls_session(task: &Task, session_id: &str) -> (serves: bool)
    ensures
        serves == serves_session(task@, session_id@),
{
    task.kind == TaskKind::BilibiliProgressivePlayback && ((task.state
        == TaskState::Playable && task_uses_hls_session(task, session_id))
        || completed_task_has_playable_result_session(task, session_id))
}

/// The sessions by which some of the results in `items` are known.
pub open spec fn sessions_of_items(items: Seq<BilibiliTaskResultItemView>) -> Set<Seq<char>> {
    Set::new(|session_id: Seq<char>| some_item_uses(items, session_id))
}

/// Every session by which a task is known.
pub open spec fn task_session_ids(task: TaskView) -> Set<Seq<char>> {
    match primary_session(task) {
        Some(primary_id) => sessions_of_items(task.result_items).insert(primary_id),
        None => sessions_of_items(task.result_items),
    }
}

proof fn lemma_sessions_of_prefix(items: Seq<BilibiliTaskResultItemView>, index: int)
    requires
        0 <= index < items.len(),
    ensures
        sessions_of_items(items.take(index + 1)) =~= sessions_of_items(items.take(index)).union(
            item_session_ids(items[index]),
        ),
{
    let short = items.take(index);
    let long = items.take(index + 1);
    assert forall|id: Seq<char>| some_item_uses(long, id) <==> (some_item_uses(short, id)
        || item_uses(items[index], id)) by {
        if some_item_uses(long, id) {
            let i = choose|i: int| 0 <= i < long.len() && item_uses(#[trigger] long[i], id);
            if i < index {
                assert(short[i] == long[i]);
            }
        }
        if some_item_uses(short, id) {
            let i = choose|i: int| 0 <= i < short.len() && item_uses(#[trigger] short[i], id);
            assert(long[i] == short[i]);
        }
        if item_uses(items[index], id) {
            assert(long[index] == items[index]);
        }
    }
}

/// Puts every identifier of `more` at its place in an ascending list.
fn insert_all_ordered(ids: &mut Vec<String>, more: &Vec<String>)
    requires
        ascending(old(ids).deep_view()),
    ensures
        ascending(final(ids).deep_view()),
        final(ids).deep_view().to_set() == old(ids).deep_view().to_set().union(
            more.deep_view().to_set(),
        ),
{
    let ghost before = ids.deep_view().to_set();
    proof {
        assert(before.union(more.deep_view().take(0).to_set()) =~= before);
    }
    for index in 0..more.len()
        invariant
            ascending(ids.deep_view()),
            ids.deep_view().to_set() == before.union(
                more.deep_view().take(index as int).to_set(),
            ),
    {
        insert_ordered(ids, more[index].clone());
        proof {
            lemma_take_to_set(more.deep_view(), index as int);
            assert(ids.deep_view().to_set() =~= before.union(
                more.deep_view().take(index + 1).to_set(),
            ));
        }
    }
    proof {
        assert(more.deep_view().take(more.len() as int) =~= more.deep_view());
    }
}

pub fn playback_hls_session_ids(task: &Task) -> (ids: Vec<String>)
    ensures
        lists(ids.deep_view(), task_session_ids(task@)),
{
    let mut ids: Vec<String> = Vec::new();
    let ghost items = task@.result_items;
    proof {
        assert(ids.deep_view().to_set() =~= sessions_of_items(items.take(0)));
    }
    for index in 0..task.result_items.len()
        invariant
            items == task@.result_items,
            ascending(ids.deep_view()),
            ids.deep_view().to_set() == sessions_of_items(items.take(index as int)),
    {
        let more = result_item_hls_session_ids(&task.result_items[index]);
        insert_all_ordered(&mut ids, &more);
        proof {
            assert(items[index as int] == task.result_items[index as int]@);
            lemma_sessions_of_prefix(items, index as int);
        }
    }
    proof {
        assert(items.take(items.len() as int) =~= items);
    }
    if let Some(session_id) = primary_hls_session_id(task) {
        insert_ordered(&mut ids, session_id);
    }
    ids
}

/// The results in `items` that are playable or cached.
pub open spec fn served_items(
    items: Seq<BilibiliTaskResultItemView>,
) -> Seq<BilibiliTaskResultItemView>
    decreases items.len(),
{
    if items.len() == 0 {
        items
    } else {
        let rest = served_items(items.drop_last());
        if served_state(items.last().state) {
            rest.push(items.last())
        } else {
            rest
        }
    }
}

/// The sessions of a completed task, beside its first, whose media must stay.
pub open spec fn protected_sessions(task: TaskView) -> Set<Seq<char>> {
    let ids = sessions_of_items(served_items(task.result_items));
    match primary_session(task) {
        Some(primary_id) => ids.remove(primary_id),
        None => ids,
    }
}

proof fn lemma_sessions_of_push(
    items: Seq<BilibiliTaskResultItemView>,
    item: BilibiliTaskResultItemView,
)
    ensures
        sessions_of_items(items.push(item)) =~= sessions_of_items(items).union(
            item_session_ids(item),
        ),
{
    let long = items.push(item);
    lemma_sessions_of_prefix(long, items.len() as int);
    assert(long.take(items.len() as int) =~= items);
    assert(long.take(items.len() as int + 1) =~= long);
}

pub fn protected_completed_result_hls_session_ids(task: &Task) -> (ids: Vec<String>)
    ensures
        lists(ids.deep_view(), protected_sessions(task@)),
{
    let mut ids: Vec<String> = Vec::new();
    let primary_session_id = primary_hls_session_id(task);
    let ghost items = task@.result_items;
    let ghost excluded = primary_session(task@);
    proof {
        assert(items.take(0).len() == 0);
        assert(ids.deep_view().to_set() =~= sessions_of_items(served_items(items.take(0))));
    }
    for index in 0..task.result_items.len()
        invariant
            items == task@.result_items,
            ascending(ids.deep_view()),
            ids.deep_view().to_set() == sessions_of_items(served_items(items.take(index as int))),
    {
        proof {
            assert(items.take(index + 1).drop_last() =~= items.take(index as int));
            assert(items.take(index + 1).last() == items[index as int]);
            assert(items[index as int] == task.result_items[index as int]@);
            lemma_sessions_of_push(served_items(items.take(index as int)), items[index as int]);
        }
        if is_served(task.result_items[index].state) {
            let more = result_item_hls_session_ids(&task.result_items[index]);
            insert_all_ordered(&mut ids, &more);
        }
    }
    proof {
        assert(items.take(items.len() as int) =~= items);
    }
    match primary_session_id {
        Some(primary_id) => without_id(&ids, &primary_id),
        None => ids,
    }
}

/// The list without `id`.
fn without_id(ids: &Vec<String>, id: &String) -> (kept: Vec<String>)
    requires
        ascending(ids.deep_view()),
    ensures
        ascending(kept.deep_view()),
        kept.deep_view().to_set() =~= ids.deep_view().to_set().remove(id@),
{
    let mut kept: Vec<String> = Vec::new();
    let ghost all = ids.deep_view();
    proof {
        assert(kept.deep_view().to_set() =~= all.take(0).to_set().remove(id@));
    }
    for index in 0..ids.len()
        invariant
            all == ids.deep_view(),
            ascending(kept.deep_view()),
            kept.deep_view().to_set() =~= all.take(index as int).to_set().remove(id@),
    {
        proof {
            lemma_take_to_set(all, index as int);
            assert(all[index as int] == ids[index as int]@);
        }
        if ids[index] != *id {
            insert_ordered(&mut kept, ids[index].clone());
        }
    }
    proof {
        assert(all.take(all.len() as int) =~= all);
    }
    kept
}

} // verus!
