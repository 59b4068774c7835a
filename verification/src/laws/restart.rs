//! Laws of a restart: what comes back, in what order, and what has become of it.

use crate::active_key::download_key;
use crate::changes::{after_restart, without_session};
use crate::hls::primary_session;
use crate::laws::requests::{law_requests_share_a_key_if_they_ask_for_the_same, same_request};
use crate::laws::sessions::{
    fell_back_online, known_by, law_results_are_known_by_their_sessions,
    law_results_come_back_with_a_session, law_results_that_can_be_played,
    law_tasks_know_their_sessions, playable_item, plays_first,
};
use crate::model::basics::{TaskKind, TaskState, Timestamp};
use crate::model::key::ActiveBilibiliTaskKeyView;
use crate::model::record::PersistedTaskRecordView;
use crate::model::task::{BilibiliTaskResultItemView, TaskView};
use crate::registry::lifecycle::first_waiting;
use crate::registry::restore::{
    RegistrySetting, RestoredOutputView, RestoredRecordView, opened, restored_record,
    restored_records, with_all_restored, with_outputs,
};
use crate::results::{items_progress, lost_in_restart, serves_as};
use crate::text::trimmed;
use vstd::prelude::*;

verus! {

/// A download whose output could be derived and that is not over: it is to be done again.
pub open spec fn unfinished_download(restored: RestoredRecordView) -> bool {
    &&& restored.output is Some
    &&& restored.record.task.kind == TaskKind::BilibiliDownload
    &&& restored.record.task.state == TaskState::Queued || restored.record.task.state
        == TaskState::Running || restored.record.task.state == TaskState::CancelRequested
        || restored.record.task.state == TaskState::Planned || restored.record.task.state
        == TaskState::Preparing
}

/// Two records of downloads that were asked for the same.
pub open spec fn asked_the_same(left: RestoredRecordView, right: RestoredRecordView) -> bool {
    same_request(
        left.record.task.source,
        left.record.options,
        right.record.task.source,
        right.record.options,
    )
}

/// The record at `index` is the first unfinished download that was asked for what it is for.
pub open spec fn first_of_its_request(restored: Seq<RestoredRecordView>, index: int) -> bool {
    &&& 0 <= index < restored.len()
    &&& unfinished_download(restored[index])
    &&& forall|earlier: int|
        0 <= earlier < index && unfinished_download(#[trigger] restored[earlier])
            ==> !asked_the_same(restored[earlier], restored[index])
}

/// The tasks in `queue` are those of the records at the places `order`, which ascend.
pub open spec fn queued_in_order(
    restored: Seq<RestoredRecordView>,
    queue: Seq<Seq<char>>,
    order: Seq<int>,
) -> bool {
    &&& order.len() == queue.len()
    &&& forall|k: int|
        0 <= k < order.len() ==> 0 <= #[trigger] order[k] < restored.len() && queue[k]
            == restored[order[k]].record.task.id && first_of_its_request(restored, order[k])
    &&& forall|j: int, k: int|
        0 <= j < k < order.len() ==> #[trigger] order[j] < #[trigger] order[k]
    &&& forall|index: int|
        0 <= index < restored.len() && first_of_its_request(restored, index) ==> order.contains(
            index,
        )
}

/// After a restart the unfinished downloads wait in the order of their records, the first of each
/// request once, and nothing else waits.
pub proof fn law_downloads_wait_in_the_order_of_their_records(
    restored: Seq<RestoredRecordView>,
    setting: RegistrySetting,
)
    ensures
        exists|order: Seq<int>|
            queued_in_order(restored, opened(restored, setting).inner.queued_task_ids, order),
{
    let order = lemma_queue(restored);
    assert(queued_in_order(restored, opened(restored, setting).inner.queued_task_ids, order));
}

/// Of two unfinished downloads for different requests, the one with the earlier record is before
/// the other in the queue.
pub proof fn law_the_earlier_record_waits_in_front(
    restored: Seq<RestoredRecordView>,
    setting: RegistrySetting,
    first: int,
    second: int,
)
    requires
        first < second,
        first_of_its_request(restored, first),
        first_of_its_request(restored, second),
    ensures
        exists|j: int, k: int|
            0 <= j < k < opened(restored, setting).inner.queued_task_ids.len() && (
            #[trigger] opened(restored, setting).inner.queued_task_ids[j])
                == restored[first].record.task.id && (
            #[trigger] opened(restored, setting).inner.queued_task_ids[k])
                == restored[second].record.task.id,
{
    let order = lemma_queue(restored);
    let queue = opened(restored, setting).inner.queued_task_ids;
    let j = order.index_of(first);
    let k = order.index_of(second);
    assert(order[j] == first && order[k] == second);
    assert(j < k) by {
        if k < j {
            assert(order[k] < order[j]);
        }
    }
    assert(queue[j] == restored[first].record.task.id);
    assert(queue[k] == restored[second].record.task.id);
}

/// The first worker after a restart gets the earliest unfinished download.
pub proof fn law_the_earliest_download_is_claimed_first(
    restored: Seq<RestoredRecordView>,
    setting: RegistrySetting,
    index: int,
)
    requires
        0 <= index < restored.len(),
        unfinished_download(restored[index]),
        restored[index].record.task.state == TaskState::Queued,
        forall|earlier: int|
            0 <= earlier < index ==> !unfinished_download(#[trigger] restored[earlier]),
        forall|other: int|
            0 <= other < restored.len() && other != index ==> (
            #[trigger] restored[other]).record.task.id != restored[index].record.task.id,
    ensures
        opened(restored, setting).inner.queued_task_ids.len() > 0,
        opened(restored, setting).inner.queued_task_ids[0] == restored[index].record.task.id,
        first_waiting(opened(restored, setting).inner, 0) == Some(0int),
{
    let order = lemma_queue(restored);
    assert(first_of_its_request(restored, index));
    let place = order.index_of(index);
    assert(order[place] == index);
    if place > 0 {
        assert(order[0] < order[place]);
        assert(first_of_its_request(restored, order[0]));
    }
    law_a_restart_brings_back_what_was_written_down(restored, setting, index);
}

proof fn lemma_queue(restored: Seq<RestoredRecordView>) -> (order: Seq<int>)
    ensures
        queued_in_order(restored, with_all_restored(restored).queued_task_ids, order),
    decreases restored.len(),
{
    if restored.len() == 0 {
        Seq::empty()
    } else {
        let shorter = restored.drop_last();
        let before = lemma_queue(shorter);
        let last = restored.len() - 1;
        let queue = with_all_restored(shorter).queued_task_ids;
        lemma_taken_up(restored, last);
        assert forall|index: int| 0 <= index < last implies (#[trigger] first_of_its_request(
            restored,
            index,
        ) <==> first_of_its_request(shorter, index)) by {
            lemma_first_in_prefix(restored, shorter, index);
        }
        let order = if first_of_its_request(restored, last) {
            before.push(last)
        } else {
            before
        };
        let after = with_all_restored(restored).queued_task_ids;
        assert forall|k: int| 0 <= k < order.len() implies 0 <= #[trigger] order[k]
            < restored.len() && after[k] == restored[order[k]].record.task.id
            && first_of_its_request(restored, order[k]) by {
            if k < before.len() {
                assert(order[k] == before[k]);
                assert(first_of_its_request(shorter, before[k]));
            }
        }
        assert forall|index: int|
            0 <= index < restored.len() && first_of_its_request(
                restored,
                index,
            ) implies order.contains(index) by {
            if index < last {
                let place = before.index_of(index);
                assert(order[place] == index);
            } else {
                assert(order[before.len() as int] == last);
            }
        }
        order
    }
}

proof fn lemma_first_in_prefix(
    restored: Seq<RestoredRecordView>,
    shorter: Seq<RestoredRecordView>,
    index: int,
)
    requires
        restored.len() > 0,
        shorter == restored.drop_last(),
        0 <= index < shorter.len(),
    ensures
        first_of_its_request(restored, index) <==> first_of_its_request(shorter, index),
{
    if first_of_its_request(restored, index) {
        assert forall|earlier: int|
            0 <= earlier < index && unfinished_download(
                #[trigger] shorter[earlier],
            ) implies !asked_the_same(shorter[earlier], shorter[index]) by {
            assert(shorter[earlier] == restored[earlier]);
        }
    }
    if first_of_its_request(shorter, index) {
        assert forall|earlier: int|
            0 <= earlier < index && unfinished_download(
                #[trigger] restored[earlier],
            ) implies !asked_the_same(restored[earlier], restored[index]) by {
            assert(shorter[earlier] == restored[earlier]);
        }
    }
}

/// The last record is queued if it is the first of its request.
proof fn lemma_taken_up(restored: Seq<RestoredRecordView>, last: int)
    requires
        last == restored.len() - 1,
        last >= 0,
    ensures
        with_all_restored(restored).queued_task_ids == if first_of_its_request(restored, last) {
            with_all_restored(restored.drop_last()).queued_task_ids.push(
                restored[last].record.task.id,
            )
        } else {
            with_all_restored(restored.drop_last()).queued_task_ids
        },
        unfinished_download(restored[last]) ==> (first_of_its_request(restored, last)
            <==> !with_all_restored(restored.drop_last()).active_task_ids_by_key.contains_key(
            download_key(restored[last].record.task.source, restored[last].record.options),
        )),
{
    let shorter = restored.drop_last();
    let state = with_all_restored(shorter);
    let given = restored[last];
    assert(restored.last() == given);
    if unfinished_download(given) {
        let key = download_key(given.record.task.source, given.record.options);
        lemma_held_keys(shorter, key);
        if state.active_task_ids_by_key.contains_key(key) {
            let earlier = choose|earlier: int|
                0 <= earlier < shorter.len() && unfinished_download(#[trigger] shorter[earlier])
                    && download_key(
                    shorter[earlier].record.task.source,
                    shorter[earlier].record.options,
                ) == key;
            assert(restored[earlier] == shorter[earlier]);
            law_requests_share_a_key_if_they_ask_for_the_same(
                restored[earlier].record.task.source,
                restored[earlier].record.options,
                given.record.task.source,
                given.record.options,
            );
            assert(!first_of_its_request(restored, last));
        } else {
            assert forall|earlier: int|
                0 <= earlier < last && unfinished_download(
                    #[trigger] restored[earlier],
                ) implies !asked_the_same(restored[earlier], given) by {
                assert(shorter[earlier] == restored[earlier]);
                law_requests_share_a_key_if_they_ask_for_the_same(
                    restored[earlier].record.task.source,
                    restored[earlier].record.options,
                    given.record.task.source,
                    given.record.options,
                );
            }
            assert(first_of_its_request(restored, last));
        }
    }
}

/// A key is held if, and only if, an unfinished download has it.
proof fn lemma_held_keys(restored: Seq<RestoredRecordView>, key: ActiveBilibiliTaskKeyView)
    ensures
        with_all_restored(restored).active_task_ids_by_key.contains_key(key) <==> exists|index: int|
            0 <= index < restored.len() && unfinished_download(#[trigger] restored[index])
                && download_key(restored[index].record.task.source, restored[index].record.options)
                == key,
    decreases restored.len(),
{
    if restored.len() > 0 {
        let shorter = restored.drop_last();
        let last = restored.len() - 1;
        lemma_held_keys(shorter, key);
        assert(restored[last] == restored.last());
        if exists|index: int|
            0 <= index < shorter.len() && unfinished_download(#[trigger] shorter[index])
                && download_key(shorter[index].record.task.source, shorter[index].record.options)
                == key {
            let index = choose|index: int|
                0 <= index < shorter.len() && unfinished_download(#[trigger] shorter[index])
                    && download_key(
                    shorter[index].record.task.source,
                    shorter[index].record.options,
                ) == key;
            assert(restored[index] == shorter[index]);
        }
        if exists|index: int|
            0 <= index < restored.len() && unfinished_download(#[trigger] restored[index])
                && download_key(restored[index].record.task.source, restored[index].record.options)
                == key {
            let index = choose|index: int|
                0 <= index < restored.len() && unfinished_download(#[trigger] restored[index])
                    && download_key(
                    restored[index].record.task.source,
                    restored[index].record.options,
                ) == key;
            if index < last {
                assert(restored[index] == shorter[index]);
            }
        }
    }
}

/// A record under a name of its own, whose output could be derived, comes back with that output and
/// its options, and clients see it; but of unfinished downloads for one request only the first
/// does.
pub proof fn law_a_restart_brings_back_what_was_written_down(
    restored: Seq<RestoredRecordView>,
    setting: RegistrySetting,
    index: int,
)
    requires
        0 <= index < restored.len(),
        forall|other: int|
            0 <= other < restored.len() && other != index ==> (
            #[trigger] restored[other]).record.task.id != restored[index].record.task.id,
    ensures
        ({
            let state = opened(restored, setting).inner;
            let given = restored[index];
            let id = given.record.task.id;
            &&& state.tasks_by_id.contains_key(id) <==> given.output is Some && (
            unfinished_download(given) ==> first_of_its_request(restored, index))
            &&& state.tasks_by_id.contains_key(id) ==> {
                &&& state.tasks_by_id[id] == (TaskView {
                    output_summary: Some(given.summary),
                    ..given.record.task
                })
                &&& state.visible_tasks_by_id.contains_key(id)
                &&& state.visible_tasks_by_id[id] == state.tasks_by_id[id]
                &&& state.outputs_by_task_id.contains_key(id)
                &&& Some(state.outputs_by_task_id[id]) == given.output
                &&& state.visible_outputs_by_task_id.contains_key(id)
                &&& state.visible_outputs_by_task_id[id].record == given.output->0
                &&& unfinished_download(given) ==> state.download_options_by_id.contains_key(id)
                    && state.download_options_by_id[id] == given.record.options
                &&& given.record.task.kind == TaskKind::BilibiliProgressivePlayback && (
                given.record.task.state == TaskState::Queued || given.record.task.state
                    == TaskState::Planned) ==> state.playback_options_by_id.contains_key(id)
                    && state.playback_options_by_id[id] == given.record.playback_options
            }
            &&& state.download_options_by_id.contains_key(id) ==> unfinished_download(given)
            &&& state.playback_options_by_id.contains_key(id) ==> given.output is Some
                && given.record.task.kind == TaskKind::BilibiliProgressivePlayback && (
            given.record.task.state == TaskState::Queued || given.record.task.state
                == TaskState::Running || given.record.task.state == TaskState::CancelRequested
                || given.record.task.state == TaskState::Planned || given.record.task.state
                == TaskState::Preparing)
        }),
{
    lemma_brought_back(restored, index);
}

proof fn lemma_brought_back(restored: Seq<RestoredRecordView>, index: int)
    requires
        0 <= index < restored.len(),
        forall|other: int|
            0 <= other < restored.len() && other != index ==> (
            #[trigger] restored[other]).record.task.id != restored[index].record.task.id,
    ensures
        ({
            let state = with_all_restored(restored);
            let given = restored[index];
            let id = given.record.task.id;
            &&& state.tasks_by_id.contains_key(id) <==> given.output is Some && (
            unfinished_download(given) ==> first_of_its_request(restored, index))
            &&& state.tasks_by_id.contains_key(id) ==> {
                &&& state.tasks_by_id[id] == (TaskView {
                    output_summary: Some(given.summary),
                    ..given.record.task
                })
                &&& state.outputs_by_task_id.contains_key(id)
                &&& Some(state.outputs_by_task_id[id]) == given.output
                &&& unfinished_download(given) ==> state.download_options_by_id.contains_key(id)
                    && state.download_options_by_id[id] == given.record.options
                &&& given.record.task.kind == TaskKind::BilibiliProgressivePlayback && (
                given.record.task.state == TaskState::Queued || given.record.task.state
                    == TaskState::Planned) ==> state.playback_options_by_id.contains_key(id)
                    && state.playback_options_by_id[id] == given.record.playback_options
            }
            &&& state.download_options_by_id.contains_key(id) ==> unfinished_download(given)
            &&& state.playback_options_by_id.contains_key(id) ==> given.output is Some
                && given.record.task.kind == TaskKind::BilibiliProgressivePlayback && (
            given.record.task.state == TaskState::Queued || given.record.task.state
                == TaskState::Running || given.record.task.state == TaskState::CancelRequested
                || given.record.task.state == TaskState::Planned || given.record.task.state
                == TaskState::Preparing)
        }),
    decreases restored.len(),
{
    let shorter = restored.drop_last();
    let last = restored.len() - 1;
    let id = restored[index].record.task.id;
    assert(restored.last() == restored[last]);
    lemma_taken_up(restored, last);
    if index < last {
        assert forall|other: int| 0 <= other < shorter.len() && other != index implies (
        #[trigger] shorter[other]).record.task.id != shorter[index].record.task.id by {
            assert(shorter[other] == restored[other]);
        }
        assert(shorter[index] == restored[index]);
        lemma_brought_back(shorter, index);
        lemma_first_in_prefix(restored, shorter, index);
        assert(restored[last].record.task.id != id);
    } else {
        assert forall|other: int| 0 <= other < shorter.len() implies (
        #[trigger] shorter[other]).record.task.id != id by {
            assert(shorter[other] == restored[other]);
        }
        lemma_unknown(shorter, id);
    }
}

proof fn lemma_unknown(restored: Seq<RestoredRecordView>, id: Seq<char>)
    requires
        forall|other: int|
            0 <= other < restored.len() ==> (#[trigger] restored[other]).record.task.id != id,
    ensures
        !with_all_restored(restored).tasks_by_id.contains_key(id),
        !with_all_restored(restored).download_options_by_id.contains_key(id),
        !with_all_restored(restored).playback_options_by_id.contains_key(id),
    decreases restored.len(),
{
    if restored.len() > 0 {
        let shorter = restored.drop_last();
        assert forall|other: int| 0 <= other < shorter.len() implies (
        #[trigger] shorter[other]).record.task.id != id by {
            assert(shorter[other] == restored[other]);
        }
        lemma_unknown(shorter, id);
        assert(restored[restored.len() - 1] == restored.last());
    }
}

/// The records at the places `order`, which ascend, are those that are taken up again.
pub open spec fn taken_up_in_order(
    records: Seq<PersistedTaskRecordView>,
    now: Timestamp,
    order: Seq<int>,
) -> bool {
    let restored = restored_records(records, now);
    &&& order.len() == restored.len()
    &&& forall|k: int|
        0 <= k < order.len() ==> 0 <= #[trigger] order[k] < records.len() && restored_record(
            records[order[k]],
            now,
        ) == Some(restored[k])
    &&& forall|j: int, k: int|
        0 <= j < k < order.len() ==> #[trigger] order[j] < #[trigger] order[k]
    &&& forall|index: int|
        0 <= index < records.len() && restored_record(#[trigger] records[index], now) is Some
            ==> order.contains(index)
}

/// Records are taken up in the order in which they were written down, each that can be.
pub proof fn law_records_are_taken_up_in_order(
    records: Seq<PersistedTaskRecordView>,
    now: Timestamp,
)
    ensures
        exists|order: Seq<int>| taken_up_in_order(records, now, order),
{
    let order = lemma_taken_up_in_order(records, now);
}

proof fn lemma_taken_up_in_order(
    records: Seq<PersistedTaskRecordView>,
    now: Timestamp,
) -> (order: Seq<int>)
    ensures
        taken_up_in_order(records, now, order),
    decreases records.len(),
{
    if records.len() == 0 {
        Seq::empty()
    } else {
        let shorter = records.drop_last();
        let last = records.len() - 1;
        let before = lemma_taken_up_in_order(shorter, now);
        assert(records.last() == records[last]);
        let taken = restored_record(records[last], now) is Some;
        let order = if taken { before.push(last) } else { before };
        let restored = restored_records(records, now);
        assert forall|k: int| 0 <= k < order.len() implies 0 <= #[trigger] order[k] < records.len()
            && restored_record(records[order[k]], now) == Some(restored[k]) by {
            if k < before.len() {
                assert(order[k] == before[k]);
                assert(records[before[k]] == shorter[before[k]]);
            }
        }
        assert forall|index: int|
            0 <= index < records.len() && restored_record(
                #[trigger] records[index],
                now,
            ) is Some implies order.contains(index) by {
            if index < last {
                assert(shorter[index] == records[index]);
                let place = before.index_of(index);
                assert(order[place] == index);
            } else {
                assert(order[before.len() as int] == last);
            }
        }
        order
    }
}

/// Each restored record goes with the output that was derived for it.
pub proof fn law_outputs_go_with_their_records(
    records: Seq<PersistedTaskRecordView>,
    outputs: Seq<RestoredOutputView>,
    index: int,
)
    requires
        0 <= index < records.len(),
        index < outputs.len(),
    ensures
        index < with_outputs(records, outputs).len(),
        with_outputs(records, outputs).len() <= records.len(),
        with_outputs(records, outputs).len() <= outputs.len(),
        with_outputs(records, outputs)[index].record == records[index],
        with_outputs(records, outputs)[index].output == outputs[index].output,
        with_outputs(records, outputs)[index].summary == outputs[index].summary,
{
}

/// A task is taken up again if it has a name and a source, is a download or a playback in a known
/// state, and as a playback has what it is to be played from: a planned one its session, a playable
/// one its source and its session, and a completed one its library entry.
pub proof fn law_records_that_can_be_taken_up(record: PersistedTaskRecordView, now: Timestamp)
    ensures
        restored_record(record, now) is Some <==> {
            let task = record.task;
            &&& trimmed(task.id).len() > 0
            &&& trimmed(task.source).len() > 0
            &&& match task.state {
                TaskState::Unspecified | TaskState::Unrecognized(_) => false,
                TaskState::Planned => task.kind == TaskKind::BilibiliDownload || (task.kind
                    == TaskKind::BilibiliProgressivePlayback && task.playback_session is Some),
                TaskState::Playable => task.kind == TaskKind::BilibiliDownload || (task.kind
                    == TaskKind::BilibiliProgressivePlayback && task.playback_session is Some
                    && task.playback_source is Some),
                TaskState::Completed => task.kind == TaskKind::BilibiliDownload || (task.kind
                    == TaskKind::BilibiliProgressivePlayback && task.library_item_id.len() > 0),
                _ => task.kind == TaskKind::BilibiliDownload || task.kind
                    == TaskKind::BilibiliProgressivePlayback,
            }
        },
        restored_record(record, now) matches Some(restored) ==> restored.options == record.options
            && restored.playback_options == record.playback_options && restored.output
            == record.output && restored.request_context == record.request_context
            && restored.bilibili_candidates == record.bilibili_candidates,
{
}

/// `after` is a playback task that has ended in `state` without anything to play: what it was, what
/// it was for and how far it came is as in `before`, and a result that had not failed or been
/// cancelled before has ended with it.
pub open spec fn over_in(
    before: TaskView,
    after: TaskView,
    state: TaskState,
    message: Seq<char>,
    now: Timestamp,
) -> bool {
    &&& after.state == state
    &&& after.message == message
    &&& after.finished_at == Some(now)
    &&& after.updated_at == Some(now)
    &&& after.playback_source is None
    &&& after.playback_session is None
    &&& after.library_item_id.len() == 0
    &&& after.kind == before.kind
    &&& after.title == before.title
    &&& after.progress == before.progress
    &&& after.downloaded_bytes == before.downloaded_bytes
    &&& after.total_bytes == before.total_bytes
    &&& after.created_at == before.created_at
    &&& after.bilibili_selection == before.bilibili_selection
    &&& after.output_summary == before.output_summary
    &&& after.result_items.len() == before.result_items.len()
    &&& forall|i: int|
        0 <= i < before.result_items.len() ==> item_over_in(
            before.result_items[i],
            #[trigger] after.result_items[i],
            state,
            message,
        )
}

/// `after` is the result `before` once its task has ended in `state`.
pub open spec fn item_over_in(
    before: BilibiliTaskResultItemView,
    after: BilibiliTaskResultItemView,
    state: TaskState,
    message: Seq<char>,
) -> bool {
    &&& after.playback_source is None
    &&& after.playback_session is None
    &&& after.library_item_id.len() == 0
    &&& before.state == TaskState::Failed || before.state == TaskState::Cancelled ==> after.state
        == before.state && after.message == before.message
    &&& before.state != TaskState::Failed && before.state != TaskState::Cancelled ==> after.state
        == state && after.message == message
    &&& after.id == before.id
    &&& after.selection_id == before.selection_id
    &&& after.title == before.title
    &&& after.subtitle == before.subtitle
    &&& after.source_kind == before.source_kind
    &&& after.content_id == before.content_id
    &&& after.index == before.index
    &&& after.identity == before.identity
}

/// What a restart makes of a task: a download that was under way waits again, a playback that was
/// being prepared has failed, and what was asked to stop is cancelled. A completed playback is
/// played from its library entry, which does not expire. All else is as it was.
pub proof fn law_a_restart_leaves_nothing_under_way(
    record: PersistedTaskRecordView,
    now: Timestamp,
)
    requires
        restored_record(record, now) is Some,
    ensures
        ({
            let before = record.task;
            let after = restored_record(record, now)->0.task;
            let playback = before.kind == TaskKind::BilibiliProgressivePlayback;
            let named = TaskView { id: after.id, source: after.source, ..before };
            &&& after.id == trimmed(before.id)
            &&& after.source == trimmed(before.source)
            &&& match before.state {
                TaskState::CancelRequested => if playback {
                    over_in(
                        before,
                        after,
                        TaskState::Cancelled,
                        "Cancelled during cache server restart."@,
                        now,
                    )
                } else {
                    after.state == TaskState::Cancelled && after.message
                        == "Cancelled during cache server restart."@ && after.finished_at
                        == Some(now) && after.updated_at == Some(now) && named == (TaskView {
                        state: before.state,
                        message: before.message,
                        finished_at: before.finished_at,
                        updated_at: before.updated_at,
                        ..after
                    })
                },
                TaskState::Running => if playback {
                    over_in(
                        before,
                        after,
                        TaskState::Failed,
                        "Playback planning was interrupted during cache server restart."@,
                        now,
                    )
                } else {
                    after.state == TaskState::Queued && after.message
                        == "Requeued after cache server restart."@ && after.finished_at is None
                        && after.updated_at == Some(now) && named == (TaskView {
                        state: before.state,
                        message: before.message,
                        finished_at: before.finished_at,
                        updated_at: before.updated_at,
                        ..after
                    })
                },
                TaskState::Preparing => if playback {
                    over_in(
                        before,
                        after,
                        TaskState::Failed,
                        "Playback planning was interrupted during cache server restart."@,
                        now,
                    )
                } else {
                    after == named
                },
                TaskState::Completed => if playback {
                    &&& named == (TaskView { playback_source: before.playback_source, ..after })
                    &&& after.playback_source is Some <==> before.playback_source is Some
                    &&& after.playback_source matches Some(source) ==> source.item_id
                        == before.library_item_id && source.expires_at is None && source.uri
                        == before.playback_source->0.uri && source.variant_id
                        == before.playback_source->0.variant_id
                } else {
                    after == named
                },
                _ => after == named,
            }
        }),
{
}

/// `after` is `before` without the results for which `lost` holds: these have failed with `message`
/// and are played from nothing, and all others are as they were.
pub open spec fn lost_results(
    before: TaskView,
    after: TaskView,
    lost: spec_fn(BilibiliTaskResultItemView) -> bool,
    message: Seq<char>,
) -> bool {
    &&& after.result_items.len() == before.result_items.len()
    &&& forall|i: int|
        0 <= i < before.result_items.len() ==> {
            let old_item = before.result_items[i];
            let item = #[trigger] after.result_items[i];
            if lost(old_item) {
                &&& item.state == TaskState::Failed
                &&& item.message == message
                &&& item.playback_source is None
                &&& item.playback_session is None
                &&& item.library_item_id.len() == 0
                &&& item.id == old_item.id
                &&& item.selection_id == old_item.selection_id
                &&& item.title == old_item.title
                &&& item.index == old_item.index
                &&& item.identity == old_item.identity
            } else {
                item == old_item
            }
        }
}

/// A playback whose own session did not come back after a restart has failed; of one whose session
/// did, the playable results without a session that came back have. A task that is not served stays
/// as it is, as does one of which all came back.
pub proof fn law_only_what_came_back_is_served(
    task: TaskView,
    playable: Set<Seq<char>>,
    completed: Set<Seq<char>>,
    now: Timestamp,
)
    ensures
        ({
            let message = "Playback media session expired during cache server restart."@;
            let served = task.kind == TaskKind::BilibiliProgressivePlayback && (task.state
                == TaskState::Playable || task.state == TaskState::Completed);
            let primary = exists|session: Seq<char>| #[trigger]
                plays_first(task, session) && if task.state == TaskState::Completed {
                    completed.contains(session)
                } else {
                    playable.contains(session)
                };
            let lost = |item: BilibiliTaskResultItemView|
                playable_item(item) && !came_back(item, playable, completed);
            match after_restart(task, playable, completed, now) {
                None => !served || (primary && forall|i: int|
                    0 <= i < task.result_items.len() ==> !lost(#[trigger] task.result_items[i])),
                Some(after) => served && after.id == task.id && after.source == task.source
                    && if !primary {
                    over_in(task, after, TaskState::Failed, message, now)
                } else {
                    &&& lost_results(task, after, lost, message)
                    &&& exists|i: int|
                        0 <= i < task.result_items.len() && lost(#[trigger] task.result_items[i])
                    &&& after.state == task.state
                    &&& after.playback_source == task.playback_source
                    &&& after.playback_session == task.playback_session
                    &&& after.library_item_id == task.library_item_id
                    &&& after.finished_at == task.finished_at
                    &&& after.updated_at == Some(now)
                    &&& after.progress == items_progress(after.result_items)
                    &&& after.message == if task.state == TaskState::Completed {
                        "Completed offline cache restored; some Bilibili playback results expired after restart."@
                    } else {
                        "Playable online; some Bilibili playback results expired after restart."@
                    }
                },
            }
        }),
{
    assert forall|session: Seq<char>| #[trigger] plays_first(task, session) implies
        primary_session(task) == Some(session) by {
        law_tasks_know_their_sessions(task, session);
    }
    if let Some(session) = primary_session(task) {
        law_tasks_know_their_sessions(task, session);
    }
    assert forall|i: int| 0 <= i < task.result_items.len() implies (
    lost_in_restart(playable, completed)(#[trigger] task.result_items[i])
        <==> playable_item(task.result_items[i]) && !came_back(
        task.result_items[i],
        playable,
        completed,
    )) by {
        law_results_come_back_with_a_session(task.result_items[i], playable, completed);
        law_results_that_can_be_played(task.result_items[i]);
    }
}

/// One of the sessions that the result is known by came back: for a cached one as such, under its
/// own library entry, and for one that is played online as playable.
pub open spec fn came_back(
    item: BilibiliTaskResultItemView,
    playable: Set<Seq<char>>,
    completed: Set<Seq<char>>,
) -> bool {
    exists|session: Seq<char>| #[trigger]
        known_by(item, session) && if item.state == TaskState::Completed {
            completed.contains(session) && item.library_item_id == "bilibili.hls."@ + session
        } else {
            (item.state == TaskState::Playable || fell_back_online(item)) && playable.contains(
                session,
            )
        }
}

/// A playback without the session that it plays first has failed; without that of a result, the
/// result has, and the playback goes on.
pub proof fn law_a_lost_session_is_not_served(
    task: TaskView,
    session: Seq<char>,
    message: Seq<char>,
    now: Timestamp,
)
    ensures
        ({
            let after = without_session(task, session, message, now);
            &&& after.id == task.id
            &&& after.source == task.source
            &&& if plays_first(task, session) {
                over_in(task, after, TaskState::Failed, message, now)
            } else {
                &&& lost_results(
                    task,
                    after,
                    |item: BilibiliTaskResultItemView|
                        playable_item(item) && known_by(item, session),
                    message,
                )
                &&& after.state == task.state
                &&& after.playback_source == task.playback_source
                &&& after.playback_session == task.playback_session
                &&& after.library_item_id == task.library_item_id
                &&& after.finished_at == task.finished_at
                &&& after.updated_at == Some(now)
                &&& after.progress == items_progress(after.result_items)
                &&& after.message == if task.state == TaskState::Completed {
                    "Completed offline cache restored; some Bilibili playback results expired after cache restore."@
                } else {
                    "Playable online; some Bilibili playback results expired after cache restore."@
                }
            }
        }),
{
    law_tasks_know_their_sessions(task, session);
    assert forall|i: int| 0 <= i < task.result_items.len() implies (serves_as(
        session,
    )(#[trigger] task.result_items[i]) <==> playable_item(task.result_items[i]) && known_by(
        task.result_items[i],
        session,
    )) by {
        law_results_are_known_by_their_sessions(task.result_items[i], session);
        law_results_that_can_be_played(task.result_items[i]);
    }
}

} // verus!
