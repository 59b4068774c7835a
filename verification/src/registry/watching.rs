//! Clients that watch tasks.

use crate::id_set::{IdSet, lemma_take_to_set};
use crate::model::task::{Task, TaskView};
use crate::ordered::{ascending, insert_ordered, lists};
use crate::plain::Plain;
use crate::registry::BilibiliTaskRegistry;
use crate::status::{Code, Status, refusal};
use crate::text::{normalize, trimmed};
use vstd::prelude::*;

verus! {

pub const WATCHER_EVENT_BUFFER_CAPACITY: usize = 128;

/// What a client watches: the tasks that it named, or all if it named none.
pub struct TaskWatch {
    pub watched_ids: IdSet,
}

pub open spec fn watched(ids: Set<Seq<char>>, id: Seq<char>) -> bool {
    ids == Set::<Seq<char>>::empty() || ids.contains(id)
}

impl TaskWatch {
    pub fn matches(&self, task: &Task) -> (result: bool)
        ensures
            result == watched(self.watched_ids@, task@.id),
    {
        self.watched_ids.is_empty() || self.watched_ids.contains(&task.id)
    }
}

/// A new watch, and what the client is told first.
pub struct TaskSubscriptionStart {
    pub watch: TaskWatch,
    pub snapshots: Vec<Task>,
}

/// The identifiers that a client named, without white space around them.
pub open spec fn named_ids(ids: Seq<Seq<char>>) -> Set<Seq<char>> {
    Set::new(
        |id: Seq<char>| exists|i: int| 0 <= i < ids.len() && trimmed(#[trigger] ids[i]) == id,
    )
}

pub open spec fn ids_of(tasks: Seq<TaskView>) -> Seq<Seq<char>> {
    Seq::new(tasks.len(), |i: int| tasks[i].id)
}

/// The visible tasks that a watch shows.
pub open spec fn watched_tasks(
    visible: Map<Seq<char>, TaskView>,
    ids: Set<Seq<char>>,
) -> Set<Seq<char>> {
    Set::new(|id: Seq<char>| visible.contains_key(id) && watched(ids, id))
}

impl BilibiliTaskRegistry {
    /// Starts to watch tasks. The client is first told what they are now, ordered by their
    /// identifiers.
    pub fn subscribe(&self, ids: &Vec<String>) -> (result: Result<TaskSubscriptionStart, Status>)
        requires
            self@.well_formed(),
        ensures
            match result {
                Ok(start) => {
                    &&& forall|i: int|
                        0 <= i < ids@.len() ==> trimmed(#[trigger] ids.deep_view()[i]).len() > 0
                    &&& start.watch.watched_ids@ == named_ids(ids.deep_view())
                    &&& lists(
                        ids_of(start.snapshots.deep_view()),
                        watched_tasks(
                            self@.inner.visible_tasks_by_id,
                            named_ids(ids.deep_view()),
                        ),
                    )
                    &&& forall|i: int|
                        0 <= i < start.snapshots@.len()
                            ==> #[trigger] start.snapshots.deep_view()[i]
                            == self@.inner.visible_tasks_by_id[start.snapshots.deep_view()[i].id]
                },
                Err(status) => status@ == refusal(
                    Code::InvalidArgument,
                    "Task id filter cannot be empty."@,
                ) && exists|i: int|
                    0 <= i < ids@.len() && trimmed(#[trigger] ids.deep_view()[i]).len() == 0,
            },
    {
        let ghost named = ids.deep_view();
        let mut watched_ids = IdSet::new();
        proof {
            assert(named_ids(named.take(0)) =~= Set::<Seq<char>>::empty());
        }
        for index in 0..ids.len()
            invariant
                named == ids.deep_view(),
                watched_ids@ =~= named_ids(named.take(index as int)),
                forall|i: int| 0 <= i < index ==> trimmed(#[trigger] named[i]).len() > 0,
        {
            let normalized_id = normalize(ids[index].as_str());
            proof {
                assert(named[index as int] == ids[index as int]@);
            }
            if normalized_id.as_str().is_empty() {
                return Err(Status::new(Code::InvalidArgument, "Task id filter cannot be empty."));
            }
            proof {
                let short = named.take(index as int);
                let long = named.take(index + 1);
                assert forall|id: Seq<char>| named_ids(long).contains(id) <==> (named_ids(
                    short,
                ).contains(id) || id == normalized_id@) by {
                    if named_ids(long).contains(id) {
                        let i = choose|i: int|
                            0 <= i < long.len() && trimmed(#[trigger] long[i]) == id;
                        if i < index {
                            assert(short[i] == long[i]);
                        }
                    }
                    if named_ids(short).contains(id) {
                        let i = choose|i: int|
                            0 <= i < short.len() && trimmed(#[trigger] short[i]) == id;
                        assert(long[i] == short[i]);
                    }
                    assert(long[index as int] == named[index as int]);
                }
            }
            let _ = watched_ids.insert(normalized_id);
        }
        proof {
            assert(named.take(named.len() as int) =~= named);
        }
        let watch = TaskWatch { watched_ids };
        let tasks = &self.inner.visible_tasks_by_id;
        let count: usize = tasks.len();
        let ghost keys = tasks.keys();
        let ghost wanted = watched_tasks(tasks@, watch.watched_ids@);
        let mut order: Vec<String> = Vec::new();
        proof {
            assert(order.deep_view().to_set() =~= wanted.intersect(keys.take(0).to_set()));
        }
        for index in 0..count
            invariant
                count == keys.len(),
                keys == tasks.keys(),
                tasks@ == self@.inner.visible_tasks_by_id,
                self@.well_formed(),
                wanted == watched_tasks(tasks@, watch.watched_ids@),
                ascending(order.deep_view()),
                order.deep_view().to_set() =~= wanted.intersect(keys.take(index as int).to_set()),
        {
            proof {
                lemma_take_to_set(keys, index as int);
            }
            let task = tasks.value_at(index);
            if watch.matches(task) {
                insert_ordered(&mut order, task.id.clone());
            }
        }
        proof {
            assert(keys.take(count as int) =~= keys);
            assert(wanted.intersect(keys.to_set()) =~= wanted);
        }
        let mut snapshots: Vec<Task> = Vec::new();
        let ghost ordered = order.deep_view();
        for index in 0..order.len()
            invariant
                ordered == order.deep_view(),
                tasks@ == self@.inner.visible_tasks_by_id,
                self@.well_formed(),
                wanted == watched_tasks(tasks@, watch.watched_ids@),
                ordered.to_set() == wanted,
                snapshots@.len() == index,
                forall|i: int|
                    0 <= i < index ==> (#[trigger] snapshots@[i])@ == tasks@[ordered[i]]
                        && snapshots@[i]@.id == ordered[i],
        {
            proof {
                assert(ordered[index as int] == order[index as int]@);
                assert(ordered.contains(ordered[index as int]));
                assert(wanted.contains(ordered[index as int]));
            }
            if let Some(task) = tasks.get(&order[index]) {
                snapshots.push(task.duplicate());
            }
        }
        proof {
            assert(ids_of(snapshots.deep_view()) =~= ordered);
        }
        Ok(TaskSubscriptionStart { watch, snapshots })
    }
}

/// How the attempt to hand news to a client ended.
#[derive(Clone, Copy, Debug, PartialEq, Eq, Structural)]
pub enum Delivery {
    Accepted,
    /// The client has not taken the news before.
    Full,
    /// The client is gone.
    Closed,
}

/// What becomes of a watch after an attempt to hand news to its client.
#[derive(Clone, Copy, Debug, PartialEq, Eq, Structural)]
pub struct WatchFate {
    pub kept: bool,
    pub lagged: bool,
}

/// A client that falls behind is dropped, and will be told so.
pub fn watch_after(delivery: Delivery) -> (fate: WatchFate)
    ensures
        fate.kept == (delivery == Delivery::Accepted),
        fate.lagged == (delivery == Delivery::Full),
{
    match delivery {
        Delivery::Accepted => WatchFate { kept: true, lagged: false },
        Delivery::Full => WatchFate { kept: false, lagged: true },
        Delivery::Closed => WatchFate { kept: false, lagged: false },
    }
}

/// What a client is told when its watch has ended.
pub fn watch_end(lagged: bool) -> (status: Status)
    ensures
        status@ == if lagged {
            refusal(Code::ResourceExhausted, "Task watcher fell behind."@)
        } else {
            refusal(Code::Unavailable, "Task watcher closed."@)
        },
{
    if lagged {
        Status::new(Code::ResourceExhausted, "Task watcher fell behind.")
    } else {
        Status::new(Code::Unavailable, "Task watcher closed.")
    }
}

} // verus!
