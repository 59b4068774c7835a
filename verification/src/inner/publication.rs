//! What clients are shown, and what they are told.

use crate::active_key::{active_key_for_task, task_key};
use crate::id_set::{IdSet, lemma_take_to_set};
use crate::inner::checkpoint::{lookup, options_at};
use crate::model::key::{ActiveBilibiliTaskKey, ActiveBilibiliTaskKeyView};
use crate::model::output::{
    TaskOutputRecord, TaskOutputRecordView, TaskOutputSummary, TaskOutputSummaryView,
};
use crate::model::record::{PersistedTaskRecord, PersistedTaskRecordView};
use crate::model::state::{RegistryInner, RegistryInnerView};
use crate::model::task::{Task, TaskView};
use crate::model::visible::{VisibleTaskOutput, VisibleTaskOutputView};
use crate::plain::Plain;
use crate::table::Table;
use crate::visible_output::{shared_visible_task_output, shown_after};
use vstd::prelude::*;

verus! {

/// `state` with the news of `task` waiting to be told.
pub open spec fn staged(state: RegistryInnerView, task: TaskView) -> RegistryInnerView {
    RegistryInnerView {
        pending_publications_by_id: state.pending_publications_by_id.insert(task.id, task),
        ..state
    }
}

/// The news in `pending`, each brought up to what is live.
pub open spec fn refreshed(
    pending: Map<Seq<char>, TaskView>,
    tasks: Map<Seq<char>, TaskView>,
) -> Map<Seq<char>, TaskView> {
    Map::new(
        |id: Seq<char>| pending.contains_key(id),
        |id: Seq<char>|
            if tasks.contains_key(id) {
                tasks[id]
            } else {
                pending[id]
            },
    )
}

/// What is told of the task `id`: what clients see of it, or its last words.
pub open spec fn told(state: RegistryInnerView, id: Seq<char>) -> TaskView {
    if state.visible_tasks_by_id.contains_key(id) {
        state.visible_tasks_by_id[id]
    } else {
        state.pending_publications_by_id[id]
    }
}

/// `news` tells of each task in `ids` once, in some order.
pub open spec fn tells_of(
    news: Seq<TaskView>,
    state: RegistryInnerView,
    ids: Set<Seq<char>>,
) -> bool {
    exists|order: Seq<Seq<char>>|
        #![trigger order.to_set()]
        order.no_duplicates() && order.to_set() == ids && news =~= Seq::new(
            order.len(),
            |i: int| told(state, order[i]),
        )
}

pub open spec fn visible_tasks_of(
    records: Seq<PersistedTaskRecordView>,
) -> Map<Seq<char>, TaskView>
    decreases records.len(),
{
    if records.len() == 0 {
        Map::empty()
    } else {
        visible_tasks_of(records.drop_last()).insert(records.last().task.id, records.last().task)
    }
}

pub open spec fn visible_outputs_of(
    records: Seq<PersistedTaskRecordView>,
    previous: Map<Seq<char>, VisibleTaskOutputView>,
) -> Map<Seq<char>, VisibleTaskOutputView>
    decreases records.len(),
{
    if records.len() == 0 {
        Map::empty()
    } else {
        let id = records.last().task.id;
        visible_outputs_of(records.drop_last(), previous).insert(
            id,
            shown_after(lookup(previous, id), records.last().output),
        )
    }
}

/// `state` showing exactly what `records` holds.
pub open spec fn showing_records(
    state: RegistryInnerView,
    records: Seq<PersistedTaskRecordView>,
) -> RegistryInnerView {
    RegistryInnerView {
        visible_tasks_by_id: visible_tasks_of(records),
        visible_outputs_by_task_id: visible_outputs_of(records, state.visible_outputs_by_task_id),
        ..state
    }
}

/// The live outputs as clients see them.
pub open spec fn shown_outputs(
    outputs: Map<Seq<char>, TaskOutputRecordView>,
    previous: Map<Seq<char>, VisibleTaskOutputView>,
) -> Map<Seq<char>, VisibleTaskOutputView> {
    Map::new(
        |id: Seq<char>| outputs.contains_key(id),
        |id: Seq<char>| shown_after(lookup(previous, id), outputs[id]),
    )
}

/// `state` showing exactly what is live.
pub open spec fn showing_live(state: RegistryInnerView) -> RegistryInnerView {
    RegistryInnerView {
        visible_tasks_by_id: state.tasks_by_id,
        visible_outputs_by_task_id: shown_outputs(
            state.outputs_by_task_id,
            state.visible_outputs_by_task_id,
        ),
        ..state
    }
}

/// The key of the request that made `task`, with the options that the registry remembers.
pub open spec fn remembered_key(
    state: RegistryInnerView,
    task: TaskView,
) -> ActiveBilibiliTaskKeyView {
    task_key(
        task,
        options_at(state.download_options_by_id, task.id),
        options_at(state.playback_options_by_id, task.id),
    )
}

/// The active keys without that of `task`, if the key is held for that task.
pub open spec fn released_keys(
    state: RegistryInnerView,
    task: TaskView,
) -> Map<ActiveBilibiliTaskKeyView, Seq<char>> {
    let key = remembered_key(state, task);
    if lookup(state.active_task_ids_by_key, key) == Some(task.id) {
        state.active_task_ids_by_key.remove(key)
    } else {
        state.active_task_ids_by_key
    }
}

/// `state` with nothing left that only an active `task` needs.
pub open spec fn without_active_task(state: RegistryInnerView, task: TaskView) -> RegistryInnerView {
    RegistryInnerView {
        active_task_ids_by_key: released_keys(state, task),
        running_cancellations_by_id: state.running_cancellations_by_id.remove(task.id),
        planning_cancellations_by_id: state.planning_cancellations_by_id.remove(task.id),
        download_options_by_id: state.download_options_by_id.remove(task.id),
        playback_options_by_id: state.playback_options_by_id.remove(task.id),
        ..state
    }
}

impl RegistryInner {
    pub fn stage_publication(&mut self, task: Task)
        ensures
            final(self)@ == staged(old(self)@, task@),
    {
        self.pending_publications_by_id.insert(task.id.clone(), task);
    }

    pub fn refresh_pending_publications(&mut self)
        ensures
            final(self)@ == (RegistryInnerView {
                pending_publications_by_id: refreshed(
                    old(self)@.pending_publications_by_id,
                    old(self)@.tasks_by_id,
                ),
                ..old(self)@
            }),
    {
        let mut fresh: Table<String, Task> = Table::new();
        let count: usize = self.pending_publications_by_id.len();
        let ghost keys = self.pending_publications_by_id.keys();
        let ghost wanted = refreshed(self@.pending_publications_by_id, self@.tasks_by_id);
        for index in 0..count
            invariant
                count == keys.len(),
                keys == self.pending_publications_by_id.keys(),
                wanted == refreshed(self@.pending_publications_by_id, self@.tasks_by_id),
                fresh@.dom() =~= keys.take(index as int).to_set(),
                forall|id: Seq<char>| #[trigger]
                    fresh@.contains_key(id) ==> fresh@[id] == wanted[id],
        {
            proof {
                lemma_take_to_set(keys, index as int);
            }
            let id = self.pending_publications_by_id.key_at(index);
            let task = match self.tasks_by_id.get(id) {
                Some(task) => task.duplicate(),
                None => self.pending_publications_by_id.value_at(index).duplicate(),
            };
            fresh.insert(id.clone(), task);
        }
        proof {
            assert(keys.take(count as int) =~= keys);
            assert(keys.to_set() =~= wanted.dom());
            assert(fresh@ =~= wanted);
        }
        self.pending_publications_by_id = fresh;
    }

    /// Tells everything that is waiting to be told.
    pub fn publish_pending(&mut self) -> (news: Vec<Task>)
        ensures
            final(self)@ == (RegistryInnerView {
                pending_publications_by_id: Map::empty(),
                ..old(self)@
            }),
            tells_of(
                news.deep_view(),
                old(self)@,
                old(self)@.pending_publications_by_id.dom(),
            ),
    {
        let mut news: Vec<Task> = Vec::new();
        let count: usize = self.pending_publications_by_id.len();
        let ghost keys = self.pending_publications_by_id.keys();
        let ghost before = self@;
        for index in 0..count
            invariant
                count == keys.len(),
                keys == self.pending_publications_by_id.keys(),
                before == self@,
                news@.len() == index,
                forall|i: int|
                    0 <= i < index ==> #[trigger] news@[i]@ == told(before, keys[i]),
        {
            let id = self.pending_publications_by_id.key_at(index);
            let task = match self.visible_tasks_by_id.get(id) {
                Some(task) => task.duplicate(),
                None => self.pending_publications_by_id.value_at(index).duplicate(),
            };
            news.push(task);
        }
        self.pending_publications_by_id = Table::new();
        proof {
            assert(keys.to_set() =~= before.pending_publications_by_id.dom());
            assert(news.deep_view() =~= Seq::new(keys.len(), |i: int| told(before, keys[i])));
        }
        news
    }

    /// Shows a change that is not written down. It is told at once, unless older news of the task
    /// is still waiting, or the task is not visible yet.
    pub fn publish_volatile(&mut self, task: Task) -> (news: Option<Task>)
        ensures
            old(self)@.pending_publications_by_id.contains_key(task@.id)
                || !old(self)@.visible_tasks_by_id.contains_key(task@.id) ==> final(self)@ == staged(
                old(self)@,
                task@,
            ) && news is None,
            !(old(self)@.pending_publications_by_id.contains_key(task@.id)
                || !old(self)@.visible_tasks_by_id.contains_key(task@.id)) ==> final(self)@ == (
            RegistryInnerView {
                visible_tasks_by_id: old(self)@.visible_tasks_by_id.insert(task@.id, task@),
                ..old(self)@
            }) && news is Some && news->0@ == task@,
    {
        if self.pending_publications_by_id.contains_key(&task.id)
            || !self.visible_tasks_by_id.contains_key(&task.id) {
            self.stage_publication(task);
            None
        } else {
            self.visible_tasks_by_id.insert(task.id.clone(), task.duplicate());
            Some(task)
        }
    }

    pub fn install_visible_snapshot(&mut self, records: &Vec<PersistedTaskRecord>)
        ensures
            final(self)@ == showing_records(old(self)@, records.deep_view()),
    {
        let mut tasks: Table<String, Task> = Table::new();
        let mut outputs: Table<String, VisibleTaskOutput> = Table::new();
        let ghost all = records.deep_view();
        let ghost previous = self@.visible_outputs_by_task_id;
        proof {
            assert(all.take(0).len() == 0);
        }
        for index in 0..records.len()
            invariant
                all == records.deep_view(),
                previous == self@.visible_outputs_by_task_id,
                tasks@ == visible_tasks_of(all.take(index as int)),
                outputs@ == visible_outputs_of(all.take(index as int), previous),
        {
            let record = &records[index];
            proof {
                assert(all.take(index + 1).drop_last() =~= all.take(index as int));
                assert(all.take(index + 1).last() == record@);
            }
            let output = shared_visible_task_output(
                self.visible_outputs_by_task_id.get(&record.task.id),
                &record.output,
            );
            tasks.insert(record.task.id.clone(), record.task.duplicate());
            outputs.insert(record.task.id.clone(), output);
        }
        proof {
            assert(all.take(all.len() as int) =~= all);
        }
        self.visible_tasks_by_id = tasks;
        self.visible_outputs_by_task_id = outputs;
    }

    pub fn install_visible_live_state(&mut self)
        ensures
            final(self)@ == showing_live(old(self)@),
    {
        let mut outputs: Table<String, VisibleTaskOutput> = Table::new();
        let count: usize = self.outputs_by_task_id.len();
        let ghost keys = self.outputs_by_task_id.keys();
        let ghost wanted = shown_outputs(
            self@.outputs_by_task_id,
            self@.visible_outputs_by_task_id,
        );
        for index in 0..count
            invariant
                count == keys.len(),
                keys == self.outputs_by_task_id.keys(),
                wanted == shown_outputs(self@.outputs_by_task_id, self@.visible_outputs_by_task_id),
                outputs@.dom() =~= keys.take(index as int).to_set(),
                forall|id: Seq<char>| #[trigger]
                    outputs@.contains_key(id) ==> outputs@[id] == wanted[id],
        {
            proof {
                lemma_take_to_set(keys, index as int);
            }
            let id = self.outputs_by_task_id.key_at(index);
            let output = shared_visible_task_output(
                self.visible_outputs_by_task_id.get(id),
                self.outputs_by_task_id.value_at(index),
            );
            outputs.insert(id.clone(), output);
        }
        proof {
            assert(keys.take(count as int) =~= keys);
            assert(keys.to_set() =~= wanted.dom());
            assert(outputs@ =~= wanted);
        }
        self.visible_tasks_by_id = self.tasks_by_id.duplicate();
        self.visible_outputs_by_task_id = outputs;
    }

    fn holds_active_key(
        &self,
        task: &Task,
    ) -> (found: Option<ActiveBilibiliTaskKey>)
        ensures
            match found {
                Some(key) => key@ == remembered_key(self@, task@) && lookup(
                    self@.active_task_ids_by_key,
                    key@,
                ) == Some(task@.id),
                None => lookup(self@.active_task_ids_by_key, remembered_key(self@, task@)) != Some(
                    task@.id,
                ),
            },
    {
        let download_options = match self.download_options_by_id.get(&task.id) {
            Some(options) => options.duplicate(),
            None => None,
        };
        let playback_options = match self.playback_options_by_id.get(&task.id) {
            Some(options) => options.duplicate(),
            None => None,
        };
        let key = active_key_for_task(task, &download_options, &playback_options);
        match self.active_task_ids_by_key.get(&key) {
            Some(active_task_id) => if *active_task_id == task.id {
                Some(key)
            } else {
                None
            },
            None => None,
        }
    }

    /// Lets a new request with the key of `task` start a task of its own.
    pub fn clear_active_duplicate_key(&mut self, task: &Task)
        ensures
            final(self)@ == (RegistryInnerView {
                active_task_ids_by_key: released_keys(old(self)@, task@),
                ..old(self)@
            }),
    {
        if let Some(key) = self.holds_active_key(task) {
            let _ = self.active_task_ids_by_key.remove(&key);
        }
    }

    /// Forgets what only an active `task` needs.
    pub fn clear_active_task(&mut self, task: &Task)
        ensures
            final(self)@ == without_active_task(old(self)@, task@),
    {
        self.clear_active_duplicate_key(task);
        let _ = self.running_cancellations_by_id.remove(&task.id);
        let _ = self.planning_cancellations_by_id.remove(&task.id);
        let _ = self.download_options_by_id.remove(&task.id);
        let _ = self.playback_options_by_id.remove(&task.id);
    }

    /// The resources that were waiting for a durable save may now be deleted.
    pub fn mark_resource_cleanup_durable(&mut self, resource_cleanup_ids: &IdSet)
        ensures
            final(self)@ == (RegistryInnerView {
                pending_resource_cleanup_ids: old(self)@.pending_resource_cleanup_ids.difference(
                    resource_cleanup_ids@,
                ),
                durable_resource_cleanup_ids: old(self)@.durable_resource_cleanup_ids.union(
                    old(self)@.pending_resource_cleanup_ids.intersect(resource_cleanup_ids@),
                ),
                ..old(self)@
            }),
    {
        let count: usize = resource_cleanup_ids.len();
        let ghost before = self@;
        let ghost listed = resource_cleanup_ids.listed();
        for index in 0..count
            invariant
                count == listed.len(),
                listed == resource_cleanup_ids.listed(),
                listed.no_duplicates(),
                self@ == (RegistryInnerView {
                    pending_resource_cleanup_ids: self@.pending_resource_cleanup_ids,
                    durable_resource_cleanup_ids: self@.durable_resource_cleanup_ids,
                    ..before
                }),
                self@.pending_resource_cleanup_ids =~= before.pending_resource_cleanup_ids.difference(
                    listed.take(index as int).to_set(),
                ),
                self@.durable_resource_cleanup_ids =~= before.durable_resource_cleanup_ids.union(
                    before.pending_resource_cleanup_ids.intersect(
                        listed.take(index as int).to_set(),
                    ),
                ),
        {
            proof {
                lemma_take_to_set(listed, index as int);
            }
            let id = resource_cleanup_ids.id_at(index);
            if self.pending_resource_cleanup_ids.remove(id) {
                let _ = self.durable_resource_cleanup_ids.insert(id.clone());
            }
        }
        proof {
            assert(listed.take(count as int) =~= listed);
        }
    }

    /// Takes over the output and the summary that were derived anew from the task `task_id`.
    /// Clients are told of a summary that differs.
    pub fn reconcile_task_output(
        &mut self,
        task_id: &String,
        output: TaskOutputRecord,
        summary: TaskOutputSummary,
    )
        ensures
            final(self)@ == reconciled(old(self)@, task_id@, output@, summary@),
    {
        match self.tasks_by_id.get(task_id) {
            Some(found) => {
                let mut task = found.duplicate();
                let summary_changed: bool = match &task.output_summary {
                    Some(previous) => !previous.same_as(&summary),
                    None => true,
                };
                task.output_summary = Some(summary);
                self.outputs_by_task_id.insert(task_id.clone(), output);
                if summary_changed {
                    self.pending_publications_by_id.insert(task_id.clone(), task.duplicate());
                }
                self.tasks_by_id.insert(task_id.clone(), task);
            },
            None => {
                let _ = self.outputs_by_task_id.remove(task_id);
            },
        }
    }
}

/// `state` with the output and the summary of the task `id` derived anew.
pub open spec fn reconciled(
    state: RegistryInnerView,
    id: Seq<char>,
    output: TaskOutputRecordView,
    summary: TaskOutputSummaryView,
) -> RegistryInnerView {
    if state.tasks_by_id.contains_key(id) {
        let task = TaskView { output_summary: Some(summary), ..state.tasks_by_id[id] };
        RegistryInnerView {
            tasks_by_id: state.tasks_by_id.insert(id, task),
            outputs_by_task_id: state.outputs_by_task_id.insert(id, output),
            pending_publications_by_id: if state.tasks_by_id[id].output_summary == Some(summary) {
                state.pending_publications_by_id
            } else {
                state.pending_publications_by_id.insert(id, task)
            },
            ..state
        }
    } else {
        RegistryInnerView { outputs_by_task_id: state.outputs_by_task_id.remove(id), ..state }
    }
}

} // verus!
