//! How a change becomes visible: written down first, where the state is kept on disk.

use crate::gather::gathered;
use crate::id_set::{IdSet, lemma_take_to_set};
use crate::inner::checkpoint::{
    checkpoint_of, consistent, lemma_rolled_back_consistent, lookup, rolled_back, sound_checkpoint,
    under_own_ids,
};
use crate::inner::publication::{
    reconciled, refreshed, showing_live, showing_records, tells_of, visible_outputs_of,
    visible_tasks_of,
};
use crate::inner::resources::{output_ids, owned_ids, problem_of, reserved_ids};
use crate::inner::retention::{
    forgotten_ids, lemma_records_show_live, lemma_records_show_output, prunable_ids, records_of,
    without_tasks,
};
use crate::model::basics::{TaskState, Timestamp};
use crate::model::output::{
    TaskOutputRecord, TaskOutputRecordView, TaskOutputSummary, TaskOutputSummaryView,
};
use crate::model::record::PersistedTaskRecordView;
use crate::model::state::{
    RegistryInner, RegistryInnerView, RegistryMutationCheckpoint, RegistryMutationCheckpointView,
    TaskPersistenceSnapshot, TaskPersistenceSnapshotView,
};
use crate::model::task::{Task, TaskView};
use crate::plain::Plain;
use crate::registry::{BilibiliTaskRegistry, BilibiliTaskRegistryView, TaskStatePersistence};
use crate::status::{Code, Status, StatusView, refusal};
use crate::timing::TaskRetentionPolicy;
use crate::visible_output::{add_resource_ids, resource_ids, shown_after};
use vstd::prelude::*;

verus! {

/// What came of a commit.
#[derive(Clone, Copy, Debug, PartialEq, Eq, Structural)]
pub enum PersistenceCommitOutcome {
    /// Written down, and it would survive a power failure.
    Durable,
    /// Written down, but a power failure may undo it.
    InstalledButNotDurable,
    /// Shown to clients; there is nowhere to write it down.
    Volatile,
    Rejected,
    /// A later state had been written down before.
    Superseded,
}

impl PersistenceCommitOutcome {
    pub open spec fn committed(self) -> bool {
        self == PersistenceCommitOutcome::Durable || self
            == PersistenceCommitOutcome::InstalledButNotDurable || self
            == PersistenceCommitOutcome::Volatile
    }

    pub fn is_committed(self) -> (committed: bool)
        ensures
            committed == self.committed(),
    {
        matches!(
            self,
            PersistenceCommitOutcome::Durable
                | PersistenceCommitOutcome::InstalledButNotDurable
                | PersistenceCommitOutcome::Volatile
        )
    }

    pub fn is_durable(self) -> (durable: bool)
        ensures
            durable == (self == PersistenceCommitOutcome::Durable),
    {
        self == PersistenceCommitOutcome::Durable
    }
}

/// What a request needs of its commit.
#[derive(Clone, Copy, Debug, PartialEq, Eq, Structural)]
pub enum Guarantee {
    Nothing,
    Committed,
    Durable,
}

pub open spec fn meets(outcome: PersistenceCommitOutcome, needed: Guarantee) -> bool {
    match needed {
        Guarantee::Nothing => true,
        Guarantee::Committed => outcome.committed(),
        Guarantee::Durable => outcome == PersistenceCommitOutcome::Durable,
    }
}

/// What a request is refused with for the commit's outcome, where its need is not met.
pub open spec fn settlement_problem(
    terms: CommitTermsView,
    outcome: PersistenceCommitOutcome,
) -> Option<StatusView> {
    if meets(outcome, terms.needed) {
        None
    } else {
        Some(refusal(Code::Unavailable, terms.refusal))
    }
}

/// The terms on which a change is committed.
pub struct CommitTerms {
    /// Without a place to write the change down, it is rejected.
    pub durability_required: bool,
    /// What the live state goes back to if the change is rejected.
    pub rollback: Option<RegistryMutationCheckpoint>,
    /// What follows cannot be undone, so a change that is not durable is rolled back too.
    pub require_durable_commit: bool,
    /// What the request needs of the commit to succeed.
    pub needed: Guarantee,
    /// What the client is told if the need is not met.
    pub refusal: &'static str,
}

/// What a `CommitTerms` holds.
#[verifier::ext_equal]
pub struct CommitTermsView {
    pub durability_required: bool,
    pub rollback: Option<RegistryMutationCheckpointView>,
    pub require_durable_commit: bool,
    pub needed: Guarantee,
    pub refusal: Seq<char>,
}

impl View for CommitTerms {
    type V = CommitTermsView;

    open spec fn view(&self) -> CommitTermsView {
        CommitTermsView {
            durability_required: self.durability_required,
            rollback: self.rollback.deep_view(),
            require_durable_commit: self.require_durable_commit,
            needed: self.needed,
            refusal: self.refusal@,
        }
    }
}

/// The terms of a change that succeeds whatever comes of its commit.
pub open spec fn unconditional() -> CommitTermsView {
    CommitTermsView {
        durability_required: false,
        rollback: None,
        require_durable_commit: false,
        needed: Guarantee::Nothing,
        refusal: Seq::empty(),
    }
}

/// The terms of writing down what is still to be written down before a request goes on.
pub open spec fn catching_up(needed: Guarantee, refusal: Seq<char>) -> CommitTermsView {
    CommitTermsView {
        durability_required: true,
        rollback: None,
        require_durable_commit: false,
        needed,
        refusal,
    }
}

/// The terms of a change that is needed on disk if there is a place for it there.
pub open spec fn kept(
    on_disk: bool,
    rollback: Option<RegistryMutationCheckpointView>,
    require_durable_commit: bool,
    needed: Guarantee,
    refusal: Seq<char>,
) -> CommitTermsView {
    CommitTermsView {
        durability_required: on_disk,
        rollback: if on_disk { rollback } else { None },
        require_durable_commit,
        needed: if on_disk { needed } else { Guarantee::Nothing },
        refusal,
    }
}

impl CommitTerms {
    pub fn unconditional() -> (terms: Self)
        ensures
            terms@ == unconditional(),
    {
        proof {
            reveal_strlit("");
            assert(""@ =~= Seq::<char>::empty());
        }
        CommitTerms {
            durability_required: false,
            rollback: None,
            require_durable_commit: false,
            needed: Guarantee::Nothing,
            refusal: "",
        }
    }

    pub fn catching_up(needed: Guarantee, refusal: &'static str) -> (terms: Self)
        ensures
            terms@ == catching_up(needed, refusal@),
    {
        CommitTerms {
            durability_required: true,
            rollback: None,
            require_durable_commit: false,
            needed,
            refusal,
        }
    }

    pub(crate) fn kept(
        on_disk: bool,
        rollback: Option<RegistryMutationCheckpoint>,
        require_durable_commit: bool,
        needed: Guarantee,
        refusal: &'static str,
    ) -> (terms: Self)
        ensures
            terms@ == kept(
                on_disk,
                rollback.deep_view(),
                require_durable_commit,
                needed,
                refusal@,
            ),
    {
        CommitTerms {
            durability_required: on_disk,
            rollback: if on_disk {
                rollback
            } else {
                None
            },
            require_durable_commit,
            needed: if on_disk {
                needed
            } else {
                Guarantee::Nothing
            },
            refusal,
        }
    }

    /// What the request is answered for the commit's outcome.
    pub fn settle(&self, outcome: PersistenceCommitOutcome) -> (result: Result<(), Status>)
        ensures
            problem_of(result) == settlement_problem(self@, outcome),
    {
        let met: bool = match self.needed {
            Guarantee::Nothing => true,
            Guarantee::Committed => outcome.is_committed(),
            Guarantee::Durable => outcome.is_durable(),
        };
        if met {
            Ok(())
        } else {
            Err(Status::new(Code::Unavailable, self.refusal))
        }
    }
}

/// How a request goes on.
pub enum Step<T> {
    /// There is nothing to commit; this is the answer.
    Done(T),
    /// What is still to be written down has to be committed first, on these terms. The request is
    /// then made again, and says so.
    Flush(CommitTerms),
    /// The change is to be committed on these terms. If they are met, this is the answer.
    Commit(T, CommitTerms),
}

/// The output of a task, derived anew from the task, and its summary.
pub struct ReconciledOutput {
    pub task_id: String,
    pub output: TaskOutputRecord,
    pub summary: TaskOutputSummary,
}

/// What a `ReconciledOutput` holds.
#[verifier::ext_equal]
pub struct ReconciledOutputView {
    pub task_id: Seq<char>,
    pub output: TaskOutputRecordView,
    pub summary: TaskOutputSummaryView,
}

impl DeepView for ReconciledOutput {
    type V = ReconciledOutputView;

    open spec fn deep_view(&self) -> ReconciledOutputView {
        ReconciledOutputView {
            task_id: self.task_id@,
            output: self.output@,
            summary: self.summary@,
        }
    }
}

/// `state` with all of `outputs` taken over, in their order.
pub open spec fn reconciled_all(
    state: RegistryInnerView,
    outputs: Seq<ReconciledOutputView>,
) -> RegistryInnerView
    decreases outputs.len(),
{
    if outputs.len() == 0 {
        state
    } else {
        let last = outputs.last();
        reconciled(
            reconciled_all(state, outputs.drop_last()),
            last.task_id,
            last.output,
            last.summary,
        )
    }
}

/// `after` is `before`, but for the summary of its output.
pub open spec fn same_but_for_summary(before: TaskView, after: TaskView) -> bool {
    after == (TaskView { output_summary: after.output_summary, ..before })
}

/// Taking over outputs changes nothing of a task but the summary of its output, and nothing that
/// clients see.
pub proof fn lemma_reconciled_keeps(state: RegistryInnerView, outputs: Seq<ReconciledOutputView>)
    ensures
        ({
            let live = reconciled_all(state, outputs);
            &&& live.tasks_by_id.dom() =~= state.tasks_by_id.dom()
            &&& forall|id: Seq<char>| #[trigger]
                state.tasks_by_id.contains_key(id) ==> same_but_for_summary(
                    state.tasks_by_id[id],
                    live.tasks_by_id[id],
                )
            &&& live.visible_tasks_by_id == state.visible_tasks_by_id
            &&& live.visible_outputs_by_task_id == state.visible_outputs_by_task_id
            &&& live.queued_task_ids == state.queued_task_ids
            &&& live.cancellation_flags == state.cancellation_flags
        }),
    decreases outputs.len(),
{
    if outputs.len() > 0 {
        lemma_reconciled_keeps(state, outputs.drop_last());
    }
}

/// Taking over outputs keeps the state consistent and leaves the set of tasks alone.
pub proof fn lemma_reconciled_all(state: RegistryInnerView, outputs: Seq<ReconciledOutputView>)
    requires
        consistent(state),
    ensures
        consistent(reconciled_all(state, outputs)),
        reconciled_all(state, outputs).tasks_by_id.dom() == state.tasks_by_id.dom(),
    decreases outputs.len(),
{
    if outputs.len() > 0 {
        lemma_reconciled_all(state, outputs.drop_last());
        let before = reconciled_all(state, outputs.drop_last());
        let last = outputs.last();
        let after = reconciled(before, last.task_id, last.output, last.summary);
        assert(after.tasks_by_id.dom() =~= before.tasks_by_id.dom());
        assert(after.outputs_by_task_id.dom() =~= before.outputs_by_task_id.dom());
    }
}

/// `state` with the news in it brought up to what is live.
pub open spec fn refreshing(state: RegistryInnerView) -> RegistryInnerView {
    RegistryInnerView {
        pending_publications_by_id: refreshed(
            state.pending_publications_by_id,
            state.tasks_by_id,
        ),
        ..state
    }
}

/// The resources of the tasks in `ids`.
pub open spec fn resources_of(state: RegistryInnerView, ids: Set<Seq<char>>) -> Set<Seq<char>> {
    gathered(state.outputs_by_task_id.restrict(ids), owned_ids())
}

/// `snapshot` is what is to be written down of `state`.
pub open spec fn snapshot_of(
    snapshot: TaskPersistenceSnapshotView,
    state: RegistryInnerView,
    policy: TaskRetentionPolicy,
    now: Timestamp,
) -> bool {
    let pruned = forgotten_ids(state.tasks_by_id, policy, now);
    &&& snapshot.generation == state.persistence_generation + 1
    &&& snapshot.pruned_task_ids == pruned
    &&& snapshot.resource_cleanup_ids == state.pending_resource_cleanup_ids.union(
        resources_of(state, pruned),
    )
    &&& records_of(snapshot.records, state, state.tasks_by_id.dom().difference(pruned))
}

/// How a commit starts.
pub enum CommitStart {
    /// This is to be saved.
    Save(TaskPersistenceSnapshot),
    /// There is nothing to save: the outcome is known.
    Settled(PersistenceCommitOutcome),
}

/// What is to be done about the bodies of resources after a commit.
#[derive(Clone, Copy, Debug, PartialEq, Eq, Structural)]
pub enum FollowUp {
    Nothing,
    ScanForOrphans,
    DeleteRetiredBodies,
}

/// What clients are told after a commit, and what is to be done about the bodies of resources.
pub struct CommitReport {
    pub news: Vec<Task>,
    pub follow_up: FollowUp,
}

/// What was written down is entered: forgotten tasks are gone, their resources are to be deleted,
/// clients see what was written down, and all news is told.
pub open spec fn installed(
    state: RegistryInnerView,
    snapshot: TaskPersistenceSnapshotView,
    durable: bool,
) -> RegistryInnerView {
    let pruned = without_tasks(state, snapshot.pruned_task_ids);
    let pending = pruned.pending_resource_cleanup_ids.union(snapshot.resource_cleanup_ids);
    let shown = showing_records(pruned, snapshot.records);
    refreshing(
        RegistryInnerView {
            pending_resource_cleanup_ids: if durable {
                pending.difference(snapshot.resource_cleanup_ids)
            } else {
                pending
            },
            durable_resource_cleanup_ids: if durable {
                pruned.durable_resource_cleanup_ids.union(
                    pending.intersect(snapshot.resource_cleanup_ids),
                )
            } else {
                pruned.durable_resource_cleanup_ids
            },
            ..shown
        },
    )
}

pub open spec fn nothing_pending(state: RegistryInnerView) -> RegistryInnerView {
    RegistryInnerView { pending_publications_by_id: Map::empty(), ..state }
}

/// The resources that only a rejected change had brought in.
pub open spec fn rejected_orphans(
    state: RegistryInnerView,
    checkpoint: RegistryMutationCheckpointView,
    root_configured: bool,
) -> Set<Seq<char>> {
    if root_configured {
        output_ids(state).difference(reserved_ids(rolled_back(state, checkpoint)))
    } else {
        Set::empty()
    }
}

/// The state after a commit with the given outcome.
pub open spec fn settled(
    state: RegistryInnerView,
    snapshot: Option<TaskPersistenceSnapshotView>,
    outcome: PersistenceCommitOutcome,
    terms: CommitTermsView,
    root_configured: bool,
) -> RegistryInnerView {
    match outcome {
        PersistenceCommitOutcome::Durable => nothing_pending(installed(state, snapshot->0, true)),
        PersistenceCommitOutcome::InstalledButNotDurable => if terms.require_durable_commit {
            rolled_back(state, terms.rollback->0)
        } else {
            nothing_pending(installed(state, snapshot->0, false))
        },
        PersistenceCommitOutcome::Volatile => nothing_pending(showing_live(state)),
        PersistenceCommitOutcome::Rejected => match terms.rollback {
            Some(checkpoint) => {
                let back = rolled_back(state, checkpoint);
                RegistryInnerView {
                    durable_resource_cleanup_ids: back.durable_resource_cleanup_ids.union(
                        rejected_orphans(state, checkpoint, root_configured),
                    ),
                    ..back
                }
            },
            None => state,
        },
        PersistenceCommitOutcome::Superseded => state,
    }
}

/// The news after a commit tells of every task that was waiting for it.
pub open spec fn news_after(
    news: Seq<TaskView>,
    state: RegistryInnerView,
    snapshot: Option<TaskPersistenceSnapshotView>,
    outcome: PersistenceCommitOutcome,
    terms: CommitTermsView,
) -> bool {
    match outcome {
        PersistenceCommitOutcome::Durable => {
            let shown = installed(state, snapshot->0, true);
            tells_of(news, shown, shown.pending_publications_by_id.dom())
        },
        PersistenceCommitOutcome::InstalledButNotDurable => if terms.require_durable_commit {
            news.len() == 0
        } else {
            let shown = installed(state, snapshot->0, false);
            tells_of(news, shown, shown.pending_publications_by_id.dom())
        },
        PersistenceCommitOutcome::Volatile => {
            let shown = refreshing(showing_live(state));
            tells_of(news, shown, shown.pending_publications_by_id.dom())
        },
        _ => news.len() == 0,
    }
}

pub open spec fn follow_up_after(
    registry: BilibiliTaskRegistryView,
    outcome: PersistenceCommitOutcome,
    terms: CommitTermsView,
) -> FollowUp {
    match outcome {
        PersistenceCommitOutcome::Durable => if registry.orphan_resource_scan_pending {
            FollowUp::ScanForOrphans
        } else {
            FollowUp::DeleteRetiredBodies
        },
        PersistenceCommitOutcome::Rejected => match terms.rollback {
            Some(checkpoint) => if rejected_orphans(
                registry.inner,
                checkpoint,
                registry.resource_root_configured,
            ) =~= Set::empty() {
                FollowUp::Nothing
            } else {
                FollowUp::DeleteRetiredBodies
            },
            None => FollowUp::Nothing,
        },
        _ => FollowUp::Nothing,
    }
}

/// What came of saving a snapshot.
#[derive(Clone, Copy, Debug, PartialEq, Eq, Structural)]
pub enum TaskStateSaveOutcome {
    Durable,
    InstalledButNotDurable,
}

impl TaskStatePersistence {
    /// Whether a snapshot may be saved: a later one must not have been seen before.
    pub fn admit_snapshot(&mut self, generation: u64) -> (admitted: bool)
        ensures
            admitted == (generation >= old(self).latest_seen_generation),
            *final(self) == if admitted {
                TaskStatePersistence { latest_seen_generation: generation, ..*old(self) }
            } else {
                *old(self)
            },
    {
        if generation < self.latest_seen_generation {
            return false;
        }
        self.latest_seen_generation = generation;
        true
    }

    /// Enters what came of saving an admitted snapshot; nothing came of a save that failed.
    pub fn record_save(
        &mut self,
        saved: Option<TaskStateSaveOutcome>,
    ) -> (outcome: PersistenceCommitOutcome)
        ensures
            outcome == save_outcome(saved),
            *final(self) == (TaskStatePersistence {
                available: saved == Some(TaskStateSaveOutcome::Durable),
                ..*old(self)
            }),
    {
        match saved {
            Some(TaskStateSaveOutcome::Durable) => {
                self.available = true;
                PersistenceCommitOutcome::Durable
            },
            Some(TaskStateSaveOutcome::InstalledButNotDurable) => {
                self.available = false;
                PersistenceCommitOutcome::InstalledButNotDurable
            },
            None => {
                self.available = false;
                PersistenceCommitOutcome::Rejected
            },
        }
    }
}

pub open spec fn save_outcome(saved: Option<TaskStateSaveOutcome>) -> PersistenceCommitOutcome {
    match saved {
        Some(TaskStateSaveOutcome::Durable) => PersistenceCommitOutcome::Durable,
        Some(TaskStateSaveOutcome::InstalledButNotDurable) =>
            PersistenceCommitOutcome::InstalledButNotDurable,
        None => PersistenceCommitOutcome::Rejected,
    }
}

impl RegistryInner {
    /// Takes over outputs that were derived anew from their tasks.
    pub fn reconcile_all_task_outputs(&mut self, outputs: Vec<ReconciledOutput>)
        ensures
            final(self)@ == reconciled_all(old(self)@, outputs.deep_view()),
    {
        let ghost all = outputs.deep_view();
        let ghost before = self@;
        proof {
            assert(all.take(0).len() == 0);
        }
        for index in 0..outputs.len()
            invariant
                all == outputs.deep_view(),
                self@ == reconciled_all(before, all.take(index as int)),
        {
            let item = &outputs[index];
            proof {
                assert(all.take(index + 1).drop_last() =~= all.take(index as int));
                assert(all.take(index + 1).last() == item.deep_view());
            }
            self.reconcile_task_output(
                &item.task_id,
                item.output.duplicate(),
                item.summary.duplicate(),
            );
        }
        proof {
            assert(all.take(all.len() as int) =~= all);
        }
    }

    /// The resources of the tasks in `task_ids`, added to `ids`.
    fn add_resources_of(&self, ids: &mut IdSet, task_ids: &IdSet)
        ensures
            final(ids)@ == old(ids)@.union(resources_of(self@, task_ids@)),
    {
        let count: usize = task_ids.len();
        let ghost listed = task_ids.listed();
        let ghost before = ids@;
        proof {
            assert(resources_of(self@, listed.take(0).to_set()) =~= Set::<Seq<char>>::empty());
        }
        for index in 0..count
            invariant
                count == listed.len(),
                listed == task_ids.listed(),
                ids@ =~= before.union(resources_of(self@, listed.take(index as int).to_set())),
        {
            proof {
                lemma_take_to_set(listed, index as int);
                lemma_resources_of_insert(
                    self@,
                    listed.take(index as int).to_set(),
                    listed[index as int],
                );
            }
            if let Some(output) = self.outputs_by_task_id.get(task_ids.id_at(index)) {
                add_resource_ids(ids, &output.resources);
            }
        }
        proof {
            assert(listed.take(count as int) =~= listed);
        }
    }
}

proof fn lemma_resources_of_insert(
    state: RegistryInnerView,
    ids: Set<Seq<char>>,
    added: Seq<char>,
)
    ensures
        resources_of(state, ids.insert(added)) =~= if state.outputs_by_task_id.contains_key(added) {
            resources_of(state, ids).union(
                resource_ids(state.outputs_by_task_id[added].resources),
            )
        } else {
            resources_of(state, ids)
        },
{
    let outputs = state.outputs_by_task_id;
    let short = outputs.restrict(ids);
    let long = outputs.restrict(ids.insert(added));
    assert forall|id: Seq<char>| resources_of(state, ids.insert(added)).contains(id) <==> (
    resources_of(state, ids).contains(id) || (outputs.contains_key(added) && resource_ids(
        outputs[added].resources,
    ).contains(id))) by {
        if gathered(long, owned_ids()).contains(id) {
            let key = choose|key: Seq<char>| #[trigger]
                long.contains_key(key) && owned_ids()(long[key]).contains(id);
            if key != added {
                assert(short.contains_key(key));
            }
        }
        if gathered(short, owned_ids()).contains(id) {
            let key = choose|key: Seq<char>| #[trigger]
                short.contains_key(key) && owned_ids()(short[key]).contains(id);
            assert(long.contains_key(key));
        }
        if outputs.contains_key(added) {
            assert(long.contains_key(added));
        }
    }
}

/// The visible tables stay consistent with each other whatever records are shown.
proof fn lemma_showing_records_consistent(
    state: RegistryInnerView,
    records: Seq<PersistedTaskRecordView>,
)
    ensures
        visible_tasks_of(records).dom() =~= visible_outputs_of(
            records,
            state.visible_outputs_by_task_id,
        ).dom(),
        under_own_ids(visible_tasks_of(records)),
    decreases records.len(),
{
    if records.len() > 0 {
        lemma_showing_records_consistent(state, records.drop_last());
    }
}

/// Whatever comes of a commit, it leaves a consistent state.
pub proof fn lemma_settled_consistent(
    state: RegistryInnerView,
    snapshot: Option<TaskPersistenceSnapshotView>,
    outcome: PersistenceCommitOutcome,
    terms: CommitTermsView,
    root_configured: bool,
)
    requires
        consistent(state),
        terms.rollback matches Some(checkpoint) ==> sound_checkpoint(
            checkpoint,
            state.cancellation_flags.len(),
        ),
        terms.require_durable_commit && outcome
            == PersistenceCommitOutcome::InstalledButNotDurable ==> terms.rollback is Some,
    ensures
        consistent(settled(state, snapshot, outcome, terms, root_configured)),
{
    let after = settled(state, snapshot, outcome, terms, root_configured);
    match outcome {
        PersistenceCommitOutcome::Durable | PersistenceCommitOutcome::InstalledButNotDurable => {
            if outcome == PersistenceCommitOutcome::Durable || !terms.require_durable_commit {
                lemma_showing_records_consistent(
                    without_tasks(state, snapshot->0.pruned_task_ids),
                    snapshot->0.records,
                );
                assert(after.tasks_by_id.dom() =~= after.outputs_by_task_id.dom());
            } else {
                lemma_rolled_back_consistent(state, terms.rollback->0);
            }
        },
        PersistenceCommitOutcome::Volatile => {},
        PersistenceCommitOutcome::Rejected => {
            if let Some(checkpoint) = terms.rollback {
                lemma_rolled_back_consistent(state, checkpoint);
            }
        },
        PersistenceCommitOutcome::Superseded => {},
    }
}

/// What a commit comes to that writes nothing down.
pub open spec fn unsaved_outcome(
    outputs_sound: bool,
    durability_required: bool,
) -> PersistenceCommitOutcome {
    if outputs_sound && !durability_required {
        PersistenceCommitOutcome::Volatile
    } else {
        PersistenceCommitOutcome::Rejected
    }
}

/// A commit writes the state down.
pub open spec fn saves(registry: BilibiliTaskRegistryView, outputs_sound: bool) -> bool {
    outputs_sound && registry.persistence is Some
}

/// The state in which a commit leaves `registry` while what is to be saved is being saved.
pub open spec fn begun(
    registry: BilibiliTaskRegistryView,
    outputs: Seq<ReconciledOutputView>,
    outputs_sound: bool,
) -> RegistryInnerView {
    let live = reconciled_all(registry.inner, outputs);
    refreshing(
        if saves(registry, outputs_sound) {
            RegistryInnerView {
                persistence_generation: (live.persistence_generation + 1) as u64,
                ..live
            }
        } else {
            live
        },
    )
}

/// Committing what is live in `registry` comes to `outcome`, and `after` is the state it leaves.
/// `snapshot` is what was to be saved, where anything was.
pub open spec fn commits(
    registry: BilibiliTaskRegistryView,
    outputs: Seq<ReconciledOutputView>,
    outputs_sound: bool,
    now: Timestamp,
    snapshot: Option<TaskPersistenceSnapshotView>,
    outcome: PersistenceCommitOutcome,
    terms: CommitTermsView,
    after: RegistryInnerView,
) -> bool {
    &&& after == settled(
        begun(registry, outputs, outputs_sound),
        snapshot,
        outcome,
        terms,
        registry.resource_root_configured,
    )
    &&& if saves(registry, outputs_sound) {
        &&& outcome != PersistenceCommitOutcome::Volatile
        &&& snapshot matches Some(snapshot) && snapshot_of(
            snapshot,
            reconciled_all(registry.inner, outputs),
            registry.retention_policy,
            now,
        )
    } else {
        &&& outcome == unsaved_outcome(outputs_sound, terms.durability_required)
        &&& snapshot is None
    }
}

impl BilibiliTaskRegistry {
    /// Starts the commit of what is live. `outputs` are the outputs derived anew from the live
    /// tasks; if `outputs_sound` does not hold, one of them could not be derived, and the commit
    /// is rejected.
    pub fn begin_commit(
        &mut self,
        outputs: Vec<ReconciledOutput>,
        outputs_sound: bool,
        durability_required: bool,
        now: Timestamp,
    ) -> (start: CommitStart)
        requires
            old(self)@.well_formed(),
            old(self)@.persistence is Some ==> old(self)@.inner.persistence_generation < u64::MAX,
        ensures
            final(self)@.well_formed(),
            final(self)@.continues(old(self)@),
            (start is Save) == saves(old(self)@, outputs_sound),
            !saves(old(self)@, outputs_sound) ==> start == CommitStart::Settled(
                unsaved_outcome(outputs_sound, durability_required),
            ),
            start matches CommitStart::Save(snapshot) ==> snapshot_of(
                snapshot@,
                reconciled_all(old(self)@.inner, outputs.deep_view()),
                old(self)@.retention_policy,
                now,
            ),
            final(self)@ == (BilibiliTaskRegistryView {
                inner: begun(old(self)@, outputs.deep_view(), outputs_sound),
                persistence: match old(self)@.persistence {
                    Some(persistence) => Some(
                        TaskStatePersistence {
                            available: persistence.available && outputs_sound,
                            ..persistence
                        },
                    ),
                    None => None,
                },
                ..old(self)@
            }),
    {
        let ghost before = self@.inner;
        proof {
            lemma_reconciled_all(before, outputs.deep_view());
            lemma_reconciled_generation(before, outputs.deep_view());
        }
        self.inner.reconcile_all_task_outputs(outputs);
        if !outputs_sound {
            if let Some(persistence) = self.persistence {
                self.persistence = Some(
                    TaskStatePersistence {
                        available: false,
                        latest_seen_generation: persistence.latest_seen_generation,
                    },
                );
            }
            self.inner.refresh_pending_publications();
            return CommitStart::Settled(PersistenceCommitOutcome::Rejected);
        }
        if self.persistence.is_none() {
            self.inner.refresh_pending_publications();
            return CommitStart::Settled(
                if durability_required {
                    PersistenceCommitOutcome::Rejected
                } else {
                    PersistenceCommitOutcome::Volatile
                },
            );
        }
        let pruned_task_ids = self.inner.terminal_task_ids_to_prune(&self.retention_policy, &now);
        let mut resource_cleanup_ids = self.inner.pending_resource_cleanup_ids.duplicate();
        self.inner.add_resources_of(&mut resource_cleanup_ids, &pruned_task_ids);
        let records = self.inner.persisted_records(&pruned_task_ids);
        let generation: u64 = self.inner.persistence_generation + 1;
        self.inner.persistence_generation = generation;
        self.inner.refresh_pending_publications();
        CommitStart::Save(
            TaskPersistenceSnapshot { generation, records, resource_cleanup_ids, pruned_task_ids },
        )
    }

    /// Ends a commit. `snapshot` is what was to be saved, where anything was.
    pub fn finish_commit(
        &mut self,
        snapshot: Option<TaskPersistenceSnapshot>,
        outcome: PersistenceCommitOutcome,
        terms: CommitTerms,
    ) -> (report: CommitReport)
        requires
            old(self)@.well_formed(),
            outcome == PersistenceCommitOutcome::Durable || outcome
                == PersistenceCommitOutcome::InstalledButNotDurable ==> snapshot is Some,
            terms@.rollback matches Some(checkpoint) ==> sound_checkpoint(
                checkpoint,
                old(self)@.inner.cancellation_flags.len(),
            ),
            terms@.require_durable_commit && outcome
                == PersistenceCommitOutcome::InstalledButNotDurable ==> terms@.rollback is Some,
        ensures
            final(self)@.well_formed(),
            final(self)@.continues(old(self)@),
            final(self)@ == old(self)@.with_inner(
                settled(
                    old(self)@.inner,
                    snapshot.deep_view(),
                    outcome,
                    terms@,
                    old(self)@.resource_root_configured,
                ),
            ),
            news_after(
                report.news.deep_view(),
                old(self)@.inner,
                snapshot.deep_view(),
                outcome,
                terms@,
            ),
            report.follow_up == follow_up_after(old(self)@, outcome, terms@),
    {
        let ghost before = self@.inner;
        proof {
            lemma_settled_consistent(
                before,
                snapshot.deep_view(),
                outcome,
                terms@,
                self@.resource_root_configured,
            );
        }
        match outcome {
            PersistenceCommitOutcome::Durable | PersistenceCommitOutcome::InstalledButNotDurable => {
                let durable: bool = outcome.is_durable();
                if !durable && terms.require_durable_commit {
                    if let Some(checkpoint) = terms.rollback {
                        checkpoint.restore(&mut self.inner);
                    }
                    return CommitReport { news: Vec::new(), follow_up: FollowUp::Nothing };
                }
                let mut news: Vec<Task> = Vec::new();
                if let Some(snapshot) = snapshot {
                    news = self.inner.install_snapshot(&snapshot, durable);
                }
                let follow_up = if !durable {
                    FollowUp::Nothing
                } else if self.orphan_resource_scan_pending {
                    FollowUp::ScanForOrphans
                } else {
                    FollowUp::DeleteRetiredBodies
                };
                CommitReport { news, follow_up }
            },
            PersistenceCommitOutcome::Volatile => {
                self.inner.install_visible_live_state();
                self.inner.refresh_pending_publications();
                let news = self.inner.publish_pending();
                CommitReport { news, follow_up: FollowUp::Nothing }
            },
            PersistenceCommitOutcome::Rejected => {
                let mut orphans_left: bool = false;
                if let Some(checkpoint) = terms.rollback {
                    if self.resource_root_configured {
                        let candidates = self.inner.output_resource_ids();
                        checkpoint.restore(&mut self.inner);
                        orphans_left = self.inner.reserve_unowned_resource_cleanup(&candidates);
                    } else {
                        checkpoint.restore(&mut self.inner);
                        proof {
                            assert(self@.inner.durable_resource_cleanup_ids
                                =~= self@.inner.durable_resource_cleanup_ids.union(Set::empty()));
                        }
                    }
                }
                CommitReport {
                    news: Vec::new(),
                    follow_up: if orphans_left {
                        FollowUp::DeleteRetiredBodies
                    } else {
                        FollowUp::Nothing
                    },
                }
            },
            PersistenceCommitOutcome::Superseded => CommitReport {
                news: Vec::new(),
                follow_up: FollowUp::Nothing,
            },
        }
    }
}

proof fn lemma_reconciled_generation(
    state: RegistryInnerView,
    outputs: Seq<ReconciledOutputView>,
)
    ensures
        reconciled_all(state, outputs).persistence_generation == state.persistence_generation,
        reconciled_all(state, outputs).cancellation_flags == state.cancellation_flags,
    decreases outputs.len(),
{
    if outputs.len() > 0 {
        lemma_reconciled_generation(state, outputs.drop_last());
    }
}

impl RegistryInner {
    /// Enters what was written down, and tells all news.
    pub(crate) fn install_snapshot(
        &mut self,
        snapshot: &TaskPersistenceSnapshot,
        durable: bool,
    ) -> (news: Vec<Task>)
        ensures
            final(self)@ == nothing_pending(installed(old(self)@, snapshot@, durable)),
            tells_of(
                news.deep_view(),
                installed(old(self)@, snapshot@, durable),
                installed(old(self)@, snapshot@, durable).pending_publications_by_id.dom(),
            ),
    {
        self.apply_pruned_tasks(&snapshot.pruned_task_ids);
        self.pending_resource_cleanup_ids.extend(&snapshot.resource_cleanup_ids);
        self.install_visible_snapshot(&snapshot.records);
        if durable {
            self.mark_resource_cleanup_durable(&snapshot.resource_cleanup_ids);
        }
        self.refresh_pending_publications();
        self.publish_pending()
    }
}

/// A durable commit shows clients exactly what is live afterwards, and no forgotten task is among
/// it.
pub proof fn law_durable_commit_shows_live(
    registry: BilibiliTaskRegistryView,
    outputs: Seq<ReconciledOutputView>,
    now: Timestamp,
    snapshot: Option<TaskPersistenceSnapshotView>,
    terms: CommitTermsView,
    after: RegistryInnerView,
)
    requires
        registry.well_formed(),
        commits(
            registry,
            outputs,
            true,
            now,
            snapshot,
            PersistenceCommitOutcome::Durable,
            terms,
            after,
        ),
    ensures
        ({
            let live = reconciled_all(registry.inner, outputs);
            let forgotten = forgotten_ids(live.tasks_by_id, registry.retention_policy, now);
            &&& after.tasks_by_id == live.tasks_by_id.remove_keys(forgotten)
            &&& after.outputs_by_task_id == live.outputs_by_task_id.remove_keys(forgotten)
            &&& after.visible_tasks_by_id == after.tasks_by_id
            &&& after.visible_outputs_by_task_id.dom() == after.outputs_by_task_id.dom()
            &&& forall|id: Seq<char>| #[trigger]
                after.outputs_by_task_id.contains_key(id) ==> after.visible_outputs_by_task_id[id]
                    == shown_after(
                    lookup(registry.inner.visible_outputs_by_task_id, id),
                    after.outputs_by_task_id[id],
                )
            &&& after.pending_publications_by_id == Map::<Seq<char>, TaskView>::empty()
        }),
{
    let live = reconciled_all(registry.inner, outputs);
    lemma_reconciled_all(registry.inner, outputs);
    lemma_reconciled_keeps(registry.inner, outputs);
    let forgotten = forgotten_ids(live.tasks_by_id, registry.retention_policy, now);
    let kept = live.tasks_by_id.dom().difference(forgotten);
    let records = snapshot->0.records;
    lemma_records_show_live(records, live, kept);
    assert(live.tasks_by_id.restrict(kept) =~= live.tasks_by_id.remove_keys(forgotten));
    assert(after.outputs_by_task_id.dom() =~= kept);
    assert(after.visible_outputs_by_task_id.dom() =~= kept);
    assert forall|id: Seq<char>| #[trigger] after.outputs_by_task_id.contains_key(id) implies
        after.visible_outputs_by_task_id[id] == shown_after(
        lookup(registry.inner.visible_outputs_by_task_id, id),
        after.outputs_by_task_id[id],
    ) by {
        lemma_records_show_output(
            records,
            live,
            registry.inner.visible_outputs_by_task_id,
            id,
        );
    }
}

/// A rejected change that kept its checkpoint leaves no trace in the live state, nor in what
/// clients see.
pub proof fn law_rejected_commit_changes_nothing(
    before: RegistryInnerView,
    state: RegistryInnerView,
    terms: CommitTermsView,
    root_configured: bool,
)
    requires
        terms.rollback == Some(checkpoint_of(before)),
    ensures
        ({
            let after = settled(
                state,
                None,
                PersistenceCommitOutcome::Rejected,
                terms,
                root_configured,
            );
            &&& checkpoint_of(after) == checkpoint_of(before)
            &&& after.visible_tasks_by_id == state.visible_tasks_by_id
            &&& after.visible_outputs_by_task_id == state.visible_outputs_by_task_id
        }),
{
}

/// A change after which something cannot be undone takes effect only if it is durable: on any other
/// outcome of a save the live state is what it was, and clients see what they saw.
pub proof fn law_destructive_change_needs_durability(
    before: RegistryInnerView,
    state: RegistryInnerView,
    snapshot: Option<TaskPersistenceSnapshotView>,
    terms: CommitTermsView,
    saved: Option<TaskStateSaveOutcome>,
    root_configured: bool,
)
    requires
        terms.rollback == Some(checkpoint_of(before)),
        terms.require_durable_commit,
        saved != Some(TaskStateSaveOutcome::Durable),
    ensures
        ({
            let after = settled(state, snapshot, save_outcome(saved), terms, root_configured);
            &&& checkpoint_of(after) == checkpoint_of(before)
            &&& after.visible_tasks_by_id == state.visible_tasks_by_id
            &&& after.visible_outputs_by_task_id == state.visible_outputs_by_task_id
        }),
{
}

/// Only tasks that have ended are forgotten, and never a completed playback task.
pub proof fn law_only_ended_tasks_are_forgotten(
    state: RegistryInnerView,
    policy: TaskRetentionPolicy,
    now: Timestamp,
    id: Seq<char>,
)
    requires
        forgotten_ids(state.tasks_by_id, policy, now).contains(id),
    ensures
        state.tasks_by_id.contains_key(id),
        state.tasks_by_id[id].is_terminal(),
        !(state.tasks_by_id[id].is_playback() && state.tasks_by_id[id].state
            == TaskState::Completed),
{
    assert(prunable_ids(state.tasks_by_id).contains(id));
}

} // verus!
