//! How many entries may be read, over many lists together.

use crate::store::errors::{
    StoreError, StoreErrorView, error_of, invalid, invalid_data, too_many, too_many_entries,
};
use crate::store::sequence::{too_many_registered_resources, too_many_resources};
use vstd::prelude::*;

verus! {

/// What is counted.
#[derive(Clone, Copy, Debug, PartialEq, Eq, Structural)]
pub enum BudgetKind {
    /// The resources of a whole stored state.
    Resources,
    /// The artifacts of one output.
    Artifacts,
}

/// How many entries may still be read, and how many at first.
#[derive(Clone, Copy, Debug, PartialEq, Eq, Structural)]
pub struct BudgetState {
    pub remaining: usize,
    pub limit: usize,
}

/// A budget. While it is not in use, entries are not counted.
#[derive(Clone, Copy, Debug, PartialEq, Eq, Structural)]
pub struct PersistedBudget {
    pub kind: BudgetKind,
    pub state: Option<BudgetState>,
}

/// What comes of asking for one more entry.
#[derive(Clone, Copy, Debug, PartialEq, Eq, Structural)]
pub enum BudgetClaim {
    /// Entries are not counted.
    Unbounded,
    Claimed,
    Exhausted,
}

pub open spec fn lower(a: nat, b: nat) -> nat {
    if a <= b {
        a
    } else {
        b
    }
}

impl PersistedBudget {
    /// No more is left than there was at first.
    pub open spec fn well_formed(self) -> bool {
        self.state matches Some(state) ==> state.remaining <= state.limit
    }

    pub fn new(kind: BudgetKind) -> (budget: Self)
        ensures
            budget == (PersistedBudget { kind, state: None }),
            budget.well_formed(),
    {
        PersistedBudget { kind, state: None }
    }

    /// Takes the budget into use.
    pub fn enter(&mut self, limit: usize) -> (result: Result<(), StoreError>)
        requires
            old(self).well_formed(),
        ensures
            final(self).well_formed(),
            old(self).state is None ==> result is Ok && *final(self) == (PersistedBudget {
                state: Some(BudgetState { remaining: limit, limit }),
                ..*old(self)
            }),
            old(self).state is Some ==> *final(self) == *old(self) && error_of(result) == Some(
                already_active(old(self).kind),
            ),
    {
        if self.state.is_some() {
            return Err(
                invalid_data(
                    match self.kind {
                        BudgetKind::Resources =>
                            "task state resource deserialization is already active",
                        BudgetKind::Artifacts =>
                            "task output artifact deserialization is already active",
                    },
                ),
            );
        }
        self.state = Some(BudgetState { remaining: limit, limit });
        Ok(())
    }

    /// Takes the budget out of use.
    pub fn leave(&mut self)
        ensures
            *final(self) == (PersistedBudget { state: None, ..*old(self) }),
    {
        self.state = None;
    }

    /// Asks for one more entry.
    pub fn claim(&mut self) -> (claim: BudgetClaim)
        requires
            old(self).well_formed(),
        ensures
            final(self).well_formed(),
            claim == match old(self).state {
                None => BudgetClaim::Unbounded,
                Some(state) => if state.remaining == 0 {
                    BudgetClaim::Exhausted
                } else {
                    BudgetClaim::Claimed
                },
            },
            *final(self) == if claim == BudgetClaim::Claimed {
                spent(*old(self), 1)
            } else {
                *old(self)
            },
    {
        match self.state {
            None => BudgetClaim::Unbounded,
            Some(state) => {
                if state.remaining == 0 {
                    return BudgetClaim::Exhausted;
                }
                self.state =
                Some(BudgetState { remaining: state.remaining - 1, limit: state.limit });
                BudgetClaim::Claimed
            },
        }
    }

    /// Gives an entry back that was asked for and did not come.
    pub fn release(&mut self, claim: BudgetClaim)
        requires
            old(self).well_formed(),
            claim == BudgetClaim::Claimed ==> old(self).state is Some,
        ensures
            final(self).well_formed(),
            claim != BudgetClaim::Claimed ==> *final(self) == *old(self),
            claim == BudgetClaim::Claimed ==> *final(self) == (PersistedBudget {
                state: Some(
                    BudgetState {
                        remaining: lower(
                            old(self).state->0.remaining as nat + 1,
                            old(self).state->0.limit as nat,
                        ) as usize,
                        limit: old(self).state->0.limit,
                    },
                ),
                ..*old(self)
            }),
    {
        if claim != BudgetClaim::Claimed {
            return;
        }
        if let Some(state) = self.state {
            let remaining: usize = if state.remaining < state.limit {
                state.remaining + 1
            } else {
                state.limit
            };
            self.state = Some(BudgetState { remaining, limit: state.limit });
        }
    }

    /// For how many entries room is made ahead, in a list of at most `list_limit`.
    pub fn capacity(&self, size_hint: Option<usize>, list_limit: usize) -> (capacity: usize)
        ensures
            capacity == lower(
                lower(
                    match size_hint {
                        Some(hint) => hint as nat,
                        None => 0,
                    },
                    list_limit as nat,
                ),
                match self.state {
                    Some(state) => state.remaining as nat,
                    None => list_limit as nat,
                },
            ),
    {
        let remaining: usize = match self.state {
            Some(state) => state.remaining,
            None => list_limit,
        };
        let hint: usize = match size_hint {
            Some(hint) => hint,
            None => 0,
        };
        let wanted: usize = if hint <= list_limit {
            hint
        } else {
            list_limit
        };
        if wanted <= remaining {
            wanted
        } else {
            remaining
        }
    }

    /// How many entries may be read altogether.
    pub fn limit(&self, default_limit: usize) -> (limit: usize)
        ensures
            limit == match self.state {
                Some(state) => state.limit,
                None => default_limit,
            },
    {
        match self.state {
            Some(state) => state.limit,
            None => default_limit,
        }
    }
}

pub open spec fn already_active(kind: BudgetKind) -> StoreErrorView {
    match kind {
        BudgetKind::Resources => invalid("task state resource deserialization is already active"@),
        BudgetKind::Artifacts => invalid("task output artifact deserialization is already active"@),
    }
}

/// `budget` after `count` entries have been read.
pub open spec fn spent(budget: PersistedBudget, count: int) -> PersistedBudget {
    PersistedBudget {
        state: match budget.state {
            Some(state) => Some(
                BudgetState { remaining: (state.remaining - count) as usize, limit: state.limit },
            ),
            None => None,
        },
        ..budget
    }
}

/// What is to be done next while a list is read.
#[derive(Clone, Copy, Debug, PartialEq, Eq, Structural)]
pub enum NextRead {
    /// The next entry may be read. If the list ends instead, the claim is released.
    Take(BudgetClaim),
    /// The list must end here: it holds as many entries as it may.
    ListFull,
    /// The list must end here: the budget is spent.
    BudgetSpent,
}

pub open spec fn list_full(kind: BudgetKind, list_limit: nat) -> StoreErrorView {
    match kind {
        BudgetKind::Resources => too_many("task output resources"@, list_limit),
        BudgetKind::Artifacts => too_many("task result artifacts"@, list_limit),
    }
}

pub open spec fn budget_spent(kind: BudgetKind, limit: nat) -> StoreErrorView {
    match kind {
        BudgetKind::Resources => too_many_resources(limit),
        BudgetKind::Artifacts => too_many("task output artifacts"@, limit),
    }
}

impl PersistedBudget {
    /// What is to be done next in a list of at most `list_limit` entries, of which `taken` have
    /// been read.
    pub fn next_read(&mut self, taken: usize, list_limit: usize) -> (next: NextRead)
        requires
            old(self).well_formed(),
        ensures
            final(self).well_formed(),
            taken >= list_limit ==> next == NextRead::ListFull && *final(self) == *old(self),
            taken < list_limit ==> match old(self).state {
                None => next == NextRead::Take(BudgetClaim::Unbounded) && *final(self) == *old(self),
                Some(state) => if state.remaining == 0 {
                    next == NextRead::BudgetSpent && *final(self) == *old(self)
                } else {
                    next == NextRead::Take(BudgetClaim::Claimed) && *final(self) == spent(
                        *old(self),
                        1,
                    )
                },
            },
    {
        if taken >= list_limit {
            return NextRead::ListFull;
        }
        match self.claim() {
            BudgetClaim::Exhausted => NextRead::BudgetSpent,
            claim => NextRead::Take(claim),
        }
    }

    /// The error for a list that goes on although it is full.
    pub fn list_full_error(&self, list_limit: usize) -> (error: StoreError)
        ensures
            error@ == list_full(self.kind, list_limit as nat),
    {
        match self.kind {
            BudgetKind::Resources => too_many_entries("task output resources", list_limit),
            BudgetKind::Artifacts => too_many_entries("task result artifacts", list_limit),
        }
    }

    /// The error for a list that goes on although the budget is spent.
    pub fn budget_spent_error(&self, default_limit: usize) -> (error: StoreError)
        ensures
            error@ == budget_spent(
                self.kind,
                match self.state {
                    Some(state) => state.limit as nat,
                    None => default_limit as nat,
                },
            ),
    {
        let limit: usize = self.limit(default_limit);
        match self.kind {
            BudgetKind::Resources => too_many_registered_resources(limit),
            BudgetKind::Artifacts => too_many_entries("task output artifacts", limit),
        }
    }

    /// Reads a list of `count` entries, of which at most `list_limit` are allowed.
    pub fn read_list(&mut self, count: usize, list_limit: usize) -> (result: Result<(), StoreError>)
        requires
            old(self).well_formed(),
        ensures
            final(self).well_formed(),
            error_of(result) == list_problem(*old(self), count as nat, list_limit as nat),
            *final(self) == spent(
                *old(self),
                entries_read(*old(self), count as nat, list_limit as nat) as int,
            ),
    {
        let ghost before = *self;
        let mut taken: usize = 0;
        loop
            invariant
                before == *old(self),
                before.well_formed(),
                self.well_formed(),
                taken <= count,
                taken <= list_limit,
                before.state matches Some(state) ==> taken <= state.remaining,
                *self == spent(before, taken as int),
            decreases count - taken,
        {
            match self.next_read(taken, list_limit) {
                NextRead::ListFull => {
                    if taken < count {
                        return Err(self.list_full_error(list_limit));
                    }
                    return Ok(());
                },
                NextRead::BudgetSpent => {
                    if taken < count {
                        return Err(self.budget_spent_error(list_limit));
                    }
                    return Ok(());
                },
                NextRead::Take(claim) => {
                    if taken == count {
                        self.release(claim);
                        return Ok(());
                    }
                    taken = taken + 1;
                },
            }
        }
    }
}

/// How many of `count` entries are read: the first one too many is not.
pub open spec fn entries_read(budget: PersistedBudget, count: nat, list_limit: nat) -> nat {
    match budget.state {
        Some(state) => lower(lower(count, list_limit), state.remaining as nat),
        None => lower(count, list_limit),
    }
}

/// What is wrong with a list of `count` entries: it is too long, or the budget does not reach.
pub open spec fn list_problem(
    budget: PersistedBudget,
    count: nat,
    list_limit: nat,
) -> Option<StoreErrorView> {
    match budget.state {
        Some(state) => if count <= list_limit && count <= state.remaining {
            None
        } else if list_limit <= state.remaining {
            Some(list_full(budget.kind, list_limit))
        } else {
            Some(budget_spent(budget.kind, state.limit as nat))
        },
        None => if count <= list_limit {
            None
        } else {
            Some(list_full(budget.kind, list_limit))
        },
    }
}

/// Asking for an entry and giving it back leaves a budget as it was.
pub proof fn law_released_claim_is_undone(budget: PersistedBudget)
    requires
        budget.well_formed(),
        budget.state matches Some(state) && state.remaining > 0,
    ensures
        ({
            let state = spent(budget, 1).state->0;
            lower(state.remaining as nat + 1, state.limit as nat) == budget.state->0.remaining
        }),
{
}

/// Lists that can be read one after the other hold together no more than the budget.
pub proof fn law_lists_share_the_budget(
    budget: PersistedBudget,
    first: nat,
    second: nat,
    list_limit: nat,
)
    requires
        budget.well_formed(),
        budget.state is Some,
        list_problem(budget, first, list_limit) is None,
        list_problem(spent(budget, first as int), second, list_limit) is None,
    ensures
        first + second <= budget.state->0.remaining,
{
}

} // verus!
