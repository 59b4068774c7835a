//! Requests to stop: the flags that cancellations name.

use crate::model::state::{
    BilibiliTaskCancellation, BilibiliTaskCancellationView, RegistryInner, RegistryInnerView,
};
use vstd::prelude::*;

verus! {

/// Whoever holds `cancellation` has been asked to stop.
pub open spec fn stop_requested(
    state: RegistryInnerView,
    cancellation: BilibiliTaskCancellationView,
) -> bool {
    cancellation.flag < state.cancellation_flags.len()
        && state.cancellation_flags[cancellation.flag as int]
}

/// `state` with whoever holds `cancellation` asked to stop.
pub open spec fn with_stop_requested(
    state: RegistryInnerView,
    cancellation: BilibiliTaskCancellationView,
) -> RegistryInnerView {
    RegistryInnerView {
        cancellation_flags: if cancellation.flag < state.cancellation_flags.len() {
            state.cancellation_flags.update(cancellation.flag as int, true)
        } else {
            state.cancellation_flags
        },
        ..state
    }
}

/// The cancellation that is made next: it names a flag of its own.
pub open spec fn next_cancellation(state: RegistryInnerView) -> BilibiliTaskCancellationView {
    BilibiliTaskCancellationView { flag: state.cancellation_flags.len() }
}

/// `state` with one more flag, which is not set.
pub open spec fn with_next_cancellation(state: RegistryInnerView) -> RegistryInnerView {
    RegistryInnerView { cancellation_flags: state.cancellation_flags.push(false), ..state }
}

/// Every cancellation names one of the first `count` flags.
pub open spec fn known_flags(
    cancellations: Map<Seq<char>, BilibiliTaskCancellationView>,
    count: nat,
) -> bool {
    forall|id: Seq<char>| #[trigger]
        cancellations.contains_key(id) ==> cancellations[id].flag < count
}

/// No two tasks share a flag.
pub open spec fn own_flags(cancellations: Map<Seq<char>, BilibiliTaskCancellationView>) -> bool {
    forall|a: Seq<char>, b: Seq<char>|
        #![trigger cancellations.contains_key(a), cancellations.contains_key(b)]
        cancellations.contains_key(a) && cancellations.contains_key(b) && a != b
            ==> cancellations[a].flag != cancellations[b].flag
}

/// No flag is named by both.
pub open spec fn apart(
    left: Map<Seq<char>, BilibiliTaskCancellationView>,
    right: Map<Seq<char>, BilibiliTaskCancellationView>,
) -> bool {
    forall|a: Seq<char>, b: Seq<char>|
        #![trigger left.contains_key(a), right.contains_key(b)]
        left.contains_key(a) && right.contains_key(b) ==> left[a].flag != right[b].flag
}

/// The cancellations of workers and planners name flags of their own among the first `count`.
pub open spec fn sound_cancellations(
    running: Map<Seq<char>, BilibiliTaskCancellationView>,
    planning: Map<Seq<char>, BilibiliTaskCancellationView>,
    count: nat,
) -> bool {
    &&& known_flags(running, count)
    &&& known_flags(planning, count)
    &&& own_flags(running)
    &&& own_flags(planning)
    &&& apart(running, planning)
}

/// Nobody who has been asked to stop before is not asked any more.
pub open spec fn keeps_stop_requests(before: RegistryInnerView, after: RegistryInnerView) -> bool {
    &&& before.cancellation_flags.len() <= after.cancellation_flags.len()
    &&& forall|i: int|
        0 <= i < before.cancellation_flags.len() && #[trigger] before.cancellation_flags[i]
            ==> after.cancellation_flags[i]
}

impl BilibiliTaskCancellation {
    /// Asks whoever holds this cancellation to stop.
    pub fn request_cancel(&self, inner: &mut RegistryInner)
        ensures
            final(inner)@ == with_stop_requested(old(inner)@, self@),
    {
        if self.flag < inner.cancellation_flags.len() {
            inner.cancellation_flags.set(self.flag, true);
        }
    }
}

impl RegistryInner {
    /// Makes a cancellation.
    pub fn new_cancellation(&mut self) -> (cancellation: BilibiliTaskCancellation)
        ensures
            cancellation@ == next_cancellation(old(self)@),
            final(self)@ == with_next_cancellation(old(self)@),
    {
        let flag: usize = self.cancellation_flags.len();
        self.cancellation_flags.push(false);
        BilibiliTaskCancellation { flag }
    }

    /// Whether whoever holds `cancellation` has been asked to stop.
    pub fn stop_is_requested(&self, cancellation: &BilibiliTaskCancellation) -> (requested: bool)
        ensures
            requested == stop_requested(self@, cancellation@),
    {
        cancellation.flag < self.cancellation_flags.len()
            && self.cancellation_flags[cancellation.flag]
    }
}

} // verus!
