//! An identifier with a point in time.

use crate::model::basics::Timestamp;
use crate::plain::Plain;
use vstd::prelude::*;

verus! {

/// An identifier and the point in time that goes with it.
#[derive(Debug, Default, PartialEq, Eq)]
pub struct DatedId {
    pub at: Option<Timestamp>,
    pub id: String,
}

/// What a `DatedId` holds.
#[verifier::ext_equal]
pub struct DatedIdView {
    pub at: Option<Timestamp>,
    pub id: Seq<char>,
}

impl DeepView for DatedId {
    type V = DatedIdView;

    open spec fn deep_view(&self) -> DatedIdView {
        DatedIdView {
            at: self.at.deep_view(),
            id: self.id.deep_view(),
        }
    }
}

impl View for DatedId {
    type V = DatedIdView;

    #[verifier::inline]
    open spec fn view(&self) -> DatedIdView {
        self.deep_view()
    }
}

impl Plain for DatedId {
    fn duplicate(&self) -> (copy: Self) {
        DatedId {
            at: self.at.duplicate(),
            id: self.id.duplicate(),
        }
    }

    fn same_as(&self, other: &Self) -> (same: bool) {
        self.at.same_as(&other.at)
            && self.id.same_as(&other.id)
    }
}

impl Clone for DatedId {
    fn clone(&self) -> (copy: Self)
        ensures
            copy@ == self@,
    {
        self.duplicate()
    }
}

} // verus!
