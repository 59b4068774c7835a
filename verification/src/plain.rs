//! Values that can be duplicated and compared through their mathematical view.

use vstd::prelude::*;

verus! {

/// A value without identity: a duplicate has the same view, and comparison is equality of views.
pub trait Plain: DeepView + Sized {
    fn duplicate(&self) -> (copy: Self)
        ensures
            copy.deep_view() == self.deep_view(),
    ;

    fn same_as(&self, other: &Self) -> (same: bool)
        ensures
            same == (self.deep_view() == other.deep_view()),
    ;
}

impl Plain for String {
    fn duplicate(&self) -> (copy: Self) {
        self.clone()
    }

    fn same_as(&self, other: &Self) -> (same: bool) {
        *self == *other
    }
}

impl Plain for () {
    fn duplicate(&self) -> (copy: Self) {
    }

    fn same_as(&self, other: &Self) -> (same: bool) {
        true
    }
}

impl Plain for bool {
    fn duplicate(&self) -> (copy: Self) {
        *self
    }

    fn same_as(&self, other: &Self) -> (same: bool) {
        *self == *other
    }
}

impl Plain for usize {
    fn duplicate(&self) -> (copy: Self) {
        *self
    }

    fn same_as(&self, other: &Self) -> (same: bool) {
        *self == *other
    }
}

impl Plain for u32 {
    fn duplicate(&self) -> (copy: Self) {
        *self
    }

    fn same_as(&self, other: &Self) -> (same: bool) {
        *self == *other
    }
}

impl Plain for u64 {
    fn duplicate(&self) -> (copy: Self) {
        *self
    }

    fn same_as(&self, other: &Self) -> (same: bool) {
        *self == *other
    }
}

impl Plain for i32 {
    fn duplicate(&self) -> (copy: Self) {
        *self
    }

    fn same_as(&self, other: &Self) -> (same: bool) {
        *self == *other
    }
}

impl Plain for i64 {
    fn duplicate(&self) -> (copy: Self) {
        *self
    }

    fn same_as(&self, other: &Self) -> (same: bool) {
        *self == *other
    }
}

impl<T: Plain> Plain for Option<T> {
    fn duplicate(&self) -> (copy: Self) {
        match self {
            Some(value) => Some(value.duplicate()),
            None => None,
        }
    }

    fn same_as(&self, other: &Self) -> (same: bool) {
        match (self, other) {
            (Some(left), Some(right)) => left.same_as(right),
            (None, None) => true,
            _ => false,
        }
    }
}

impl<T: Plain> Plain for Vec<T> {
    fn duplicate(&self) -> (copy: Self) {
        let mut copy: Vec<T> = Vec::new();
        for index in 0..self.len()
            invariant
                copy@.len() == index,
                forall|i: int|
                    0 <= i < index ==> #[trigger] copy@[i].deep_view() == self@[i].deep_view(),
        {
            copy.push(self[index].duplicate());
        }
        proof {
            assert(copy.deep_view() =~= self.deep_view());
        }
        copy
    }

    fn same_as(&self, other: &Self) -> (same: bool) {
        if self.len() != other.len() {
            proof {
                assert(self.deep_view().len() == self@.len());
                assert(other.deep_view().len() == other@.len());
            }
            return false;
        }
        for index in 0..self.len()
            invariant
                self@.len() == other@.len(),
                forall|i: int|
                    0 <= i < index ==> #[trigger] self@[i].deep_view() == other@[i].deep_view(),
        {
            if !self[index].same_as(&other[index]) {
                proof {
                    assert(self.deep_view()[index as int] != other.deep_view()[index as int]);
                }
                return false;
            }
        }
        proof {
            assert(self.deep_view() =~= other.deep_view());
        }
        true
    }
}

} // verus!
