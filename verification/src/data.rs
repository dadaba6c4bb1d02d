//! Values that widgets show, and how they tell whether a value changed.

use vstd::prelude::*;

verus! {

/// A value a widget can show, which can tell cheaply whether it is the same as another value,
/// so that what shows it need not change.
pub trait Data: Clone + 'static {
    /// When [`Data::same`] answers `true`.
    spec fn same_spec(&self, other: &Self) -> bool;

    /// Whether `self` and `other` are the same.
    fn same(&self, other: &Self) -> (same: bool)
        ensures
            same == self.same_spec(other),
    ;
}

impl Data for bool {
    open spec fn same_spec(&self, other: &Self) -> bool {
        *self == *other
    }

    fn same(&self, other: &Self) -> (same: bool) {
        *self == *other
    }
}

impl Data for u32 {
    open spec fn same_spec(&self, other: &Self) -> bool {
        *self == *other
    }

    fn same(&self, other: &Self) -> (same: bool) {
        *self == *other
    }
}

impl Data for u64 {
    open spec fn same_spec(&self, other: &Self) -> bool {
        *self == *other
    }

    fn same(&self, other: &Self) -> (same: bool) {
        *self == *other
    }
}

impl Data for i32 {
    open spec fn same_spec(&self, other: &Self) -> bool {
        *self == *other
    }

    fn same(&self, other: &Self) -> (same: bool) {
        *self == *other
    }
}

impl Data for usize {
    open spec fn same_spec(&self, other: &Self) -> bool {
        *self == *other
    }

    fn same(&self, other: &Self) -> (same: bool) {
        *self == *other
    }
}

impl Data for String {
    open spec fn same_spec(&self, other: &Self) -> bool {
        self@ == other@
    }

    fn same(&self, other: &Self) -> (same: bool) {
        *self == *other
    }
}

} // verus!
