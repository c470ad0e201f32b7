//! The initialized side of the [`Uninit`](crate::Uninit) bridge.

use vstd::prelude::*;

use crate::uninit::Slot;
use crate::uninit::Uninit;

verus! {

/// Trait for initialized data: relates a value to its possibly-uninitialized
/// representation.
pub trait Init: Sized {
    /// An uninitialized `Self`.
    type Uninit: Uninit<Init = Self>;

    /// View `self` as possibly-uninitialized. This only narrows guarantees:
    /// the value itself is preserved, and reading it back demands an
    /// explicit re-initialization claim.
    fn into_uninit(self) -> (r: Self::Uninit)
        ensures
            r.is_init(),
            r.represents(&self),
    ;
}

impl<T> Init for T {
    type Uninit = Slot<T>;

    fn into_uninit(self) -> (r: Slot<T>) {
        Slot::Occupied(self)
    }
}

} // verus!
