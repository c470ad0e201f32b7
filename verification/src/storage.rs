//! One contract over backing buffers: fixed regions and growable regions
//! behind the same [`Storage`] interface, so the vector engine can be
//! written once and instantiated over any backend without branching on
//! kind.

use vstd::prelude::*;

use crate::error::TryReserveError;
use crate::uninit::Region;
use crate::uninit::Slot;

verus! {

/// A contiguous buffer of possibly-uninitialized slots of `Item`s.
///
/// The buffer's contents are its sequence of slots (`slots()`); its
/// capacity is exact. Growth goes through an explicit request which either
/// leaves the buffer untouched and reports why, or extends it with vacant
/// slots while preserving everything already there.
pub trait Storage: Sized {
    /// The element type the buffer stores.
    type Item;

    /// The slots of the buffer, in order.
    spec fn slots(&self) -> Seq<Slot<Self::Item>>;

    /// Whether this backend's capacity is fixed forever: a grow request on
    /// such a backend is always an error, never a degenerate allocation
    /// attempt.
    spec fn fixed_capacity() -> bool;

    /// Whether a grow request for `len + additional` total slots is
    /// guaranteed to succeed on this backend.
    spec fn grow_succeeds(len: int, additional: int) -> bool;

    /// Which errors a failed grow request for `len + additional` total
    /// slots may report on this backend.
    spec fn grow_failure(len: int, additional: int, e: TryReserveError) -> bool;

    /// Whether this backend owns its backing memory, so that
    /// [`Storage::release`] actually releases it.
    spec fn owns_allocation() -> bool;

    /// The slot count is representable: a buffer really sitting in memory
    /// holds at most `usize::MAX` slots.
    proof fn lemma_capacity_bounded(&self)
        ensures
            self.slots().len() <= usize::MAX,
    ;

    /// The current slot count.
    fn capacity(&self) -> (r: usize)
        ensures
            r == self.slots().len(),
    ;

    /// A reference to the slot at index `i`.
    fn get_slot(&self, i: usize) -> (r: &Slot<Self::Item>)
        requires
            i < self.slots().len(),
        ensures
            *r == self.slots()[i as int],
    ;

    /// Replace the slot at index `i`, returning what it held.
    fn replace_slot(&mut self, i: usize, slot: Slot<Self::Item>) -> (r: Slot<Self::Item>)
        requires
            i < old(self).slots().len(),
        ensures
            final(self).slots() == old(self).slots().update(i as int, slot),
            r == old(self).slots()[i as int],
    ;

    /// Exclusively borrow the slot at index `i`.
    fn slot_mut(&mut self, i: usize) -> (r: &mut Slot<Self::Item>)
        requires
            i < old(self).slots().len(),
        ensures
            *r == old(self).slots()[i as int],
            final(self).slots() == old(self).slots().update(i as int, *final(r)),
    ;

    /// Attempt to grow the buffer so that it holds at least
    /// `len + additional` slots, where `len` is the caller's count of live
    /// slots. This may over-allocate for amortized cost. It should only be
    /// called when the buffer actually needs to grow.
    ///
    /// On success the buffer's existing slots are untouched and every slot
    /// beyond the old capacity is vacant; on failure the buffer is
    /// untouched and the error says why.
    fn grow(&mut self, len: usize, additional: usize) -> (r: Result<(), TryReserveError>)
        requires
            len <= old(self).slots().len(),
            additional > old(self).slots().len() - len,
        ensures
            match r {
                Ok(()) => {
                    &&& final(self).slots().len() >= len + additional
                    &&& final(self).slots().len() >= old(self).slots().len()
                    &&& forall|i: int|
                        0 <= i < old(self).slots().len() ==> final(self).slots()[i] == old(self).slots()[i]
                    &&& forall|i: int|
                        old(self).slots().len() <= i < final(self).slots().len() ==> final(self).slots()[i] is Vacant
                },
                Err(e) => {
                    &&& *final(self) == *old(self)
                    &&& Self::grow_failure(len as int, additional as int, e)
                },
            },
            Self::grow_succeeds(len as int, additional as int) ==> r is Ok,
            Self::fixed_capacity() ==> r is Err,
    ;

    /// Attempt to grow the buffer so that it holds exactly
    /// `len + additional` slots. Unlike [`Storage::grow`], this must not
    /// over-allocate. It should only be called when the buffer actually
    /// needs to grow.
    fn grow_exact(&mut self, len: usize, additional: usize) -> (r: Result<(), TryReserveError>)
        requires
            len <= old(self).slots().len(),
            additional > old(self).slots().len() - len,
        ensures
            match r {
                Ok(()) => {
                    &&& final(self).slots().len() == len + additional
                    &&& forall|i: int|
                        0 <= i < old(self).slots().len() ==> final(self).slots()[i] == old(self).slots()[i]
                    &&& forall|i: int|
                        old(self).slots().len() <= i < final(self).slots().len() ==> final(self).slots()[i] is Vacant
                },
                Err(e) => {
                    &&& *final(self) == *old(self)
                    &&& Self::grow_failure(len as int, additional as int, e)
                },
            },
            Self::grow_succeeds(len as int, additional as int) ==> r is Ok,
            Self::fixed_capacity() ==> r is Err,
    ;

    /// Release the backing memory, to be called at most once, right before
    /// the buffer itself is discarded. On a backend that does not own its
    /// memory this is a no-op.
    fn release(&mut self)
        ensures
            if Self::owns_allocation() {
                final(self).slots().len() == 0
            } else {
                *final(self) == *old(self)
            },
    ;

    /// Whether the buffer must grow to fit `additional` more slots past the
    /// `len` live ones.
    fn needs_to_grow(&self, len: usize, additional: usize) -> (r: bool)
        requires
            len <= self.slots().len(),
        ensures
            r == (additional > self.slots().len() - len),
    {
        additional > self.capacity() - len
    }

    /// Grow the buffer only if it needs to grow; afterwards, on success,
    /// room for the requested slots is guaranteed.
    fn try_reserve(&mut self, len: usize, additional: usize) -> (r: Result<(), TryReserveError>)
        requires
            len <= old(self).slots().len(),
        ensures
            match r {
                Ok(()) => {
                    &&& final(self).slots().len() >= len + additional
                    &&& final(self).slots().len() >= old(self).slots().len()
                    &&& forall|i: int|
                        0 <= i < old(self).slots().len() ==> final(self).slots()[i] == old(self).slots()[i]
                    &&& forall|i: int|
                        old(self).slots().len() <= i < final(self).slots().len() ==> final(self).slots()[i] is Vacant
                },
                Err(e) => {
                    &&& *final(self) == *old(self)
                    &&& additional > old(self).slots().len() - len
                    &&& Self::grow_failure(len as int, additional as int, e)
                },
            },
            additional <= old(self).slots().len() - len || Self::grow_succeeds(
                len as int,
                additional as int,
            ) ==> r is Ok,
            Self::fixed_capacity() ==> final(self).slots().len() == old(self).slots().len(),
    {
        if self.needs_to_grow(len, additional) {
            self.grow(len, additional)?;
        }
        assert(len + additional <= self.slots().len());
        Ok(())
    }

    /// Grow the buffer by exactly what is missing, only if it needs to
    /// grow; afterwards, on success, room for the requested slots is
    /// guaranteed.
    fn try_reserve_exact(&mut self, len: usize, additional: usize) -> (r: Result<
        (),
        TryReserveError,
    >)
        requires
            len <= old(self).slots().len(),
        ensures
            match r {
                Ok(()) => {
                    &&& final(self).slots().len() >= len + additional
                    &&& final(self).slots().len() >= old(self).slots().len()
                    &&& forall|i: int|
                        0 <= i < old(self).slots().len() ==> final(self).slots()[i] == old(self).slots()[i]
                    &&& forall|i: int|
                        old(self).slots().len() <= i < final(self).slots().len() ==> final(self).slots()[i] is Vacant
                },
                Err(e) => {
                    &&& *final(self) == *old(self)
                    &&& additional > old(self).slots().len() - len
                    &&& Self::grow_failure(len as int, additional as int, e)
                },
            },
            additional <= old(self).slots().len() - len || Self::grow_succeeds(
                len as int,
                additional as int,
            ) ==> r is Ok,
            Self::fixed_capacity() ==> final(self).slots().len() == old(self).slots().len(),
    {
        if self.needs_to_grow(len, additional) {
            self.grow_exact(len, additional)?;
        }
        assert(len + additional <= self.slots().len());
        Ok(())
    }
}

/// A fixed-capacity region backend: a run of slots whose capacity was
/// settled when the region was made. Growing always fails with
/// `CapacityOverflow`, by design, and the backing memory is not owned, so
/// releasing is a no-op.
impl<T> Storage for Region<T> {
    type Item = T;

    open spec fn slots(&self) -> Seq<Slot<T>> {
        self@
    }

    open spec fn fixed_capacity() -> bool {
        true
    }

    open spec fn grow_succeeds(len: int, additional: int) -> bool {
        false
    }

    open spec fn grow_failure(len: int, additional: int, e: TryReserveError) -> bool {
        e == TryReserveError::CapacityOverflow
    }

    open spec fn owns_allocation() -> bool {
        false
    }

    proof fn lemma_capacity_bounded(&self) {
        Region::lemma_capacity_bounded(self);
    }

    fn capacity(&self) -> (r: usize) {
        Region::capacity(self)
    }

    fn get_slot(&self, i: usize) -> (r: &Slot<T>) {
        self.slot(i)
    }

    fn replace_slot(&mut self, i: usize, slot: Slot<T>) -> (r: Slot<T>) {
        self.replace(i, slot)
    }

    fn slot_mut(&mut self, i: usize) -> (r: &mut Slot<T>) {
        Region::slot_mut(self, i)
    }

    fn grow(&mut self, len: usize, additional: usize) -> (r: Result<(), TryReserveError>) {
        Err(TryReserveError::CapacityOverflow)
    }

    fn grow_exact(&mut self, len: usize, additional: usize) -> (r: Result<(), TryReserveError>) {
        Err(TryReserveError::CapacityOverflow)
    }

    fn release(&mut self) {
    }
}

/// A growable, heap-owned backend over a run of slots.
///
/// Growth extends the buffer with vacant slots; the plain [`Storage::grow`]
/// doubles the capacity when that over-allocation exceeds the request, for
/// amortized cost, while [`Storage::grow_exact`] extends by exactly what
/// was asked. A request whose total slot count is not representable fails
/// with `CapacityOverflow`.
pub struct GrowRegion<T> {
    slots: Vec<Slot<T>>,
}

impl<T> View for GrowRegion<T> {
    type V = Seq<Slot<T>>;

    closed spec fn view(&self) -> Seq<Slot<T>> {
        self.slots@
    }
}

impl<T> GrowRegion<T> {
    /// An empty growable region.
    pub fn new() -> (r: GrowRegion<T>)
        ensures
            r@.len() == 0,
    {
        GrowRegion { slots: Vec::new() }
    }

    /// Extend the buffer with vacant slots until it holds `target` slots.
    fn extend_to(&mut self, target: usize)
        requires
            old(self)@.len() <= target,
        ensures
            final(self)@.len() == target,
            forall|i: int| 0 <= i < old(self)@.len() ==> final(self)@[i] == old(self)@[i],
            forall|i: int| old(self)@.len() <= i < target ==> final(self)@[i] is Vacant,
    {
        while self.slots.len() < target
            invariant
                old(self)@.len() <= self@.len() <= target,
                forall|i: int| 0 <= i < old(self)@.len() ==> self@[i] == old(self)@[i],
                forall|i: int| old(self)@.len() <= i < self@.len() ==> self@[i] is Vacant,
            decreases target - self@.len(),
        {
            self.slots.push(Slot::Vacant);
        }
    }
}

impl<T> Storage for GrowRegion<T> {
    type Item = T;

    open spec fn slots(&self) -> Seq<Slot<T>> {
        self@
    }

    open spec fn fixed_capacity() -> bool {
        false
    }

    open spec fn grow_succeeds(len: int, additional: int) -> bool {
        len + additional <= usize::MAX
    }

    open spec fn grow_failure(len: int, additional: int, e: TryReserveError) -> bool {
        e == TryReserveError::CapacityOverflow && len + additional > usize::MAX
    }

    open spec fn owns_allocation() -> bool {
        true
    }

    proof fn lemma_capacity_bounded(&self) {
        vstd::std_specs::vec::axiom_spec_len(&self.slots);
    }

    fn capacity(&self) -> (r: usize) {
        self.slots.len()
    }

    fn get_slot(&self, i: usize) -> (r: &Slot<T>) {
        &self.slots[i]
    }

    fn replace_slot(&mut self, i: usize, slot: Slot<T>) -> (r: Slot<T>) {
        let r = self.slots.remove(i);
        self.slots.insert(i, slot);
        r
    }

    fn slot_mut(&mut self, i: usize) -> (r: &mut Slot<T>) {
        vstd::std_specs::vec::vec_index_mut(&mut self.slots, i)
    }

    fn grow(&mut self, len: usize, additional: usize) -> (r: Result<(), TryReserveError>) {
        let Some(required) = len.checked_add(additional) else {
            return Err(TryReserveError::CapacityOverflow);
        };
        let current = self.slots.len();
        let doubled = if current > usize::MAX / 2 {
            usize::MAX
        } else {
            current * 2
        };
        let target = if required > doubled {
            required
        } else {
            doubled
        };
        self.extend_to(target);
        Ok(())
    }

    fn grow_exact(&mut self, len: usize, additional: usize) -> (r: Result<(), TryReserveError>) {
        let Some(required) = len.checked_add(additional) else {
            return Err(TryReserveError::CapacityOverflow);
        };
        self.extend_to(required);
        Ok(())
    }

    fn release(&mut self) {
        self.slots.clear();
    }
}

} // verus!
