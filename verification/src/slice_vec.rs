//! A fixed-capacity vector over a caller-supplied region.
//!
//! [`SliceVec`] is the [`VecEngine`](crate::VecEngine) instantiated over a
//! [`Region`]: the capacity was settled when the region was made, growing
//! always fails with `CapacityOverflow`, and the vector can be decomposed
//! back into the region it was built over without destroying its contents.

use vstd::prelude::*;

use crate::error::TryReserveError;
use crate::owned::Owned;
use crate::storage::Storage;
use crate::uninit::Region;
use crate::uninit::Slot;
use crate::uninit::Uninit;
use crate::vec_impl::VecEngine;
use crate::vec_impl::mask;

verus! {

/// A vector of values over a fixed-capacity region of slots.
///
/// Its view is the sequence of live values.
pub struct SliceVec<T> {
    inner: VecEngine<Region<T>>,
}

impl<T> View for SliceVec<T> {
    type V = Seq<T>;

    closed spec fn view(&self) -> Seq<T> {
        self.inner@
    }
}

impl<T> SliceVec<T> {
    /// The region's slot count, fixed for the vector's whole life.
    pub closed spec fn spec_capacity(&self) -> nat {
        self.inner.spec_capacity()
    }

    /// Validity: the length fits the capacity and the live slots are
    /// exactly `[0, length)`. Constructors establish this and every
    /// operation preserves it.
    pub closed spec fn wf(&self) -> bool {
        self.inner.wf()
    }

    /// Create a new [`SliceVec`] of length zero over a region with no live
    /// slots.
    pub fn new(region: Region<T>) -> (r: SliceVec<T>)
        requires
            forall|i: int| 0 <= i < region@.len() ==> region@[i] is Vacant,
        ensures
            r.wf(),
            r@ == Seq::<T>::empty(),
            r.spec_capacity() == region@.len(),
    {
        SliceVec { inner: VecEngine::new(region) }
    }

    /// Create a new [`SliceVec`] from a possibly-uninitialized region and a
    /// length, given that the live slots are exactly the first `len`.
    pub fn from_raw_parts(region: Region<T>, len: usize) -> (r: SliceVec<T>)
        requires
            len <= region@.len(),
            forall|i: int| 0 <= i < len ==> region@[i] is Occupied,
            forall|i: int| len <= i < region@.len() ==> region@[i] is Vacant,
        ensures
            r.wf(),
            r@.len() == len,
            forall|i: int| 0 <= i < len ==> r@[i] == region@[i].value(),
            r.spec_capacity() == region@.len(),
    {
        SliceVec { inner: VecEngine::from_raw_parts(region, len) }
    }

    /// Decompose a [`SliceVec`] into its raw components, the backing region
    /// and the length, without destroying any contents.
    pub fn into_raw_parts(self) -> (r: (Region<T>, usize))
        requires
            self.wf(),
        ensures
            r.1 == self@.len(),
            r.0@.len() == self.spec_capacity(),
            forall|i: int| 0 <= i < r.1 ==> r.0@[i] is Occupied && r.0@[i].value() == self@[i],
            forall|i: int| r.1 <= i < r.0@.len() ==> r.0@[i] is Vacant,
    {
        self.inner.into_raw_parts()
    }

    /// The number of live values.
    pub fn len(&self) -> (r: usize)
        ensures
            r == self@.len(),
    {
        self.inner.len()
    }

    /// Whether this vector holds no values.
    pub fn is_empty(&self) -> (r: bool)
        ensures
            r == (self@.len() == 0),
    {
        self.inner.is_empty()
    }

    /// The capacity of this vector.
    pub fn capacity(&self) -> (r: usize)
        ensures
            r == self.spec_capacity(),
    {
        self.inner.capacity()
    }

    /// The number of slots still unoccupied.
    pub fn remaining(&self) -> (r: usize)
        requires
            self.wf(),
        ensures
            r == self.spec_capacity() - self@.len(),
    {
        self.inner.remaining()
    }

    /// Whether every slot is live.
    pub fn is_full(&self) -> (r: bool)
        ensures
            r == (self@.len() == self.spec_capacity()),
    {
        self.inner.is_full()
    }

    /// A reference to the live value at index `i`.
    pub fn get(&self, i: usize) -> (r: &T)
        requires
            self.wf(),
            i < self@.len(),
        ensures
            *r == self@[i as int],
    {
        self.inner.get(i)
    }

    /// An exclusive reference to the live value at index `i`.
    pub fn get_mut(&mut self, i: usize) -> (r: &mut T)
        requires
            old(self).wf(),
            i < old(self)@.len(),
        ensures
            *r == old(self)@[i as int],
            final(self).wf(),
            final(self)@ == old(self)@.update(i as int, *final(r)),
            final(self).spec_capacity() == old(self).spec_capacity(),
    {
        self.inner.get_mut(i)
    }

    /// Replace the live value at index `i`, returning what it held.
    pub fn set(&mut self, i: usize, value: T) -> (r: T)
        requires
            old(self).wf(),
            i < old(self)@.len(),
        ensures
            final(self).wf(),
            final(self)@ == old(self)@.update(i as int, value),
            final(self).spec_capacity() == old(self).spec_capacity(),
            r == old(self)@[i as int],
    {
        self.inner.set(i, value)
    }

    /// References to the live values, in order.
    pub fn as_slice(&self) -> (r: Vec<&T>)
        requires
            self.wf(),
        ensures
            r@.len() == self@.len(),
            forall|i: int| 0 <= i < r@.len() ==> *r@[i] == self@[i],
    {
        let mut out: Vec<&T> = Vec::new();
        let len = self.inner.len();
        let mut i: usize = 0;
        while i < len
            invariant
                self.wf(),
                len == self@.len(),
                i <= len,
                out@.len() == i,
                forall|j: int| 0 <= j < i ==> *out@[j] == self@[j],
            decreases len - i,
        {
            out.push(self.inner.get(i));
            i = i + 1;
        }
        out
    }

    /// Shorten the vector to at most `new_len` values: commit the new
    /// length first, then destroy the excluded tail as one batch.
    pub fn truncate(&mut self, new_len: usize)
        requires
            old(self).wf(),
        ensures
            final(self).wf(),
            final(self).spec_capacity() == old(self).spec_capacity(),
            final(self)@ == if new_len < old(self)@.len() {
                old(self)@.take(new_len as int)
            } else {
                old(self)@
            },
    {
        self.inner.truncate(new_len)
    }

    /// Destroy every value, leaving an empty vector over the same region.
    pub fn clear(&mut self)
        requires
            old(self).wf(),
        ensures
            final(self).wf(),
            final(self).spec_capacity() == old(self).spec_capacity(),
            final(self)@ == Seq::<T>::empty(),
    {
        self.inner.clear()
    }

    /// Append a value to a vector known not to be full.
    pub fn push_unchecked(&mut self, item: T)
        requires
            old(self).wf(),
            old(self)@.len() < old(self).spec_capacity(),
        ensures
            final(self).wf(),
            final(self)@ == old(self)@.push(item),
            final(self).spec_capacity() == old(self).spec_capacity(),
    {
        self.inner.push_unchecked(item)
    }

    /// Try to append a value. On a full vector this fails with
    /// `CapacityOverflow` — the capacity is fixed, so there is nothing to
    /// grow — and hands the value back untouched; otherwise it succeeds.
    pub fn try_push(&mut self, item: T) -> (r: Result<(), (T, TryReserveError)>)
        requires
            old(self).wf(),
        ensures
            final(self).wf(),
            final(self).spec_capacity() == old(self).spec_capacity(),
            match r {
                Ok(()) => {
                    &&& old(self)@.len() < old(self).spec_capacity()
                    &&& final(self)@ == old(self)@.push(item)
                },
                Err((returned, e)) => {
                    &&& old(self)@.len() == old(self).spec_capacity()
                    &&& returned == item
                    &&& e == TryReserveError::CapacityOverflow
                    &&& *final(self) == *old(self)
                },
            },
    {
        proof {
            assert(<Region<T> as Storage>::fixed_capacity());
            crate::vec_impl::lemma_live_slots_exact(self.inner);
        }
        self.inner.try_push(item)
    }

    /// Append a value; callable only on a vector known not to be full.
    pub fn push(&mut self, item: T)
        requires
            old(self).wf(),
            old(self)@.len() < old(self).spec_capacity(),
        ensures
            final(self).wf(),
            final(self)@ == old(self)@.push(item),
            final(self).spec_capacity() == old(self).spec_capacity(),
    {
        self.inner.push(item)
    }

    /// Remove and return the last value, or nothing from an empty vector.
    pub fn pop(&mut self) -> (r: Option<T>)
        requires
            old(self).wf(),
        ensures
            final(self).wf(),
            final(self).spec_capacity() == old(self).spec_capacity(),
            match r {
                Some(v) => {
                    &&& old(self)@.len() > 0
                    &&& v == old(self)@.last()
                    &&& final(self)@ == old(self)@.drop_last()
                },
                None => {
                    &&& old(self)@.len() == 0
                    &&& *final(self) == *old(self)
                },
            },
    {
        self.inner.pop()
    }

    /// Reserve room for `additional` more values. The capacity is fixed,
    /// so this succeeds exactly when the room is already there, and fails
    /// with `CapacityOverflow` otherwise, leaving the vector untouched.
    pub fn try_reserve(&mut self, additional: usize) -> (r: Result<(), TryReserveError>)
        requires
            old(self).wf(),
        ensures
            final(self).wf(),
            final(self)@ == old(self)@,
            final(self).spec_capacity() == old(self).spec_capacity(),
            r == if additional <= old(self).spec_capacity() - old(self)@.len() {
                Result::<(), TryReserveError>::Ok(())
            } else {
                Result::<(), TryReserveError>::Err(TryReserveError::CapacityOverflow)
            },
    {
        let r = self.inner.try_reserve(additional);
        match r {
            Ok(()) => Ok(()),
            Err(e) => Err(e),
        }
    }

    /// Reserve room for exactly `additional` more values; on a
    /// fixed-capacity vector this behaves as [`SliceVec::try_reserve`].
    pub fn try_reserve_exact(&mut self, additional: usize) -> (r: Result<(), TryReserveError>)
        requires
            old(self).wf(),
        ensures
            final(self).wf(),
            final(self)@ == old(self)@,
            final(self).spec_capacity() == old(self).spec_capacity(),
            r == if additional <= old(self).spec_capacity() - old(self)@.len() {
                Result::<(), TryReserveError>::Ok(())
            } else {
                Result::<(), TryReserveError>::Err(TryReserveError::CapacityOverflow)
            },
    {
        let r = self.inner.try_reserve_exact(additional);
        match r {
            Ok(()) => Ok(()),
            Err(e) => Err(e),
        }
    }

    /// Keep only the values the predicate accepts, in order.
    pub fn retain<F: Fn(&T) -> bool>(&mut self, f: F)
        requires
            old(self).wf(),
            forall|i: int| 0 <= i < old(self)@.len() ==> call_requires(f, (&old(self)@[i],)),
        ensures
            final(self).wf(),
            final(self).spec_capacity() == old(self).spec_capacity(),
            exists|kept: Seq<bool>|
                {
                    &&& kept.len() == old(self)@.len()
                    &&& forall|i: int|
                        0 <= i < kept.len() ==> call_ensures(f, (&old(self)@[i],), kept[i])
                    &&& final(self)@ == mask(old(self)@, kept)
                },
    {
        proof {
            assert forall|i: int| 0 <= i < self.inner@.len() implies call_requires(
                f,
                (&self.inner@[i],),
            ) by {
                assert(call_requires(f, (&self@[i],)));
            }
        }
        self.inner.retain(f)
    }

    /// Keep only the values the adapter accepts, with the chance to
    /// replace each value as it is inspected.
    pub fn retain_mut<F: Fn(T) -> (bool, T)>(&mut self, f: F)
        requires
            old(self).wf(),
            forall|i: int| 0 <= i < old(self)@.len() ==> call_requires(f, (old(self)@[i],)),
        ensures
            final(self).wf(),
            final(self).spec_capacity() == old(self).spec_capacity(),
            exists|kept: Seq<bool>, outs: Seq<T>|
                {
                    &&& kept.len() == old(self)@.len()
                    &&& outs.len() == old(self)@.len()
                    &&& forall|i: int|
                        0 <= i < kept.len() ==> call_ensures(
                            f,
                            (old(self)@[i],),
                            (kept[i], outs[i]),
                        )
                    &&& final(self)@ == mask(outs, kept)
                },
    {
        proof {
            assert forall|i: int| 0 <= i < self.inner@.len() implies call_requires(
                f,
                (self.inner@[i],),
            ) by {
                assert(call_requires(f, (self@[i],)));
            }
        }
        self.inner.retain_mut(f)
    }

    /// The retain pass driven by a predicate that may decline to continue;
    /// if it declines, the pass stops with the length consistent with the
    /// values actually inspected — no value leaked or destroyed twice.
    /// Returns whether the pass ran to completion.
    pub fn try_retain<F: Fn(&T) -> Option<bool>>(&mut self, f: F) -> (completed: bool)
        requires
            old(self).wf(),
            forall|i: int| 0 <= i < old(self)@.len() ==> call_requires(f, (&old(self)@[i],)),
        ensures
            final(self).wf(),
            final(self).spec_capacity() == old(self).spec_capacity(),
            completed ==> exists|kept: Seq<bool>|
                {
                    &&& kept.len() == old(self)@.len()
                    &&& forall|i: int|
                        0 <= i < kept.len() ==> call_ensures(f, (&old(self)@[i],), Some(kept[i]))
                    &&& final(self)@ == mask(old(self)@, kept)
                },
            !completed ==> exists|p: int, kept: Seq<bool>|
                {
                    &&& 0 <= p < old(self)@.len()
                    &&& kept.len() == p
                    &&& forall|i: int|
                        0 <= i < p ==> call_ensures(f, (&old(self)@[i],), Some(kept[i]))
                    &&& call_ensures(f, (&old(self)@[p],), None::<bool>)
                    &&& final(self)@ == mask(old(self)@.take(p), kept) + old(self)@.subrange(
                        p,
                        old(self)@.len() as int,
                    )
                },
    {
        proof {
            assert forall|i: int| 0 <= i < self.inner@.len() implies call_requires(
                f,
                (&self.inner@[i],),
            ) by {
                assert(call_requires(f, (&self@[i],)));
            }
        }
        let completed = self.inner.try_retain(f);
        proof {
            if !completed {
                let (p, kept) = choose|p: int, kept: Seq<bool>|
                    {
                        &&& 0 <= p < old(self).inner@.len()
                        &&& kept.len() == p
                        &&& forall|i: int|
                            0 <= i < p ==> call_ensures(f, (&old(self).inner@[i],), Some(kept[i]))
                        &&& call_ensures(f, (&old(self).inner@[p],), None::<bool>)
                        &&& self.inner@ == mask(old(self).inner@.take(p), kept) + old(self).inner@.subrange(p, old(self).inner@.len() as int)
                    };
                assert({
                    &&& 0 <= p < old(self)@.len()
                    &&& kept.len() == p
                    &&& forall|i: int|
                        0 <= i < p ==> call_ensures(f, (&old(self)@[i],), Some(kept[i]))
                    &&& call_ensures(f, (&old(self)@[p],), None::<bool>)
                    &&& self@ == mask(old(self)@.take(p), kept) + old(self)@.subrange(
                        p,
                        old(self)@.len() as int,
                    )
                });
            }
        }
        completed
    }

    /// Split this vector into its live values and its remaining
    /// uninitialized slots, as two independently-owned handles: one over
    /// the values, one over the vacant suffix region.
    pub fn into_parts(self) -> (r: (Owned<Vec<T>>, Owned<Region<T>>))
        requires
            self.wf(),
        ensures
            Owned::target(&r.0)@ == self@,
            Owned::target(&r.1)@.len() == self.spec_capacity() - self@.len(),
            forall|i: int|
                0 <= i < Owned::target(&r.1)@.len() ==> Owned::target(&r.1)@[i] is Vacant,
    {
        let (region, len) = self.inner.into_raw_parts();
        let ghost region_view = region@;
        proof {
            assert(Storage::slots(&region) == region@);
        }
        let (live, spare) = region.split_at(len);
        proof {
            assert forall|i: int| 0 <= i < live@.len() implies live@[i] == Slot::Occupied(
                self@[i],
            ) by {
                assert(live@[i] == region_view[i]);
            }
        }
        let values = live.assume_init();
        proof {
            assert(values@.len() == self@.len());
            assert forall|i: int| 0 <= i < values@.len() implies values@[i] == self@[i] by {
                assert(live@[i] == Slot::Occupied(values@[i]));
                assert(live@[i] == Slot::Occupied(self@[i]));
            }
            assert(values@ =~= self@);
        }
        (Owned::from_raw(values), Owned::from_raw(spare))
    }
}

impl<T> Default for SliceVec<T> {
    /// A vector over an empty region: length zero, capacity zero, empty.
    fn default() -> (r: SliceVec<T>)
        ensures
            r.wf(),
            r@ == Seq::<T>::empty(),
            r.spec_capacity() == 0,
    {
        SliceVec::new(Region::new(0))
    }
}

} // verus!
