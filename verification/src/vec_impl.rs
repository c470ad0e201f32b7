//! The generic vector engine: a [`Storage`] plus a logical length.
//!
//! The engine's invariant is that the slots below the logical length hold
//! live values and the slots above it hold none — exactly the live slots
//! are `[0, length)`. Every operation takes one valid state to another
//! valid state or to a defined error, and the retain pass keeps the
//! invariant even when its caller-supplied predicate declines to continue.

use vstd::prelude::*;

use crate::error::TryReserveError;
use crate::storage::Storage;
use crate::uninit::Slot;

verus! {

/// The subsequence of `values` whose positions are marked `true` in
/// `keep`, in order.
pub open spec fn mask<T>(values: Seq<T>, keep: Seq<bool>) -> Seq<T>
    recommends
        values.len() == keep.len(),
    decreases values.len(),
{
    if values.len() == 0 || keep.len() == 0 {
        Seq::empty()
    } else {
        let rest = mask(values.drop_last(), keep.drop_last());
        if keep.last() {
            rest.push(values.last())
        } else {
            rest
        }
    }
}

/// A growable sequence container over a pluggable backing [`Storage`].
///
/// Its view is the sequence of live values, the prefix of the buffer below
/// the logical length.
pub struct VecEngine<S: Storage> {
    storage: S,
    len: usize,
}

impl<S: Storage> View for VecEngine<S> {
    type V = Seq<S::Item>;

    closed spec fn view(&self) -> Seq<S::Item> {
        Seq::new(self.len as nat, |i: int| self.storage.slots()[i].value())
    }
}

impl<S: Storage> VecEngine<S> {
    /// The slots of the backing buffer.
    pub closed spec fn slots(&self) -> Seq<Slot<S::Item>> {
        self.storage.slots()
    }

    /// The total slot count of the backing buffer.
    pub closed spec fn spec_capacity(&self) -> nat {
        self.storage.slots().len()
    }

    /// Validity: the logical length fits the capacity, every slot below it
    /// is live, and no slot above it is. Every operation preserves this.
    pub closed spec fn wf(&self) -> bool {
        &&& self.storage.slots().len() <= usize::MAX
        &&& self.len <= self.storage.slots().len()
        &&& forall|i: int| 0 <= i < self.len ==> self.storage.slots()[i] is Occupied
        &&& forall|i: int|
            self.len <= i < self.storage.slots().len() ==> self.storage.slots()[i] is Vacant
    }

    /// A vector of length zero over a backing buffer with no live slots.
    pub fn new(storage: S) -> (r: VecEngine<S>)
        requires
            forall|i: int| 0 <= i < storage.slots().len() ==> storage.slots()[i] is Vacant,
        ensures
            r.wf(),
            r@ == Seq::<S::Item>::empty(),
            r.spec_capacity() == storage.slots().len(),
    {
        proof {
            storage.lemma_capacity_bounded();
        }
        let r = VecEngine { storage, len: 0 };
        proof {
            assert(r@ =~= Seq::<S::Item>::empty());
        }
        r
    }

    /// Reassemble a vector from a backing buffer and a length, trusting —
    /// and here, checking — that the live slots are exactly the first
    /// `len`.
    pub fn from_raw_parts(storage: S, len: usize) -> (r: VecEngine<S>)
        requires
            len <= storage.slots().len(),
            forall|i: int| 0 <= i < len ==> storage.slots()[i] is Occupied,
            forall|i: int| len <= i < storage.slots().len() ==> storage.slots()[i] is Vacant,
        ensures
            r.wf(),
            r@.len() == len,
            forall|i: int| 0 <= i < len ==> r@[i] == storage.slots()[i].value(),
            r.spec_capacity() == storage.slots().len(),
    {
        proof {
            storage.lemma_capacity_bounded();
        }
        VecEngine { storage, len }
    }

    /// Decompose the vector into its backing buffer and length, without
    /// destroying any contents.
    pub fn into_raw_parts(self) -> (r: (S, usize))
        requires
            self.wf(),
        ensures
            r.1 == self@.len(),
            r.1 <= r.0.slots().len(),
            r.0.slots().len() == self.spec_capacity(),
            forall|i: int| 0 <= i < r.1 ==> r.0.slots()[i] == Slot::Occupied(self@[i]),
            forall|i: int| r.1 <= i < r.0.slots().len() ==> r.0.slots()[i] is Vacant,
    {
        let VecEngine { storage, len } = self;
        (storage, len)
    }

    /// The number of live values.
    pub fn len(&self) -> (r: usize)
        ensures
            r == self@.len(),
    {
        self.len
    }

    /// Whether the vector holds no values.
    pub fn is_empty(&self) -> (r: bool)
        ensures
            r == (self@.len() == 0),
    {
        self.len == 0
    }

    /// The total slot count of the backing buffer.
    pub fn capacity(&self) -> (r: usize)
        ensures
            r == self.spec_capacity(),
    {
        self.storage.capacity()
    }

    /// The number of slots still unoccupied.
    pub fn remaining(&self) -> (r: usize)
        requires
            self.wf(),
        ensures
            r == self.spec_capacity() - self@.len(),
    {
        self.storage.capacity() - self.len
    }

    /// Whether every slot is live.
    pub fn is_full(&self) -> (r: bool)
        ensures
            r == (self@.len() == self.spec_capacity()),
    {
        self.len == self.storage.capacity()
    }

    /// Whether the backing buffer must grow to fit `additional` more
    /// values.
    pub fn needs_to_grow(&self, additional: usize) -> (r: bool)
        requires
            self.wf(),
        ensures
            r == (additional > self.spec_capacity() - self@.len()),
    {
        self.storage.needs_to_grow(self.len, additional)
    }

    /// A reference to the live value at index `i`.
    pub fn get(&self, i: usize) -> (r: &S::Item)
        requires
            self.wf(),
            i < self@.len(),
        ensures
            *r == self@[i as int],
    {
        match self.storage.get_slot(i) {
            Slot::Occupied(v) => v,
            Slot::Vacant => vstd::pervasive::unreached(),
        }
    }

    /// An exclusive reference to the live value at index `i`.
    pub fn get_mut(&mut self, i: usize) -> (r: &mut S::Item)
        requires
            old(self).wf(),
            i < old(self)@.len(),
        ensures
            *r == old(self)@[i as int],
            final(self).wf(),
            final(self)@ == old(self)@.update(i as int, *final(r)),
            final(self).spec_capacity() == old(self).spec_capacity(),
    {
        match self.storage.slot_mut(i) {
            Slot::Occupied(v) => v,
            Slot::Vacant => vstd::pervasive::unreached(),
        }
    }

    /// Grow the backing buffer, if needed, so that `additional` more values
    /// fit; on failure the vector is untouched and the error says why.
    pub fn try_reserve(&mut self, additional: usize) -> (r: Result<(), TryReserveError>)
        requires
            old(self).wf(),
        ensures
            final(self).wf(),
            final(self)@ == old(self)@,
            match r {
                Ok(()) => {
                    &&& final(self).spec_capacity() >= old(self)@.len() + additional
                    &&& final(self).spec_capacity() >= old(self).spec_capacity()
                },
                Err(e) => {
                    &&& *final(self) == *old(self)
                    &&& additional > old(self).spec_capacity() - old(self)@.len()
                    &&& S::grow_failure(old(self)@.len() as int, additional as int, e)
                },
            },
            additional <= old(self).spec_capacity() - old(self)@.len() || S::grow_succeeds(
                old(self)@.len() as int,
                additional as int,
            ) ==> r is Ok,
            S::fixed_capacity() ==> final(self).spec_capacity() == old(self).spec_capacity(),
    {
        let r = self.storage.try_reserve(self.len, additional);
        proof {
            self.storage.lemma_capacity_bounded();
            assert(self@ =~= old(self)@);
        }
        r
    }

    /// Grow the backing buffer by exactly what is missing, if anything; on
    /// failure the vector is untouched and the error says why.
    pub fn try_reserve_exact(&mut self, additional: usize) -> (r: Result<(), TryReserveError>)
        requires
            old(self).wf(),
        ensures
            final(self).wf(),
            final(self)@ == old(self)@,
            match r {
                Ok(()) => {
                    &&& final(self).spec_capacity() >= old(self)@.len() + additional
                    &&& final(self).spec_capacity() >= old(self).spec_capacity()
                },
                Err(e) => {
                    &&& *final(self) == *old(self)
                    &&& additional > old(self).spec_capacity() - old(self)@.len()
                    &&& S::grow_failure(old(self)@.len() as int, additional as int, e)
                },
            },
            additional <= old(self).spec_capacity() - old(self)@.len() || S::grow_succeeds(
                old(self)@.len() as int,
                additional as int,
            ) ==> r is Ok,
            S::fixed_capacity() ==> final(self).spec_capacity() == old(self).spec_capacity(),
    {
        let r = self.storage.try_reserve_exact(self.len, additional);
        proof {
            self.storage.lemma_capacity_bounded();
            assert(self@ =~= old(self)@);
        }
        r
    }

    /// Grow the backing buffer, if needed, so that `additional` more values
    /// fit; callable only where failure is ruled out.
    pub fn reserve(&mut self, additional: usize)
        requires
            old(self).wf(),
            additional <= old(self).spec_capacity() - old(self)@.len() || S::grow_succeeds(
                old(self)@.len() as int,
                additional as int,
            ),
        ensures
            final(self).wf(),
            final(self)@ == old(self)@,
            final(self).spec_capacity() >= old(self)@.len() + additional,
            final(self).spec_capacity() >= old(self).spec_capacity(),
            S::fixed_capacity() ==> final(self).spec_capacity() == old(self).spec_capacity(),
    {
        match self.try_reserve(additional) {
            Ok(()) => (),
            Err(_) => vstd::pervasive::unreached(),
        }
    }

    /// Grow the backing buffer by exactly what is missing, if anything;
    /// callable only where failure is ruled out.
    pub fn reserve_exact(&mut self, additional: usize)
        requires
            old(self).wf(),
            additional <= old(self).spec_capacity() - old(self)@.len() || S::grow_succeeds(
                old(self)@.len() as int,
                additional as int,
            ),
        ensures
            final(self).wf(),
            final(self)@ == old(self)@,
            final(self).spec_capacity() >= old(self)@.len() + additional,
            final(self).spec_capacity() >= old(self).spec_capacity(),
            S::fixed_capacity() ==> final(self).spec_capacity() == old(self).spec_capacity(),
    {
        match self.try_reserve_exact(additional) {
            Ok(()) => (),
            Err(_) => vstd::pervasive::unreached(),
        }
    }

    /// Append a value to a vector known to have room for it: write to the
    /// slot at the logical length, then count it in.
    pub fn push_unchecked(&mut self, item: S::Item)
        requires
            old(self).wf(),
            old(self)@.len() < old(self).spec_capacity(),
        ensures
            final(self).wf(),
            final(self)@ == old(self)@.push(item),
            final(self).spec_capacity() == old(self).spec_capacity(),
    {
        let _ = self.storage.replace_slot(self.len, Slot::Occupied(item));
        self.len = self.len + 1;
        proof {
            assert(self@ =~= old(self)@.push(item));
        }
    }

    /// Try to append a value. If the buffer is full, first attempt to grow
    /// it by one slot; if that fails, the value is handed back with the
    /// error — not lost — and the vector is untouched.
    pub fn try_push(&mut self, item: S::Item) -> (r: Result<(), (S::Item, TryReserveError)>)
        requires
            old(self).wf(),
        ensures
            final(self).wf(),
            match r {
                Ok(()) => {
                    &&& final(self)@ == old(self)@.push(item)
                    &&& final(self).spec_capacity() >= old(self).spec_capacity()
                },
                Err((returned, e)) => {
                    &&& returned == item
                    &&& *final(self) == *old(self)
                    &&& old(self)@.len() == old(self).spec_capacity()
                    &&& S::grow_failure(old(self)@.len() as int, 1, e)
                },
            },
            old(self)@.len() < old(self).spec_capacity() || S::grow_succeeds(
                old(self)@.len() as int,
                1,
            ) ==> r is Ok,
            S::fixed_capacity() && old(self)@.len() == old(self).spec_capacity() ==> r is Err,
            S::fixed_capacity() ==> final(self).spec_capacity() == old(self).spec_capacity(),
    {
        if self.len == self.storage.capacity() {
            match self.storage.grow(self.len, 1) {
                Ok(()) => {
                    proof {
                        self.storage.lemma_capacity_bounded();
                    }
                },
                Err(e) => {
                    return Err((item, e));
                },
            }
        }
        self.push_unchecked(item);
        Ok(())
    }

    /// Append a value; callable only where failure is ruled out.
    pub fn push(&mut self, item: S::Item)
        requires
            old(self).wf(),
            old(self)@.len() < old(self).spec_capacity() || S::grow_succeeds(
                old(self)@.len() as int,
                1,
            ),
        ensures
            final(self).wf(),
            final(self)@ == old(self)@.push(item),
            final(self).spec_capacity() >= old(self).spec_capacity(),
            S::fixed_capacity() ==> final(self).spec_capacity() == old(self).spec_capacity(),
    {
        match self.try_push(item) {
            Ok(()) => (),
            Err(_) => vstd::pervasive::unreached(),
        }
    }

    /// Remove and return the last value of a vector known not to be empty:
    /// count the slot out first, then read the value from the now-excluded
    /// slot, so the live slots are exactly `[0, length)` throughout.
    pub fn pop_unchecked(&mut self) -> (r: S::Item)
        requires
            old(self).wf(),
            old(self)@.len() > 0,
        ensures
            final(self).wf(),
            r == old(self)@.last(),
            final(self)@ == old(self)@.drop_last(),
            final(self).spec_capacity() == old(self).spec_capacity(),
    {
        self.len = self.len - 1;
        let slot = self.storage.replace_slot(self.len, Slot::Vacant);
        proof {
            assert(self@ =~= old(self)@.drop_last());
        }
        match slot {
            Slot::Occupied(v) => v,
            Slot::Vacant => vstd::pervasive::unreached(),
        }
    }

    /// Remove and return the last value, or nothing from an empty vector.
    pub fn pop(&mut self) -> (r: Option<S::Item>)
        requires
            old(self).wf(),
        ensures
            final(self).wf(),
            final(self).spec_capacity() == old(self).spec_capacity(),
            match r {
                Some(v) => {
                    &&& old(self)@.len() > 0
                    &&& v == old(self)@.last()
                    &&& final(self)@ == old(self)@.drop_last()
                },
                None => {
                    &&& old(self)@.len() == 0
                    &&& *final(self) == *old(self)
                },
            },
    {
        if self.len > 0 {
            Some(self.pop_unchecked())
        } else {
            None
        }
    }

    /// Shorten the vector to at most `new_len` values: commit the new
    /// length first, then destroy the excluded tail as one batch.
    pub fn truncate(&mut self, new_len: usize)
        requires
            old(self).wf(),
        ensures
            final(self).wf(),
            final(self).spec_capacity() == old(self).spec_capacity(),
            final(self)@ == if new_len < old(self)@.len() {
                old(self)@.take(new_len as int)
            } else {
                old(self)@
            },
    {
        let len = self.len;
        if new_len < len {
            self.len = new_len;
            let mut i: usize = new_len;
            while i < len
                invariant
                    new_len <= i <= len,
                    len <= self.storage.slots().len(),
                    self.len == new_len,
                    self.storage.slots().len() == old(self).spec_capacity(),
                    forall|j: int|
                        0 <= j < new_len ==> self.storage.slots()[j] == old(self).storage.slots()[j],
                    forall|j: int| new_len <= j < i ==> self.storage.slots()[j] is Vacant,
                    forall|j: int|
                        i <= j < len ==> self.storage.slots()[j] == old(self).storage.slots()[j],
                    forall|j: int|
                        len <= j < self.storage.slots().len() ==> self.storage.slots()[j] is Vacant,
                    old(self).wf(),
                    len == old(self)@.len(),
                decreases len - i,
            {
                let _ = self.storage.replace_slot(i, Slot::Vacant);
                i = i + 1;
            }
            proof {
                assert(self@ =~= old(self)@.take(new_len as int));
            }
        }
    }

    /// Replace the live value at index `i`, returning what it held.
    pub fn set(&mut self, i: usize, value: S::Item) -> (r: S::Item)
        requires
            old(self).wf(),
            i < old(self)@.len(),
        ensures
            final(self).wf(),
            final(self)@ == old(self)@.update(i as int, value),
            final(self).spec_capacity() == old(self).spec_capacity(),
            r == old(self)@[i as int],
    {
        let slot = self.storage.replace_slot(i, Slot::Occupied(value));
        proof {
            assert(self@ =~= old(self)@.update(i as int, value));
        }
        match slot {
            Slot::Occupied(v) => v,
            Slot::Vacant => vstd::pervasive::unreached(),
        }
    }

    /// Keep only the values the predicate accepts, in order, in a single
    /// forward pass with a trailing write cursor: a rejected value is
    /// destroyed in place, and an accepted one is moved back over the gap
    /// the deletions before it left.
    pub fn retain<F: Fn(&S::Item) -> bool>(&mut self, f: F)
        requires
            old(self).wf(),
            forall|i: int| 0 <= i < old(self)@.len() ==> call_requires(f, (&old(self)@[i],)),
        ensures
            final(self).wf(),
            final(self).spec_capacity() == old(self).spec_capacity(),
            exists|kept: Seq<bool>|
                {
                    &&& kept.len() == old(self)@.len()
                    &&& forall|i: int|
                        0 <= i < kept.len() ==> call_ensures(f, (&old(self)@[i],), kept[i])
                    &&& final(self)@ == mask(old(self)@, kept)
                },
    {
        let original_len = self.len;
        self.len = 0;
        let ghost mut kept: Seq<bool> = Seq::empty();
        let mut processed: usize = 0;
        let mut deleted: usize = 0;
        while processed < original_len
            invariant
                old(self).wf(),
                self.storage.slots().len() == old(self).spec_capacity(),
                original_len == old(self)@.len(),
                original_len <= self.storage.slots().len(),
                self.len == 0,
                processed <= original_len,
                deleted <= processed,
                kept.len() == processed,
                forall|i: int| 0 <= i < old(self)@.len() ==> call_requires(f, (&old(self)@[i],)),
                forall|k: int| 0 <= k < processed ==> call_ensures(f, (&old(self)@[k],), kept[k]),
                mask(old(self)@.take(processed as int), kept).len() == processed - deleted,
                forall|j: int|
                    0 <= j < processed - deleted ==> self.storage.slots()[j] == Slot::Occupied(
                        mask(old(self)@.take(processed as int), kept)[j],
                    ),
                forall|j: int|
                    processed - deleted <= j < processed ==> self.storage.slots()[j] is Vacant,
                forall|j: int|
                    processed <= j < original_len ==> self.storage.slots()[j] == Slot::Occupied(
                        old(self)@[j],
                    ),
                forall|j: int|
                    original_len <= j < self.storage.slots().len() ==> self.storage.slots()[j]
                        is Vacant,
            decreases original_len - processed,
        {
            let slot = self.storage.replace_slot(processed, Slot::Vacant);
            match slot {
                Slot::Occupied(v) => {
                    let keep = f(&v);
                    proof {
                        let prev = kept;
                        kept = kept.push(keep);
                        let s_prev = old(self)@.take(processed as int);
                        let s_now = old(self)@.take(processed as int + 1);
                        assert(s_now.drop_last() =~= s_prev);
                        assert(s_now.last() == old(self)@[processed as int]);
                        assert(kept.drop_last() =~= prev);
                        assert(mask(s_now, kept) == if keep {
                            mask(s_prev, prev).push(old(self)@[processed as int])
                        } else {
                            mask(s_prev, prev)
                        });
                    }
                    if keep {
                        let _ = self.storage.replace_slot(processed - deleted, Slot::Occupied(v));
                    } else {
                        deleted = deleted + 1;
                    }
                    processed = processed + 1;
                },
                Slot::Vacant => vstd::pervasive::unreached(),
            }
        }
        self.len = original_len - deleted;
        proof {
            assert(old(self)@.take(original_len as int) =~= old(self)@);
            assert(self@ =~= mask(old(self)@, kept));
            assert({
                &&& kept.len() == old(self)@.len()
                &&& forall|i: int|
                    0 <= i < kept.len() ==> call_ensures(f, (&old(self)@[i],), kept[i])
                &&& self@ == mask(old(self)@, kept)
            });
        }
    }

    /// Keep only the values the adapter accepts, with the chance to replace
    /// each value as it is inspected: the adapter takes each live value in
    /// order and hands back a keep/discard decision together with the value
    /// to proceed with. The pass is the same single forward backshift as
    /// [`VecEngine::retain`].
    pub fn retain_mut<F: Fn(S::Item) -> (bool, S::Item)>(&mut self, f: F)
        requires
            old(self).wf(),
            forall|i: int| 0 <= i < old(self)@.len() ==> call_requires(f, (old(self)@[i],)),
        ensures
            final(self).wf(),
            final(self).spec_capacity() == old(self).spec_capacity(),
            exists|kept: Seq<bool>, outs: Seq<S::Item>|
                {
                    &&& kept.len() == old(self)@.len()
                    &&& outs.len() == old(self)@.len()
                    &&& forall|i: int|
                        0 <= i < kept.len() ==> call_ensures(
                            f,
                            (old(self)@[i],),
                            (kept[i], outs[i]),
                        )
                    &&& final(self)@ == mask(outs, kept)
                },
    {
        let original_len = self.len;
        self.len = 0;
        let ghost mut kept: Seq<bool> = Seq::empty();
        let ghost mut outs: Seq<S::Item> = Seq::empty();
        let mut processed: usize = 0;
        let mut deleted: usize = 0;
        while processed < original_len
            invariant
                old(self).wf(),
                self.storage.slots().len() == old(self).spec_capacity(),
                original_len == old(self)@.len(),
                original_len <= self.storage.slots().len(),
                self.len == 0,
                processed <= original_len,
                deleted <= processed,
                kept.len() == processed,
                outs.len() == processed,
                forall|i: int| 0 <= i < old(self)@.len() ==> call_requires(f, (old(self)@[i],)),
                forall|k: int|
                    0 <= k < processed ==> call_ensures(f, (old(self)@[k],), (kept[k], outs[k])),
                mask(outs, kept).len() == processed - deleted,
                forall|j: int|
                    0 <= j < processed - deleted ==> self.storage.slots()[j] == Slot::Occupied(
                        mask(outs, kept)[j],
                    ),
                forall|j: int|
                    processed - deleted <= j < processed ==> self.storage.slots()[j] is Vacant,
                forall|j: int|
                    processed <= j < original_len ==> self.storage.slots()[j] == Slot::Occupied(
                        old(self)@[j],
                    ),
                forall|j: int|
                    original_len <= j < self.storage.slots().len() ==> self.storage.slots()[j]
                        is Vacant,
            decreases original_len - processed,
        {
            let slot = self.storage.replace_slot(processed, Slot::Vacant);
            match slot {
                Slot::Occupied(v) => {
                    let (keep, out) = f(v);
                    proof {
                        let kept_prev = kept;
                        let outs_prev = outs;
                        kept = kept.push(keep);
                        outs = outs.push(out);
                        assert(kept.drop_last() =~= kept_prev);
                        assert(outs.drop_last() =~= outs_prev);
                        assert(mask(outs, kept) == if keep {
                            mask(outs_prev, kept_prev).push(out)
                        } else {
                            mask(outs_prev, kept_prev)
                        });
                    }
                    if keep {
                        let _ = self.storage.replace_slot(processed - deleted, Slot::Occupied(out));
                    } else {
                        deleted = deleted + 1;
                    }
                    processed = processed + 1;
                },
                Slot::Vacant => vstd::pervasive::unreached(),
            }
        }
        self.len = original_len - deleted;
        proof {
            assert(self@ =~= mask(outs, kept));
            assert({
                &&& kept.len() == old(self)@.len()
                &&& outs.len() == old(self)@.len()
                &&& forall|i: int|
                    0 <= i < kept.len() ==> call_ensures(f, (old(self)@[i],), (kept[i], outs[i]))
                &&& self@ == mask(outs, kept)
            });
        }
    }

    /// The same forward backshift pass as [`VecEngine::retain`], driven by
    /// a predicate that may decline to continue.
    ///
    /// If the predicate declines at some value, that value is not
    /// destroyed: the pass stops, the values not yet inspected are shifted
    /// left over the gap the deletions so far left, and the length is set
    /// to account for exactly those deletions — no live value is leaked or
    /// destroyed twice. Returns whether the pass ran to completion.
    pub fn try_retain<F: Fn(&S::Item) -> Option<bool>>(&mut self, f: F) -> (completed: bool)
        requires
            old(self).wf(),
            forall|i: int| 0 <= i < old(self)@.len() ==> call_requires(f, (&old(self)@[i],)),
        ensures
            final(self).wf(),
            final(self).spec_capacity() == old(self).spec_capacity(),
            completed ==> exists|kept: Seq<bool>|
                {
                    &&& kept.len() == old(self)@.len()
                    &&& forall|i: int|
                        0 <= i < kept.len() ==> call_ensures(f, (&old(self)@[i],), Some(kept[i]))
                    &&& final(self)@ == mask(old(self)@, kept)
                },
            !completed ==> exists|p: int, kept: Seq<bool>|
                {
                    &&& 0 <= p < old(self)@.len()
                    &&& kept.len() == p
                    &&& forall|i: int|
                        0 <= i < p ==> call_ensures(f, (&old(self)@[i],), Some(kept[i]))
                    &&& call_ensures(f, (&old(self)@[p],), None::<bool>)
                    &&& final(self)@ == mask(old(self)@.take(p), kept) + old(self)@.subrange(
                        p,
                        old(self)@.len() as int,
                    )
                },
    {
        let original_len = self.len;
        self.len = 0;
        let ghost mut kept: Seq<bool> = Seq::empty();
        let mut processed: usize = 0;
        let mut deleted: usize = 0;
        while processed < original_len
            invariant
                old(self).wf(),
                self.storage.slots().len() == old(self).spec_capacity(),
                original_len == old(self)@.len(),
                original_len <= self.storage.slots().len(),
                self.len == 0,
                processed <= original_len,
                deleted <= processed,
                kept.len() == processed,
                forall|i: int| 0 <= i < old(self)@.len() ==> call_requires(f, (&old(self)@[i],)),
                forall|k: int|
                    0 <= k < processed ==> call_ensures(f, (&old(self)@[k],), Some(kept[k])),
                mask(old(self)@.take(processed as int), kept).len() == processed - deleted,
                forall|j: int|
                    0 <= j < processed - deleted ==> self.storage.slots()[j] == Slot::Occupied(
                        mask(old(self)@.take(processed as int), kept)[j],
                    ),
                forall|j: int|
                    processed - deleted <= j < processed ==> self.storage.slots()[j] is Vacant,
                forall|j: int|
                    processed <= j < original_len ==> self.storage.slots()[j] == Slot::Occupied(
                        old(self)@[j],
                    ),
                forall|j: int|
                    original_len <= j < self.storage.slots().len() ==> self.storage.slots()[j]
                        is Vacant,
            decreases original_len - processed,
        {
            let slot = self.storage.replace_slot(processed, Slot::Vacant);
            match slot {
                Slot::Occupied(v) => {
                    match f(&v) {
                        Some(keep) => {
                            proof {
                                let prev = kept;
                                kept = kept.push(keep);
                                let s_prev = old(self)@.take(processed as int);
                                let s_now = old(self)@.take(processed as int + 1);
                                assert(s_now.drop_last() =~= s_prev);
                                assert(s_now.last() == old(self)@[processed as int]);
                                assert(kept.drop_last() =~= prev);
                                assert(mask(s_now, kept) == if keep {
                                    mask(s_prev, prev).push(old(self)@[processed as int])
                                } else {
                                    mask(s_prev, prev)
                                });
                            }
                            if keep {
                                let _ = self.storage.replace_slot(
                                    processed - deleted,
                                    Slot::Occupied(v),
                                );
                            } else {
                                deleted = deleted + 1;
                            }
                            processed = processed + 1;
                        },
                        None => {
                            // The predicate declined: put the uninspected
                            // value back, close the gap under the
                            // uninspected tail, and account for the
                            // deletions made so far.
                            let _ = self.storage.replace_slot(processed, Slot::Occupied(v));
                            if deleted > 0 {
                                let mut i: usize = processed;
                                while i < original_len
                                    invariant
                                        old(self).wf(),
                                        self.storage.slots().len() == old(self).spec_capacity(),
                                        original_len == old(self)@.len(),
                                        original_len <= self.storage.slots().len(),
                                        0 < deleted <= processed <= i <= original_len,
                                        kept.len() == processed,
                                        mask(old(self)@.take(processed as int), kept).len()
                                            == processed - deleted,
                                        forall|j: int|
                                            0 <= j < processed - deleted ==> self.storage.slots()[j]
                                                == Slot::Occupied(
                                                mask(old(self)@.take(processed as int), kept)[j],
                                            ),
                                        forall|j: int|
                                            processed - deleted <= j < i - deleted
                                                ==> self.storage.slots()[j] == Slot::Occupied(
                                                old(self)@[j + deleted],
                                            ),
                                        forall|j: int|
                                            i - deleted <= j < i ==> self.storage.slots()[j]
                                                is Vacant,
                                        forall|j: int|
                                            i <= j < original_len ==> self.storage.slots()[j]
                                                == Slot::Occupied(old(self)@[j]),
                                        forall|j: int|
                                            original_len <= j < self.storage.slots().len()
                                                ==> self.storage.slots()[j] is Vacant,
                                        self.len == 0,
                                    decreases original_len - i,
                                {
                                    let moved = self.storage.replace_slot(i, Slot::Vacant);
                                    let _ = self.storage.replace_slot(i - deleted, moved);
                                    i = i + 1;
                                }
                            }
                            self.len = original_len - deleted;
                            proof {
                                let p = processed as int;
                                assert(self@ =~= mask(old(self)@.take(p), kept) + old(
                                    self,
                                )@.subrange(p, old(self)@.len() as int));
                                assert({
                                    &&& 0 <= p < old(self)@.len()
                                    &&& kept.len() == p
                                    &&& forall|k: int|
                                        0 <= k < p ==> call_ensures(
                                            f,
                                            (&old(self)@[k],),
                                            Some(kept[k]),
                                        )
                                    &&& call_ensures(f, (&old(self)@[p],), None::<bool>)
                                    &&& self@ == mask(old(self)@.take(p), kept) + old(
                                        self,
                                    )@.subrange(p, old(self)@.len() as int)
                                });
                            }
                            return false;
                        },
                    }
                },
                Slot::Vacant => vstd::pervasive::unreached(),
            }
        }
        self.len = original_len - deleted;
        proof {
            assert(old(self)@.take(original_len as int) =~= old(self)@);
            assert(self@ =~= mask(old(self)@, kept));
            assert({
                &&& kept.len() == old(self)@.len()
                &&& forall|i: int|
                    0 <= i < kept.len() ==> call_ensures(f, (&old(self)@[i],), Some(kept[i]))
                &&& self@ == mask(old(self)@, kept)
            });
        }
        true
    }

    /// Destroy every value, leaving an empty vector over the same buffer.
    pub fn clear(&mut self)
        requires
            old(self).wf(),
        ensures
            final(self).wf(),
            final(self).spec_capacity() == old(self).spec_capacity(),
            final(self)@ == Seq::<S::Item>::empty(),
    {
        self.truncate(0);
        proof {
            assert(self@ =~= Seq::<S::Item>::empty());
        }
    }
}

/// Law: in every valid vector state, the length never exceeds the
/// capacity, and the live slots are exactly `[0, length)` — occupied below
/// the length with the vector's values, vacant at and above it. Every
/// operation of [`VecEngine`] preserves validity, so this holds across all
/// operation sequences.
pub proof fn lemma_live_slots_exact<S: Storage>(v: VecEngine<S>)
    requires
        v.wf(),
    ensures
        v@.len() <= v.spec_capacity(),
        forall|i: int| 0 <= i < v@.len() ==> v.slots()[i] == Slot::Occupied(v@[i]),
        forall|i: int| v@.len() <= i < v.spec_capacity() ==> v.slots()[i] is Vacant,
{
}

/// Law: pushing a value and then popping returns that value unchanged and
/// restores the previous contents and length. `after_push` is constrained
/// exactly as `push` leaves a vector, and `popped` / `after_pop` exactly
/// as `pop` then produces.
pub proof fn lemma_push_then_pop<S: Storage>(
    before: VecEngine<S>,
    after_push: VecEngine<S>,
    after_pop: VecEngine<S>,
    item: S::Item,
    popped: Option<S::Item>,
)
    requires
        after_push@ == before@.push(item),
        popped == Some(after_push@.last()),
        after_pop@ == after_push@.drop_last(),
    ensures
        popped == Some(item),
        after_pop@ == before@,
        after_pop@.len() == before@.len(),
{
    assert(before@.push(item).drop_last() =~= before@);
}

/// Law: decomposing a vector into its raw parts and reassembling from the
/// same buffer and length reconstructs an observably identical vector.
/// The parts are constrained exactly as `into_raw_parts` produces them
/// from `v`, and `rebuilt` exactly as `from_raw_parts` then builds it.
pub proof fn lemma_raw_parts_round_trip<S: Storage>(
    v: VecEngine<S>,
    storage: S,
    len: usize,
    rebuilt: VecEngine<S>,
)
    requires
        len == v@.len(),
        storage.slots().len() == v.spec_capacity(),
        forall|i: int| 0 <= i < len ==> storage.slots()[i] == Slot::Occupied(v@[i]),
        rebuilt@.len() == len,
        forall|i: int| 0 <= i < len ==> rebuilt@[i] == storage.slots()[i].value(),
        rebuilt.spec_capacity() == storage.slots().len(),
    ensures
        rebuilt@ == v@,
        rebuilt.spec_capacity() == v.spec_capacity(),
{
    assert forall|i: int| 0 <= i < len implies rebuilt@[i] == v@[i] by {
        assert(storage.slots()[i] == Slot::Occupied(v@[i]));
    }
    assert(rebuilt@ =~= v@);
}

/// Law: truncating to zero is equivalent to clearing — both leave length
/// zero over the same buffer, with every previously-live slot destroyed.
/// `truncated` is constrained exactly as `truncate(0)` leaves `v`, and
/// `cleared` exactly as `clear` does.
pub proof fn lemma_truncate_zero_is_clear<S: Storage>(
    v: VecEngine<S>,
    truncated: VecEngine<S>,
    cleared: VecEngine<S>,
)
    requires
        truncated.wf(),
        truncated.spec_capacity() == v.spec_capacity(),
        truncated@ == if 0 < v@.len() {
            v@.take(0)
        } else {
            v@
        },
        cleared.wf(),
        cleared.spec_capacity() == v.spec_capacity(),
        cleared@ == Seq::<S::Item>::empty(),
    ensures
        truncated@ == cleared@,
        truncated@.len() == 0,
        forall|i: int| 0 <= i < truncated.spec_capacity() ==> truncated.slots()[i] is Vacant,
        forall|i: int| 0 <= i < cleared.spec_capacity() ==> cleared.slots()[i] is Vacant,
{
    assert(v@.take(0) =~= Seq::<S::Item>::empty());
}

} // verus!
