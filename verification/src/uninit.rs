//! The bridge between a region's "possibly uninitialized" and "definitely
//! initialized" views.
//!
//! A [`Slot`] is the possibly-uninitialized representation of one value: it
//! either holds a live value or it does not, and which of the two is
//! explicit, so nothing is ever read or destroyed implicitly. A [`Region`]
//! is a fixed run of slots. The [`Uninit`] trait relates each
//! possibly-uninitialized type to its initialized counterpart.

use vstd::prelude::*;

verus! {

/// One storage location that either holds a live value (`Occupied`) or does
/// not (`Vacant`).
///
/// Reading the value out, or discarding it, always goes through an explicit
/// match on the variant: there is no implicit read and no implicit destroy.
pub enum Slot<T> {
    /// The slot holds no value.
    Vacant,
    /// The slot holds a live value.
    Occupied(T),
}

impl<T> Slot<T> {
    /// The value held by an occupied slot.
    pub open spec fn value(self) -> T
        recommends
            self is Occupied,
    {
        match self {
            Slot::Occupied(v) => v,
            Slot::Vacant => vstd::pervasive::arbitrary(),
        }
    }

    /// A slot holding no value.
    pub fn vacant() -> (r: Slot<T>)
        ensures
            r is Vacant,
    {
        Slot::Vacant
    }

    /// Whether the slot holds a live value.
    pub fn is_occupied(&self) -> (r: bool)
        ensures
            r == (self is Occupied),
    {
        match self {
            Slot::Occupied(_) => true,
            Slot::Vacant => false,
        }
    }

    /// A reference to the value of an occupied slot.
    pub fn assume_init_ref(&self) -> (r: &T)
        requires
            self is Occupied,
        ensures
            *r == self.value(),
    {
        match self {
            Slot::Occupied(v) => v,
            Slot::Vacant => vstd::pervasive::unreached(),
        }
    }

    /// An exclusive reference to the value of an occupied slot.
    pub fn assume_init_mut(&mut self) -> (r: &mut T)
        requires
            *old(self) is Occupied,
        ensures
            *r == (*old(self)).value(),
            *final(self) == Slot::Occupied(*final(r)),
    {
        match self {
            Slot::Occupied(v) => v,
            Slot::Vacant => vstd::pervasive::unreached(),
        }
    }

    /// A copy of the value of an occupied slot.
    pub fn assume_init_read(&self) -> (r: T) where T: Copy
        requires
            self is Occupied,
        ensures
            r == self.value(),
    {
        match self {
            Slot::Occupied(v) => *v,
            Slot::Vacant => vstd::pervasive::unreached(),
        }
    }

    /// Write a value into a slot holding none.
    pub fn write(&mut self, value: T)
        requires
            *old(self) is Vacant,
        ensures
            *final(self) == Slot::Occupied(value),
    {
        *self = Slot::Occupied(value);
    }
}

/// Seals [`Uninit`]: only the possibly-uninitialized types of this crate
/// implement it.
pub trait Sealed {

}

impl<T> Sealed for Slot<T> {

}

impl<T> Sealed for Region<T> {

}

/// Trait for types that store potentially uninitialized data.
///
/// `Self` is the possibly-uninitialized representation and `Self::Init` the
/// initialized one. `represents` says what initialized value an initialized
/// `Self` stands for; it is the specification both of reading a value out
/// and of writing one in.
pub trait Uninit: Sealed + Sized {
    /// The initialized counterpart of `Self`.
    type Init;

    /// Whether every slot of `self` holds a live value.
    spec fn is_init(&self) -> bool;

    /// Whether no slot of `self` holds a live value.
    spec fn is_vacant(&self) -> bool;

    /// Whether an initialized `self` reads back as exactly `value`.
    spec fn represents(&self, value: &Self::Init) -> bool;

    /// Create a new `Self` from initialized memory.
    fn new(init: Self::Init) -> (r: Self)
        ensures
            r.is_init(),
            r.represents(&init),
    ;

    /// Read the initialized value out of `self`, consuming it.
    fn assume_init(self) -> (r: Self::Init)
        requires
            self.is_init(),
        ensures
            self.represents(&r),
    ;

    /// Destroy an initialized value, leaving its storage with no live slot,
    /// ready for reuse.
    fn discard(init: Self::Init) -> (r: Self)
        ensures
            r.is_vacant(),
    ;
}

impl<T> Uninit for Slot<T> {
    type Init = T;

    open spec fn is_init(&self) -> bool {
        *self is Occupied
    }

    open spec fn is_vacant(&self) -> bool {
        *self is Vacant
    }

    open spec fn represents(&self, value: &T) -> bool {
        *self == Slot::Occupied(*value)
    }

    fn new(init: T) -> (r: Slot<T>) {
        Slot::Occupied(init)
    }

    fn assume_init(self) -> (r: T) {
        match self {
            Slot::Occupied(v) => v,
            Slot::Vacant => vstd::pervasive::unreached(),
        }
    }

    fn discard(init: T) -> (r: Slot<T>) {
        Slot::Vacant
    }
}

/// A contiguous run of [`Slot`]s: the possibly-uninitialized representation
/// of a sequence of values.
///
/// A region's capacity is fixed when it is made; which of its slots hold
/// live values is up to its user. Its view is the sequence of its slots.
pub struct Region<T> {
    slots: Vec<Slot<T>>,
}

impl<T> View for Region<T> {
    type V = Seq<Slot<T>>;

    closed spec fn view(&self) -> Seq<Slot<T>> {
        self.slots@
    }
}

impl<T> Region<T> {
    /// A region of `capacity` slots, none of them holding a value.
    pub fn new(capacity: usize) -> (r: Region<T>)
        ensures
            r@.len() == capacity,
            forall|i: int| 0 <= i < capacity ==> r@[i] is Vacant,
    {
        let mut slots: Vec<Slot<T>> = Vec::new();
        while slots.len() < capacity
            invariant
                slots@.len() <= capacity,
                forall|i: int| 0 <= i < slots@.len() ==> slots@[i] is Vacant,
            decreases capacity - slots@.len(),
        {
            slots.push(Slot::Vacant);
        }
        Region { slots }
    }

    /// A region's slot count is representable: the slots sit in memory.
    pub proof fn lemma_capacity_bounded(&self)
        ensures
            self@.len() <= usize::MAX,
    {
        vstd::std_specs::vec::axiom_spec_len(&self.slots);
    }

    /// The number of slots in the region.
    pub fn capacity(&self) -> (r: usize)
        ensures
            r == self@.len(),
    {
        self.slots.len()
    }

    /// A reference to the slot at index `i`.
    pub fn slot(&self, i: usize) -> (r: &Slot<T>)
        requires
            i < self@.len(),
        ensures
            *r == self@[i as int],
    {
        &self.slots[i]
    }

    /// Exclusively borrow the slot at index `i`.
    pub fn slot_mut(&mut self, i: usize) -> (r: &mut Slot<T>)
        requires
            i < old(self)@.len(),
        ensures
            *r == old(self)@[i as int],
            final(self)@ == old(self)@.update(i as int, *final(r)),
    {
        vstd::std_specs::vec::vec_index_mut(&mut self.slots, i)
    }

    /// Replace the slot at index `i`, returning what it held.
    pub fn replace(&mut self, i: usize, slot: Slot<T>) -> (r: Slot<T>)
        requires
            i < old(self)@.len(),
        ensures
            final(self)@ == old(self)@.update(i as int, slot),
            r == old(self)@[i as int],
    {
        let r = self.slots.remove(i);
        self.slots.insert(i, slot);
        r
    }

    /// Split the region into the slots below `at` and the slots from `at`
    /// up, ownership and all.
    pub fn split_at(self, at: usize) -> (r: (Region<T>, Region<T>))
        requires
            at <= self@.len(),
        ensures
            r.0@ == self@.subrange(0, at as int),
            r.1@ == self@.subrange(at as int, self@.len() as int),
    {
        let mut slots = self.slots;
        let tail = slots.split_off(at);
        (Region { slots }, Region { slots: tail })
    }

    /// Initialize the region by filling every slot with a copy of `value`.
    ///
    /// This cannot fail.
    pub fn fill_copied(&mut self, value: T) where T: Copy
        requires
            old(self).is_vacant(),
        ensures
            final(self)@.len() == old(self)@.len(),
            forall|i: int| 0 <= i < final(self)@.len() ==> final(self)@[i] == Slot::Occupied(value),
    {
        let capacity = self.slots.len();
        let mut i: usize = 0;
        while i < capacity
            invariant
                capacity == self@.len(),
                i <= capacity,
                forall|j: int| 0 <= j < i ==> self@[j] == Slot::Occupied(value),
            decreases capacity - i,
        {
            let _ = self.replace(i, Slot::Occupied(value));
            i = i + 1;
        }
    }

    /// Initialize the region by filling every slot with a clone of `value`,
    /// left to right, the last slot taking the original so that one
    /// duplication is saved.
    ///
    /// On a region with no slots, `value` is simply discarded.
    pub fn fill_cloned(&mut self, value: T) where T: Clone
        requires
            old(self).is_vacant(),
        ensures
            final(self)@.len() == old(self)@.len(),
            forall|i: int|
                0 <= i < final(self)@.len() - 1 ==> final(self)@[i] is Occupied && cloned::<T>(
                    value,
                    final(self)@[i].value(),
                ),
            final(self)@.len() > 0 ==> final(self)@[final(self)@.len() - 1] == Slot::Occupied(
                value,
            ),
    {
        let capacity = self.slots.len();
        if capacity == 0 {
            return ;
        }
        let last = capacity - 1;
        let mut i: usize = 0;
        while i < last
            invariant
                capacity == self@.len(),
                last == capacity - 1,
                i <= last,
                forall|j: int|
                    0 <= j < i ==> self@[j] is Occupied && cloned::<T>(value, self@[j].value()),
            decreases last - i,
        {
            let duplicate = value.clone();
            let _ = self.replace(i, Slot::Occupied(duplicate));
            i = i + 1;
        }
        let _ = self.replace(last, Slot::Occupied(value));
    }

    /// Initialize the region by filling every slot, left to right, with the
    /// result of a zero-argument generator.
    pub fn fill_with<F: Fn() -> T>(&mut self, f: F)
        requires
            old(self).is_vacant(),
            call_requires(f, ()),
        ensures
            final(self)@.len() == old(self)@.len(),
            forall|i: int|
                0 <= i < final(self)@.len() ==> final(self)@[i] is Occupied && call_ensures(
                    f,
                    (),
                    final(self)@[i].value(),
                ),
    {
        let capacity = self.slots.len();
        let mut i: usize = 0;
        while i < capacity
            invariant
                capacity == self@.len(),
                i <= capacity,
                call_requires(f, ()),
                forall|j: int|
                    0 <= j < i ==> self@[j] is Occupied && call_ensures(f, (), self@[j].value()),
            decreases capacity - i,
        {
            let item = f();
            let _ = self.replace(i, Slot::Occupied(item));
            i = i + 1;
        }
    }

    /// Initialize the region by filling every slot, left to right, with the
    /// results of a generator that may decline.
    ///
    /// If the generator declines partway, the slots already written are
    /// destroyed — exactly those, and each exactly once — before the call
    /// returns, so the region is left with no live slot. `Err(k)` reports
    /// that the generator declined its `k + 1`-th invocation and that the
    /// `k` slots it had filled were cleaned up.
    pub fn try_fill_with<F: Fn() -> Option<T>>(&mut self, f: F) -> (r: Result<(), usize>)
        requires
            old(self).is_vacant(),
            call_requires(f, ()),
        ensures
            final(self)@.len() == old(self)@.len(),
            match r {
                Ok(()) => forall|i: int|
                    0 <= i < final(self)@.len() ==> final(self)@[i] is Occupied && call_ensures(
                        f,
                        (),
                        Some(final(self)@[i].value()),
                    ),
                Err(k) => {
                    &&& 0 <= k < old(self)@.len()
                    &&& call_ensures(f, (), None::<T>)
                    &&& exists|written: Seq<T>|
                        written.len() == k && forall|i: int|
                            0 <= i < k ==> call_ensures(f, (), Some(#[trigger] written[i]))
                    &&& forall|i: int| 0 <= i < final(self)@.len() ==> final(self)@[i] is Vacant
                },
            },
    {
        let capacity = self.slots.len();
        let ghost mut written: Seq<T> = Seq::empty();
        let mut i: usize = 0;
        while i < capacity
            invariant
                capacity == self@.len(),
                capacity == old(self)@.len(),
                i <= capacity,
                call_requires(f, ()),
                written.len() == i,
                forall|j: int|
                    0 <= j < i ==> call_ensures(f, (), Some(#[trigger] written[j])),
                forall|j: int|
                    0 <= j < i ==> self@[j] is Occupied && call_ensures(
                        f,
                        (),
                        Some(self@[j].value()),
                    ),
                forall|j: int| i <= j < capacity ==> self@[j] is Vacant,
            decreases capacity - i,
        {
            match f() {
                Some(item) => {
                    proof {
                        written = written.push(item);
                    }
                    let _ = self.replace(i, Slot::Occupied(item));
                    i = i + 1;
                },
                None => {
                    // The generator declined: destroy exactly the slots
                    // written so far, left to right.
                    let failed_at = i;
                    let mut j: usize = 0;
                    while j < failed_at
                        invariant
                            capacity == self@.len(),
                            capacity == old(self)@.len(),
                            j <= failed_at <= capacity,
                            forall|k: int| 0 <= k < j ==> self@[k] is Vacant,
                            forall|k: int| j <= k < failed_at ==> self@[k] is Occupied,
                            forall|k: int| failed_at <= k < capacity ==> self@[k] is Vacant,
                        decreases failed_at - j,
                    {
                        let _ = self.replace(j, Slot::Vacant);
                        j = j + 1;
                    }
                    proof {
                        let w = written;
                        assert(w.len() == failed_at && forall|k: int|
                            0 <= k < failed_at ==> call_ensures(f, (), Some(#[trigger] w[k])));
                    }
                    return Err(failed_at);
                },
            }
        }
        Ok(())
    }
}

impl<T> Uninit for Region<T> {
    type Init = Vec<T>;

    open spec fn is_init(&self) -> bool {
        forall|i: int| 0 <= i < self@.len() ==> self@[i] is Occupied
    }

    open spec fn is_vacant(&self) -> bool {
        forall|i: int| 0 <= i < self@.len() ==> self@[i] is Vacant
    }

    open spec fn represents(&self, value: &Vec<T>) -> bool {
        value@.len() == self@.len() && forall|i: int|
            0 <= i < self@.len() ==> self@[i] == Slot::Occupied(value@[i])
    }

    fn new(init: Vec<T>) -> (r: Region<T>) {
        let ghost values: Seq<T> = init@;
        let mut init = init;
        let mut slots: Vec<Slot<T>> = Vec::new();
        while init.len() > 0
            invariant
                slots@.len() + init@.len() == values.len(),
                init@ == values.subrange(slots@.len() as int, values.len() as int),
                forall|i: int|
                    0 <= i < slots@.len() ==> #[trigger] slots@[i] == Slot::Occupied(values[i]),
            decreases init@.len(),
        {
            let item = init.remove(0);
            slots.push(Slot::Occupied(item));
        }
        Region { slots }
    }

    fn assume_init(self) -> (r: Vec<T>) {
        let ghost slots_view: Seq<Slot<T>> = self@;
        let mut slots = self.slots;
        let mut values: Vec<T> = Vec::new();
        while slots.len() > 0
            invariant
                forall|i: int| 0 <= i < slots_view.len() ==> slots_view[i] is Occupied,
                values@.len() + slots@.len() == slots_view.len(),
                slots@ == slots_view.subrange(values@.len() as int, slots_view.len() as int),
                forall|i: int|
                    0 <= i < values@.len() ==> #[trigger] slots_view[i] == Slot::Occupied(
                        values@[i],
                    ),
            decreases slots@.len(),
        {
            match slots.remove(0) {
                Slot::Occupied(v) => values.push(v),
                Slot::Vacant => vstd::pervasive::unreached(),
            }
        }
        values
    }

    fn discard(init: Vec<T>) -> (r: Region<T>) {
        Region::new(init.len())
    }
}

} // verus!
