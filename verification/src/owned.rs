//! A handle that owns the obligation to destroy one live value.

use vstd::prelude::*;

use crate::init::Init;
use crate::uninit::Uninit;

verus! {

/// An owning handle to a target value of type `T`.
///
/// When an [`Owned`] goes out of scope, the target it carries is destroyed
/// with it — exactly once, since the handle is the single owner of that
/// obligation. A target can be abandoned at the type level instead
/// ([`Owned::into_uninit`]), destroyed eagerly with its storage kept for
/// reuse ([`Owned::take`]), or extracted ([`Owned::into_inner`]).
pub struct Owned<T> {
    target: T,
}

impl<T> Owned<T> {
    /// The value the handle owns.
    pub closed spec fn target(&self) -> T {
        self.target
    }

    /// Create a new [`Owned`] from a raw target.
    ///
    /// This is the escape hatch across unmanaged boundaries: the caller
    /// hands over the value together with the obligation to destroy it.
    pub fn from_raw(raw: T) -> (r: Owned<T>)
        ensures
            r.target() == raw,
    {
        Owned { target: raw }
    }

    /// Release the value stored in an [`Owned`] from the handle's
    /// destruction obligation and hand it back raw.
    ///
    /// An [`Owned`] can be reconstructed with [`Owned::from_raw`].
    pub fn into_raw(this: Owned<T>) -> (r: T)
        ensures
            r == this.target(),
    {
        this.target
    }

    /// Borrow the target of an [`Owned`].
    pub fn as_raw(this: &Owned<T>) -> (r: &T)
        ensures
            *r == this.target(),
    {
        &this.target
    }

    /// Exclusively borrow the target of an [`Owned`].
    pub fn as_raw_mut(this: &mut Owned<T>) -> (r: &mut T)
        ensures
            *r == old(this).target(),
            final(this).target() == *final(r),
    {
        &mut this.target
    }

    /// Get the inner value from an [`Owned`], ending the handle's
    /// obligation by transferring the value out.
    pub fn into_inner(this: Owned<T>) -> (r: T)
        ensures
            r == this.target(),
    {
        this.target
    }
}

impl<T: Init> Owned<T> {
    /// Create an [`Owned`] over an initialized `T` from its
    /// possibly-uninitialized representation.
    pub fn new(init: T::Uninit) -> (r: Owned<T>)
        requires
            init.is_init(),
        ensures
            init.represents(&r.target()),
    {
        Owned { target: init.assume_init() }
    }

    /// Convert an [`Owned`] over an initialized `T` into an [`Owned`] over
    /// the possibly-uninitialized representation at the same place,
    /// *without* destroying the `T`.
    ///
    /// The value is abandoned at the type level: it still sits in the
    /// result, but the result's scope-end duty no longer treats it as a
    /// live `T`. To destroy the value first, use [`Owned::take`].
    pub fn into_uninit(this: Owned<T>) -> (r: Owned<T::Uninit>)
        ensures
            r.target().is_init(),
            r.target().represents(&this.target()),
    {
        Owned { target: T::Uninit::new(this.target) }
    }

    /// Destroy the stored `T` eagerly, and return an [`Owned`] over the
    /// now-uninitialized storage, ready for slot reuse.
    pub fn take(this: Owned<T>) -> (r: Owned<T::Uninit>)
        ensures
            r.target().is_vacant(),
    {
        Owned { target: T::Uninit::discard(this.target) }
    }
}

impl<U: Uninit> Owned<U> {
    /// Promote an [`Owned`] over possibly-uninitialized storage to an
    /// [`Owned`] over the initialized value, once initialization has been
    /// established.
    pub fn assume_init(this: Owned<U>) -> (r: Owned<U::Init>)
        requires
            this.target().is_init(),
        ensures
            this.target().represents(&r.target()),
    {
        Owned { target: this.target.assume_init() }
    }
}

} // verus!
