//! A toolkit for manipulating storage regions whose slots may or may not
//! hold a live value, and for building sequence containers over pluggable
//! backing storage.
//!
//! The pieces, leaves first:
//!
//! - [`Slot`], [`Region`] and the [`Uninit`] / [`Init`] bridge: an explicit
//!   two-state representation of possibly-uninitialized storage, so that no
//!   value is ever read or destroyed implicitly.
//! - [`Owned`]: a handle owning the obligation to destroy one live value.
//! - [`Storage`]: one contract over fixed and growable backing buffers.
//! - [`VecEngine`]: a generic vector engine (push / pop / reserve /
//!   truncate / retain) written once against the [`Storage`] contract, with
//!   the invariant that the live slots are exactly those below the logical
//!   length — kept even when a caller-supplied callback declines partway.
//! - [`SliceVec`]: the engine instantiated over a fixed-capacity region.

mod error;
mod init;
mod owned;
mod slice_vec;
mod storage;
mod uninit;
mod vec_impl;

pub use error::Layout;
pub use error::TryReserveError;
pub use error::is_power_of_two;
pub use error::layout_valid;
pub use init::Init;
pub use owned::Owned;
pub use slice_vec::SliceVec;
pub use storage::GrowRegion;
pub use storage::Storage;
pub use uninit::Region;
pub use uninit::Sealed;
pub use uninit::Slot;
pub use uninit::Uninit;
pub use vec_impl::VecEngine;
pub use vec_impl::lemma_live_slots_exact;
pub use vec_impl::lemma_push_then_pop;
pub use vec_impl::lemma_raw_parts_round_trip;
pub use vec_impl::lemma_truncate_zero_is_clear;
pub use vec_impl::mask;
