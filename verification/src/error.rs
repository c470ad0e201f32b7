//! The error reported when a storage buffer cannot reserve additional room,
//! together with the size/alignment descriptor it carries.

use vstd::prelude::*;

verus! {

/// A size/alignment descriptor for a failed allocation request.
///
/// A descriptor is *valid* when the alignment is a power of two and the
/// size, rounded up to the nearest multiple of the alignment, still fits
/// in `isize`. [`Layout::from_size_align`] only ever returns valid
/// descriptors; the fields are public so that contracts can speak about
/// them directly.
#[derive(Debug, Clone, Copy, PartialEq, Eq, Hash, Structural)]
pub struct Layout {
    pub size: usize,
    pub align: usize,
}

/// Whether `n` is a power of two, in its bit-level form: exactly one bit set.
pub open spec fn is_power_of_two(n: usize) -> bool {
    n != 0 && n & ((n - 1) as usize) == 0
}

/// Whether a size/alignment pair makes a valid [`Layout`]: the alignment is
/// a power of two and the size, rounded up to the nearest multiple of the
/// alignment, does not exceed `isize::MAX`. The size is an `int` so that
/// the predicate can also be applied to byte counts that overflowed `usize`.
pub open spec fn layout_valid(size: int, align: usize) -> bool {
    &&& is_power_of_two(align)
    &&& size <= isize::MAX - align + 1
}

impl Layout {
    /// Construct a descriptor from a size and an alignment, if the pair is
    /// valid; `None` exactly when it is not.
    pub fn from_size_align(size: usize, align: usize) -> (r: Option<Layout>)
        ensures
            r == if layout_valid(size as int, align) {
                Some(Layout { size, align })
            } else {
                None::<Layout>
            },
    {
        if align == 0 {
            return None;
        }
        if align & (align - 1) != 0 {
            return None;
        }
        match (isize::MAX as usize).checked_sub(align - 1) {
            Some(limit) => {
                if size <= limit {
                    Some(Layout { size, align })
                } else {
                    None
                }
            },
            None => None,
        }
    }

    /// The descriptor of an array of `n` values of type `T`, if the total
    /// byte count is representable and the pair is valid.
    pub fn array<T>(n: usize) -> (r: Option<Layout>)
        ensures
            r == if n * vstd::layout::size_of::<T>() <= usize::MAX && layout_valid(
                n * vstd::layout::size_of::<T>(),
                (vstd::layout::align_of::<T>() as usize),
            ) {
                Some(
                    Layout {
                        size: (n * vstd::layout::size_of::<T>()) as usize,
                        align: (vstd::layout::align_of::<T>() as usize),
                    },
                )
            } else {
                None::<Layout>
            },
    {
        match core::mem::size_of::<T>().checked_mul(n) {
            Some(bytes) => Layout::from_size_align(bytes, core::mem::align_of::<T>()),
            None => None,
        }
    }
}

/// Error that occurs when failing to reserve additional memory.
#[derive(Debug, Clone, Copy, PartialEq, Eq, Hash, Structural)]
#[non_exhaustive]
pub enum TryReserveError {
    /// The computed capacity exceeds the collection's maximum: the requested
    /// slot count, or the byte count it implies, is not representable, or
    /// the size/alignment pair is not constructible.
    CapacityOverflow,
    /// A memory allocator declined a well-formed request; the descriptor
    /// records the exact size and alignment for diagnostics.
    AllocError { layout: Layout },
}

impl TryReserveError {
    /// Create a [`TryReserveError`] from the erroneous parameters.
    ///
    /// The result is `CapacityOverflow` exactly when the requested slot
    /// count `capacity + additional`, or the byte count it implies, cannot
    /// be represented, or the size/alignment pair is invalid; otherwise it
    /// is `AllocError` carrying the descriptor of the failed request.
    pub fn make(capacity: usize, additional: usize, elem_size: usize, align: usize) -> (r:
        TryReserveError)
        ensures
            r == if capacity + additional <= usize::MAX && (capacity + additional) * elem_size
                <= usize::MAX && layout_valid((capacity + additional) * elem_size, align) {
                TryReserveError::AllocError {
                    layout: Layout {
                        size: ((capacity + additional) * elem_size) as usize,
                        align,
                    },
                }
            } else {
                TryReserveError::CapacityOverflow
            },
    {
        let Some(count) = capacity.checked_add(additional) else {
            return TryReserveError::CapacityOverflow;
        };

        let Some(size) = count.checked_mul(elem_size) else {
            return TryReserveError::CapacityOverflow;
        };

        let Some(layout) = Layout::from_size_align(size, align) else {
            return TryReserveError::CapacityOverflow;
        };

        TryReserveError::AllocError { layout }
    }

    /// Create a [`TryReserveError`] from erroneous parameters and a
    /// compile-time known element type, whose size and alignment determine
    /// the descriptor.
    pub fn new<T>(capacity: usize, additional: usize) -> (r: TryReserveError)
        ensures
            r == if capacity + additional <= usize::MAX && (capacity + additional)
                * vstd::layout::size_of::<T>() <= usize::MAX && layout_valid(
                (capacity + additional) * vstd::layout::size_of::<T>(),
                (vstd::layout::align_of::<T>() as usize),
            ) {
                TryReserveError::AllocError {
                    layout: Layout {
                        size: ((capacity + additional) * vstd::layout::size_of::<T>()) as usize,
                        align: (vstd::layout::align_of::<T>() as usize),
                    },
                }
            } else {
                TryReserveError::CapacityOverflow
            },
    {
        match capacity.checked_add(additional) {
            Some(count) => match Layout::array::<T>(count) {
                Some(layout) => TryReserveError::AllocError { layout },
                None => TryReserveError::CapacityOverflow,
            },
            None => TryReserveError::CapacityOverflow,
        }
    }

    /// A stable human-readable description of the error, one rendering per
    /// variant.
    pub fn description(&self) -> (r: &'static str)
        ensures
            r@ == match self {
                TryReserveError::CapacityOverflow => "memory allocation failed because the computed capacity exceeded the collection's maximum"@,
                TryReserveError::AllocError { .. } => "memory allocation failed because the memory allocator returned an error"@,
            },
    {
        match self {
            TryReserveError::CapacityOverflow => "memory allocation failed because the computed capacity exceeded the collection's maximum",
            TryReserveError::AllocError { .. } => "memory allocation failed because the memory allocator returned an error",
        }
    }
}

} // verus!
