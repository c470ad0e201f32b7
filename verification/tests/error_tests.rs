use slotvec::Layout;
use slotvec::TryReserveError;

#[test]
fn layout_from_size_align_accepts_valid_pairs() {
    let layout = Layout::from_size_align(16, 4).unwrap();
    assert_eq!(layout.size, 16);
    assert_eq!(layout.align, 4);
}

#[test]
fn layout_from_size_align_rejects_zero_align() {
    assert!(Layout::from_size_align(16, 0).is_none());
}

#[test]
fn layout_from_size_align_rejects_non_power_of_two_align() {
    assert!(Layout::from_size_align(16, 3).is_none());
    assert!(Layout::from_size_align(16, 6).is_none());
}

#[test]
fn layout_from_size_align_rejects_huge_sizes() {
    assert!(Layout::from_size_align(usize::MAX, 1).is_none());
    assert!(Layout::from_size_align((isize::MAX as usize) - 6, 8).is_none());
    assert!(Layout::from_size_align(isize::MAX as usize, 1).is_some());
}

#[test]
fn layout_array_matches_element_type() {
    let layout = Layout::array::<u32>(5).unwrap();
    assert_eq!(layout.size, 20);
    assert_eq!(layout.align, core::mem::align_of::<u32>());
}

#[test]
fn layout_array_rejects_overflowing_counts() {
    assert!(Layout::array::<u64>(usize::MAX).is_none());
}

#[test]
fn make_reports_alloc_error_with_descriptor() {
    let err = TryReserveError::make(2, 2, 4, 4);
    assert_eq!(
        err,
        TryReserveError::AllocError {
            layout: Layout { size: 16, align: 4 }
        }
    );
}

#[test]
fn make_reports_overflow_on_unrepresentable_count() {
    let err = TryReserveError::make(usize::MAX, 1, 4, 4);
    assert_eq!(err, TryReserveError::CapacityOverflow);
}

#[test]
fn make_reports_overflow_on_unrepresentable_byte_size() {
    let err = TryReserveError::make(usize::MAX / 2, 1, 8, 8);
    assert_eq!(err, TryReserveError::CapacityOverflow);
}

#[test]
fn make_reports_overflow_on_bad_alignment() {
    let err = TryReserveError::make(2, 2, 4, 3);
    assert_eq!(err, TryReserveError::CapacityOverflow);
}

#[test]
fn new_reports_alloc_error_for_known_type() {
    let err = TryReserveError::new::<u32>(2, 2);
    assert_eq!(
        err,
        TryReserveError::AllocError {
            layout: Layout {
                size: 16,
                align: core::mem::align_of::<u32>()
            }
        }
    );
}

#[test]
fn new_reports_overflow_on_unrepresentable_count() {
    let err = TryReserveError::new::<u32>(usize::MAX, 1);
    assert_eq!(err, TryReserveError::CapacityOverflow);
}

#[test]
fn description_is_stable_per_variant() {
    assert_eq!(
        TryReserveError::CapacityOverflow.description(),
        "memory allocation failed because the computed capacity exceeded the collection's maximum"
    );
    let err = TryReserveError::AllocError {
        layout: Layout { size: 16, align: 4 },
    };
    assert_eq!(
        err.description(),
        "memory allocation failed because the memory allocator returned an error"
    );
}
