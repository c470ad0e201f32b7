use slotvec::Owned;
use slotvec::Region;
use slotvec::SliceVec;
use slotvec::TryReserveError;

fn filled(values: &[i32], capacity: usize) -> SliceVec<i32> {
    let mut v = SliceVec::new(Region::new(capacity));
    for &x in values {
        assert!(v.try_push(x).is_ok());
    }
    v
}

fn contents(v: &SliceVec<i32>) -> Vec<i32> {
    v.as_slice().into_iter().copied().collect()
}

#[test]
fn length_stays_within_capacity_across_operations() {
    let mut v = SliceVec::new(Region::new(3));
    assert!(v.len() <= v.capacity());
    let _ = v.try_push(1);
    assert!(v.len() <= v.capacity());
    let _ = v.try_push(2);
    let _ = v.try_push(3);
    assert!(v.len() <= v.capacity());
    let _ = v.try_push(4);
    assert!(v.len() <= v.capacity());
    let _ = v.pop();
    assert!(v.len() <= v.capacity());
    v.truncate(1);
    assert!(v.len() <= v.capacity());
    v.clear();
    assert!(v.len() <= v.capacity());
    assert_eq!(v.capacity(), 3);
}

#[test]
fn raw_parts_round_trip_is_identity() {
    let v = filled(&[10, 20, 30], 5);
    let (region, len) = v.into_raw_parts();
    assert_eq!(len, 3);
    assert_eq!(region.capacity(), 5);
    let rebuilt = SliceVec::from_raw_parts(region, len);
    assert_eq!(rebuilt.len(), 3);
    assert_eq!(rebuilt.capacity(), 5);
    assert_eq!(contents(&rebuilt), vec![10, 20, 30]);
}

#[test]
fn push_then_pop_returns_item_and_restores_length() {
    let mut v = filled(&[1, 2], 4);
    let before = v.len();
    v.push(42);
    assert_eq!(v.pop(), Some(42));
    assert_eq!(v.len(), before);
    assert_eq!(contents(&v), vec![1, 2]);
}

#[test]
fn try_push_on_full_vector_returns_item_and_overflow() {
    let mut v = filled(&[1, 2, 3], 3);
    assert!(v.is_full());
    match v.try_push(99) {
        Err((returned, e)) => {
            assert_eq!(returned, 99);
            assert_eq!(e, TryReserveError::CapacityOverflow);
        }
        Ok(()) => panic!("push into a full fixed-capacity vector succeeded"),
    }
    assert_eq!(v.len(), 3);
    assert_eq!(contents(&v), vec![1, 2, 3]);
}

#[test]
fn retain_keeps_even_values_in_order() {
    let mut v = filled(&[1, 2, 3, 4, 5, 6], 6);
    v.retain(|x| x % 2 == 0);
    assert_eq!(v.len(), 3);
    assert_eq!(contents(&v), vec![2, 4, 6]);
    assert_eq!(v.capacity(), 6);
}

#[test]
fn retain_none_and_all() {
    let mut v = filled(&[1, 2, 3], 3);
    v.retain(|_| true);
    assert_eq!(contents(&v), vec![1, 2, 3]);
    v.retain(|_| false);
    assert_eq!(v.len(), 0);
    assert!(v.is_empty());
}

#[test]
fn retain_mut_can_replace_kept_values() {
    let mut v = filled(&[1, 2, 3, 4], 4);
    v.retain_mut(|x| (x % 2 == 0, x * 10));
    assert_eq!(contents(&v), vec![20, 40]);
}

#[test]
fn truncate_zero_equals_clear() {
    let mut a = filled(&[7, 8, 9], 4);
    let mut b = filled(&[7, 8, 9], 4);
    a.truncate(0);
    b.clear();
    assert_eq!(a.len(), 0);
    assert_eq!(b.len(), 0);
    assert_eq!(contents(&a), contents(&b));
    assert_eq!(a.capacity(), 4);
    assert_eq!(b.capacity(), 4);
}

#[test]
fn truncate_keeps_prefix() {
    let mut v = filled(&[1, 2, 3, 4, 5], 5);
    v.truncate(2);
    assert_eq!(contents(&v), vec![1, 2]);
    v.truncate(9);
    assert_eq!(contents(&v), vec![1, 2]);
}

#[test]
fn default_vector_is_empty_with_zero_capacity() {
    let v: SliceVec<i32> = Default::default();
    assert_eq!(v.len(), 0);
    assert_eq!(v.capacity(), 0);
    assert!(v.is_empty());
}

#[test]
fn pop_on_empty_returns_none() {
    let mut v: SliceVec<i32> = SliceVec::new(Region::new(2));
    assert_eq!(v.pop(), None);
}

#[test]
fn accessors_report_remaining_and_fullness() {
    let mut v = SliceVec::new(Region::new(2));
    assert_eq!(v.remaining(), 2);
    assert!(!v.is_full());
    let _ = v.try_push(5);
    assert_eq!(v.remaining(), 1);
    let _ = v.try_push(6);
    assert_eq!(v.remaining(), 0);
    assert!(v.is_full());
}

#[test]
fn get_set_and_get_mut_access_live_values() {
    let mut v = filled(&[1, 2, 3], 3);
    assert_eq!(*v.get(1), 2);
    let old = v.set(1, 20);
    assert_eq!(old, 2);
    assert_eq!(contents(&v), vec![1, 20, 3]);
    *v.get_mut(0) = 100;
    assert_eq!(contents(&v), vec![100, 20, 3]);
}

#[test]
fn push_unchecked_appends_where_room_exists() {
    let mut v = filled(&[1], 3);
    v.push_unchecked(2);
    assert_eq!(contents(&v), vec![1, 2]);
}

#[test]
fn try_reserve_succeeds_only_within_capacity() {
    let mut v = filled(&[1, 2], 4);
    assert!(v.try_reserve(2).is_ok());
    assert_eq!(v.try_reserve(3), Err(TryReserveError::CapacityOverflow));
    assert!(v.try_reserve_exact(2).is_ok());
    assert_eq!(
        v.try_reserve_exact(3),
        Err(TryReserveError::CapacityOverflow)
    );
    assert_eq!(contents(&v), vec![1, 2]);
    assert_eq!(v.capacity(), 4);
}

#[test]
fn into_parts_splits_live_values_from_spare_region() {
    let v = filled(&[4, 5], 5);
    let (live, spare) = v.into_parts();
    let values = Owned::into_inner(live);
    assert_eq!(values, vec![4, 5]);
    let spare_region = Owned::into_inner(spare);
    assert_eq!(spare_region.capacity(), 3);
    for i in 0..3 {
        assert!(!spare_region.slot(i).is_occupied());
    }
}
