//! The vector engine over the growable backend: the same operations, but
//! reservation and push can extend the backing buffer.

use slotvec::GrowRegion;
use slotvec::Region;
use slotvec::Storage;
use slotvec::VecEngine;

fn grow_vec(values: &[i32]) -> VecEngine<GrowRegion<i32>> {
    let mut v = VecEngine::new(GrowRegion::new());
    for &x in values {
        assert!(v.try_push(x).is_ok());
    }
    v
}

#[test]
fn growable_engine_starts_empty() {
    let v: VecEngine<GrowRegion<i32>> = VecEngine::new(GrowRegion::new());
    assert_eq!(v.len(), 0);
    assert_eq!(v.capacity(), 0);
    assert!(v.is_empty());
}

#[test]
fn push_grows_the_backing_buffer() {
    let mut v = grow_vec(&[]);
    for i in 0..100 {
        v.push(i);
    }
    assert_eq!(v.len(), 100);
    assert!(v.capacity() >= 100);
    for i in 0..100 {
        assert_eq!(*v.get(i as usize), i);
    }
}

#[test]
fn growth_doubles_for_amortized_cost() {
    let mut v = grow_vec(&[1]);
    assert!(v.try_push(2).is_ok());
    assert!(v.capacity() >= 2);
    let mut last_cap = v.capacity();
    let mut growths = 0;
    for i in 0..1000 {
        v.push(i);
        if v.capacity() != last_cap {
            growths += 1;
            last_cap = v.capacity();
        }
    }
    // Capacity changed far fewer times than elements were pushed.
    assert!(growths < 20);
}

#[test]
fn reserve_makes_room_ahead_of_time() {
    let mut v = grow_vec(&[1, 2]);
    v.reserve(50);
    assert!(v.capacity() >= 52);
    let cap = v.capacity();
    for i in 0..50 {
        v.push(i);
    }
    assert_eq!(v.capacity(), cap);
}

#[test]
fn try_reserve_exact_extends_by_what_is_missing() {
    let mut v = grow_vec(&[1, 2, 3]);
    let len = v.len();
    assert!(v.try_reserve_exact(7).is_ok());
    assert!(v.capacity() >= len + 7);
    assert_eq!(v.len(), 3);
}

#[test]
fn engine_pop_and_truncate_match_the_fixed_backend() {
    let mut v = grow_vec(&[1, 2, 3, 4]);
    assert_eq!(v.pop(), Some(4));
    v.truncate(1);
    assert_eq!(v.len(), 1);
    assert_eq!(*v.get(0), 1);
    v.clear();
    assert!(v.is_empty());
}

#[test]
fn engine_retain_works_over_the_growable_backend() {
    let mut v = grow_vec(&[1, 2, 3, 4, 5, 6]);
    v.retain(|x| x % 3 == 0);
    assert_eq!(v.len(), 2);
    assert_eq!(*v.get(0), 3);
    assert_eq!(*v.get(1), 6);
}

#[test]
fn engine_set_and_needs_to_grow() {
    let mut v = grow_vec(&[5, 6]);
    let old = v.set(0, 50);
    assert_eq!(old, 5);
    assert_eq!(*v.get(0), 50);
    assert_eq!(v.needs_to_grow(0), false);
    assert!(v.needs_to_grow((v.capacity() - v.len()) + 1));
}

#[test]
fn release_frees_an_owning_backend_and_spares_a_borrowed_one() {
    let mut grown: GrowRegion<i32> = GrowRegion::new();
    let _ = grown.grow(0, 10);
    assert_eq!(grown.capacity(), 10);
    grown.release();
    assert_eq!(grown.capacity(), 0);

    let mut borrowed: Region<i32> = Region::new(4);
    Storage::release(&mut borrowed);
    assert_eq!(Region::capacity(&borrowed), 4);
}

#[test]
fn engine_raw_parts_round_trip_over_growable_backend() {
    let v = grow_vec(&[8, 9]);
    let (storage, len) = v.into_raw_parts();
    assert_eq!(len, 2);
    let rebuilt = VecEngine::from_raw_parts(storage, len);
    assert_eq!(rebuilt.len(), 2);
    assert_eq!(*rebuilt.get(0), 8);
    assert_eq!(*rebuilt.get(1), 9);
}
