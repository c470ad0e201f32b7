//! Destruction accounting under interrupted passes: a counting element
//! checks that no value is ever leaked or destroyed twice, whether an
//! operation runs to completion or its callback declines partway.

use std::cell::Cell;
use std::rc::Rc;

use slotvec::Region;
use slotvec::SliceVec;

/// A test element that counts how often it is destroyed.
struct Probe {
    value: i32,
    drops: Rc<Cell<usize>>,
}

impl Probe {
    fn new(value: i32, drops: &Rc<Cell<usize>>) -> Probe {
        Probe {
            value,
            drops: Rc::clone(drops),
        }
    }
}

impl Drop for Probe {
    fn drop(&mut self) {
        self.drops.set(self.drops.get() + 1);
    }
}

fn probe_vec(values: &[i32], drops: &Rc<Cell<usize>>) -> SliceVec<Probe> {
    let mut v = SliceVec::new(Region::new(values.len()));
    for &x in values {
        assert!(v.try_push(Probe::new(x, drops)).is_ok());
    }
    v
}

fn values_of(v: &SliceVec<Probe>) -> Vec<i32> {
    v.as_slice().into_iter().map(|p| p.value).collect()
}

#[test]
fn retain_destroys_each_rejected_value_exactly_once() {
    let drops = Rc::new(Cell::new(0));
    let mut v = probe_vec(&[1, 2, 3, 4, 5, 6], &drops);
    v.retain(|p| p.value % 2 == 0);
    assert_eq!(values_of(&v), vec![2, 4, 6]);
    assert_eq!(drops.get(), 3);
    drop(v);
    // Dropping the vector destroys the kept values too, once each.
    assert_eq!(drops.get(), 6);
}

#[test]
fn aborted_retain_leaves_length_consistent_without_double_destruction() {
    let drops = Rc::new(Cell::new(0));
    let mut v = probe_vec(&[1, 2, 3, 4, 5, 6], &drops);
    let calls = Cell::new(0);
    // Keep even values; decline at the fifth element, after two deletions.
    let completed = v.try_retain(|p| {
        calls.set(calls.get() + 1);
        if calls.get() == 5 {
            None
        } else {
            Some(p.value % 2 == 0)
        }
    });
    assert!(!completed);
    // Elements 1 and 3 were rejected and destroyed; elements 5 and 6 were
    // never inspected and were shifted over the gap.
    assert_eq!(drops.get(), 2);
    assert_eq!(v.len(), 4);
    assert_eq!(values_of(&v), vec![2, 4, 5, 6]);
    drop(v);
    // Every element was destroyed exactly once over the vector's life.
    assert_eq!(drops.get(), 6);
}

#[test]
fn completed_try_retain_matches_retain() {
    let drops = Rc::new(Cell::new(0));
    let mut v = probe_vec(&[1, 2, 3, 4], &drops);
    let completed = v.try_retain(|p| Some(p.value > 2));
    assert!(completed);
    assert_eq!(values_of(&v), vec![3, 4]);
    assert_eq!(drops.get(), 2);
}

#[test]
fn truncate_zero_and_clear_destroy_every_value_exactly_once() {
    let drops_a = Rc::new(Cell::new(0));
    let mut a = probe_vec(&[7, 8, 9], &drops_a);
    a.truncate(0);
    assert_eq!(a.len(), 0);
    assert_eq!(drops_a.get(), 3);

    let drops_b = Rc::new(Cell::new(0));
    let mut b = probe_vec(&[7, 8, 9], &drops_b);
    b.clear();
    assert_eq!(b.len(), 0);
    assert_eq!(drops_b.get(), 3);

    drop(a);
    drop(b);
    assert_eq!(drops_a.get(), 3);
    assert_eq!(drops_b.get(), 3);
}

#[test]
fn pop_hands_the_value_out_instead_of_destroying_it() {
    let drops = Rc::new(Cell::new(0));
    let mut v = probe_vec(&[1, 2], &drops);
    let popped = v.pop().unwrap();
    assert_eq!(popped.value, 2);
    assert_eq!(drops.get(), 0);
    drop(popped);
    assert_eq!(drops.get(), 1);
    drop(v);
    assert_eq!(drops.get(), 2);
}
