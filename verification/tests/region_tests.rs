use std::cell::Cell;
use std::rc::Rc;

use slotvec::Region;
use slotvec::Slot;
use slotvec::Uninit;

/// A test element that counts how often it is destroyed.
struct Probe {
    value: i32,
    drops: Rc<Cell<usize>>,
}

impl Probe {
    fn new(value: i32, drops: &Rc<Cell<usize>>) -> Probe {
        Probe {
            value,
            drops: Rc::clone(drops),
        }
    }
}

impl Clone for Probe {
    fn clone(&self) -> Probe {
        Probe {
            value: self.value,
            drops: Rc::clone(&self.drops),
        }
    }
}

impl Drop for Probe {
    fn drop(&mut self) {
        self.drops.set(self.drops.get() + 1);
    }
}

#[test]
fn new_region_has_only_vacant_slots() {
    let region: Region<i32> = Region::new(4);
    assert_eq!(region.capacity(), 4);
    for i in 0..4 {
        assert!(!region.slot(i).is_occupied());
    }
}

#[test]
fn replace_swaps_slot_contents() {
    let mut region: Region<i32> = Region::new(2);
    let old = region.replace(0, Slot::Occupied(7));
    assert!(matches!(old, Slot::Vacant));
    let old = region.replace(0, Slot::Vacant);
    assert!(matches!(old, Slot::Occupied(7)));
}

#[test]
fn fill_copied_fills_every_slot() {
    let mut region: Region<i32> = Region::new(5);
    region.fill_copied(9);
    for i in 0..5 {
        assert!(matches!(region.slot(i), Slot::Occupied(9)));
    }
}

#[test]
fn fill_cloned_produces_equal_values() {
    let drops = Rc::new(Cell::new(0));
    let mut region: Region<Probe> = Region::new(5);
    region.fill_cloned(Probe::new(3, &drops));
    for i in 0..5 {
        match region.slot(i) {
            Slot::Occupied(p) => assert_eq!(p.value, 3),
            Slot::Vacant => panic!("slot {} left vacant", i),
        }
    }
    // No value was destroyed while filling: the last slot took the original.
    assert_eq!(drops.get(), 0);
    drop(region);
    assert_eq!(drops.get(), 5);
}

#[test]
fn fill_cloned_and_fill_copied_agree() {
    let mut cloned: Region<i32> = Region::new(5);
    cloned.fill_cloned(3);
    let mut copied: Region<i32> = Region::new(5);
    copied.fill_copied(3);
    for i in 0..5 {
        match (cloned.slot(i), copied.slot(i)) {
            (Slot::Occupied(a), Slot::Occupied(b)) => assert_eq!(a, b),
            _ => panic!("slot {} left vacant", i),
        }
    }
}

#[test]
fn fill_cloned_on_empty_region_discards_the_value() {
    let drops = Rc::new(Cell::new(0));
    let mut region: Region<Probe> = Region::new(0);
    region.fill_cloned(Probe::new(1, &drops));
    assert_eq!(drops.get(), 1);
}

#[test]
fn fill_with_invokes_generator_per_slot() {
    let calls = Cell::new(0);
    let mut region: Region<i32> = Region::new(3);
    region.fill_with(|| {
        calls.set(calls.get() + 1);
        calls.get()
    });
    assert_eq!(calls.get(), 3);
    for i in 0..3 {
        assert!(matches!(region.slot(i), Slot::Occupied(n) if *n == i as i32 + 1));
    }
}

#[test]
fn try_fill_with_success_fills_every_slot() {
    let mut region: Region<i32> = Region::new(3);
    let r = region.try_fill_with(|| Some(5));
    assert_eq!(r, Ok(()));
    for i in 0..3 {
        assert!(matches!(region.slot(i), Slot::Occupied(5)));
    }
}

#[test]
fn try_fill_with_failure_cleans_up_exactly_the_written_slots() {
    let drops = Rc::new(Cell::new(0));
    let calls = Cell::new(0);
    let mut region: Region<Probe> = Region::new(5);
    let drops_in = Rc::clone(&drops);
    let r = region.try_fill_with(|| {
        calls.set(calls.get() + 1);
        if calls.get() <= 2 {
            Some(Probe::new(calls.get(), &drops_in))
        } else {
            None
        }
    });
    // The generator declined its third invocation: the two slots already
    // written (indices 0 and 1) were destroyed, exactly once each.
    assert_eq!(r, Err(2));
    assert_eq!(drops.get(), 2);
    for i in 0..5 {
        assert!(!region.slot(i).is_occupied());
    }
}

#[test]
fn region_bridges_to_and_from_vectors() {
    let region: Region<i32> = Uninit::new(vec![1, 2, 3]);
    assert_eq!(region.capacity(), 3);
    for i in 0..3 {
        assert!(region.slot(i).is_occupied());
    }
    let values = region.assume_init();
    assert_eq!(values, vec![1, 2, 3]);
}

#[test]
fn discard_destroys_values_and_keeps_slot_count() {
    let drops = Rc::new(Cell::new(0));
    let values = vec![Probe::new(1, &drops), Probe::new(2, &drops)];
    let region: Region<Probe> = Region::discard(values);
    assert_eq!(drops.get(), 2);
    assert_eq!(region.capacity(), 2);
    assert!(!region.slot(0).is_occupied());
    assert!(!region.slot(1).is_occupied());
}

#[test]
fn split_at_divides_the_slots() {
    let mut region: Region<i32> = Region::new(4);
    let _ = region.replace(0, Slot::Occupied(1));
    let _ = region.replace(1, Slot::Occupied(2));
    let (head, tail) = region.split_at(2);
    assert_eq!(head.capacity(), 2);
    assert_eq!(tail.capacity(), 2);
    assert!(matches!(head.slot(1), Slot::Occupied(2)));
    assert!(!tail.slot(0).is_occupied());
}

#[test]
fn slot_constructors_and_accessors() {
    let vacant: Slot<i32> = Slot::vacant();
    assert!(!vacant.is_occupied());
    let filled = Slot::new(8);
    assert!(filled.is_occupied());
    assert_eq!(filled.assume_init(), 8);
    let discarded: Slot<i32> = Slot::discard(9);
    assert!(!discarded.is_occupied());
}

#[test]
fn slot_borrows_and_reads() {
    let mut slot = Slot::new(8);
    assert_eq!(*slot.assume_init_ref(), 8);
    assert_eq!(slot.assume_init_read(), 8);
    *slot.assume_init_mut() = 9;
    assert_eq!(slot.assume_init(), 9);
}

#[test]
fn slot_write_fills_a_vacant_slot() {
    let mut slot: Slot<i32> = Slot::vacant();
    slot.write(3);
    assert!(matches!(slot, Slot::Occupied(3)));
}
