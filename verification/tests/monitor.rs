use disruptor::atomics::{
    compare_exchange, fence_acquire, load_acquire, load_relaxed, new_cell, raise_flag, read_flag,
    store_release, take_flag,
};
use disruptor::wait_strategies::blocking::ring;
use disruptor::wait_strategies::record::{Bell, Ringer, SleepRecord};
use std::sync::atomic::{AtomicBool, Ordering};
use std::sync::Arc;

#[test]
fn a_cell_holds_what_was_stored() {
    let cell = new_cell(-7);
    assert_eq!(-7, load_relaxed(&cell));
    store_release(&cell, 12);
    assert_eq!(12, load_relaxed(&cell));
    fence_acquire();
    assert_eq!(12, load_acquire(&cell));
    assert_eq!(12, cell.load(Ordering::SeqCst));
    assert_eq!(Err(12), compare_exchange(&cell, 11, 13));
    assert_eq!(12, load_acquire(&cell));
    assert_eq!(Ok(12), compare_exchange(&cell, 12, 13));
    assert_eq!(13, load_acquire(&cell));
}

#[test]
fn a_flag_is_taken_once() {
    let flag = AtomicBool::new(false);
    assert!(!take_flag(&flag));
    raise_flag(&flag);
    assert!(read_flag(&flag));
    assert!(take_flag(&flag));
    assert!(!read_flag(&flag));
    assert!(!take_flag(&flag));
}

#[test]
fn ringing_counts() {
    let bell = Arc::new(Bell::new());
    assert!(!SleepRecord::new(Arc::clone(&bell)).has_flag());
    assert!(!bell.signal_needed());
    assert_eq!(0, bell.epoch());
    ring(&mut Ringer::new(&bell));
    assert_eq!(1, bell.epoch());
    ring(&mut Ringer::new(&bell));
    assert_eq!(2, bell.epoch());
}

#[test]
fn a_bell_with_a_flag_rings_only_if_it_is_up() {
    let bell = Arc::new(Bell::with_flag());
    let mut record = SleepRecord::new(Arc::clone(&bell));
    assert!(record.has_flag());
    ring(&mut Ringer::new(&bell));
    assert_eq!(0, bell.epoch());
    record.announce();
    assert!(bell.signal_needed());
    ring(&mut Ringer::new(&bell));
    assert!(!bell.signal_needed());
    assert_eq!(1, bell.epoch());
}
