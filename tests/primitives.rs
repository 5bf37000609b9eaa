use std::sync::atomic::{AtomicBool, AtomicUsize, Ordering};
use std::sync::Arc;

use atomic::atomic_arc::swap_held_if_same;
use atomic::atomic_cell::{cas_step, CasStep, Stamped};
use atomic::layout::{atomic_is_lock_free, atomic_word, can_transmute, AtomicWord};
use atomic::lock::{backoff, Backoff};
use atomic::{AtomicArc, AtomicCell, HazardCell};

#[test]
fn scenario_f_lock_free_advertisement() {
    assert!(AtomicCell::<()>::is_lock_free());
    assert!(!AtomicCell::<[u8; 1000]>::is_lock_free());
    assert!(atomic_is_lock_free::<isize>());
}

#[test]
fn dispatch_picks_first_matching_word() {
    assert_eq!(atomic_word::<()>(), Some(AtomicWord::Unit));
    assert_eq!(atomic_word::<u8>(), Some(AtomicWord::Bool));
    assert_eq!(atomic_word::<usize>(), Some(AtomicWord::Usize));
    assert_eq!(atomic_word::<u16>(), Some(AtomicWord::U16));
    assert_eq!(atomic_word::<u32>(), Some(AtomicWord::U32));
    assert_eq!(atomic_word::<[u8; 3]>(), None);
    assert_eq!(atomic_word::<[u8; 1000]>(), None);
}

#[test]
fn can_transmute_checks_size_and_alignment() {
    assert!(can_transmute::<usize, AtomicUsize>());
    assert!(can_transmute::<bool, AtomicBool>());
    assert!(!can_transmute::<[u8; 8], AtomicUsize>());
    assert!(!can_transmute::<u32, AtomicUsize>());
}

#[test]
fn cas_step_retries_only_on_equal_values() {
    assert_eq!(cas_step(true, true), CasStep::Stored);
    assert_eq!(cas_step(true, false), CasStep::Stored);
    assert_eq!(cas_step(false, true), CasStep::Retry);
    assert_eq!(cas_step(false, false), CasStep::Mismatch);
}

#[test]
fn backoff_ladder() {
    assert_eq!(backoff(0), Backoff::Spin);
    assert_eq!(backoff(4), Backoff::Spin);
    assert_eq!(backoff(5), Backoff::Pause);
    assert_eq!(backoff(9), Backoff::Pause);
    assert_eq!(backoff(10), Backoff::Wait);
    assert_eq!(backoff(usize::MAX), Backoff::Wait);
}

#[test]
fn serial_operations_match_a_plain_cell() {
    let mut a = AtomicCell::new(7usize);
    assert_eq!(a.get(), 7);
    a.set(8);
    assert_eq!(a.get(), 8);
    assert_eq!(a.replace(9), 8);
    assert_eq!(a.take(), 9);
    assert_eq!(a.get(), 0);
    assert_eq!(a.update(|x| x + 5), 5);
    assert_eq!(a.compare_and_set(1, 2), false);
    assert_eq!(a.get(), 5);
    assert_eq!(a.compare_and_set(5, 6), true);
    *a.get_mut() += 1;
    assert_eq!(a.into_inner(), 7);
}

#[test]
fn arithmetic_wraps() {
    let a = AtomicCell::new(250u8);
    assert_eq!(a.add(10), 4);
    assert_eq!(a.get(), 4);
    assert_eq!(a.sub(5), 255);
    assert_eq!(a.get(), 255);

    let b = AtomicCell::new(i8::MAX);
    assert_eq!(b.add(1), i8::MIN);
    assert_eq!(b.sub(1), i8::MAX);

    let c = AtomicCell::new(7usize);
    assert_eq!(c.add(3), 10);
    assert_eq!(c.sub(3), 7);
    assert_eq!(c.sub(8), usize::MAX);

    let d = AtomicCell::new(0i64);
    assert_eq!(d.sub(1), -1);
    assert_eq!(AtomicCell::new(u32::MAX).add(2), 1);
    assert_eq!(AtomicCell::new(0u16).sub(1), u16::MAX);
    assert_eq!(AtomicCell::new(5isize).sub(10), -5);
    assert_eq!(AtomicCell::new(u64::MAX).add(1), 0);
    assert_eq!(AtomicCell::new(i16::MIN).sub(1), i16::MAX);
    assert_eq!(AtomicCell::new(i32::MAX).add(1), i32::MIN);
}

#[test]
fn concurrent_adds_are_not_lost() {
    let a = AtomicCell::new(0usize);
    crossbeam::scope(|s| {
        for _ in 0..4 {
            s.spawn(|_| {
                for _ in 0..10_000 {
                    a.add(1);
                }
            });
        }
    })
    .unwrap();
    assert_eq!(a.get(), 40_000);
}

#[test]
fn atomic_arc_get_replace_and_compare_and_set() {
    let cell = AtomicArc::new(Arc::new(1u32));
    let seen = cell.get();
    assert_eq!(seen.as_ref().map(|a| **a), Some(1));

    let evicted = cell.replace(Arc::new(2u32));
    assert_eq!(evicted.clone_inner().map(|a| *a), Some(1));

    // `seen` observed a handle that is no longer in the slot: the new handle comes back.
    let back = cell.compare_and_set(&seen, Arc::new(3u32));
    assert_eq!(back.err().unwrap().map(|a| *a), Some(3));

    let now = cell.get();
    assert!(cell.compare_and_set(&now, None).is_ok());
    assert!(cell.get().as_ref().is_none());

    cell.set(Arc::new(4u32));
    assert_eq!(cell.into_inner().map(|a| *a), Some(4));
}

#[test]
fn atomic_arc_observation_outlives_eviction() {
    let cell = AtomicArc::new(Arc::new(String::from("first")));
    let seen = cell.get();
    cell.set(Arc::new(String::from("second")));
    drop(cell);
    assert_eq!(seen.as_ref().map(|s| s.as_str()), Some("first"));
}

static LIVE: AtomicUsize = AtomicUsize::new(0);

struct Counted(usize);

impl Counted {
    fn new(v: usize) -> Counted {
        LIVE.fetch_add(1, Ordering::SeqCst);
        Counted(v)
    }
}

impl Drop for Counted {
    fn drop(&mut self) {
        LIVE.fetch_sub(1, Ordering::SeqCst);
    }
}

#[test]
fn concurrent_readers_see_live_values() {
    LIVE.store(0, Ordering::SeqCst);
    {
        let cell = AtomicArc::new(Arc::new(Counted::new(0)));
        crossbeam::scope(|s| {
            s.spawn(|_| {
                for k in 1..20_000 {
                    cell.set(Arc::new(Counted::new(k)));
                }
            });
            s.spawn(|_| {
                for _ in 0..20_000 {
                    let seen = cell.get();
                    let v = seen.as_ref().map(|t| t.0).unwrap();
                    assert!(v < 20_000);
                    assert!(LIVE.load(Ordering::SeqCst) >= 1);
                }
            });
        })
        .unwrap();
    }
    assert_eq!(LIVE.load(Ordering::SeqCst), 0);
}

#[test]
fn hazard_cell_get_and_replace() {
    let cell = HazardCell::new(Arc::new(5u8));
    assert_eq!(**cell.get(), 5);
    let old = cell.replace(Arc::new(6u8));
    assert_eq!(**old.as_ref(), 5);
    assert_eq!(*old.into_inner(), 5);
    assert_eq!(*cell.into_inner(), 6);
}

#[test]
fn stamped_steps_bump_the_stamp() {
    let mut s = Stamped { value: 250u8, stamp: 0 };
    assert_eq!(s.add(10), 4);
    assert_eq!((s.value, s.stamp), (4, 1));
    assert_eq!(s.sub(5), 255);
    assert_eq!((s.value, s.stamp), (255, 2));
    assert_eq!(s.replace(7), 255);
    assert_eq!((s.value, s.stamp), (7, 3));
    assert!(!s.store_if_unchanged(2, 9));
    assert_eq!((s.value, s.stamp), (7, 3));
    assert!(s.store_if_unchanged(3, 9));
    assert_eq!((s.value, s.stamp), (9, 4));

    let mut last = Stamped { value: -1i32, stamp: u64::MAX };
    assert_eq!(last.sub(i32::MAX), i32::MIN);
    assert_eq!(last.stamp, 0);
}

#[test]
fn swap_held_if_same_compares_allocations() {
    let a = Arc::new(1u8);
    let b = Arc::new(1u8);
    let mut held = Some(a.clone());
    let back = swap_held_if_same(&mut held, &Some(b.clone()), Some(Arc::new(2u8)));
    assert_eq!(back.err().unwrap().map(|x| *x), Some(2));
    assert!(Arc::ptr_eq(held.as_ref().unwrap(), &a));

    let evicted = swap_held_if_same(&mut held, &Some(a.clone()), None).unwrap();
    assert!(Arc::ptr_eq(evicted.as_ref().unwrap(), &a));
    assert!(held.is_none());

    assert!(swap_held_if_same(&mut held, &None, Some(b.clone())).unwrap().is_none());
    assert!(Arc::ptr_eq(held.as_ref().unwrap(), &b));
}

#[test]
fn update_returns_what_the_function_returned() {
    let a = AtomicCell::new(250u8);
    assert_eq!(a.update(|x| x.wrapping_add(10)), 4);
    assert_eq!(a.get(), 4);
    assert_eq!(a.update(|x| x.wrapping_sub(5)), 255);
    assert_eq!(a.get(), 255);
    assert_eq!(a.update(|_| 7), 7);
    assert_eq!(a.get(), 7);
}
