use atomic::registry::{Harness, Registry, TRANSFERRED};

#[test]
fn register_claims_first_free_entry() {
    let mut reg = Registry::new();
    assert_eq!(reg.register(), 0);
    assert_eq!(reg.register(), 1);
    reg.unregister(0);
    assert_eq!(reg.register(), 0);
    assert_eq!(reg.register(), 2);
}

#[test]
fn register_appends_a_segment_when_all_are_claimed() {
    let mut reg = Registry::new();
    for k in 0..32 {
        assert_eq!(reg.register(), k);
    }
    assert_eq!(reg.register(), 32);
}

#[test]
fn allocate_extends_entry_after_six_slots() {
    let mut reg = Registry::new();
    let e = reg.register();
    for k in 0..6 {
        let i = reg.allocate_hazard_slot(e);
        assert_eq!(i, k);
        reg.publish(e, i, 100 + k * 8);
    }
    assert_eq!(reg.allocate_hazard_slot(e), 6);
}

#[test]
fn transfer_marks_the_protecting_slot() {
    let mut reg = Registry::new();
    let e = reg.register();
    let i = reg.allocate_hazard_slot(e);
    reg.publish(e, i, 64);
    assert_eq!(reg.try_transfer_drop_responsibility(72), false);
    assert_eq!(reg.try_transfer_drop_responsibility(64), true);
    // The marked slot stays reserved until its reader releases it.
    assert_eq!(reg.allocate_hazard_slot(e), i + 1);
    assert_eq!(reg.try_transfer_drop_responsibility(64), false);
}

#[test]
fn released_entry_is_claimed_again_empty() {
    let mut reg = Registry::new();
    let e = reg.register();
    let i = reg.allocate_hazard_slot(e);
    reg.publish(e, i, 64);
    assert_eq!(reg.release(64, Some((e, i))), false);
    reg.unregister(e);
    assert_eq!(reg.try_transfer_drop_responsibility(64), false);
    assert_eq!(reg.register(), e);
    assert_eq!(reg.allocate_hazard_slot(e), 0);
}

#[test]
fn writer_release_finalizes_unprotected_handle() {
    let mut reg = Registry::new();
    let _e = reg.register();
    assert_eq!(reg.release(64, None), true);
}

#[test]
fn writer_release_hands_duty_to_reader() {
    let mut reg = Registry::new();
    let e = reg.register();
    let i = reg.allocate_hazard_slot(e);
    reg.publish(e, i, 64);
    // The writer evicted 64 while the reader protects it: the reader takes the duty.
    assert_eq!(reg.release(64, None), false);
    // The reader sees its slot marked and finalizes.
    assert_eq!(reg.release(64, Some((e, i))), true);
    assert_eq!(reg.allocate_hazard_slot(e), i);
}

#[test]
fn reader_release_without_transfer_finalizes_nothing() {
    let mut reg = Registry::new();
    let e = reg.register();
    let i = reg.allocate_hazard_slot(e);
    reg.publish(e, i, 64);
    assert_eq!(reg.release(64, Some((e, i))), false);
    assert_eq!(reg.allocate_hazard_slot(e), i);
}

#[test]
fn reader_passes_duty_to_another_reader() {
    let mut reg = Registry::new();
    let a = reg.register();
    let b = reg.register();
    let ia = reg.allocate_hazard_slot(a);
    reg.publish(a, ia, 64);
    let ib = reg.allocate_hazard_slot(b);
    reg.publish(b, ib, 64);
    assert_eq!(reg.release(64, None), false);
    // The first reader was handed the duty and passes it on to the second.
    assert_eq!(reg.release(64, Some((a, ia))), false);
    assert_eq!(reg.release(64, Some((b, ib))), true);
}

#[test]
fn empty_observation_finalizes_nothing() {
    let mut reg = Registry::new();
    let _e = reg.register();
    assert_eq!(reg.release(0, None), false);
    assert_eq!(reg.release(TRANSFERRED, None), false);
}

#[test]
fn harness_claims_and_releases_an_entry() {
    let mut reg = Registry::new();
    let h = Harness::new(&mut reg);
    let i = h.allocate_hazard_slot(&mut reg);
    assert_eq!(i, 0);
    let h2 = Harness::new(&mut reg);
    h.unregister(&mut reg);
    let h3 = Harness::new(&mut reg);
    assert_eq!(h3.allocate_hazard_slot(&mut reg), 0);
    h2.unregister(&mut reg);
    h3.unregister(&mut reg);
    assert_eq!(reg.register(), 0);
}
