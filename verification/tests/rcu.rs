use rcu_sync::rcu::Rcu;

#[test]
fn test_rcu_basic() {
    let mut rcu = Rcu::new(10);

    // read the value
    {
        let guard = rcu.read(0);
        assert_eq!(10, *rcu.get(&guard));
        rcu.release(guard);
    }
    // update the value
    rcu.write(20);

    // read the updated value
    let guard = rcu.read(0);
    assert_eq!(20, *rcu.get(&guard));
    rcu.release(guard);
}

#[test]
fn test_set_and_clear() {
    let mut rcu = Rcu::new(10);
    let record = rcu.read(0);

    let hazards = rcu.get_hazard_pointers();
    assert!(
        !hazards.is_empty(),
        "Hazard pointer registry unexpectedly empty!"
    );

    for &ptr in &hazards {
        let val = *rcu.value_at(ptr);
        println!("Hazard pointer points to: {}", val);
        assert_eq!(val, 10, "Expected pointer value to be 10, but got {}", val);
    }
    // Clear hazard pointer
    rcu.release(record);

    let hazards = rcu.get_hazard_pointers();
    assert!(hazards.is_empty(), "Pointer has not been cleared");

    assert!(
        rcu.hazard_of(0).is_none(),
        "Thread local hazard pointer is not null."
    );
}

#[test]
fn test_retire_and_scan() {
    let mut rcu = Rcu::new(10);
    // read the value and let the guard go at once
    let guard = rcu.read(0);
    rcu.release(guard);
    // write new value to force the old one in the retired list
    rcu.write(20);

    // pointer should be in the retired list now
    assert!(rcu.retired_len() > 0, "Retired list is unexpectedly empty");

    // if no pointer is in hazard list then it should be reclaimed
    rcu.scan_and_reclaim();

    assert!(
        rcu.retired_len() == 0,
        "Pointer has not been reclaimed from the hazard list"
    );
}

#[test]
fn test_one_hazard_per_thread() {
    let mut rcu = Rcu::new(10);
    // reading the value will push a record into the registry
    let value_1 = rcu.read(0);

    assert!(
        rcu.registry_len() == 1,
        "Should contain only one record per thread"
    );

    // second read should update the existing hazard record
    let value_2 = rcu.read(0);

    assert!(
        rcu.registry_len() == 1,
        "Should contain only one record per thread"
    );

    rcu.release(value_1);
    rcu.release(value_2);
}

#[test]
fn test_read_from_different_thread() {
    let mut rcu = Rcu::new(10);
    // a second thread reads the value, should be equal to 10
    let value = rcu.read(1);
    assert_eq!(*rcu.get(&value), 10, "Value should be equal to 10");

    // drop the value so no one is using it anymore
    rcu.release(value);

    // the writer installs the new value
    rcu.write(20);

    // read the value again, should be equal to 20
    let value = rcu.read(1);
    assert_eq!(*rcu.get(&value), 20, "Value should be equal to 20");
    rcu.release(value);

    assert!(
        rcu.retired_len() == 1,
        "Doesnt have exatrly 1 element in retired list"
    );
}

#[test]
fn snapshot_has_one_entry_per_published_slot() {
    let mut rcu = Rcu::new(10);
    let g1 = rcu.read(0);
    // a second read by the same thread re-publishes the same slot
    let g2 = rcu.read(0);
    let g3 = rcu.read(1);
    assert_eq!(rcu.get_hazard_pointers().len(), 2);
    rcu.release(g3);
    assert_eq!(rcu.get_hazard_pointers().len(), 1);
    // releasing either guard of thread 0 clears its one slot
    rcu.release(g1);
    assert_eq!(rcu.get_hazard_pointers().len(), 0);
    rcu.release(g2);
    assert_eq!(rcu.get_hazard_pointers().len(), 0);
}

#[test]
fn read_after_write_visibility() {
    let mut rcu = Rcu::new(5);
    rcu.write(6);
    // with no further writes, any subsequent read observes the new value
    let guard = rcu.read(2);
    assert_eq!(*rcu.get(&guard), 6);
    rcu.release(guard);
}

#[test]
fn hazard_slot_none_before_and_after() {
    let mut rcu = Rcu::new(7);
    assert!(rcu.hazard_of(3).is_none());
    let guard = rcu.read(3);
    assert_eq!(rcu.hazard_of(3), Some(0));
    rcu.release(guard);
    assert!(rcu.hazard_of(3).is_none());
}

#[test]
fn frees_old_and_current_exactly_once() {
    let mut rcu = Rcu::new(10);
    assert_eq!(rcu.live_values(), 1);

    let guard = rcu.read(0);
    assert_eq!(*rcu.get(&guard), 10);
    rcu.release(guard);

    rcu.write(20);
    // the old value is retired but not yet reclaimed: both are live
    assert_eq!(rcu.live_values(), 2);

    let guard = rcu.read(0);
    assert_eq!(*rcu.get(&guard), 20);
    rcu.release(guard);

    // tearing down with no live guards frees the reclaimed old value
    // and the current value exactly once each
    rcu.destroy();
    assert_eq!(rcu.live_values(), 0);
    assert_eq!(rcu.retired_len(), 0);
}

#[test]
fn reclamation_after_guards_released() {
    let mut rcu = Rcu::new(0);
    let guard = rcu.read(0);
    // writes pile up retired addresses while the reader holds on
    for v in 1..=9 {
        rcu.write(v);
    }
    assert_eq!(rcu.retired_len(), 9);
    rcu.release(guard);
    // the next write crosses the threshold; with every guard
    // released, the inline scan reclaims the whole list
    rcu.write(10);
    assert_eq!(rcu.retired_len(), 0);
    assert_eq!(rcu.live_values(), 1);
}

#[test]
fn scan_spares_protected_address() {
    let mut rcu = Rcu::new(0);
    let guard = rcu.read(0);
    // enough writes to cross the retirement threshold and scan
    for v in 1..=11 {
        rcu.write(v);
    }
    // the guarded value survived every scan
    assert_eq!(*rcu.get(&guard), 0);
    assert!(rcu.retired_len() >= 1);
    rcu.release(guard);
}

#[test]
fn drops_equal_writes_plus_one() {
    let mut rcu = Rcu::new(0);
    for v in 1..=25 {
        rcu.write(v);
    }
    // one allocation per write, plus the constructed value
    assert_eq!(rcu.allocations(), 26);
    // with no reader ever publishing, tear-down frees them all:
    // 26 allocated, none live, none freed twice (a freed address is
    // never allocated again)
    rcu.destroy();
    assert_eq!(rcu.live_values(), 0);
    assert_eq!(rcu.retired_len(), 0);
    assert_eq!(rcu.allocations(), 26);
}

#[test]
fn ten_readers_across_one_write() {
    let mut rcu = Rcu::new(1);
    let mut guards = Vec::new();
    // half the readers catch the value before the write...
    for tid in 0..5 {
        guards.push(rcu.read(tid));
    }
    rcu.write(2);
    // ...and half after
    for tid in 5..10 {
        guards.push(rcu.read(tid));
    }
    // every reader dereferences a live value: one of the two written
    for guard in &guards {
        let v = *rcu.get(guard);
        assert!(v == 1 || v == 2);
    }
    for guard in guards {
        rcu.release(guard);
    }
}
