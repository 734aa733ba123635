use memcopy::fault::FaultCounter;
use memcopy::perf::cycle_delta;

#[test]
fn test_fault_counter_lifecycle() {
    let mut counter = FaultCounter::new();
    assert_eq!(counter.read(), 0);
    counter.record();
    counter.record();
    counter.record();
    assert_eq!(counter.read(), 3);
    counter.reset();
    assert_eq!(counter.read(), 0);
    counter.record();
    assert_eq!(counter.read(), 1);
}

#[test]
fn test_cycle_delta_plain() {
    // hot lap 100 cycles, cold lap 250 cycles: the cold call cost 150 more
    assert_eq!(cycle_delta(1000, 1100, 2000, 2250), 150);
    // equal laps cancel
    assert_eq!(cycle_delta(0, 70, 5000, 5070), 0);
}

#[test]
fn test_cycle_delta_counter_wrap() {
    // the timestamp counter wraps between the two readings of the hot lap
    let delta = cycle_delta(u64::MAX, 9, 0, 5);
    // hot lap is 10, cold lap is 5: the difference wraps to 32 bits
    assert_eq!(delta, 0xFFFF_FFFB);
}

#[test]
fn test_cycle_delta_folds_to_32_bits() {
    // laps longer than 32 bits keep only their low half
    let delta = cycle_delta(0, 0x1_0000_0064, 0, 0x2_0000_00C8);
    assert_eq!(delta, 100);
    assert!(cycle_delta(0, u64::MAX, 0, 0) <= 0xFFFF_FFFF);
}
