use memcopy::arch::check_address_bounds;
use memcopy::arch::data_sandboxing;
use memcopy::arch::sanitize_data;
use memcopy::arch::validate_alignment;
use memcopy::arch::SANDBOX_MEMORY_LIMIT;

#[test]
fn test_address_bounds() {
    assert!(check_address_bounds(0, 1024));
    assert!(!check_address_bounds(SANDBOX_MEMORY_LIMIT - 10, 100));
}

#[test]
fn test_alignment() {
    assert!(validate_alignment(64));
    assert!(validate_alignment(128));
    assert!(!validate_alignment(63));
}

#[test]
fn test_data_sanitization() {
    assert_eq!(sanitize_data(0xFFFF_FFFF_FFFF_FFFF), 0x0000_FFFF_FFFF_FFFF);
    assert_eq!(sanitize_data(0x0000_1234_5678_9ABC), 0x0000_1234_5678_9ABC);
}

#[test]
fn test_bounds_no_overflow_wraparound() {
    // an end address that would wrap must be rejected, not silently accepted
    assert!(!check_address_bounds(usize::MAX, 1));
    assert!(!check_address_bounds(usize::MAX - 1, 2));
}

#[test]
fn test_bounds_full_region() {
    assert!(check_address_bounds(0, SANDBOX_MEMORY_LIMIT));
    assert!(!check_address_bounds(1, SANDBOX_MEMORY_LIMIT));
    assert!(check_address_bounds(SANDBOX_MEMORY_LIMIT, 0));
}

#[test]
fn test_alignment_gate() {
    assert!(validate_alignment(0));
    assert!(!validate_alignment(65));
}

#[test]
fn test_data_sandboxing_ok() {
    assert_eq!(data_sandboxing(0, 1024, 0xFFFF_0000_0000_0001), Ok(0x0000_0000_0000_0001));
    assert_eq!(data_sandboxing(64, 64, 0x0000_1234_5678_9ABC), Ok(0x0000_1234_5678_9ABC));
}

#[test]
fn test_data_sandboxing_bounds_violation() {
    assert_eq!(
        data_sandboxing(SANDBOX_MEMORY_LIMIT - 10, 100, 7),
        Err("Memory access out of sandbox bounds")
    );
    assert_eq!(data_sandboxing(usize::MAX, 1, 7), Err("Memory access out of sandbox bounds"));
}

#[test]
fn test_data_sandboxing_alignment_violation() {
    assert_eq!(data_sandboxing(63, 1, 7), Err("Memory address not properly aligned"));
}
