use memcopy::ct_memcmp;

#[test]
fn test_ct_memcmp() {
    let a = [1u8, 2, 3, 4];
    let b = [1u8, 2, 3, 4];
    let c = [1u8, 2, 3, 5];

    assert_eq!(ct_memcmp(&a, &b, a.len()), 0);
    assert_ne!(ct_memcmp(&a, &c, a.len()), 0);
}

#[test]
fn test_compare_self_is_zero() {
    let a = [0u8, 255, 17, 42, 0, 9];
    for n in 0..=a.len() {
        assert_eq!(ct_memcmp(&a, &a, n), 0);
    }
    let empty: [u8; 0] = [];
    assert_eq!(ct_memcmp(&empty, &empty, 0), 0);
}

#[test]
fn test_compare_detects_every_position() {
    let a = [7u8, 7, 7, 7, 7, 7, 7, 7];
    for p in 0..a.len() {
        let mut b = a;
        b[p] ^= 0x10;
        assert_ne!(ct_memcmp(&a, &b, a.len()), 0);
    }
}

#[test]
fn test_compare_prefix_only() {
    // bytes beyond the compared length play no part
    let a = [1u8, 2, 3, 4];
    let d = [1u8, 2, 9, 9];
    assert_eq!(ct_memcmp(&a, &d, 2), 0);
    assert_ne!(ct_memcmp(&a, &d, 3), 0);
}

#[test]
fn test_compare_accumulator_value() {
    // the result is the OR of the XOR deltas, not merely nonzero
    let a = [0xF0u8, 0x0F];
    let b = [0xF1u8, 0x0F];
    assert_eq!(ct_memcmp(&a, &b, 2), 0x01);
    let c = [0x00u8, 0xFF];
    let d = [0xFFu8, 0x00];
    assert_eq!(ct_memcmp(&c, &d, 2), 0xFF);
}
