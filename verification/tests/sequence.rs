use catnip_tcp::seq_num::{precedes, wrapping_add, wrapping_sub};

#[test]
fn comparison_survives_wraparound() {
    // The last sequence number before wrap precedes the first ones after it.
    assert!(precedes(0xFFFF_FFFF, 0x0000_0001));
    assert!(!precedes(0x0000_0001, 0xFFFF_FFFF));
}

#[test]
fn comparison_is_exclusive_within_half_range() {
    assert!(precedes(100, 200));
    assert!(!precedes(200, 100));
    assert!(precedes(0xFFFF_FF00, 0x0000_0100));
    assert!(!precedes(0x0000_0100, 0xFFFF_FF00));
}

#[test]
fn comparison_is_irreflexive() {
    assert!(!precedes(0, 0));
    assert!(!precedes(0xDEAD_BEEF, 0xDEAD_BEEF));
}

#[test]
fn addition_wraps_silently() {
    assert_eq!(wrapping_add(0xFFFF_FFFF, 2), 1);
    assert_eq!(wrapping_add(10, 20), 30);
    assert_eq!(wrapping_add(0xFFFF_FFFF, 1), 0);
}

#[test]
fn subtraction_is_forward_distance() {
    assert_eq!(wrapping_sub(30, 10), 20);
    assert_eq!(wrapping_sub(1, 0xFFFF_FFFF), 2);
    assert_eq!(wrapping_sub(5, 5), 0);
}
