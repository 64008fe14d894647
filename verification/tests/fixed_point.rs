use diode::fixed::{is_beyond, offset, to_device, to_logical, ONE};

#[test]
fn logical_length_divides_by_scale() {
    assert_eq!(to_logical(200, 2 * ONE), 100 * ONE);
    assert_eq!(to_logical(100, 2 * ONE), 50 * ONE);
    assert_eq!(to_logical(3, ONE + ONE / 2), 2 * ONE);
    assert_eq!(to_logical(0, ONE), 0);
}

#[test]
fn logical_length_rounds_down() {
    assert_eq!(to_logical(1, 3 * ONE), 21845);
    assert_eq!(to_logical(-1, 3 * ONE), -21846);
    assert_eq!(to_logical(-3, 3 * ONE), -ONE);
}

#[test]
fn logical_length_saturates() {
    assert_eq!(to_logical(40000, ONE), i32::MAX);
    assert_eq!(to_logical(-40000, ONE), i32::MIN);
    assert_eq!(to_logical(32767, ONE), 32767 * ONE);
    assert_eq!(to_logical(1, 1), i32::MAX);
}

#[test]
fn scale_that_is_not_positive_saturates_by_sign() {
    assert_eq!(to_logical(5, 0), i32::MAX);
    assert_eq!(to_logical(-5, 0), i32::MIN);
    assert_eq!(to_logical(0, 0), 0);
    assert_eq!(to_logical(5, -ONE), i32::MAX);
}

#[test]
fn device_length_multiplies_by_scale() {
    assert_eq!(to_device(12 * ONE, 2 * ONE), 24 * ONE);
    assert_eq!(to_device(12 * ONE, ONE + ONE / 2), 18 * ONE);
    assert_eq!(to_device(1, ONE / 2), 0);
    assert_eq!(to_device(-1, ONE / 2), -1);
    assert_eq!(to_device(12 * ONE, 0), 0);
    assert_eq!(to_device(12 * ONE, -ONE), 0);
    assert_eq!(to_device(30000 * ONE, 2 * ONE), i32::MAX);
}

#[test]
fn beyond_compares_without_rounding() {
    // 25 device pixels against 12.5 logical pixels at scale 2: equal, so not beyond.
    assert!(!is_beyond(25, 12 * ONE + ONE / 2, 2 * ONE));
    assert!(is_beyond(26, 12 * ONE + ONE / 2, 2 * ONE));
    assert!(!is_beyond(24, 12 * ONE + ONE / 2, 2 * ONE));
    // one part in 2^32 decides
    assert!(is_beyond(1, ONE - 1, ONE));
    assert!(!is_beyond(1, ONE, ONE));
    assert!(is_beyond(1, 100 * ONE, 0));
    assert!(!is_beyond(0, 100 * ONE, 0));
    assert!(!is_beyond(-1, -ONE, ONE));
    assert!(is_beyond(-1, -2 * ONE, ONE));
}

#[test]
fn offset_saturates() {
    assert_eq!(offset(ONE, 2 * ONE), 3 * ONE);
    assert_eq!(offset(i32::MAX, 1), i32::MAX);
    assert_eq!(offset(i32::MIN, -1), i32::MIN);
    assert_eq!(offset(i32::MAX, i32::MIN), -1);
}
