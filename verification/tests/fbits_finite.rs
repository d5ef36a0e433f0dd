//! The bit-level finiteness test agrees with the hardware's own notion of
//! finiteness.

use gesture_ingest::fbits::R32;

fn check(x: f32) {
    assert_eq!(R32 { bits: x.to_bits() }.is_finite(), x.is_finite());
}

#[test]
fn finite_bits_agree_with_hardware() {
    check(0.0);
    check(-0.0);
    check(0.5);
    check(-123.75);
    check(f32::MAX);
    check(f32::MIN);
    check(f32::MIN_POSITIVE);
    check(f32::EPSILON);
    check(1e-42);
    check(f32::INFINITY);
    check(f32::NEG_INFINITY);
    check(f32::NAN);
    check(-f32::NAN);
}

#[test]
fn exponent_boundary_patterns() {
    // Largest finite pattern and smallest infinite pattern.
    assert!(R32 { bits: 0x7f7f_ffff }.is_finite());
    assert!(!R32 { bits: 0x7f80_0000 }.is_finite());
    // A quiet NaN pattern.
    assert!(!R32 { bits: 0x7fc0_0000 }.is_finite());
}
