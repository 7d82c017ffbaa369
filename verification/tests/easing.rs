//! Easing curves and lane interpolation on exact fractions.

use motiongfx::ease::EaseKind;
use motiongfx::ease::Progress;
use motiongfx::lerp::lerp_i64;

#[test]
fn linear_keeps_progress() {
    let p = Progress { num: 3, den: 7 };
    assert_eq!(EaseKind::Linear.apply(p), p);
}

#[test]
fn quad_in_squares_the_fraction() {
    let p = Progress { num: 1, den: 2 };
    assert_eq!(EaseKind::QuadIn.apply(p), Progress { num: 1, den: 4 });
}

#[test]
fn quad_out_flips_the_square() {
    // 1 - (1 - 1/2)^2 = 3/4
    let p = Progress { num: 1, den: 2 };
    assert_eq!(EaseKind::QuadOut.apply(p), Progress { num: 3, den: 4 });
}

#[test]
fn every_ease_fixes_zero() {
    let p = Progress { num: 0, den: 5 };
    assert_eq!(EaseKind::Linear.apply(p).num, 0);
    assert_eq!(EaseKind::QuadIn.apply(p).num, 0);
    assert_eq!(EaseKind::QuadOut.apply(p).num, 0);
}

#[test]
fn every_ease_fixes_one() {
    let p = Progress { num: 5, den: 5 };
    let linear = EaseKind::Linear.apply(p);
    let quad_in = EaseKind::QuadIn.apply(p);
    let quad_out = EaseKind::QuadOut.apply(p);
    assert_eq!(linear.num, linear.den);
    assert_eq!(quad_in.num, quad_in.den);
    assert_eq!(quad_out.num, quad_out.den);
}

#[test]
fn lerp_midpoint_is_exact() {
    assert_eq!(lerp_i64(0, 10_000, Progress { num: 1, den: 2 }), 5_000);
}

#[test]
fn lerp_endpoints_are_bit_exact() {
    assert_eq!(lerp_i64(10, 100, Progress { num: 0, den: 7 }), 10);
    assert_eq!(lerp_i64(10, 100, Progress { num: 7, den: 7 }), 100);
    assert_eq!(lerp_i64(100, 10, Progress { num: 0, den: 3 }), 100);
    assert_eq!(lerp_i64(100, 10, Progress { num: 3, den: 3 }), 10);
}

#[test]
fn lerp_runs_backward_too() {
    assert_eq!(lerp_i64(100, 10, Progress { num: 1, den: 2 }), 55);
}

#[test]
fn lerp_rounds_toward_the_start() {
    // 0 + 10 * 1/3 rounds down to 3.
    assert_eq!(lerp_i64(0, 10, Progress { num: 1, den: 3 }), 3);
    // 10 - 10 * 1/3 rounds toward 10, giving 7.
    assert_eq!(lerp_i64(10, 0, Progress { num: 1, den: 3 }), 7);
}

#[test]
fn lerp_handles_negative_lanes() {
    assert_eq!(lerp_i64(-1_000, 1_000, Progress { num: 1, den: 2 }), 0);
    assert_eq!(lerp_i64(-1_000, 1_000, Progress { num: 1, den: 4 }), -500);
}
