//! Exact linear interpolation over fixed-point property lanes.
//!
//! A property value is a vector of `i64` lanes in fixed-point form (the host
//! picks the scale; a scalar is one lane, a color four). Interpolating at an
//! exact fractional progress keeps both endpoints bit-for-bit: progress `0`
//! returns the begin value unchanged and progress `1` the end value, which is
//! what makes scrubbing a timeline backward a clean un-apply.

use vstd::arithmetic::div_mod::lemma_div_is_ordered;
use vstd::arithmetic::div_mod::lemma_div_multiples_vanish;
use vstd::arithmetic::div_mod::lemma_div_pos_is_pos;
use vstd::arithmetic::mul::lemma_mul_inequality;
use vstd::arithmetic::mul::lemma_mul_is_commutative;
use vstd::arithmetic::mul::lemma_mul_nonnegative;
use vstd::prelude::*;

use crate::ease::Progress;

verus! {

/// Largest magnitude a fixed-point lane may carry. Keeping lanes inside this
/// range lets interpolation run in 128-bit intermediates without overflow.
pub const VALUE_LIMIT: i64 = 0x4000_0000_0000;

/// One lane is inside the representable fixed-point range.
pub open spec fn lane_ok(v: i64) -> bool {
    -VALUE_LIMIT <= v <= VALUE_LIMIT
}

/// Every lane of a property value is inside the representable range.
pub open spec fn lanes_ok(s: Seq<i64>) -> bool {
    forall|i: int| 0 <= i < s.len() ==> lane_ok(#[trigger] s[i])
}

/// Exact interpolation of one lane: `a + (b - a) * p`, with the division
/// rounding the travelled distance toward zero, so the result never leaves
/// the closed interval between `a` and `b`.
pub open spec fn lerp_spec(a: int, b: int, p: Progress) -> int {
    if b >= a {
        a + (b - a) * (p.num as int) / (p.den as int)
    } else {
        a - (a - b) * (p.num as int) / (p.den as int)
    }
}

/// The travelled distance `diff * num / den` is between `0` and `diff`.
proof fn lemma_frac_within(diff: int, p: Progress)
    requires
        0 <= diff,
        p.wf(),
    ensures
        0 <= diff * (p.num as int) / (p.den as int) <= diff,
{
    lemma_mul_nonnegative(diff, p.num as int);
    lemma_div_pos_is_pos(diff * p.num, p.den as int);
    lemma_mul_inequality(p.num as int, p.den as int, diff);
    lemma_mul_is_commutative(diff, p.num as int);
    lemma_mul_is_commutative(diff, p.den as int);
    lemma_div_is_ordered(diff * p.num, diff * p.den, p.den as int);
    lemma_div_multiples_vanish(diff, p.den as int);
}

/// Interpolation at progress `0` sits exactly at `a`, and at progress `1`
/// exactly at `b`: easing and scrubbing can always recover both endpoints.
pub proof fn lemma_lerp_endpoints(a: int, b: int, p: Progress)
    requires
        p.wf(),
    ensures
        p.is_zero() ==> lerp_spec(a, b, p) == a,
        p.is_one() ==> lerp_spec(a, b, p) == b,
{
    if p.is_zero() {
        if b >= a {
            assert((b - a) * (p.num as int) == 0) by (nonlinear_arith)
                requires
                    p.num == 0,
            ;
        } else {
            assert((a - b) * (p.num as int) == 0) by (nonlinear_arith)
                requires
                    p.num == 0,
            ;
        }
        assert(0int / (p.den as int) == 0);
    }
    if p.is_one() {
        if b >= a {
            lemma_mul_is_commutative(b - a, p.den as int);
            lemma_div_multiples_vanish(b - a, p.den as int);
        } else {
            lemma_mul_is_commutative(a - b, p.den as int);
            lemma_div_multiples_vanish(a - b, p.den as int);
        }
    }
}

/// The interpolated lane never leaves the closed interval between `a` and `b`.
pub proof fn lemma_lerp_within(a: int, b: int, p: Progress)
    requires
        p.wf(),
    ensures
        b >= a ==> a <= lerp_spec(a, b, p) <= b,
        b < a ==> b <= lerp_spec(a, b, p) <= a,
{
    if b >= a {
        lemma_frac_within(b - a, p);
    } else {
        lemma_frac_within(a - b, p);
    }
}

/// Interpolate one fixed-point lane at an exact fractional progress.
pub fn lerp_i64(a: i64, b: i64, p: Progress) -> (r: i64)
    requires
        p.wf(),
        lane_ok(a),
        lane_ok(b),
    ensures
        r == lerp_spec(a as int, b as int, p),
        lane_ok(r),
{
    proof {
        lemma_lerp_within(a as int, b as int, p);
    }
    if b >= a {
        let diff: u64 = (b - a) as u64;
        proof {
            lemma_frac_within(diff as int, p);
            assert((diff as int) * (p.num as int) <= u128::MAX) by (nonlinear_arith)
                requires
                    0 <= diff <= 0x8000_0000_0000u64,
                    p.num <= u64::MAX,
            ;
        }
        let travelled: u128 = (diff as u128) * (p.num as u128) / (p.den as u128);
        a + (travelled as i64)
    } else {
        let diff: u64 = (a - b) as u64;
        proof {
            lemma_frac_within(diff as int, p);
            assert((diff as int) * (p.num as int) <= u128::MAX) by (nonlinear_arith)
                requires
                    0 <= diff <= 0x8000_0000_0000u64,
                    p.num <= u64::MAX,
            ;
        }
        let travelled: u128 = (diff as u128) * (p.num as u128) / (p.den as u128);
        a - (travelled as i64)
    }
}

/// Exact lane-wise interpolation of a whole property value.
pub open spec fn lerp_lanes_spec(begin: Seq<i64>, end: Seq<i64>, p: Progress) -> Seq<i64> {
    Seq::new(begin.len(), |i: int| lerp_spec(begin[i] as int, end[i] as int, p) as i64)
}

/// Interpolate every lane of a property value at the same progress.
pub fn lerp_lanes(begin: &Vec<i64>, end: &Vec<i64>, p: Progress) -> (r: Vec<i64>)
    requires
        p.wf(),
        begin@.len() == end@.len(),
        lanes_ok(begin@),
        lanes_ok(end@),
    ensures
        r@ == lerp_lanes_spec(begin@, end@, p),
        lanes_ok(r@),
{
    let mut r: Vec<i64> = Vec::new();
    let n: usize = begin.len();
    for i in 0..n
        invariant
            p.wf(),
            begin@.len() == n,
            end@.len() == n,
            lanes_ok(begin@),
            lanes_ok(end@),
            r@.len() == i,
            forall|j: int| 0 <= j < i ==> r@[j] == lerp_lanes_spec(begin@, end@, p)[j],
            lanes_ok(r@),
    {
        let lane: i64 = lerp_i64(begin[i], end[i], p);
        proof {
            lemma_lerp_within(begin@[i as int] as int, end@[i as int] as int, p);
        }
        r.push(lane);
    }
    proof {
        assert(r@ =~= lerp_lanes_spec(begin@, end@, p));
    }
    r
}

} // verus!
