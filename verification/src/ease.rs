//! Normalized progress values and the easing curves applied to them.
//!
//! An action's progress along its own time window is a rational number in
//! `[0, 1]`, kept as an integer fraction so that clamping, easing and
//! interpolation are exact. An easing curve remaps progress inside `[0, 1]`
//! while fixing both endpoints, so easing never moves an action outside its
//! window and never changes where a transition starts or ends.

use vstd::prelude::*;

verus! {

/// Progress of one action along its own time window: the fraction
/// `num / den`, well-formed when it lies in `[0, 1]`.
#[derive(Clone, Copy, PartialEq, Eq, Structural, Debug)]
pub struct Progress {
    pub num: u64,
    pub den: u64,
}

impl Progress {
    /// A well-formed progress value is a fraction in `[0, 1]`.
    pub open spec fn wf(self) -> bool {
        1 <= self.den && self.num <= self.den
    }

    /// The fraction is exactly `0`.
    pub open spec fn is_zero(self) -> bool {
        self.num == 0
    }

    /// The fraction is exactly `1`.
    pub open spec fn is_one(self) -> bool {
        self.num == self.den
    }

    /// `self <= other` as rationals, by cross multiplication.
    pub open spec fn le(self, other: Progress) -> bool {
        self.num * other.den <= other.num * self.den
    }

    /// Progress `0`, the value every degenerate (zero-duration) action snaps to.
    pub fn zero() -> (r: Progress)
        ensures
            r == (Progress { num: 0, den: 1 }),
    {
        Progress { num: 0, den: 1 }
    }
}

/// An easing curve: a monotone map of `[0, 1]` onto itself with `0` and `1`
/// fixed, applied to an action's normalized progress before interpolation.
#[derive(Clone, Copy, PartialEq, Eq, Structural, Debug)]
pub enum EaseKind {
    /// Identity: progress is used unchanged.
    Linear,
    /// Quadratic ease-in: `t * t`, slow start.
    QuadIn,
    /// Quadratic ease-out: `1 - (1 - t)^2 = t * (2 - t)`, slow finish.
    QuadOut,
}

impl EaseKind {
    /// The eased fraction, exactly.
    pub open spec fn ease_spec(self, p: Progress) -> Progress {
        match self {
            EaseKind::Linear => p,
            EaseKind::QuadIn => Progress {
                num: (p.num * p.num) as u64,
                den: (p.den * p.den) as u64,
            },
            EaseKind::QuadOut => Progress {
                num: (p.num * (2 * p.den - p.num)) as u64,
                den: (p.den * p.den) as u64,
            },
        }
    }

    /// Apply this easing curve to a progress value whose denominator is small
    /// enough (an action duration in ticks) that the squared fraction still
    /// fits the integer representation.
    pub fn apply(self, p: Progress) -> (r: Progress)
        requires
            p.wf(),
            p.den <= u32::MAX,
        ensures
            r == self.ease_spec(p),
            r.wf(),
    {
        proof {
            lemma_ease_wf(self, p);
        }
        match self {
            EaseKind::Linear => p,
            EaseKind::QuadIn => {
                assert(p.num * p.num <= p.den * p.den && p.den * p.den <= u64::MAX)
                    by (nonlinear_arith)
                    requires
                        p.num <= p.den,
                        p.den <= u32::MAX,
                ;
                Progress { num: p.num * p.num, den: p.den * p.den }
            },
            EaseKind::QuadOut => {
                assert(p.num * (2 * p.den - p.num) <= p.den * p.den && p.den * p.den <= u64::MAX)
                    by (nonlinear_arith)
                    requires
                        p.num <= p.den,
                        p.den <= u32::MAX,
                ;
                Progress { num: p.num * (2 * p.den - p.num), den: p.den * p.den }
            },
        }
    }
}

/// Every easing curve sends a well-formed fraction to a well-formed fraction.
pub proof fn lemma_ease_wf(e: EaseKind, p: Progress)
    requires
        p.wf(),
        p.den <= u32::MAX,
    ensures
        e.ease_spec(p).wf(),
{
    match e {
        EaseKind::Linear => {},
        EaseKind::QuadIn => {
            assert(p.num * p.num <= p.den * p.den && 1 <= p.den * p.den && p.den * p.den
                <= u64::MAX) by (nonlinear_arith)
                requires
                    1 <= p.den,
                    p.num <= p.den,
                    p.den <= u32::MAX,
            ;
        },
        EaseKind::QuadOut => {
            assert(p.num * (2 * p.den - p.num) <= p.den * p.den && 1 <= p.den * p.den && p.den
                * p.den <= u64::MAX) by (nonlinear_arith)
                requires
                    1 <= p.den,
                    p.num <= p.den,
                    p.den <= u32::MAX,
            ;
        },
    }
}

/// Every easing curve fixes progress `0`: a transition that has not started
/// stays at its begin value no matter which curve is attached to it.
pub proof fn lemma_ease_zero(e: EaseKind, p: Progress)
    requires
        p.wf(),
        p.den <= u32::MAX,
        p.is_zero(),
    ensures
        e.ease_spec(p).is_zero(),
{
}

/// Every easing curve fixes progress `1`: a finished transition rests at its
/// end value no matter which curve is attached to it.
pub proof fn lemma_ease_one(e: EaseKind, p: Progress)
    requires
        p.wf(),
        p.den <= u32::MAX,
        p.is_one(),
    ensures
        e.ease_spec(p).is_one(),
{
    match e {
        EaseKind::Linear => {},
        EaseKind::QuadIn => {},
        EaseKind::QuadOut => {
            assert(p.den * (2 * p.den - p.den) == p.den * p.den) by (nonlinear_arith);
        },
    }
}

/// Every easing curve is monotone on `[0, 1]`: scrubbing a timeline forward
/// never makes any action's eased progress move backward.
pub proof fn lemma_ease_monotone(e: EaseKind, p: Progress, q: Progress)
    requires
        p.wf(),
        q.wf(),
        p.den <= u32::MAX,
        q.den <= u32::MAX,
        p.le(q),
    ensures
        e.ease_spec(p).le(e.ease_spec(q)),
{
    match e {
        EaseKind::Linear => {},
        EaseKind::QuadIn => {
            lemma_ease_wf(e, p);
            lemma_ease_wf(e, q);
            assert(p.num * p.num <= u64::MAX && p.den * p.den <= u64::MAX) by (nonlinear_arith)
                requires
                    p.num <= p.den,
                    p.den <= u32::MAX,
            ;
            assert(q.num * q.num <= u64::MAX && q.den * q.den <= u64::MAX) by (nonlinear_arith)
                requires
                    q.num <= q.den,
                    q.den <= u32::MAX,
            ;
            assert((p.num * p.num) * (q.den * q.den) <= (q.num * q.num) * (p.den * p.den))
                by (nonlinear_arith)
                requires
                    p.num * q.den <= q.num * p.den,
                    0 <= p.num,
                    0 <= q.den,
            ;
        },
        EaseKind::QuadOut => {
            lemma_ease_wf(e, p);
            lemma_ease_wf(e, q);
            assert(p.num * (2 * p.den - p.num) <= u64::MAX && p.den * p.den <= u64::MAX)
                by (nonlinear_arith)
                requires
                    p.num <= p.den,
                    p.den <= u32::MAX,
            ;
            assert(q.num * (2 * q.den - q.num) <= u64::MAX && q.den * q.den <= u64::MAX)
                by (nonlinear_arith)
                requires
                    q.num <= q.den,
                    q.den <= u32::MAX,
            ;
            let u = p.num * q.den;
            let v = q.num * p.den;
            let w = p.den * q.den;
            assert(u <= w && v <= w) by (nonlinear_arith)
                requires
                    p.num <= p.den,
                    q.num <= q.den,
                    0 <= p.den,
                    0 <= q.den,
                    u == p.num * q.den,
                    v == q.num * p.den,
                    w == p.den * q.den,
            ;
            assert((p.num * (2 * p.den - p.num)) * (q.den * q.den) == 2 * w * u - u * u)
                by (nonlinear_arith)
                requires
                    u == p.num * q.den,
                    w == p.den * q.den,
            ;
            assert((q.num * (2 * q.den - q.num)) * (p.den * p.den) == 2 * w * v - v * v)
                by (nonlinear_arith)
                requires
                    v == q.num * p.den,
                    w == p.den * q.den,
            ;
            assert(2 * w * u - u * u <= 2 * w * v - v * v) by (nonlinear_arith)
                requires
                    u <= v,
                    0 <= u,
                    u <= w,
                    v <= w,
            ;
        },
    }
}

} // verus!
