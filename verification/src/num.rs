//! Exact scalar arithmetic for the conversion pipeline.
//!
//! Every scalar that flows through the geometry pipeline is a rational
//! number `n / d` held as an integer numerator and a positive integer
//! denominator.  Keeping the arithmetic exact (instead of approximate)
//! makes the coordinate mapping deterministic and lets the transform
//! laws hold precisely.  Magnitudes are capped at `LIM` so that every
//! intermediate product fits comfortably in 128-bit arithmetic;
//! operations whose exact result would leave that range report `None`
//! rather than produce a wrong value.

use vstd::prelude::*;

verus! {

/// Magnitude cap for numerators and denominators: 2^62.
pub const LIM: i64 = 0x4000_0000_0000_0000;

/// A scalar as an exact rational: the value `n / d`, with `d > 0`.
#[derive(Clone, Copy, PartialEq, Eq, Structural, Debug)]
pub struct Q {
    pub n: i64,
    pub d: i64,
}

/// `x` lies within the magnitude cap.
pub open spec fn in_lim(x: int) -> bool {
    -(LIM as int) <= x <= LIM as int
}

/// Well-formed scalar: bounded numerator, positive bounded denominator.
pub open spec fn q_wf(q: Q) -> bool {
    0 < q.d <= LIM && in_lim(q.n as int)
}

/// The mathematical value of a scalar, as a numerator/denominator pair
/// of unbounded integers.
pub open spec fn qv(q: Q) -> (int, int) {
    (q.n as int, q.d as int)
}

/// Product of two rationals (componentwise, no reduction).
pub open spec fn rat_mul(a: (int, int), b: (int, int)) -> (int, int) {
    (a.0 * b.0, a.1 * b.1)
}

/// Sum of two rationals over the common denominator.
pub open spec fn rat_add(a: (int, int), b: (int, int)) -> (int, int) {
    (a.0 * b.1 + b.0 * a.1, a.1 * b.1)
}

/// Difference of two rationals over the common denominator.
pub open spec fn rat_sub(a: (int, int), b: (int, int)) -> (int, int) {
    (a.0 * b.1 - b.0 * a.1, a.1 * b.1)
}

/// Equality of rational values by cross-multiplication.
pub open spec fn rat_eq(a: (int, int), b: (int, int)) -> bool {
    a.0 * b.1 == b.0 * a.1
}

/// The pair can be carried by a well-formed `Q`.
pub open spec fn rat_fits(a: (int, int)) -> bool {
    in_lim(a.0) && 0 < a.1 <= LIM as int
}

/// `em / h` as a rational with a positive denominator, for `h.0 != 0`.
pub open spec fn rat_div_int(em: int, h: (int, int)) -> (int, int) {
    if h.0 >= 0 {
        (em * h.1, h.0)
    } else {
        (-(em * h.1), -h.0)
    }
}

/// Round half away from zero: the nearest integer to `n / d`, ties
/// going away from zero.  Requires `d > 0`.
pub open spec fn rhafz(n: int, d: int) -> int
    recommends
        d > 0,
{
    if n >= 0 {
        (2 * n + d) / (2 * d)
    } else {
        -((2 * -n + d) / (2 * d))
    }
}

/// Products of capped integers stay within 2^124.
pub proof fn lemma_mul_lim(x: int, y: int)
    requires
        in_lim(x),
        in_lim(y),
    ensures
        -(LIM as int) * (LIM as int) <= x * y <= (LIM as int) * (LIM as int),
{
    assert(-(LIM as int) * (LIM as int) <= x * y <= (LIM as int) * (LIM as int))
        by (nonlinear_arith)
        requires
            -(LIM as int) <= x <= LIM as int,
            -(LIM as int) <= y <= LIM as int,
    ;
}

/// The product of two positive integers is positive.
pub proof fn lemma_pos_mul(x: int, y: int)
    requires
        x > 0,
        y > 0,
    ensures
        x * y > 0,
{
    assert(x * y > 0) by (nonlinear_arith)
        requires
            x > 0,
            y > 0,
    ;
}

/// Exact product of two scalars; `None` when the result leaves the cap.
pub fn q_mul(a: Q, b: Q) -> (r: Option<Q>)
    requires
        q_wf(a),
        q_wf(b),
    ensures
        r is Some <==> rat_fits(rat_mul(qv(a), qv(b))),
        r matches Some(q) ==> q_wf(q) && qv(q) == rat_mul(qv(a), qv(b)),
{
    proof {
        lemma_mul_lim(a.n as int, b.n as int);
        lemma_mul_lim(a.d as int, b.d as int);
        lemma_pos_mul(a.d as int, b.d as int);
    }
    let nn: i128 = (a.n as i128) * (b.n as i128);
    let dd: i128 = (a.d as i128) * (b.d as i128);
    if nn < -(LIM as i128) || nn > LIM as i128 || dd > LIM as i128 {
        None
    } else {
        Some(Q { n: nn as i64, d: dd as i64 })
    }
}

/// Exact sum of two scalars; `None` when the result leaves the cap.
pub fn q_add(a: Q, b: Q) -> (r: Option<Q>)
    requires
        q_wf(a),
        q_wf(b),
    ensures
        r is Some <==> rat_fits(rat_add(qv(a), qv(b))),
        r matches Some(q) ==> q_wf(q) && qv(q) == rat_add(qv(a), qv(b)),
{
    proof {
        lemma_mul_lim(a.n as int, b.d as int);
        lemma_mul_lim(b.n as int, a.d as int);
        lemma_mul_lim(a.d as int, b.d as int);
        lemma_pos_mul(a.d as int, b.d as int);
    }
    let nn: i128 = (a.n as i128) * (b.d as i128) + (b.n as i128) * (a.d as i128);
    let dd: i128 = (a.d as i128) * (b.d as i128);
    if nn < -(LIM as i128) || nn > LIM as i128 || dd > LIM as i128 {
        None
    } else {
        Some(Q { n: nn as i64, d: dd as i64 })
    }
}

/// Exact difference of two scalars; `None` when the result leaves the cap.
pub fn q_sub(a: Q, b: Q) -> (r: Option<Q>)
    requires
        q_wf(a),
        q_wf(b),
    ensures
        r is Some <==> rat_fits(rat_sub(qv(a), qv(b))),
        r matches Some(q) ==> q_wf(q) && qv(q) == rat_sub(qv(a), qv(b)),
{
    proof {
        lemma_mul_lim(a.n as int, b.d as int);
        lemma_mul_lim(b.n as int, a.d as int);
        lemma_mul_lim(a.d as int, b.d as int);
        lemma_pos_mul(a.d as int, b.d as int);
    }
    let nn: i128 = (a.n as i128) * (b.d as i128) - (b.n as i128) * (a.d as i128);
    let dd: i128 = (a.d as i128) * (b.d as i128);
    if nn < -(LIM as i128) || nn > LIM as i128 || dd > LIM as i128 {
        None
    } else {
        Some(Q { n: nn as i64, d: dd as i64 })
    }
}

/// The quotient `em / h` of an integer by a nonzero scalar; `None`
/// when `h` is zero or the result leaves the cap.
pub fn q_div_int(em: i64, h: Q) -> (r: Option<Q>)
    requires
        in_lim(em as int),
        q_wf(h),
    ensures
        r is Some <==> h.n != 0 && rat_fits(rat_div_int(em as int, qv(h))),
        r matches Some(q) ==> q_wf(q) && qv(q) == rat_div_int(em as int, qv(h)),
{
    proof {
        lemma_mul_lim(em as int, h.d as int);
    }
    if h.n == 0 {
        return None;
    }
    let nn: i128 = (em as i128) * (h.d as i128);
    let (nn, dd): (i128, i128) = if h.n >= 0 {
        (nn, h.n as i128)
    } else {
        (-nn, -(h.n as i128))
    };
    if nn < -(LIM as i128) || nn > LIM as i128 || dd > LIM as i128 {
        None
    } else {
        Some(Q { n: nn as i64, d: dd as i64 })
    }
}

/// An integer as a scalar.
pub fn q_int(x: i64) -> (r: Q)
    requires
        in_lim(x as int),
    ensures
        q_wf(r),
        qv(r) == (x as int, 1int),
{
    Q { n: x, d: 1 }
}

/// Rounding half away from zero never exceeds the numerator's
/// magnitude, since the denominator is at least one.
pub proof fn lemma_rhafz_bound(n: int, d: int)
    requires
        d > 0,
    ensures
        n >= 0 ==> 0 <= rhafz(n, d) <= n,
        n < 0 ==> n <= rhafz(n, d) <= 0,
{
    if n >= 0 {
        assert(0 <= (2 * n + d) / (2 * d) <= n) by (nonlinear_arith)
            requires
                d > 0,
                n >= 0,
        ;
    } else {
        assert(0 <= (2 * -n + d) / (2 * d) <= -n) by (nonlinear_arith)
            requires
                d > 0,
                n < 0,
        ;
    }
}

/// With denominator one, rounding returns the integer itself.
pub proof fn lemma_rhafz_int(n: int)
    ensures
        rhafz(n, 1) == n,
{
    if n >= 0 {
        assert((2 * n + 1) / 2 == n) by (nonlinear_arith);
    } else {
        assert((2 * -n + 1) / 2 == -n) by (nonlinear_arith);
    }
}

/// Round a scalar to the nearest integer, half away from zero.
pub fn q_round(q: Q) -> (r: i64)
    requires
        q_wf(q),
    ensures
        r as int == rhafz(q.n as int, q.d as int),
        in_lim(r as int),
{
    proof {
        lemma_rhafz_bound(q.n as int, q.d as int);
    }
    if q.n >= 0 {
        let m: u128 = q.n as u128;
        let d: u128 = q.d as u128;
        let v: u128 = (2 * m + d) / (2 * d);
        v as i64
    } else {
        let m: u128 = (-(q.n as i128)) as u128;
        let d: u128 = q.d as u128;
        let v: u128 = (2 * m + d) / (2 * d);
        -(v as i64)
    }
}

} // verus!
