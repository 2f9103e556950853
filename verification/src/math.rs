//! Fixed-point numbers, vectors and affine maps of the plane.
//!
//! A length, a coordinate or a ratio is an `i32` that counts steps of
//! `1 / ONE`. Products and quotients are formed in `i128`, rounded to the
//! nearest step and saturated to the `i32` range, so no operation here can
//! overflow or fail.

use vstd::prelude::*;

verus! {

/// The fixed-point representation of the number one.
pub const ONE: i32 = 0x1_0000;

/// Largest magnitude that `div_round` accepts for either operand.
pub const DIV_LIMIT: i128 = 0x1_0000_0000_0000_0000_0000_0000_0000;

/// Largest magnitude that `fraction` accepts for either operand.
pub const WIDE_LIMIT: i128 = 0x1_0000_0000_0000_0000_0000;

/// `n / d` rounded to the nearest integer, a half rounded away from zero.
/// The value for `d == 0` is zero.
pub open spec fn round_div(n: int, d: int) -> int {
    if d == 0 {
        0
    } else {
        let num = if n < 0 { -n } else { n };
        let den = if d < 0 { -d } else { d };
        let magnitude = (2 * num + den) / (2 * den);
        if (n < 0) != (d < 0) {
            -magnitude
        } else {
            magnitude
        }
    }
}

/// `v` limited to the interval from `lo` to `hi`; `lo` wins where the
/// interval is empty and `v` lies below it.
pub open spec fn clamp_int(v: int, lo: int, hi: int) -> int {
    if v < lo {
        lo
    } else if v > hi {
        hi
    } else {
        v
    }
}

/// `v` limited to the range of `i32`.
pub open spec fn saturate_int(v: int) -> int {
    clamp_int(v, i32::MIN as int, i32::MAX as int)
}

/// The fixed-point quotient `num / den`, saturated; a zero denominator
/// counts as one step.
pub open spec fn fraction_spec(num: int, den: int) -> int {
    saturate_int(round_div(num * ONE, if den == 0 { 1 } else { den }))
}

/// Rounding is symmetric: negating the numerator negates the quotient.
pub proof fn lemma_round_div_neg(n: int, d: int)
    ensures
        round_div(-n, d) == -round_div(n, d),
        round_div(n, -d) == -round_div(n, d),
{
    if n == 0 && d != 0 {
        let den = if d < 0 { -d } else { d };
        vstd::arithmetic::div_mod::lemma_basic_div(den, 2 * den);
    }
}

/// The rounded quotient lies within half a divisor of the exact one.
pub proof fn lemma_round_div_bounds(n: int, d: int)
    requires
        d > 0,
    ensures
        2 * (round_div(n, d) * d) - d <= 2 * n,
        2 * n <= 2 * (round_div(n, d) * d) + d,
{
    let m = if n >= 0 { n } else { -n };
    let q = (2 * m + d) / (2 * d);
    vstd::arithmetic::div_mod::lemma_fundamental_div_mod(2 * m + d, 2 * d);
    vstd::arithmetic::div_mod::lemma_mod_bound(2 * m + d, 2 * d);
    assert((2 * d) * q == 2 * (q * d)) by (nonlinear_arith);
    if n < 0 {
        assert((-q) * d == -(q * d)) by (nonlinear_arith);
    }
}

/// An exact quotient is its own rounding.
pub proof fn lemma_round_div_exact(q: int, d: int)
    requires
        d != 0,
    ensures
        round_div(q * d, d) == q,
{
    let e = if d > 0 { d } else { -d };
    let m = if q >= 0 { q } else { -q };
    assert(m * e >= 0) by (nonlinear_arith)
        requires
            m >= 0,
            e > 0,
    ;
    assert(2 * (m * e) + e == m * (2 * e) + e) by (nonlinear_arith);
    vstd::arithmetic::div_mod::lemma_fundamental_div_mod_converse(
        2 * (m * e) + e,
        2 * e,
        m,
        e,
    );
    assert(q * d == m * e || q * d == -(m * e)) by (nonlinear_arith)
        requires
            (m == q || m == -q),
            (e == d || e == -d),
    ;
    assert((q >= 0) == (d > 0) ==> q * d == m * e) by (nonlinear_arith)
        requires
            m == (if q >= 0 { q } else { -q }),
            e == (if d > 0 { d } else { -d }),
    ;
    assert((q >= 0) != (d > 0) ==> q * d == -(m * e)) by (nonlinear_arith)
        requires
            m == (if q >= 0 { q } else { -q }),
            e == (if d > 0 { d } else { -d }),
    ;
    if m * e == 0 {
        assert(m == 0) by (nonlinear_arith)
            requires
                m * e == 0,
                e > 0,
                m >= 0,
        ;
    }
}

/// Rounding keeps order: a quotient that is at least a whole number rounds
/// to no less, one that is at most a whole number rounds to no more.
pub proof fn lemma_round_div_monotonic(n: int, d: int, k: int)
    requires
        d > 0,
    ensures
        n >= k * d ==> round_div(n, d) >= k,
        n <= k * d ==> round_div(n, d) <= k,
{
    lemma_round_div_bounds(n, d);
    let q = round_div(n, d);
    if n >= k * d && q < k {
        assert(q * d <= (k - 1) * d) by (nonlinear_arith)
            requires
                q <= k - 1,
                d > 0,
        ;
        assert((k - 1) * d == k * d - d) by (nonlinear_arith);
    }
    if n <= k * d && q > k {
        assert(q * d >= (k + 1) * d) by (nonlinear_arith)
            requires
                q >= k + 1,
                d > 0,
        ;
        assert((k + 1) * d == k * d + d) by (nonlinear_arith);
    }
}

/// Rounding keeps order: of two numerators over one positive divisor the
/// larger has no smaller quotient.
pub proof fn lemma_round_div_ordered(n1: int, n2: int, d: int)
    requires
        d > 0,
        n1 <= n2,
    ensures
        round_div(n1, d) <= round_div(n2, d),
{
    let m1 = if n1 < 0 { -n1 } else { n1 };
    let m2 = if n2 < 0 { -n2 } else { n2 };
    vstd::arithmetic::div_mod::lemma_div_pos_is_pos(2 * m1 + d, 2 * d);
    vstd::arithmetic::div_mod::lemma_div_pos_is_pos(2 * m2 + d, 2 * d);
    if n1 >= 0 {
        vstd::arithmetic::div_mod::lemma_div_is_ordered(2 * m1 + d, 2 * m2 + d, 2 * d);
    } else if n2 < 0 {
        vstd::arithmetic::div_mod::lemma_div_is_ordered(2 * m2 + d, 2 * m1 + d, 2 * d);
    }
}

/// A fixed-point quotient keeps the order of its numerators over a positive
/// denominator and reverses it over a negative one.
pub proof fn lemma_fraction_ordered(n1: int, n2: int, d: int)
    requires
        n1 <= n2,
        d != 0,
    ensures
        d > 0 ==> fraction_spec(n1, d) <= fraction_spec(n2, d),
        d < 0 ==> fraction_spec(n1, d) >= fraction_spec(n2, d),
{
    assert(n1 * ONE <= n2 * ONE) by (nonlinear_arith)
        requires
            n1 <= n2,
    ;
    if d > 0 {
        lemma_round_div_ordered(n1 * ONE, n2 * ONE, d);
    } else {
        lemma_round_div_neg(n1 * ONE, -d);
        lemma_round_div_neg(n2 * ONE, -d);
        lemma_round_div_ordered(n1 * ONE, n2 * ONE, -d);
    }
}

/// A part over the whole is a fraction from zero to one.
pub proof fn lemma_fraction_unit(num: int, den: int)
    requires
        0 <= num <= den,
        den > 0,
    ensures
        0 <= fraction_spec(num, den) <= ONE,
{
    assert(num * ONE >= 0 * den && num * ONE <= ONE * den) by (nonlinear_arith)
        requires
            0 <= num <= den,
    ;
    lemma_round_div_monotonic(num * ONE, den, 0);
    lemma_round_div_monotonic(num * ONE, den, ONE as int);
}

/// A factor common to both operands does not change the rounded quotient.
pub proof fn lemma_round_div_scale(n: int, d: int, k: int)
    requires
        k > 0,
    ensures
        round_div(n * k, d * k) == round_div(n, d),
{
    if d == 0 {
        assert(d * k == 0) by (nonlinear_arith)
            requires
                d == 0,
        ;
    } else {
        let m = if n < 0 { -n } else { n };
        let e = if d < 0 { -d } else { d };
        let q = (2 * m + e) / (2 * e);
        let r = (2 * m + e) % (2 * e);
        vstd::arithmetic::div_mod::lemma_fundamental_div_mod(2 * m + e, 2 * e);
        vstd::arithmetic::div_mod::lemma_mod_bound(2 * m + e, 2 * e);
        assert(2 * (m * k) + e * k == q * (2 * (e * k)) + r * k) by (nonlinear_arith)
            requires
                2 * m + e == (2 * e) * q + r,
        ;
        assert(0 <= r * k < 2 * (e * k)) by (nonlinear_arith)
            requires
                0 <= r < 2 * e,
                k > 0,
        ;
        vstd::arithmetic::div_mod::lemma_fundamental_div_mod_converse(
            2 * (m * k) + e * k,
            2 * (e * k),
            q,
            r * k,
        );
        assert((n < 0) == (n * k < 0) && (d < 0) == (d * k < 0) && d * k != 0) by (nonlinear_arith)
            requires
                k > 0,
                d != 0,
        ;
        assert((-n) * k == -(n * k) && (-d) * k == -(d * k)) by (nonlinear_arith);
    }
}

/// Computes `round_div(n, d)`.
pub fn div_round(n: i128, d: i128) -> (q: i128)
    requires
        d != 0,
        -DIV_LIMIT <= n <= DIV_LIMIT,
        -DIV_LIMIT <= d <= DIV_LIMIT,
    ensures
        q == round_div(n as int, d as int),
{
    let negative: bool = (n < 0) != (d < 0);
    let num: i128 = if n < 0 { -n } else { n };
    let den: i128 = if d < 0 { -d } else { d };
    let magnitude: i128 = (2 * num + den) / (2 * den);
    proof {
        vstd::arithmetic::div_mod::lemma_div_pos_is_pos(2 * num + den, 2 * den);
        vstd::arithmetic::div_mod::lemma_div_is_ordered_by_denominator(
            2 * num + den,
            1,
            2 * den,
        );
        vstd::arithmetic::div_mod::lemma_div_basics(2 * num + den);
    }
    if negative {
        -magnitude
    } else {
        magnitude
    }
}

/// Computes `saturate_int(v)`.
pub fn saturate(v: i128) -> (r: i32)
    ensures
        r == saturate_int(v as int),
{
    if v < i32::MIN as i128 {
        i32::MIN
    } else if v > i32::MAX as i128 {
        i32::MAX
    } else {
        v as i32
    }
}

/// The ratio `num / den` as a fixed-point number. A zero denominator is
/// taken as one step, so that a degenerate span divides like the smallest
/// one.
pub fn fraction(num: i128, den: i128) -> (t: i32)
    requires
        -WIDE_LIMIT <= num <= WIDE_LIMIT,
        -WIDE_LIMIT <= den <= WIDE_LIMIT,
    ensures
        t == fraction_spec(num as int, den as int),
{
    let d: i128 = if den == 0 { 1 } else { den };
    assert(num * ONE == num * 0x1_0000);
    saturate(div_round(num * ONE as i128, d))
}

/// A vector or a point of the plane, in fixed-point coordinates.
#[derive(Clone, Copy, Debug, PartialEq, Eq, Structural)]
pub struct Vec2 {
    pub x: i32,
    pub y: i32,
}

/// A vector or a point of space, in fixed-point coordinates.
#[derive(Clone, Copy, Debug, PartialEq, Eq, Structural)]
pub struct Vec3 {
    pub x: i32,
    pub y: i32,
    pub z: i32,
}

impl Vec2 {
    /// The two-dimensional cross product `self.x * rhs.y - self.y * rhs.x`,
    /// in steps of `1 / (ONE * ONE)`.
    pub open spec fn perp_dot_spec(self, rhs: Vec2) -> int {
        self.x * rhs.y - self.y * rhs.x
    }

    /// The vector with the coordinates `x` and `y`.
    pub fn new(x: i32, y: i32) -> (v: Vec2)
        ensures
            v == (Vec2 { x, y }),
    {
        Vec2 { x, y }
    }

    /// Computes the cross product exactly.
    pub fn perp_dot(self, rhs: Vec2) -> (r: i128)
        ensures
            r == self.perp_dot_spec(rhs),
    {
        assert(-0x4000_0000_0000_0000 <= self.x * rhs.y <= 0x4000_0000_0000_0000)
            by (nonlinear_arith)
            requires
                -0x8000_0000 <= self.x <= 0x7fff_ffff,
                -0x8000_0000 <= rhs.y <= 0x7fff_ffff,
        ;
        assert(-0x4000_0000_0000_0000 <= self.y * rhs.x <= 0x4000_0000_0000_0000)
            by (nonlinear_arith)
            requires
                -0x8000_0000 <= self.y <= 0x7fff_ffff,
                -0x8000_0000 <= rhs.x <= 0x7fff_ffff,
        ;
        self.x as i128 * rhs.y as i128 - self.y as i128 * rhs.x as i128
    }
}

impl Vec3 {
    /// The vector with the coordinates `x`, `y` and `z`.
    pub fn new(x: i32, y: i32, z: i32) -> (v: Vec3)
        ensures
            v == (Vec3 { x, y, z }),
    {
        Vec3 { x, y, z }
    }

    /// Drops the third coordinate.
    pub fn truncate(self) -> (v: Vec2)
        ensures
            v == (Vec2 { x: self.x, y: self.y }),
    {
        Vec2 { x: self.x, y: self.y }
    }
}

} // verus!
