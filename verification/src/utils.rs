//! Plane geometry on fixed-point points: interpolation, the side of a line
//! on which a point lies, and the crossing of two lines.

use vstd::prelude::*;
use crate::math::{
    Vec2, ONE, clamp_int, div_round, lemma_round_div_ordered, round_div, saturate, saturate_int,
};

verus! {

/// `start * (1 - t) + end * t` for a fixed-point `t`, rounded to the nearest
/// integer.
pub open spec fn lerp_int(start: int, end: int, t: int) -> int {
    round_div(start * (ONE - t) + end * t, ONE as int)
}

/// `lerp_int` saturated to `i32`.
pub open spec fn lerp_spec(start: int, end: int, t: int) -> int {
    saturate_int(lerp_int(start, end, t))
}

/// `lerp_int` saturated to `isize`.
pub open spec fn lerpi_spec(start: int, end: int, t: int) -> int {
    clamp_int(lerp_int(start, end, t), isize::MIN as int, isize::MAX as int)
}

/// Whether `test` lies between `a` and `b`, whichever of them is smaller,
/// both included.
pub open spec fn between_spec(test: int, a: int, b: int) -> bool {
    if a <= b {
        a <= test <= b
    } else {
        b <= test <= a
    }
}

/// Whether `point` lies strictly to the left of the directed line from `a`
/// to `b`: the cross product of `b - a` and `point - a` is positive.
pub open spec fn point_behind_spec(point: Vec2, a: Vec2, b: Vec2) -> bool {
    (b.x - a.x) * (point.y - a.y) - (b.y - a.y) * (point.x - a.x) > 0
}

/// Denominator of the crossing of line `a1 a2` with line `b1 b2`; zero where
/// the lines are parallel or one of them is a single point.
pub open spec fn crossing_divisor(a1: Vec2, a2: Vec2, b1: Vec2, b2: Vec2) -> int {
    (a1.x - a2.x) * (b1.y - b2.y) - (a1.y - a2.y) * (b1.x - b2.x)
}

/// Numerator of the crossing point's abscissa.
pub open spec fn crossing_x(a1: Vec2, a2: Vec2, b1: Vec2, b2: Vec2) -> int {
    a1.perp_dot_spec(a2) * (b1.x - b2.x) - (a1.x - a2.x) * b1.perp_dot_spec(b2)
}

/// Numerator of the crossing point's ordinate.
pub open spec fn crossing_y(a1: Vec2, a2: Vec2, b1: Vec2, b2: Vec2) -> int {
    a1.perp_dot_spec(a2) * (b1.y - b2.y) - (a1.y - a2.y) * b1.perp_dot_spec(b2)
}

/// The point where the segment from `a1` to `a2` meets the line through
/// `b1` and `b2`, rounded to the nearest step: the crossing of the two lines
/// by Cramer's rule, kept where it falls inside the bounding box of the
/// segment. Parallel lines do not cross.
pub open spec fn intersect_spec(a1: Vec2, a2: Vec2, b1: Vec2, b2: Vec2) -> Option<Vec2> {
    let divisor = crossing_divisor(a1, a2, b1, b2);
    let x = round_div(crossing_x(a1, a2, b1, b2), divisor);
    let y = round_div(crossing_y(a1, a2, b1, b2), divisor);
    if divisor != 0 && between_spec(x, a1.x as int, a2.x as int) && between_spec(
        y,
        a1.y as int,
        a2.y as int,
    ) {
        Some(Vec2 { x: x as i32, y: y as i32 })
    } else {
        None
    }
}

proof fn lemma_product_bound(a: int, b: int, la: int, lb: int)
    by (nonlinear_arith)
    requires
        -la <= a <= la,
        -lb <= b <= lb,
    ensures
        -(la * lb) <= a * b <= la * lb,
{
}

/// Between two ends that lie no lower, the point at the same fraction of
/// the way lies no lower; the fraction is one from zero to one.
pub proof fn lemma_lerp_ordered_ends(a1: int, b1: int, a2: int, b2: int, t: int)
    requires
        0 <= t <= ONE,
        a1 <= a2,
        b1 <= b2,
    ensures
        lerp_int(a1, b1, t) <= lerp_int(a2, b2, t),
        lerpi_spec(a1, b1, t) <= lerpi_spec(a2, b2, t),
{
    assert(a1 * (ONE - t) + b1 * t <= a2 * (ONE - t) + b2 * t) by (nonlinear_arith)
        requires
            0 <= t <= ONE,
            a1 <= a2,
            b1 <= b2,
    ;
    lemma_round_div_ordered(a1 * (ONE - t) + b1 * t, a2 * (ONE - t) + b2 * t, ONE as int);
}

/// Towards an end that lies no lower than the start, a larger fraction of
/// the way leads no lower.
pub proof fn lemma_lerp_ordered_fractions(a: int, b: int, t1: int, t2: int)
    requires
        a <= b,
        t1 <= t2,
    ensures
        lerp_int(a, b, t1) <= lerp_int(a, b, t2),
        lerpi_spec(a, b, t1) <= lerpi_spec(a, b, t2),
{
    assert(a * (ONE - t1) + b * t1 <= a * (ONE - t2) + b * t2) by (nonlinear_arith)
        requires
            a <= b,
            t1 <= t2,
    ;
    lemma_round_div_ordered(a * (ONE - t1) + b * t1, a * (ONE - t2) + b * t2, ONE as int);
}

/// Interpolates between two fixed-point numbers.
pub fn lerp(start: i32, end: i32, t: i32) -> (r: i32)
    ensures
        r == lerp_spec(start as int, end as int, t as int),
{
    proof {
        lemma_product_bound(start as int, ONE - t, 0x8000_0000, 0x1_0000_0000);
        lemma_product_bound(end as int, t as int, 0x8000_0000, 0x1_0000_0000);
    }
    let weighted: i128 = start as i128 * (ONE as i128 - t as i128) + end as i128 * t as i128;
    saturate(div_round(weighted, ONE as i128))
}

/// Interpolates between two pixel coordinates.
pub fn lerpi(start: isize, end: isize, t: i32) -> (r: isize)
    ensures
        r == lerpi_spec(start as int, end as int, t as int),
{
    proof {
        lemma_product_bound(start as int, ONE - t, 0x8000_0000_0000_0000, 0x1_0000_0000);
        lemma_product_bound(end as int, t as int, 0x8000_0000_0000_0000, 0x1_0000_0000);
    }
    let weighted: i128 = start as i128 * (ONE as i128 - t as i128) + end as i128 * t as i128;
    let rounded: i128 = div_round(weighted, ONE as i128);
    if rounded < isize::MIN as i128 {
        isize::MIN
    } else if rounded > isize::MAX as i128 {
        isize::MAX
    } else {
        rounded as isize
    }
}

/// Limits `v` to the interval from `lo` to `hi`.
pub fn clamp(v: isize, lo: isize, hi: isize) -> (r: isize)
    ensures
        r == clamp_int(v as int, lo as int, hi as int),
{
    if v < lo {
        lo
    } else if v > hi {
        hi
    } else {
        v
    }
}

/// Tests whether `test` lies between `a` and `b`, in either order.
pub fn between(test: i32, a: i32, b: i32) -> (r: bool)
    ensures
        r == between_spec(test as int, a as int, b as int),
{
    if a <= b {
        a <= test && test <= b
    } else {
        b <= test && test <= a
    }
}

fn between_wide(test: i128, a: i32, b: i32) -> (r: bool)
    ensures
        r == between_spec(test as int, a as int, b as int),
{
    if a <= b {
        a as i128 <= test && test <= b as i128
    } else {
        b as i128 <= test && test <= a as i128
    }
}

/// Tests on which side of the line from `a` to `b` the point lies.
pub fn point_behind(point: Vec2, a: Vec2, b: Vec2) -> (r: bool)
    ensures
        r == point_behind_spec(point, a, b),
{
    let ux: i128 = b.x as i128 - a.x as i128;
    let uy: i128 = b.y as i128 - a.y as i128;
    let vx: i128 = point.x as i128 - a.x as i128;
    let vy: i128 = point.y as i128 - a.y as i128;
    proof {
        lemma_product_bound(ux as int, vy as int, 0x1_0000_0000, 0x1_0000_0000);
        lemma_product_bound(uy as int, vx as int, 0x1_0000_0000, 0x1_0000_0000);
    }
    ux * vy - uy * vx > 0
}

/// Finds where the segment from `a1` to `a2` meets the line through `b1`
/// and `b2`.
pub fn intersect(a1: Vec2, a2: Vec2, b1: Vec2, b2: Vec2) -> (r: Option<Vec2>)
    ensures
        r == intersect_spec(a1, a2, b1, b2),
{
    let a_perp_dot: i128 = a1.perp_dot(a2);
    let b_perp_dot: i128 = b1.perp_dot(b2);
    let adx: i128 = a1.x as i128 - a2.x as i128;
    let ady: i128 = a1.y as i128 - a2.y as i128;
    let bdx: i128 = b1.x as i128 - b2.x as i128;
    let bdy: i128 = b1.y as i128 - b2.y as i128;
    proof {
        lemma_product_bound(a1.x as int, a2.y as int, 0x8000_0000, 0x8000_0000);
        lemma_product_bound(a1.y as int, a2.x as int, 0x8000_0000, 0x8000_0000);
        lemma_product_bound(b1.x as int, b2.y as int, 0x8000_0000, 0x8000_0000);
        lemma_product_bound(b1.y as int, b2.x as int, 0x8000_0000, 0x8000_0000);
        lemma_product_bound(adx as int, bdy as int, 0x1_0000_0000, 0x1_0000_0000);
        lemma_product_bound(ady as int, bdx as int, 0x1_0000_0000, 0x1_0000_0000);
        lemma_product_bound(a_perp_dot as int, bdx as int, 0x8000_0000_0000_0000, 0x1_0000_0000);
        lemma_product_bound(a_perp_dot as int, bdy as int, 0x8000_0000_0000_0000, 0x1_0000_0000);
        lemma_product_bound(adx as int, b_perp_dot as int, 0x1_0000_0000, 0x8000_0000_0000_0000);
        lemma_product_bound(ady as int, b_perp_dot as int, 0x1_0000_0000, 0x8000_0000_0000_0000);
    }
    let divisor: i128 = adx * bdy - ady * bdx;
    if divisor == 0 {
        return None;
    }
    let x: i128 = div_round(a_perp_dot * bdx - adx * b_perp_dot, divisor);
    let y: i128 = div_round(a_perp_dot * bdy - ady * b_perp_dot, divisor);
    if between_wide(x, a1.x, a2.x) && between_wide(y, a1.y, a2.y) {
        Some(Vec2 { x: x as i32, y: y as i32 })
    } else {
        None
    }
}

} // verus!
