//! Clipping of a wall against the view frustum.
//!
//! In coordinates relative to the camera the y-axis points where the camera
//! looks and is the depth of a point. The horizontal field of view is a
//! right angle, so the sides of the frustum are the diagonals `x = -y` and
//! `x = y`; its back is the line `y = NEAR`.

use vstd::prelude::*;
use crate::math::{
    Vec2, lemma_round_div_monotonic, lemma_round_div_neg, lemma_round_div_scale, round_div,
};
use crate::model::Position2;
use crate::utils::{
    between_spec, crossing_divisor, crossing_x, crossing_y, intersect, intersect_spec,
    point_behind, point_behind_spec,
};

verus! {

/// Depth of the near plane: a tenth of a world unit.
pub const NEAR: i32 = 6554;

/// Depth of the far plane: fifty world units.
pub const FAR: i32 = 3276800;

/// Half the width of the frustum at the near plane.
pub const X_NEAR: i32 = NEAR;

/// Half the width of the frustum at the far plane.
pub const X_FAR: i32 = FAR;

/// A boundary line of the frustum.
#[derive(Clone, Copy, Debug, PartialEq, Eq, Structural)]
pub enum Boundary {
    Left,
    Right,
    Back,
}

impl Boundary {
    /// The point from which the boundary line is directed. What lies
    /// outside the frustum lies to the left of each line.
    pub open spec fn first_spec(self) -> Vec2 {
        match self {
            Boundary::Left => Vec2 { x: (-X_NEAR) as i32, y: NEAR },
            Boundary::Right => Vec2 { x: X_FAR, y: FAR },
            Boundary::Back => Vec2 { x: X_NEAR, y: NEAR },
        }
    }

    /// The point towards which the boundary line is directed.
    pub open spec fn second_spec(self) -> Vec2 {
        match self {
            Boundary::Left => Vec2 { x: (-X_FAR) as i32, y: FAR },
            Boundary::Right => Vec2 { x: X_NEAR, y: NEAR },
            Boundary::Back => Vec2 { x: (-X_NEAR) as i32, y: NEAR },
        }
    }

    /// Whether `p` lies outside the frustum as far as this boundary goes.
    pub open spec fn outside(self, p: Vec2) -> bool {
        point_behind_spec(p, self.first_spec(), self.second_spec())
    }

    /// Where the segment from `a1` to `a2` meets the boundary line.
    pub open spec fn crossing(self, a1: Vec2, a2: Vec2) -> Option<Vec2> {
        intersect_spec(a1, a2, self.first_spec(), self.second_spec())
    }

    /// The point from which the boundary line is directed.
    pub fn first(self) -> (p: Vec2)
        ensures
            p == self.first_spec(),
    {
        match self {
            Boundary::Left => Vec2 { x: -X_NEAR, y: NEAR },
            Boundary::Right => Vec2 { x: X_FAR, y: FAR },
            Boundary::Back => Vec2 { x: X_NEAR, y: NEAR },
        }
    }

    /// The point towards which the boundary line is directed.
    pub fn second(self) -> (p: Vec2)
        ensures
            p == self.second_spec(),
    {
        match self {
            Boundary::Left => Vec2 { x: -X_FAR, y: FAR },
            Boundary::Right => Vec2 { x: X_NEAR, y: NEAR },
            Boundary::Back => Vec2 { x: -X_NEAR, y: NEAR },
        }
    }
}

/// The segment with the end that lies outside `boundary` moved to `point`:
/// the left end if that one is outside, else the right end.
pub open spec fn replace_outside(left: Vec2, right: Vec2, boundary: Boundary, point: Vec2) -> (
    Vec2,
    Vec2,
) {
    if boundary.outside(left) {
        (point, right)
    } else {
        (left, point)
    }
}

/// The segment cut at the left side of the frustum: where it meets the left
/// line beyond the near plane's left end, the end outside moves there.
pub open spec fn clip_left(left: Vec2, right: Vec2) -> (Vec2, Vec2) {
    match Boundary::Left.crossing(left, right) {
        Some(point) => if point.x < -X_NEAR {
            replace_outside(left, right, Boundary::Left, point)
        } else {
            (left, right)
        },
        None => (left, right),
    }
}

/// The segment cut at the right side of the frustum, as `clip_left` cuts it
/// at the left.
pub open spec fn clip_right(left: Vec2, right: Vec2) -> (Vec2, Vec2) {
    match Boundary::Right.crossing(left, right) {
        Some(point) => if point.x > X_NEAR {
            replace_outside(left, right, Boundary::Right, point)
        } else {
            (left, right)
        },
        None => (left, right),
    }
}

/// The segment cut at the near plane, if one of its ends is nearer.
pub open spec fn clip_back(left: Vec2, right: Vec2) -> (Vec2, Vec2) {
    if left.y < NEAR || right.y < NEAR {
        match Boundary::Back.crossing(left, right) {
            Some(point) => replace_outside(left, right, Boundary::Back, point),
            None => (left, right),
        }
    } else {
        (left, right)
    }
}

/// The segment after the three cuts, in the order left, right, back.
pub open spec fn clipped(left: Vec2, right: Vec2) -> (Vec2, Vec2) {
    let by_left = clip_left(left, right);
    let by_right = clip_right(by_left.0, by_left.1);
    clip_back(by_right.0, by_right.1)
}

/// Whether a point lies outside the left or the right side of the frustum.
pub open spec fn outside_sides(p: Vec2) -> bool {
    Boundary::Left.outside(p) || Boundary::Right.outside(p)
}

/// The part of a wall that the frustum shows. A wall with both ends nearer
/// than the near plane shows nothing; nor does one of which an end, after
/// the cuts, still lies outside the left or the right side.
pub open spec fn clip_wall_spec(view_left: Position2, view_right: Position2) -> Option<
    (Position2, Position2),
> {
    let ends = clipped(view_left.0, view_right.0);
    if view_left.0.y < NEAR && view_right.0.y < NEAR {
        None
    } else if outside_sides(ends.0) || outside_sides(ends.1) {
        None
    } else {
        Some((Position2(ends.0), Position2(ends.1)))
    }
}

/// Whether a point lies in the frustum: not nearer than the near plane and
/// between the two sides or on one of them.
pub open spec fn in_frustum(p: Vec2) -> bool {
    p.y >= NEAR && -p.y <= p.x <= p.y
}

/// Whether a point lies strictly between the two sides of the frustum and
/// not nearer than the near plane.
pub open spec fn inside_frustum(p: Vec2) -> bool {
    p.y >= NEAR && -p.y < p.x < p.y
}

/// A diagonal through the origin is not met between two points that lie
/// strictly on one side of it. In coordinates `(x, y)` the diagonal is
/// `x + y = 0`; the rounded crossing of the line through the two points
/// with it is `(-g, g)`, and it falls outside their bounding box.
proof fn lemma_crossing_misses(x1: int, y1: int, x2: int, y2: int)
    requires
        x1 + y1 > 0,
        x2 + y2 > 0,
    ensures
        ({
            let e = (x1 + y1) - (x2 + y2);
            let g = round_div(x1 * y2 - y1 * x2, e);
            e != 0 ==> !(between_spec(-g, x1, x2) && between_spec(g, y1, y2))
        }),
{
    let e = (x1 + y1) - (x2 + y2);
    let a = x1 * y2 - y1 * x2;
    let g = round_div(a, e);
    if e != 0 && between_spec(-g, x1, x2) && between_spec(g, y1, y2) {
        // the crossing as a quotient with a positive divisor
        let d = if e > 0 { e } else { -e };
        let n = if e > 0 { a } else { -a };
        lemma_round_div_neg(a, e);
        lemma_round_div_neg(-a, e);
        assert(g == round_div(n, d));
        lemma_round_div_neg(n, d);
        assert(-g == round_div(-n, d));
        // how far the exact crossing lies from each point
        assert(a - y2 * e == (y2 - y1) * (x2 + y2)) by (nonlinear_arith)
            requires
                e == (x1 + y1) - (x2 + y2),
                a == x1 * y2 - y1 * x2,
        ;
        assert(a - y1 * e == (y2 - y1) * (x1 + y1)) by (nonlinear_arith)
            requires
                e == (x1 + y1) - (x2 + y2),
                a == x1 * y2 - y1 * x2,
        ;
        assert(-a - x2 * e == (x2 - x1) * (x2 + y2)) by (nonlinear_arith)
            requires
                e == (x1 + y1) - (x2 + y2),
                a == x1 * y2 - y1 * x2,
        ;
        assert(-a - x1 * e == (x2 - x1) * (x1 + y1)) by (nonlinear_arith)
            requires
                e == (x1 + y1) - (x2 + y2),
                a == x1 * y2 - y1 * x2,
        ;
        assert(x1 * d == (if e > 0 { x1 * e } else { -(x1 * e) }) && x2 * d == (if e > 0 {
            x2 * e
        } else {
            -(x2 * e)
        }) && y1 * d == (if e > 0 { y1 * e } else { -(y1 * e) }) && y2 * d == (if e > 0 {
            y2 * e
        } else {
            -(y2 * e)
        })) by (nonlinear_arith)
            requires
                d == (if e > 0 { e } else { -e }),
        ;
        if x1 < x2 && y1 > y2 {
            if e > 0 {
                assert((x2 - x1) * (x2 + y2) >= 0) by (nonlinear_arith)
                    requires
                        x2 - x1 > 0,
                        x2 + y2 > 0,
                ;
                assert(-n >= x2 * d);
                lemma_round_div_monotonic(-n, d, x2);
                assert(-g == x2);
            } else {
                assert((y2 - y1) * (x1 + y1) <= 0) by (nonlinear_arith)
                    requires
                        y2 - y1 < 0,
                        x1 + y1 > 0,
                ;
                assert(n >= y1 * d);
                lemma_round_div_monotonic(n, d, y1);
                assert(g == y1);
            }
            assert(false);
        } else if x1 > x2 && y1 < y2 {
            if e > 0 {
                assert((y2 - y1) * (x2 + y2) >= 0) by (nonlinear_arith)
                    requires
                        y2 - y1 > 0,
                        x2 + y2 > 0,
                ;
                assert(n >= y2 * d);
                lemma_round_div_monotonic(n, d, y2);
                assert(g == y2);
            } else {
                assert((x2 - x1) * (x1 + y1) <= 0) by (nonlinear_arith)
                    requires
                        x2 - x1 < 0,
                        x1 + y1 > 0,
                ;
                assert(-n >= x1 * d);
                lemma_round_div_monotonic(-n, d, x1);
                assert(-g == x1);
            }
            assert(false);
        } else {
            assert(false);
        }
    }
}

/// A segment with both ends strictly on the inner side of the left line
/// does not meet it.
proof fn lemma_no_left_crossing(a1: Vec2, a2: Vec2)
    requires
        a1.x + a1.y > 0,
        a2.x + a2.y > 0,
    ensures
        Boundary::Left.crossing(a1, a2).is_none(),
{
    let b1 = Boundary::Left.first_spec();
    let b2 = Boundary::Left.second_spec();
    let k = (FAR - NEAR) as int;
    let a = a1.perp_dot_spec(a2);
    let e = (a1.x + a1.y) - (a2.x + a2.y);
    assert(b1.perp_dot_spec(b2) == 0) by (nonlinear_arith)
        requires
            b1.perp_dot_spec(b2) == b1.x * b2.y - b1.y * b2.x,
            b1.x == -b1.y,
            b2.x == -b2.y,
    ;
    assert(crossing_divisor(a1, a2, b1, b2) == (-e) * k) by (nonlinear_arith)
        requires
            crossing_divisor(a1, a2, b1, b2) == (a1.x - a2.x) * (b1.y - b2.y) - (a1.y - a2.y) * (
            b1.x - b2.x),
            b1.y - b2.y == -k,
            b1.x - b2.x == k,
            e == (a1.x + a1.y) - (a2.x + a2.y),
    ;
    assert(crossing_x(a1, a2, b1, b2) == a * k && crossing_y(a1, a2, b1, b2) == (-a) * k)
        by (nonlinear_arith)
        requires
            crossing_x(a1, a2, b1, b2) == a * (b1.x - b2.x) - (a1.x - a2.x) * b1.perp_dot_spec(b2),
            crossing_y(a1, a2, b1, b2) == a * (b1.y - b2.y) - (a1.y - a2.y) * b1.perp_dot_spec(b2),
            b1.perp_dot_spec(b2) == 0,
            b1.y - b2.y == -k,
            b1.x - b2.x == k,
    ;
    lemma_round_div_scale(a, -e, k);
    lemma_round_div_scale(-a, -e, k);
    lemma_round_div_neg(a, e);
    lemma_round_div_neg(-a, e);
    lemma_crossing_misses(a1.x as int, a1.y as int, a2.x as int, a2.y as int);
    assert(e == 0 ==> (-e) * k == 0) by (nonlinear_arith);
    assert(e != 0 ==> (-e) * k != 0) by (nonlinear_arith)
        requires
            k > 0,
    ;
}

/// A segment with both ends strictly on the inner side of the right line
/// does not meet it.
proof fn lemma_no_right_crossing(a1: Vec2, a2: Vec2)
    requires
        a1.y - a1.x > 0,
        a2.y - a2.x > 0,
    ensures
        Boundary::Right.crossing(a1, a2).is_none(),
{
    let b1 = Boundary::Right.first_spec();
    let b2 = Boundary::Right.second_spec();
    let k = (FAR - NEAR) as int;
    let a = a1.perp_dot_spec(a2);
    // mirrored, the right line is the diagonal of `lemma_crossing_misses`
    let e = (a1.y - a1.x) - (a2.y - a2.x);
    assert(b1.perp_dot_spec(b2) == 0) by (nonlinear_arith)
        requires
            b1.perp_dot_spec(b2) == b1.x * b2.y - b1.y * b2.x,
            b1.x == b1.y,
            b2.x == b2.y,
    ;
    assert(crossing_divisor(a1, a2, b1, b2) == (-e) * k) by (nonlinear_arith)
        requires
            crossing_divisor(a1, a2, b1, b2) == (a1.x - a2.x) * (b1.y - b2.y) - (a1.y - a2.y) * (
            b1.x - b2.x),
            b1.y - b2.y == k,
            b1.x - b2.x == k,
            e == (a1.y - a1.x) - (a2.y - a2.x),
    ;
    assert(crossing_x(a1, a2, b1, b2) == a * k && crossing_y(a1, a2, b1, b2) == a * k)
        by (nonlinear_arith)
        requires
            crossing_x(a1, a2, b1, b2) == a * (b1.x - b2.x) - (a1.x - a2.x) * b1.perp_dot_spec(b2),
            crossing_y(a1, a2, b1, b2) == a * (b1.y - b2.y) - (a1.y - a2.y) * b1.perp_dot_spec(b2),
            b1.perp_dot_spec(b2) == 0,
            b1.y - b2.y == k,
            b1.x - b2.x == k,
    ;
    lemma_round_div_scale(a, -e, k);
    lemma_round_div_neg(a, e);
    lemma_round_div_neg(-a, e);
    assert((-a1.x) * a2.y - a1.y * (-a2.x) == -a) by (nonlinear_arith)
        requires
            a == a1.x * a2.y - a1.y * a2.x,
    ;
    lemma_crossing_misses(-a1.x, a1.y as int, -a2.x, a2.y as int);
    assert(e == 0 ==> (-e) * k == 0) by (nonlinear_arith);
    assert(e != 0 ==> (-e) * k != 0) by (nonlinear_arith)
        requires
            k > 0,
    ;
}

/// Where a segment meets a side of the frustum, the rounded crossing lies
/// on the diagonal itself: rounding is symmetric.
proof fn lemma_side_crossing_on_diagonal(a1: Vec2, a2: Vec2)
    ensures
        Boundary::Left.crossing(a1, a2) matches Some(p) ==> p.y == -p.x,
        Boundary::Right.crossing(a1, a2) matches Some(p) ==> p.y == p.x,
{
    let k = (FAR - NEAR) as int;
    let a = a1.perp_dot_spec(a2);
    {
        let b1 = Boundary::Left.first_spec();
        let b2 = Boundary::Left.second_spec();
        assert(b1.perp_dot_spec(b2) == 0) by (nonlinear_arith)
            requires
                b1.perp_dot_spec(b2) == b1.x * b2.y - b1.y * b2.x,
                b1.x == -b1.y,
                b2.x == -b2.y,
        ;
        assert(crossing_x(a1, a2, b1, b2) == -crossing_y(a1, a2, b1, b2)) by (nonlinear_arith)
            requires
                crossing_x(a1, a2, b1, b2) == a * (b1.x - b2.x) - (a1.x - a2.x) * b1.perp_dot_spec(
                    b2,
                ),
                crossing_y(a1, a2, b1, b2) == a * (b1.y - b2.y) - (a1.y - a2.y) * b1.perp_dot_spec(
                    b2,
                ),
                b1.perp_dot_spec(b2) == 0,
                b1.y - b2.y == -k,
                b1.x - b2.x == k,
        ;
        lemma_round_div_neg(crossing_y(a1, a2, b1, b2), crossing_divisor(a1, a2, b1, b2));
    }
    {
        let b1 = Boundary::Right.first_spec();
        let b2 = Boundary::Right.second_spec();
        assert(b1.perp_dot_spec(b2) == 0) by (nonlinear_arith)
            requires
                b1.perp_dot_spec(b2) == b1.x * b2.y - b1.y * b2.x,
                b1.x == b1.y,
                b2.x == b2.y,
        ;
        assert(crossing_x(a1, a2, b1, b2) == crossing_y(a1, a2, b1, b2)) by (nonlinear_arith)
            requires
                crossing_x(a1, a2, b1, b2) == a * (b1.x - b2.x) - (a1.x - a2.x) * b1.perp_dot_spec(
                    b2,
                ),
                crossing_y(a1, a2, b1, b2) == a * (b1.y - b2.y) - (a1.y - a2.y) * b1.perp_dot_spec(
                    b2,
                ),
                b1.perp_dot_spec(b2) == 0,
                b1.y - b2.y == k,
                b1.x - b2.x == k,
        ;
    }
}

/// A segment with one end nearer than the near plane and one not nearer
/// meets the near plane, and the rounded crossing lies at its depth.
proof fn lemma_back_crossing(a1: Vec2, a2: Vec2)
    requires
        (a1.y < NEAR) != (a2.y < NEAR),
    ensures
        Boundary::Back.crossing(a1, a2) matches Some(p) && p.y == NEAR,
{
    let b1 = Boundary::Back.first_spec();
    let b2 = Boundary::Back.second_spec();
    let n = NEAR as int;
    let w = 2 * n;
    let a = a1.perp_dot_spec(a2);
    let dx = a1.x - a2.x;
    let dy = a1.y - a2.y;
    let divisor = crossing_divisor(a1, a2, b1, b2);
    assert(b1.perp_dot_spec(b2) == w * n) by (nonlinear_arith)
        requires
            b1.perp_dot_spec(b2) == b1.x * b2.y - b1.y * b2.x,
            b1.x == n,
            b1.y == n,
            b2.x == -n,
            b2.y == n,
            w == 2 * n,
    ;
    assert(divisor == (-dy) * w) by (nonlinear_arith)
        requires
            divisor == (a1.x - a2.x) * (b1.y - b2.y) - (a1.y - a2.y) * (b1.x - b2.x),
            b1.y - b2.y == 0,
            b1.x - b2.x == w,
            dy == a1.y - a2.y,
    ;
    assert(crossing_y(a1, a2, b1, b2) == n * divisor) by (nonlinear_arith)
        requires
            crossing_y(a1, a2, b1, b2) == a * (b1.y - b2.y) - (a1.y - a2.y) * b1.perp_dot_spec(b2),
            b1.perp_dot_spec(b2) == w * n,
            b1.y - b2.y == 0,
            divisor == (-dy) * w,
            dy == a1.y - a2.y,
    ;
    assert(crossing_x(a1, a2, b1, b2) == (a - n * dx) * w) by (nonlinear_arith)
        requires
            crossing_x(a1, a2, b1, b2) == a * (b1.x - b2.x) - (a1.x - a2.x) * b1.perp_dot_spec(b2),
            b1.perp_dot_spec(b2) == w * n,
            b1.x - b2.x == w,
            dx == a1.x - a2.x,
    ;
    assert(divisor != 0) by (nonlinear_arith)
        requires
            divisor == (-dy) * w,
            dy != 0,
            w > 0,
    ;
    crate::math::lemma_round_div_exact(n, divisor);
    lemma_round_div_scale(a - n * dx, -dy, w);
    // the abscissa of the crossing, as a quotient with a positive divisor
    let x = round_div(a - n * dx, -dy);
    let num = if dy < 0 { a - n * dx } else { -(a - n * dx) };
    let den = if dy < 0 { -dy } else { dy };
    lemma_round_div_neg(a - n * dx, -dy);
    lemma_round_div_neg(-(a - n * dx), -dy);
    assert(x == round_div(num, den));
    // how far the exact crossing lies from each end
    assert(a - n * dx + a1.x * dy == dx * (a1.y - n)) by (nonlinear_arith)
        requires
            a == a1.x * a2.y - a1.y * a2.x,
            dx == a1.x - a2.x,
            dy == a1.y - a2.y,
    ;
    assert(a - n * dx + a2.x * dy == dx * (a2.y - n)) by (nonlinear_arith)
        requires
            a == a1.x * a2.y - a1.y * a2.x,
            dx == a1.x - a2.x,
            dy == a1.y - a2.y,
    ;
    assert(a1.x * den == (if dy < 0 { -(a1.x * dy) } else { a1.x * dy }) && a2.x * den == (if dy
        < 0 {
        -(a2.x * dy)
    } else {
        a2.x * dy
    })) by (nonlinear_arith)
        requires
            den == (if dy < 0 { -dy } else { dy }),
    ;
    // with `dy < 0` the first end is the nearer one, else the second
    assert((dx >= 0) == (dy < 0) ==> dx * (a1.y - n) <= 0 && dx * (a2.y - n) >= 0) by (nonlinear_arith)
        requires
            dy == a1.y - a2.y,
            (a1.y < n) != (a2.y < n),
    ;
    assert((dx >= 0) != (dy < 0) ==> dx * (a1.y - n) >= 0 && dx * (a2.y - n) <= 0) by (nonlinear_arith)
        requires
            dy == a1.y - a2.y,
            (a1.y < n) != (a2.y < n),
    ;
    lemma_round_div_monotonic(num, den, a1.x as int);
    lemma_round_div_monotonic(num, den, a2.x as int);
    assert(between_spec(x, a1.x as int, a2.x as int));
    assert(between_spec(n, a1.y as int, a2.y as int));
}

/// What the frustum shows of a wall lies in the frustum: both its ends are
/// not nearer than the near plane and lie between the two sides.
pub proof fn lemma_clip_in_frustum(view_left: Position2, view_right: Position2)
    ensures
        clip_wall_spec(view_left, view_right) matches Some(ends) ==> in_frustum(ends.0.0)
            && in_frustum(ends.1.0),
{
    let l0 = view_left.0;
    let r0 = view_right.0;
    if !(l0.y < NEAR && r0.y < NEAR) {
        // a cut at a side moves an end beyond the near plane's end of it
        lemma_side_crossing_on_diagonal(l0, r0);
        let by_left = clip_left(l0, r0);
        assert(by_left.0.y >= NEAR || by_left.1.y >= NEAR);
        lemma_side_crossing_on_diagonal(by_left.0, by_left.1);
        let by_right = clip_right(by_left.0, by_left.1);
        assert(by_right.0.y >= NEAR || by_right.1.y >= NEAR);
        // and the cut at the near plane moves the end that is nearer onto it
        lemma_outside_sides(by_right.0);
        if (by_right.0.y < NEAR) != (by_right.1.y < NEAR) {
            lemma_back_crossing(by_right.0, by_right.1);
        }
        let ends = clipped(l0, r0);
        assert(ends.0.y >= NEAR && ends.1.y >= NEAR);
        lemma_outside_sides(ends.0);
        lemma_outside_sides(ends.1);
    }
}

/// What lies outside the left side lies beyond the diagonal `x = -y`, what
/// lies outside the right side beyond the diagonal `x = y`.
pub proof fn lemma_outside_sides(p: Vec2)
    ensures
        Boundary::Left.outside(p) <==> p.x + p.y < 0,
        Boundary::Right.outside(p) <==> p.x > p.y,
        Boundary::Back.outside(p) <==> p.y < NEAR,
{
    let k = (FAR - NEAR) as int;
    let a = Boundary::Left.first_spec();
    let b = Boundary::Left.second_spec();
    assert((b.x - a.x) * (p.y - a.y) - (b.y - a.y) * (p.x - a.x) == (-k) * (p.x + p.y))
        by (nonlinear_arith)
        requires
            b.x - a.x == -k,
            b.y - a.y == k,
            a.x == -a.y,
    ;
    assert((-k) * (p.x + p.y) > 0 <==> p.x + p.y < 0) by (nonlinear_arith)
        requires
            k > 0,
    ;
    let a = Boundary::Right.first_spec();
    let b = Boundary::Right.second_spec();
    assert((b.x - a.x) * (p.y - a.y) - (b.y - a.y) * (p.x - a.x) == k * (p.x - p.y))
        by (nonlinear_arith)
        requires
            b.x - a.x == -k,
            b.y - a.y == -k,
            a.x == a.y,
    ;
    assert(k * (p.x - p.y) > 0 <==> p.x > p.y) by (nonlinear_arith)
        requires
            k > 0,
    ;
    let a = Boundary::Back.first_spec();
    let b = Boundary::Back.second_spec();
    let w = 2 * NEAR;
    assert((b.x - a.x) * (p.y - a.y) - (b.y - a.y) * (p.x - a.x) == w * (NEAR - p.y))
        by (nonlinear_arith)
        requires
            b.x - a.x == -w,
            b.y - a.y == 0,
            a.y == NEAR,
    ;
    assert(w * (NEAR - p.y) > 0 <==> p.y < NEAR) by (nonlinear_arith)
        requires
            w > 0,
    ;
}

/// Clipping a wall that lies inside the frustum returns it unchanged: where
/// both ends are strictly between the two sides and not nearer than the
/// near plane, no cut moves an end and the wall is not rejected.
pub proof fn lemma_clip_inside_unchanged(view_left: Position2, view_right: Position2)
    requires
        inside_frustum(view_left.0),
        inside_frustum(view_right.0),
    ensures
        clip_wall_spec(view_left, view_right) == Some((view_left, view_right)),
{
    lemma_no_left_crossing(view_left.0, view_right.0);
    lemma_no_right_crossing(view_left.0, view_right.0);
    assert(clip_left(view_left.0, view_right.0) == (view_left.0, view_right.0));
    assert(clip_right(view_left.0, view_right.0) == (view_left.0, view_right.0));
    assert(clipped(view_left.0, view_right.0) == (view_left.0, view_right.0));
    lemma_outside_sides(view_left.0);
    lemma_outside_sides(view_right.0);
}

/// A wall with both ends nearer than the near plane shows nothing.
pub proof fn lemma_clip_behind_rejected(view_left: Position2, view_right: Position2)
    requires
        view_left.0.y < NEAR,
        view_right.0.y < NEAR,
    ensures
        clip_wall_spec(view_left, view_right).is_none(),
{
}

fn replace(left: Vec2, right: Vec2, boundary: Boundary, point: Vec2) -> (ends: (Vec2, Vec2))
    ensures
        ends == replace_outside(left, right, boundary, point),
{
    if point_behind(left, boundary.first(), boundary.second()) {
        (point, right)
    } else {
        (left, point)
    }
}

fn beside(p: Vec2) -> (r: bool)
    ensures
        r == outside_sides(p),
{
    point_behind(p, Boundary::Left.first(), Boundary::Left.second()) || point_behind(
        p,
        Boundary::Right.first(),
        Boundary::Right.second(),
    )
}

/// Clips a wall, given by its two ends relative to the camera, against the
/// frustum. Returns the ends of the part that shows, or `None` where
/// nothing of the wall shows.
pub fn clip_wall(view_left: Position2, view_right: Position2) -> (r: Option<(Position2, Position2)>)
    ensures
        r == clip_wall_spec(view_left, view_right),
        view_left.0.y < NEAR && view_right.0.y < NEAR ==> r.is_none(),
        inside_frustum(view_left.0) && inside_frustum(view_right.0) ==> r == Some(
            (view_left, view_right),
        ),
        r matches Some(ends) ==> in_frustum(ends.0.0) && in_frustum(ends.1.0),
{
    proof {
        lemma_clip_in_frustum(view_left, view_right);
        if inside_frustum(view_left.0) && inside_frustum(view_right.0) {
            lemma_clip_inside_unchanged(view_left, view_right);
        }
    }
    let mut left: Vec2 = view_left.0;
    let mut right: Vec2 = view_right.0;

    // Skip entirely behind back
    if left.y < NEAR && right.y < NEAR {
        return None;
    }

    // Clip left side
    if let Some(point) = intersect(left, right, Boundary::Left.first(), Boundary::Left.second()) {
        if point.x < -X_NEAR {
            let ends = replace(left, right, Boundary::Left, point);
            left = ends.0;
            right = ends.1;
        }
    }
    assert((left, right) == clip_left(view_left.0, view_right.0));

    // Clip right side
    if let Some(point) = intersect(left, right, Boundary::Right.first(), Boundary::Right.second()) {
        if point.x > X_NEAR {
            let ends = replace(left, right, Boundary::Right, point);
            left = ends.0;
            right = ends.1;
        }
    }

    // Clip behind back
    if left.y < NEAR || right.y < NEAR {
        if let Some(point) = intersect(left, right, Boundary::Back.first(), Boundary::Back.second()) {
            let ends = replace(left, right, Boundary::Back, point);
            left = ends.0;
            right = ends.1;
        }
    }
    assert((left, right) == clipped(view_left.0, view_right.0));

    // Skip what is left outside a side
    if beside(left) || beside(right) {
        return None;
    }
    Some((Position2(left), Position2(right)))
}

} // verus!
