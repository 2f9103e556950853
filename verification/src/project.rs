//! The perspective projection from coordinates relative to the camera to
//! normalized screen coordinates and on to pixels.

use vstd::prelude::*;
use crate::clip::NEAR;
use crate::math::{
    Vec2, Vec3, ONE, fraction, fraction_spec, lemma_round_div_exact, lemma_round_div_monotonic,
    lemma_round_div_neg, round_div,
};
use crate::model::{Camera, Length, Position2};
use crate::pixel::{Pixel, FRAC_HEIGHT_2, FRAC_WIDTH_2, HEIGHT, WIDTH, abs_pixel, norm_pixel};

verus! {

/// Largest magnitude of a coordinate of the camera for which the view of
/// its own position is exact.
pub const WORLD_LIMIT: i32 = 0x3fff_ffff;

/// Normalized screen coordinates, right-handed coordinate system with z
/// towards, origin at centre.
///
///   +y
///   ^
///   |
/// +z.---> +x
#[derive(Clone, Copy, Debug)]
pub struct Normalized(pub Vec3);

/// The projection of the point at `position` relative to the camera and at
/// `height` above it. Both sides of the screen are one unit from its centre;
/// with a horizontal field of view of a right angle that is where `x`
/// equals the depth `y`. The vertical scale follows from the shape of the
/// screen. The third coordinate is the near plane's depth over the point's.
/// A depth of zero divides like the smallest depth.
pub open spec fn project_spec(position: Position2, height: Length) -> Normalized {
    let depth = position.0.y as int;
    Normalized(
        Vec3 {
            x: fraction_spec(position.0.x as int, depth) as i32,
            y: fraction_spec(height.0 * WIDTH, depth * HEIGHT) as i32,
            z: fraction_spec(NEAR as int, depth) as i32,
        },
    )
}

/// Projects a point relative to the camera to normalized screen
/// coordinates.
pub fn project(position: Position2, height: Length) -> (n: Normalized)
    ensures
        n == project_spec(position, height),
{
    let depth: i128 = position.0.y as i128;
    assert(depth * HEIGHT == depth * 240 && height.0 * WIDTH == height.0 * 320);
    Normalized(
        Vec3 {
            x: fraction(position.0.x as i128, depth),
            y: fraction(height.0 as i128 * WIDTH as i128, depth * HEIGHT as i128),
            z: fraction(NEAR as i128, depth),
        },
    )
}

impl Normalized {
    /// The pixel of the point.
    pub open spec fn pixel_spec(self) -> Pixel {
        norm_pixel(Vec2 { x: self.0.x, y: self.0.y })
    }

    /// The pixel of the point: the centre of the screen for the origin, a
    /// side of the screen for a coordinate of one unit.
    pub fn to_pixel(self) -> (p: Pixel)
        ensures
            p == self.pixel_spec(),
    {
        Pixel::from_norm(self.0.truncate())
    }
}

impl From<Normalized> for Pixel {
    /// The pixel of the point.
    fn from(norm: Normalized) -> (p: Pixel) {
        norm.to_pixel()
    }
}

impl vstd::std_specs::convert::FromSpecImpl<Normalized> for Pixel {
    open spec fn obeys_from_spec() -> bool {
        true
    }

    open spec fn from_spec(norm: Normalized) -> Pixel {
        norm.pixel_spec()
    }
}

/// Of two points at one place before the camera the higher one is seen in
/// no lower row of the screen.
pub proof fn lemma_higher_is_drawn_higher(position: Position2, low: Length, high: Length)
    requires
        position.0.y > 0,
        low.0 <= high.0,
    ensures
        project_spec(position, high).pixel_spec().y <= project_spec(position, low).pixel_spec().y,
        project_spec(position, high).pixel_spec().x == project_spec(position, low).pixel_spec().x,
{
    let depth = position.0.y as int;
    assert(depth * HEIGHT > 0 && low.0 * WIDTH <= high.0 * WIDTH) by (nonlinear_arith)
        requires
            depth > 0,
            low.0 <= high.0,
    ;
    crate::math::lemma_fraction_ordered(low.0 * WIDTH, high.0 * WIDTH, depth * HEIGHT);
    let up = project_spec(position, high).0;
    let down = project_spec(position, low).0;
    crate::pixel::lemma_norm_pixel_rows(Vec2 { x: up.x, y: up.y }, Vec2 { x: down.x, y: down.y });
}

/// The camera sees its own position at the origin, and the overhead map
/// shows it at the centre of the screen.
pub proof fn lemma_camera_at_centre(camera: Camera)
    requires
        -WORLD_LIMIT <= camera.position.0.x <= WORLD_LIMIT,
        -WORLD_LIMIT <= camera.position.0.y <= WORLD_LIMIT,
    ensures
        camera.view_matrix_spec().apply_spec(Vec2 { x: camera.position.0.x, y: camera.position.0.y })
            == (Vec2 { x: 0, y: 0 }),
        abs_pixel(
            camera.view_matrix_spec().apply_spec(
                Vec2 { x: camera.position.0.x, y: camera.position.0.y },
            ),
        ) == (Pixel { x: FRAC_WIDTH_2 as isize, y: FRAC_HEIGHT_2 as isize }),
{
    let c = camera.direction.cos_spec();
    let s = camera.direction.sin_spec();
    let px = camera.position.0.x as int;
    let py = camera.position.0.y as int;
    camera.direction.lemma_in_range();
    let view = camera.view_matrix_spec();
    // the rotation passes through the composition unchanged
    lemma_round_div_exact(c, ONE as int);
    lemma_round_div_exact(s, ONE as int);
    lemma_round_div_exact(-s, ONE as int);
    assert(c * ONE + s * 0 == c * ONE && c * 0 + s * ONE == s * ONE && (-s) * ONE + c * 0 == (-s)
        * ONE && (-s) * 0 + c * ONE == c * ONE) by (nonlinear_arith);
    assert(view.xx == c && view.xy == s && view.yx == -s && view.yy == c);
    // the translation is the image of the reversed position
    lemma_rotated_bound(c, s, px, py);
    lemma_rotated_bound(-s, c, px, py);
    let u = c * px + s * py;
    let v = (-s) * px + c * py;
    assert(c * (-px) + s * (-py) == -u && (-s) * (-px) + c * (-py) == -v) by (nonlinear_arith)
        requires
            u == c * px + s * py,
            v == (-s) * px + c * py,
    ;
    lemma_round_div_neg(u, ONE as int);
    lemma_round_div_neg(v, ONE as int);
    assert(view.tx == -round_div(u, ONE as int));
    assert(view.ty == -round_div(v, ONE as int));
    assert(round_div(0, ONE as int) == 0);
}

/// A rotated coordinate is no larger than the sum of the two it comes from.
proof fn lemma_rotated_bound(a: int, b: int, x: int, y: int)
    requires
        -ONE <= a <= ONE,
        -ONE <= b <= ONE,
        -WORLD_LIMIT <= x <= WORLD_LIMIT,
        -WORLD_LIMIT <= y <= WORLD_LIMIT,
    ensures
        -0x7fff_fffe <= round_div(a * x + b * y, ONE as int) <= 0x7fff_fffe,
{
    let n = a * x + b * y;
    assert(-(0x3fff_ffff * 0x1_0000) <= a * x <= 0x3fff_ffff * 0x1_0000) by (nonlinear_arith)
        requires
            -0x1_0000 <= a <= 0x1_0000,
            -0x3fff_ffff <= x <= 0x3fff_ffff,
    ;
    assert(-(0x3fff_ffff * 0x1_0000) <= b * y <= 0x3fff_ffff * 0x1_0000) by (nonlinear_arith)
        requires
            -0x1_0000 <= b <= 0x1_0000,
            -0x3fff_ffff <= y <= 0x3fff_ffff,
    ;
    lemma_round_div_monotonic(n, ONE as int, 0x7fff_fffe);
    lemma_round_div_monotonic(n, ONE as int, -0x7fff_fffe);
}

} // verus!
