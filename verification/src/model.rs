//! The sector graph: convex floor plans with per-edge colours and portals,
//! and the camera that looks at them.

use vstd::prelude::*;
use crate::math::{Vec2, Vec3, ONE, clamp_int, div_round, round_div, saturate, saturate_int};

verus! {

/// A colour as red, green and blue bytes.
#[derive(Clone, Copy, Debug, PartialEq, Eq)]
pub struct RawColor(pub [u8; 3]);

/// Identifier of a sector, unique within a scene.
#[derive(Clone, Copy, Debug, PartialEq, Eq, Structural)]
pub struct SectorId(pub u32);

/// Names the sector in which the camera starts.
#[derive(Clone, Copy, Debug)]
pub struct InitialSector(pub SectorId);

/// A height or a length in world units, in fixed point.
#[derive(Clone, Copy, Debug, PartialEq, Eq, Structural)]
pub struct Length(pub i32);

/// World position in 3D, right-handed coordinate system with z up.
///
///   +y
///   ^
///   |
/// +z.---> +x
#[derive(Clone, Copy, Debug)]
pub struct Position3(pub Vec3);

/// World position in 2D.
///
///  +y
///  ^
///  |
///  .---> +x
#[derive(Clone, Copy, Debug, PartialEq, Eq, Structural)]
pub struct Position2(pub Vec2);

/// A heading in the plane, held as the cosine and sine of the angle that it
/// makes with the y-axis, counted counter-clockwise. Both lie between
/// `-ONE` and `ONE`.
#[derive(Clone, Copy, Debug)]
pub struct Direction {
    cos: i32,
    sin: i32,
}

/// An affine map of the plane: a 2-by-2 matrix of fixed-point numbers
/// followed by a translation.
#[derive(Clone, Copy, Debug, PartialEq, Eq, Structural)]
pub struct Mat3 {
    pub xx: i32,
    pub xy: i32,
    pub yx: i32,
    pub yy: i32,
    pub tx: i32,
    pub ty: i32,
}

/// Where the camera stands and where it looks.
#[derive(Clone, Copy, Debug)]
pub struct Camera {
    pub position: Position3,
    pub direction: Direction,
}

/// A convex room: a closed polygon with one colour and at most one portal
/// per edge. Edge `i` runs from vertex `i` to vertex `i + 1`, the last one
/// back to vertex 0. The vertices go round clockwise, so that seen from
/// inside each edge runs from left to right. A sector is meant to have a
/// colour and a portal entry for each vertex and its ceiling above its
/// floor; `well_formed` says so, and nothing here relies on it.
#[derive(Debug)]
pub struct Sector {
    pub id: SectorId,
    pub vertices: Vec<Position2>,
    pub portal_sectors: Vec<Option<SectorId>>,
    pub colors: Vec<RawColor>,
    pub floor: Length,
    pub ceil: Length,
}

/// One edge of a sector.
#[derive(Clone, Copy, Debug)]
pub struct Wall {
    pub left: Position2,
    pub right: Position2,
    pub portal_sector: Option<SectorId>,
    pub color: RawColor,
}

/// A sector that waits to be drawn, with the screen columns it may use.
pub struct Portal<'a> {
    pub sector: &'a Sector,
    pub x_min: isize,
    pub x_max: isize,
}

impl Default for RawColor {
    /// Black.
    fn default() -> (c: RawColor)
        ensures
            c == RawColor([0u8, 0u8, 0u8]),
    {
        RawColor([0u8, 0u8, 0u8])
    }
}

impl Default for SectorId {
    /// The identifier zero.
    fn default() -> (id: SectorId)
        ensures
            id == SectorId(0),
    {
        SectorId(0)
    }
}

impl Default for InitialSector {
    /// The sector with the identifier zero.
    fn default() -> (initial: InitialSector)
        ensures
            initial.0 == SectorId(0),
    {
        InitialSector(SectorId(0))
    }
}

impl Default for Length {
    /// No length.
    fn default() -> (l: Length)
        ensures
            l == Length(0),
    {
        Length(0)
    }
}

impl Default for Position2 {
    /// The origin.
    fn default() -> (p: Position2)
        ensures
            p == Position2(Vec2 { x: 0, y: 0 }),
    {
        Position2(Vec2 { x: 0, y: 0 })
    }
}

impl Default for Sector {
    /// A sector without vertices, with floor and ceiling at height zero.
    fn default() -> (sector: Sector)
        ensures
            sector.id == SectorId(0),
            sector.vertices@.len() == 0,
            sector.portal_sectors@.len() == 0,
            sector.colors@.len() == 0,
            sector.floor == Length(0),
            sector.ceil == Length(0),
    {
        Sector {
            id: SectorId(0),
            vertices: Vec::new(),
            portal_sectors: Vec::new(),
            colors: Vec::new(),
            floor: Length(0),
            ceil: Length(0),
        }
    }
}

/// The colour of an edge for which the sector names none.
pub open spec fn missing_wall_color_spec() -> RawColor {
    RawColor([255u8, 0u8, 0u8])
}

/// The colour of an edge for which the sector names none: pure red.
pub fn missing_wall_color() -> (c: RawColor)
    ensures
        c == missing_wall_color_spec(),
{
    RawColor([255u8, 0u8, 0u8])
}

impl Direction {
    #[verifier::type_invariant]
    spec fn in_range(self) -> bool {
        -ONE <= self.cos <= ONE && -ONE <= self.sin <= ONE
    }

    /// Cosine of the heading.
    pub closed spec fn cos_spec(self) -> int {
        clamp_int(self.cos as int, -ONE, ONE as int)
    }

    /// Sine of the heading.
    pub closed spec fn sin_spec(self) -> int {
        clamp_int(self.sin as int, -ONE, ONE as int)
    }

    /// A heading from its cosine and sine, each limited to the interval
    /// from `-ONE` to `ONE`.
    pub fn new(cos: i32, sin: i32) -> (d: Direction)
        ensures
            d.cos_spec() == clamp_int(cos as int, -ONE, ONE as int),
            d.sin_spec() == clamp_int(sin as int, -ONE, ONE as int),
    {
        let c: i32 = if cos < -ONE { -ONE } else if cos > ONE { ONE } else { cos };
        let s: i32 = if sin < -ONE { -ONE } else if sin > ONE { ONE } else { sin };
        Direction { cos: c, sin: s }
    }

    /// Cosine of the heading, as a fixed-point number.
    pub fn cos(self) -> (c: i32)
        ensures
            c == self.cos_spec(),
            -ONE <= c <= ONE,
    {
        proof {
            use_type_invariant(&self);
        }
        self.cos
    }

    /// Sine of the heading, as a fixed-point number.
    pub fn sin(self) -> (s: i32)
        ensures
            s == self.sin_spec(),
            -ONE <= s <= ONE,
    {
        proof {
            use_type_invariant(&self);
        }
        self.sin
    }

    /// The heading turned the other way: the angle negated.
    pub fn reversed(self) -> (d: Direction)
        ensures
            d.cos_spec() == self.cos_spec(),
            d.sin_spec() == -self.sin_spec(),
    {
        proof {
            use_type_invariant(&self);
        }
        Direction { cos: self.cos, sin: -self.sin }
    }

    /// Cosine and sine are never outside the unit interval.
    pub proof fn lemma_in_range(self)
        ensures
            -ONE <= self.cos_spec() <= ONE,
            -ONE <= self.sin_spec() <= ONE,
    {
    }
}

impl Mat3 {
    /// One coordinate of an image: the row `(a, b)` applied to `(x, y)`,
    /// moved by `t`.
    pub open spec fn row_spec(a: int, b: int, x: int, y: int, t: int) -> int {
        saturate_int(round_div(a * x + b * y, ONE as int) + t)
    }

    /// The image of `p`.
    pub open spec fn apply_spec(self, p: Vec2) -> Vec2 {
        Vec2 {
            x: Self::row_spec(self.xx as int, self.xy as int, p.x as int, p.y as int, self.tx as int) as i32,
            y: Self::row_spec(self.yx as int, self.yy as int, p.x as int, p.y as int, self.ty as int) as i32,
        }
    }

    /// The map that applies `rhs` first and `self` after it.
    pub open spec fn compose_spec(self, rhs: Mat3) -> Mat3 {
        Mat3 {
            xx: Self::row_spec(self.xx as int, self.xy as int, rhs.xx as int, rhs.yx as int, 0) as i32,
            xy: Self::row_spec(self.xx as int, self.xy as int, rhs.xy as int, rhs.yy as int, 0) as i32,
            yx: Self::row_spec(self.yx as int, self.yy as int, rhs.xx as int, rhs.yx as int, 0) as i32,
            yy: Self::row_spec(self.yx as int, self.yy as int, rhs.xy as int, rhs.yy as int, 0) as i32,
            tx: Self::row_spec(self.xx as int, self.xy as int, rhs.tx as int, rhs.ty as int, self.tx as int) as i32,
            ty: Self::row_spec(self.yx as int, self.yy as int, rhs.tx as int, rhs.ty as int, self.ty as int) as i32,
        }
    }

    /// The counter-clockwise rotation by the angle of `direction`.
    pub open spec fn rotation_spec(direction: Direction) -> Mat3 {
        Mat3 {
            xx: direction.cos_spec() as i32,
            xy: (-direction.sin_spec()) as i32,
            yx: direction.sin_spec() as i32,
            yy: direction.cos_spec() as i32,
            tx: 0,
            ty: 0,
        }
    }

    /// The clockwise rotation by the angle of `direction`.
    pub open spec fn rotation_spec_reversed(direction: Direction) -> Mat3 {
        Mat3 {
            xx: direction.cos_spec() as i32,
            xy: direction.sin_spec() as i32,
            yx: (-direction.sin_spec()) as i32,
            yy: direction.cos_spec() as i32,
            tx: 0,
            ty: 0,
        }
    }

    /// The translation by `v`.
    pub open spec fn translation_spec(v: Vec2) -> Mat3 {
        Mat3 { xx: ONE, xy: 0, yx: 0, yy: ONE, tx: v.x, ty: v.y }
    }

    fn row(a: i32, b: i32, x: i32, y: i32, t: i32) -> (r: i32)
        ensures
            r == Self::row_spec(a as int, b as int, x as int, y as int, t as int),
    {
        assert(-0x4000_0000_0000_0000 <= a * x <= 0x4000_0000_0000_0000) by (nonlinear_arith)
            requires
                -0x8000_0000 <= a <= 0x7fff_ffff,
                -0x8000_0000 <= x <= 0x7fff_ffff,
        ;
        assert(-0x4000_0000_0000_0000 <= b * y <= 0x4000_0000_0000_0000) by (nonlinear_arith)
            requires
                -0x8000_0000 <= b <= 0x7fff_ffff,
                -0x8000_0000 <= y <= 0x7fff_ffff,
        ;
        let sum: i128 = a as i128 * x as i128 + b as i128 * y as i128;
        let scaled: i128 = div_round(sum, ONE as i128);
        proof {
            crate::math::lemma_round_div_bounds(sum as int, ONE as int);
        }
        saturate(scaled + t as i128)
    }

    /// Builds the rotation about the z-axis by the angle of `direction`.
    pub fn from_rotation_z(direction: Direction) -> (m: Mat3)
        ensures
            m == Self::rotation_spec(direction),
    {
        let c: i32 = direction.cos();
        let s: i32 = direction.sin();
        Mat3 { xx: c, xy: -s, yx: s, yy: c, tx: 0, ty: 0 }
    }

    /// Builds the translation by `v`.
    pub fn from_translation(v: Vec2) -> (m: Mat3)
        ensures
            m == Self::translation_spec(v),
    {
        Mat3 { xx: ONE, xy: 0, yx: 0, yy: ONE, tx: v.x, ty: v.y }
    }

    /// Builds the map that applies `rhs` first and `self` after it.
    pub fn compose(self, rhs: Mat3) -> (m: Mat3)
        ensures
            m == self.compose_spec(rhs),
    {
        Mat3 {
            xx: Self::row(self.xx, self.xy, rhs.xx, rhs.yx, 0),
            xy: Self::row(self.xx, self.xy, rhs.xy, rhs.yy, 0),
            yx: Self::row(self.yx, self.yy, rhs.xx, rhs.yx, 0),
            yy: Self::row(self.yx, self.yy, rhs.xy, rhs.yy, 0),
            tx: Self::row(self.xx, self.xy, rhs.tx, rhs.ty, self.tx),
            ty: Self::row(self.yx, self.yy, rhs.tx, rhs.ty, self.ty),
        }
    }

    /// Maps the point `p`.
    pub fn transform_point2(self, p: Vec2) -> (q: Vec2)
        ensures
            q == self.apply_spec(p),
    {
        Vec2 {
            x: Self::row(self.xx, self.xy, p.x, p.y, self.tx),
            y: Self::row(self.yx, self.yy, p.x, p.y, self.ty),
        }
    }
}

impl Position3 {
    /// The position on the ground plane.
    pub fn truncate(self) -> (p: Position2)
        ensures
            p == Position2(Vec2 { x: self.0.x, y: self.0.y }),
    {
        Position2(self.0.truncate())
    }
}

impl Position2 {
    /// The image of the position under `matrix`.
    pub fn transform(self, matrix: Mat3) -> (p: Position2)
        ensures
            p == Position2(matrix.apply_spec(self.0)),
    {
        Position2(matrix.transform_point2(self.0))
    }
}

impl Sector {
    /// Whether the sector has one colour and one portal entry for each
    /// vertex, and its ceiling above its floor.
    pub open spec fn well_formed(&self) -> bool {
        &&& self.portal_sectors@.len() == self.vertices@.len()
        &&& self.colors@.len() == self.vertices@.len()
        &&& self.ceil.0 > self.floor.0
    }

    /// Whether the ceiling of the sector is not below its floor.
    pub open spec fn upright(&self) -> bool {
        self.floor.0 <= self.ceil.0
    }

    /// Tests whether the sector is well formed.
    pub fn is_well_formed(&self) -> (r: bool)
        ensures
            r == self.well_formed(),
    {
        self.portal_sectors.len() == self.vertices.len() && self.colors.len() == self.vertices.len()
            && self.ceil.0 > self.floor.0
    }

    /// Edge `i` of the sector. An edge beyond the end of `portal_sectors`
    /// has no portal, one beyond the end of `colors` has the colour
    /// `missing_wall_color_spec()`.
    pub open spec fn wall_spec(&self, i: int) -> Wall {
        Wall {
            left: self.vertices@[i],
            right: self.vertices@[(i + 1) % (self.vertices@.len() as int)],
            portal_sector: if i < self.portal_sectors@.len() {
                self.portal_sectors@[i]
            } else {
                None
            },
            color: if i < self.colors@.len() {
                self.colors@[i]
            } else {
                missing_wall_color_spec()
            },
        }
    }

    /// The edges of the sector, in order.
    pub open spec fn walls_spec(&self) -> Seq<Wall> {
        Seq::new(self.vertices@.len(), |i: int| self.wall_spec(i))
    }

    /// Lists the edges of the sector in order, one for each vertex: edge
    /// `i` runs from vertex `i` to the next one, the last edge back to the
    /// first vertex. A sector without vertices has no edges.
    pub fn to_walls(&self) -> (walls: Vec<Wall>)
        ensures
            walls@ == self.walls_spec(),
            walls@.len() == self.vertices@.len(),
            forall|i: int|
                0 <= i < walls@.len() ==> (#[trigger] walls@[i]).left == self.vertices@[i]
                    && walls@[i].right == self.vertices@[(i + 1) % (self.vertices@.len() as int)],
    {
        let n: usize = self.vertices.len();
        let mut walls: Vec<Wall> = Vec::with_capacity(n);
        let mut i: usize = 0;
        while i < n
            invariant
                n == self.vertices@.len(),
                i <= n,
                walls@.len() == i,
                forall|k: int| 0 <= k < i ==> walls@[k] == self.wall_spec(k),
            decreases n - i,
        {
            let next: usize = if i + 1 == n { 0 } else { i + 1 };
            proof {
                if i + 1 == n {
                    vstd::arithmetic::div_mod::lemma_mod_self_0(n as int);
                } else {
                    vstd::arithmetic::div_mod::lemma_small_mod((i + 1) as nat, n as nat);
                }
            }
            let portal_sector: Option<SectorId> = if i < self.portal_sectors.len() {
                self.portal_sectors[i]
            } else {
                None
            };
            let color: RawColor = if i < self.colors.len() {
                self.colors[i]
            } else {
                missing_wall_color()
            };
            walls.push(Wall { left: self.vertices[i], right: self.vertices[next], portal_sector, color });
            i += 1;
        }
        assert(walls@ =~= self.walls_spec());
        walls
    }
}

impl Camera {
    /// The map from world coordinates to coordinates relative to the camera:
    /// the translation that takes the camera to the origin, followed by the
    /// rotation that takes its heading to the y-axis.
    pub open spec fn view_matrix_spec(self) -> Mat3 {
        Mat3::rotation_spec_reversed(self.direction).compose_spec(
            Mat3::translation_spec(
                Vec2 {
                    x: saturate_int(-self.position.0.x) as i32,
                    y: saturate_int(-self.position.0.y) as i32,
                },
            ),
        )
    }

    /// The map from coordinates relative to the camera back to world
    /// coordinates: the rotation by the heading, followed by the translation
    /// to the camera's position.
    pub open spec fn reverse_view_matrix_spec(self) -> Mat3 {
        Mat3::translation_spec(Vec2 { x: self.position.0.x, y: self.position.0.y }).compose_spec(
            Mat3::rotation_spec(self.direction),
        )
    }

    /// Builds the map from world coordinates to coordinates relative to the
    /// camera.
    pub fn view_matrix(&self) -> (m: Mat3)
        ensures
            m == self.view_matrix_spec(),
    {
        let back = Vec2 {
            x: saturate(-(self.position.0.x as i128)),
            y: saturate(-(self.position.0.y as i128)),
        };
        Mat3::from_rotation_z(self.direction.reversed()).compose(Mat3::from_translation(back))
    }

    /// Builds the map from coordinates relative to the camera back to world
    /// coordinates.
    pub fn reverse_view_matrix(&self) -> (m: Mat3)
        ensures
            m == self.reverse_view_matrix_spec(),
    {
        Mat3::from_translation(self.position.0.truncate()).compose(
            Mat3::from_rotation_z(self.direction),
        )
    }
}

} // verus!
