//! Pixel locations on the screen and the byte offsets that belong to them.

use vstd::prelude::*;
use crate::math::{Vec2, ONE, div_round, round_div};
use crate::model::Position2;

verus! {

/// Width of the screen in pixels.
pub const WIDTH: u32 = 320;

/// Height of the screen in pixels.
pub const HEIGHT: u32 = 240;

/// Half the width of the screen.
pub const FRAC_WIDTH_2: u32 = 160;

/// Half the height of the screen.
pub const FRAC_HEIGHT_2: u32 = 120;

/// Number of bytes of a frame: four for each pixel, row by row from the top.
pub const FRAME_BYTES: usize = 307200;

/// Pixels per world unit on the overhead map.
pub const MINIMAP_SCALE: i32 = 8;

/// Pixel location, origin at top left.
///
///  .---> +x
///  |
///  v
///  +y
#[derive(Clone, Copy, Debug, PartialEq, Eq, Structural)]
pub struct Pixel {
    pub x: isize,
    pub y: isize,
}

/// Whether the pixel `(x, y)` is on the screen.
pub open spec fn on_screen(x: int, y: int) -> bool {
    0 <= x < WIDTH && 0 <= y < HEIGHT
}

/// Offset of the first byte of the pixel `(x, y)` in a frame.
pub open spec fn offset_spec(x: int, y: int) -> int {
    (y * WIDTH + x) * 4
}

/// A fixed-point coordinate times `scale`, rounded to whole pixels.
pub open spec fn scaled(scale: int, v: int) -> int {
    round_div(scale * v, ONE as int)
}

/// The pixel of a point of the overhead map: the origin at the centre of
/// the screen, `MINIMAP_SCALE` pixels to the world unit, y upwards.
pub open spec fn abs_pixel(v: Vec2) -> Pixel {
    Pixel {
        x: (FRAC_WIDTH_2 + scaled(MINIMAP_SCALE as int, v.x as int)) as isize,
        y: (FRAC_HEIGHT_2 - scaled(MINIMAP_SCALE as int, v.y as int)) as isize,
    }
}

/// The pixel of a point in normalized screen coordinates: the origin at the
/// centre of the screen, one unit half the screen wide and high, y upwards.
pub open spec fn norm_pixel(v: Vec2) -> Pixel {
    Pixel {
        x: (FRAC_WIDTH_2 + scaled(FRAC_WIDTH_2 as int, v.x as int)) as isize,
        y: (FRAC_HEIGHT_2 - scaled(FRAC_HEIGHT_2 as int, v.y as int)) as isize,
    }
}

/// A scaled coordinate stays within `scale` times the range of world units.
pub proof fn lemma_scaled_bound(scale: int, v: int)
    requires
        0 <= scale <= 0x1_0000,
        -0x8000_0000 <= v <= 0x7fff_ffff,
    ensures
        -(scale * 0x8000) <= scaled(scale, v) <= scale * 0x8000,
{
    crate::math::lemma_round_div_bounds(scale * v, ONE as int);
    let q = round_div(scale * v, ONE as int);
    assert(-(scale * 0x8000_0000) <= scale * v <= scale * 0x8000_0000) by (nonlinear_arith)
        requires
            0 <= scale,
            -0x8000_0000 <= v <= 0x7fff_ffff,
    ;
    assert(q * 0x1_0000 == q * ONE);
    assert(scale * 0x8000_0000 == (scale * 0x8000) * 0x1_0000) by (nonlinear_arith);
}

/// Of two points in normalized screen coordinates the higher one lies in
/// no lower row of the screen.
pub proof fn lemma_norm_pixel_rows(high: Vec2, low: Vec2)
    requires
        low.y <= high.y,
    ensures
        norm_pixel(high).y <= norm_pixel(low).y,
{
    lemma_scaled_bound(FRAC_HEIGHT_2 as int, high.y as int);
    lemma_scaled_bound(FRAC_HEIGHT_2 as int, low.y as int);
    assert(FRAC_HEIGHT_2 * low.y <= FRAC_HEIGHT_2 * high.y);
    crate::math::lemma_round_div_ordered(
        FRAC_HEIGHT_2 * low.y,
        FRAC_HEIGHT_2 * high.y,
        ONE as int,
    );
}

fn scale_coord(scale: u32, v: i32) -> (r: isize)
    requires
        scale <= 0x1000,
    ensures
        r == scaled(scale as int, v as int),
        -(scale * 0x8000) <= r <= scale * 0x8000,
{
    proof {
        lemma_scaled_bound(scale as int, v as int);
        assert(-(0x1000 * 0x8000_0000) <= scale * v <= 0x1000 * 0x8000_0000) by (nonlinear_arith)
            requires
                0 <= scale <= 0x1000,
                -0x8000_0000 <= v <= 0x7fff_ffff,
        ;
        assert(scale * 0x8000 <= 0x1000 * 0x8000) by (nonlinear_arith)
            requires
                0 <= scale <= 0x1000,
        ;
    }
    let q: i128 = div_round(scale as i128 * v as i128, ONE as i128);
    q as isize
}

impl Pixel {
    /// Whether the pixel is on the screen.
    pub open spec fn visible(self) -> bool {
        on_screen(self.x as int, self.y as int)
    }

    /// The pixel in column `x` and row `y`.
    pub fn new(x: isize, y: isize) -> (p: Pixel)
        ensures
            p == (Pixel { x, y }),
    {
        Self { x, y }
    }

    /// The pixel of a point of the overhead map.
    pub fn from_abs(v: Vec2) -> (p: Pixel)
        ensures
            p == abs_pixel(v),
            -0x8_0000 <= p.x <= 0x8_0000,
            -0x8_0000 <= p.y <= 0x8_0000,
    {
        Self {
            x: FRAC_WIDTH_2 as isize + scale_coord(MINIMAP_SCALE as u32, v.x),
            y: FRAC_HEIGHT_2 as isize - scale_coord(MINIMAP_SCALE as u32, v.y),
        }
    }

    /// The pixel of a point in normalized screen coordinates.
    pub fn from_norm(v: Vec2) -> (p: Pixel)
        ensures
            p == norm_pixel(v),
    {
        Self {
            x: FRAC_WIDTH_2 as isize + scale_coord(FRAC_WIDTH_2, v.x),
            y: FRAC_HEIGHT_2 as isize - scale_coord(FRAC_HEIGHT_2, v.y),
        }
    }

    /// Column and row of the pixel.
    pub fn to_tuple(self) -> (t: (isize, isize))
        ensures
            t == (self.x, self.y),
    {
        (self.x, self.y)
    }

    /// The offset of the pixel's first byte in a frame, if the pixel is on
    /// the screen.
    pub fn to_offset(self) -> (r: Option<usize>)
        ensures
            self.visible() ==> r == Some(offset_spec(self.x as int, self.y as int) as usize),
            !self.visible() ==> r.is_none(),
            r matches Some(o) ==> o + 4 <= FRAME_BYTES,
    {
        if self.x >= 0 && self.x < WIDTH as isize && self.y >= 0 && self.y < HEIGHT as isize {
            Some((self.y as usize * WIDTH as usize + self.x as usize) * 4)
        } else {
            None
        }
    }

    /// The offset of the first byte of a pixel that is on the screen.
    pub fn to_offset_unchecked(self) -> (o: usize)
        requires
            self.visible(),
        ensures
            o == offset_spec(self.x as int, self.y as int),
            o + 4 <= FRAME_BYTES,
    {
        (self.y as usize * WIDTH as usize + self.x as usize) * 4
    }
}

impl From<Position2> for Pixel {
    /// The pixel of the position on the overhead map.
    fn from(position: Position2) -> (p: Pixel) {
        Pixel::from_abs(position.0)
    }
}

impl vstd::std_specs::convert::FromSpecImpl<Position2> for Pixel {
    open spec fn obeys_from_spec() -> bool {
        true
    }

    open spec fn from_spec(position: Position2) -> Pixel {
        abs_pixel(position.0)
    }
}

impl Position2 {
    /// The pixel of the position on the overhead map.
    pub fn to_pixel(self) -> (p: Pixel)
        ensures
            p == abs_pixel(self.0),
            -0x8_0000 <= p.x <= 0x8_0000,
            -0x8_0000 <= p.y <= 0x8_0000,
    {
        Pixel::from_abs(self.0)
    }
}

} // verus!
