//! The overhead map: every wall of the scene as a line, the part that the
//! frustum cuts away in a colour of its own, with the frustum and the
//! camera drawn over it.

use vstd::prelude::*;
use crate::clip::{Boundary, clip_wall, clip_wall_spec};
use crate::draw::{draw_line, draw_pixel, line, put_pixel};
use crate::math::Vec2;
use crate::model::{Camera, Position2, RawColor, Sector, Wall};
use crate::pixel::{Pixel, FRAME_BYTES, abs_pixel};
use crate::raster::Colors;

verus! {

/// What the overhead map shows.
#[derive(Clone, Copy, Debug, PartialEq, Eq, Structural)]
pub enum Minimap {
    /// Nothing.
    Off,
    /// The scene as the camera sees it: the camera at the centre, looking
    /// up.
    FirstPerson,
    /// The scene as it lies in the world.
    Absolute,
}

/// The ends of a wall on the map, before and after clipping.
#[derive(Clone, Copy, Debug)]
pub struct Marks {
    pub left: Pixel,
    pub right: Pixel,
    pub left_after_clip: Pixel,
    pub right_after_clip: Pixel,
    pub clipped_away: bool,
}

/// The frustum and the camera on the map.
#[derive(Clone, Copy, Debug)]
pub struct Outline {
    pub player: Pixel,
    pub near_left: Pixel,
    pub near_right: Pixel,
    pub far_left: Pixel,
    pub far_right: Pixel,
}

/// The pixel of a point that is given relative to the camera: the point
/// itself on the first-person map, its place in the world on the absolute
/// one.
pub open spec fn map_pixel(view_point: Vec2, absolute: bool, camera: Camera) -> Pixel {
    if absolute {
        abs_pixel(camera.reverse_view_matrix_spec().apply_spec(view_point))
    } else {
        abs_pixel(view_point)
    }
}

/// The ends of a wall on the map. On the absolute map the wall itself is
/// shown where it lies in the world.
pub open spec fn marks_spec(wall: Wall, absolute: bool, camera: Camera) -> Marks {
    let view = camera.view_matrix_spec();
    let view_left = view.apply_spec(wall.left.0);
    let view_right = view.apply_spec(wall.right.0);
    let clipping = clip_wall_spec(Position2(view_left), Position2(view_right));
    let after = match clipping {
        Some(ends) => (ends.0.0, ends.1.0),
        None => (view_left, view_right),
    };
    Marks {
        left: if absolute {
            abs_pixel(wall.left.0)
        } else {
            abs_pixel(view_left)
        },
        right: if absolute {
            abs_pixel(wall.right.0)
        } else {
            abs_pixel(view_right)
        },
        left_after_clip: map_pixel(after.0, absolute, camera),
        right_after_clip: map_pixel(after.1, absolute, camera),
        clipped_away: clipping.is_none(),
    }
}

/// The frame after a wall was drawn on the map: all of it in the colour of
/// clipped walls if nothing of it shows; else what was cut away at either
/// end in that colour, and what shows in the colour of the wall.
pub open spec fn marks_drawn(frame: Seq<u8>, marks: Marks, color: RawColor, colors: Colors) -> Seq<u8> {
    if marks.clipped_away {
        line(frame, marks.left, marks.right, colors.wall_clipped)
    } else {
        let with_left = if marks.left_after_clip != marks.left {
            line(frame, marks.left, marks.left_after_clip, colors.wall_clipped)
        } else {
            frame
        };
        let with_right = if marks.right_after_clip != marks.right {
            line(with_left, marks.right_after_clip, marks.right, colors.wall_clipped)
        } else {
            with_left
        };
        line(with_right, marks.left_after_clip, marks.right_after_clip, color)
    }
}

/// The frame after the first `count` of `walls` were drawn on the map.
pub open spec fn walls_drawn(
    frame: Seq<u8>,
    walls: Seq<Wall>,
    count: int,
    absolute: bool,
    camera: Camera,
    colors: Colors,
) -> Seq<u8>
    decreases count,
{
    if count <= 0 {
        frame
    } else {
        marks_drawn(
            walls_drawn(frame, walls, count - 1, absolute, camera, colors),
            marks_spec(walls[count - 1], absolute, camera),
            walls[count - 1].color,
            colors,
        )
    }
}

/// The frame after the walls of the first `count` of `sectors` were drawn
/// on the map.
pub open spec fn sectors_drawn(
    frame: Seq<u8>,
    sectors: Seq<Sector>,
    count: int,
    absolute: bool,
    camera: Camera,
    colors: Colors,
) -> Seq<u8>
    decreases count,
{
    if count <= 0 {
        frame
    } else {
        walls_drawn(
            sectors_drawn(frame, sectors, count - 1, absolute, camera, colors),
            sectors[count - 1].walls_spec(),
            sectors[count - 1].walls_spec().len() as int,
            absolute,
            camera,
            colors,
        )
    }
}

/// The frustum and the camera on the map: the camera at the origin of its
/// own coordinates, the near and the far ends of the two sides of the
/// frustum.
pub open spec fn outline_spec(absolute: bool, camera: Camera) -> Outline {
    Outline {
        player: if absolute {
            abs_pixel(Vec2 { x: camera.position.0.x, y: camera.position.0.y })
        } else {
            abs_pixel(Vec2 { x: 0, y: 0 })
        },
        near_left: map_pixel(Boundary::Left.first_spec(), absolute, camera),
        near_right: map_pixel(Boundary::Right.second_spec(), absolute, camera),
        far_left: map_pixel(Boundary::Left.second_spec(), absolute, camera),
        far_right: map_pixel(Boundary::Right.first_spec(), absolute, camera),
    }
}

/// The frame after the frustum and the camera were drawn on the map: the
/// two sides, the near plane between them, and one pixel for the camera.
pub open spec fn outline_drawn(frame: Seq<u8>, outline: Outline, colors: Colors) -> Seq<u8> {
    put_pixel(
        line(
            line(
                line(frame, outline.near_left, outline.far_left, colors.frustum),
                outline.near_right,
                outline.far_right,
                colors.frustum,
            ),
            outline.near_left,
            outline.near_right,
            colors.frustum,
        ),
        outline.player.x as int,
        outline.player.y as int,
        colors.player,
    )
}

/// The frame with the overhead map drawn over it.
pub open spec fn minimap_spec(
    frame: Seq<u8>,
    minimap: Minimap,
    camera: Camera,
    sectors: Seq<Sector>,
    colors: Colors,
) -> Seq<u8> {
    if minimap == Minimap::Off {
        frame
    } else {
        let absolute = minimap == Minimap::Absolute;
        outline_drawn(
            sectors_drawn(frame, sectors, sectors.len() as int, absolute, camera, colors),
            outline_spec(absolute, camera),
            colors,
        )
    }
}

impl Minimap {
    /// The map that follows this one when the player switches: off, first
    /// person, absolute, and off again.
    pub fn next(self) -> (m: Minimap)
        ensures
            m == match self {
                Minimap::Off => Minimap::FirstPerson,
                Minimap::FirstPerson => Minimap::Absolute,
                Minimap::Absolute => Minimap::Off,
            },
    {
        match self {
            Minimap::Off => Minimap::FirstPerson,
            Minimap::FirstPerson => Minimap::Absolute,
            Minimap::Absolute => Minimap::Off,
        }
    }
}

fn pixel_on_map(view_point: Vec2, absolute: bool, camera: &Camera) -> (p: Pixel)
    ensures
        p == map_pixel(view_point, absolute, *camera),
        -0x8_0000 <= p.x <= 0x8_0000,
        -0x8_0000 <= p.y <= 0x8_0000,
{
    if absolute {
        Position2(view_point).transform(camera.reverse_view_matrix()).to_pixel()
    } else {
        Position2(view_point).to_pixel()
    }
}

/// Works out the ends of a wall on the map.
pub fn marks_of(wall: &Wall, absolute: bool, camera: &Camera) -> (marks: Marks)
    ensures
        marks == marks_spec(*wall, absolute, *camera),
        marks_within_limit(marks),
{
    let view_matrix = camera.view_matrix();
    let view_left = wall.left.transform(view_matrix);
    let view_right = wall.right.transform(view_matrix);

    let mut view_left_after_clip = view_left;
    let mut view_right_after_clip = view_right;

    let clipping = clip_wall(view_left, view_right);
    if let Some((l, r)) = clipping {
        view_left_after_clip = l;
        view_right_after_clip = r;
    }
    Marks {
        left: if absolute { wall.left.to_pixel() } else { view_left.to_pixel() },
        right: if absolute { wall.right.to_pixel() } else { view_right.to_pixel() },
        left_after_clip: pixel_on_map(view_left_after_clip.0, absolute, camera),
        right_after_clip: pixel_on_map(view_right_after_clip.0, absolute, camera),
        clipped_away: clipping.is_none(),
    }
}

/// Whether the marks are near enough to the screen for lines to be drawn
/// between them.
pub open spec fn marks_within_limit(marks: Marks) -> bool {
    &&& crate::draw::within_line_limit(marks.left)
    &&& crate::draw::within_line_limit(marks.right)
    &&& crate::draw::within_line_limit(marks.left_after_clip)
    &&& crate::draw::within_line_limit(marks.right_after_clip)
}

/// Draws a wall on the map.
pub fn draw_marks(frame: &mut [u8], marks: &Marks, color: RawColor, colors: &Colors)
    requires
        old(frame)@.len() == FRAME_BYTES,
        marks_within_limit(*marks),
    ensures
        final(frame)@ == marks_drawn(old(frame)@, *marks, color, *colors),
        final(frame)@.len() == FRAME_BYTES,
{
    if marks.clipped_away {
        draw_line(frame, marks.left, marks.right, colors.wall_clipped);
        return ;
    }
    if marks.left_after_clip != marks.left {
        draw_line(frame, marks.left, marks.left_after_clip, colors.wall_clipped);
    }
    if marks.right_after_clip != marks.right {
        draw_line(frame, marks.right_after_clip, marks.right, colors.wall_clipped);
    }
    draw_line(frame, marks.left_after_clip, marks.right_after_clip, color);
}

/// Draws the walls of one sector on the map.
fn draw_sector_marks(
    frame: &mut [u8],
    sector: &Sector,
    absolute: bool,
    camera: &Camera,
    colors: &Colors,
)
    requires
        old(frame)@.len() == FRAME_BYTES,
    ensures
        final(frame)@ == walls_drawn(
            old(frame)@,
            sector.walls_spec(),
            sector.walls_spec().len() as int,
            absolute,
            *camera,
            *colors,
        ),
        final(frame)@.len() == FRAME_BYTES,
{
    let walls = sector.to_walls();
    let mut w: usize = 0;
    while w < walls.len()
        invariant
            w <= walls@.len(),
            walls@ == sector.walls_spec(),
            frame@.len() == FRAME_BYTES,
            frame@ == walls_drawn(old(frame)@, walls@, w as int, absolute, *camera, *colors),
        decreases walls@.len() - w,
    {
        let marks = marks_of(&walls[w], absolute, camera);
        draw_marks(frame, &marks, walls[w].color, colors);
        w = w + 1;
    }
}

/// Works out where the frustum and the camera lie on the map.
fn outline_of(absolute: bool, camera: &Camera) -> (outline: Outline)
    ensures
        outline == outline_spec(absolute, *camera),
        crate::draw::within_line_limit(outline.near_left),
        crate::draw::within_line_limit(outline.near_right),
        crate::draw::within_line_limit(outline.far_left),
        crate::draw::within_line_limit(outline.far_right),
{
    Outline {
        player: if absolute {
            camera.position.truncate().to_pixel()
        } else {
            Position2(Vec2 { x: 0, y: 0 }).to_pixel()
        },
        near_left: pixel_on_map(Boundary::Left.first(), absolute, camera),
        near_right: pixel_on_map(Boundary::Right.second(), absolute, camera),
        far_left: pixel_on_map(Boundary::Left.second(), absolute, camera),
        far_right: pixel_on_map(Boundary::Right.first(), absolute, camera),
    }
}

/// Draws the frustum and the camera on the map.
fn draw_outline(frame: &mut [u8], outline: &Outline, colors: &Colors)
    requires
        old(frame)@.len() == FRAME_BYTES,
        crate::draw::within_line_limit(outline.near_left),
        crate::draw::within_line_limit(outline.near_right),
        crate::draw::within_line_limit(outline.far_left),
        crate::draw::within_line_limit(outline.far_right),
    ensures
        final(frame)@ == outline_drawn(old(frame)@, *outline, *colors),
        final(frame)@.len() == FRAME_BYTES,
{
    draw_line(frame, outline.near_left, outline.far_left, colors.frustum);
    draw_line(frame, outline.near_right, outline.far_right, colors.frustum);
    draw_line(frame, outline.near_left, outline.near_right, colors.frustum);
    draw_pixel(frame, outline.player, colors.player);
}

/// Draws the overhead map over the frame: every wall of every sector, then
/// the frustum and the camera. With the map off the frame stays as it is.
pub fn draw_minimap_system(
    frame: &mut [u8],
    minimap: Minimap,
    camera: &Camera,
    sectors: &[Sector],
    colors: &Colors,
)
    requires
        old(frame)@.len() == FRAME_BYTES,
    ensures
        final(frame)@ == minimap_spec(old(frame)@, minimap, *camera, sectors@, *colors),
        final(frame)@.len() == FRAME_BYTES,
{
    if minimap == Minimap::Off {
        return ;
    }
    let absolute = minimap == Minimap::Absolute;

    // Draw walls
    let mut s: usize = 0;
    while s < sectors.len()
        invariant
            s <= sectors@.len(),
            frame@.len() == FRAME_BYTES,
            frame@ == sectors_drawn(old(frame)@, sectors@, s as int, absolute, *camera, *colors),
        decreases sectors@.len() - s,
    {
        draw_sector_marks(frame, &sectors[s], absolute, camera, colors);
        s = s + 1;
    }

    // Draw frustum and player
    let outline = outline_of(absolute, camera);
    draw_outline(frame, &outline, colors);
}

} // verus!
