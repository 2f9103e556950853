//! A portal renderer in software: a first-person view of convex rooms that
//! open onto each other, drawn column by column into a frame of bytes, with
//! an overhead map beside it.
//!
//! A scene is a list of sectors. Each sector is a convex polygon with a
//! floor and a ceiling; each of its edges is a wall, or a portal onto
//! another sector. A frame starts with the sector of the camera. Its walls
//! are moved into the coordinates of the camera, clipped against the view
//! frustum, projected, and drawn into the rows that are still open in each
//! column. A portal leaves its opening open and queues the sector behind it,
//! which is drawn into that opening in its turn.
//!
//! All numbers are integers. World lengths are fixed-point numbers of
//! sixteen fractional bits, pixels are whole numbers, and every quotient is
//! rounded to the nearest integer. No operation overflows or divides by
//! zero, and what each function computes is stated over the integers.

pub mod clip;
pub mod draw;
pub mod math;
pub mod minimap;
pub mod model;
pub mod pixel;
pub mod project;
pub mod raster;
pub mod render;
pub mod utils;

pub use crate::clip::{clip_wall, Boundary, FAR, NEAR, X_FAR, X_NEAR};
pub use crate::draw::{
    draw_background, draw_line, draw_pixel, draw_pixel_unchecked, draw_pixels, draw_vertical_line,
};
pub use crate::math::{Vec2, Vec3, ONE};
pub use crate::minimap::{draw_minimap_system, Minimap};
pub use crate::model::{
    missing_wall_color, Camera, Direction, InitialSector, Length, Mat3, Portal, Position2,
    Position3, RawColor, Sector, SectorId, Wall,
};
pub use crate::pixel::{
    Pixel, FRAC_HEIGHT_2, FRAC_WIDTH_2, FRAME_BYTES, HEIGHT, MINIMAP_SCALE, WIDTH,
};
pub use crate::project::{project, Normalized};
pub use crate::raster::{Colors, Spans, BRIGHTNESS_FAR, BRIGHTNESS_NEAR, GAP};
pub use crate::render::{draw_wall_system, PORTAL_LIMIT};
pub use crate::utils::{between, intersect, lerp, lerpi, point_behind};
