//! Writing pixels, vertical runs and straight lines into a frame.
//!
//! A frame holds `FRAME_BYTES` bytes, four for each pixel, row by row from
//! the top. Drawing a pixel replaces its first three bytes by the colour and
//! leaves the fourth as it is.

use vstd::prelude::*;
use rust_bresenham::Bresenham;
use crate::model::RawColor;
use crate::pixel::{Pixel, FRAME_BYTES, HEIGHT, WIDTH, offset_spec, on_screen};

verus! {

/// Largest magnitude of a coordinate of an end of a line. A line has at
/// most twice as many pixels, which is what memory is asked to hold of it.
pub const LINE_LIMIT: isize = 0x10_0000;

/// The frame after the pixel `(x, y)` was drawn; a pixel off the screen
/// changes nothing.
pub open spec fn put_pixel(frame: Seq<u8>, x: int, y: int, color: RawColor) -> Seq<u8> {
    if on_screen(x, y) {
        let o = offset_spec(x, y);
        frame.update(o, color.0@[0]).update(o + 1, color.0@[1]).update(o + 2, color.0@[2])
    } else {
        frame
    }
}

/// Whether byte `i` of a frame is a colour byte of a pixel in column `x`
/// and in a row from `y_top` up to, not including, `y_bottom`.
pub open spec fn in_run(i: int, x: int, y_top: int, y_bottom: int) -> bool {
    i % 4 < 3 && (i / 4) % (WIDTH as int) == x && y_top <= (i / 4) / (WIDTH as int) < y_bottom
}

/// The frame after the rows from `y_top` up to, not including, `y_bottom`
/// of column `x` were drawn.
pub open spec fn vertical_line(
    frame: Seq<u8>,
    x: int,
    y_top: int,
    y_bottom: int,
    color: RawColor,
) -> Seq<u8> {
    Seq::new(
        frame.len(),
        |i: int|
            if in_run(i, x, y_top, y_bottom) {
                color.0@[i % 4]
            } else {
                frame[i]
            },
    )
}

/// The frame after the pixels of `points` were drawn in order.
pub open spec fn put_pixels(frame: Seq<u8>, points: Seq<(isize, isize)>, color: RawColor) -> Seq<
    u8,
>
    decreases points.len(),
{
    if points.len() == 0 {
        frame
    } else {
        put_pixel(
            put_pixels(frame, points.drop_last(), color),
            points.last().0 as int,
            points.last().1 as int,
            color,
        )
    }
}

/// The frame after the straight line between `a` and `b` was drawn.
pub open spec fn line(frame: Seq<u8>, a: Pixel, b: Pixel, color: RawColor) -> Seq<u8> {
    put_pixels(frame, line_points(a.x as int, a.y as int, b.x as int, b.y as int), color)
}

/// The frame with every pixel black and every fourth byte 255.
pub open spec fn background(len: nat) -> Seq<u8> {
    Seq::new(len, |i: int| if i % 4 == 3 { 255u8 } else { 0u8 })
}

/// The pixels that a line from `(x0, y0)` to `(x1, y1)` passes between its
/// two ends, in order from the first end.
pub uninterp spec fn line_points(x0: int, y0: int, x1: int, y1: int) -> Seq<(isize, isize)>;

/// Whether both coordinates of `p` are within `LINE_LIMIT` of zero.
pub open spec fn within_line_limit(p: Pixel) -> bool {
    -LINE_LIMIT <= p.x <= LINE_LIMIT && -LINE_LIMIT <= p.y <= LINE_LIMIT
}

/// An empty run draws nothing.
pub proof fn lemma_vertical_line_empty(
    frame: Seq<u8>,
    x: int,
    y_top: int,
    y_bottom: int,
    color: RawColor,
)
    requires
        y_top >= y_bottom,
    ensures
        vertical_line(frame, x, y_top, y_bottom, color) == frame,
{
    assert(vertical_line(frame, x, y_top, y_bottom, color) =~= frame);
}

/// Only the part of a run that is on the screen is drawn: a column off the
/// screen draws nothing, and rows above the first or below the last row of
/// the screen add nothing.
pub proof fn lemma_vertical_line_on_screen(
    frame: Seq<u8>,
    x: int,
    y_top: int,
    y_bottom: int,
    color: RawColor,
)
    requires
        frame.len() == FRAME_BYTES,
    ensures
        !(0 <= x < WIDTH) ==> vertical_line(frame, x, y_top, y_bottom, color) == frame,
        vertical_line(frame, x, y_top, y_bottom, color) == vertical_line(
            frame,
            x,
            if y_top < 0 { 0 } else { y_top },
            if y_bottom > HEIGHT { HEIGHT as int } else { y_bottom },
            color,
        ),
{
    let top = if y_top < 0 { 0 } else { y_top };
    let bottom = if y_bottom > HEIGHT { HEIGHT as int } else { y_bottom };
    assert forall|i: int| 0 <= i < FRAME_BYTES implies in_run(i, x, y_top, y_bottom) == in_run(
        i,
        x,
        top,
        bottom,
    ) && (in_run(i, x, y_top, y_bottom) ==> 0 <= x < WIDTH) by {
        assert(0 <= (i / 4) / (WIDTH as int) < HEIGHT);
        assert(0 <= (i / 4) % (WIDTH as int) < WIDTH);
    }
    assert(vertical_line(frame, x, y_top, y_bottom, color) =~= vertical_line(
        frame,
        x,
        top,
        bottom,
        color,
    ));
    if !(0 <= x < WIDTH) {
        assert(vertical_line(frame, x, y_top, y_bottom, color) =~= frame);
    }
}

/// `Bresenham::new(a, b)` of the crate `rust_bresenham`, run to its end. The
/// iterator steps from `a` towards `b` and hands out every pixel it reaches
/// before `b`; `a` and `b` themselves are not among them. What it yields
/// depends on the two ends alone and is named `line_points`. The bound on
/// the ends keeps its arithmetic on `isize` from overflowing and the list
/// of pixels of a size that memory holds.
#[verifier::external_body]
fn bresenham(a: (isize, isize), b: (isize, isize)) -> (points: Vec<(isize, isize)>)
    requires
        -LINE_LIMIT <= a.0 <= LINE_LIMIT,
        -LINE_LIMIT <= a.1 <= LINE_LIMIT,
        -LINE_LIMIT <= b.0 <= LINE_LIMIT,
        -LINE_LIMIT <= b.1 <= LINE_LIMIT,
    ensures
        points@ == line_points(a.0 as int, a.1 as int, b.0 as int, b.1 as int),
{
    Bresenham::new(a, b).collect()
}

/// Draws one pixel if it is on the screen.
pub fn draw_pixel(frame: &mut [u8], pixel: Pixel, color: RawColor)
    requires
        old(frame)@.len() == FRAME_BYTES,
    ensures
        final(frame)@ == put_pixel(old(frame)@, pixel.x as int, pixel.y as int, color),
        final(frame)@.len() == FRAME_BYTES,
{
    if let Some(offset) = pixel.to_offset() {
        frame[offset] = color.0[0];
        frame[offset + 1] = color.0[1];
        frame[offset + 2] = color.0[2];
    }
}

/// Draws one pixel that is on the screen.
pub fn draw_pixel_unchecked(frame: &mut [u8], pixel: Pixel, color: RawColor)
    requires
        old(frame)@.len() == FRAME_BYTES,
        pixel.visible(),
    ensures
        final(frame)@ == put_pixel(old(frame)@, pixel.x as int, pixel.y as int, color),
        final(frame)@.len() == FRAME_BYTES,
{
    let offset = pixel.to_offset_unchecked();
    frame[offset] = color.0[0];
    frame[offset + 1] = color.0[1];
    frame[offset + 2] = color.0[2];
}

/// Draws the rows from `y_top` up to, not including, `y_bottom` of column
/// `x`, as far as they are on the screen. Nothing is drawn where `y_top` is
/// not above `y_bottom`, nor in a column off the screen.
pub fn draw_vertical_line(frame: &mut [u8], x: isize, y_top: isize, y_bottom: isize, color: RawColor)
    requires
        old(frame)@.len() == FRAME_BYTES,
    ensures
        final(frame)@ == vertical_line(old(frame)@, x as int, y_top as int, y_bottom as int, color),
        final(frame)@.len() == FRAME_BYTES,
{
    proof {
        lemma_vertical_line_on_screen(frame@, x as int, y_top as int, y_bottom as int, color);
    }
    if x < 0 || x >= WIDTH as isize {
        return ;
    }
    let top: isize = if y_top < 0 { 0 } else { y_top };
    let bottom: isize = if y_bottom > HEIGHT as isize { HEIGHT as isize } else { y_bottom };
    if top >= bottom {
        proof {
            lemma_vertical_line_empty(frame@, x as int, top as int, bottom as int, color);
        }
        return ;
    }
    let mut y: isize = top;
    assert(frame@ =~= vertical_line(old(frame)@, x as int, top as int, y as int, color));
    while y < bottom
        invariant
            0 <= x < WIDTH,
            0 <= top <= y <= bottom <= HEIGHT,
            frame@.len() == FRAME_BYTES,
            old(frame)@.len() == FRAME_BYTES,
            frame@ == vertical_line(old(frame)@, x as int, top as int, y as int, color),
        decreases bottom - y,
    {
        draw_pixel_unchecked(frame, Pixel::new(x, y), color);
        proof {
            let o = offset_spec(x as int, y as int);
            let after = vertical_line(old(frame)@, x as int, top as int, y + 1, color);
            assert forall|i: int| 0 <= i < FRAME_BYTES implies frame@[i] == after[i] by {
                if o <= i < o + 3 {
                    assert(i / 4 == y * WIDTH + x);
                    assert(in_run(i, x as int, top as int, y + 1));
                } else if in_run(i, x as int, top as int, y + 1) {
                    assert(in_run(i, x as int, top as int, y as int));
                }
            }
            assert(frame@ =~= after);
        }
        y = y + 1;
    }
}

/// Draws the pixels of `points` in order, each one if it is on the screen.
pub fn draw_pixels(frame: &mut [u8], points: &Vec<(isize, isize)>, color: RawColor)
    requires
        old(frame)@.len() == FRAME_BYTES,
    ensures
        final(frame)@ == put_pixels(old(frame)@, points@, color),
        final(frame)@.len() == FRAME_BYTES,
{
    let mut i: usize = 0;
    while i < points.len()
        invariant
            i <= points@.len(),
            frame@.len() == FRAME_BYTES,
            frame@ == put_pixels(old(frame)@, points@.take(i as int), color),
        decreases points@.len() - i,
    {
        let point = points[i];
        draw_pixel(frame, Pixel::new(point.0, point.1), color);
        proof {
            assert(points@.take(i + 1).drop_last() =~= points@.take(i as int));
        }
        i = i + 1;
    }
    proof {
        assert(points@.take(i as int) =~= points@);
    }
}

/// Draws the straight line between `a` and `b`: the pixels that lie between
/// the two ends, each one if it is on the screen. The ends themselves are
/// left as they are.
pub fn draw_line(frame: &mut [u8], a: Pixel, b: Pixel, color: RawColor)
    requires
        old(frame)@.len() == FRAME_BYTES,
        within_line_limit(a),
        within_line_limit(b),
    ensures
        final(frame)@ == line(old(frame)@, a, b, color),
        final(frame)@.len() == FRAME_BYTES,
{
    let points = bresenham(a.to_tuple(), b.to_tuple());
    draw_pixels(frame, &points, color);
}

/// Clears the frame: every pixel black, every fourth byte 255.
pub fn draw_background(frame: &mut [u8])
    ensures
        final(frame)@ == background(old(frame)@.len()),
{
    let n: usize = frame.len();
    let mut i: usize = 0;
    while i < n
        invariant
            i <= n,
            n == frame@.len(),
            n == old(frame)@.len(),
            forall|k: int| 0 <= k < i ==> frame@[k] == background(n as nat)[k],
        decreases n - i,
    {
        frame[i] = if i % 4 == 3 { 255u8 } else { 0u8 };
        i = i + 1;
    }
    proof {
        assert(frame@ =~= background(n as nat));
    }
}

} // verus!
