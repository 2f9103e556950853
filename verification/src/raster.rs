//! The column rasterizer: for each screen column the rows that are still
//! open, and the drawing of one wall into them.
//!
//! A wall takes the ceiling above it and the floor below it with it. A
//! solid wall closes its columns. A portal leaves its opening: the rows
//! between the upper and the lower band of wall that remain where the next
//! sector is lower or shallower than this one.

use vstd::prelude::*;
use crate::clip::{FAR, NEAR};
use crate::draw::{draw_vertical_line, lemma_vertical_line_empty, vertical_line};
use crate::math::{clamp_int, div_round, fraction, fraction_spec, lemma_fraction_unit, round_div};
use crate::model::RawColor;
use crate::pixel::{Pixel, FRAME_BYTES, HEIGHT, WIDTH};
use crate::utils::{clamp, lemma_lerp_ordered_ends, lerp, lerp_spec, lerpi, lerpi_spec};

verus! {

/// Rows and columns left free at the edge of a run of pixels.
pub const GAP: isize = 1;

/// Brightness of a wall at the near plane, in percent.
pub const BRIGHTNESS_NEAR: u8 = 100;

/// Brightness of a wall at the far plane, in percent.
pub const BRIGHTNESS_FAR: u8 = 0;

/// The colours that do not depend on the scene.
#[derive(Clone, Copy, Debug)]
pub struct Colors {
    pub ceiling: RawColor,
    pub floor: RawColor,
    pub wall_clipped: RawColor,
    pub frustum: RawColor,
    pub player: RawColor,
}

/// The rows that are still open in each column of the screen: those from
/// `y_min` up to, not including, `y_max`.
#[derive(Debug)]
pub struct Spans {
    pub y_min: Vec<isize>,
    pub y_max: Vec<isize>,
}

/// The opening of a portal on the screen: the rows at the two ends of the
/// wall where the upper band ends and where the lower band begins. A band
/// that is missing leaves the opening as high as the wall there.
#[derive(Clone, Copy, Debug)]
pub struct Opening {
    pub top: Option<(isize, isize)>,
    pub bottom: Option<(isize, isize)>,
}

/// A wall as it appears on the screen: its four corners, the depth of its
/// two ends, its colour and, for a portal, its opening.
#[derive(Clone, Copy, Debug)]
pub struct Face {
    pub left_top: Pixel,
    pub left_bottom: Pixel,
    pub right_top: Pixel,
    pub right_bottom: Pixel,
    pub depth_left: i32,
    pub depth_right: i32,
    pub color: RawColor,
    pub opening: Option<Opening>,
}

/// What is drawn of a wall in one column: the wall from `y_top` to
/// `y_bottom`, of it the bands above `open_top` and below `open_bottom`,
/// in `color`. The rows between `open_top` and `open_bottom` stay open.
#[derive(Clone, Copy, Debug)]
pub struct ColumnPlan {
    pub y_top: isize,
    pub y_bottom: isize,
    pub open_top: isize,
    pub open_bottom: isize,
    pub color: RawColor,
}

/// A frame together with the open rows of its columns.
pub struct Canvas {
    pub frame: Seq<u8>,
    pub y_min: Seq<isize>,
    pub y_max: Seq<isize>,
}

/// The brightness, in percent, of a wall at `distance`: `BRIGHTNESS_NEAR`
/// nearer than the near plane, `BRIGHTNESS_FAR` beyond the far plane, and
/// in between the two in proportion, rounded to a whole percent.
pub open spec fn brightness_spec(distance: int) -> int {
    if distance > FAR {
        BRIGHTNESS_FAR as int
    } else if distance < NEAR {
        BRIGHTNESS_NEAR as int
    } else {
        round_div(
            BRIGHTNESS_NEAR * (FAR - distance) + BRIGHTNESS_FAR * (distance - NEAR),
            (FAR - NEAR) as int,
        )
    }
}

/// The largest of the three channels of a colour.
pub open spec fn brightest(color: RawColor) -> int {
    let r = color.0@[0] as int;
    let g = color.0@[1] as int;
    let b = color.0@[2] as int;
    if r >= g && r >= b {
        r
    } else if g >= b {
        g
    } else {
        b
    }
}

/// One channel of a shaded colour: the channel in proportion to the
/// brightest one, which becomes `level` percent of 255. Black has no
/// proportions and becomes grey.
pub open spec fn shade_channel(channel: int, brightest: int, level: int) -> int {
    let l = if level > 100 { 100 } else { level };
    if brightest == 0 {
        round_div(255 * l, 100)
    } else {
        round_div(channel * 255 * l, 100 * brightest)
    }
}

/// The colour with its hue and saturation kept and its brightness set to
/// `level` percent; a level above 100 counts as 100.
pub open spec fn shade_spec(color: RawColor, level: int) -> RawColor {
    let m = brightest(color);
    RawColor(
        [
            shade_channel(color.0@[0] as int, m, level) as u8,
            shade_channel(color.0@[1] as int, m, level) as u8,
            shade_channel(color.0@[2] as int, m, level) as u8,
        ],
    )
}

/// How far column `x` lies between the two ends of the wall, as a
/// fixed-point fraction.
pub open spec fn column_fraction(face: Face, x: int) -> int {
    fraction_spec(x - face.left_top.x, face.right_top.x - face.left_top.x)
}

/// The distance of the wall in column `x`.
pub open spec fn column_distance(face: Face, x: int) -> int {
    let depth = lerp_spec(face.depth_left as int, face.depth_right as int, column_fraction(face, x));
    if depth < 0 {
        -depth
    } else {
        depth
    }
}

/// What is drawn of the wall in column `x`, of which the rows from `y_min`
/// to `y_max` are open. The top and the bottom of the wall are limited to
/// the open rows. A solid wall leaves nothing open. A portal leaves its
/// opening: the upper band ends between `y_min` and the bottom of the wall,
/// the lower band begins between the top of the wall and `y_max`.
pub open spec fn plan_spec(face: Face, x: int, y_min: int, y_max: int) -> ColumnPlan {
    let t = column_fraction(face, x);
    let y_top = clamp_int(lerpi_spec(face.left_top.y as int, face.right_top.y as int, t), y_min, y_max);
    let y_bottom = clamp_int(
        lerpi_spec(face.left_bottom.y as int, face.right_bottom.y as int, t),
        y_min,
        y_max,
    );
    let open_top = match face.opening {
        Some(Opening { top: Some(ends), .. }) => clamp_int(
            lerpi_spec(ends.0 as int, ends.1 as int, t),
            y_min,
            y_bottom,
        ),
        _ => y_top,
    };
    let open_bottom = match face.opening {
        Some(Opening { bottom: Some(ends), .. }) => clamp_int(
            lerpi_spec(ends.0 as int, ends.1 as int, t),
            y_top,
            y_max,
        ),
        Some(Opening { bottom: None, .. }) => y_bottom,
        None => y_top,
    };
    ColumnPlan {
        y_top: y_top as isize,
        y_bottom: y_bottom as isize,
        open_top: open_top as isize,
        open_bottom: open_bottom as isize,
        color: shade_spec(face.color, brightness_spec(column_distance(face, x))),
    }
}

/// The frame after column `x` was painted to `plan`: the ceiling from
/// `y_min` down to the wall, the two bands of the wall, the floor from the
/// wall down to `y_max`, each run ending `GAP` rows early.
pub open spec fn paint_spec(
    frame: Seq<u8>,
    x: int,
    y_min: int,
    y_max: int,
    plan: ColumnPlan,
    floor_and_ceiling: bool,
    wall: bool,
    colors: Colors,
) -> Seq<u8> {
    let with_ceiling = if floor_and_ceiling {
        vertical_line(frame, x, y_min, plan.y_top - GAP, colors.ceiling)
    } else {
        frame
    };
    let with_wall = if wall {
        vertical_line(
            vertical_line(with_ceiling, x, plan.y_top as int, plan.open_top - GAP, plan.color),
            x,
            plan.open_bottom as int,
            plan.y_bottom - GAP,
            plan.color,
        )
    } else {
        with_ceiling
    };
    if floor_and_ceiling {
        vertical_line(with_wall, x, plan.y_bottom as int, y_max - GAP, colors.floor)
    } else {
        with_wall
    }
}

impl Face {
    /// Whether the wall stands upright on the screen: its right end to the
    /// right of its left end, at neither end its top below its bottom, and
    /// at neither end the end of an upper band below the beginning of a
    /// lower band.
    pub open spec fn upright(self) -> bool {
        &&& self.left_top.x < self.right_top.x
        &&& self.left_top.y <= self.left_bottom.y
        &&& self.right_top.y <= self.right_bottom.y
        &&& match self.opening {
            Some(Opening { top: Some(above), bottom: Some(below) }) => above.0 <= below.0 && above.1
                <= below.1,
            _ => true,
        }
    }
}

impl Canvas {
    /// Whether the canvas has the size of the screen and its open rows lie
    /// on the screen.
    pub open spec fn wf(self) -> bool {
        &&& self.frame.len() == FRAME_BYTES
        &&& self.y_min.len() == WIDTH
        &&& self.y_max.len() == WIDTH
        &&& forall|x: int| 0 <= x < WIDTH ==> 0 <= #[trigger] self.y_min[x] <= HEIGHT
        &&& forall|x: int| 0 <= x < WIDTH ==> 0 <= #[trigger] self.y_max[x] <= HEIGHT
    }

    /// Whether no column of `self` has an open row that `earlier` has not.
    pub open spec fn within(self, earlier: Canvas) -> bool {
        &&& self.y_min.len() == earlier.y_min.len()
        &&& self.y_max.len() == earlier.y_max.len()
        &&& forall|x: int|
            0 <= x < self.y_min.len() ==> #[trigger] self.y_min[x] >= earlier.y_min[x]
        &&& forall|x: int|
            0 <= x < self.y_max.len() ==> #[trigger] self.y_max[x] <= earlier.y_max[x]
    }

    /// Whether in each column the first open row is not below the row at
    /// which the open rows end.
    pub open spec fn ordered(self) -> bool {
        forall|x: int| 0 <= x < self.y_min.len() ==> #[trigger] self.y_min[x] <= self.y_max[x]
    }

    /// The canvas after the wall was drawn into column `x`. A column
    /// without open rows is left as it is. `x_right` is where the wall ends
    /// and `x_limit` where the columns end that its sector may use; the
    /// last `GAP` columns before each stay free of wall or of floor and
    /// ceiling.
    pub open spec fn column(self, face: Face, x: int, x_right: int, x_limit: int, colors: Colors) -> Canvas {
        let y_min = self.y_min[x] as int;
        let y_max = self.y_max[x] as int;
        if y_min >= y_max {
            self
        } else {
            let plan = plan_spec(face, x, y_min, y_max);
            Canvas {
                frame: paint_spec(
                    self.frame,
                    x,
                    y_min,
                    y_max,
                    plan,
                    x < x_limit - GAP,
                    x < x_right - GAP,
                    colors,
                ),
                y_min: self.y_min.update(x, plan.open_top),
                y_max: self.y_max.update(x, plan.open_bottom),
            }
        }
    }

    /// The canvas after the wall was drawn into the columns from `x_left`
    /// up to, not including, `x`, from left to right.
    pub open spec fn columns(
        self,
        face: Face,
        x_left: int,
        x: int,
        x_right: int,
        x_limit: int,
        colors: Colors,
    ) -> Canvas
        decreases x - x_left,
    {
        if x <= x_left {
            self
        } else {
            self.columns(face, x_left, x - 1, x_right, x_limit, colors).column(
                face,
                x - 1,
                x_right,
                x_limit,
                colors,
            )
        }
    }
}

impl Spans {
    /// Whether there is a pair of bounds for each column of the screen and
    /// each lies on the screen.
    pub open spec fn wf(&self) -> bool {
        &&& self.y_min@.len() == WIDTH
        &&& self.y_max@.len() == WIDTH
        &&& forall|x: int| 0 <= x < WIDTH ==> 0 <= #[trigger] self.y_min@[x] <= HEIGHT
        &&& forall|x: int| 0 <= x < WIDTH ==> 0 <= #[trigger] self.y_max@[x] <= HEIGHT
    }

    /// The spans at the start of a frame: every column open from row `GAP`
    /// to row `HEIGHT - GAP`.
    pub fn new() -> (spans: Spans)
        ensures
            spans.wf(),
            forall|x: int| 0 <= x < WIDTH ==> spans.y_min@[x] == GAP && spans.y_max@[x] == HEIGHT - GAP,
    {
        let mut y_min: Vec<isize> = Vec::new();
        let mut y_max: Vec<isize> = Vec::new();
        let mut x: u32 = 0;
        while x < WIDTH
            invariant
                x <= WIDTH,
                y_min@.len() == x,
                y_max@.len() == x,
                forall|k: int| 0 <= k < x ==> y_min@[k] == GAP && y_max@[k] == HEIGHT - GAP,
            decreases WIDTH - x,
        {
            y_min.push(GAP);
            y_max.push(HEIGHT as isize - GAP);
            x = x + 1;
        }
        Spans { y_min, y_max }
    }
}

/// Drawing a wall into one column opens no row of any column.
pub proof fn lemma_column_never_widens(
    canvas: Canvas,
    face: Face,
    x: int,
    x_right: int,
    x_limit: int,
    colors: Colors,
)
    requires
        canvas.wf(),
        0 <= x < WIDTH,
    ensures
        canvas.column(face, x, x_right, x_limit, colors).within(canvas),
        canvas.column(face, x, x_right, x_limit, colors).wf(),
{
    let after = canvas.column(face, x, x_right, x_limit, colors);
    let y_min = canvas.y_min[x] as int;
    let y_max = canvas.y_max[x] as int;
    if y_min < y_max {
        let plan = plan_spec(face, x, y_min, y_max);
        assert(y_min <= plan.open_top <= y_max);
        assert(y_min <= plan.open_bottom <= y_max);
        assert forall|k: int| 0 <= k < WIDTH implies 0 <= #[trigger] after.y_min[k] <= HEIGHT by {
            assert(0 <= canvas.y_min[k] <= HEIGHT);
        }
        assert forall|k: int| 0 <= k < WIDTH implies 0 <= #[trigger] after.y_max[k] <= HEIGHT by {
            assert(0 <= canvas.y_max[k] <= HEIGHT);
        }
    }
}

/// Drawing a wall into a run of columns opens no row of any column: the
/// open rows of a column only ever become fewer.
pub proof fn lemma_columns_never_widen(
    canvas: Canvas,
    face: Face,
    x_left: int,
    x: int,
    x_right: int,
    x_limit: int,
    colors: Colors,
)
    requires
        canvas.wf(),
        0 <= x_left <= WIDTH,
        x <= WIDTH,
    ensures
        canvas.columns(face, x_left, x, x_right, x_limit, colors).within(canvas),
        canvas.columns(face, x_left, x, x_right, x_limit, colors).wf(),
    decreases x - x_left,
{
    if x > x_left {
        lemma_columns_never_widen(canvas, face, x_left, x - 1, x_right, x_limit, colors);
        lemma_column_never_widens(
            canvas.columns(face, x_left, x - 1, x_right, x_limit, colors),
            face,
            x - 1,
            x_right,
            x_limit,
            colors,
        );
    }
}

/// In a column that an upright wall covers, the rows that its plan leaves
/// open do not end above their beginning.
pub proof fn lemma_plan_ordered(face: Face, x: int, y_min: int, y_max: int)
    requires
        face.upright(),
        face.left_top.x <= x <= face.right_top.x,
        isize::MIN <= y_min <= y_max <= isize::MAX,
    ensures
        plan_spec(face, x, y_min, y_max).y_top <= plan_spec(face, x, y_min, y_max).y_bottom,
        plan_spec(face, x, y_min, y_max).open_top <= plan_spec(face, x, y_min, y_max).open_bottom,
{
    let t = column_fraction(face, x);
    lemma_fraction_unit(x - face.left_top.x, face.right_top.x - face.left_top.x);
    lemma_lerp_ordered_ends(
        face.left_top.y as int,
        face.right_top.y as int,
        face.left_bottom.y as int,
        face.right_bottom.y as int,
        t,
    );
    match face.opening {
        Some(Opening { top: Some(above), bottom: Some(below) }) => {
            lemma_lerp_ordered_ends(
                above.0 as int,
                above.1 as int,
                below.0 as int,
                below.1 as int,
                t,
            );
        },
        _ => {},
    }
}

/// Drawing an upright wall into one of its columns leaves no column with
/// its open rows ending above their beginning.
pub proof fn lemma_column_keeps_order(
    canvas: Canvas,
    face: Face,
    x: int,
    x_right: int,
    x_limit: int,
    colors: Colors,
)
    requires
        canvas.wf(),
        canvas.ordered(),
        face.upright(),
        0 <= x < WIDTH,
        face.left_top.x <= x <= face.right_top.x,
    ensures
        canvas.column(face, x, x_right, x_limit, colors).ordered(),
{
    let after = canvas.column(face, x, x_right, x_limit, colors);
    let y_min = canvas.y_min[x] as int;
    let y_max = canvas.y_max[x] as int;
    if y_min < y_max {
        lemma_plan_ordered(face, x, y_min, y_max);
        assert forall|k: int| 0 <= k < after.y_min.len() implies #[trigger] after.y_min[k]
            <= after.y_max[k] by {
            assert(canvas.y_min[k] <= canvas.y_max[k]);
        }
    }
}

/// Drawing an upright wall into a run of its columns leaves no column with
/// its open rows ending above their beginning.
pub proof fn lemma_columns_keep_order(
    canvas: Canvas,
    face: Face,
    x_left: int,
    x: int,
    x_right: int,
    x_limit: int,
    colors: Colors,
)
    requires
        canvas.wf(),
        canvas.ordered(),
        face.upright(),
        0 <= x_left <= WIDTH,
        x <= WIDTH,
        x_left < x ==> face.left_top.x <= x_left && x <= face.right_top.x,
    ensures
        canvas.columns(face, x_left, x, x_right, x_limit, colors).ordered(),
    decreases x - x_left,
{
    if x > x_left {
        lemma_columns_keep_order(canvas, face, x_left, x - 1, x_right, x_limit, colors);
        lemma_columns_never_widen(canvas, face, x_left, x - 1, x_right, x_limit, colors);
        lemma_column_keeps_order(
            canvas.columns(face, x_left, x - 1, x_right, x_limit, colors),
            face,
            x - 1,
            x_right,
            x_limit,
            colors,
        );
    }
}

/// The canvas that a frame and its spans make.
pub open spec fn canvas_of(frame: Seq<u8>, spans: Spans) -> Canvas {
    Canvas { frame, y_min: spans.y_min@, y_max: spans.y_max@ }
}

/// Computes the brightness of a wall at `distance`.
pub fn brightness(distance: u32) -> (level: u8)
    ensures
        level == brightness_spec(distance as int),
        level <= 100,
{
    if distance > FAR as u32 {
        BRIGHTNESS_FAR
    } else if distance < NEAR as u32 {
        BRIGHTNESS_NEAR
    } else {
        let span: i128 = (FAR - NEAR) as i128;
        let weighted: i128 = BRIGHTNESS_NEAR as i128 * (FAR as i128 - distance as i128)
            + BRIGHTNESS_FAR as i128 * (distance as i128 - NEAR as i128);
        let level: i128 = div_round(weighted, span);
        proof {
            crate::math::lemma_round_div_monotonic(weighted as int, span as int, 100);
            crate::math::lemma_round_div_monotonic(weighted as int, span as int, 0);
        }
        level as u8
    }
}

fn shade_one(channel: u8, brightest: u8, level: u8) -> (r: u8)
    requires
        channel <= brightest,
    ensures
        r == shade_channel(channel as int, brightest as int, level as int),
{
    let l: i128 = if level > 100 { 100 } else { level as i128 };
    if brightest == 0 {
        let v: i128 = div_round(255 * l, 100);
        proof {
            crate::math::lemma_round_div_monotonic(255 * l, 100, 255);
            crate::math::lemma_round_div_monotonic(255 * l, 100, 0);
        }
        v as u8
    } else {
        let den: i128 = 100 * brightest as i128;
        assert(0 <= (channel * 255) * l <= 255 * den) by (nonlinear_arith)
            requires
                0 <= channel <= brightest,
                0 <= l <= 100,
                den == 100 * brightest,
        ;
        let num: i128 = channel as i128 * 255 * l;
        let v: i128 = div_round(num, den);
        proof {
            crate::math::lemma_round_div_monotonic(num as int, den as int, 255);
            crate::math::lemma_round_div_monotonic(num as int, den as int, 0);
            assert(0 * den == 0);
        }
        v as u8
    }
}

/// Shades a colour: keeps its hue and saturation and sets its brightness
/// to `level` percent.
pub fn shade(color: RawColor, level: u8) -> (shaded: RawColor)
    ensures
        shaded == shade_spec(color, level as int),
{
    let r: u8 = color.0[0];
    let g: u8 = color.0[1];
    let b: u8 = color.0[2];
    let m: u8 = if r >= g && r >= b { r } else if g >= b { g } else { b };
    let shaded = RawColor([shade_one(r, m, level), shade_one(g, m, level), shade_one(b, m, level)]);
    proof {
        assert(shaded.0@ =~= shade_spec(color, level as int).0@);
    }
    shaded
}

/// Plans column `x` of a wall, of which the rows from `y_min` to `y_max`
/// are open.
pub fn plan_column(face: &Face, x: isize, y_min: isize, y_max: isize) -> (plan: ColumnPlan)
    ensures
        plan == plan_spec(*face, x as int, y_min as int, y_max as int),
        y_min <= y_max ==> y_min <= plan.y_top <= y_max && y_min <= plan.y_bottom <= y_max,
        y_min <= y_max ==> y_min <= plan.open_top <= y_max && y_min <= plan.open_bottom <= y_max,
{
    let t: i32 = fraction(
        x as i128 - face.left_top.x as i128,
        face.right_top.x as i128 - face.left_top.x as i128,
    );

    // Interpolate depth for distance
    let depth: i64 = lerp(face.depth_left, face.depth_right, t) as i64;
    let distance: u32 = if depth < 0 { (-depth) as u32 } else { depth as u32 };
    let color = shade(face.color, brightness(distance));

    // Interpolate and clip y
    let y_top = clamp(lerpi(face.left_top.y, face.right_top.y, t), y_min, y_max);
    let y_bottom = clamp(lerpi(face.left_bottom.y, face.right_bottom.y, t), y_min, y_max);

    let (open_top, open_bottom) = match face.opening {
        Some(opening) => {
            let open_top = match opening.top {
                Some(ends) => clamp(lerpi(ends.0, ends.1, t), y_min, y_bottom),
                None => y_top,
            };
            let open_bottom = match opening.bottom {
                Some(ends) => clamp(lerpi(ends.0, ends.1, t), y_top, y_max),
                None => y_bottom,
            };
            (open_top, open_bottom)
        },
        None => (y_top, y_top),
    };
    ColumnPlan { y_top, y_bottom, open_top, open_bottom, color }
}

/// Draws the rows of column `x` from `y_top` up to the gap before `y_end`.
fn draw_run(frame: &mut [u8], x: isize, y_top: isize, y_end: isize, color: RawColor)
    requires
        old(frame)@.len() == FRAME_BYTES,
    ensures
        final(frame)@ == vertical_line(old(frame)@, x as int, y_top as int, y_end - GAP, color),
        final(frame)@.len() == FRAME_BYTES,
{
    if y_end > isize::MIN {
        draw_vertical_line(frame, x, y_top, y_end - GAP, color);
    } else {
        proof {
            lemma_vertical_line_empty(frame@, x as int, y_top as int, y_end - GAP, color);
        }
    }
}

/// Paints column `x` to `plan`.
pub fn paint_column(
    frame: &mut [u8],
    x: isize,
    y_min: isize,
    y_max: isize,
    plan: &ColumnPlan,
    floor_and_ceiling: bool,
    wall: bool,
    colors: &Colors,
)
    requires
        old(frame)@.len() == FRAME_BYTES,
    ensures
        final(frame)@ == paint_spec(
            old(frame)@,
            x as int,
            y_min as int,
            y_max as int,
            *plan,
            floor_and_ceiling,
            wall,
            *colors,
        ),
        final(frame)@.len() == FRAME_BYTES,
{
    // Draw ceiling
    if floor_and_ceiling {
        draw_run(frame, x, y_min, plan.y_top, colors.ceiling);
    }

    // Draw wall above and below the opening
    if wall {
        draw_run(frame, x, plan.y_top, plan.open_top, plan.color);
        draw_run(frame, x, plan.open_bottom, plan.y_bottom, plan.color);
    }

    // Draw floor
    if floor_and_ceiling {
        draw_run(frame, x, plan.y_bottom, y_max, colors.floor);
    }
}

/// Draws a wall into column `x` and takes from the open rows of the column
/// what the wall, its ceiling and its floor cover. A column without open
/// rows is left as it is. After the call the column has no open row that it
/// had not before.
pub fn draw_column(
    frame: &mut [u8],
    spans: &mut Spans,
    face: &Face,
    x: isize,
    x_right: isize,
    x_limit: isize,
    colors: &Colors,
)
    requires
        old(frame)@.len() == FRAME_BYTES,
        old(spans).wf(),
        0 <= x < WIDTH,
    ensures
        canvas_of(final(frame)@, *final(spans)) == canvas_of(old(frame)@, *old(spans)).column(
            *face,
            x as int,
            x_right as int,
            x_limit as int,
            *colors,
        ),
        final(frame)@.len() == FRAME_BYTES,
        final(spans).wf(),
        canvas_of(final(frame)@, *final(spans)).within(canvas_of(old(frame)@, *old(spans))),
{
    // Get y bounds
    let y_min = spans.y_min[x as usize];
    let y_max = spans.y_max[x as usize];
    if y_min >= y_max {
        return ;
    }
    let skip_floor_ceil = x + GAP >= x_limit;
    let skip_wall = x + GAP >= x_right;

    let plan = plan_column(face, x, y_min, y_max);
    paint_column(frame, x, y_min, y_max, &plan, !skip_floor_ceil, !skip_wall, colors);
    let ghost before_min = spans.y_min@;
    let ghost before_max = spans.y_max@;
    spans.y_min[x as usize] = plan.open_top;
    spans.y_max[x as usize] = plan.open_bottom;
    proof {
        assert(spans.y_min@ == before_min.update(x as int, plan.open_top));
        assert(spans.y_max@ == before_max.update(x as int, plan.open_bottom));
        assert forall|k: int| 0 <= k < WIDTH implies 0 <= #[trigger] spans.y_min@[k] <= HEIGHT by {
            assert(0 <= before_min[k] <= HEIGHT);
        }
        assert forall|k: int| 0 <= k < WIDTH implies 0 <= #[trigger] spans.y_max@[k] <= HEIGHT by {
            assert(0 <= before_max[k] <= HEIGHT);
        }
        assert forall|k: int| 0 <= k < WIDTH implies #[trigger] spans.y_min@[k] >= before_min[k] by {}
        assert forall|k: int| 0 <= k < WIDTH implies #[trigger] spans.y_max@[k] <= before_max[k] by {}
    }
}

/// Draws a wall into the columns from `x_left` up to, not including,
/// `x_right`, from left to right.
pub fn draw_columns(
    frame: &mut [u8],
    spans: &mut Spans,
    face: &Face,
    x_left: isize,
    x_right: isize,
    x_limit: isize,
    colors: &Colors,
)
    requires
        old(frame)@.len() == FRAME_BYTES,
        old(spans).wf(),
        0 <= x_left <= WIDTH,
        0 <= x_right <= WIDTH,
    ensures
        canvas_of(final(frame)@, *final(spans)) == canvas_of(old(frame)@, *old(spans)).columns(
            *face,
            x_left as int,
            x_right as int,
            x_right as int,
            x_limit as int,
            *colors,
        ),
        final(frame)@.len() == FRAME_BYTES,
        final(spans).wf(),
        canvas_of(final(frame)@, *final(spans)).within(canvas_of(old(frame)@, *old(spans))),
{
    let ghost start = canvas_of(frame@, *spans);
    let mut x: isize = x_left;
    while x < x_right
        invariant
            0 <= x_left <= x,
            x <= x_right || x == x_left,
            0 <= x_right <= WIDTH,
            frame@.len() == FRAME_BYTES,
            spans.wf(),
            canvas_of(frame@, *spans) == start.columns(
                *face,
                x_left as int,
                x as int,
                x_right as int,
                x_limit as int,
                *colors,
            ),
            canvas_of(frame@, *spans).within(start),
        decreases x_right - x,
    {
        draw_column(frame, spans, face, x, x_right, x_limit, colors);
        x = x + 1;
    }
}

} // verus!
