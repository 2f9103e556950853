//! The portal traversal: the first-person view of a scene.
//!
//! A frame starts with the sector in which the camera stands and the whole
//! screen. Each wall of a sector is drawn into the columns that the sector
//! may use. A wall that is a portal puts the sector behind it at the back
//! of a queue, with the columns of the portal, and the queue is worked off
//! from its front until it is empty or `PORTAL_LIMIT` sectors were drawn.

use vstd::prelude::*;
use std::collections::VecDeque;
use crate::clip::{clip_wall, clip_wall_spec, lemma_clip_in_frustum};
use crate::math::{
    clamp_int, fraction, fraction_spec, lemma_fraction_ordered, saturate, saturate_int,
};
use crate::model::{Camera, Length, Mat3, Portal, Position2, Sector, SectorId, Wall};
use crate::pixel::{FRAME_BYTES, HEIGHT, WIDTH};
use crate::project::{lemma_higher_is_drawn_higher, project, project_spec};
use crate::raster::{Canvas, Colors, Face, Opening, Spans, GAP, canvas_of, draw_columns};
use crate::utils::{clamp, lemma_lerp_ordered_fractions, lerpi, lerpi_spec};

verus! {

/// The largest number of queued sectors that are drawn in one frame.
pub const PORTAL_LIMIT: usize = 1024;

/// A wall that shows: how it appears on the screen, and the columns from
/// `x_left` up to, not including, `x_right` into which it is drawn.
#[derive(Clone, Copy, Debug)]
pub struct Sight {
    pub face: Face,
    pub x_left: isize,
    pub x_right: isize,
}

/// A frame in the making: the canvas and the sectors that wait to be drawn.
pub struct Pass<'a> {
    pub canvas: Canvas,
    pub queue: Seq<Portal<'a>>,
}

/// The index of the first sector from `from` on that has the identifier.
pub open spec fn first_index(sectors: Seq<Sector>, id: SectorId, from: int) -> Option<int>
    decreases sectors.len() - from,
{
    if from < 0 || from >= sectors.len() {
        None
    } else if sectors[from].id == id {
        Some(from)
    } else {
        first_index(sectors, id, from + 1)
    }
}

/// The first sector of the scene that has the identifier.
pub open spec fn find_spec(sectors: Seq<Sector>, id: SectorId) -> Option<Sector> {
    match first_index(sectors, id, 0) {
        Some(i) => Some(sectors[i]),
        None => None,
    }
}

/// The sector behind a wall: the first one of the scene that has the
/// identifier which the wall names.
pub open spec fn behind_spec(wall: Wall, sectors: Seq<Sector>) -> Option<Sector> {
    match wall.portal_sector {
        Some(id) => find_spec(sectors, id),
        None => None,
    }
}

/// A height relative to the eye of the camera.
pub open spec fn relative_spec(height: Length, camera: Camera) -> Length {
    Length(saturate_int(height.0 - camera.position.0.z) as i32)
}

/// How a wall shows in a sector whose floor and ceiling are at the given
/// heights relative to the camera and which may use the columns from
/// `x_min` to `x_max`. A wall that the frustum cuts away does not show, nor
/// one that is seen from behind: one whose right end is not to the right of
/// its left end on the screen.
pub open spec fn sight_spec(
    wall: Wall,
    view: Mat3,
    floor: Length,
    ceil: Length,
    x_min: int,
    x_max: int,
) -> Option<Sight> {
    match clip_wall_spec(
        Position2(view.apply_spec(wall.left.0)),
        Position2(view.apply_spec(wall.right.0)),
    ) {
        None => None,
        Some(ends) => {
            let left_top = project_spec(ends.0, ceil).pixel_spec();
            let left_bottom = project_spec(ends.0, floor).pixel_spec();
            let right_top = project_spec(ends.1, ceil).pixel_spec();
            let right_bottom = project_spec(ends.1, floor).pixel_spec();
            if right_top.x <= left_top.x {
                None
            } else {
                Some(
                    Sight {
                        face: Face {
                            left_top,
                            left_bottom,
                            right_top,
                            right_bottom,
                            depth_left: ends.0.0.y,
                            depth_right: ends.1.0.y,
                            color: wall.color,
                            opening: None,
                        },
                        x_left: clamp_int(left_top.x as int, x_min, x_max) as isize,
                        x_right: clamp_int(right_top.x as int, x_min, x_max) as isize,
                    },
                )
            }
        },
    }
}

/// The rows at the two ends of a wall for a height that lies the fraction
/// `num / den` of the way from the top of the wall to its bottom.
pub open spec fn band_spec(face: Face, num: int, den: int) -> (isize, isize) {
    let t = fraction_spec(num, den);
    (
        lerpi_spec(face.left_top.y as int, face.left_bottom.y as int, t) as isize,
        lerpi_spec(face.right_top.y as int, face.right_bottom.y as int, t) as isize,
    )
}

/// The opening of a portal. There is an upper band of wall where the
/// ceiling behind is lower than the ceiling before, and a lower band where
/// the floor behind is higher than the floor before. All heights are
/// relative to the camera.
pub open spec fn opening_spec(
    face: Face,
    floor: Length,
    ceil: Length,
    next_floor: Length,
    next_ceil: Length,
) -> Opening {
    Opening {
        top: if next_ceil.0 < ceil.0 {
            Some(band_spec(face, next_ceil.0 - ceil.0, floor.0 - ceil.0))
        } else {
            None
        },
        bottom: if next_floor.0 > floor.0 {
            Some(band_spec(face, next_floor.0 - ceil.0, floor.0 - ceil.0))
        } else {
            None
        },
    }
}

/// The face of a wall that shows, with its opening if there is a sector
/// behind it.
pub open spec fn face_spec(sight: Sight, sector: Sector, behind: Option<Sector>, camera: Camera) -> Face {
    Face {
        left_top: sight.face.left_top,
        left_bottom: sight.face.left_bottom,
        right_top: sight.face.right_top,
        right_bottom: sight.face.right_bottom,
        depth_left: sight.face.depth_left,
        depth_right: sight.face.depth_right,
        color: sight.face.color,
        opening: match behind {
            Some(next) => Some(
                opening_spec(
                    sight.face,
                    relative_spec(sector.floor, camera),
                    relative_spec(sector.ceil, camera),
                    relative_spec(next.floor, camera),
                    relative_spec(next.ceil, camera),
                ),
            ),
            None => None,
        },
    }
}

/// Whether each queued sector may use columns of the screen only.
pub open spec fn queue_wf(queue: Seq<Portal>) -> bool {
    forall|i: int|
        0 <= i < queue.len() ==> 0 <= (#[trigger] queue[i]).x_min <= WIDTH && 0 <= queue[i].x_max
            <= WIDTH
}

/// Whether no sector of the scene has its ceiling below its floor.
pub open spec fn all_upright(sectors: Seq<Sector>) -> bool {
    forall|i: int| 0 <= i < sectors.len() ==> (#[trigger] sectors[i]).upright()
}

/// Whether no queued sector has its ceiling below its floor.
pub open spec fn queue_upright(queue: Seq<Portal>) -> bool {
    forall|i: int| 0 <= i < queue.len() ==> (#[trigger] queue[i]).sector.upright()
}

impl<'a> Pass<'a> {
    /// How `wall` shows in the sector of `item`.
    pub open spec fn sight(wall: Wall, item: Portal<'a>, camera: Camera) -> Option<Sight> {
        sight_spec(
            wall,
            camera.view_matrix_spec(),
            relative_spec(item.sector.floor, camera),
            relative_spec(item.sector.ceil, camera),
            item.x_min as int,
            item.x_max as int,
        )
    }

    /// The frame in the making after `wall` of the sector of `item` was
    /// drawn. A wall that does not show changes nothing. One that shows is
    /// drawn into its columns, and if it opens on a sector of the scene,
    /// that sector goes to the back of the queue with the columns of the
    /// wall.
    pub open spec fn wall(
        self,
        wall: Wall,
        item: Portal<'a>,
        camera: Camera,
        sectors: Seq<Sector>,
        colors: Colors,
    ) -> Pass<'a> {
        match Self::sight(wall, item, camera) {
            None => self,
            Some(sight) => Pass {
                canvas: self.canvas.columns(
                    face_spec(sight, *item.sector, behind_spec(wall, sectors), camera),
                    sight.x_left as int,
                    sight.x_right as int,
                    sight.x_right as int,
                    item.x_max as int,
                    colors,
                ),
                queue: match behind_spec(wall, sectors) {
                    Some(next) => self.queue.push(
                        Portal { sector: &next, x_min: sight.x_left, x_max: sight.x_right },
                    ),
                    None => self.queue,
                },
            },
        }
    }

    /// The frame in the making after the first `count` of `walls` were
    /// drawn in order.
    pub open spec fn walls(
        self,
        walls: Seq<Wall>,
        count: int,
        item: Portal<'a>,
        camera: Camera,
        sectors: Seq<Sector>,
        colors: Colors,
    ) -> Pass<'a>
        decreases count,
    {
        if count <= 0 {
            self
        } else {
            self.walls(walls, count - 1, item, camera, sectors, colors).wall(
                walls[count - 1],
                item,
                camera,
                sectors,
                colors,
            )
        }
    }

    /// The frame in the making after the sector of `item` was drawn: all
    /// its walls in order.
    pub open spec fn sector(self, item: Portal<'a>, camera: Camera, sectors: Seq<Sector>, colors: Colors) -> Pass<
        'a,
    > {
        self.walls(
            item.sector.walls_spec(),
            item.sector.walls_spec().len() as int,
            item,
            camera,
            sectors,
            colors,
        )
    }

    /// The frame in the making after the queue was worked off from its
    /// front until it was empty or `fuel` sectors were drawn.
    pub open spec fn run(self, fuel: nat, camera: Camera, sectors: Seq<Sector>, colors: Colors) -> Pass<
        'a,
    >
        decreases fuel,
    {
        if fuel == 0 || self.queue.len() == 0 {
            self
        } else {
            (Pass { canvas: self.canvas, queue: self.queue.subrange(1, self.queue.len() as int) }).sector(
                self.queue[0],
                camera,
                sectors,
                colors,
            ).run((fuel - 1) as nat, camera, sectors, colors)
        }
    }

    /// Whether the sector `id` stays out of sight while the queue is worked
    /// off: no wall that shows, of any sector that is drawn, opens on it.
    pub open spec fn never_sees(
        self,
        id: SectorId,
        fuel: nat,
        camera: Camera,
        sectors: Seq<Sector>,
        colors: Colors,
    ) -> bool
        decreases fuel,
    {
        if fuel == 0 || self.queue.len() == 0 {
            true
        } else {
            let item = self.queue[0];
            let rest = Pass { canvas: self.canvas, queue: self.queue.subrange(1, self.queue.len() as int) };
            &&& hidden_from(item, id, camera)
            &&& rest.sector(item, camera, sectors, colors).never_sees(
                id,
                (fuel - 1) as nat,
                camera,
                sectors,
                colors,
            )
        }
    }
}

/// Whether no wall of the sector of `item` that shows opens on the sector
/// `id`.
pub open spec fn hidden_from(item: Portal, id: SectorId, camera: Camera) -> bool {
    forall|i: int|
        0 <= i < item.sector.walls_spec().len() ==> Pass::sight(
            #[trigger] item.sector.walls_spec()[i],
            item,
            camera,
        ).is_none() || item.sector.walls_spec()[i].portal_sector != Some(id)
}

/// The frame in the making that a frame, its spans and a queue make.
pub open spec fn pass_of<'a>(frame: Seq<u8>, spans: Spans, queue: Seq<Portal<'a>>) -> Pass<'a> {
    Pass { canvas: canvas_of(frame, spans), queue }
}

/// The start of a frame: every column open from row `GAP` to row
/// `HEIGHT - GAP`, and the sector of the camera in the queue with all
/// columns from `GAP` on.
pub open spec fn start_spec<'a>(frame: Seq<u8>, current: Sector) -> Pass<'a> {
    Pass {
        canvas: Canvas {
            frame,
            y_min: Seq::new(WIDTH as nat, |x: int| GAP),
            y_max: Seq::new(WIDTH as nat, |x: int| (HEIGHT - GAP) as isize),
        },
        queue: seq![Portal { sector: &current, x_min: GAP, x_max: WIDTH as isize }],
    }
}

/// The first-person view of the scene, drawn over `frame`. Where there is
/// no sector of the camera, or the scene does not have it, the frame stays
/// as it is.
pub open spec fn render_spec(
    frame: Seq<u8>,
    camera: Camera,
    sectors: Seq<Sector>,
    current_sector: Option<SectorId>,
    colors: Colors,
) -> Seq<u8> {
    match current_sector {
        Some(id) => match find_spec(sectors, id) {
            Some(sector) => start_spec(frame, sector).run(
                PORTAL_LIMIT as nat,
                camera,
                sectors,
                colors,
            ).canvas.frame,
            None => frame,
        },
        None => frame,
    }
}

/// A wall that is seen from behind is never drawn: where the right end of
/// what the frustum shows of it does not project to the right of the left
/// end, drawing the wall changes neither the frame nor the open rows nor the
/// queue.
pub proof fn lemma_back_face_not_drawn<'a>(
    pass: Pass<'a>,
    wall: Wall,
    item: Portal<'a>,
    camera: Camera,
    sectors: Seq<Sector>,
    colors: Colors,
)
    requires
        ({
            let view = camera.view_matrix_spec();
            let ceil = relative_spec(item.sector.ceil, camera);
            match clip_wall_spec(
                Position2(view.apply_spec(wall.left.0)),
                Position2(view.apply_spec(wall.right.0)),
            ) {
                Some(ends) => project_spec(ends.1, ceil).pixel_spec().x <= project_spec(
                    ends.0,
                    ceil,
                ).pixel_spec().x,
                None => false,
            }
        }),
    ensures
        pass.wall(wall, item, camera, sectors, colors) == pass,
{
}

/// Drawing a wall opens no row of any column: after it each column has at
/// most the open rows that it had before.
pub proof fn lemma_wall_never_widens<'a>(
    pass: Pass<'a>,
    wall: Wall,
    item: Portal<'a>,
    camera: Camera,
    sectors: Seq<Sector>,
    colors: Colors,
)
    requires
        pass.canvas.wf(),
        0 <= item.x_min <= WIDTH,
        0 <= item.x_max <= WIDTH,
    ensures
        pass.wall(wall, item, camera, sectors, colors).canvas.within(pass.canvas),
        pass.wall(wall, item, camera, sectors, colors).canvas.wf(),
{
    match Pass::sight(wall, item, camera) {
        None => {},
        Some(sight) => {
            crate::raster::lemma_columns_never_widen(
                pass.canvas,
                face_spec(sight, *item.sector, behind_spec(wall, sectors), camera),
                sight.x_left as int,
                sight.x_right as int,
                sight.x_right as int,
                item.x_max as int,
                colors,
            );
        },
    }
}

/// Drawing walls keeps the queue to the columns of the screen.
proof fn lemma_wall_queue<'a>(
    pass: Pass<'a>,
    wall: Wall,
    item: Portal<'a>,
    camera: Camera,
    sectors: Seq<Sector>,
    colors: Colors,
)
    requires
        queue_wf(pass.queue),
        0 <= item.x_min <= WIDTH,
        0 <= item.x_max <= WIDTH,
    ensures
        queue_wf(pass.wall(wall, item, camera, sectors, colors).queue),
{
}

/// Drawing the walls of a sector opens no row of any column.
proof fn lemma_walls_never_widen<'a>(
    pass: Pass<'a>,
    walls: Seq<Wall>,
    count: int,
    item: Portal<'a>,
    camera: Camera,
    sectors: Seq<Sector>,
    colors: Colors,
)
    requires
        pass.canvas.wf(),
        queue_wf(pass.queue),
        0 <= item.x_min <= WIDTH,
        0 <= item.x_max <= WIDTH,
    ensures
        pass.walls(walls, count, item, camera, sectors, colors).canvas.within(pass.canvas),
        pass.walls(walls, count, item, camera, sectors, colors).canvas.wf(),
        queue_wf(pass.walls(walls, count, item, camera, sectors, colors).queue),
    decreases count,
{
    if count > 0 {
        lemma_walls_never_widen(pass, walls, count - 1, item, camera, sectors, colors);
        let before = pass.walls(walls, count - 1, item, camera, sectors, colors);
        lemma_wall_never_widens(before, walls[count - 1], item, camera, sectors, colors);
        lemma_wall_queue(before, walls[count - 1], item, camera, sectors, colors);
    }
}

/// Over the whole of a frame the open rows of a column only ever become
/// fewer: however many sectors are drawn, no column has an open row at the
/// end that it had not at the start.
pub proof fn lemma_traversal_never_widens<'a>(
    pass: Pass<'a>,
    fuel: nat,
    camera: Camera,
    sectors: Seq<Sector>,
    colors: Colors,
)
    requires
        pass.canvas.wf(),
        queue_wf(pass.queue),
    ensures
        pass.run(fuel, camera, sectors, colors).canvas.within(pass.canvas),
    decreases fuel,
{
    if fuel > 0 && pass.queue.len() > 0 {
        let item = pass.queue[0];
        let rest = Pass { canvas: pass.canvas, queue: pass.queue.subrange(1, pass.queue.len() as int) };
        assert(queue_wf(rest.queue)) by {
            assert forall|i: int| 0 <= i < rest.queue.len() implies 0 <= (#[trigger] rest.queue[i]).x_min
                <= WIDTH && 0 <= rest.queue[i].x_max <= WIDTH by {
                assert(rest.queue[i] == pass.queue[i + 1]);
            }
        }
        lemma_walls_never_widen(
            rest,
            item.sector.walls_spec(),
            item.sector.walls_spec().len() as int,
            item,
            camera,
            sectors,
            colors,
        );
        lemma_traversal_never_widens(
            rest.sector(item, camera, sectors, colors),
            (fuel - 1) as nat,
            camera,
            sectors,
            colors,
        );
    }
}

/// The first index with an identifier is an index of the scene.
proof fn lemma_first_index_in_scene(sectors: Seq<Sector>, id: SectorId, from: int)
    ensures
        first_index(sectors, id, from) matches Some(i) ==> 0 <= i < sectors.len(),
    decreases sectors.len() - from,
{
    if 0 <= from < sectors.len() && sectors[from].id != id {
        lemma_first_index_in_scene(sectors, id, from + 1);
    }
}

/// A wall that shows in a sector with its ceiling not below its floor
/// stands upright on the screen, and the columns into which it is drawn lie
/// between its two ends.
pub proof fn lemma_sight_upright(
    wall: Wall,
    view: Mat3,
    floor: Length,
    ceil: Length,
    x_min: int,
    x_max: int,
)
    requires
        floor.0 <= ceil.0,
        0 <= x_min <= WIDTH,
        0 <= x_max <= WIDTH,
    ensures
        sight_spec(wall, view, floor, ceil, x_min, x_max) matches Some(sight) ==> {
            &&& sight.face.upright()
            &&& sight.x_left < sight.x_right ==> sight.face.left_top.x <= sight.x_left
                && sight.x_right <= sight.face.right_top.x
        },
{
    let left = Position2(view.apply_spec(wall.left.0));
    let right = Position2(view.apply_spec(wall.right.0));
    lemma_clip_in_frustum(left, right);
    match clip_wall_spec(left, right) {
        None => {},
        Some(ends) => {
            lemma_higher_is_drawn_higher(ends.0, floor, ceil);
            lemma_higher_is_drawn_higher(ends.1, floor, ceil);
        },
    }
}

/// The face of an upright wall is upright with its opening too, where the
/// sector behind it has its ceiling not below its floor.
pub proof fn lemma_face_upright(sight: Sight, sector: Sector, behind: Option<Sector>, camera: Camera)
    requires
        sight.face.upright(),
        behind matches Some(next) ==> next.upright(),
    ensures
        face_spec(sight, sector, behind, camera).upright(),
{
    match behind {
        None => {},
        Some(next) => {
            let face = sight.face;
            let floor = relative_spec(sector.floor, camera).0 as int;
            let ceil = relative_spec(sector.ceil, camera).0 as int;
            let next_floor = relative_spec(next.floor, camera).0 as int;
            let next_ceil = relative_spec(next.ceil, camera).0 as int;
            if next_ceil < ceil && next_floor > floor {
                lemma_fraction_ordered(next_floor - ceil, next_ceil - ceil, floor - ceil);
                let above = fraction_spec(next_ceil - ceil, floor - ceil);
                let below = fraction_spec(next_floor - ceil, floor - ceil);
                lemma_lerp_ordered_fractions(
                    face.left_top.y as int,
                    face.left_bottom.y as int,
                    above,
                    below,
                );
                lemma_lerp_ordered_fractions(
                    face.right_top.y as int,
                    face.right_bottom.y as int,
                    above,
                    below,
                );
            }
        },
    }
}

/// Drawing a wall of a scene in which no sector has its ceiling below its
/// floor leaves no column with its open rows ending above their beginning,
/// and queues no sector with its ceiling below its floor.
pub proof fn lemma_wall_keeps_order<'a>(
    pass: Pass<'a>,
    wall: Wall,
    item: Portal<'a>,
    camera: Camera,
    sectors: Seq<Sector>,
    colors: Colors,
)
    requires
        pass.canvas.wf(),
        pass.canvas.ordered(),
        queue_upright(pass.queue),
        all_upright(sectors),
        item.sector.upright(),
        0 <= item.x_min <= WIDTH,
        0 <= item.x_max <= WIDTH,
    ensures
        pass.wall(wall, item, camera, sectors, colors).canvas.ordered(),
        queue_upright(pass.wall(wall, item, camera, sectors, colors).queue),
{
    let floor = relative_spec(item.sector.floor, camera);
    let ceil = relative_spec(item.sector.ceil, camera);
    lemma_sight_upright(
        wall,
        camera.view_matrix_spec(),
        floor,
        ceil,
        item.x_min as int,
        item.x_max as int,
    );
    let behind = behind_spec(wall, sectors);
    if let Some(id) = wall.portal_sector {
        lemma_first_index_in_scene(sectors, id, 0);
    }
    match Pass::sight(wall, item, camera) {
        None => {},
        Some(sight) => {
            lemma_face_upright(sight, *item.sector, behind, camera);
            crate::raster::lemma_columns_keep_order(
                pass.canvas,
                face_spec(sight, *item.sector, behind, camera),
                sight.x_left as int,
                sight.x_right as int,
                sight.x_right as int,
                item.x_max as int,
                colors,
            );
            let after = pass.wall(wall, item, camera, sectors, colors);
            assert forall|i: int| 0 <= i < after.queue.len() implies (#[trigger] after.queue[i]).sector.upright() by {
                if i < pass.queue.len() {
                    assert(after.queue[i] == pass.queue[i]);
                }
            }
        },
    }
}

/// Drawing the walls of a sector keeps the order of the open rows.
proof fn lemma_walls_keep_order<'a>(
    pass: Pass<'a>,
    walls: Seq<Wall>,
    count: int,
    item: Portal<'a>,
    camera: Camera,
    sectors: Seq<Sector>,
    colors: Colors,
)
    requires
        pass.canvas.wf(),
        pass.canvas.ordered(),
        queue_wf(pass.queue),
        queue_upright(pass.queue),
        all_upright(sectors),
        item.sector.upright(),
        0 <= item.x_min <= WIDTH,
        0 <= item.x_max <= WIDTH,
    ensures
        pass.walls(walls, count, item, camera, sectors, colors).canvas.ordered(),
        queue_upright(pass.walls(walls, count, item, camera, sectors, colors).queue),
    decreases count,
{
    if count > 0 {
        lemma_walls_keep_order(pass, walls, count - 1, item, camera, sectors, colors);
        lemma_walls_never_widen(pass, walls, count - 1, item, camera, sectors, colors);
        let before = pass.walls(walls, count - 1, item, camera, sectors, colors);
        lemma_wall_keeps_order(before, walls[count - 1], item, camera, sectors, colors);
    }
}

/// Over the whole of a frame the open rows of a column stay in order: in a
/// scene in which no sector has its ceiling below its floor, however many
/// sectors are drawn, in no column do the open rows end above their
/// beginning.
pub proof fn lemma_traversal_keeps_order<'a>(
    pass: Pass<'a>,
    fuel: nat,
    camera: Camera,
    sectors: Seq<Sector>,
    colors: Colors,
)
    requires
        pass.canvas.wf(),
        pass.canvas.ordered(),
        queue_wf(pass.queue),
        queue_upright(pass.queue),
        all_upright(sectors),
    ensures
        pass.run(fuel, camera, sectors, colors).canvas.ordered(),
    decreases fuel,
{
    if fuel > 0 && pass.queue.len() > 0 {
        let item = pass.queue[0];
        let rest = Pass { canvas: pass.canvas, queue: pass.queue.subrange(1, pass.queue.len() as int) };
        assert(queue_wf(rest.queue) && queue_upright(rest.queue)) by {
            assert forall|i: int| 0 <= i < rest.queue.len() implies 0 <= (#[trigger] rest.queue[i]).x_min
                <= WIDTH && 0 <= rest.queue[i].x_max <= WIDTH && rest.queue[i].sector.upright() by {
                assert(rest.queue[i] == pass.queue[i + 1]);
            }
        }
        let walls = item.sector.walls_spec();
        lemma_walls_keep_order(rest, walls, walls.len() as int, item, camera, sectors, colors);
        lemma_walls_never_widen(rest, walls, walls.len() as int, item, camera, sectors, colors);
        lemma_traversal_keeps_order(
            rest.sector(item, camera, sectors, colors),
            (fuel - 1) as nat,
            camera,
            sectors,
            colors,
        );
    }
}

/// A frame of a scene in which no sector has its ceiling below its floor:
/// from its start to its end every column has its open rows among those
/// with which it began, and in none do they end above their beginning.
pub proof fn lemma_frame_narrows_in_order(
    frame: Seq<u8>,
    current: Sector,
    camera: Camera,
    sectors: Seq<Sector>,
    colors: Colors,
)
    requires
        frame.len() == FRAME_BYTES,
        current.upright(),
        all_upright(sectors),
    ensures
        ({
            let start = start_spec(frame, current);
            let end = start.run(PORTAL_LIMIT as nat, camera, sectors, colors);
            &&& start.canvas.ordered()
            &&& end.canvas.within(start.canvas)
            &&& end.canvas.ordered()
        }),
{
    let start = start_spec(frame, current);
    lemma_traversal_never_widens(start, PORTAL_LIMIT as nat, camera, sectors, colors);
    lemma_traversal_keeps_order(start, PORTAL_LIMIT as nat, camera, sectors, colors);
}

/// A scene without one of its sectors finds every sector with another
/// identifier as before.
proof fn lemma_first_index_without(sectors: Seq<Sector>, k: int, id: SectorId, from: int)
    requires
        0 <= k < sectors.len(),
        sectors[k].id != id,
        0 <= from <= sectors.len(),
    ensures
        ({
            let there = if from <= k { from } else { from - 1 };
            match first_index(sectors, id, from) {
                Some(i) => i != k && first_index(sectors.remove(k), id, there) == Some(
                    if i < k { i } else { i - 1 },
                ),
                None => first_index(sectors.remove(k), id, there).is_none(),
            }
        }),
    decreases sectors.len() - from,
{
    let without = sectors.remove(k);
    if from < sectors.len() {
        lemma_first_index_without(sectors, k, id, from + 1);
        if from < k {
            assert(without[from] == sectors[from]);
        } else if from > k {
            assert(without[from - 1] == sectors[from]);
        }
    }
}

/// A scene without one of its sectors has behind each wall that does not
/// open on that sector what it had before.
proof fn lemma_behind_without(wall: Wall, sectors: Seq<Sector>, k: int)
    requires
        0 <= k < sectors.len(),
        wall.portal_sector != Some(sectors[k].id),
    ensures
        behind_spec(wall, sectors.remove(k)) == behind_spec(wall, sectors),
{
    if let Some(id) = wall.portal_sector {
        lemma_first_index_without(sectors, k, id, 0);
        lemma_first_index_in_scene(sectors, id, 0);
        match first_index(sectors, id, 0) {
            Some(i) => {
                assert(sectors.remove(k)[if i < k { i } else { i - 1 }] == sectors[i]);
            },
            None => {},
        }
    }
}

/// Drawing walls none of which shows and opens on a sector does the same
/// without that sector in the scene.
proof fn lemma_walls_without<'a>(
    pass: Pass<'a>,
    count: int,
    item: Portal<'a>,
    camera: Camera,
    sectors: Seq<Sector>,
    k: int,
    colors: Colors,
)
    requires
        0 <= k < sectors.len(),
        hidden_from(item, sectors[k].id, camera),
        count <= item.sector.walls_spec().len(),
    ensures
        pass.walls(item.sector.walls_spec(), count, item, camera, sectors.remove(k), colors)
            == pass.walls(item.sector.walls_spec(), count, item, camera, sectors, colors),
    decreases count,
{
    if count > 0 {
        lemma_walls_without(pass, count - 1, item, camera, sectors, k, colors);
        let wall = item.sector.walls_spec()[count - 1];
        if Pass::sight(wall, item, camera).is_some() {
            lemma_behind_without(wall, sectors, k);
        }
    }
}

/// A sector that stays out of sight draws nothing: where no wall that shows
/// opens on it, the frame, the open rows and the queue are at each step
/// what they are without that sector in the scene.
pub proof fn lemma_unseen_sector_draws_nothing<'a>(
    pass: Pass<'a>,
    fuel: nat,
    camera: Camera,
    sectors: Seq<Sector>,
    k: int,
    colors: Colors,
)
    requires
        0 <= k < sectors.len(),
        pass.never_sees(sectors[k].id, fuel, camera, sectors, colors),
    ensures
        pass.run(fuel, camera, sectors.remove(k), colors) == pass.run(fuel, camera, sectors, colors),
    decreases fuel,
{
    if fuel > 0 && pass.queue.len() > 0 {
        let item = pass.queue[0];
        let rest = Pass { canvas: pass.canvas, queue: pass.queue.subrange(1, pass.queue.len() as int) };
        let walls = item.sector.walls_spec();
        lemma_walls_without(rest, walls.len() as int, item, camera, sectors, k, colors);
        lemma_unseen_sector_draws_nothing(
            rest.sector(item, camera, sectors, colors),
            (fuel - 1) as nat,
            camera,
            sectors,
            k,
            colors,
        );
    }
}

/// The view of a scene is the view of the scene without a sector that
/// stays out of sight and in which the camera does not stand.
pub proof fn lemma_unseen_sector_leaves_the_view(
    frame: Seq<u8>,
    camera: Camera,
    sectors: Seq<Sector>,
    current: SectorId,
    k: int,
    colors: Colors,
)
    requires
        0 <= k < sectors.len(),
        sectors[k].id != current,
        find_spec(sectors, current) matches Some(sector) ==> start_spec(frame, sector).never_sees(
            sectors[k].id,
            PORTAL_LIMIT as nat,
            camera,
            sectors,
            colors,
        ),
    ensures
        render_spec(frame, camera, sectors.remove(k), Some(current), colors) == render_spec(
            frame,
            camera,
            sectors,
            Some(current),
            colors,
        ),
{
    lemma_first_index_without(sectors, k, current, 0);
    lemma_first_index_in_scene(sectors, current, 0);
    match first_index(sectors, current, 0) {
        Some(i) => {
            assert(sectors.remove(k)[if i < k { i } else { i - 1 }] == sectors[i]);
            lemma_unseen_sector_draws_nothing(
                start_spec(frame, sectors[i]),
                PORTAL_LIMIT as nat,
                camera,
                sectors,
                k,
                colors,
            );
        },
        None => {},
    }
}

/// Finds the first sector of the scene that has the identifier.
pub fn find_sector<'a>(sectors: &'a [Sector], id: SectorId) -> (found: Option<&'a Sector>)
    ensures
        match found {
            Some(sector) => find_spec(sectors@, id) == Some(*sector),
            None => find_spec(sectors@, id).is_none(),
        },
        found.is_none() <==> forall|i: int| 0 <= i < sectors@.len() ==> sectors@[i].id != id,
{
    let mut i: usize = 0;
    while i < sectors.len()
        invariant
            i <= sectors@.len(),
            first_index(sectors@, id, 0) == first_index(sectors@, id, i as int),
            forall|k: int| 0 <= k < i ==> sectors@[k].id != id,
        decreases sectors@.len() - i,
    {
        if sectors[i].id == id {
            return Some(&sectors[i]);
        }
        i = i + 1;
    }
    None
}

/// A height relative to the eye of the camera.
pub fn relative(height: Length, camera: &Camera) -> (r: Length)
    ensures
        r == relative_spec(height, *camera),
{
    Length(saturate(height.0 as i128 - camera.position.0.z as i128))
}

/// Works out how a wall shows: transforms its ends into coordinates
/// relative to the camera, clips it against the frustum, projects its
/// corners and limits its columns to those from `x_min` to `x_max`.
pub fn sight_of(
    wall: &Wall,
    view: Mat3,
    floor: Length,
    ceil: Length,
    x_min: isize,
    x_max: isize,
) -> (sight: Option<Sight>)
    ensures
        sight == sight_spec(*wall, view, floor, ceil, x_min as int, x_max as int),
{
    // Transform wall ends to view relative positions
    let view_left = wall.left.transform(view);
    let view_right = wall.right.transform(view);

    // Clip wall by view frustum, will be `None` if outside of frustum
    match clip_wall(view_left, view_right) {
        None => None,
        Some((view_left, view_right)) => {
            // Project from view to pixel locations
            let left_top = project(view_left, ceil).to_pixel();
            let left_bottom = project(view_left, floor).to_pixel();
            let right_top = project(view_right, ceil).to_pixel();
            let right_bottom = project(view_right, floor).to_pixel();

            // Skip drawing wall if looking at backside
            if right_top.x <= left_top.x {
                return None;
            }
            Some(
                Sight {
                    face: Face {
                        left_top,
                        left_bottom,
                        right_top,
                        right_bottom,
                        depth_left: view_left.0.y,
                        depth_right: view_right.0.y,
                        color: wall.color,
                        opening: None,
                    },
                    // Clip x by portal sides
                    x_left: clamp(left_top.x, x_min, x_max),
                    x_right: clamp(right_top.x, x_min, x_max),
                },
            )
        },
    }
}

fn band(face: &Face, num: i128, den: i128) -> (ends: (isize, isize))
    requires
        -0x1_0000_0000 <= num <= 0x1_0000_0000,
        -0x1_0000_0000 <= den <= 0x1_0000_0000,
    ensures
        ends == band_spec(*face, num as int, den as int),
{
    let t = fraction(num, den);
    (lerpi(face.left_top.y, face.left_bottom.y, t), lerpi(face.right_top.y, face.right_bottom.y, t))
}

/// Works out the opening of a portal from the heights, relative to the
/// camera, of the sector before it and of the sector behind it.
pub fn opening_of(face: &Face, floor: Length, ceil: Length, next_floor: Length, next_ceil: Length) -> (opening:
    Opening)
    ensures
        opening == opening_spec(*face, floor, ceil, next_floor, next_ceil),
{
    let height: i128 = floor.0 as i128 - ceil.0 as i128;
    Opening {
        top: if next_ceil.0 < ceil.0 {
            Some(band(face, next_ceil.0 as i128 - ceil.0 as i128, height))
        } else {
            None
        },
        bottom: if next_floor.0 > floor.0 {
            Some(band(face, next_floor.0 as i128 - ceil.0 as i128, height))
        } else {
            None
        },
    }
}

fn face_of(sight: &Sight, item: &Portal, behind: Option<&Sector>, camera: &Camera) -> (face: Face)
    ensures
        face == face_spec(
            *sight,
            *item.sector,
            match behind {
                Some(next) => Some(*next),
                None => None,
            },
            *camera,
        ),
{
    let opening: Option<Opening> = match behind {
        Some(next) => Some(
            opening_of(
                &sight.face,
                relative(item.sector.floor, camera),
                relative(item.sector.ceil, camera),
                relative(next.floor, camera),
                relative(next.ceil, camera),
            ),
        ),
        None => None,
    };
    Face {
        left_top: sight.face.left_top,
        left_bottom: sight.face.left_bottom,
        right_top: sight.face.right_top,
        right_bottom: sight.face.right_bottom,
        depth_left: sight.face.depth_left,
        depth_right: sight.face.depth_right,
        color: sight.face.color,
        opening,
    }
}

/// Draws one wall of the sector of `item`. A wall that the frustum cuts
/// away or that is seen from behind changes nothing. A wall that opens on a
/// sector of the scene puts that sector at the back of the queue, with the
/// columns of the wall. No column has an open row after the call that it
/// had not before.
pub fn draw_wall<'a>(
    frame: &mut [u8],
    spans: &mut Spans,
    queue: &mut VecDeque<Portal<'a>>,
    wall: &Wall,
    item: &Portal<'a>,
    camera: &Camera,
    sectors: &'a [Sector],
    colors: &Colors,
)
    requires
        old(frame)@.len() == FRAME_BYTES,
        old(spans).wf(),
        queue_wf(old(queue)@),
        0 <= item.x_min <= WIDTH,
        0 <= item.x_max <= WIDTH,
    ensures
        pass_of(final(frame)@, *final(spans), final(queue)@) == pass_of(
            old(frame)@,
            *old(spans),
            old(queue)@,
        ).wall(*wall, *item, *camera, sectors@, *colors),
        Pass::sight(*wall, *item, *camera).is_none() ==> final(frame)@ == old(frame)@,
        final(frame)@.len() == FRAME_BYTES,
        final(spans).wf(),
        queue_wf(final(queue)@),
        canvas_of(final(frame)@, *final(spans)).within(canvas_of(old(frame)@, *old(spans))),
{
    let ghost before = pass_of(frame@, *spans, queue@);
    let sight = match sight_of(
        wall,
        camera.view_matrix(),
        relative(item.sector.floor, camera),
        relative(item.sector.ceil, camera),
        item.x_min,
        item.x_max,
    ) {
        None => {
            return ;
        },
        Some(sight) => sight,
    };

    // Fetch adjacent portal sector
    let behind: Option<&'a Sector> = match wall.portal_sector {
        Some(id) => find_sector(sectors, id),
        None => None,
    };
    let face = face_of(&sight, item, behind, camera);

    // Push adjacent sector on portal queue to render later
    if let Some(next) = behind {
        queue.push_back(Portal { sector: next, x_min: sight.x_left, x_max: sight.x_right });
    }

    // Iterate through pixel columns
    draw_columns(frame, spans, &face, sight.x_left, sight.x_right, item.x_max, colors);
    proof {
        let after = before.wall(*wall, *item, *camera, sectors@, *colors);
        assert(Pass::sight(*wall, *item, *camera) == Some(sight));
        assert(face == face_spec(sight, *item.sector, behind_spec(*wall, sectors@), *camera));
        assert(queue@ == after.queue);
        assert(canvas_of(frame@, *spans) == after.canvas);
    }
}

/// Draws the sector of `item`: all its walls in order, each into the
/// columns that the sector may use. No column has an open row after the
/// call that it had not before.
pub fn draw_sector<'a>(
    frame: &mut [u8],
    spans: &mut Spans,
    queue: &mut VecDeque<Portal<'a>>,
    item: &Portal<'a>,
    camera: &Camera,
    sectors: &'a [Sector],
    colors: &Colors,
)
    requires
        old(frame)@.len() == FRAME_BYTES,
        old(spans).wf(),
        queue_wf(old(queue)@),
        0 <= item.x_min <= WIDTH,
        0 <= item.x_max <= WIDTH,
    ensures
        pass_of(final(frame)@, *final(spans), final(queue)@) == pass_of(
            old(frame)@,
            *old(spans),
            old(queue)@,
        ).sector(*item, *camera, sectors@, *colors),
        final(frame)@.len() == FRAME_BYTES,
        final(spans).wf(),
        queue_wf(final(queue)@),
        canvas_of(final(frame)@, *final(spans)).within(canvas_of(old(frame)@, *old(spans))),
{
    let ghost before = pass_of(frame@, *spans, queue@);
    let walls = item.sector.to_walls();
    let mut i: usize = 0;
    while i < walls.len()
        invariant
            i <= walls@.len(),
            walls@ == item.sector.walls_spec(),
            frame@.len() == FRAME_BYTES,
            spans.wf(),
            queue_wf(queue@),
            0 <= item.x_min <= WIDTH,
            0 <= item.x_max <= WIDTH,
            pass_of(frame@, *spans, queue@) == before.walls(
                walls@,
                i as int,
                *item,
                *camera,
                sectors@,
                *colors,
            ),
            canvas_of(frame@, *spans).within(before.canvas),
        decreases walls@.len() - i,
    {
        draw_wall(frame, spans, queue, &walls[i], item, camera, sectors, colors);
        i = i + 1;
    }
}

/// Draws the first-person view of the scene over the frame. The sector
/// named by `current_sector` is drawn into the whole screen, then the
/// sectors that its portals show, nearest first, each into the columns of
/// its portal and into the rows that nearer walls left open. Where no
/// sector is named, or the scene does not have it, the frame stays as it
/// is.
pub fn draw_wall_system(
    frame: &mut [u8],
    camera: &Camera,
    sectors: &[Sector],
    current_sector: Option<SectorId>,
    colors: &Colors,
)
    requires
        old(frame)@.len() == FRAME_BYTES,
    ensures
        final(frame)@ == render_spec(old(frame)@, *camera, sectors@, current_sector, *colors),
        final(frame)@.len() == FRAME_BYTES,
{
    // Return early if current sector is not available
    let current = match current_sector {
        Some(id) => match find_sector(sectors, id) {
            Some(sector) => sector,
            None => {
                return ;
            },
        },
        None => {
            return ;
        },
    };

    let mut portal_queue: VecDeque<Portal> = VecDeque::new();
    let mut spans = Spans::new();

    // Push current sector on portal queue
    portal_queue.push_back(Portal { sector: current, x_min: GAP, x_max: WIDTH as isize });

    let ghost start = start_spec(frame@, *current);
    proof {
        assert(spans.y_min@ =~= start.canvas.y_min);
        assert(spans.y_max@ =~= start.canvas.y_max);
        assert(portal_queue@ =~= start.queue);
    }

    // Process all portals until queue is empty, processing a portal may enqueue more
    let mut drawn: usize = 0;
    while drawn < PORTAL_LIMIT && portal_queue.len() > 0
        invariant
            drawn <= PORTAL_LIMIT,
            frame@.len() == FRAME_BYTES,
            spans.wf(),
            queue_wf(portal_queue@),
            pass_of(frame@, spans, portal_queue@).run(
                (PORTAL_LIMIT - drawn) as nat,
                *camera,
                sectors@,
                *colors,
            ) == start.run(PORTAL_LIMIT as nat, *camera, sectors@, *colors),
        decreases PORTAL_LIMIT - drawn,
    {
        let ghost queued = portal_queue@;
        let item = match portal_queue.pop_front() {
            Some(item) => item,
            None => {
                return ;
            },
        };
        assert(item == queued[0]);
        draw_sector(frame, &mut spans, &mut portal_queue, &item, camera, sectors, colors);
        drawn = drawn + 1;
    }
}

} // verus!
