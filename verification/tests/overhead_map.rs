use sector::math::{Vec2, Vec3, ONE};
use sector::minimap::{draw_marks, draw_minimap_system, marks_of, Marks, Minimap};
use sector::model::{Camera, Direction, Length, Position2, Position3, RawColor, Sector, SectorId, Wall};
use sector::pixel::{Pixel, FRAME_BYTES};
use sector::raster::Colors;

const WHITE: [u8; 3] = [255, 255, 255];
const FRUSTUM: [u8; 3] = [169, 169, 169];
const PLAYER: [u8; 3] = [255, 0, 0];
const BLUE: [u8; 3] = [0, 0, 255];
const NONE: [u8; 3] = [0, 0, 0];

fn colors() -> Colors {
    Colors {
        ceiling: RawColor([192, 192, 192]),
        floor: RawColor([128, 128, 128]),
        wall_clipped: RawColor(WHITE),
        frustum: RawColor(FRUSTUM),
        player: RawColor(PLAYER),
    }
}

fn fx(v: f64) -> i32 {
    (v * ONE as f64).round() as i32
}

fn p(x: f64, y: f64) -> Position2 {
    Position2(Vec2::new(fx(x), fx(y)))
}

fn camera(x: f64, y: f64, cos: i32, sin: i32) -> Camera {
    Camera { position: Position3(Vec3::new(fx(x), fx(y), 0)), direction: Direction::new(cos, sin) }
}

fn background() -> Vec<u8> {
    let mut frame = vec![0u8; FRAME_BYTES];
    for i in (3..FRAME_BYTES).step_by(4) {
        frame[i] = 255;
    }
    frame
}

fn at(frame: &[u8], x: usize, y: usize) -> [u8; 3] {
    let o = (y * 320 + x) * 4;
    [frame[o], frame[o + 1], frame[o + 2]]
}

fn drawn(frame: &[u8], color: [u8; 3]) -> Vec<(usize, usize)> {
    let mut found = Vec::new();
    for y in 0..240 {
        for x in 0..320 {
            if at(frame, x, y) == color {
                found.push((x, y));
            }
        }
    }
    found
}

fn row(from: usize, to: usize, y: usize) -> Vec<(usize, usize)> {
    (from..=to).map(|x| (x, y)).collect()
}

fn one_wall(left: Position2, right: Position2) -> Sector {
    Sector {
        id: SectorId(1),
        vertices: vec![left, right],
        portal_sectors: vec![],
        colors: vec![RawColor(BLUE), RawColor(BLUE)],
        floor: Length(0),
        ceil: Length(ONE),
    }
}

#[test]
fn minimap_switches_in_a_circle() {
    assert_eq!(Minimap::Off.next(), Minimap::FirstPerson);
    assert_eq!(Minimap::FirstPerson.next(), Minimap::Absolute);
    assert_eq!(Minimap::Absolute.next(), Minimap::Off);
}

#[test]
fn minimap_off_draws_nothing() {
    let sectors = vec![one_wall(p(-2.0, 4.0), p(2.0, 4.0))];
    let mut frame = background();
    draw_minimap_system(&mut frame, Minimap::Off, &camera(0.0, 0.0, ONE, 0), &sectors, &colors());
    assert_eq!(frame, background());
}

#[test]
fn first_person_map_of_no_sectors_shows_frustum_and_camera() {
    let mut frame = background();
    draw_minimap_system(&mut frame, Minimap::FirstPerson, &camera(3.0, -2.0, 0, ONE), &[], &colors());
    assert_eq!(drawn(&frame, PLAYER), vec![(160, 120)]);
    let mut want: Vec<(usize, usize)> = Vec::new();
    for k in 0..=118 {
        // the left side, from next to (159, 119) up and to the left
        want.push((158 - k, 118 - k));
        // the right side, from next to (161, 119) up and to the right
        want.push((162 + k, 118 - k));
    }
    // the near plane between them
    want.push((160, 119));
    want.sort_by_key(|&(x, y)| (y, x));
    assert_eq!(drawn(&frame, FRUSTUM), want);
}

#[test]
fn first_person_map_shows_a_wall_inside_the_frustum_in_its_colour() {
    let sectors = vec![one_wall(p(-2.0, 4.0), p(2.0, 4.0))];
    let mut frame = background();
    draw_minimap_system(&mut frame, Minimap::FirstPerson, &camera(0.0, 0.0, ONE, 0), &sectors, &colors());
    assert_eq!(drawn(&frame, BLUE), row(145, 175, 88));
    assert_eq!(drawn(&frame, WHITE), vec![]);
    // the ends of a line are left out
    assert_eq!(at(&frame, 144, 88), NONE);
    assert_eq!(at(&frame, 176, 88), NONE);
}

#[test]
fn first_person_map_shows_what_is_cut_away_in_the_colour_for_it() {
    let sectors = vec![one_wall(p(-10.0, 5.0), p(0.0, 5.0))];
    let mut frame = background();
    draw_minimap_system(&mut frame, Minimap::FirstPerson, &camera(0.0, 0.0, ONE, 0), &sectors, &colors());
    assert_eq!(drawn(&frame, WHITE), row(81, 119, 80));
    // the frustum is drawn over the wall where they meet
    let mut blue = row(121, 159, 80);
    blue.retain(|&(x, _)| x != 120);
    assert_eq!(drawn(&frame, BLUE), blue);
    assert_eq!(at(&frame, 120, 80), FRUSTUM);
}

#[test]
fn first_person_map_shows_a_wall_behind_the_camera_as_cut_away() {
    let sectors = vec![one_wall(p(-2.0, -4.0), p(2.0, -4.0))];
    let mut frame = background();
    draw_minimap_system(&mut frame, Minimap::FirstPerson, &camera(0.0, 0.0, ONE, 0), &sectors, &colors());
    assert_eq!(drawn(&frame, WHITE), row(145, 175, 152));
    assert_eq!(drawn(&frame, BLUE), vec![]);
}

#[test]
fn first_person_map_turns_with_the_camera() {
    // the camera looks down the negative x-axis at a wall along x = -4
    let sectors = vec![one_wall(p(-4.0, -2.0), p(-4.0, 2.0))];
    let mut frame = background();
    draw_minimap_system(&mut frame, Minimap::FirstPerson, &camera(0.0, 0.0, 0, ONE), &sectors, &colors());
    assert_eq!(drawn(&frame, BLUE), row(145, 175, 88));
}

#[test]
fn absolute_map_shows_the_wall_where_it_lies_in_the_world() {
    let sectors = vec![one_wall(p(-2.0, 4.0), p(2.0, 4.0))];
    let mut frame = background();
    draw_minimap_system(&mut frame, Minimap::Absolute, &camera(3.0, 1.0, ONE, 0), &sectors, &colors());
    // seen from (3, 1) the wall is cut at (-3, 3), which is (0, 4) in the world
    assert_eq!(drawn(&frame, WHITE), row(145, 159, 88));
    assert_eq!(drawn(&frame, BLUE), row(161, 175, 88));
    assert_eq!(drawn(&frame, PLAYER), vec![(184, 112)]);
}

#[test]
fn absolute_map_moves_the_frustum_with_the_camera() {
    let mut frame = background();
    draw_minimap_system(&mut frame, Minimap::Absolute, &camera(3.0, 1.0, ONE, 0), &[], &colors());
    assert_eq!(drawn(&frame, PLAYER), vec![(184, 112)]);
    // the near plane lies between (183, 111) and (185, 111)
    assert_eq!(at(&frame, 184, 111), FRUSTUM);
    assert_eq!(at(&frame, 182, 110), FRUSTUM);
    assert_eq!(at(&frame, 186, 110), FRUSTUM);
}

#[test]
fn marks_of_a_wall_before_and_after_clipping() {
    let wall = Wall { left: p(-10.0, 5.0), right: p(0.0, 5.0), portal_sector: None, color: RawColor(BLUE) };
    let marks = marks_of(&wall, false, &camera(0.0, 0.0, ONE, 0));
    assert_eq!(marks.left, Pixel::new(80, 80));
    assert_eq!(marks.right, Pixel::new(160, 80));
    assert_eq!(marks.left_after_clip, Pixel::new(120, 80));
    assert_eq!(marks.right_after_clip, Pixel::new(160, 80));
    assert!(!marks.clipped_away);
    let behind = Wall { left: p(-1.0, -5.0), right: p(1.0, -5.0), portal_sector: None, color: RawColor(BLUE) };
    let marks = marks_of(&behind, false, &camera(0.0, 0.0, ONE, 0));
    assert!(marks.clipped_away);
    assert_eq!(marks.left_after_clip, marks.left);
    assert_eq!(marks.right_after_clip, marks.right);
}

#[test]
fn draw_marks_draws_up_to_three_lines() {
    let marks = Marks {
        left: Pixel::new(10, 5),
        right: Pixel::new(40, 5),
        left_after_clip: Pixel::new(20, 5),
        right_after_clip: Pixel::new(30, 5),
        clipped_away: false,
    };
    let mut frame = background();
    draw_marks(&mut frame, &marks, RawColor(BLUE), &colors());
    let mut white = row(11, 19, 5);
    white.extend(row(31, 39, 5));
    assert_eq!(drawn(&frame, WHITE), white);
    assert_eq!(drawn(&frame, BLUE), row(21, 29, 5));
    let mut frame = background();
    let away = Marks { clipped_away: true, ..marks };
    draw_marks(&mut frame, &away, RawColor(BLUE), &colors());
    assert_eq!(drawn(&frame, WHITE), row(11, 39, 5));
    assert_eq!(drawn(&frame, BLUE), vec![]);
}
