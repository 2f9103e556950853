use sector::draw::{
    draw_background, draw_line, draw_pixel, draw_pixel_unchecked, draw_pixels, draw_vertical_line,
};
use sector::model::RawColor;
use sector::pixel::{Pixel, FRAME_BYTES};

const INK: RawColor = RawColor([10, 20, 30]);

fn blank() -> Vec<u8> {
    vec![7u8; FRAME_BYTES]
}

fn at(frame: &[u8], x: usize, y: usize) -> [u8; 4] {
    let o = (y * 320 + x) * 4;
    [frame[o], frame[o + 1], frame[o + 2], frame[o + 3]]
}

fn inked(frame: &[u8]) -> Vec<(usize, usize)> {
    let mut found = Vec::new();
    for y in 0..240 {
        for x in 0..320 {
            let px = at(frame, x, y);
            if px != [7, 7, 7, 7] {
                assert_eq!(px, [10, 20, 30, 7]);
                found.push((x, y));
            }
        }
    }
    found
}

#[test]
fn draw_pixel_writes_three_bytes_and_keeps_the_fourth() {
    let mut frame = blank();
    draw_pixel(&mut frame, Pixel::new(2, 1), INK);
    assert_eq!(&frame[1288..1292], &[10, 20, 30, 7]);
    assert_eq!(inked(&frame), vec![(2, 1)]);
}

#[test]
fn draw_pixel_drops_what_is_off_the_screen() {
    let mut frame = blank();
    draw_pixel(&mut frame, Pixel::new(-1, 0), INK);
    draw_pixel(&mut frame, Pixel::new(320, 5), INK);
    draw_pixel(&mut frame, Pixel::new(5, 240), INK);
    draw_pixel(&mut frame, Pixel::new(5, -1), INK);
    draw_pixel(&mut frame, Pixel::new(isize::MIN, isize::MAX), INK);
    assert_eq!(frame, blank());
}

#[test]
fn draw_pixel_reaches_the_corners() {
    let mut frame = blank();
    draw_pixel(&mut frame, Pixel::new(0, 0), INK);
    draw_pixel(&mut frame, Pixel::new(319, 239), INK);
    assert_eq!(inked(&frame), vec![(0, 0), (319, 239)]);
}

#[test]
fn draw_pixel_unchecked_draws_like_draw_pixel() {
    let mut a = blank();
    let mut b = blank();
    draw_pixel(&mut a, Pixel::new(100, 50), INK);
    draw_pixel_unchecked(&mut b, Pixel::new(100, 50), INK);
    assert_eq!(a, b);
}

#[test]
fn draw_vertical_line_stops_before_the_bottom() {
    let mut frame = blank();
    draw_vertical_line(&mut frame, 5, 10, 13, INK);
    assert_eq!(inked(&frame), vec![(5, 10), (5, 11), (5, 12)]);
}

#[test]
fn draw_vertical_line_of_no_rows_draws_nothing() {
    let mut frame = blank();
    draw_vertical_line(&mut frame, 5, 10, 10, INK);
    draw_vertical_line(&mut frame, 5, 12, 3, INK);
    draw_vertical_line(&mut frame, 5, 500, -500, INK);
    assert_eq!(frame, blank());
}

#[test]
fn draw_vertical_line_fills_a_whole_column() {
    let mut frame = blank();
    draw_vertical_line(&mut frame, 319, 0, 240, INK);
    let found = inked(&frame);
    assert_eq!(found.len(), 240);
    assert!(found.iter().all(|&(x, _)| x == 319));
}

#[test]
fn draw_vertical_line_keeps_to_the_rows_of_the_screen() {
    let mut frame = blank();
    draw_vertical_line(&mut frame, 5, -7, 3, INK);
    assert_eq!(inked(&frame), vec![(5, 0), (5, 1), (5, 2)]);
    let mut frame = blank();
    draw_vertical_line(&mut frame, 5, 237, 1000, INK);
    assert_eq!(inked(&frame), vec![(5, 237), (5, 238), (5, 239)]);
    let mut frame = blank();
    draw_vertical_line(&mut frame, 0, isize::MIN, isize::MAX, INK);
    let found = inked(&frame);
    assert_eq!(found.len(), 240);
    assert!(found.iter().all(|&(x, _)| x == 0));
}

#[test]
fn draw_vertical_line_above_or_below_the_screen_draws_nothing() {
    let mut frame = blank();
    draw_vertical_line(&mut frame, 5, -20, 0, INK);
    draw_vertical_line(&mut frame, 5, -20, -3, INK);
    draw_vertical_line(&mut frame, 5, 240, 300, INK);
    draw_vertical_line(&mut frame, 5, isize::MIN, -1, INK);
    assert_eq!(frame, blank());
}

#[test]
fn draw_vertical_line_in_a_column_off_the_screen_draws_nothing() {
    let mut frame = blank();
    draw_vertical_line(&mut frame, -1, 0, 240, INK);
    draw_vertical_line(&mut frame, 320, 0, 240, INK);
    draw_vertical_line(&mut frame, 640, 10, 20, INK);
    draw_vertical_line(&mut frame, isize::MIN, 10, 20, INK);
    draw_vertical_line(&mut frame, isize::MAX, isize::MIN, isize::MAX, INK);
    assert_eq!(frame, blank());
}

#[test]
fn draw_line_leaves_out_both_ends() {
    let mut frame = blank();
    draw_line(&mut frame, Pixel::new(1, 1), Pixel::new(3, 7), INK);
    assert_eq!(inked(&frame), vec![(1, 2), (2, 3), (2, 4), (2, 5), (3, 6)]);
}

#[test]
fn draw_line_backwards() {
    let mut frame = blank();
    draw_line(&mut frame, Pixel::new(3, 7), Pixel::new(1, 1), INK);
    assert_eq!(inked(&frame), vec![(1, 2), (2, 3), (2, 4), (2, 5), (3, 6)]);
}

#[test]
fn draw_line_along_a_row() {
    let mut frame = blank();
    draw_line(&mut frame, Pixel::new(0, 4), Pixel::new(5, 4), INK);
    assert_eq!(inked(&frame), vec![(1, 4), (2, 4), (3, 4), (4, 4)]);
}

#[test]
fn draw_line_between_neighbours_draws_nothing() {
    let mut frame = blank();
    draw_line(&mut frame, Pixel::new(4, 4), Pixel::new(4, 4), INK);
    draw_line(&mut frame, Pixel::new(4, 4), Pixel::new(5, 5), INK);
    draw_line(&mut frame, Pixel::new(4, 4), Pixel::new(4, 5), INK);
    assert_eq!(frame, blank());
}

#[test]
fn draw_line_drops_what_is_off_the_screen() {
    let mut frame = blank();
    draw_line(&mut frame, Pixel::new(-3, 0), Pixel::new(3, 0), INK);
    assert_eq!(inked(&frame), vec![(0, 0), (1, 0), (2, 0)]);
}

#[test]
fn draw_line_at_the_limit_of_its_coordinates() {
    let mut frame = blank();
    draw_line(&mut frame, Pixel::new(-1048576, 10), Pixel::new(1048576, 10), INK);
    let found = inked(&frame);
    assert_eq!(found.len(), 320);
    assert!(found.iter().all(|&(_, y)| y == 10));
}

#[test]
fn draw_pixels_draws_each_in_order() {
    let mut frame = blank();
    let points = vec![(1isize, 1isize), (-5, 2), (3, 3), (1, 1)];
    draw_pixels(&mut frame, &points, INK);
    assert_eq!(inked(&frame), vec![(1, 1), (3, 3)]);
}

#[test]
fn draw_background_blacks_out_and_sets_every_fourth_byte() {
    let mut frame = blank();
    draw_background(&mut frame);
    for (i, &b) in frame.iter().enumerate() {
        assert_eq!(b, if i % 4 == 3 { 255 } else { 0 });
    }
}

#[test]
fn draw_background_of_a_short_buffer() {
    let mut frame = vec![9u8; 6];
    draw_background(&mut frame);
    assert_eq!(frame, vec![0, 0, 0, 255, 0, 0]);
    let mut empty: Vec<u8> = Vec::new();
    draw_background(&mut empty);
    assert!(empty.is_empty());
}
