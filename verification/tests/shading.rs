use palette::{FromColor, Hsv, Srgb};
use sector::model::RawColor;
use sector::raster::shade;

/// The colour with its value in the hue, saturation, value model set to a
/// level in percent.
fn with_value(color: [u8; 3], level: u8) -> [u8; 3] {
    let hsv = Hsv::from_color(Srgb::new(color[0], color[1], color[2]).into_format::<f32>());
    let shaded = Hsv::new(hsv.hue, hsv.saturation, ((level as f32) / 100.0 * 100.0).round() / 100.0);
    let rgb: Srgb<u8> = Srgb::from_color(shaded).into_format();
    [rgb.red, rgb.green, rgb.blue]
}

#[test]
fn shade_sets_the_value_of_the_colour() {
    let colors: [[u8; 3]; 13] = [
        [0, 0, 255],
        [0, 255, 0],
        [255, 0, 0],
        [255, 255, 0],
        [255, 0, 255],
        [255, 165, 0],
        [192, 192, 192],
        [128, 128, 128],
        [255, 255, 255],
        [0, 0, 0],
        [12, 200, 77],
        [90, 45, 30],
        [0, 255, 255],
    ];
    for color in colors {
        for level in 0..=100u8 {
            let ours = shade(RawColor(color), level).0;
            let theirs = with_value(color, level);
            for c in 0..3 {
                let diff = (ours[c] as i32 - theirs[c] as i32).abs();
                assert!(diff <= 1, "{:?} at {}: {:?} and {:?}", color, level, ours, theirs);
            }
        }
    }
}
