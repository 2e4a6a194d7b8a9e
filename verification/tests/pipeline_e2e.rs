//! End-to-end tests of the pipeline, and of the keystone warp stage.

use warped_text::pipeline::calc_perspective_image;
use warped_text::raster::{Raster, black_pixel, transparent_pixel};
use warped_text::warp::apply_perspective_shear;

const FONT_PATH: &str = "/usr/share/fonts/truetype/dejavu/DejaVuSansMono.ttf";

fn load_font() -> ab_glyph::FontVec {
    let bytes = fs_err::read(FONT_PATH).expect("font file should be readable");
    ab_glyph::FontVec::try_from_vec(bytes).expect("font file should parse")
}

#[test]
fn single_letter_gives_full_size_buffer_with_content() {
    let font = load_font();
    let (bytes, width) = calc_perspective_image("A", 400, &font).unwrap();
    assert_eq!(width, 400);
    assert_eq!(bytes.len(), 640000);
    // At least one pixel differs from the fully transparent sentinel.
    assert!(bytes.chunks(4).any(|p| p != [0, 0, 0, 0]));
    // And the drawn letter shows: not everything is the white background.
    assert!(bytes.chunks(4).any(|p| p != [255, 255, 255, 255]));
}

#[test]
fn empty_text_gives_plain_background() {
    let font = load_font();
    let (bytes, width) = calc_perspective_image("", 400, &font).unwrap();
    assert_eq!(width, 400);
    assert_eq!(bytes.len(), 640000);
    assert!(bytes.iter().all(|&b| b == 255));
}

#[test]
fn whitespace_text_gives_plain_background() {
    let font = load_font();
    let (bytes, width) = calc_perspective_image("    ", 400, &font).unwrap();
    assert_eq!(width, 400);
    assert_eq!(bytes.len(), 640000);
    assert!(bytes.iter().all(|&b| b == 255));
}

#[test]
fn longer_text_still_fits_the_canvas() {
    let font = load_font();
    let (bytes, width) = calc_perspective_image("warped text", 300, &font).unwrap();
    assert_eq!(width, 300);
    assert_eq!(bytes.len(), 4 * 300 * 300);
}

#[test]
fn keystone_warp_keeps_dimensions() {
    let img = Raster::new(20, 10, black_pixel());
    let warped = apply_perspective_shear(&img, 2).unwrap();
    assert_eq!(warped.width, 20);
    assert_eq!(warped.height, 10);
}

#[test]
fn keystone_solve_succeeds_on_proper_trapezoids() {
    // The projective solve for the pipeline's corner layout succeeds on
    // small, thin and large rasters alike.
    for (w, h) in [(1, 1), (3, 7), (400, 1), (1, 400), (400, 217)] {
        let img = Raster::new(w, h, black_pixel());
        let shrink = w / 10;
        assert!(apply_perspective_shear(&img, shrink).is_some());
    }
}

#[test]
fn keystone_warp_clears_the_shrunk_top_corners() {
    // An all-opaque raster: after the keystone warp the top corners lie
    // outside the trapezoid, so they map outside the source and resolve
    // to the transparent border.
    let img = Raster::new(20, 10, black_pixel());
    let warped = apply_perspective_shear(&img, 4).unwrap();
    assert_eq!(warped.get(0, 0), transparent_pixel());
    assert_eq!(warped.get(19, 0), transparent_pixel());
    // The bottom edge is unchanged: its corners keep their content.
    assert_ne!(warped.get(0, 9), transparent_pixel());
    assert_ne!(warped.get(19, 9), transparent_pixel());
}
