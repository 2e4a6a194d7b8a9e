//! Tests of rotation and overlay compositing, including the rotation
//! involution and the order-sensitivity of overlays on concrete rasters.

use warped_text::raster::{Pixel, Raster, transparent_pixel, white_pixel};
use warped_text::rotate::rotate90;
use warped_text::compose::{overlay, overlay_with_rotated};

fn opaque(r: u8, g: u8, b: u8) -> Pixel {
    Pixel { r, g, b, a: 255 }
}

fn sample_raster(width: usize, height: usize) -> Raster {
    let mut img = Raster::new(width, height, transparent_pixel());
    let mut k: u8 = 1;
    for y in 0..height {
        for x in 0..width {
            if (x + y) % 2 == 0 {
                img.set(x, y, opaque(k, k.wrapping_mul(3), k.wrapping_add(40)));
            }
            k = k.wrapping_add(7);
        }
    }
    img
}

#[test]
fn rotate90_matches_reference_rotation() {
    let img = sample_raster(4, 3);
    let ours = rotate90(&img);
    let reference = image::imageops::rotate90(
        &image::RgbaImage::from_raw(4, 3, img.to_bytes()).unwrap(),
    );
    assert_eq!(reference.dimensions(), (3, 4));
    assert_eq!(ours.width, 3);
    assert_eq!(ours.height, 4);
    assert_eq!(ours.to_bytes(), reference.into_raw());
}

#[test]
fn rotate90_four_times_is_identity() {
    let img = sample_raster(5, 3);
    let once = rotate90(&img);
    let twice = rotate90(&once);
    let thrice = rotate90(&twice);
    let four = rotate90(&thrice);
    assert_eq!(four.width, img.width);
    assert_eq!(four.height, img.height);
    assert_eq!(four.to_bytes(), img.to_bytes());
}

#[test]
fn rotate90_twice_reverses_rows_and_columns() {
    let img = sample_raster(4, 3);
    let twice = rotate90(&rotate90(&img));
    assert_eq!(twice.width, img.width);
    assert_eq!(twice.height, img.height);
    for y in 0..3 {
        for x in 0..4 {
            assert_eq!(twice.get(x, y), img.get(3 - x, 2 - y));
        }
    }
}

#[test]
fn overlay_keeps_canvas_under_transparent_pixels() {
    let mut canvas = Raster::new(4, 4, white_pixel());
    let mut top = Raster::new(2, 2, transparent_pixel());
    top.set(0, 0, opaque(9, 9, 9));
    overlay(&mut canvas, &top, 1, 2);
    assert_eq!(canvas.get(1, 2), opaque(9, 9, 9));
    assert_eq!(canvas.get(2, 2), white_pixel());
    assert_eq!(canvas.get(2, 3), white_pixel());
    assert_eq!(canvas.get(0, 0), white_pixel());
}

#[test]
fn overlay_order_differs_only_in_overlap_and_later_wins() {
    let mut a = Raster::new(2, 2, transparent_pixel());
    a.set(0, 0, opaque(100, 0, 0));
    a.set(1, 1, opaque(101, 0, 0));
    let mut b = Raster::new(2, 2, transparent_pixel());
    b.set(0, 0, opaque(0, 200, 0));
    b.set(0, 1, opaque(0, 201, 0));

    // A at (0, 0), B at (1, 1): the windows overlap in the single cell (1, 1).
    let mut ab = Raster::new(3, 3, white_pixel());
    overlay(&mut ab, &a, 0, 0);
    overlay(&mut ab, &b, 1, 1);
    let mut ba = Raster::new(3, 3, white_pixel());
    overlay(&mut ba, &b, 1, 1);
    overlay(&mut ba, &a, 0, 0);

    for y in 0..3 {
        for x in 0..3 {
            if (x, y) != (1, 1) {
                assert_eq!(ab.get(x, y), ba.get(x, y));
            }
        }
    }
    // In the overlap both hold content; with A then B, B's pixel wins.
    assert_eq!(ab.get(1, 1), opaque(0, 200, 0));
    assert_eq!(ba.get(1, 1), opaque(101, 0, 0));
}

#[test]
fn overlay_with_rotated_places_copies_at_transposed_offsets() {
    let mut img = Raster::new(1, 2, transparent_pixel());
    img.set(0, 0, opaque(1, 0, 0));
    img.set(0, 1, opaque(2, 0, 0));
    let canvas = overlay_with_rotated(img, 5);
    assert_eq!(canvas.width, 5);
    assert_eq!(canvas.height, 5);
    // Centering: cx = (5 - 1) / 2 = 2, cy = (5 - 2) / 2 = 1.
    // The upright copy sits at (2, 1)..(2, 2).
    assert_eq!(canvas.get(2, 1), opaque(1, 0, 0));
    // The rotated copy (2 wide, 1 high) sits at the transposed offset
    // (1, 2)..(2, 2); rotation sends (0, 1) to (0, 0) and (0, 0) to (1, 0).
    assert_eq!(canvas.get(1, 2), opaque(2, 0, 0));
    // In the overlap cell (2, 2) the rotated copy, overlaid last, wins.
    assert_eq!(canvas.get(2, 2), opaque(1, 0, 0));
    // Everywhere else the background stays opaque white.
    assert_eq!(canvas.get(0, 0), white_pixel());
    assert_eq!(canvas.get(4, 4), white_pixel());
    assert_eq!(canvas.get(2, 3), white_pixel());
}

#[test]
fn overlay_with_rotated_is_deterministic() {
    let a = sample_raster(4, 3);
    let b = sample_raster(4, 3);
    let out_a = overlay_with_rotated(a, 6);
    let out_b = overlay_with_rotated(b, 6);
    assert_eq!(out_a.to_bytes(), out_b.to_bytes());
}

#[test]
fn overlay_with_rotated_grows_canvas_to_fit() {
    let img = Raster::new(4, 2, transparent_pixel());
    let canvas = overlay_with_rotated(img, 3);
    assert_eq!(canvas.width, 4);
    assert_eq!(canvas.height, 4);
}
