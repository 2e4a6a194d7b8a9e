//! Tests of the raster data model: pixel access, the byte codec, the
//! bounding-box scan and cropping.

use warped_text::raster::{Pixel, Raster, black_pixel, transparent_pixel, white_pixel};
use warped_text::bbox::{BoundingBox, crop, crop_to_content, find_bbox};

fn opaque(r: u8, g: u8, b: u8) -> Pixel {
    Pixel { r, g, b, a: 255 }
}

#[test]
fn new_fills_every_pixel() {
    let img = Raster::new(3, 2, white_pixel());
    assert_eq!(img.width, 3);
    assert_eq!(img.height, 2);
    for y in 0..2 {
        for x in 0..3 {
            assert_eq!(img.get(x, y), white_pixel());
        }
    }
}

#[test]
fn set_changes_one_pixel_only() {
    let mut img = Raster::new(3, 3, transparent_pixel());
    img.set(1, 2, black_pixel());
    for y in 0..3 {
        for x in 0..3 {
            if (x, y) == (1, 2) {
                assert_eq!(img.get(x, y), black_pixel());
            } else {
                assert_eq!(img.get(x, y), transparent_pixel());
            }
        }
    }
}

#[test]
fn bytes_roundtrip_is_identity() {
    let mut img = Raster::new(2, 2, transparent_pixel());
    img.set(0, 0, opaque(1, 2, 3));
    img.set(1, 0, Pixel { r: 9, g: 8, b: 7, a: 6 });
    img.set(0, 1, black_pixel());
    let bytes = img.to_bytes();
    assert_eq!(bytes.len(), 16);
    assert_eq!(&bytes[0..4], &[1, 2, 3, 255]);
    assert_eq!(&bytes[4..8], &[9, 8, 7, 6]);
    let back = Raster::from_bytes(2, 2, &bytes);
    assert_eq!(back.to_bytes(), bytes);
    for y in 0..2 {
        for x in 0..2 {
            assert_eq!(back.get(x, y), img.get(x, y));
        }
    }
}

#[test]
fn find_bbox_of_blank_raster_is_none() {
    let img = Raster::new(7, 5, transparent_pixel());
    assert!(find_bbox(&img).is_none());
    assert!(crop_to_content(&img).is_none());
}

#[test]
fn find_bbox_is_tight() {
    let mut img = Raster::new(6, 4, transparent_pixel());
    img.set(2, 1, black_pixel());
    img.set(4, 2, opaque(5, 5, 5));
    let b = find_bbox(&img).unwrap();
    assert_eq!(b, BoundingBox { xmin: 2, xmax: 4, ymin: 1, ymax: 2 });
}

#[test]
fn find_bbox_counts_partially_transparent_pixels() {
    let mut img = Raster::new(3, 3, transparent_pixel());
    // An anti-aliased edge pixel: black with low but non-zero alpha.
    img.set(1, 1, Pixel { r: 0, g: 0, b: 0, a: 1 });
    let b = find_bbox(&img).unwrap();
    assert_eq!(b, BoundingBox { xmin: 1, xmax: 1, ymin: 1, ymax: 1 });
}

#[test]
fn crop_copies_the_window() {
    let mut img = Raster::new(5, 4, white_pixel());
    img.set(1, 1, opaque(10, 0, 0));
    img.set(3, 2, opaque(0, 20, 0));
    let b = BoundingBox { xmin: 1, xmax: 3, ymin: 1, ymax: 2 };
    let c = crop(&img, &b);
    assert_eq!(c.width, 3);
    assert_eq!(c.height, 2);
    assert_eq!(c.get(0, 0), opaque(10, 0, 0));
    assert_eq!(c.get(2, 1), opaque(0, 20, 0));
    assert_eq!(c.get(1, 0), white_pixel());
}

#[test]
fn crop_to_content_keeps_boundary_content() {
    let mut img = Raster::new(8, 8, transparent_pixel());
    img.set(2, 3, black_pixel());
    img.set(5, 6, black_pixel());
    let c = crop_to_content(&img).unwrap();
    assert_eq!(c.width, 4);
    assert_eq!(c.height, 4);
    // The two content pixels sit on the corners of the tight window.
    assert_eq!(c.get(0, 0), black_pixel());
    assert_eq!(c.get(3, 3), black_pixel());
    // Every other pixel of the window is transparent.
    let mut content: usize = 0;
    for y in 0..4 {
        for x in 0..4 {
            if c.get(x, y) != transparent_pixel() {
                content += 1;
            }
        }
    }
    assert_eq!(content, 2);
}
