//! Writing a raster to a lossless image file and reading it back yields
//! pixel-identical content.

use warped_text::raster::{Pixel, Raster, transparent_pixel};

#[test]
fn png_roundtrip_is_pixel_identical() {
    let mut img = Raster::new(5, 3, transparent_pixel());
    let mut k: u8 = 0;
    for y in 0..3 {
        for x in 0..5 {
            img.set(x, y, Pixel { r: k, g: k.wrapping_add(90), b: 250u8.wrapping_sub(k), a: 255 });
            k = k.wrapping_add(17);
        }
    }
    let bytes = img.to_bytes();
    let encoded = image::RgbaImage::from_raw(5, 3, bytes.clone()).unwrap();
    let path = "/tmp/warped_text_roundtrip.png";
    encoded.save(path).expect("saving the image should succeed");
    let decoded = image::open(path).expect("reading the image back should succeed").into_rgba8();
    assert_eq!(decoded.dimensions(), (5, 3));
    assert_eq!(decoded.into_raw(), bytes);
}

#[test]
fn read_of_missing_file_fails_recoverably() {
    let missing = image::open("/tmp/warped_text_no_such_image.png");
    assert!(missing.is_err());
}
