//! Tests that render real glyphs through the font stack.

use warped_text::raster::transparent_pixel;
use warped_text::text::{get_text, rasterize};

const FONT_PATH: &str = "/usr/share/fonts/truetype/dejavu/DejaVuSansMono.ttf";

fn load_font() -> ab_glyph::FontVec {
    let bytes = fs_err::read(FONT_PATH).expect("font file should be readable");
    ab_glyph::FontVec::try_from_vec(bytes).expect("font file should parse")
}

#[test]
fn check_letters_in_bound() {
    let font = load_font();
    let mut max_height: usize = 0;

    for byte_num in 33..=126 {
        let byte_arr = [byte_num];
        let test_letter = std::str::from_utf8(&byte_arr).unwrap();
        let img = get_text(&format!("{}", test_letter), 15, 400, 400, &font).unwrap();
        let height = img.height;

        if height > max_height {
            max_height = height;
        }
    }

    println!("Maximum height: {}px", max_height);
    assert!(max_height < 400);
}

#[test]
fn rasterize_draws_content_for_visible_text() {
    let font = load_font();
    let img = rasterize("A", 15, 400, 400, &font);
    assert_eq!(img.width, 400);
    assert_eq!(img.height, 400);
    let mut content: usize = 0;
    for y in 0..400 {
        for x in 0..400 {
            if img.get(x, y) != transparent_pixel() {
                content += 1;
            }
        }
    }
    assert!(content > 0);
}

#[test]
fn rasterize_empty_text_is_fully_transparent() {
    let font = load_font();
    let img = rasterize("", 15, 400, 400, &font);
    for y in 0..400 {
        for x in 0..400 {
            assert_eq!(img.get(x, y), transparent_pixel());
        }
    }
}

#[test]
fn rasterize_uses_only_black_ink() {
    let font = load_font();
    let img = rasterize("Ag!", 15, 400, 400, &font);
    for y in 0..400 {
        for x in 0..400 {
            let p = img.get(x, y);
            assert_eq!((p.r, p.g, p.b), (0, 0, 0));
        }
    }
}

#[test]
fn get_text_of_empty_text_is_none() {
    let font = load_font();
    assert!(get_text("", 15, 400, 400, &font).is_none());
}

#[test]
fn get_text_of_whitespace_is_none() {
    let font = load_font();
    assert!(get_text("   ", 15, 400, 400, &font).is_none());
}

#[test]
fn get_text_crops_tightly() {
    let font = load_font();
    // A period occupies a small fraction of the 400-pixel field; the crop
    // must be much smaller than the field and hold content on every border.
    let img = get_text(".", 15, 400, 400, &font).unwrap();
    assert!(img.width < 400);
    assert!(img.height < 400);
    let mut left = false;
    let mut right = false;
    let mut top = false;
    let mut bottom = false;
    for y in 0..img.height {
        if img.get(0, y) != transparent_pixel() {
            left = true;
        }
        if img.get(img.width - 1, y) != transparent_pixel() {
            right = true;
        }
    }
    for x in 0..img.width {
        if img.get(x, 0) != transparent_pixel() {
            top = true;
        }
        if img.get(x, img.height - 1) != transparent_pixel() {
            bottom = true;
        }
    }
    assert!(left && right && top && bottom);
}
