//! Text rasterisation: rendering a string onto a transparent square
//! raster, and cropping the result to the drawn content.
//!
//! The glyph rendering itself is done by the `ab_glyph`/`imageproc` stack
//! behind a trusted wrapper; everything around the call — the transparent
//! background, the byte codec and the tight crop — is verified.

use vstd::prelude::*;
use crate::raster::{
    Pixel, Raster, black_pixel, is_content, lemma_bytes_eq_pixels_eq,
    lemma_index_in_bounds, lemma_zero_color_bytes, transparent, transparent_pixel,
};
use crate::bbox::{crop_of, crop_to_content, tight_crop};

verus! {

#[verifier::external_type_specification]
#[verifier::external_body]
pub struct ExFontVec(ab_glyph::FontVec);

/// Every pixel of `r` is ink-only: the colour channels are zero and only
/// the alpha channel carries the anti-aliased glyph coverage.
pub open spec fn black_ink_only(r: Raster) -> bool {
    forall|x: int, y: int|
        r.in_range(x, y) ==> (#[trigger] r.pix(x, y)).r == 0 && r.pix(x, y).g == 0 && r.pix(
            x,
            y,
        ).b == 0
}

/// Relies on imageproc::drawing::draw_text_mut: it draws the glyphs of
/// `text` onto the RGBA buffer in place, starting at `(pos_x, pos_y)`,
/// with independent horizontal and vertical pixel scales, blending `ink`
/// by glyph coverage and clipping at the buffer edges; it never resizes
/// the buffer, and for empty text it lays out no glyph and leaves the
/// buffer untouched. Blending scales the ink's alpha by the coverage and
/// alpha-composes, so black ink over a buffer whose colour bytes are all
/// zero leaves every colour byte zero.
#[verifier::external_body]
fn draw_text_bytes(
    width: u32,
    height: u32,
    data: Vec<u8>,
    ink: Pixel,
    pos_x: i32,
    pos_y: i32,
    x_scale: u16,
    y_scale: u16,
    font: &ab_glyph::FontVec,
    text: &str,
) -> (r: Vec<u8>)
    requires
        data@.len() == 4 * (width * height),
    ensures
        r@.len() == data@.len(),
        text@.len() == 0 ==> r@ == data@,
        (ink.r == 0 && ink.g == 0 && ink.b == 0 && (forall|i: int|
            0 <= i < data@.len() && i % 4 != 3 ==> data@[i] == 0)) ==> (forall|i: int|
            0 <= i < r@.len() && i % 4 != 3 ==> r@[i] == 0),
{
    let mut img = image::RgbaImage::from_raw(width, height, data).unwrap();
    let scale = ab_glyph::PxScale { x: x_scale.into(), y: y_scale.into() };
    let color = image::Rgba([ink.r, ink.g, ink.b, ink.a]);
    imageproc::drawing::draw_text_mut(&mut img, color, pos_x, pos_y, scale, font, text);
    img.into_raw()
}

/// Renders `text` in opaque black ink onto a fresh transparent square
/// raster of side `canvas_side`, starting at the origin, with independent
/// horizontal and vertical pixel scales. Empty text draws nothing: the
/// result is then fully transparent.
pub fn rasterize(
    text: &str,
    x_scale: u16,
    y_scale: u16,
    canvas_side: usize,
    font: &ab_glyph::FontVec,
) -> (r: Raster)
    requires
        x_scale >= 1,
        y_scale >= 1,
        canvas_side >= 1,
        canvas_side <= u32::MAX,
        canvas_side * canvas_side <= usize::MAX,
    ensures
        r.wf(),
        r.w() == canvas_side,
        r.h() == canvas_side,
        black_ink_only(r),
        text@.len() == 0 ==> forall|x: int, y: int|
            r.in_range(x, y) ==> !is_content(#[trigger] r.pix(x, y)),
{
    let base = Raster::new(canvas_side, canvas_side, transparent_pixel());
    let bytes = base.to_bytes();
    proof {
        crate::raster::lemma_fill_bytes(base, transparent());
        assert forall|i: int| 0 <= i < bytes@.len() && i % 4 != 3 implies bytes@[i] == 0 by {
            assert(bytes@[i] == base.bytes_of()[i]);
        }
    }
    let drawn = draw_text_bytes(
        canvas_side as u32,
        canvas_side as u32,
        bytes,
        black_pixel(),
        0,
        0,
        x_scale,
        y_scale,
        font,
        text,
    );
    let r = Raster::from_bytes(canvas_side, canvas_side, &drawn);
    proof {
        assert forall|i: int| 0 <= i < r.bytes_of().len() && i % 4 != 3 implies r.bytes_of()[i]
            == 0 by {
            assert(r.bytes_of()[i] == drawn@[i]);
        }
        lemma_zero_color_bytes(r);
        assert forall|x: int, y: int| r.in_range(x, y) implies (#[trigger] r.pix(x, y)).r == 0
            && r.pix(x, y).g == 0 && r.pix(x, y).b == 0 by {
            lemma_index_in_bounds(r.w(), r.h(), x, y);
        }
        if text@.len() == 0 {
            lemma_bytes_eq_pixels_eq(r, base);
            assert forall|x: int, y: int| r.in_range(x, y) implies !is_content(
                #[trigger] r.pix(x, y),
            ) by {
                assert(r.pix(x, y) == base.pix(x, y));
            }
        }
    }
    r
}

/// Renders `text` onto a transparent square raster of side
/// `background_size` and crops the result to the tight box around the
/// drawn content. Text that draws nothing visible — empty text always
/// among it — yields `None` instead of a degenerate crop.
pub fn get_text(
    text: &str,
    x_scale: u16,
    y_scale: u16,
    background_size: usize,
    font: &ab_glyph::FontVec,
) -> (r: Option<Raster>)
    requires
        x_scale >= 1,
        y_scale >= 1,
        background_size >= 1,
        background_size <= u32::MAX,
        background_size * background_size <= usize::MAX,
    ensures
        match r {
            Option::Some(c) => {
                &&& c.wf()
                &&& 1 <= c.w() <= background_size
                &&& 1 <= c.h() <= background_size
                &&& black_ink_only(c)
                &&& exists|x: int, y: int| c.in_range(x, y) && is_content(#[trigger] c.pix(x, y))
                &&& exists|base: Raster, ox: int, oy: int|
                    #![trigger crop_of(base, c, ox, oy)]
                    {
                        &&& base.wf()
                        &&& base.w() == background_size
                        &&& base.h() == background_size
                        &&& black_ink_only(base)
                        &&& crop_of(base, c, ox, oy)
                        &&& tight_crop(base, c, ox, oy)
                    }
            },
            Option::None => true,
        },
        text@.len() == 0 ==> r is None,
{
    let img = rasterize(text, x_scale, y_scale, background_size, font);
    let cropped = crop_to_content(&img);
    proof {
        if cropped is Some {
            let c = cropped->Some_0;
            let (ox, oy) = choose|ox: int, oy: int|
                #[trigger] crop_of(img, c, ox, oy) && tight_crop(img, c, ox, oy);
            let wy = choose|y: int| 0 <= y < c.h() && is_content(#[trigger] c.pix(0, y));
            assert(c.in_range(0, wy) && is_content(c.pix(0, wy)));
            assert forall|x: int, y: int| c.in_range(x, y) implies (#[trigger] c.pix(x, y)).r == 0
                && c.pix(x, y).g == 0 && c.pix(x, y).b == 0 by {
                assert(c.pix(x, y) == img.pix(ox + x, oy + y));
            }
        }
    }
    cropped
}

} // verus!
