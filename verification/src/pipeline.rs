//! The pipeline orchestrator: text in, square RGBA buffer out.
//!
//! The stages run strictly left to right: rasterise the text, crop to the
//! tight box around the drawn content, apply the keystone warp, then
//! compose the result with its own 90-degree-rotated copy on a square
//! white canvas. Text that draws nothing yields the plain background
//! canvas rather than a degenerate crop.

use vstd::prelude::*;
use crate::raster::{Raster, white, white_pixel, lemma_fill_bytes};
use crate::compose::{composed_pix, is_composed_buffer, is_composition_of, overlay_with_rotated};
use crate::bbox::{crop_of, tight_crop};
use crate::text::{black_ink_only, get_text};
use crate::warp::{apply_perspective_shear, keystone_solve_ok, keystone_warped};

verus! {

/// The horizontal font scale is the canvas side divided by this, so that
/// wide glyph sequences leave horizontal room; tuned for visual
/// proportion, not derived.
pub const X_SCALE_DIVISOR: usize = 26;

/// The top edge of the warp trapezoid is shrunk on each side by the
/// raster width divided by this: a shrink factor of one tenth, tuned for
/// visual proportion, not derived.
pub const SHRINK_DIVISOR: usize = 10;

/// `m` holds the keystone warp the pipeline applies to the cropped raster
/// `c`: the top edge shrunk on each side by a tenth of the width.
pub open spec fn is_keystone_of(c: Raster, m: Raster) -> bool {
    let shrink = c.w() / SHRINK_DIVISOR as int;
    &&& m.wf()
    &&& m.w() == c.w()
    &&& m.h() == c.h()
    &&& m.bytes_of() == keystone_warped(c.bytes_of(), c.w(), c.h(), shrink, c.w() - shrink)
}

/// Whether the projective solve succeeds for the pipeline's trapezoid on a
/// raster of the given dimensions.
pub open spec fn pipeline_solve_ok(cw: int, ch: int) -> bool {
    keystone_solve_ok(cw, ch, cw / SHRINK_DIVISOR as int, cw - cw / SHRINK_DIVISOR as int)
}

/// `c` is the tight crop of an `l` x `l` rasterization drawn in black ink.
pub open spec fn is_tight_crop_of_rasterization(c: Raster, l: int) -> bool {
    &&& c.wf()
    &&& 1 <= c.w() <= l
    &&& 1 <= c.h() <= l
    &&& black_ink_only(c)
    &&& exists|base: Raster, ox: int, oy: int|
        #![trigger crop_of(base, c, ox, oy)]
        {
            &&& base.wf()
            &&& base.w() == l
            &&& base.h() == l
            &&& black_ink_only(base)
            &&& crop_of(base, c, ox, oy)
            &&& tight_crop(base, c, ox, oy)
        }
}

/// `bytes` is a content-bearing pipeline output for canvas side `l`: the
/// symmetric composition of the keystone warp of the tight crop of a
/// rasterization.
pub open spec fn is_content_output(l: int, bytes: Seq<u8>) -> bool {
    exists|c: Raster, m: Raster, out: Raster|
        #![trigger is_keystone_of(c, m), is_composition_of(m, l, out)]
        {
            &&& is_tight_crop_of_rasterization(c, l)
            &&& is_keystone_of(c, m)
            &&& is_composition_of(m, l, out)
            &&& bytes == out.bytes_of()
        }
}

/// A stage failure that is not an input rejection.
#[derive(Clone, Copy, PartialEq, Eq, Structural, Debug)]
pub enum PipelineError {
    /// The projective solve for the keystone corners reported a singular
    /// system: a logic error, distinct from any I/O failure.
    SingularTransform,
}

/// Runs the whole pipeline on `text` and returns the raw RGBA bytes of a
/// square canvas of side `canvas_size`, row-major with the origin at the
/// top left, together with the canvas width. Text that draws nothing —
/// empty text always among it — gives the plain opaque-white background.
pub fn calc_perspective_image(text: &str, canvas_size: usize, font: &ab_glyph::FontVec) -> (r:
    Result<(Vec<u8>, usize), PipelineError>)
    requires
        1 <= canvas_size <= u16::MAX,
    ensures
        r matches Result::Ok(p) ==> p.1 == canvas_size && p.0@.len() == 4 * (canvas_size
            * canvas_size),
        r matches Result::Ok(p) ==> is_composed_buffer(canvas_size as int, p.0@),
        r matches Result::Ok(p) ==> ((forall|i: int| 0 <= i < p.0@.len() ==> p.0@[i] == 255)
            || is_content_output(canvas_size as int, p.0@)),
        text@.len() == 0 ==> r is Ok,
        text@.len() == 0 ==> forall|i: int| 0 <= i < r->Ok_0.0@.len() ==> r->Ok_0.0@[i] == 255,
        r is Err ==> text@.len() != 0 && exists|cw: int, ch: int|
            #![trigger pipeline_solve_ok(cw, ch)]
            {
                1 <= cw <= canvas_size && 1 <= ch <= canvas_size && !pipeline_solve_ok(cw, ch)
            },
{
    let x_scale_raw: usize = canvas_size / X_SCALE_DIVISOR;
    proof {
        vstd::arithmetic::div_mod::lemma_fundamental_div_mod(canvas_size as int, X_SCALE_DIVISOR as int);
        vstd::arithmetic::div_mod::lemma_mod_bound(canvas_size as int, X_SCALE_DIVISOR as int);
        assert(canvas_size * canvas_size < 0x100000000) by (nonlinear_arith)
            requires
                canvas_size <= 0xffff,
        ;
    }
    let x_scale: u16 = if x_scale_raw < 1 {
        1
    } else {
        x_scale_raw as u16
    };
    let y_scale: u16 = canvas_size as u16;
    match get_text(text, x_scale, y_scale, canvas_size, font) {
        Option::None => {
            let canvas = Raster::new(canvas_size, canvas_size, white_pixel());
            let bytes = canvas.to_bytes();
            proof {
                lemma_fill_bytes(canvas, white());
                // The plain background is the symmetric composition of the
                // white canvas with itself: content everywhere, all of it
                // white.
                assert forall|bx: int, by: int| canvas.in_range(bx, by) implies #[trigger] canvas
                    .pix(bx, by) == composed_pix(canvas, canvas_size as int, bx, by) by {
                    assert(canvas.pix(by, canvas_size - 1 - bx) == white());
                }
                assert(is_composition_of(canvas, canvas_size as int, canvas));
                assert(is_composed_buffer(canvas_size as int, bytes@));
            }
            Ok((bytes, canvas_size))
        },
        Option::Some(img) => {
            let shrink_px: usize = img.width / SHRINK_DIVISOR;
            proof {
                vstd::arithmetic::div_mod::lemma_fundamental_div_mod(img.w(), SHRINK_DIVISOR as int);
                vstd::arithmetic::div_mod::lemma_mod_bound(img.w(), SHRINK_DIVISOR as int);
            }
            match apply_perspective_shear(&img, shrink_px) {
                Option::None => {
                    proof {
                        assert(!pipeline_solve_ok(img.w(), img.h()));
                    }
                    Err(PipelineError::SingularTransform)
                },
                Option::Some(warped) => {
                    let ghost cropped = img;
                    let ghost warped_in = warped;
                    let out = overlay_with_rotated(warped, canvas_size);
                    let width = out.width;
                    let bytes = out.to_bytes();
                    proof {
                        assert(is_tight_crop_of_rasterization(cropped, canvas_size as int));
                        assert(is_keystone_of(cropped, warped_in));
                        assert(is_composition_of(warped_in, canvas_size as int, out));
                        assert(is_composed_buffer(canvas_size as int, bytes@));
                        assert(is_content_output(canvas_size as int, bytes@));
                    }
                    Ok((bytes, width))
                },
            }
        },
    }
}

} // verus!
