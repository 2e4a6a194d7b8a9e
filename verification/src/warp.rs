//! The keystone (perspective) warp: mapping a raster's corners onto a
//! trapezoid whose top edge is shrunk symmetrically, for the
//! "looking up at a sign" illusion.
//!
//! The projective solve and the bilinear resampling are done by
//! `imageproc` behind one trusted wrapper; the corner geometry, the size
//! bookkeeping and the byte codec around the call are verified.

use vstd::prelude::*;
use image::{Rgba, RgbaImage};
use imageproc::geometric_transformations::{Border, Interpolation, Projection, warp};
use crate::raster::Raster;

verus! {

/// The RGBA bytes of a raster of the given dimensions after the keystone
/// warp that maps its top corners inward to columns `top_left` and
/// `top_right`, with bilinear resampling and a transparent border. The
/// result is a function of these arguments alone; what it holds is left
/// to the resampler.
pub uninterp spec fn keystone_warped(
    bytes: Seq<u8>,
    width: int,
    height: int,
    top_left: int,
    top_right: int,
) -> Seq<u8>;

/// Whether the projective solve for the keystone corners succeeds. The
/// solve is pure floating-point linear algebra over the eight corner
/// coordinates, and those are determined by these four parameters, so
/// success is a function of them alone.
pub uninterp spec fn keystone_solve_ok(
    width: int,
    height: int,
    top_left: int,
    top_right: int,
) -> bool;

/// Relies on imageproc's Projection::from_control_points and warp: the
/// solved projection maps the corners `(0, 0), (w, 0), (0, h), (w, h)` to
/// `(top_left, 0), (top_right, 0), (0, h), (w, h)`; `warp` resamples with
/// bilinear interpolation, resolves pixels that map outside the source to
/// the constant zero (fully transparent) border, and returns a buffer of
/// the same dimensions as its input. Both are deterministic in their
/// arguments; the solve reports a singular system with `None`, again as a
/// function of the corner parameters alone.
#[verifier::external_body]
fn warp_keystone_bytes(width: u16, height: u16, data: Vec<u8>, top_left: u16, top_right: u16) -> (r:
    Option<Vec<u8>>)
    requires
        data@.len() == 4 * (width * height),
    ensures
        r is Some <==> keystone_solve_ok(
            width as int,
            height as int,
            top_left as int,
            top_right as int,
        ),
        r matches Option::Some(v) ==> v@.len() == data@.len() && v@ == keystone_warped(
            data@,
            width as int,
            height as int,
            top_left as int,
            top_right as int,
        ),
{
    let img = RgbaImage::from_raw(width.into(), height.into(), data).unwrap();
    let z = 0u16;
    let src = [(z.into(), z.into()), (width.into(), z.into()), (z.into(), height.into()), (width.into(), height.into())];
    let dst = [(top_left.into(), z.into()), (top_right.into(), z.into()), (z.into(), height.into()), (width.into(), height.into())];
    let p = Projection::from_control_points(src, dst)?;
    Some(warp(&img, p, Interpolation::Bilinear, Border::Constant(Rgba([0; 4]))).into_raw())
}

/// Applies the keystone warp to `img`: the top edge is shrunk by
/// `shrink_px` columns on each side, the bottom edge is unchanged, and the
/// output raster keeps the input's dimensions. `None` reports a singular
/// projective solve — and only that: success is exactly the solvability of
/// the corner system, a logic error distinct from any input rejection.
pub fn apply_perspective_shear(img: &Raster, shrink_px: usize) -> (r: Option<Raster>)
    requires
        img.wf(),
        img.w() <= u16::MAX,
        img.h() <= u16::MAX,
        2 * shrink_px < img.w(),
    ensures
        r is Some <==> keystone_solve_ok(
            img.w(),
            img.h(),
            shrink_px as int,
            img.w() - shrink_px,
        ),
        r matches Option::Some(res) ==> {
            &&& res.wf()
            &&& res.w() == img.w()
            &&& res.h() == img.h()
            &&& res.bytes_of() == keystone_warped(
                img.bytes_of(),
                img.w(),
                img.h(),
                shrink_px as int,
                img.w() - shrink_px,
            )
        },
{
    let bytes = img.to_bytes();
    let top_left: u16 = shrink_px as u16;
    let top_right: u16 = (img.width - shrink_px) as u16;
    match warp_keystone_bytes(img.width as u16, img.height as u16, bytes, top_left, top_right) {
        Option::None => None,
        Option::Some(v) => {
            let res = Raster::from_bytes(img.width, img.height, &v);
            Some(res)
        },
    }
}

} // verus!
