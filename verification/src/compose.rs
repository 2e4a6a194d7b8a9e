//! Overlay compositing, and the symmetric rotate-and-overlay composition.
//!
//! The compositing rule is alpha-over with a hard mask: a content pixel of
//! the upper raster replaces the canvas pixel beneath it, a transparent
//! pixel leaves the canvas pixel unchanged. Where two overlays meet, the
//! one applied later wins.

use vstd::prelude::*;
use crate::raster::{Pixel, Raster, is_content, lemma_grid_eq, white, white_pixel};
use crate::rotate::rotate90;

verus! {

/// The pixel of `base` at `(bx, by)` after `top` is overlaid at offset
/// `(ox, oy)`: inside the window, content pixels of `top` win.
pub open spec fn over_pix(base: Raster, top: Raster, ox: int, oy: int, bx: int, by: int) -> Pixel {
    if ox <= bx < ox + top.w() && oy <= by < oy + top.h() && is_content(
        top.pix(bx - ox, by - oy),
    ) {
        top.pix(bx - ox, by - oy)
    } else {
        base.pix(bx, by)
    }
}

/// Position `(px, py)` of the upper raster comes before column `x` of row
/// `y` in the scan.
spec fn before(px: int, py: int, x: int, y: int) -> bool {
    py < y || (py == y && px < x)
}

/// Overlays `top` onto `bottom` with its top-left corner at `(ox, oy)`.
pub fn overlay(bottom: &mut Raster, top: &Raster, ox: usize, oy: usize)
    requires
        old(bottom).wf(),
        top.wf(),
        ox + top.w() <= old(bottom).w(),
        oy + top.h() <= old(bottom).h(),
    ensures
        final(bottom).wf(),
        final(bottom).w() == old(bottom).w(),
        final(bottom).h() == old(bottom).h(),
        forall|bx: int, by: int|
            old(bottom).in_range(bx, by) ==> #[trigger] final(bottom).pix(bx, by) == over_pix(
                *old(bottom),
                *top,
                ox as int,
                oy as int,
                bx,
                by,
            ),
{
    let mut y: usize = 0;
    while y < top.height
        invariant
            bottom.wf(),
            top.wf(),
            ox + top.w() <= bottom.w(),
            oy + top.h() <= bottom.h(),
            bottom.w() == old(bottom).w(),
            bottom.h() == old(bottom).h(),
            y <= top.height,
            forall|bx: int, by: int|
                old(bottom).in_range(bx, by) ==> #[trigger] bottom.pix(bx, by) == (if ox <= bx < ox
                    + top.w() && oy <= by < oy + top.h() && before(bx - ox, by - oy, 0, y as int) {
                    over_pix(*old(bottom), *top, ox as int, oy as int, bx, by)
                } else {
                    old(bottom).pix(bx, by)
                }),
        decreases top.height - y,
    {
        let mut x: usize = 0;
        while x < top.width
            invariant
                bottom.wf(),
                top.wf(),
                ox + top.w() <= bottom.w(),
                oy + top.h() <= bottom.h(),
                bottom.w() == old(bottom).w(),
                bottom.h() == old(bottom).h(),
                y < top.height,
                x <= top.width,
                forall|bx: int, by: int|
                    old(bottom).in_range(bx, by) ==> #[trigger] bottom.pix(bx, by) == (if ox <= bx
                        < ox + top.w() && oy <= by < oy + top.h() && before(
                        bx - ox,
                        by - oy,
                        x as int,
                        y as int,
                    ) {
                        over_pix(*old(bottom), *top, ox as int, oy as int, bx, by)
                    } else {
                        old(bottom).pix(bx, by)
                    }),
            decreases top.width - x,
        {
            let p = top.get(x, y);
            if crate::raster::pixel_is_content(p) {
                bottom.set(ox + x, oy + y, p);
            }
            x = x + 1;
        }
        y = y + 1;
    }
}

/// The side of the square canvas: the configured length, grown if needed
/// so that the overlaid raster fits in both orientations.
pub open spec fn canvas_side(img: Raster, length: int) -> int {
    let m = if img.w() >= img.h() {
        img.w()
    } else {
        img.h()
    };
    if length >= m {
        length
    } else {
        m
    }
}

/// The pixel at `(bx, by)` of the symmetric composition of `img` on a
/// square white canvas of side `l`: `img` is centered at `(cx, cy)`, its
/// 90-degree-rotated copy is placed at the transposed offset `(cy, cx)`,
/// and the rotated copy, overlaid last, wins where both hold content.
pub open spec fn composed_pix(img: Raster, l: int, bx: int, by: int) -> Pixel {
    let cx = (l - img.w()) / 2;
    let cy = (l - img.h()) / 2;
    let rx = bx - cy;
    let ry = by - cx;
    if 0 <= rx < img.h() && 0 <= ry < img.w() && is_content(img.pix(ry, img.h() - 1 - rx)) {
        img.pix(ry, img.h() - 1 - rx)
    } else if 0 <= bx - cx < img.w() && 0 <= by - cy < img.h() && is_content(
        img.pix(bx - cx, by - cy),
    ) {
        img.pix(bx - cx, by - cy)
    } else {
        white()
    }
}

/// `out` is the symmetric composition of `m` on a square white canvas of
/// side `l`.
pub open spec fn is_composition_of(m: Raster, l: int, out: Raster) -> bool {
    &&& out.wf()
    &&& out.w() == l
    &&& out.h() == l
    &&& forall|bx: int, by: int|
        out.in_range(bx, by) ==> #[trigger] out.pix(bx, by) == composed_pix(m, l, bx, by)
}

/// Composes `img` with its own 90-degree-rotated copy, both centered on a
/// square white canvas of side `length` (grown to fit the raster if it is
/// larger), the rotated copy at the transposed centering offset.
pub fn overlay_with_rotated(img: Raster, length: usize) -> (r: Raster)
    requires
        img.wf(),
        canvas_side(img, length as int) * canvas_side(img, length as int) <= usize::MAX,
    ensures
        is_composition_of(img, canvas_side(img, length as int), r),
{
    let rotated = rotate90(&img);
    let mut l: usize = length;
    if img.width > l {
        l = img.width;
    }
    if img.height > l {
        l = img.height;
    }
    let mut canvas = Raster::new(l, l, white_pixel());
    let ghost canvas0 = canvas;
    let cx: usize = (l - img.width) / 2;
    let cy: usize = (l - img.height) / 2;
    proof {
        vstd::arithmetic::div_mod::lemma_fundamental_div_mod(l - img.w(), 2);
        vstd::arithmetic::div_mod::lemma_mod_bound(l - img.w(), 2);
        vstd::arithmetic::div_mod::lemma_fundamental_div_mod(l - img.h(), 2);
        vstd::arithmetic::div_mod::lemma_mod_bound(l - img.h(), 2);
    }
    overlay(&mut canvas, &img, cx, cy);
    let ghost canvas1 = canvas;
    overlay(&mut canvas, &rotated, cy, cx);
    proof {
        assert forall|bx: int, by: int| canvas.in_range(bx, by) implies #[trigger] canvas.pix(
            bx,
            by,
        ) == composed_pix(img, l as int, bx, by) by {
            assert(canvas1.pix(bx, by) == over_pix(canvas0, img, cx as int, cy as int, bx, by));
            assert(canvas.pix(bx, by) == over_pix(canvas1, rotated, cy as int, cx as int, bx, by));
            assert(canvas0.pix(bx, by) == white());
            let rx = bx - cy;
            let ry = by - cx;
            if 0 <= rx < rotated.w() && 0 <= ry < rotated.h() {
                assert(rotated.pix(rx, ry) == img.pix(ry, img.h() - 1 - rx));
            }
        }
    }
    canvas
}

/// `bytes` is the byte serialisation of the symmetric composition of some
/// raster on a square white canvas of side `l`.
pub open spec fn is_composed_buffer(l: int, bytes: Seq<u8>) -> bool {
    exists|m: Raster, out: Raster|
        #[trigger] is_composition_of(m, l, out) && bytes == out.bytes_of()
}

/// Compositing is deterministic: the composition relation pins every
/// output pixel, so any two canvases composed from the same raster at the
/// same side hold identical pixel data.
pub proof fn lemma_compose_deterministic(m: Raster, l: int, out1: Raster, out2: Raster)
    requires
        is_composition_of(m, l, out1),
        is_composition_of(m, l, out2),
    ensures
        out1.w() == out2.w(),
        out1.h() == out2.h(),
        out1.data@ == out2.data@,
{
    lemma_grid_eq(out1, out2);
}

/// Overlay order matters only inside the overlap of the two windows, and
/// there the raster overlaid later wins: with `A` then `B`, the overlap
/// shows the content pixels of `B`.
pub proof fn lemma_overlay_order(
    base: Raster,
    a: Raster,
    b: Raster,
    ax: int,
    ay: int,
    bx: int,
    by: int,
    base_a: Raster,
    base_ab: Raster,
    base_b: Raster,
    base_ba: Raster,
)
    requires
        base.wf(),
        a.wf(),
        b.wf(),
        0 <= ax && 0 <= ay && ax + a.w() <= base.w() && ay + a.h() <= base.h(),
        0 <= bx && 0 <= by && bx + b.w() <= base.w() && by + b.h() <= base.h(),
        base_a.w() == base.w() && base_a.h() == base.h(),
        base_ab.w() == base.w() && base_ab.h() == base.h(),
        base_b.w() == base.w() && base_b.h() == base.h(),
        base_ba.w() == base.w() && base_ba.h() == base.h(),
        forall|px: int, py: int|
            base.in_range(px, py) ==> #[trigger] base_a.pix(px, py) == over_pix(
                base,
                a,
                ax,
                ay,
                px,
                py,
            ),
        forall|px: int, py: int|
            base.in_range(px, py) ==> #[trigger] base_ab.pix(px, py) == over_pix(
                base_a,
                b,
                bx,
                by,
                px,
                py,
            ),
        forall|px: int, py: int|
            base.in_range(px, py) ==> #[trigger] base_b.pix(px, py) == over_pix(
                base,
                b,
                bx,
                by,
                px,
                py,
            ),
        forall|px: int, py: int|
            base.in_range(px, py) ==> #[trigger] base_ba.pix(px, py) == over_pix(
                base_b,
                a,
                ax,
                ay,
                px,
                py,
            ),
    ensures
        forall|px: int, py: int|
            base.in_range(px, py) && !(ax <= px < ax + a.w() && ay <= py < ay + a.h() && bx <= px
                < bx + b.w() && by <= py < by + b.h()) ==> #[trigger] base_ab.pix(px, py)
                == base_ba.pix(px, py),
        forall|px: int, py: int|
            base.in_range(px, py) && ax <= px < ax + a.w() && ay <= py < ay + a.h() && bx <= px < bx
                + b.w() && by <= py < by + b.h() && is_content(b.pix(px - bx, py - by))
                ==> #[trigger] base_ab.pix(px, py) == b.pix(px - bx, py - by),
{
}

} // verus!
