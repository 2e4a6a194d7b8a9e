//! Clockwise quarter-turn rotation of rasters.
//!
//! Rotating swaps width and height: the pixel at `(x, y)` of the rotated
//! raster is the pixel at `(y, h - 1 - x)` of the source, where `h` is the
//! source height. Four quarter turns give back the original raster, and two
//! quarter turns reverse both the row and the column order.

use vstd::prelude::*;
use crate::raster::{Raster, cell, lemma_grid_eq, lemma_index_in_bounds, lemma_row_major_lt};

verus! {

/// `dst` is `src` rotated 90 degrees clockwise.
pub open spec fn is_rotate90(src: Raster, dst: Raster) -> bool {
    &&& dst.w() == src.h()
    &&& dst.h() == src.w()
    &&& forall|x: int, y: int|
        dst.in_range(x, y) ==> #[trigger] dst.pix(x, y) == src.pix(y, src.h() - 1 - x)
}

/// Returns a fresh raster holding `img` rotated 90 degrees clockwise.
pub fn rotate90(img: &Raster) -> (r: Raster)
    requires
        img.wf(),
    ensures
        r.wf(),
        is_rotate90(*img, r),
{
    let rw: usize = img.height;
    let rh: usize = img.width;
    let mut data: Vec<crate::raster::Pixel> = Vec::new();
    let mut y: usize = 0;
    while y < rh
        invariant
            img.wf(),
            rw == img.height,
            rh == img.width,
            y <= rh,
            data@.len() == y * rw,
            forall|px: int, py: int|
                0 <= px < rw && 0 <= py < y ==> #[trigger] cell(data@, rw as int, px, py)
                    == img.pix(py, img.h() - 1 - px),
        decreases rh - y,
    {
        let mut x: usize = 0;
        while x < rw
            invariant
                img.wf(),
                rw == img.height,
                rh == img.width,
                y < rh,
                x <= rw,
                data@.len() == y * rw + x,
                forall|px: int, py: int|
                    0 <= px < rw && 0 <= py < y ==> #[trigger] cell(data@, rw as int, px, py)
                        == img.pix(py, img.h() - 1 - px),
                forall|px: int|
                    0 <= px < x ==> #[trigger] cell(data@, rw as int, px, y as int) == img.pix(
                        y as int,
                        img.h() - 1 - px,
                    ),
            decreases rw - x,
        {
            let ghost prev = data@;
            let p = img.get(y, img.height - 1 - x);
            data.push(p);
            proof {
                assert(data@ == prev.push(p));
                assert forall|px: int, py: int|
                    0 <= px < rw && 0 <= py < y implies #[trigger] cell(data@, rw as int, px, py)
                    == img.pix(py, img.h() - 1 - px) by {
                    lemma_row_major_lt(rw as int, px, py, x as int, y as int);
                    assert(cell(prev, rw as int, px, py) == img.pix(py, img.h() - 1 - px));
                    assert(data@[py * (rw as int) + px] == prev[py * (rw as int) + px]);
                }
                assert forall|px: int|
                    0 <= px < x + 1 implies #[trigger] cell(data@, rw as int, px, y as int)
                    == img.pix(y as int, img.h() - 1 - px) by {
                    assert(y as int * rw as int >= 0) by (nonlinear_arith)
                        requires
                            y >= 0,
                            rw >= 0,
                    ;
                    if px < x {
                        assert(cell(prev, rw as int, px, y as int) == img.pix(
                            y as int,
                            img.h() - 1 - px,
                        ));
                        assert(data@[y as int * (rw as int) + px] == prev[y as int * (rw as int)
                            + px]);
                    } else {
                        assert(y as int * (rw as int) + px == prev.len());
                        assert(data@[y as int * (rw as int) + px] == p);
                    }
                }
            }
            x = x + 1;
        }
        proof {
            assert((y as int + 1) * (rw as int) == y as int * (rw as int) + (rw as int))
                by (nonlinear_arith);
        }
        y = y + 1;
    }
    let r = Raster { width: rw, height: rh, data };
    proof {
        assert(rh * rw == rw * rh) by (nonlinear_arith);
        assert forall|x: int, y: int| r.in_range(x, y) implies #[trigger] r.pix(x, y) == img.pix(
            y,
            img.h() - 1 - x,
        ) by {
            lemma_index_in_bounds(r.w(), r.h(), x, y);
            assert(r.pix(x, y) == cell(r.data@, rw as int, x, y));
        }
    }
    r
}

/// Two quarter turns reverse both the row order and the column order: the
/// pixel at `(x, y)` of the twice-rotated raster is the pixel of the
/// original at `(w - 1 - x, h - 1 - y)`.
pub proof fn lemma_rotate90_twice(a: Raster, b: Raster, c: Raster)
    requires
        a.wf(),
        b.wf(),
        c.wf(),
        is_rotate90(a, b),
        is_rotate90(b, c),
    ensures
        c.w() == a.w(),
        c.h() == a.h(),
        forall|x: int, y: int|
            a.in_range(x, y) ==> #[trigger] c.pix(x, y) == a.pix(a.w() - 1 - x, a.h() - 1 - y),
{
    assert forall|x: int, y: int| a.in_range(x, y) implies #[trigger] c.pix(x, y) == a.pix(
        a.w() - 1 - x,
        a.h() - 1 - y,
    ) by {
        assert(c.pix(x, y) == b.pix(y, b.h() - 1 - x));
        assert(b.pix(y, b.h() - 1 - x) == a.pix(b.h() - 1 - x, a.h() - 1 - y));
    }
}

/// Four quarter turns give back a pixel-identical raster.
pub proof fn lemma_rotate90_four_times(a: Raster, b: Raster, c: Raster, d: Raster, e: Raster)
    requires
        a.wf(),
        b.wf(),
        c.wf(),
        d.wf(),
        e.wf(),
        is_rotate90(a, b),
        is_rotate90(b, c),
        is_rotate90(c, d),
        is_rotate90(d, e),
    ensures
        e.w() == a.w(),
        e.h() == a.h(),
        e.data@ == a.data@,
{
    lemma_rotate90_twice(a, b, c);
    lemma_rotate90_twice(c, d, e);
    assert forall|x: int, y: int| e.in_range(x, y) implies #[trigger] e.pix(x, y) == a.pix(
        x,
        y,
    ) by {
        assert(e.pix(x, y) == c.pix(c.w() - 1 - x, c.h() - 1 - y));
        assert(c.pix(c.w() - 1 - x, c.h() - 1 - y) == a.pix(x, y));
    }
    lemma_grid_eq(e, a);
}

} // verus!
