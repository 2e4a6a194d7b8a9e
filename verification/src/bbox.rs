//! Tight bounding boxes of raster content, and cropping to them.
//!
//! The box returned for a raster with content is minimal: every content
//! pixel lies inside it and each of its four boundary rows and columns
//! holds at least one content pixel. A raster without content has no box;
//! the degenerate case is reported explicitly instead of being computed
//! with wrapped dimensions.

use vstd::prelude::*;
use crate::raster::{
    Pixel, Raster, cell, is_content, lemma_index_in_bounds, lemma_row_major_lt, pixel_is_content,
};

verus! {

/// An axis-aligned pixel rectangle, all bounds inclusive.
#[derive(Clone, Copy, PartialEq, Eq, Structural, Debug)]
pub struct BoundingBox {
    pub xmin: usize,
    pub xmax: usize,
    pub ymin: usize,
    pub ymax: usize,
}

impl BoundingBox {
    /// A valid box of `img`: non-empty and inside the raster.
    pub open spec fn valid_for(self, img: Raster) -> bool {
        self.xmin <= self.xmax < img.w() && self.ymin <= self.ymax < img.h()
    }

    /// Every content pixel of `img` lies inside the box.
    pub open spec fn contains_all_content(self, img: Raster) -> bool {
        forall|x: int, y: int|
            img.in_range(x, y) && is_content(#[trigger] img.pix(x, y)) ==> self.xmin <= x
                <= self.xmax && self.ymin <= y <= self.ymax
    }

    /// Each boundary row and column of the box holds a content pixel.
    pub open spec fn is_tight(self, img: Raster) -> bool {
        &&& exists|y: int|
            self.ymin <= y <= self.ymax && is_content(#[trigger] img.pix(self.xmin as int, y))
        &&& exists|y: int|
            self.ymin <= y <= self.ymax && is_content(#[trigger] img.pix(self.xmax as int, y))
        &&& exists|x: int|
            self.xmin <= x <= self.xmax && is_content(#[trigger] img.pix(x, self.ymin as int))
        &&& exists|x: int|
            self.xmin <= x <= self.xmax && is_content(#[trigger] img.pix(x, self.ymax as int))
    }
}

/// The pixels of the scan that precede column `x` of row `y`, row-major.
spec fn scanned_lt(img: Raster, px: int, py: int, x: int, y: int) -> bool {
    img.in_range(px, py) && (py < y || (py == y && px < x))
}

/// Scans every pixel and returns the minimal box around the content, or
/// `None` when the raster holds no content pixel at all.
pub fn find_bbox(img: &Raster) -> (r: Option<BoundingBox>)
    requires
        img.wf(),
    ensures
        match r {
            Option::Some(b) => b.valid_for(*img) && b.contains_all_content(*img) && b.is_tight(
                *img,
            ),
            Option::None => forall|x: int, y: int|
                img.in_range(x, y) ==> !is_content(#[trigger] img.pix(x, y)),
        },
{
    let mut found: bool = false;
    let mut xmin: usize = 0;
    let mut xmax: usize = 0;
    let mut ymin: usize = 0;
    let mut ymax: usize = 0;
    let ghost mut wxm: (int, int) = (0, 0);
    let ghost mut wxx: (int, int) = (0, 0);
    let ghost mut wym: (int, int) = (0, 0);
    let ghost mut wyx: (int, int) = (0, 0);

    let mut y: usize = 0;
    while y < img.height
        invariant
            img.wf(),
            y <= img.height,
            !found ==> forall|px: int, py: int|
                scanned_lt(*img, px, py, 0, y as int) ==> !is_content(#[trigger] img.pix(px, py)),
            found ==> {
                &&& xmin <= xmax < img.w()
                &&& ymin <= ymax < y
                &&& forall|px: int, py: int|
                    scanned_lt(*img, px, py, 0, y as int) && is_content(#[trigger] img.pix(px, py))
                        ==> xmin <= px <= xmax && ymin <= py <= ymax
                &&& img.in_range(wxm.0, wxm.1) && wxm.0 == xmin && is_content(
                    img.pix(wxm.0, wxm.1),
                ) && ymin <= wxm.1 <= ymax
                &&& img.in_range(wxx.0, wxx.1) && wxx.0 == xmax && is_content(
                    img.pix(wxx.0, wxx.1),
                ) && ymin <= wxx.1 <= ymax
                &&& img.in_range(wym.0, wym.1) && wym.1 == ymin && is_content(
                    img.pix(wym.0, wym.1),
                ) && xmin <= wym.0 <= xmax
                &&& img.in_range(wyx.0, wyx.1) && wyx.1 == ymax && is_content(
                    img.pix(wyx.0, wyx.1),
                ) && xmin <= wyx.0 <= xmax
            },
        decreases img.height - y,
    {
        let mut x: usize = 0;
        while x < img.width
            invariant
                img.wf(),
                x <= img.width,
                y < img.height,
                !found ==> forall|px: int, py: int|
                    scanned_lt(*img, px, py, x as int, y as int) ==> !is_content(
                        #[trigger] img.pix(px, py),
                    ),
                found ==> {
                    &&& xmin <= xmax < img.w()
                    &&& ymin <= ymax <= y
                    &&& forall|px: int, py: int|
                        scanned_lt(*img, px, py, x as int, y as int) && is_content(
                            #[trigger] img.pix(px, py),
                        ) ==> xmin <= px <= xmax && ymin <= py <= ymax
                    &&& img.in_range(wxm.0, wxm.1) && wxm.0 == xmin && is_content(
                        img.pix(wxm.0, wxm.1),
                    ) && ymin <= wxm.1 <= ymax
                    &&& img.in_range(wxx.0, wxx.1) && wxx.0 == xmax && is_content(
                        img.pix(wxx.0, wxx.1),
                    ) && ymin <= wxx.1 <= ymax
                    &&& img.in_range(wym.0, wym.1) && wym.1 == ymin && is_content(
                        img.pix(wym.0, wym.1),
                    ) && xmin <= wym.0 <= xmax
                    &&& img.in_range(wyx.0, wyx.1) && wyx.1 == ymax && is_content(
                        img.pix(wyx.0, wyx.1),
                    ) && xmin <= wyx.0 <= xmax
                },
            decreases img.width - x,
        {
            let p = img.get(x, y);
            if pixel_is_content(p) {
                if !found {
                    found = true;
                    xmin = x;
                    xmax = x;
                    ymin = y;
                    ymax = y;
                    proof {
                        wxm = (x as int, y as int);
                        wxx = (x as int, y as int);
                        wym = (x as int, y as int);
                        wyx = (x as int, y as int);
                    }
                } else {
                    if x < xmin {
                        xmin = x;
                        proof {
                            wxm = (x as int, y as int);
                        }
                    }
                    if x > xmax {
                        xmax = x;
                        proof {
                            wxx = (x as int, y as int);
                        }
                    }
                    if y > ymax {
                        ymax = y;
                        proof {
                            wyx = (x as int, y as int);
                        }
                    }
                }
            }
            x = x + 1;
        }
        y = y + 1;
    }
    if found {
        let b = BoundingBox { xmin, xmax, ymin, ymax };
        proof {
            assert(is_content(img.pix(b.xmin as int, wxm.1)));
            assert(is_content(img.pix(b.xmax as int, wxx.1)));
            assert(is_content(img.pix(wym.0, b.ymin as int)));
            assert(is_content(img.pix(wyx.0, b.ymax as int)));
        }
        Some(b)
    } else {
        None
    }
}

/// Copies the sub-raster spanning the box, bounds inclusive.
pub fn crop(img: &Raster, b: &BoundingBox) -> (r: Raster)
    requires
        img.wf(),
        b.valid_for(*img),
    ensures
        r.wf(),
        r.w() == b.xmax - b.xmin + 1,
        r.h() == b.ymax - b.ymin + 1,
        forall|x: int, y: int|
            r.in_range(x, y) ==> #[trigger] r.pix(x, y) == img.pix(b.xmin + x, b.ymin + y),
{
    let rw: usize = b.xmax - b.xmin + 1;
    let rh: usize = b.ymax - b.ymin + 1;
    let mut data: Vec<Pixel> = Vec::new();
    let mut y: usize = 0;
    while y < rh
        invariant
            img.wf(),
            b.valid_for(*img),
            rw == b.xmax - b.xmin + 1,
            rh == b.ymax - b.ymin + 1,
            y <= rh,
            data@.len() == y * rw,
            forall|px: int, py: int|
                0 <= px < rw && 0 <= py < y ==> #[trigger] cell(data@, rw as int, px, py)
                    == img.pix(b.xmin + px, b.ymin + py),
        decreases rh - y,
    {
        let mut x: usize = 0;
        while x < rw
            invariant
                img.wf(),
                b.valid_for(*img),
                rw == b.xmax - b.xmin + 1,
                rh == b.ymax - b.ymin + 1,
                y < rh,
                x <= rw,
                data@.len() == y * rw + x,
                forall|px: int, py: int|
                    0 <= px < rw && 0 <= py < y ==> #[trigger] cell(data@, rw as int, px, py)
                        == img.pix(b.xmin + px, b.ymin + py),
                forall|px: int|
                    0 <= px < x ==> #[trigger] cell(data@, rw as int, px, y as int) == img.pix(
                        b.xmin + px,
                        b.ymin + y as int,
                    ),
            decreases rw - x,
        {
            let ghost prev = data@;
            let p = img.get(b.xmin + x, b.ymin + y);
            data.push(p);
            proof {
                assert(data@ == prev.push(p));
                assert forall|px: int, py: int|
                    0 <= px < rw && 0 <= py < y implies #[trigger] cell(data@, rw as int, px, py)
                    == img.pix(b.xmin + px, b.ymin + py) by {
                    lemma_row_major_lt(rw as int, px, py, x as int, y as int);
                    assert(cell(prev, rw as int, px, py) == img.pix(b.xmin + px, b.ymin + py));
                    assert(data@[py * (rw as int) + px] == prev[py * (rw as int) + px]);
                }
                assert forall|px: int|
                    0 <= px < x + 1 implies #[trigger] cell(data@, rw as int, px, y as int)
                    == img.pix(b.xmin + px, b.ymin + y as int) by {
                    assert(y as int * rw as int >= 0) by (nonlinear_arith)
                        requires
                            y >= 0,
                            rw >= 0,
                    ;
                    if px < x {
                        assert(cell(prev, rw as int, px, y as int) == img.pix(
                            b.xmin + px,
                            b.ymin + y as int,
                        ));
                        assert(data@[y as int * (rw as int) + px] == prev[y as int * (rw as int)
                            + px]);
                    } else {
                        assert(y as int * (rw as int) + px == prev.len());
                        assert(data@[y as int * (rw as int) + px] == p);
                    }
                }
            }
            x = x + 1;
        }
        proof {
            assert((y as int + 1) * (rw as int) == y as int * (rw as int) + (rw as int))
                by (nonlinear_arith);
        }
        y = y + 1;
    }
    let r = Raster { width: rw, height: rh, data };
    proof {
        assert(rh * rw == rw * rh) by (nonlinear_arith);
        assert forall|x: int, y: int| r.in_range(x, y) implies #[trigger] r.pix(x, y) == img.pix(
            b.xmin + x,
            b.ymin + y,
        ) by {
            lemma_index_in_bounds(r.w(), r.h(), x, y);
            assert(r.pix(x, y) == cell(r.data@, rw as int, x, y));
        }
    }
    r
}

/// The crop relation: `c` is the window of `img` at offset `(ox, oy)`.
pub open spec fn crop_of(img: Raster, c: Raster, ox: int, oy: int) -> bool {
    &&& 0 <= ox && 0 <= oy
    &&& ox + c.w() <= img.w() && oy + c.h() <= img.h()
    &&& forall|x: int, y: int|
        c.in_range(x, y) ==> #[trigger] c.pix(x, y) == img.pix(ox + x, oy + y)
}

/// Column `x` of `c` holds at least one content pixel.
pub open spec fn col_has_content(c: Raster, x: int) -> bool {
    exists|y: int| 0 <= y < c.h() && is_content(#[trigger] c.pix(x, y))
}

/// Row `y` of `c` holds at least one content pixel.
pub open spec fn row_has_content(c: Raster, y: int) -> bool {
    exists|x: int| 0 <= x < c.w() && is_content(#[trigger] c.pix(x, y))
}

/// The window is tight: all content of `img` lies inside it, and each of
/// its boundary rows and columns holds a content pixel.
pub open spec fn tight_crop(img: Raster, c: Raster, ox: int, oy: int) -> bool {
    &&& forall|x: int, y: int|
        img.in_range(x, y) && is_content(#[trigger] img.pix(x, y)) ==> ox <= x < ox + c.w() && oy
            <= y < oy + c.h()
    &&& col_has_content(c, 0)
    &&& col_has_content(c, c.w() - 1)
    &&& row_has_content(c, 0)
    &&& row_has_content(c, c.h() - 1)
}

/// Crops a raster to the tight box around its content; a raster without
/// content has no crop and yields `None`.
pub fn crop_to_content(img: &Raster) -> (r: Option<Raster>)
    requires
        img.wf(),
    ensures
        match r {
            Option::Some(c) => {
                &&& c.wf()
                &&& 1 <= c.w() <= img.w()
                &&& 1 <= c.h() <= img.h()
                &&& exists|ox: int, oy: int|
                    #[trigger] crop_of(*img, c, ox, oy) && tight_crop(*img, c, ox, oy)
            },
            Option::None => forall|x: int, y: int|
                img.in_range(x, y) ==> !is_content(#[trigger] img.pix(x, y)),
        },
{
    match find_bbox(img) {
        None => None,
        Some(b) => {
            let c = crop(img, &b);
            proof {
                lemma_cropped_is_tight(*img, b, c);
                assert(crop_of(*img, c, b.xmin as int, b.ymin as int) && tight_crop(
                    *img,
                    c,
                    b.xmin as int,
                    b.ymin as int,
                ));
            }
            Some(c)
        },
    }
}

/// Cropping to a valid, all-containing, tight box gives a tight crop.
proof fn lemma_cropped_is_tight(img: Raster, b: BoundingBox, c: Raster)
    requires
        img.wf(),
        b.valid_for(img),
        b.contains_all_content(img),
        b.is_tight(img),
        c.w() == b.xmax - b.xmin + 1,
        c.h() == b.ymax - b.ymin + 1,
        forall|x: int, y: int|
            c.in_range(x, y) ==> #[trigger] c.pix(x, y) == img.pix(b.xmin + x, b.ymin + y),
    ensures
        crop_of(img, c, b.xmin as int, b.ymin as int),
        tight_crop(img, c, b.xmin as int, b.ymin as int),
{
    let ox = b.xmin as int;
    let oy = b.ymin as int;
    let wy1 = choose|y: int|
        b.ymin <= y <= b.ymax && is_content(#[trigger] img.pix(b.xmin as int, y));
    assert(c.pix(0, wy1 - oy) == img.pix(b.xmin as int, wy1));
    assert(0 <= wy1 - oy < c.h() && is_content(c.pix(0, wy1 - oy)));
    let wy2 = choose|y: int|
        b.ymin <= y <= b.ymax && is_content(#[trigger] img.pix(b.xmax as int, y));
    assert(c.pix(c.w() - 1, wy2 - oy) == img.pix(b.xmax as int, wy2));
    assert(0 <= wy2 - oy < c.h() && is_content(c.pix(c.w() - 1, wy2 - oy)));
    let wx1 = choose|x: int|
        b.xmin <= x <= b.xmax && is_content(#[trigger] img.pix(x, b.ymin as int));
    assert(c.pix(wx1 - ox, 0) == img.pix(wx1, b.ymin as int));
    assert(0 <= wx1 - ox < c.w() && is_content(c.pix(wx1 - ox, 0)));
    let wx2 = choose|x: int|
        b.xmin <= x <= b.xmax && is_content(#[trigger] img.pix(x, b.ymax as int));
    assert(c.pix(wx2 - ox, c.h() - 1) == img.pix(wx2, b.ymax as int));
    assert(0 <= wx2 - ox < c.w() && is_content(c.pix(wx2 - ox, c.h() - 1)));
}

} // verus!
