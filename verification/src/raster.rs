//! The pixel data model: RGBA pixels and rectangular rasters.
//!
//! A `Raster` is a width x height buffer of RGBA pixels, row-major with the
//! origin at the top left. The fully transparent pixel (all four channels
//! zero) is the sentinel for "empty"; every other value counts as content.

use vstd::prelude::*;

verus! {

/// One RGBA pixel, 8 bits per channel.
#[derive(Clone, Copy, PartialEq, Eq, Structural, Debug)]
pub struct Pixel {
    pub r: u8,
    pub g: u8,
    pub b: u8,
    pub a: u8,
}

/// The fully transparent sentinel: all four channels zero.
pub open spec fn transparent() -> Pixel {
    Pixel { r: 0, g: 0, b: 0, a: 0 }
}

/// Opaque white, the background colour of the composed canvas.
pub open spec fn white() -> Pixel {
    Pixel { r: 255, g: 255, b: 255, a: 255 }
}

/// Opaque black, the ink the text is drawn with.
pub open spec fn black() -> Pixel {
    Pixel { r: 0, g: 0, b: 0, a: 255 }
}

/// A pixel is content exactly when it differs from the transparent sentinel;
/// partially transparent anti-aliased edge pixels count as content.
pub open spec fn is_content(p: Pixel) -> bool {
    p != transparent()
}

/// The transparent sentinel as a runtime value.
pub fn transparent_pixel() -> (p: Pixel)
    ensures
        p == transparent(),
{
    Pixel { r: 0, g: 0, b: 0, a: 0 }
}

/// Opaque white as a runtime value.
pub fn white_pixel() -> (p: Pixel)
    ensures
        p == white(),
{
    Pixel { r: 255, g: 255, b: 255, a: 255 }
}

/// Opaque black as a runtime value.
pub fn black_pixel() -> (p: Pixel)
    ensures
        p == black(),
{
    Pixel { r: 0, g: 0, b: 0, a: 255 }
}

/// Decides whether a pixel is content.
pub fn pixel_is_content(p: Pixel) -> (r: bool)
    ensures
        r == is_content(p),
{
    p.r != 0 || p.g != 0 || p.b != 0 || p.a != 0
}

/// Row-major indices stay inside the buffer.
pub proof fn lemma_index_in_bounds(w: int, h: int, x: int, y: int)
    requires
        0 <= x < w,
        0 <= y < h,
    ensures
        0 <= y * w + x < w * h,
{
    assert(0 <= y * w + x < w * h) by (nonlinear_arith)
        requires
            0 <= x < w,
            0 <= y < h,
    ;
}

/// Distinct in-range coordinates give distinct row-major indices.
pub proof fn lemma_index_injective(w: int, x1: int, y1: int, x2: int, y2: int)
    requires
        0 <= x1 < w,
        0 <= x2 < w,
        0 <= y1,
        0 <= y2,
        !(x1 == x2 && y1 == y2),
    ensures
        y1 * w + x1 != y2 * w + x2,
{
    assert(y1 * w + x1 != y2 * w + x2) by (nonlinear_arith)
        requires
            0 <= x1 < w,
            0 <= x2 < w,
            0 <= y1,
            0 <= y2,
            !(x1 == x2 && y1 == y2),
    ;
}

/// Row-major access into a pixel buffer of row width `w`.
pub open spec fn cell(data: Seq<Pixel>, w: int, x: int, y: int) -> Pixel {
    data[y * w + x]
}

/// A pixel scanned before `(x, y)` in row-major order has a smaller index.
pub proof fn lemma_row_major_lt(w: int, px: int, py: int, x: int, y: int)
    requires
        0 <= px < w,
        0 <= py < y,
        0 <= x,
    ensures
        0 <= py * w + px < y * w + x,
{
    assert(0 <= py * w + px < y * w + x) by (nonlinear_arith)
        requires
            0 <= px < w,
            0 <= py < y,
            0 <= x,
    ;
}

/// A rectangular RGBA buffer, row-major, origin top left.
pub struct Raster {
    pub width: usize,
    pub height: usize,
    pub data: Vec<Pixel>,
}

impl Raster {
    /// Well-formed: the buffer holds exactly width * height pixels.
    pub open spec fn wf(self) -> bool {
        self.data@.len() == self.width * self.height
    }

    pub open spec fn w(self) -> int {
        self.width as int
    }

    pub open spec fn h(self) -> int {
        self.height as int
    }

    /// The pixel at column `x`, row `y`.
    pub open spec fn pix(self, x: int, y: int) -> Pixel {
        self.data@[y * self.w() + x]
    }

    pub open spec fn in_range(self, x: int, y: int) -> bool {
        0 <= x < self.w() && 0 <= y < self.h()
    }

    /// A fresh raster with every pixel set to `fill`.
    pub fn new(width: usize, height: usize, fill: Pixel) -> (r: Raster)
        requires
            width * height <= usize::MAX,
        ensures
            r.wf(),
            r.w() == width,
            r.h() == height,
            forall|x: int, y: int| r.in_range(x, y) ==> r.pix(x, y) == fill,
            forall|j: int| 0 <= j < r.data@.len() ==> r.data@[j] == fill,
    {
        let n: usize = width * height;
        let mut data: Vec<Pixel> = Vec::new();
        let mut i: usize = 0;
        while i < n
            invariant
                i <= n,
                data@.len() == i,
                forall|j: int| 0 <= j < i ==> data@[j] == fill,
            decreases n - i,
        {
            data.push(fill);
            i = i + 1;
        }
        let r = Raster { width, height, data };
        proof {
            assert forall|x: int, y: int| r.in_range(x, y) implies r.pix(x, y) == fill by {
                lemma_index_in_bounds(r.w(), r.h(), x, y);
            }
        }
        r
    }

    /// Reads the pixel at `(x, y)`.
    pub fn get(&self, x: usize, y: usize) -> (p: Pixel)
        requires
            self.wf(),
            x < self.w(),
            y < self.h(),
        ensures
            p == self.pix(x as int, y as int),
    {
        let n: usize = self.data.len();
        proof {
            // n bounds the row-major index, so the address fits in usize.
            lemma_index_in_bounds(self.w(), self.h(), x as int, y as int);
            assert(y * self.w() + x < n);
        }
        self.data[y * self.width + x]
    }

    /// Writes the pixel at `(x, y)`, leaving every other pixel unchanged.
    pub fn set(&mut self, x: usize, y: usize, p: Pixel)
        requires
            old(self).wf(),
            x < old(self).w(),
            y < old(self).h(),
        ensures
            final(self).wf(),
            final(self).w() == old(self).w(),
            final(self).h() == old(self).h(),
            final(self).pix(x as int, y as int) == p,
            forall|px: int, py: int|
                old(self).in_range(px, py) && !(px == x && py == y) ==> final(self).pix(px, py)
                    == old(self).pix(px, py),
    {
        let n: usize = self.data.len();
        proof {
            // n bounds the row-major index, so the address fits in usize.
            lemma_index_in_bounds(self.w(), self.h(), x as int, y as int);
            assert(y * self.w() + x < n);
        }
        let idx: usize = y * self.width + x;
        self.data[idx] = p;
        proof {
            assert forall|px: int, py: int|
                old(self).in_range(px, py) && !(px == x && py == y) implies self.pix(px, py)
                == old(self).pix(px, py) by {
                lemma_index_in_bounds(old(self).w(), old(self).h(), px, py);
                lemma_index_injective(old(self).w(), px, py, x as int, y as int);
            }
        }
    }

    /// The raw RGBA byte at offset `i`: 4 bytes per pixel, R, G, B, A order.
    pub open spec fn byte_at(self, i: int) -> u8 {
        let p = self.data@[i / 4];
        if i % 4 == 0 {
            p.r
        } else if i % 4 == 1 {
            p.g
        } else if i % 4 == 2 {
            p.b
        } else {
            p.a
        }
    }

    /// The raw RGBA byte sequence of the buffer, row-major, 4 bytes per pixel.
    pub open spec fn bytes_of(self) -> Seq<u8> {
        Seq::new((4 * self.data@.len()) as nat, |i: int| self.byte_at(i))
    }

    /// Serialises the buffer to raw RGBA bytes.
    pub fn to_bytes(&self) -> (r: Vec<u8>)
        ensures
            r@ == self.bytes_of(),
    {
        let n: usize = self.data.len();
        let mut out: Vec<u8> = Vec::new();
        let mut i: usize = 0;
        while i < n
            invariant
                i <= n,
                n == self.data@.len(),
                out@.len() == 4 * i,
                forall|j: int| 0 <= j < 4 * i ==> out@[j] == self.byte_at(j),
            decreases n - i,
        {
            let p = self.data[i];
            out.push(p.r);
            out.push(p.g);
            out.push(p.b);
            out.push(p.a);
            i = i + 1;
        }
        proof {
            assert(out@ =~= self.bytes_of());
        }
        out
    }

    /// Rebuilds a raster from raw RGBA bytes.
    pub fn from_bytes(width: usize, height: usize, bytes: &Vec<u8>) -> (r: Raster)
        requires
            bytes@.len() == 4 * (width * height),
        ensures
            r.wf(),
            r.w() == width,
            r.h() == height,
            r.bytes_of() == bytes@,
    {
        let blen: usize = bytes.len();
        proof {
            // blen bounds 4 * width * height, so the pixel count fits in usize.
            assert(width * height >= 0) by (nonlinear_arith);
            assert(4 * (width * height) == blen);
        }
        let n: usize = width * height;
        let mut data: Vec<Pixel> = Vec::new();
        let mut i: usize = 0;
        while i < n
            invariant
                i <= n,
                data@.len() == i,
                bytes@.len() == 4 * n,
                4 * n <= usize::MAX,
                forall|j: int|
                    0 <= j < i ==> data@[j] == (Pixel {
                        r: bytes@[4 * j],
                        g: bytes@[4 * j + 1],
                        b: bytes@[4 * j + 2],
                        a: bytes@[4 * j + 3],
                    }),
            decreases n - i,
        {
            let p = Pixel {
                r: bytes[4 * i],
                g: bytes[4 * i + 1],
                b: bytes[4 * i + 2],
                a: bytes[4 * i + 3],
            };
            data.push(p);
            i = i + 1;
        }
        let r = Raster { width, height, data };
        proof {
            assert(r.bytes_of() =~= bytes@);
        }
        r
    }
}

/// The byte at offset `4j + c` of a pixel's serialisation is channel `c`
/// of pixel `j`.
proof fn lemma_byte_offsets(j: int)
    requires
        0 <= j,
    ensures
        (4 * j) / 4 == j && (4 * j) % 4 == 0,
        (4 * j + 1) / 4 == j && (4 * j + 1) % 4 == 1,
        (4 * j + 2) / 4 == j && (4 * j + 2) % 4 == 2,
        (4 * j + 3) / 4 == j && (4 * j + 3) % 4 == 3,
{
    vstd::arithmetic::div_mod::lemma_fundamental_div_mod_converse(4 * j, 4, j, 0);
    vstd::arithmetic::div_mod::lemma_fundamental_div_mod_converse(4 * j + 1, 4, j, 1);
    vstd::arithmetic::div_mod::lemma_fundamental_div_mod_converse(4 * j + 2, 4, j, 2);
    vstd::arithmetic::div_mod::lemma_fundamental_div_mod_converse(4 * j + 3, 4, j, 3);
}

/// Rasters of the same shape with equal byte serialisations hold equal
/// pixel buffers.
pub proof fn lemma_bytes_eq_pixels_eq(a: Raster, b: Raster)
    requires
        a.wf(),
        b.wf(),
        a.w() == b.w(),
        a.h() == b.h(),
        a.bytes_of() == b.bytes_of(),
    ensures
        a.data@ == b.data@,
{
    assert forall|j: int| 0 <= j < a.data@.len() implies a.data@[j] == b.data@[j] by {
        lemma_byte_offsets(j);
        assert(a.bytes_of().len() == 4 * a.data@.len());
        assert(a.byte_at(4 * j) == a.bytes_of()[4 * j]);
        assert(a.byte_at(4 * j + 1) == a.bytes_of()[4 * j + 1]);
        assert(a.byte_at(4 * j + 2) == a.bytes_of()[4 * j + 2]);
        assert(a.byte_at(4 * j + 3) == a.bytes_of()[4 * j + 3]);
        assert(b.byte_at(4 * j) == b.bytes_of()[4 * j]);
        assert(b.byte_at(4 * j + 1) == b.bytes_of()[4 * j + 1]);
        assert(b.byte_at(4 * j + 2) == b.bytes_of()[4 * j + 2]);
        assert(b.byte_at(4 * j + 3) == b.bytes_of()[4 * j + 3]);
        assert(a.data@[j].r == b.data@[j].r);
        assert(a.data@[j].g == b.data@[j].g);
        assert(a.data@[j].b == b.data@[j].b);
        assert(a.data@[j].a == b.data@[j].a);
    }
    assert(a.data@ =~= b.data@);
}

/// A raster whose serialisation holds zero at every colour byte (offsets
/// not congruent to 3 modulo 4) has zero colour channels in every pixel:
/// only alpha varies.
pub proof fn lemma_zero_color_bytes(r: Raster)
    requires
        forall|i: int| 0 <= i < r.bytes_of().len() && i % 4 != 3 ==> r.bytes_of()[i] == 0,
    ensures
        forall|j: int|
            0 <= j < r.data@.len() ==> (#[trigger] r.data@[j]).r == 0 && r.data@[j].g == 0
                && r.data@[j].b == 0,
{
    assert forall|j: int|
        0 <= j < r.data@.len() implies (#[trigger] r.data@[j]).r == 0 && r.data@[j].g == 0
        && r.data@[j].b == 0 by {
        lemma_byte_offsets(j);
        assert(r.bytes_of().len() == 4 * r.data@.len());
        assert(r.byte_at(4 * j) == r.bytes_of()[4 * j]);
        assert(r.byte_at(4 * j + 1) == r.bytes_of()[4 * j + 1]);
        assert(r.byte_at(4 * j + 2) == r.bytes_of()[4 * j + 2]);
    }
}

/// The serialisation of a uniformly filled raster repeats the four channel
/// bytes of the fill pixel.
pub proof fn lemma_fill_bytes(r: Raster, fill: Pixel)
    requires
        forall|j: int| 0 <= j < r.data@.len() ==> r.data@[j] == fill,
    ensures
        forall|i: int|
            0 <= i < r.bytes_of().len() ==> r.bytes_of()[i] == (if i % 4 == 0 {
                fill.r
            } else if i % 4 == 1 {
                fill.g
            } else if i % 4 == 2 {
                fill.b
            } else {
                fill.a
            }),
{
    assert forall|i: int| 0 <= i < r.bytes_of().len() implies r.bytes_of()[i] == (if i % 4 == 0 {
        fill.r
    } else if i % 4 == 1 {
        fill.g
    } else if i % 4 == 2 {
        fill.b
    } else {
        fill.a
    }) by {
        vstd::arithmetic::div_mod::lemma_fundamental_div_mod(i, 4);
        vstd::arithmetic::div_mod::lemma_mod_bound(i, 4);
        assert(0 <= i / 4 < r.data@.len());
        assert(r.data@[i / 4] == fill);
    }
}

/// Two rasters of the same shape that agree pixel by pixel are equal buffers.
pub proof fn lemma_grid_eq(a: Raster, b: Raster)
    requires
        a.wf(),
        b.wf(),
        a.w() == b.w(),
        a.h() == b.h(),
        forall|x: int, y: int| a.in_range(x, y) ==> a.pix(x, y) == b.pix(x, y),
    ensures
        a.data@ == b.data@,
{
    assert forall|i: int| 0 <= i < a.data@.len() implies a.data@[i] == b.data@[i] by {
        let w = a.w();
        let h = a.h();
        let x = i % w;
        let y = i / w;
        assert(w > 0) by (nonlinear_arith)
            requires
                w >= 0,
                h >= 0,
                w * h > i >= 0,
        ;
        vstd::arithmetic::div_mod::lemma_fundamental_div_mod(i, w);
        vstd::arithmetic::div_mod::lemma_mod_bound(i, w);
        assert(y < h) by (nonlinear_arith)
            requires
                w > 0,
                0 <= i < w * h,
                i == w * y + x,
                0 <= x,
        ;
        assert(y >= 0) by (nonlinear_arith)
            requires
                w > 0,
                0 <= i,
                i == w * y + x,
                x < w,
        ;
        assert(a.in_range(x, y));
        assert(a.pix(x, y) == b.pix(x, y));
        assert(y * w + x == i);
    }
    assert(a.data@ =~= b.data@);
}

} // verus!
