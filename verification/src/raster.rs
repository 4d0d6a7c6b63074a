//! The decoded pixel buffer and its rotation.
//!
//! An image is held as a flat row-major byte buffer together with its
//! dimensions and pixel layout. Rotation by a quarter, half or three-quarter
//! turn is a lossless permutation of whole pixels: no resampling, no
//! interpolation. The contracts here pin down, pixel by pixel, where every
//! source pixel lands.

use vstd::prelude::*;
use vstd::arithmetic::div_mod::{
    lemma_div_pos_is_pos, lemma_fundamental_div_mod, lemma_fundamental_div_mod_converse,
    lemma_mod_division_less_than_divisor, lemma_multiply_divide_lt,
};
use crate::lookup::Rotation;

verus! {

/// How one pixel is laid out in the raw buffer. The names follow the common
/// channel orders; the `8`/`16`/`32F` part is the width of one channel in
/// bits.
#[derive(Clone, Copy, Debug, PartialEq, Eq, Structural)]
pub enum PixelLayout {
    L8,
    La8,
    Rgb8,
    Rgba8,
    L16,
    La16,
    Rgb16,
    Rgba16,
    Rgb32F,
    Rgba32F,
}

impl PixelLayout {
    /// Bytes that one pixel of this layout occupies.
    pub open spec fn spec_bpp(self) -> nat {
        match self {
            PixelLayout::L8 => 1,
            PixelLayout::La8 => 2,
            PixelLayout::Rgb8 => 3,
            PixelLayout::Rgba8 => 4,
            PixelLayout::L16 => 2,
            PixelLayout::La16 => 4,
            PixelLayout::Rgb16 => 6,
            PixelLayout::Rgba16 => 8,
            PixelLayout::Rgb32F => 12,
            PixelLayout::Rgba32F => 16,
        }
    }

    /// Returns the bytes per pixel of this layout.
    pub fn bpp(self) -> (r: u32)
        ensures
            r == self.spec_bpp(),
    {
        match self {
            PixelLayout::L8 => 1,
            PixelLayout::La8 => 2,
            PixelLayout::Rgb8 => 3,
            PixelLayout::Rgba8 => 4,
            PixelLayout::L16 => 2,
            PixelLayout::La16 => 4,
            PixelLayout::Rgb16 => 6,
            PixelLayout::Rgba16 => 8,
            PixelLayout::Rgb32F => 12,
            PixelLayout::Rgba32F => 16,
        }
    }
}

/// Every layout occupies at least one byte per pixel.
pub proof fn lemma_bpp_pos(l: PixelLayout)
    ensures
        l.spec_bpp() >= 1,
{
    match l {
        PixelLayout::L8 => {},
        PixelLayout::La8 => {},
        PixelLayout::Rgb8 => {},
        PixelLayout::Rgba8 => {},
        PixelLayout::L16 => {},
        PixelLayout::La16 => {},
        PixelLayout::Rgb16 => {},
        PixelLayout::Rgba16 => {},
        PixelLayout::Rgb32F => {},
        PixelLayout::Rgba32F => {},
    }
}

/// The pixel at column `x` of row `y` in a flat row-major buffer of width
/// `w` whose pixels occupy `bpp` bytes each.
pub open spec fn pixel_in(data: Seq<u8>, w: int, bpp: int, x: int, y: int) -> Seq<u8> {
    data.subrange((y * w + x) * bpp, (y * w + x) * bpp + bpp)
}

/// A decoded image: a flat row-major pixel buffer with its dimensions and
/// pixel layout.
pub struct ImageAsset {
    pub width: u32,
    pub height: u32,
    pub layout: PixelLayout,
    pub data: Vec<u8>,
}

impl ImageAsset {
    /// The buffer holds exactly one pixel for every coordinate.
    pub open spec fn wf(self) -> bool {
        self.data@.len() == self.width * self.height * self.layout.spec_bpp()
    }

    /// The pixel at column `x` of row `y`.
    pub open spec fn pix(self, x: int, y: int) -> Seq<u8> {
        pixel_in(self.data@, self.width as int, self.layout.spec_bpp() as int, x, y)
    }
}

/// Width of the rotation of a `w` by `h` image: a half turn keeps the width,
/// a quarter turn either way swaps it with the height.
pub open spec fn rot_width(w: int, h: int, rot: Rotation) -> int {
    if rot is Half {
        w
    } else {
        h
    }
}

/// Height of the rotation of a `w` by `h` image.
pub open spec fn rot_height(w: int, h: int, rot: Rotation) -> int {
    if rot is Half {
        h
    } else {
        w
    }
}

/// Source column of the pixel that lands at `(x, y)` when a `w` by `h` image
/// is rotated clockwise by `rot`.
pub open spec fn src_x(rot: Rotation, w: int, h: int, x: int, y: int) -> int {
    match rot {
        Rotation::Quarter => y,
        Rotation::Half => w - 1 - x,
        Rotation::ThreeQuarter => w - 1 - y,
    }
}

/// Source row of the pixel that lands at `(x, y)` when a `w` by `h` image is
/// rotated clockwise by `rot`.
pub open spec fn src_y(rot: Rotation, w: int, h: int, x: int, y: int) -> int {
    match rot {
        Rotation::Quarter => h - 1 - x,
        Rotation::Half => h - 1 - y,
        Rotation::ThreeQuarter => x,
    }
}

/// `b` is `a` rotated clockwise by `rot`: the dimensions swap for the
/// quarter turns, the layout is kept, and every output pixel is the source
/// pixel the turn carries onto it.
pub open spec fn is_rotated(a: ImageAsset, b: ImageAsset, rot: Rotation) -> bool {
    &&& b.width == rot_width(a.width as int, a.height as int, rot)
    &&& b.height == rot_height(a.width as int, a.height as int, rot)
    &&& b.layout == a.layout
    &&& forall|x: int, y: int|
        0 <= x < b.width && 0 <= y < b.height ==> #[trigger] b.pix(x, y) == a.pix(
            src_x(rot, a.width as int, a.height as int, x, y),
            src_y(rot, a.width as int, a.height as int, x, y),
        )
}

/// The raw buffer of the rotation of a `w` by `h` image with `bpp` bytes per
/// pixel and buffer `data`, as a function of the source buffer.
pub open spec fn rotated_data(w: int, h: int, bpp: int, data: Seq<u8>, rot: Rotation) -> Seq<u8> {
    Seq::new(
        (rot_width(w, h, rot) * rot_height(w, h, rot) * bpp) as nat,
        |i: int|
            {
                let p = i / bpp;
                let k = i % bpp;
                let x = p % rot_width(w, h, rot);
                let y = p / rot_width(w, h, rot);
                data[(src_y(rot, w, h, x, y) * w + src_x(rot, w, h, x, y)) * bpp + k]
            },
    )
}

/// Splits a byte offset `i` of a `w` by `h` buffer with `bpp` bytes per
/// pixel into pixel coordinates and a channel offset.
proof fn lemma_byte_decompose(w: int, h: int, bpp: int, i: int) -> (r: (int, int, int))
    requires
        1 <= bpp,
        0 <= w,
        0 <= h,
        0 <= i < w * h * bpp,
    ensures
        ({
            let (x, y, k) = r;
            &&& 0 <= x < w
            &&& 0 <= y < h
            &&& 0 <= k < bpp
            &&& i == (y * w + x) * bpp + k
            &&& i / bpp == y * w + x
            &&& i % bpp == k
            &&& (i / bpp) % w == x
            &&& (i / bpp) / w == y
        }),
{
    assert(0 < w && 0 < h) by (nonlinear_arith)
        requires
            0 <= w,
            0 <= h,
            1 <= bpp,
            0 <= i,
            i < w * h * bpp,
    ;
    let p: int = i / bpp;
    let k: int = i % bpp;
    lemma_fundamental_div_mod(i, bpp);
    lemma_mod_division_less_than_divisor(i, bpp);
    lemma_div_pos_is_pos(i, bpp);
    assert(i < bpp * (w * h)) by (nonlinear_arith)
        requires
            i < w * h * bpp,
    ;
    lemma_multiply_divide_lt(i, bpp, w * h);
    let x: int = p % w;
    let y: int = p / w;
    lemma_fundamental_div_mod(p, w);
    lemma_mod_division_less_than_divisor(p, w);
    lemma_div_pos_is_pos(p, w);
    assert(p < w * h);
    lemma_multiply_divide_lt(p, w, h);
    assert(i == (y * w + x) * bpp + k) by (nonlinear_arith)
        requires
            i == bpp * p + k,
            p == w * y + x,
    ;
    (x, y, k)
}

impl ImageAsset {
    /// Appends the pixel at `(x, y)` of this image to `out`.
    fn push_pix(&self, out: Vec<u8>, x: u32, y: u32) -> (r: Vec<u8>)
        requires
            self.wf(),
            x < self.width,
            y < self.height,
        ensures
            r@ == out@ + self.pix(x as int, y as int),
            r@.len() == out@.len() + self.layout.spec_bpp(),
    {
        let mut out = out;
        let ghost orig: Seq<u8> = out@;
        let bpp: usize = self.layout.bpp() as usize;
        let w: usize = self.width as usize;
        let xs: usize = x as usize;
        let ys: usize = y as usize;
        let n: usize = self.data.len();
        proof {
            lemma_bpp_pos(self.layout);
            assert((y as int) * (self.width as int) + (x as int) < (self.width as int) * (
            self.height as int)) by (nonlinear_arith)
                requires
                    0 <= (x as int) < (self.width as int),
                    0 <= (y as int) < (self.height as int),
            ;
            assert(0 <= (y as int) * (self.width as int)) by (nonlinear_arith)
                requires
                    0 <= (y as int),
                    0 <= (self.width as int),
            ;
            assert(((y as int) * (self.width as int) + (x as int)) * (self.layout.spec_bpp() as int)
                + (self.layout.spec_bpp() as int) <= (self.width as int) * (self.height as int) * (
            self.layout.spec_bpp() as int)) by (nonlinear_arith)
                requires
                    (y as int) * (self.width as int) + (x as int) < (self.width as int) * (
                    self.height as int),
                    1 <= (self.layout.spec_bpp() as int),
            ;
            assert((y as int) * (self.width as int) + (x as int) <= ((y as int) * (
            self.width as int) + (x as int)) * (self.layout.spec_bpp() as int))
                by (nonlinear_arith)
                requires
                    0 <= (y as int) * (self.width as int) + (x as int),
                    1 <= (self.layout.spec_bpp() as int),
            ;
        }
        let ghost t: int = ((y as int) * (self.width as int) + (x as int)) * (
        self.layout.spec_bpp() as int);
        let base: usize = (ys * w + xs) * bpp;
        let mut k: usize = 0;
        while k < bpp
            invariant
                self.wf(),
                bpp == self.layout.spec_bpp(),
                n == self.data@.len(),
                base as int == t,
                0 <= t,
                t + bpp <= self.data@.len(),
                k <= bpp,
                out@ == orig + self.data@.subrange(t, t + k as int),
            decreases bpp - k,
        {
            let b = self.data[base + k];
            out.push(b);
            proof {
                assert(self.data@.subrange(t, t + (k + 1) as int) =~= self.data@.subrange(
                    t,
                    t + k as int,
                ).push(self.data@[t + k as int]));
            }
            k = k + 1;
        }
        proof {
            assert(out@ == orig + self.pix(x as int, y as int));
        }
        out
    }

    /// Rotates this image clockwise by `rot`. A quarter or three-quarter
    /// turn swaps width and height; a half turn keeps them. Every pixel of
    /// the source appears exactly once in the result, at the turned
    /// coordinates.
    pub fn rotate(&self, rot: Rotation) -> (r: ImageAsset)
        requires
            self.wf(),
        ensures
            r.wf(),
            is_rotated(*self, r, rot),
            r.data@ == rotated_data(
                self.width as int,
                self.height as int,
                self.layout.spec_bpp() as int,
                self.data@,
                rot,
            ),
    {
        let w_out: u32 = match rot {
            Rotation::Half => self.width,
            _ => self.height,
        };
        let h_out: u32 = match rot {
            Rotation::Half => self.height,
            _ => self.width,
        };
        let ghost wi: int = self.width as int;
        let ghost hi: int = self.height as int;
        let ghost bi: int = self.layout.spec_bpp() as int;
        let ghost wo: int = w_out as int;
        proof {
            lemma_bpp_pos(self.layout);
        }
        let mut data: Vec<u8> = Vec::new();
        let mut y: u32 = 0;
        while y < h_out
            invariant
                self.wf(),
                1 <= bi,
                wi == self.width as int,
                hi == self.height as int,
                bi == self.layout.spec_bpp() as int,
                wo == w_out as int,
                w_out == rot_width(wi, hi, rot),
                h_out == rot_height(wi, hi, rot),
                y <= h_out,
                data@.len() == (y as int) * wo * bi,
                forall|xx: int, yy: int|
                    0 <= xx < w_out && 0 <= yy < y ==> #[trigger] pixel_in(data@, wo, bi, xx, yy)
                        == self.pix(src_x(rot, wi, hi, xx, yy), src_y(rot, wi, hi, xx, yy)),
            decreases h_out - y,
        {
            let mut x: u32 = 0;
            while x < w_out
                invariant
                    self.wf(),
                    1 <= bi,
                    wi == self.width as int,
                    hi == self.height as int,
                    bi == self.layout.spec_bpp() as int,
                    wo == w_out as int,
                    w_out == rot_width(wi, hi, rot),
                    h_out == rot_height(wi, hi, rot),
                    y < h_out,
                    x <= w_out,
                    data@.len() == ((y as int) * wo + (x as int)) * bi,
                    forall|xx: int, yy: int|
                        0 <= xx < w_out && (0 <= yy < y || (yy == y && 0 <= xx < x))
                            ==> #[trigger] pixel_in(data@, wo, bi, xx, yy) == self.pix(
                            src_x(rot, wi, hi, xx, yy),
                            src_y(rot, wi, hi, xx, yy),
                        ),
                decreases w_out - x,
            {
                let sx: u32 = match rot {
                    Rotation::Quarter => y,
                    Rotation::Half => self.width - 1 - x,
                    Rotation::ThreeQuarter => self.width - 1 - y,
                };
                let sy: u32 = match rot {
                    Rotation::Quarter => self.height - 1 - x,
                    Rotation::Half => self.height - 1 - y,
                    Rotation::ThreeQuarter => x,
                };
                let ghost pre: Seq<u8> = data@;
                data = self.push_pix(data, sx, sy);
                proof {
                    let xi: int = x as int;
                    let yi: int = y as int;
                    assert((yi * wo + xi + 1) * bi == (yi * wo + xi) * bi + bi)
                        by (nonlinear_arith);
                    assert(sx as int == src_x(rot, wi, hi, xi, yi));
                    assert(sy as int == src_y(rot, wi, hi, xi, yi));
                    assert forall|xx: int, yy: int|
                        0 <= xx < w_out && (0 <= yy < y || (yy == y && 0 <= xx < x + 1)) implies
                        #[trigger] pixel_in(data@, wo, bi, xx, yy) == self.pix(
                        src_x(rot, wi, hi, xx, yy),
                        src_y(rot, wi, hi, xx, yy),
                    ) by {
                        if yy == yi && xx == xi {
                            assert(pixel_in(data@, wo, bi, xx, yy) =~= self.pix(
                                sx as int,
                                sy as int,
                            ));
                        } else {
                            assert(yy * wo + xx < yi * wo + xi) by (nonlinear_arith)
                                requires
                                    0 <= xx < wo,
                                    0 <= xi,
                                    0 <= yy,
                                    yy < yi || (yy == yi && xx < xi),
                            ;
                            assert((yy * wo + xx) * bi + bi <= (yi * wo + xi) * bi)
                                by (nonlinear_arith)
                                requires
                                    yy * wo + xx < yi * wo + xi,
                                    1 <= bi,
                            ;
                            assert(0 <= (yy * wo + xx) * bi) by (nonlinear_arith)
                                requires
                                    0 <= xx,
                                    0 <= yy,
                                    0 <= wo,
                                    0 <= bi,
                            ;
                            assert(pixel_in(pre, wo, bi, xx, yy) == self.pix(
                                src_x(rot, wi, hi, xx, yy),
                                src_y(rot, wi, hi, xx, yy),
                            ));
                            assert(pixel_in(data@, wo, bi, xx, yy) =~= pixel_in(
                                pre,
                                wo,
                                bi,
                                xx,
                                yy,
                            ));
                        }
                    }
                }
                x = x + 1;
            }
            proof {
                assert((((y as int) + 1) * wo) * bi == ((y as int) * wo + wo) * bi)
                    by (nonlinear_arith);
            }
            y = y + 1;
        }
        let r = ImageAsset { width: w_out, height: h_out, layout: self.layout, data };
        proof {
            assert((h_out as int) * wo * bi == wo * (h_out as int) * bi) by (nonlinear_arith);
            assert forall|xx: int, yy: int| 0 <= xx < r.width && 0 <= yy < r.height implies
                #[trigger] r.pix(xx, yy) == self.pix(
                src_x(rot, wi, hi, xx, yy),
                src_y(rot, wi, hi, xx, yy),
            ) by {
                assert(pixel_in(r.data@, wo, bi, xx, yy) == self.pix(
                    src_x(rot, wi, hi, xx, yy),
                    src_y(rot, wi, hi, xx, yy),
                ));
            }
            lemma_rotate_data(*self, r, rot);
        }
        r
    }
}

/// The pointwise description `is_rotated` determines the whole rotated
/// buffer: it equals `rotated_data` of the source.
pub proof fn lemma_rotate_data(a: ImageAsset, b: ImageAsset, rot: Rotation)
    requires
        a.wf(),
        b.wf(),
        is_rotated(a, b, rot),
    ensures
        b.data@ == rotated_data(
            a.width as int,
            a.height as int,
            a.layout.spec_bpp() as int,
            a.data@,
            rot,
        ),
{
    let wi: int = a.width as int;
    let hi: int = a.height as int;
    let bi: int = a.layout.spec_bpp() as int;
    let bw: int = rot_width(wi, hi, rot);
    let bh: int = rot_height(wi, hi, rot);
    let rd: Seq<u8> = rotated_data(wi, hi, bi, a.data@, rot);
    lemma_bpp_pos(a.layout);
    assert(b.data@.len() == bw * bh * bi) by (nonlinear_arith)
        requires
            b.data@.len() == (b.width as int) * (b.height as int) * bi,
            b.width as int == bw,
            b.height as int == bh,
    ;
    assert forall|i: int| 0 <= i < b.data@.len() implies b.data@[i] == rd[i] by {
        let (x, y, k) = lemma_byte_decompose(bw, bh, bi, i);
        let sx: int = src_x(rot, wi, hi, x, y);
        let sy: int = src_y(rot, wi, hi, x, y);
        assert(0 <= sx < wi && 0 <= sy < hi);
        assert((y * bw + x) * bi + bi <= bw * bh * bi) by (nonlinear_arith)
            requires
                0 <= x < bw,
                0 <= y < bh,
                1 <= bi,
        ;
        assert(0 <= (y * bw + x) * bi) by (nonlinear_arith)
            requires
                0 <= x,
                0 <= y,
                0 <= bw,
                0 <= bi,
        ;
        assert(b.pix(x, y) == a.pix(sx, sy));
        assert(b.data@[i] == b.pix(x, y)[k]);
        assert((sy * wi + sx) * bi + bi <= wi * hi * bi) by (nonlinear_arith)
            requires
                0 <= sx < wi,
                0 <= sy < hi,
                1 <= bi,
        ;
        assert(0 <= (sy * wi + sx) * bi) by (nonlinear_arith)
            requires
                0 <= sx,
                0 <= sy,
                0 <= wi,
                0 <= bi,
        ;
        assert(a.pix(sx, sy)[k] == a.data@[(sy * wi + sx) * bi + k]);
        assert(rd[i] == a.data@[(sy * wi + sx) * bi + k]);
    }
    assert(b.data@ =~= rd);
}

/// Two well-formed images of the same shape that agree on every pixel have
/// the same buffer.
pub proof fn lemma_data_from_pixels(a: ImageAsset, b: ImageAsset)
    requires
        a.wf(),
        b.wf(),
        b.width == a.width,
        b.height == a.height,
        b.layout == a.layout,
        forall|x: int, y: int|
            0 <= x < a.width && 0 <= y < a.height ==> #[trigger] b.pix(x, y) == a.pix(x, y),
    ensures
        b.data@ == a.data@,
{
    let wi: int = a.width as int;
    let hi: int = a.height as int;
    let bi: int = a.layout.spec_bpp() as int;
    lemma_bpp_pos(a.layout);
    assert forall|i: int| 0 <= i < a.data@.len() implies a.data@[i] == b.data@[i] by {
        let (x, y, k) = lemma_byte_decompose(wi, hi, bi, i);
        assert((y * wi + x) * bi + bi <= wi * hi * bi) by (nonlinear_arith)
            requires
                0 <= x < wi,
                0 <= y < hi,
                1 <= bi,
        ;
        assert(0 <= (y * wi + x) * bi) by (nonlinear_arith)
            requires
                0 <= x,
                0 <= y,
                0 <= wi,
                0 <= bi,
        ;
        assert(b.pix(x, y) == a.pix(x, y));
        assert(a.data@[i] == a.pix(x, y)[k]);
        assert(b.data@[i] == b.pix(x, y)[k]);
    }
    assert(a.data@ =~= b.data@);
}

/// A quarter or three-quarter turn swaps width and height; a half turn
/// keeps both.
pub proof fn lemma_rotated_dims(a: ImageAsset, b: ImageAsset, rot: Rotation)
    requires
        is_rotated(a, b, rot),
    ensures
        !(rot is Half) ==> b.width == a.height && b.height == a.width,
        rot is Half ==> b.width == a.width && b.height == a.height,
{
}

/// A quarter turn followed by a three-quarter turn restores the source
/// image exactly, pixel for pixel and byte for byte.
pub proof fn lemma_quarter_turns_cancel(a: ImageAsset, b: ImageAsset, c: ImageAsset)
    requires
        a.wf(),
        b.wf(),
        c.wf(),
        is_rotated(a, b, Rotation::Quarter),
        is_rotated(b, c, Rotation::ThreeQuarter),
    ensures
        c.width == a.width,
        c.height == a.height,
        c.layout == a.layout,
        c.data@ == a.data@,
{
    let wi: int = a.width as int;
    let hi: int = a.height as int;
    assert forall|x: int, y: int| 0 <= x < a.width && 0 <= y < a.height implies #[trigger] c.pix(
        x,
        y,
    ) == a.pix(x, y) by {
        assert(c.pix(x, y) == b.pix(src_x(Rotation::ThreeQuarter, hi, wi, x, y), src_y(
            Rotation::ThreeQuarter, hi, wi, x, y)));
        assert(c.pix(x, y) == b.pix(hi - 1 - y, x));
        assert(b.pix(hi - 1 - y, x) == a.pix(src_x(Rotation::Quarter, wi, hi, hi - 1 - y, x),
            src_y(Rotation::Quarter, wi, hi, hi - 1 - y, x)));
    }
    lemma_data_from_pixels(a, c);
}

/// Two half turns restore the source image exactly, pixel for pixel and
/// byte for byte.
pub proof fn lemma_half_turns_cancel(a: ImageAsset, b: ImageAsset, c: ImageAsset)
    requires
        a.wf(),
        b.wf(),
        c.wf(),
        is_rotated(a, b, Rotation::Half),
        is_rotated(b, c, Rotation::Half),
    ensures
        c.width == a.width,
        c.height == a.height,
        c.layout == a.layout,
        c.data@ == a.data@,
{
    let wi: int = a.width as int;
    let hi: int = a.height as int;
    assert forall|x: int, y: int| 0 <= x < a.width && 0 <= y < a.height implies #[trigger] c.pix(
        x,
        y,
    ) == a.pix(x, y) by {
        assert(c.pix(x, y) == b.pix(wi - 1 - x, hi - 1 - y));
        assert(b.pix(wi - 1 - x, hi - 1 - y) == a.pix(x, y));
    }
    lemma_data_from_pixels(a, c);
}

} // verus!
