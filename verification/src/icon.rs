//! Decoded bitmaps held as plain values, and tile cropping.
//!
//! An [`Icon`] is an RGBA bitmap in row-major order, four bytes per pixel.
//! [`crop_tile`] cuts a rectangle out of a bitmap, clamping the requested
//! rectangle to the source bounds.

use vstd::prelude::*;

verus! {

/// A decoded RGBA bitmap: `data` holds `width * height * 4` bytes in
/// row-major order.
#[derive(Debug, PartialEq, Eq)]
pub struct Icon {
    pub width: u32,
    pub height: u32,
    pub data: Vec<u8>,
}

/// The mathematical value of an [`Icon`].
#[verifier::ext_equal]
pub ghost struct IconView {
    pub width: u32,
    pub height: u32,
    pub data: Seq<u8>,
}

impl View for Icon {
    type V = IconView;

    open spec fn view(&self) -> IconView {
        IconView { width: self.width, height: self.height, data: self.data@ }
    }
}

impl IconView {
    /// Row-major RGBA layout: exactly four bytes for each pixel.
    pub open spec fn wf(self) -> bool {
        self.data.len() == self.width as int * self.height as int * 4
    }

    /// Byte `k` of the pixel in row `row`, column `col`.
    pub open spec fn pixel_byte(self, row: int, col: int, k: int) -> u8 {
        self.data[(row * self.width as int + col) * 4 + k]
    }
}

/// The smaller of two integers.
pub open spec fn spec_min(a: int, b: int) -> int {
    if a <= b {
        a
    } else {
        b
    }
}

/// Copy a byte vector; the result views equal.
fn clone_bytes(v: &Vec<u8>) -> (r: Vec<u8>)
    ensures
        r@ == v@,
{
    let r = v.clone();
    proof {
        assert(r@ =~= v@);
    }
    r
}

impl Clone for Icon {
    /// A clone has the same view as the original.
    fn clone(&self) -> (r: Self)
        ensures
            r@ == self@,
    {
        Icon { width: self.width, height: self.height, data: clone_bytes(&self.data) }
    }
}

/// The width of the clamped crop rectangle `(x, y, w, h)` within `src`.
pub open spec fn crop_width(src: IconView, x: u32, w: u32) -> int {
    spec_min(w as int, src.width as int - spec_min(x as int, src.width as int))
}

/// The height of the clamped crop rectangle `(x, y, w, h)` within `src`.
pub open spec fn crop_height(src: IconView, y: u32, h: u32) -> int {
    spec_min(h as int, src.height as int - spec_min(y as int, src.height as int))
}

/// The clamped crop of `src` at `(x, y)` with requested size `w * h`, as a
/// bitmap value: byte `k` of its pixel `(i, j)` is byte `k` of `src`'s
/// pixel `(y0 + i, x0 + j)`, with `(x0, y0)` the corner clamped into the
/// bitmap.
pub open spec fn spec_crop(src: IconView, x: u32, y: u32, w: u32, h: u32) -> IconView {
    let x0 = spec_min(x as int, src.width as int);
    let y0 = spec_min(y as int, src.height as int);
    let cw = crop_width(src, x, w);
    let ch = crop_height(src, y, h);
    IconView {
        width: cw as u32,
        height: ch as u32,
        data: Seq::new(
            (ch * cw * 4) as nat,
            |t: int|
                src.data[((y0 + t / (cw * 4)) * src.width as int + (x0 + (t % (cw * 4)) / 4)) * 4
                    + (t % (cw * 4)) % 4],
        ),
    }
}

/// Byte `k` of pixel `(i, j)` of `out` is byte `k` of pixel `(y0 + i, x0 + j)`
/// of `src`.
pub open spec fn tile_byte_ok(
    out: IconView,
    src: IconView,
    x0: int,
    y0: int,
    i: int,
    j: int,
    k: int,
) -> bool {
    out.pixel_byte(i, j, k) == src.pixel_byte(y0 + i, x0 + j, k)
}

/// Cut the rectangle of size `w * h` whose top-left corner is `(x, y)` out of
/// `src`. A rectangle reaching outside the bitmap is clamped to its bounds,
/// so the result may be smaller than asked for.
pub fn crop_tile(src: &Icon, x: u32, y: u32, w: u32, h: u32) -> (r: Icon)
    requires
        src@.wf(),
    ensures
        r@.wf(),
        r@ == spec_crop(src@, x, y, w, h),
        r@.width as int == crop_width(src@, x, w),
        r@.height as int == crop_height(src@, y, h),
        forall|i: int, j: int, k: int|
            0 <= i < r@.height && 0 <= j < r@.width && 0 <= k < 4 ==> #[trigger] tile_byte_ok(
                r@,
                src@,
                spec_min(x as int, src@.width as int),
                spec_min(y as int, src@.height as int),
                i,
                j,
                k,
            ),
{
    let sw = src.width;
    let sh = src.height;
    let x0: u32 = if x <= sw {
        x
    } else {
        sw
    };
    let y0: u32 = if y <= sh {
        y
    } else {
        sh
    };
    let cw: u32 = if w <= sw - x0 {
        w
    } else {
        sw - x0
    };
    let ch: u32 = if h <= sh - y0 {
        h
    } else {
        sh - y0
    };
    let total: usize = src.data.len();
    let mut out: Vec<u8> = Vec::new();
    let ghost part = |o: Seq<u8>| IconView { width: cw, height: ch, data: o };
    let mut i: u32 = 0;
    while i < ch
        invariant
            src@.wf(),
            x0 as int == spec_min(x as int, sw as int),
            y0 as int == spec_min(y as int, sh as int),
            sw == src.width,
            sh == src.height,
            total == src@.data.len(),
            x0 + cw <= sw,
            y0 + ch <= sh,
            i <= ch,
            out@.len() == i as int * cw as int * 4,
            part == (|o: Seq<u8>| IconView { width: cw, height: ch, data: o }),
            forall|a: int, b: int, c: int|
                0 <= a < i && 0 <= b < cw && 0 <= c < 4 ==> #[trigger] tile_byte_ok(
                    part(out@),
                    src@,
                    x0 as int,
                    y0 as int,
                    a,
                    b,
                    c,
                ),
        decreases ch - i,
    {
        let mut j: u32 = 0;
        while j < cw
            invariant
                src@.wf(),
                x0 as int == spec_min(x as int, sw as int),
                y0 as int == spec_min(y as int, sh as int),
                sw == src.width,
                sh == src.height,
                total == src@.data.len(),
                x0 + cw <= sw,
                y0 + ch <= sh,
                i < ch,
                j <= cw,
                out@.len() == (i as int * cw as int + j as int) * 4,
                part == (|o: Seq<u8>| IconView { width: cw, height: ch, data: o }),
                forall|a: int, b: int, c: int|
                    0 <= a < i && 0 <= b < cw && 0 <= c < 4 ==> #[trigger] tile_byte_ok(
                        part(out@),
                        src@,
                        x0 as int,
                        y0 as int,
                        a,
                        b,
                        c,
                    ),
                forall|b: int, c: int|
                    0 <= b < j && 0 <= c < 4 ==> #[trigger] tile_byte_ok(
                        part(out@),
                        src@,
                        x0 as int,
                        y0 as int,
                        i as int,
                        b,
                        c,
                    ),
            decreases cw - j,
        {
            proof {
                assert(((y0 + i) as int) * (sw as int) + ((x0 + j) as int) < (sh as int) * (
                sw as int)) by (nonlinear_arith)
                    requires
                        (y0 as int) + (i as int) < sh as int,
                        (x0 as int) + (j as int) < sw as int,
                        0 <= (y0 as int) + (i as int),
                        0 <= (x0 as int) + (j as int),
                ;
                assert((((y0 + i) as int) * (sw as int) + ((x0 + j) as int)) * 4 + 4 <= (sh as int)
                    * (sw as int) * 4) by (nonlinear_arith)
                    requires
                        ((y0 + i) as int) * (sw as int) + ((x0 + j) as int) < (sh as int) * (
                        sw as int),
                ;
                assert(src@.data.len() == (sw as int) * (sh as int) * 4);
                assert((sw as int) * (sh as int) * 4 == (sh as int) * (sw as int) * 4) by (
                nonlinear_arith);
                assert((((y0 + i) as int) * (sw as int) + ((x0 + j) as int)) * 4 + 4 <= total);
            }
            let row: usize = (y0 + i) as usize;
            let col: usize = (x0 + j) as usize;
            let base: usize = (row * sw as usize + col) * 4;
            let ghost old_out = out@;
            out.push(src.data[base]);
            out.push(src.data[base + 1]);
            out.push(src.data[base + 2]);
            out.push(src.data[base + 3]);
            proof {
                assert forall|b: int, c: int| 0 <= b < j + 1 && 0 <= c < 4 implies #[trigger]
                tile_byte_ok(part(out@), src@, x0 as int, y0 as int, i as int, b, c) by {
                    if b < j {
                        assert((i as int * cw as int + b) * 4 + c < old_out.len()) by (
                        nonlinear_arith)
                            requires
                                0 <= b < j as int,
                                0 <= c < 4,
                                0 <= i,
                                0 <= cw,
                                old_out.len() == (i as int * cw as int + j as int) * 4,
                        ;
                        assert(tile_byte_ok(part(old_out), src@, x0 as int, y0 as int, i as int, b, c));
                    } else {
                        assert((i as int * cw as int + b) * 4 + c == old_out.len() + c);
                    }
                }
                assert forall|a: int, b: int, c: int| 0 <= a < i && 0 <= b < cw && 0 <= c
                    < 4 implies #[trigger] tile_byte_ok(
                    part(out@),
                    src@,
                    x0 as int,
                    y0 as int,
                    a,
                    b,
                    c,
                ) by {
                    assert((a * cw as int + b) * 4 + c < old_out.len()) by (nonlinear_arith)
                        requires
                            0 <= a < i as int,
                            0 <= b < cw as int,
                            0 <= c < 4,
                            0 <= j as int,
                            old_out.len() == (i as int * cw as int + j as int) * 4,
                    ;
                    assert(tile_byte_ok(part(old_out), src@, x0 as int, y0 as int, a, b, c));
                }
            }
            j += 1;
        }
        proof {
            assert((i as int * cw as int + cw as int) * 4 == (i + 1) as int * cw as int * 4) by (
            nonlinear_arith);
        }
        i += 1;
    }
    let r = Icon { width: cw, height: ch, data: out };
    proof {
        assert(r@.wf()) by (nonlinear_arith)
            requires
                r@.data.len() == ch as int * cw as int * 4,
                r@.width == cw,
                r@.height == ch,
        ;
        assert forall|a: int, b: int, c: int| 0 <= a < r@.height && 0 <= b < r@.width && 0 <= c
            < 4 implies #[trigger] tile_byte_ok(
            r@,
            src@,
            spec_min(x as int, src@.width as int),
            spec_min(y as int, src@.height as int),
            a,
            b,
            c,
        ) by {
            assert(tile_byte_ok(part(r.data@), src@, x0 as int, y0 as int, a, b, c));
            assert(part(r.data@) == r@);
        }
        let res = spec_crop(src@, x, y, w, h);
        let cwi = cw as int;
        let chi = ch as int;
        assert(res.data.len() == chi * cwi * 4);
        assert(r@.data.len() == chi * cwi * 4);
        assert forall|t: int| 0 <= t < r@.data.len() implies r@.data[t] == res.data[t] by {
            let d = cwi * 4;
            assert(0 < chi * cwi * 4);
            assert(0 < d) by (nonlinear_arith)
                requires
                    0 < chi * cwi * 4,
                    d == cwi * 4,
                    0 <= cwi,
                    0 <= chi,
            ;
            vstd::arithmetic::div_mod::lemma_fundamental_div_mod(t, d);
            vstd::arithmetic::div_mod::lemma_mod_bound(t, d);
            let i = t / d;
            let rem = t % d;
            vstd::arithmetic::div_mod::lemma_fundamental_div_mod(rem, 4);
            vstd::arithmetic::div_mod::lemma_mod_bound(rem, 4);
            let j = rem / 4;
            let k = rem % 4;
            assert(0 <= i && i < chi) by (nonlinear_arith)
                requires
                    t == d * i + rem,
                    0 <= rem < d,
                    0 <= t < chi * cwi * 4,
                    d == cwi * 4,
                    0 < d,
            ;
            assert(0 <= j && j < cwi) by (nonlinear_arith)
                requires
                    rem == 4 * j + k,
                    0 <= k < 4,
                    0 <= rem < d,
                    d == cwi * 4,
            ;
            assert((i * cwi + j) * 4 + k == t) by (nonlinear_arith)
                requires
                    t == d * i + rem,
                    rem == 4 * j + k,
                    d == cwi * 4,
            ;
            assert(tile_byte_ok(r@, src@, spec_min(x as int, src@.width as int), spec_min(
                y as int,
                src@.height as int,
            ), i, j, k));
            assert(r@.data[t] == src@.data[((y0 as int + i) * (sw as int) + (x0 as int + j)) * 4
                + k]);
            assert(res.data[t] == src@.data[((y0 as int + i) * (sw as int) + (x0 as int + j)) * 4
                + k]);
        }
        assert(r@ =~= res);
    }
    r
}

/// What the WebP decoder yields on the given bytes: the decoded RGBA
/// bitmap, or nothing on malformed or animated data. The outcome is a
/// function of the bytes alone.
pub uninterp spec fn sprite_of(bytes: Seq<u8>) -> Option<IconView>;

/// Relies on webp::Decoder::decode: decodes a WebP image into RGBA bytes
/// in row-major order, four bytes per pixel; fails on malformed or animated
/// data. A decoded RGBA buffer holds exactly `width * height * 4` bytes.
#[verifier::external_body]
pub fn decode_webp_icon(bytes: &[u8]) -> (r: Option<Icon>)
    ensures
        r is Some <==> sprite_of(bytes@) is Some,
        r is Some ==> Some((r->Some_0)@) == sprite_of(bytes@),
        r is Some ==> (r->Some_0)@.wf(),
{
    let image = webp::Decoder::new(bytes).decode()?.to_image().into_rgba8();
    let width = image.width();
    let height = image.height();
    Some(Icon { width, height, data: image.into_raw() })
}

} // verus!
