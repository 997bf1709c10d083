//! Icon decoding for the editor: a PNG becomes a square RGBA canvas, ready to
//! be uploaded as a texture.

use crate::rounding::{
    bit_len, lemma_bit_len_unique, lemma_nearest_even_error, lemma_pow2_monotone,
    lemma_rounded_error, lemma_rounded_monotone, lemma_rounded_representable, lemma_rounded_shift,
    nearest_even, round_significant, rounded,
};
use vstd::arithmetic::div_mod::*;
use vstd::arithmetic::power2::*;
use vstd::bits::*;
use vstd::prelude::*;

verus! {

/// Pre-resize to ~2x displayed size so the GPU does negligible minification
/// and mipmaps handle the rest cleanly across HiDPI scales.
pub const ICON_TEXTURE_PX: u32 = 128;

/// A decoded image, 8 bits per channel.
pub struct DecodedImage {
    pub width: u32,
    pub height: u32,
    pub pixels: Vec<u8>,
}

/// What the first frame of a PNG decodes to, with palettes and low bit depths
/// expanded, 16-bit channels cut to 8 and an alpha channel added: width,
/// height and bytes. `None` where it is no valid PNG.
pub uninterp spec fn png_frame(bytes: Seq<u8>) -> Option<(u32, u32, Seq<u8>)>;

/// `png::Decoder`, with the transformations `ALPHA`, `EXPAND` and `STRIP_16`:
/// reads the header and decodes the first frame. The result depends on the
/// bytes alone.
#[verifier::external_body]
pub(crate) fn decode_png(bytes: &Vec<u8>) -> (r: Option<DecodedImage>)
    ensures
        match r {
            Some(image) => png_frame(bytes@) == Some((image.width, image.height, image.pixels@)),
            None => png_frame(bytes@) is None,
        },
{
    let mut decoder = png::Decoder::new(std::io::Cursor::new(bytes));
    decoder.set_transformations(
        png::Transformations::ALPHA | png::Transformations::EXPAND | png::Transformations::STRIP_16,
    );
    let mut reader = decoder.read_info().ok()?;
    let (width, height) = reader.info().size();
    let mut pixels = vec![0u8; reader.output_buffer_size()?];
    reader.next_frame(&mut pixels).ok()?;
    Some(DecodedImage { width, height, pixels })
}

/// `out` is an image of size `to` that the resizer may make of an image of size
/// `from`.
pub uninterp spec fn resizes_to(
    pixels: Seq<u8>,
    from: (u32, u32),
    to: (u32, u32),
    out: Seq<u8>,
) -> bool;

/// `fast_image_resize::Resizer::resize` with the Lanczos3 convolution on RGBA that
/// is not premultiplied, which keeps the colours of the edges: an image of the
/// size asked for. It fails on images without enough bytes, or of two different
/// kinds of pixel, which these are not; an image that has the size already is
/// copied. What the pixels are otherwise is left unsaid: the crate computes its
/// weights in floating point.
#[verifier::external_body]
pub(crate) fn resize_lanczos3(
    pixels: Vec<u8>,
    width: u32,
    height: u32,
    to_width: u32,
    to_height: u32,
) -> (r: Option<Vec<u8>>)
    requires
        width * height * 4 <= pixels.len(),
        1 <= width,
        1 <= height,
        1 <= to_width <= 128,
        1 <= to_height <= 128,
    ensures
        r is Some,
        r->0.len() == to_width * to_height * 4,
        resizes_to(pixels@, (width, height), (to_width, to_height), r->0@),
        width == to_width && height == to_height ==> r->0@ == pixels@.take(
            width * height * 4,
        ),
{
    let pixel = fast_image_resize::PixelType::U8x4;
    let src = fast_image_resize::images::Image::from_vec_u8(width, height, pixels, pixel).ok()?;
    let mut dst = fast_image_resize::images::Image::new(to_width, to_height, pixel);
    let filter = fast_image_resize::FilterType::Lanczos3;
    let options = fast_image_resize::ResizeOptions::new().resize_alg(
        fast_image_resize::ResizeAlg::Convolution(filter),
    ).use_alpha(false);
    fast_image_resize::Resizer::new().resize(&src, &mut dst, &options).ok()?;
    Some(dst.into_vec())
}

/// `n / d` rounded to 24 significant bits, for quotients of at least that
/// many.
pub open spec fn rounded_quotient(n: nat, d: nat) -> nat {
    let e = (bit_len(n / d) - 24) as nat;
    nearest_even(n, d * pow2(e)) * pow2(e)
}

/// The factor that brings a side of `side` pixels to 128, in binary32
/// arithmetic and units of 2^-55: `128 / side`, where 2^62 units are 128.
pub open spec fn fit_scale(side: u32) -> nat {
    rounded_quotient(pow2(62), rounded(side as nat))
}

/// `length * (128 / side)` in binary32 arithmetic, rounded to the nearest whole
/// number, half away from zero; at least one.
pub open spec fn fitted(length: u32, side: u32) -> int {
    let v = rounded(rounded(length as nat) * fit_scale(side));
    let r = (2 * v + pow2(55)) / pow2(56);
    if r < 1 {
        1
    } else {
        r as int
    }
}

/// The digits and scale of `2^62 / d`, rounded to 24 significant bits.
fn divide(d: u64) -> (r: (u64, u32))
    requires
        1 <= d <= 0x1_0000_0000,
    ensures
        r.0 * pow2(r.1 as nat) == rounded_quotient(pow2(62), d as nat),
        0x80_0000 <= r.0 <= 0x100_0000,
        r.1 <= 40,
        (r.0 * pow2(r.1 as nat)) * d <= 0x4000_0000_0000_0000 + 0x40_0000_0000,
        (r.0 * pow2(r.1 as nat)) * d >= 0x4000_0000_0000_0000 - 0x40_0000_0000,
{
    let n: u64 = 0x4000_0000_0000_0000;
    let q: u64 = n / d;
    let mut t: u64 = q;
    let mut big: u64 = d;
    let mut e: u32 = 0;
    proof {
        lemma2_to64();
        lemma2_to64_rest();
        lemma_div_is_ordered_by_denominator(n as int, d as int, 0x1_0000_0000);
        assert(n as int / 0x1_0000_0000 == 0x4000_0000);
        lemma_fundamental_div_mod(n as int, d as int);
        assert(t * big <= n) by (nonlinear_arith)
            requires
                n == d * q + n as int % d as int,
                n as int % d as int >= 0,
                t == q,
                big == d,
        ;
    }
    while t >= 0x100_0000
        invariant
            n == 0x4000_0000_0000_0000,
            1 <= d <= 0x1_0000_0000,
            q == n / d,
            big == d * pow2(e as nat),
            big >= 1,
            t == n / big,
            t == q as nat / pow2(e as nat),
            t >= 0x80_0000,
            t * big <= n,
            e <= 40,
        decreases t,
    {
        proof {
            assert(big <= 0x40_0000_0000) by (nonlinear_arith)
                requires
                    t * big <= n,
                    t >= 0x100_0000,
                    n == 0x4000_0000_0000_0000,
            ;
            lemma2_to64();
            lemma2_to64_rest();
            if e >= 40 {
                lemma_pow2_monotone(40, e as nat);
                assert(d * pow2(e as nat) >= pow2(e as nat)) by (nonlinear_arith)
                    requires
                        d >= 1,
                        pow2(e as nat) >= 0,
                ;
            }
            lemma_pow2_unfold((e + 1) as nat);
            lemma_pow2_pos(e as nat);
            lemma_div_denominator(n as int, big as int, 2);
            lemma_div_denominator(q as int, pow2(e as nat) as int, 2);
            assert(pow2(e as nat) * 2 == pow2((e + 1) as nat));
            assert(big * 2 == d * pow2((e + 1) as nat)) by (nonlinear_arith)
                requires
                    big == d * pow2(e as nat),
                    pow2((e + 1) as nat) == 2 * pow2(e as nat),
            ;
            assert((t / 2) * (big * 2) <= n) by (nonlinear_arith)
                requires
                    t * big <= n,
                    big >= 1,
            ;
        }
        t = t / 2;
        big = big * 2;
        e = e + 1;
    }
    let rem: u64 = n - t * big;
    proof {
        lemma_fundamental_div_mod(n as int, big as int);
        lemma_mod_bound(n as int, big as int);
        assert(t * big == big * t) by (nonlinear_arith);
        assert(rem == n as int % big as int);
        lemma_pow2_pos(e as nat);
        // q has 24 + e binary digits.
        let p = pow2(e as nat);
        lemma_fundamental_div_mod(q as int, p as int);
        lemma_mod_bound(q as int, p as int);
        assert(0x80_0000 * p <= q < 0x100_0000 * p) by (nonlinear_arith)
            requires
                q == p * t + q as int % p as int,
                0 <= q as int % p as int,
                (q as int % p as int) < p,
                0x80_0000 <= t < 0x100_0000,
        ;
        lemma_pow2_adds(23, e as nat);
        lemma_pow2_adds(24, e as nat);
        lemma_bit_len_unique(q as nat, (24 + e) as nat);
        // The rounding is off by half a divisor at most.
        let r = nearest_even(n as nat, big as nat);
        lemma_nearest_even_error(n as nat, big as nat);
        assert(big <= 0x80_0000_0000) by (nonlinear_arith)
            requires
                t * big <= n,
                t >= 0x80_0000,
                n == 0x4000_0000_0000_0000,
        ;
        assert((r * p) * d == r * big) by (nonlinear_arith)
            requires
                big == d * p,
        ;
    }
    if rem < big - rem || (rem == big - rem && t % 2 == 0) {
        (t, e)
    } else {
        (t + 1, e)
    }
}

/// Length of a side once the longer side is brought to 128 pixels.
fn fit_side(length: u32, side: u32) -> (r: u32)
    requires
        1 <= length <= side,
    ensures
        r == fitted(length, side),
        1 <= r <= 128,
        length == side ==> r == 128,
{
    let (a, b) = round_significant(length as u64);
    let (c, d) = round_significant(side as u64);
    proof {
        lemma2_to64();
        lemma2_to64_rest();
        lemma_rounded_representable(0x1_0000_0000, 1, 32);
        lemma_rounded_monotone(side as nat, 0x1_0000_0000);
        lemma_rounded_representable(1, 1, 0);
        lemma_rounded_monotone(1, side as nat);
        lemma_rounded_monotone(length as nat, side as nat);
        lemma_rounded_monotone(1, length as nat);
    }
    let ghost rs = rounded(side as nat);
    let ghost rl = rounded(length as nat);
    proof {
        assert(d < 64) by {
            if d >= 33 {
                lemma_pow2_monotone(33, d as nat);
                assert(c * pow2(d as nat) >= pow2(d as nat)) by (nonlinear_arith)
                    requires
                        c * pow2(d as nat) >= 1,
                        pow2(d as nat) >= 0,
                ;
            }
        }
        lemma_u64_shl_is_mul(c, d as u64);
    }
    let divisor: u64 = c << (d as u64);
    let (q, e) = divide(divisor);
    let ghost scale = fit_scale(side);
    proof {
        assert(a * q <= 0x100_0000 * 0x100_0000) by (nonlinear_arith)
            requires
                a <= 0x100_0000,
                q <= 0x100_0000,
        ;
    }
    let (p, f) = round_significant(a * q);
    let ghost v = rounded(rl * scale);
    proof {
        let pb = pow2(b as nat);
        let pe = pow2(e as nat);
        lemma_pow2_adds(b as nat, e as nat);
        assert(rl * scale == (a * q) * (pb * pe)) by (nonlinear_arith)
            requires
                rl == a * pb,
                scale == q * pe,
        ;
        lemma_rounded_shift((a * q) as nat, (b + e) as nat);
        lemma_pow2_adds(f as nat, (b + e) as nat);
        assert((p * pow2(f as nat)) * pow2((b + e) as nat) == p * (pow2(f as nat) * pow2(
            (b + e) as nat,
        ))) by (nonlinear_arith);
        assert(v == p * pow2((f + b + e) as nat));
        // Bounds.
        assert(rl * scale <= rs * scale) by (nonlinear_arith)
            requires
                rl <= rs,
                scale >= 0,
        ;
        assert(rs * scale == scale * rs) by (nonlinear_arith);
        lemma_rounded_error(rl * scale);
        assert(v <= 0x4000_0000_0000_0000 + 0x80_0000_0000 + 0x8000);
        if length == side {
            assert(v >= 0x4000_0000_0000_0000 - 0x80_0000_0000 - 0x8000);
        }
    }
    let s: u32 = f + b + e;
    proof {
        if s >= 64 {
            lemma_pow2_strictly_increases(63, s as nat);
            assert(rl * scale >= 1) by (nonlinear_arith)
                requires
                    rl >= 1,
                    scale == q * pow2(e as nat),
                    q >= 1,
                    pow2(e as nat) >= 1,
            ;
            lemma_rounded_monotone(1, rl * scale);
            assert(p * pow2(s as nat) >= pow2(s as nat)) by (nonlinear_arith)
                requires
                    p * pow2(s as nat) >= 1,
                    pow2(s as nat) >= 0,
            ;
        }
        lemma_u64_shl_is_mul(p, s as u64);
    }
    let product: u64 = p << (s as u64);
    let whole: u64 = (2 * product + 0x80_0000_0000_0000) / 0x100_0000_0000_0000;
    if whole < 1 {
        1
    } else {
        whole as u32
    }
}

/// Aspect-preserving fit: the size at which an image touches one edge of the
/// 128-pixel bounding box.
pub fn fit_size(width: u32, height: u32) -> (r: (u32, u32))
    requires
        1 <= width,
        1 <= height,
    ensures
        ({
            let side = if width > height {
                width
            } else {
                height
            };
            r.0 == fitted(width, side) && r.1 == fitted(height, side)
        }),
        1 <= r.0 <= 128,
        1 <= r.1 <= 128,
        r.0 == 128 || r.1 == 128,
{
    let side: u32 = if width > height {
        width
    } else {
        height
    };
    (fit_side(width, side), fit_side(height, side))
}

/// The byte at place `i` of the canvas: that of the image, centred, or zero.
pub open spec fn canvas_byte(image: Seq<u8>, width: int, height: int, i: int) -> u8 {
    let dx = (128 - width) / 2;
    let dy = (128 - height) / 2;
    let y = i / 512;
    let x4 = i % 512;
    if dy <= y < dy + height && dx * 4 <= x4 < (dx + width) * 4 {
        image[(y - dy) * (width * 4) + (x4 - dx * 4)]
    } else {
        0
    }
}

/// Centre an image on a transparent 128 x 128 square, so that non-square
/// source PNGs don't get stretched back to a square button at draw time.
pub fn place_on_canvas(image: &Vec<u8>, width: u32, height: u32) -> (r: Vec<u8>)
    requires
        1 <= width <= 128,
        1 <= height <= 128,
        image.len() >= width * height * 4,
    ensures
        r.len() == 65_536,
        forall|i: int|
            0 <= i < 65_536 ==> #[trigger] r@[i] == canvas_byte(
                image@,
                width as int,
                height as int,
                i,
            ),
{
    let dx: usize = (ICON_TEXTURE_PX as usize - width as usize) / 2;
    let dy: usize = (ICON_TEXTURE_PX as usize - height as usize) / 2;
    let w: usize = width as usize;
    let h: usize = height as usize;
    let row_bytes: usize = w * 4;
    let mut square: Vec<u8> = Vec::with_capacity(65_536);
    for i in 0..65_536usize
        invariant
            1 <= w <= 128,
            1 <= h <= 128,
            w == width,
            h == height,
            dx == (128 - w) / 2,
            dy == (128 - h) / 2,
            row_bytes == w * 4,
            image.len() >= width * height * 4,
            square.len() == i,
            forall|k: int|
                0 <= k < i ==> #[trigger] square@[k] == canvas_byte(
                    image@,
                    width as int,
                    height as int,
                    k,
                ),
    {
        let y: usize = i / 512;
        let x4: usize = i % 512;
        let byte: u8 = if dy <= y && y < dy + h && dx * 4 <= x4 && x4 < (dx + w) * 4 {
            proof {
                let row = (y - dy) as int;
                let col = x4 - dx * 4;
                assert(0 <= row * row_bytes + col < height * (width * 4)) by (nonlinear_arith)
                    requires
                        0 <= row < height,
                        0 <= col < row_bytes,
                        row_bytes == width * 4,
                ;
                assert(height * (width * 4) == width * height * 4) by (nonlinear_arith);
                assert(0 <= row * row_bytes <= 128 * 512) by (nonlinear_arith)
                    requires
                        0 <= row < 128,
                        0 <= row_bytes <= 512,
                ;
            }
            image[(y - dy) * row_bytes + (x4 - dx * 4)]
        } else {
            0
        };
        square.push(byte);
    }
    square
}

/// `canvas` shows what the resizer made of an image.
pub open spec fn is_canvas(
    canvas: Seq<u8>,
    pixels: Seq<u8>,
    from: (u32, u32),
    to: (u32, u32),
) -> bool {
    &&& canvas.len() == 65_536
    &&& exists|image: Seq<u8>|
        {
            &&& image.len() == to.0 * to.1 * 4
            &&& resizes_to(pixels, from, to, image)
            &&& from == to ==> image == pixels.take(from.0 * from.1 * 4)
            &&& #[trigger] shows(canvas, image, to)
        }
}

pub open spec fn shows(canvas: Seq<u8>, image: Seq<u8>, size: (u32, u32)) -> bool {
    forall|i: int|
        0 <= i < 65_536 ==> #[trigger] canvas[i] == canvas_byte(
            image,
            size.0 as int,
            size.1 as int,
            i,
        )
}

/// The size of a PNG's frame, if it decodes to one with 4 bytes to a pixel.
pub open spec fn icon_size(bytes: Seq<u8>) -> Option<(u32, u32)> {
    match png_frame(bytes) {
        Some((width, height, pixels)) => if width >= 1 && height >= 1 && pixels.len() >= width
            * height * 4 {
            Some((width, height))
        } else {
            None
        },
        None => None,
    }
}

/// The bytes of a PNG's frame.
pub open spec fn icon_pixels(bytes: Seq<u8>) -> Seq<u8> {
    match png_frame(bytes) {
        Some((width, height, pixels)) => pixels,
        None => Seq::empty(),
    }
}

/// Decode a PNG and aspect-fit it onto a transparent square canvas. `None`
/// where the bytes are no PNG of 4 bytes to a pixel.
pub fn load_icon(png_bytes: &Vec<u8>) -> (r: Option<Vec<u8>>)
    ensures
        r is Some <==> icon_size(png_bytes@) is Some,
        r matches Some(canvas) ==> {
            let (width, height) = icon_size(png_bytes@)->0;
            let side = if width > height {
                width
            } else {
                height
            };
            is_canvas(
                canvas@,
                icon_pixels(png_bytes@),
                (width, height),
                (fitted(width, side) as u32, fitted(height, side) as u32),
            )
        },
{
    let image = match decode_png(png_bytes) {
        Some(image) => image,
        None => {
            return None;
        },
    };
    if image.width < 1 || image.height < 1 {
        return None;
    }
    proof {
        assert(image.width * image.height <= 0xffff_ffff * 0xffff_ffff) by (nonlinear_arith)
            requires
                image.width <= 0xffff_ffff,
                image.height <= 0xffff_ffff,
        ;
    }
    let needed: u128 = image.width as u128 * image.height as u128 * 4;
    if (image.pixels.len() as u128) < needed {
        return None;
    }
    let (rw, rh) = fit_size(image.width, image.height);
    let ghost pixels = image.pixels@;
    match resize_lanczos3(image.pixels, image.width, image.height, rw, rh) {
        Some(resized) => {
            let canvas = place_on_canvas(&resized, rw, rh);
            proof {
                assert(shows(canvas@, resized@, (rw, rh)));
            }
            Some(canvas)
        },
        None => None,
    }
}

}
