//! Recolouring of icon images to flat off-white silhouettes that match the
//! editor's body text tone: every pixel with non-zero alpha gets its colour
//! replaced, and alpha is preserved verbatim, so anti-aliased edges stay
//! intact and the silhouette reads cleanly on any background.

use vstd::prelude::*;

verus! {

/// Target greyscale value for every non-transparent pixel: bright enough to
/// read clearly, less aggressive than pure white.
pub const TARGET_GRAY: u8 = 190;

/// How the bytes of a decoded image make up its pixels, 8 bits each.
#[derive(Clone, Copy, PartialEq, Eq, Structural, Debug)]
pub enum PixelLayout {
    Rgba,
    Rgb,
    GrayscaleAlpha,
    Grayscale,
    Indexed,
}

impl PixelLayout {
    /// Bytes to a pixel.
    pub open spec fn stride(self) -> nat {
        match self {
            PixelLayout::Rgba => 4,
            PixelLayout::Rgb => 3,
            PixelLayout::GrayscaleAlpha => 2,
            PixelLayout::Grayscale => 1,
            PixelLayout::Indexed => 1,
        }
    }
}

/// The four bytes of pixel `p` as RGBA; one without alpha is fully opaque.
pub open spec fn rgba_pixel(layout: PixelLayout, buf: Seq<u8>, p: int) -> Seq<u8> {
    match layout {
        PixelLayout::Rgba => seq![buf[4 * p], buf[4 * p + 1], buf[4 * p + 2], buf[4 * p + 3]],
        PixelLayout::Rgb => seq![buf[3 * p], buf[3 * p + 1], buf[3 * p + 2], 255],
        PixelLayout::GrayscaleAlpha => seq![
            buf[2 * p],
            buf[2 * p],
            buf[2 * p],
            buf[2 * p + 1],
        ],
        _ => seq![buf[p], buf[p], buf[p], 255],
    }
}

/// A pixel after recolouring: grey with its own alpha, or fully transparent.
pub open spec fn recoloured_pixel(px: Seq<u8>) -> Seq<u8> {
    if px[3] == 0 {
        seq![0, 0, 0, 0]
    } else {
        seq![TARGET_GRAY, TARGET_GRAY, TARGET_GRAY, px[3]]
    }
}

/// Normalise an image to RGBA, whether it was greyscale, RGB or RGBA. Indexed
/// images aren't handled.
pub fn to_rgba(layout: PixelLayout, buf: &Vec<u8>) -> (r: Option<Vec<u8>>)
    requires
        buf.len() as nat % layout.stride() == 0,
        4 * buf.len() <= usize::MAX,
    ensures
        r is None <==> layout is Indexed,
        r matches Some(out) ==> {
            &&& out.len() == 4 * (buf.len() as nat / layout.stride())
            &&& forall|p: int|
                0 <= p < buf.len() as nat / layout.stride() ==> #[trigger] pixel_at(out@, p)
                    == rgba_pixel(layout, buf@, p)
        },
{
    let stride: usize = match layout {
        PixelLayout::Rgba => 4,
        PixelLayout::Rgb => 3,
        PixelLayout::GrayscaleAlpha => 2,
        PixelLayout::Grayscale => 1,
        PixelLayout::Indexed => {
            return None;
        },
    };
    let n: usize = buf.len() / stride;
    let mut out: Vec<u8> = Vec::with_capacity(4 * n);
    for p in 0..n
        invariant
            !(layout is Indexed),
            stride == layout.stride(),
            n == buf.len() / stride,
            stride * n == buf.len(),
            out.len() == 4 * p,
            4 * buf.len() <= usize::MAX,
            forall|k: int|
                0 <= k < p ==> #[trigger] pixel_at(out@, k) == rgba_pixel(layout, buf@, k),
    {
        let ghost before = out@;
        let (r, g, b, a) = match layout {
            PixelLayout::Rgba => (buf[4 * p], buf[4 * p + 1], buf[4 * p + 2], buf[4 * p + 3]),
            PixelLayout::Rgb => (buf[3 * p], buf[3 * p + 1], buf[3 * p + 2], 255),
            PixelLayout::GrayscaleAlpha => (buf[2 * p], buf[2 * p], buf[2 * p], buf[2 * p + 1]),
            _ => (buf[p], buf[p], buf[p], 255),
        };
        push_pixel(&mut out, r, g, b, a);
        proof {
            assert(pixel_at(out@, p as int) =~= rgba_pixel(layout, buf@, p as int));
            assert forall|k: int| 0 <= k < p implies #[trigger] pixel_at(out@, k) == rgba_pixel(
                layout,
                buf@,
                k,
            ) by {
                assert(pixel_at(out@, k) =~= pixel_at(before, k));
            }
        }
    }
    Some(out)
}

/// The four bytes of pixel `p` of an RGBA image.
pub open spec fn pixel_at(rgba: Seq<u8>, p: int) -> Seq<u8> {
    seq![rgba[4 * p], rgba[4 * p + 1], rgba[4 * p + 2], rgba[4 * p + 3]]
}

fn push_pixel(out: &mut Vec<u8>, r: u8, g: u8, b: u8, a: u8)
    ensures
        final(out)@ == old(out)@ + seq![r, g, b, a],
{
    let ghost before = out@;
    out.push(r);
    out.push(g);
    out.push(b);
    out.push(a);
    proof {
        assert(out@ =~= before + seq![r, g, b, a]);
    }
}

/// Recolour an RGBA image. Pixels with zero alpha stay that way, so the
/// background of the source doesn't accidentally become visible.
pub fn recolour(rgba: &Vec<u8>) -> (r: Vec<u8>)
    requires
        rgba.len() % 4 == 0,
    ensures
        r.len() == rgba.len(),
        forall|p: int|
            0 <= p < rgba.len() / 4 ==> #[trigger] pixel_at(r@, p) == recoloured_pixel(
                pixel_at(rgba@, p),
            ),
{
    let n: usize = rgba.len() / 4;
    let mut out: Vec<u8> = Vec::with_capacity(rgba.len());
    for p in 0..n
        invariant
            n == rgba.len() / 4,
            4 * n == rgba.len(),
            out.len() == 4 * p,
            forall|k: int|
                0 <= k < p ==> #[trigger] pixel_at(out@, k) == recoloured_pixel(
                    pixel_at(rgba@, k),
                ),
    {
        let ghost before = out@;
        let a: u8 = rgba[4 * p + 3];
        if a == 0 {
            push_pixel(&mut out, 0, 0, 0, 0);
        } else {
            push_pixel(&mut out, TARGET_GRAY, TARGET_GRAY, TARGET_GRAY, a);
        }
        proof {
            assert(pixel_at(out@, p as int) =~= recoloured_pixel(pixel_at(rgba@, p as int)));
            assert forall|k: int| 0 <= k < p implies #[trigger] pixel_at(out@, k)
                == recoloured_pixel(pixel_at(rgba@, k)) by {
                assert(pixel_at(out@, k) =~= pixel_at(before, k));
            }
        }
    }
    out
}

/// An image as it stands in a PNG: nothing expanded, no alpha added.
pub struct PlainImage {
    pub width: u32,
    pub height: u32,
    pub layout: PixelLayout,
    /// Bits per channel.
    pub bit_depth: u8,
    pub pixels: Vec<u8>,
}

impl PlainImage {
    /// Where a channel takes a byte, the bytes make up whole pixels.
    pub open spec fn wf(&self) -> bool {
        self.bit_depth == 8 ==> self.pixels.len() as nat % self.layout.stride() == 0
    }
}

/// What the first frame of a PNG decodes to as it stands: width, height, layout,
/// bits per channel and bytes. `None` where it is no valid PNG.
pub uninterp spec fn png_plain_frame(bytes: Seq<u8>) -> Option<
    (u32, u32, PixelLayout, u8, Seq<u8>),
>;

/// The PNG that an RGBA image with 8 bits per channel encodes to. `None` where the
/// encoder refuses it.
pub uninterp spec fn png_file(width: u32, height: u32, rgba: Seq<u8>) -> Option<Seq<u8>>;

/// `png::Decoder` without transformations: reads the header and decodes the first
/// frame. The result depends on the bytes alone. Lines of 8 bits per channel hold
/// whole pixels.
#[verifier::external_body]
pub(crate) fn decode_plain(bytes: &Vec<u8>) -> (r: Option<PlainImage>)
    ensures
        match r {
            Some(i) => i.wf() && png_plain_frame(bytes@) == Some(
                (i.width, i.height, i.layout, i.bit_depth, i.pixels@),
            ),
            None => png_plain_frame(bytes@) is None,
        },
{
    let mut reader = png::Decoder::new(std::io::Cursor::new(bytes)).read_info().ok()?;
    let mut pixels = vec![0u8; reader.output_buffer_size()?];
    let info = reader.next_frame(&mut pixels).ok()?;
    let layout = match info.color_type {
        png::ColorType::Rgba => PixelLayout::Rgba,
        png::ColorType::Rgb => PixelLayout::Rgb,
        png::ColorType::GrayscaleAlpha => PixelLayout::GrayscaleAlpha,
        png::ColorType::Grayscale => PixelLayout::Grayscale,
        png::ColorType::Indexed => PixelLayout::Indexed,
    };
    let (width, height, bit_depth) = (info.width, info.height, info.bit_depth as u8);
    Some(PlainImage { width, height, layout, bit_depth, pixels })
}

/// `png::Encoder`, set to RGBA with 8 bits per channel: writes the header and the
/// image. The result depends on the arguments alone.
#[verifier::external_body]
pub(crate) fn encode_rgba(width: u32, height: u32, rgba: &Vec<u8>) -> (r: Option<Vec<u8>>)
    requires
        rgba.len() == width * height * 4,
    ensures
        match r {
            Some(bytes) => png_file(width, height, rgba@) == Some(bytes@),
            None => png_file(width, height, rgba@) is None,
        },
{
    let mut bytes = Vec::new();
    let mut encoder = png::Encoder::new(&mut bytes, width, height);
    encoder.set_color(png::ColorType::Rgba);
    encoder.set_depth(png::BitDepth::Eight);
    let mut writer = encoder.write_header().ok()?;
    writer.write_image_data(rgba).ok()?;
    drop(writer);
    Some(bytes)
}

/// Why an icon was not recoloured.
#[derive(Clone, Copy, PartialEq, Eq, Structural, Debug)]
pub enum RecolourError {
    /// It is no valid PNG.
    Decode,
    /// Its channels have another number of bits than eight.
    BitDepth(u8),
    /// Indexed images aren't handled.
    Indexed,
    /// Its RGBA form is past what memory can address.
    TooLarge,
    /// The encoder refused the result.
    Encode,
}

/// The RGBA bytes of the silhouette of an image.
pub open spec fn silhouette_bytes(layout: PixelLayout, pixels: Seq<u8>) -> Seq<u8> {
    Seq::new(
        4 * (pixels.len() / layout.stride()),
        |i: int| recoloured_pixel(rgba_pixel(layout, pixels, i / 4))[i % 4],
    )
}

/// The silhouette of an image, or why there is none.
pub open spec fn silhouette_of(layout: PixelLayout, bit_depth: u8, pixels: Seq<u8>) -> Result<
    Seq<u8>,
    RecolourError,
> {
    if bit_depth != 8 {
        Err(RecolourError::BitDepth(bit_depth))
    } else if layout is Indexed {
        Err(RecolourError::Indexed)
    } else if 4 * pixels.len() > usize::MAX {
        Err(RecolourError::TooLarge)
    } else {
        Ok(silhouette_bytes(layout, pixels))
    }
}

/// Normalises a decoded image to RGBA and recolours it. Anything but 8 bits per
/// channel is refused, and so is an indexed image.
pub fn silhouette(image: &PlainImage) -> (r: Result<Vec<u8>, RecolourError>)
    requires
        image.wf(),
    ensures
        match r {
            Ok(rgba) => silhouette_of(image.layout, image.bit_depth, image.pixels@) == Ok::<
                Seq<u8>,
                RecolourError,
            >(rgba@),
            Err(e) => silhouette_of(image.layout, image.bit_depth, image.pixels@) == Err::<
                Seq<u8>,
                RecolourError,
            >(e),
        },
{
    if image.bit_depth != 8 {
        return Err(RecolourError::BitDepth(image.bit_depth));
    }
    if let PixelLayout::Indexed = image.layout {
        return Err(RecolourError::Indexed);
    }
    if image.pixels.len() > usize::MAX / 4 {
        return Err(RecolourError::TooLarge);
    }
    let rgba = match to_rgba(image.layout, &image.pixels) {
        Some(rgba) => rgba,
        None => {
            return Err(RecolourError::Indexed);
        },
    };
    let out = recolour(&rgba);
    proof {
        let wanted = silhouette_bytes(image.layout, image.pixels@);
        assert forall|i: int| 0 <= i < out.len() implies #[trigger] out@[i] == wanted[i] by {
            assert(out@[i] == pixel_at(out@, i / 4)[i % 4]);
            assert(pixel_at(rgba@, i / 4) == rgba_pixel(image.layout, image.pixels@, i / 4));
        }
        assert(out@ =~= wanted);
    }
    Ok(out)
}

/// The recoloured file of a PNG, or why there is none.
pub open spec fn recoloured_file(bytes: Seq<u8>) -> Result<Seq<u8>, RecolourError> {
    match png_plain_frame(bytes) {
        None => Err(RecolourError::Decode),
        Some((width, height, layout, bit_depth, pixels)) => match silhouette_of(
            layout,
            bit_depth,
            pixels,
        ) {
            Err(e) => Err(e),
            Ok(rgba) => if rgba.len() != width * height * 4 {
                Err(RecolourError::Encode)
            } else {
                match png_file(width, height, rgba) {
                    Some(file) => Ok(file),
                    None => Err(RecolourError::Encode),
                }
            },
        },
    }
}

/// Recolours an icon: from the bytes of one PNG to those of another, always RGBA.
pub fn recolour_png(bytes: &Vec<u8>) -> (r: Result<Vec<u8>, RecolourError>)
    ensures
        match r {
            Ok(file) => recoloured_file(bytes@) == Ok::<Seq<u8>, RecolourError>(file@),
            Err(e) => recoloured_file(bytes@) == Err::<Seq<u8>, RecolourError>(e),
        },
{
    let image = match decode_plain(bytes) {
        Some(image) => image,
        None => {
            return Err(RecolourError::Decode);
        },
    };
    let rgba = match silhouette(&image) {
        Ok(rgba) => rgba,
        Err(e) => {
            return Err(e);
        },
    };
    proof {
        assert(image.width * image.height <= 0xffff_ffff * 0xffff_ffff) by (nonlinear_arith)
            requires
                image.width <= 0xffff_ffff,
                image.height <= 0xffff_ffff,
        ;
    }
    let wanted: u128 = image.width as u128 * image.height as u128 * 4;
    if rgba.len() as u128 != wanted {
        return Err(RecolourError::Encode);
    }
    match encode_rgba(image.width, image.height, &rgba) {
        Some(file) => Ok(file),
        None => Err(RecolourError::Encode),
    }
}

/// Recolouring keeps every pixel's alpha, and a second pass changes nothing.
pub proof fn law_recolour_keeps_alpha(px: Seq<u8>)
    requires
        px.len() == 4,
    ensures
        recoloured_pixel(px)[3] == px[3],
        recoloured_pixel(recoloured_pixel(px)) == recoloured_pixel(px),
{
}

}
