//! What this crate has from the `image` crate: decoding, resampling, gradients
//! and alpha compositing. Nothing here is proved. Each function states what the
//! `image` crate's source shows of the call it makes.

use crate::icon_image::{pixel_index, IconImage, Raster};
use vstd::prelude::*;

verus! {

#[verifier::external_type_specification]
#[verifier::external_body]
pub struct ExImageError(image::ImageError);

#[verifier::external_type_specification]
#[verifier::external_body]
pub struct ExDynamicImage(image::DynamicImage);

/// The encodings that this crate decodes.
#[derive(Debug, Clone, Copy, PartialEq, Eq, Structural)]
pub enum BitmapFormat {
    Bmp,
    Png,
}

/// How `resize` fills in the pixels of the new raster.
#[derive(Debug, Clone, Copy, PartialEq, Eq, Structural)]
pub enum Resampling {
    /// Each new pixel takes the value of the nearest old one.
    Nearest,
    /// Each new pixel is a windowed-sinc average over three lobes.
    Lanczos3,
}

/// The eight bytes that every PNG file begins with.
pub open spec fn png_signature() -> Seq<u8> {
    seq![0x89u8, 0x50u8, 0x4eu8, 0x47u8, 0x0du8, 0x0au8, 0x1au8, 0x0au8]
}

/// The two bytes that every BMP file begins with.
pub open spec fn bmp_signature() -> Seq<u8> {
    seq![0x42u8, 0x4du8]
}

/// The format that `image::guess_format` reads off the first bytes of an
/// encoded image, where it is one that this crate decodes: PNG or BMP by the
/// file's signature, nothing else.
pub open spec fn guessed_format(bytes: Seq<u8>) -> Option<BitmapFormat> {
    if png_signature().is_prefix_of(bytes) {
        Some(BitmapFormat::Png)
    } else if bmp_signature().is_prefix_of(bytes) {
        Some(BitmapFormat::Bmp)
    } else {
        None
    }
}

/// The picture, as eight-bit RGBA, that `image::load_from_memory_with_format`
/// decodes from an encoded image; `None` where it reports an error.
pub uninterp spec fn decoded_as(bytes: Seq<u8>, format: BitmapFormat) -> Option<Raster>;

/// What a decoded picture holds, as eight-bit RGBA: what
/// `DynamicImage::to_rgba8` makes of it.
pub uninterp spec fn picture_rgba(picture: image::DynamicImage) -> Raster;

/// Whether `result` is a raster that `image::imageops::resize` may return for
/// the source, the size and the filter given. The smooth filter weighs pixels
/// by sines, whose last bits differ from one platform to the next, so that the
/// result is not a function of the arguments; this relation stands for what
/// the call can give.
pub uninterp spec fn resampled(
    source: Raster,
    width: nat,
    height: nat,
    how: Resampling,
    result: Raster,
) -> bool;

/// The bytes of a raster `width` by `height` after
/// `image::imageops::vertical_gradient` has filled it from `start` in the top
/// row to `stop` in the bottom row.
pub uninterp spec fn gradient_pixels(width: nat, height: nat, start: Seq<u8>, stop: Seq<u8>) -> Seq<
    u8,
>;

/// The bytes of `bottom` after `image::imageops::overlay` has composited `top`
/// onto it with the top left corner of `top` at (`x`, `y`).
pub uninterp spec fn overlaid_pixels(bottom: Raster, top: Raster, x: int, y: int) -> Seq<u8>;

/// Whether `resize` can allocate what it needs for a source `from_width` wide
/// and a target `width` by `height`: an intermediate raster of `from_width` by
/// `height` pixels of four 32-bit floats, and the target of four bytes a pixel,
/// neither above the most that a vector holds.
pub open spec fn resize_fits(from_width: int, width: int, height: int) -> bool {
    16 * from_width * height <= isize::MAX && 4 * width * height <= isize::MAX
}

/// What the source of `vertical_gradient` shows of byte `i` of what it fills:
/// every pixel of a row has the colour of the row's first pixel, the top row
/// has the start colour, the bottom row has the stop colour, and a channel
/// that starts and stops at one value has that value in every row.
pub open spec fn gradient_byte_law(
    width: nat,
    height: nat,
    start: Seq<u8>,
    stop: Seq<u8>,
    filled: Seq<u8>,
    i: int,
) -> bool {
    let raster = Raster { width, height, pixels: filled };
    &&& filled[i] == filled[pixel_index(width as int, 0, raster.row_of(i), i % 4)]
    &&& raster.row_of(i) == 0 ==> filled[i] == start[i % 4]
    &&& raster.row_of(i) == height - 1 ==> filled[i] == stop[i % 4]
    &&& start[i % 4] == stop[i % 4] ==> filled[i] == start[i % 4]
}

/// What the source of `overlay` shows of byte `i` of what it leaves: a pixel
/// that `top` does not cover stays; a pixel under a wholly transparent pixel of
/// `top` stays; a pixel under a wholly opaque pixel of `top` becomes that pixel.
pub open spec fn overlay_byte_law(
    bottom: Raster,
    top: Raster,
    x: int,
    y: int,
    left: Seq<u8>,
    i: int,
) -> bool {
    let over_x = bottom.column_of(i) - x;
    let over_y = bottom.row_of(i) - y;
    if 0 <= over_x < top.width && 0 <= over_y < top.height {
        let alpha = top.pixels[pixel_index(top.width as int, over_x, over_y, 3)];
        &&& alpha == 0 ==> left[i] == bottom.pixels[i]
        &&& alpha == 255 ==> left[i] == top.pixels[pixel_index(
            top.width as int,
            over_x,
            over_y,
            i % 4,
        )]
    } else {
        left[i] == bottom.pixels[i]
    }
}

/// Calls `image::guess_format`, which compares the first bytes with a fixed
/// table of signatures, PNG's first and BMP's behind none that begins as it
/// does. The result is `guessed_format`: the format found where it is BMP or
/// PNG, nothing for any other format, and the crate's error where it knows
/// none.
#[verifier::external_body]
pub(crate) fn guess_format(bytes: &[u8]) -> (outcome: Result<Option<BitmapFormat>, image::ImageError>)
    ensures
        match outcome {
            Ok(found) => guessed_format(bytes@) == found,
            Err(_) => guessed_format(bytes@) is None,
        },
{
    match image::guess_format(bytes) {
        Ok(image::ImageFormat::Bmp) => Ok(Some(BitmapFormat::Bmp)),
        Ok(image::ImageFormat::Png) => Ok(Some(BitmapFormat::Png)),
        Ok(_) => Ok(None),
        Err(e) => Err(e),
    }
}

/// Calls `image::load_from_memory_with_format`, which decodes with the
/// built-in decoder of the format given. What the picture holds is a function
/// of the bytes and the format alone, named `decoded_as`. A picture that comes
/// from a decoder holds four bytes for each pixel once it is brought to RGBA:
/// the decoder's buffer is allocated to the picture's exact size.
#[verifier::external_body]
pub(crate) fn load_with_format(bytes: &[u8], format: BitmapFormat) -> (outcome: Result<
    image::DynamicImage,
    image::ImageError,
>)
    ensures
        match outcome {
            Ok(picture) => {
                &&& decoded_as(bytes@, format) == Some(picture_rgba(picture))
                &&& picture_rgba(picture).wf()
            },
            Err(_) => decoded_as(bytes@, format) is None,
        },
{
    let format = match format {
        BitmapFormat::Bmp => image::ImageFormat::Bmp,
        BitmapFormat::Png => image::ImageFormat::Png,
    };
    image::load_from_memory_with_format(bytes, format)
}

/// Calls `DynamicImage::to_rgba8`. The result, as width, height and bytes, is
/// what the picture holds. Nothing is claimed of how many bytes there are.
#[verifier::external_body]
pub(crate) fn to_rgba8(picture: &image::DynamicImage) -> (rgba: (u32, u32, Vec<u8>))
    ensures
        picture_rgba(*picture) == (Raster {
            width: rgba.0 as nat,
            height: rgba.1 as nat,
            pixels: rgba.2@,
        }),
{
    let buffer = picture.to_rgba8();
    (buffer.width(), buffer.height(), buffer.into_raw())
}

/// Calls `image::imageops::resize`. The new raster has the size asked for and
/// is one that `resize` may return for these arguments (`resampled`). Left out
/// are the sizes for which `resize` cannot allocate its rasters.
#[verifier::external_body]
pub(crate) fn resize(image: &IconImage, width: u32, height: u32, how: Resampling) -> (resized:
    IconImage)
    requires
        image.wf(),
        resize_fits(image@.width as int, width as int, height as int),
    ensures
        resized.wf(),
        resized@.width == width,
        resized@.height == height,
        resampled(image@, width as nat, height as nat, how, resized@),
{
    let source =
        image::RgbaImage::from_raw(image.width, image.height, image.pixels.clone()).unwrap();
    let filter = match how {
        Resampling::Nearest => image::imageops::FilterType::Nearest,
        Resampling::Lanczos3 => image::imageops::FilterType::Lanczos3,
    };
    let buffer = image::imageops::resize(&source, width, height, filter);
    IconImage { width: buffer.width(), height: buffer.height(), pixels: buffer.into_raw() }
}

/// Calls `image::imageops::vertical_gradient` on a fresh raster. The result
/// has the size asked for and the pixels named `gradient_pixels`, of which the
/// source shows what `gradient_byte_law` says. A raster one row high is left out: there the crate divides zero by
/// zero and panics.
#[verifier::external_body]
pub(crate) fn vertical_gradient(width: u32, height: u32, start: [u8; 4], stop: [u8; 4]) -> (filled:
    IconImage)
    requires
        height != 1,
        width * height * 4 <= isize::MAX,
    ensures
        filled.wf(),
        filled@ == (Raster {
            width: width as nat,
            height: height as nat,
            pixels: gradient_pixels(width as nat, height as nat, start@, stop@),
        }),
        forall|i: int|
            0 <= i < filled@.pixels.len() ==> #[trigger] gradient_byte_law(
                width as nat,
                height as nat,
                start@,
                stop@,
                filled@.pixels,
                i,
            ),
{
    let mut buffer = image::RgbaImage::new(width, height);
    image::imageops::vertical_gradient(&mut buffer, &image::Rgba(start), &image::Rgba(stop));
    IconImage { width, height, pixels: buffer.into_raw() }
}

/// Calls `image::imageops::overlay`. The bottom raster keeps its size and
/// holds the pixels named `overlaid_pixels`, of which the source shows what
/// `overlay_byte_law` says: only pixels that `top` covers change, none under a
/// transparent pixel, and an opaque pixel replaces what it covers.
#[verifier::external_body]
pub(crate) fn overlay(bottom: &mut IconImage, top: &IconImage, x: i64, y: i64)
    requires
        old(bottom).wf(),
        top.wf(),
    ensures
        final(bottom).wf(),
        final(bottom)@ == (Raster {
            width: old(bottom)@.width,
            height: old(bottom)@.height,
            pixels: overlaid_pixels(old(bottom)@, top@, x as int, y as int),
        }),
        forall|i: int|
            0 <= i < final(bottom)@.pixels.len() ==> #[trigger] overlay_byte_law(
                old(bottom)@,
                top@,
                x as int,
                y as int,
                final(bottom)@.pixels,
                i,
            ),
{
    let pixels = std::mem::take(&mut bottom.pixels);
    let mut under = image::RgbaImage::from_raw(bottom.width, bottom.height, pixels).unwrap();
    let over = image::RgbaImage::from_raw(top.width, top.height, top.pixels.clone()).unwrap();
    image::imageops::overlay(&mut under, &over, x, y);
    bottom.pixels = under.into_raw();
}

} // verus!
