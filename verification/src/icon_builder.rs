//! The icon compositor: digits laid onto a small canvas, tinted green while
//! charging and red from the bottom up as the battery drains faster.

use crate::icon_image::{
    blank, lemma_byte_position, lemma_pixel_position, pixel_index, IconImage, Raster,
};
use crate::image_ops::{
    decoded_as, gradient_byte_law, gradient_pixels, guess_format, guessed_format, load_with_format,
    overlaid_pixels, overlay, overlay_byte_law, resampled, resize, resize_fits, to_rgba8,
    vertical_gradient, Resampling,
};
use vstd::prelude::*;

verus! {

/// The icon is a square of this many pixels a side.
pub const ICON_WIDTH: u32 = 64;

pub const ICON_HEIGHT: u32 = 64;

/// Empty columns left and right of the digits.
pub const ICON_MARGIN_W: u32 = 0;

/// Empty rows above and below the digits.
pub const ICON_MARGIN_H: u32 = 4;

/// Empty columns between the two digits.
pub const ICON_DIGIT_GAP_W: u32 = 8;

/// The width of one digit's cell.
pub const DIGIT_WIDTH: u32 = (ICON_WIDTH - ICON_DIGIT_GAP_W) / 2 - ICON_MARGIN_W;

/// The height of every glyph.
pub const GLYPH_HEIGHT: u32 = ICON_HEIGHT - 2 * ICON_MARGIN_H;

/// The width of the glyph that reads "100".
pub const HUNDRED_WIDTH: u32 = ICON_WIDTH - 2 * ICON_MARGIN_W;

/// How many rows the green gradient moves up while the battery drains although
/// it is charging.
pub const WEAK_CHARGER_SHIFT: i32 = 15;

/// How much a digit's bitmap is blown up before it is fitted to its cell.
pub const DIGIT_UPSCALE: u32 = 8;

/// How much the bitmap of "100" is blown up before it is fitted to its cell.
pub const HUNDRED_UPSCALE: u32 = 4;

/// One channel of a pixel under a multiply blend: the product of base and
/// tint, scaled back to a byte.
pub open spec fn multiply_channel(base: u8, tint: u8) -> u8 {
    ((base as int * tint as int) / 255) as u8
}

/// Byte `i` of `image` after `overlay` has been multiplied onto it with the
/// overlay's top left corner at (`x_offset`, `y_offset`): a colour channel of a
/// pixel that the overlay covers is blended with the overlay's; alpha, and
/// every pixel that the overlay does not cover, stays.
pub open spec fn multiplied_byte(
    image: Raster,
    overlay: Raster,
    x_offset: int,
    y_offset: int,
    i: int,
) -> u8 {
    let channel = i % 4;
    let over_x = image.column_of(i) - x_offset;
    let over_y = image.row_of(i) - y_offset;
    if channel < 3 && 0 <= over_x < overlay.width && 0 <= over_y < overlay.height {
        multiply_channel(
            image.pixels[i],
            overlay.pixels[pixel_index(overlay.width as int, over_x, over_y, channel)],
        )
    } else {
        image.pixels[i]
    }
}

/// `image` after `overlay` has been multiplied onto it at an offset.
pub open spec fn multiplied(image: Raster, overlay: Raster, x_offset: int, y_offset: int) -> Raster {
    Raster {
        width: image.width,
        height: image.height,
        pixels: Seq::new(
            image.pixels.len(),
            |i: int| multiplied_byte(image, overlay, x_offset, y_offset, i),
        ),
    }
}

/// Whether the pixel that byte `i` belongs to comes before (`x`, `y`) when the
/// raster is walked row by row.
pub open spec fn walked(image: Raster, x: int, y: int, i: int) -> bool {
    image.row_of(i) < y || (image.row_of(i) == y && image.column_of(i) < x)
}

/// The bytes of an image while a blend walks it: blended before (`x`, `y`),
/// untouched from there on.
pub open spec fn blended_until(
    now: Seq<u8>,
    image: Raster,
    overlay: Raster,
    x_offset: int,
    y_offset: int,
    x: int,
    y: int,
) -> bool {
    &&& now.len() == image.pixels.len()
    &&& forall|i: int|
        0 <= i < now.len() ==> #[trigger] now[i] == if walked(image, x, y, i) {
            multiplied_byte(image, overlay, x_offset, y_offset, i)
        } else {
            image.pixels[i]
        }
}

/// One channel of a pixel under a multiply blend.
pub fn multiply_blend(base: u8, tint: u8) -> (blended: u8)
    ensures
        blended == multiply_channel(base, tint),
{
    assert(base * tint <= 255 * 255) by (nonlinear_arith)
        requires
            base <= 255,
            tint <= 255,
    ;
    ((base as u16 * tint as u16) / 255) as u8
}

/// Multiplies `overlay` onto `img`, the overlay's top left corner at
/// (`x_offset`, `y_offset`): where the two overlap, each colour channel of
/// `img` becomes `base * overlay / 255`. Alpha is left as it is.
pub fn image_overlay_multiply(img: &mut IconImage, overlay: &IconImage, x_offset: i32, y_offset: i32)
    requires
        old(img).wf(),
        overlay.wf(),
    ensures
        final(img).wf(),
        final(img)@ == multiplied(old(img)@, overlay@, x_offset as int, y_offset as int),
{
    let ghost before = img@;
    let ghost over = overlay@;
    let ghost xo = x_offset as int;
    let ghost yo = y_offset as int;
    let width: i64 = img.width as i64;
    let height: i64 = img.height as i64;
    let over_width: i64 = overlay.width as i64;
    let over_height: i64 = overlay.height as i64;

    // The part of the image that the overlay covers.
    let start_x: i64 = if x_offset > 0 { x_offset as i64 } else { 0 };
    let start_y: i64 = if y_offset > 0 { y_offset as i64 } else { 0 };
    let reach_x: i64 = x_offset as i64 + over_width;
    let reach_y: i64 = y_offset as i64 + over_height;
    let end_x: i64 = if reach_x < width { reach_x } else { width };
    let end_y: i64 = if reach_y < height { reach_y } else { height };

    if start_x >= end_x || start_y >= end_y {
        proof {
            assert forall|i: int| 0 <= i < before.pixels.len() implies multiplied_byte(
                before,
                over,
                xo,
                yo,
                i,
            ) == before.pixels[i] by {
                lemma_byte_position(before, i);
            }
            assert(img@.pixels =~= multiplied(before, over, xo, yo).pixels);
        }
        return ;
    }
    let len: usize = img.pixels.len();
    let over_len: usize = overlay.pixels.len();
    let mut y: i64 = start_y;
    while y < end_y
        invariant
            before.wf(),
            over.wf(),
            over == overlay@,
            before.width == width,
            before.height == height,
            over.width == over_width,
            over.height == over_height,
            xo == x_offset,
            yo == y_offset,
            0 <= start_x < end_x <= width,
            start_x == if xo > 0 { xo } else { 0 },
            end_x == if xo + over_width < width { xo + over_width } else { width as int },
            0 <= start_y <= y <= end_y <= height,
            start_y == if yo > 0 { yo } else { 0 },
            end_y == if yo + over_height < height { yo + over_height } else { height as int },
            img.width == before.width,
            img.height == before.height,
            len == before.pixels.len(),
            over_len == over.pixels.len(),
            blended_until(img.pixels@, before, over, xo, yo, 0, y as int),
        decreases end_y - y,
    {
        let mut x: i64 = start_x;
        proof {
            assert forall|i: int| 0 <= i < len implies #[trigger] img.pixels@[i] == if walked(
                before,
                x as int,
                y as int,
                i,
            ) {
                multiplied_byte(before, over, xo, yo, i)
            } else {
                before.pixels[i]
            } by {
                lemma_byte_position(before, i);
            }
        }
        while x < end_x
            invariant
                before.wf(),
                over.wf(),
                over == overlay@,
                before.width == width,
                before.height == height,
                over.width == over_width,
                over.height == over_height,
                xo == x_offset,
                yo == y_offset,
                0 <= start_x <= x <= end_x <= width,
                start_x == if xo > 0 { xo } else { 0 },
                end_x == if xo + over_width < width { xo + over_width } else { width as int },
                0 <= start_y <= y < end_y <= height,
                start_y == if yo > 0 { yo } else { 0 },
                end_y == if yo + over_height < height { yo + over_height } else { height as int },
                img.width == before.width,
                img.height == before.height,
                len == before.pixels.len(),
                len == img.pixels@.len(),
                over_len == over.pixels.len(),
                blended_until(img.pixels@, before, over, xo, yo, x as int, y as int),
            decreases end_x - x,
        {
            let over_x: i64 = x - x_offset as i64;
            let over_y: i64 = y - y_offset as i64;
            proof {
                lemma_pixel_position(before, x as int, y as int, 0);
                lemma_pixel_position(before, x as int, y as int, 3);
                lemma_pixel_position(over, over_x as int, over_y as int, 0);
                lemma_pixel_position(over, over_x as int, over_y as int, 3);
                assert(0 <= y * width) by (nonlinear_arith)
                    requires
                        0 <= y,
                        0 <= width,
                ;
                assert(0 <= over_y * over_width) by (nonlinear_arith)
                    requires
                        0 <= over_y,
                        0 <= over_width,
                ;
            }
            let at: usize = ((y as usize) * (width as usize) + (x as usize)) * 4;
            let over_at: usize = ((over_y as usize) * (over_width as usize) + (over_x as usize))
                * 4;
            let ghost earlier = img.pixels@;
            let red: u8 = multiply_blend(img.pixels[at], overlay.pixels[over_at]);
            let green: u8 = multiply_blend(img.pixels[at + 1], overlay.pixels[over_at + 1]);
            let blue: u8 = multiply_blend(img.pixels[at + 2], overlay.pixels[over_at + 2]);
            img.pixels.set(at, red);
            img.pixels.set(at + 1, green);
            img.pixels.set(at + 2, blue);
            proof {
                assert forall|i: int| 0 <= i < len implies #[trigger] img.pixels@[i] == if walked(
                    before,
                    x + 1,
                    y as int,
                    i,
                ) {
                    multiplied_byte(before, over, xo, yo, i)
                } else {
                    before.pixels[i]
                } by {
                    lemma_byte_position(before, i);
                    if i / 4 == at / 4 {
                        lemma_pixel_position(before, x as int, y as int, i % 4);
                        lemma_pixel_position(over, over_x as int, over_y as int, i % 4);
                        assert(earlier[i] == before.pixels[i]);
                    } else {
                        assert(img.pixels@[i] == earlier[i]);
                    }
                }
            }
            x += 1;
        }
        proof {
            assert forall|i: int| 0 <= i < len implies #[trigger] img.pixels@[i] == if walked(
                before,
                0,
                y + 1,
                i,
            ) {
                multiplied_byte(before, over, xo, yo, i)
            } else {
                before.pixels[i]
            } by {
                lemma_byte_position(before, i);
            }
        }
        y += 1;
    }
    proof {
        assert forall|i: int| 0 <= i < len implies img.pixels@[i] == multiplied_byte(
            before,
            over,
            xo,
            yo,
            i,
        ) by {
            lemma_byte_position(before, i);
        }
        assert(img@.pixels =~= multiplied(before, over, xo, yo).pixels);
    }
}

/// Why a set of glyphs could not be made.
#[derive(Debug, Clone, Copy, PartialEq, Eq, Structural)]
pub enum AssetError {
    /// A bitmap could not be decoded.
    Undecodable,
    /// A bitmap is so large that this machine cannot hold it scaled up.
    TooLarge,
    /// There are not ten digit glyphs, or a glyph does not fill its cell.
    WrongSize,
}

/// The glyphs and gradients that icons are made from.
pub struct Assets {
    /// The glyphs of the digits 0 to 9.
    pub digits: Seq<Raster>,
    /// The glyph that reads "100".
    pub hundred: Raster,
    /// The tint of a charging battery.
    pub green: Raster,
    /// The tint of a draining battery.
    pub red: Raster,
}

/// Whether a raster is well formed and of the given size.
pub open spec fn fills(raster: Raster, width: int, height: int) -> bool {
    raster.wf() && raster.width == width && raster.height == height
}

/// Whether there are ten digit glyphs, each filling a digit's cell, and a
/// glyph for "100" that fills the icon's width.
pub open spec fn glyphs_fit(digits: Seq<Raster>, hundred: Raster) -> bool {
    &&& digits.len() == 10
    &&& forall|d: int|
        0 <= d < 10 ==> fills(#[trigger] digits[d], DIGIT_WIDTH as int, GLYPH_HEIGHT as int)
    &&& fills(hundred, HUNDRED_WIDTH as int, GLYPH_HEIGHT as int)
}

/// The colour of the green gradient's top row: pure green.
pub open spec fn green_top() -> Seq<u8> {
    seq![0u8, 255u8, 0u8, 255u8]
}

/// The colour of the green gradient's bottom row: white.
pub open spec fn green_bottom() -> Seq<u8> {
    seq![255u8, 255u8, 255u8, 255u8]
}

/// The colour of the red gradient's top row: pale red.
pub open spec fn red_top() -> Seq<u8> {
    seq![255u8, 200u8, 200u8, 255u8]
}

/// The colour of the red gradient's bottom row: pure red.
pub open spec fn red_bottom() -> Seq<u8> {
    seq![255u8, 0u8, 0u8, 255u8]
}

/// Whether a raster is a gradient for the icon: of the icon's size, each row
/// of one colour, the top and bottom rows of the colours given, and steady in
/// every channel in which those two agree.
pub open spec fn is_gradient(raster: Raster, top: Seq<u8>, bottom: Seq<u8>) -> bool {
    &&& fills(raster, ICON_WIDTH as int, ICON_HEIGHT as int)
    &&& forall|i: int|
        0 <= i < raster.pixels.len() ==> #[trigger] gradient_byte_law(
            ICON_WIDTH as nat,
            ICON_HEIGHT as nat,
            top,
            bottom,
            raster.pixels,
            i,
        )
}

impl Assets {
    pub open spec fn wf(self) -> bool {
        &&& glyphs_fit(self.digits, self.hundred)
        &&& is_gradient(self.green, green_top(), green_bottom())
        &&& is_gradient(self.red, red_top(), red_bottom())
    }
}

/// The green gradient: from pure green in the top row to white in the bottom
/// row.
pub open spec fn green_gradient() -> Raster {
    Raster {
        width: ICON_WIDTH as nat,
        height: ICON_HEIGHT as nat,
        pixels: gradient_pixels(
            ICON_WIDTH as nat,
            ICON_HEIGHT as nat,
            green_top(),
            green_bottom(),
        ),
    }
}

/// The red gradient: from pale red in the top row to pure red in the bottom
/// row.
pub open spec fn red_gradient() -> Raster {
    Raster {
        width: ICON_WIDTH as nat,
        height: ICON_HEIGHT as nat,
        pixels: gradient_pixels(
            ICON_WIDTH as nat,
            ICON_HEIGHT as nat,
            red_top(),
            red_bottom(),
        ),
    }
}

/// `bottom` with `top` composited onto it, the top left corner of `top` at
/// (`x`, `y`).
pub open spec fn overlaid(bottom: Raster, top: Raster, x: int, y: int) -> Raster {
    Raster { width: bottom.width, height: bottom.height, pixels: overlaid_pixels(bottom, top, x, y) }
}

/// A percentage brought into the range from 0 to 100.
pub open spec fn shown_percentage(percentage: int) -> int {
    if percentage < 0 {
        0
    } else if percentage > 100 {
        100
    } else {
        percentage
    }
}

/// The untinted icon: on an empty canvas, the glyph for "100", or else the tens
/// digit flush with the left margin and the ones digit flush with the right.
pub open spec fn digits_layer(assets: Assets, percentage: int) -> Raster {
    let canvas = blank(ICON_WIDTH as nat, ICON_HEIGHT as nat);
    let shown = shown_percentage(percentage);
    if shown == 100 {
        overlaid(canvas, assets.hundred, ICON_MARGIN_W as int, ICON_MARGIN_H as int)
    } else {
        let tens = assets.digits[shown / 10];
        let ones = assets.digits[shown % 10];
        overlaid(
            overlaid(canvas, tens, ICON_MARGIN_W as int, ICON_MARGIN_H as int),
            ones,
            ICON_WIDTH - ones.width - ICON_MARGIN_W,
            ICON_MARGIN_H as int,
        )
    }
}

/// The glyph that lies over the pixel in column `x` and row `y` of the icon
/// for a percentage, with the column and row of the glyph's pixel there; none
/// over the margins and over the gap between two digits.
pub open spec fn covering_glyph(assets: Assets, percentage: int, x: int, y: int) -> Option<
    (Raster, int, int),
> {
    let shown = shown_percentage(percentage);
    let glyph_y = y - ICON_MARGIN_H;
    if !(0 <= glyph_y < GLYPH_HEIGHT) {
        None
    } else if shown == 100 {
        if ICON_MARGIN_W <= x < ICON_MARGIN_W + HUNDRED_WIDTH {
            Some((assets.hundred, x - ICON_MARGIN_W, glyph_y))
        } else {
            None
        }
    } else if ICON_MARGIN_W <= x < ICON_MARGIN_W + DIGIT_WIDTH {
        Some((assets.digits[shown / 10], x - ICON_MARGIN_W, glyph_y))
    } else if ICON_WIDTH - ICON_MARGIN_W - DIGIT_WIDTH <= x < ICON_WIDTH - ICON_MARGIN_W {
        Some((assets.digits[shown % 10], x - (ICON_WIDTH - ICON_MARGIN_W - DIGIT_WIDTH), glyph_y))
    } else {
        None
    }
}

/// What is known of byte `i` of the untinted icon: it is zero where no glyph
/// lies over its pixel or the glyph is transparent there, and the glyph's own
/// byte where the glyph is opaque there.
pub open spec fn digits_byte_law(assets: Assets, percentage: int, layer: Raster, i: int) -> bool {
    match covering_glyph(assets, percentage, layer.column_of(i), layer.row_of(i)) {
        None => layer.pixels[i] == 0,
        Some((glyph, x, y)) => {
            let alpha = glyph.pixels[pixel_index(glyph.width as int, x, y, 3)];
            &&& alpha == 0 ==> layer.pixels[i] == 0
            &&& alpha == 255 ==> layer.pixels[i] == glyph.pixels[pixel_index(
                glyph.width as int,
                x,
                y,
                i % 4,
            )]
        },
    }
}

/// How many rows, from the bottom, the red tint covers: the icon's height
/// times the rate in percent, the rate taken as 100 at most, rounded to the
/// nearest row.
pub open spec fn red_fill_height(rate: int) -> int {
    let capped = if rate > 100 {
        100
    } else {
        rate
    };
    (capped * ICON_HEIGHT + 50) / 100
}

/// An icon with the green tint on it where the battery is charging: the whole
/// gradient, or the gradient moved up by `WEAK_CHARGER_SHIFT` rows where the
/// battery drains all the same.
pub open spec fn green_layer(assets: Assets, base: Raster, rate: int, charging: bool) -> Raster {
    if !charging {
        base
    } else if rate > 0 {
        multiplied(base, assets.green, 0, -WEAK_CHARGER_SHIFT)
    } else {
        multiplied(base, assets.green, 0, 0)
    }
}

/// An icon with the red tint on it where the battery drains: the top of the
/// gradient over the bottom `red_fill_height` rows.
pub open spec fn red_layer(assets: Assets, base: Raster, rate: int) -> Raster {
    if rate > 0 {
        multiplied(base, assets.red, 0, ICON_HEIGHT - red_fill_height(rate))
    } else {
        base
    }
}

/// The icon for a battery state: digits first, then green, then red.
pub open spec fn percentage_icon(assets: Assets, percentage: int, rate: int, charging: bool) -> Raster {
    red_layer(assets, green_layer(assets, digits_layer(assets, percentage), rate, charging), rate)
}

/// The picture that an encoded image decodes to, as eight-bit RGBA: the format
/// is read off the first bytes, and the bytes are decoded as that format.
/// `None` where the format is not one that this crate decodes or the decoding
/// fails.
pub open spec fn decoded(bytes: Seq<u8>) -> Option<Raster> {
    match guessed_format(bytes) {
        Some(format) => decoded_as(bytes, format),
        None => None,
    }
}

/// Whether this machine can hold a bitmap of the given size while it is made
/// into a glyph: its sides times `upscale` are 32-bit numbers, and both the
/// blowing up and the fitting to `width` by `height` can allocate their rasters.
pub open spec fn scalable(
    bitmap_width: int,
    bitmap_height: int,
    upscale: int,
    width: int,
    height: int,
) -> bool {
    &&& upscale * bitmap_width <= u32::MAX
    &&& upscale * bitmap_height <= u32::MAX
    &&& resize_fits(bitmap_width, upscale * bitmap_width, upscale * bitmap_height)
    &&& resize_fits(upscale * bitmap_width, width, height)
}

/// Whether `glyph` is a glyph made from an encoded bitmap: the bitmap decodes,
/// and `glyph` is what resampling may give when the decoded bitmap is first
/// blown up `upscale` times by nearest neighbour and the result then fitted
/// smoothly to `width` by `height`.
pub open spec fn made_from(bytes: Seq<u8>, upscale: int, width: int, height: int, glyph: Raster) -> bool {
    match decoded(bytes) {
        Some(bitmap) => exists|large: Raster|
            #[trigger] resampled(
                bitmap,
                (upscale * bitmap.width) as nat,
                (upscale * bitmap.height) as nat,
                Resampling::Nearest,
                large,
            ) && resampled(large, width as nat, height as nat, Resampling::Lanczos3, glyph),
        None => false,
    }
}

/// What stands in the way of making a glyph from an encoded bitmap, if
/// anything does: that it does not decode, or that it is too large to scale.
pub open spec fn glyph_failure(bytes: Seq<u8>, upscale: int, width: int, height: int) -> Option<
    AssetError,
> {
    match decoded(bytes) {
        None => Some(AssetError::Undecodable),
        Some(bitmap) => if scalable(
            bitmap.width as int,
            bitmap.height as int,
            upscale,
            width,
            height,
        ) {
            None
        } else {
            Some(AssetError::TooLarge)
        },
    }
}

/// What stands in the way of making a digit's glyph from an encoded bitmap.
pub open spec fn digit_failure(bytes: Seq<u8>) -> Option<AssetError> {
    glyph_failure(bytes, DIGIT_UPSCALE as int, DIGIT_WIDTH as int, GLYPH_HEIGHT as int)
}

/// What stands in the way of making the glyph for "100" from an encoded
/// bitmap.
pub open spec fn hundred_failure(bytes: Seq<u8>) -> Option<AssetError> {
    glyph_failure(bytes, HUNDRED_UPSCALE as int, HUNDRED_WIDTH as int, GLYPH_HEIGHT as int)
}

/// The failure of the first digit bitmap, in the order given, that has one.
pub open spec fn first_digit_failure(files: Seq<Seq<u8>>) -> Option<AssetError>
    decreases files.len(),
{
    if files.len() == 0 {
        None
    } else {
        match digit_failure(files[0]) {
            Some(e) => Some(e),
            None => first_digit_failure(files.drop_first()),
        }
    }
}

/// The failure of the first bitmap that has one: the digits in their order,
/// then "100".
pub open spec fn first_asset_failure(digit_files: Seq<Seq<u8>>, hundred_file: Seq<u8>) -> Option<
    AssetError,
> {
    match first_digit_failure(digit_files) {
        Some(e) => Some(e),
        None => hundred_failure(hundred_file),
    }
}

/// The bytes of each of a row of encoded bitmaps.
pub open spec fn file_bytes(files: Seq<&[u8]>) -> Seq<Seq<u8>> {
    Seq::new(files.len(), |i: int| files[i]@)
}

/// `first_digit_failure` is the failure of the bitmap at `at` where none
/// before it has one, and is nothing where no bitmap has one.
pub proof fn lemma_first_digit_failure(files: Seq<Seq<u8>>, at: int)
    requires
        0 <= at <= files.len(),
        forall|j: int| 0 <= j < at ==> digit_failure(#[trigger] files[j]) is None,
    ensures
        at < files.len() && digit_failure(files[at]) is Some ==> first_digit_failure(files)
            == digit_failure(files[at]),
        at == files.len() ==> first_digit_failure(files) is None,
    decreases at,
{
    if at > 0 {
        let rest = files.drop_first();
        assert(digit_failure(files[0]) is None);
        assert forall|j: int| 0 <= j < at - 1 implies digit_failure(#[trigger] rest[j]) is None by {
            assert(rest[j] == files[j + 1]);
        }
        lemma_first_digit_failure(rest, at - 1);
        if at < files.len() {
            assert(rest[at - 1] == files[at]);
        }
    }
}

/// Decodes an encoded bitmap into an image: reads the format off the first
/// bytes and decodes the bytes as that format.
pub fn load_digit_image(bytes: &[u8]) -> (outcome: Result<IconImage, AssetError>)
    ensures
        match outcome {
            Ok(image) => image.wf() && decoded(bytes@) == Some(image@),
            Err(e) => e == AssetError::Undecodable && decoded(bytes@) is None,
        },
{
    let format = match guess_format(bytes) {
        Ok(Some(format)) => format,
        Ok(None) => {
            return Err(AssetError::Undecodable);
        },
        Err(_) => {
            return Err(AssetError::Undecodable);
        },
    };
    match load_with_format(bytes, format) {
        Ok(picture) => {
            let (width, height, pixels) = to_rgba8(&picture);
            match IconImage::from_raw(width, height, pixels) {
                Some(image) => Ok(image),
                // Cannot arise: a decoded picture holds four bytes a pixel.
                None => Err(AssetError::Undecodable),
            }
        },
        Err(_) => Err(AssetError::Undecodable),
    }
}

/// The product of three 32-bit numbers.
fn product(a: u32, b: u32, c: u32) -> (p: u128)
    ensures
        p == a * b * c,
{
    assert(a * b <= 0xffff_ffff * 0xffff_ffff) by (nonlinear_arith)
        requires
            a <= 0xffff_ffff,
            b <= 0xffff_ffff,
    ;
    let ab: u128 = (a as u128) * (b as u128);
    assert(ab * c <= 0xffff_ffff * 0xffff_ffff * 0xffff_ffff) by (nonlinear_arith)
        requires
            ab <= 0xffff_ffff * 0xffff_ffff,
            c <= 0xffff_ffff,
    ;
    ab * (c as u128)
}

/// Whether this machine can hold a bitmap while it is made into a glyph.
fn can_scale(bitmap_width: u32, bitmap_height: u32, upscale: u32, width: u32, height: u32) -> (ok:
    bool)
    requires
        upscale <= 8,
    ensures
        ok == scalable(
            bitmap_width as int,
            bitmap_height as int,
            upscale as int,
            width as int,
            height as int,
        ),
{
    let most: u128 = isize::MAX as u128;
    let wide: u128 = product(upscale, bitmap_width, 1);
    let high: u128 = product(upscale, bitmap_height, 1);
    assert(upscale * upscale <= 64) by (nonlinear_arith)
        requires
            upscale <= 8,
    ;
    let blown_up: u128 = product(upscale * upscale, bitmap_width, bitmap_height);
    let columns: u128 = product(upscale, bitmap_width, height);
    let rows: u128 = product(bitmap_width, upscale, bitmap_height);
    let cell: u128 = product(width, height, 1);
    proof {
        let (w, h, u) = (bitmap_width as int, bitmap_height as int, upscale as int);
        assert(4 * (u * w) * (u * h) == 4 * (u * u * w * h)) by (nonlinear_arith);
        assert(16 * (u * w) * height == 16 * (u * w * height)) by (nonlinear_arith);
        assert(16 * w * (u * h) == 16 * (w * u * h)) by (nonlinear_arith);
        assert(4 * width * height == 4 * (width * height * 1)) by (nonlinear_arith);
        assert(u * w * 1 == u * w && u * h * 1 == u * h) by (nonlinear_arith);
    }
    wide <= u32::MAX as u128 && high <= u32::MAX as u128 && rows <= most / 16 && blown_up <= most
        / 4 && columns <= most / 16 && cell <= most / 4
}

/// Makes a glyph of the size wanted from an encoded bitmap: the bitmap is
/// blown up `upscale` times pixel by pixel, which keeps its edges hard, and
/// then fitted to the cell smoothly.
fn load_glyph(bytes: &[u8], upscale: u32, width: u32, height: u32) -> (outcome: Result<
    IconImage,
    AssetError,
>)
    requires
        upscale <= 8,
    ensures
        match outcome {
            Ok(glyph) => {
                &&& glyph_failure(bytes@, upscale as int, width as int, height as int) is None
                &&& fills(glyph@, width as int, height as int)
                &&& made_from(bytes@, upscale as int, width as int, height as int, glyph@)
            },
            Err(e) => glyph_failure(bytes@, upscale as int, width as int, height as int) == Some(
                e,
            ),
        },
{
    let bitmap = load_digit_image(bytes)?;
    let bitmap_width = bitmap.width();
    let bitmap_height = bitmap.height();
    if !can_scale(bitmap_width, bitmap_height, upscale, width, height) {
        return Err(AssetError::TooLarge);
    }
    let large = resize(
        &bitmap,
        upscale * bitmap_width,
        upscale * bitmap_height,
        Resampling::Nearest,
    );
    let glyph = resize(&large, width, height, Resampling::Lanczos3);
    assert(resampled(
        bitmap@,
        (upscale * bitmap@.width) as nat,
        (upscale * bitmap@.height) as nat,
        Resampling::Nearest,
        large@,
    ));
    Ok(glyph)
}

/// Holds the glyphs and gradients, made once, that every icon is drawn from.
pub struct IconBuilder {
    icon_digit_images: Vec<IconImage>,
    icon_100_image: IconImage,
    green_gradient_overlay: IconImage,
    red_gradient_overlay: IconImage,
}

impl View for IconBuilder {
    type V = Assets;

    closed spec fn view(&self) -> Assets {
        Assets {
            digits: Seq::new(
                self.icon_digit_images@.len(),
                |d: int| self.icon_digit_images@[d]@,
            ),
            hundred: self.icon_100_image@,
            green: self.green_gradient_overlay@,
            red: self.red_gradient_overlay@,
        }
    }
}

impl IconBuilder {
    /// The builder's invariant: every glyph has its size, and both gradients
    /// are gradients.
    pub open spec fn wf(&self) -> bool {
        self@.wf()
    }

    /// Decodes the bitmaps of the ten digits and of "100", scales each to its
    /// cell, and makes the two gradients. A builder results whenever every
    /// bitmap decodes and this machine can hold it scaled up; else the failure
    /// of the first bitmap that cannot be used.
    ///
    /// Each glyph is made from the bitmap of its own digit (`made_from`), as far
    /// as the resampling fixes what it looks like; the gradients are
    /// `green_gradient` and `red_gradient`.
    pub fn new(digit_files: [&[u8]; 10], hundred_file: &[u8]) -> (outcome: Result<Self, AssetError>)
        ensures
            match outcome {
                Ok(builder) => {
                    &&& first_asset_failure(file_bytes(digit_files@), hundred_file@) is None
                    &&& builder.wf()
                    &&& forall|d: int|
                        0 <= d < 10 ==> made_from(
                            file_bytes(digit_files@)[d],
                            DIGIT_UPSCALE as int,
                            DIGIT_WIDTH as int,
                            GLYPH_HEIGHT as int,
                            #[trigger] builder@.digits[d],
                        )
                    &&& made_from(
                        hundred_file@,
                        HUNDRED_UPSCALE as int,
                        HUNDRED_WIDTH as int,
                        GLYPH_HEIGHT as int,
                        builder@.hundred,
                    )
                    &&& builder@.green == green_gradient()
                    &&& builder@.red == red_gradient()
                },
                Err(e) => first_asset_failure(file_bytes(digit_files@), hundred_file@) == Some(e),
            },
    {
        let ghost files = file_bytes(digit_files@);
        let mut digits: Vec<IconImage> = Vec::new();
        let mut d: usize = 0;
        while d < 10
            invariant
                d <= 10,
                files == file_bytes(digit_files@),
                digits@.len() == d,
                forall|j: int| 0 <= j < d ==> digit_failure(#[trigger] files[j]) is None,
                forall|j: int|
                    0 <= j < d ==> fills(
                        (#[trigger] digits@[j])@,
                        DIGIT_WIDTH as int,
                        GLYPH_HEIGHT as int,
                    ) && made_from(
                        files[j],
                        DIGIT_UPSCALE as int,
                        DIGIT_WIDTH as int,
                        GLYPH_HEIGHT as int,
                        digits@[j]@,
                    ),
            decreases 10 - d,
        {
            assert(files[d as int] == digit_files@[d as int]@);
            match load_glyph(digit_files[d], DIGIT_UPSCALE, DIGIT_WIDTH, GLYPH_HEIGHT) {
                Ok(glyph) => {
                    digits.push(glyph);
                },
                Err(e) => {
                    proof {
                        lemma_first_digit_failure(files, d as int);
                    }
                    return Err(e);
                },
            }
            d += 1;
        }
        proof {
            lemma_first_digit_failure(files, 10);
        }
        let hundred = load_glyph(hundred_file, HUNDRED_UPSCALE, HUNDRED_WIDTH, GLYPH_HEIGHT)?;
        match IconBuilder::from_glyphs(digits, hundred) {
            Ok(builder) => Ok(builder),
            Err(e) => Err(e),
        }
    }

    /// A builder over glyphs that are already of their size, with the two
    /// gradients made anew. Fails where there are not ten digits or a glyph
    /// does not fill its cell.
    pub fn from_glyphs(digits: Vec<IconImage>, hundred: IconImage) -> (outcome: Result<
        Self,
        AssetError,
    >)
        requires
            forall|d: int| 0 <= d < digits@.len() ==> (#[trigger] digits@[d]).wf(),
            hundred.wf(),
        ensures
            match outcome {
                Ok(builder) => {
                    &&& builder.wf()
                    &&& builder@ == (Assets {
                        digits: Seq::new(digits@.len(), |d: int| digits@[d]@),
                        hundred: hundred@,
                        green: green_gradient(),
                        red: red_gradient(),
                    })
                },
                Err(e) => {
                    &&& e == AssetError::WrongSize
                    &&& !glyphs_fit(Seq::new(digits@.len(), |d: int| digits@[d]@), hundred@)
                },
            },
    {
        let ghost glyphs = Seq::new(digits@.len(), |d: int| digits@[d]@);
        if digits.len() != 10 || hundred.width() != HUNDRED_WIDTH || hundred.height()
            != GLYPH_HEIGHT {
            return Err(AssetError::WrongSize);
        }
        let mut d: usize = 0;
        while d < 10
            invariant
                d <= 10,
                digits@.len() == 10,
                glyphs == Seq::new(digits@.len(), |d: int| digits@[d]@),
                forall|j: int| 0 <= j < 10 ==> (#[trigger] digits@[j]).wf(),
                forall|j: int|
                    0 <= j < d ==> fills(#[trigger] glyphs[j], DIGIT_WIDTH as int, GLYPH_HEIGHT as int),
            decreases 10 - d,
        {
            if digits[d].width() != DIGIT_WIDTH || digits[d].height() != GLYPH_HEIGHT {
                assert(!fills(glyphs[d as int], DIGIT_WIDTH as int, GLYPH_HEIGHT as int));
                return Err(AssetError::WrongSize);
            }
            d += 1;
        }
        let green_start: [u8; 4] = [0, 255, 0, 255];
        let green_stop: [u8; 4] = [255, 255, 255, 255];
        let red_start: [u8; 4] = [255, 200, 200, 255];
        let red_stop: [u8; 4] = [255, 0, 0, 255];
        proof {
            assert(green_start@ =~= green_top());
            assert(green_stop@ =~= green_bottom());
            assert(red_start@ =~= red_top());
            assert(red_stop@ =~= red_bottom());
        }
        let green_gradient_overlay = vertical_gradient(
            ICON_WIDTH,
            ICON_HEIGHT,
            green_start,
            green_stop,
        );
        let red_gradient_overlay = vertical_gradient(ICON_WIDTH, ICON_HEIGHT, red_start, red_stop);
        let builder = IconBuilder {
            icon_digit_images: digits,
            icon_100_image: hundred,
            green_gradient_overlay,
            red_gradient_overlay,
        };
        assert(builder@.digits =~= glyphs);
        Ok(builder)
    }

    /// The glyph of one digit.
    pub fn digit_image(&self, digit: usize) -> (glyph: &IconImage)
        requires
            self.wf(),
            digit < 10,
        ensures
            glyph@ == self@.digits[digit as int],
            glyph.wf(),
    {
        assert(fills(self@.digits[digit as int], DIGIT_WIDTH as int, GLYPH_HEIGHT as int));
        &self.icon_digit_images[digit]
    }

    /// The glyph that reads "100".
    pub fn hundred_image(&self) -> (glyph: &IconImage)
        ensures
            glyph@ == self@.hundred,
    {
        &self.icon_100_image
    }

    /// The tint of a charging battery.
    pub fn green_gradient_overlay(&self) -> (gradient: &IconImage)
        ensures
            gradient@ == self@.green,
    {
        &self.green_gradient_overlay
    }

    /// The tint of a draining battery.
    pub fn red_gradient_overlay(&self) -> (gradient: &IconImage)
        ensures
            gradient@ == self@.red,
    {
        &self.red_gradient_overlay
    }

    /// Draws the digits of a percentage onto an empty canvas: the glyph for
    /// "100", or the tens digit on the left and the ones digit on the right.
    /// Margins and gap stay transparent, and an opaque pixel of a glyph comes
    /// out as it is.
    pub fn draw_digits(&self, percentage: i32) -> (layer: IconImage)
        requires
            self.wf(),
        ensures
            layer.wf(),
            layer@ == digits_layer(self@, percentage as int),
            layer@.width == ICON_WIDTH,
            layer@.height == ICON_HEIGHT,
            forall|i: int|
                0 <= i < layer@.pixels.len() ==> #[trigger] digits_byte_law(
                    self@,
                    percentage as int,
                    layer@,
                    i,
                ),
    {
        let p: u32 = if percentage < 0 {
            0
        } else if percentage > 100 {
            100
        } else {
            percentage as u32
        };
        let mut icon_image = IconImage::new(ICON_WIDTH, ICON_HEIGHT);
        let ghost canvas = icon_image@;
        if p == 100 {
            overlay(
                &mut icon_image,
                &self.icon_100_image,
                ICON_MARGIN_W as i64,
                ICON_MARGIN_H as i64,
            );
            assert forall|i: int| 0 <= i < icon_image@.pixels.len() implies #[trigger] digits_byte_law(
                self@,
                percentage as int,
                icon_image@,
                i,
            ) by {
                lemma_byte_position(icon_image@, i);
                assert(overlay_byte_law(canvas, self@.hundred, 0, 4, icon_image@.pixels, i));
            }
        } else {
            let tens_img = &self.icon_digit_images[(p / 10) as usize];
            let ones_img = &self.icon_digit_images[(p % 10) as usize];
            assert(tens_img@ == self@.digits[(p / 10) as int]);
            assert(ones_img@ == self@.digits[(p % 10) as int]);
            let x1: u32 = ICON_MARGIN_W;
            let x2: u32 = ICON_WIDTH - ones_img.width() - ICON_MARGIN_W;
            overlay(&mut icon_image, tens_img, x1 as i64, ICON_MARGIN_H as i64);
            let ghost left = icon_image@;
            overlay(&mut icon_image, ones_img, x2 as i64, ICON_MARGIN_H as i64);
            assert forall|i: int| 0 <= i < icon_image@.pixels.len() implies #[trigger] digits_byte_law(
                self@,
                percentage as int,
                icon_image@,
                i,
            ) by {
                lemma_byte_position(icon_image@, i);
                assert(overlay_byte_law(canvas, tens_img@, 0, 4, left.pixels, i));
                assert(overlay_byte_law(left, ones_img@, 36, 4, icon_image@.pixels, i));
            }
        }
        icon_image
    }

    /// Draws the icon for a battery state: the percentage in digits, tinted
    /// green while charging and red, from the bottom up, the faster the battery
    /// drains. Nothing of the builder changes, and the same state gives the
    /// same icon. Whatever the tints, margins and gap stay transparent.
    pub fn create_percentage_icon(
        &self,
        percentage: i32,
        discharge_rate_percent: i32,
        is_charging: bool,
    ) -> (icon: IconImage)
        requires
            self.wf(),
        ensures
            icon.wf(),
            icon@.width == ICON_WIDTH,
            icon@.height == ICON_HEIGHT,
            icon@ == percentage_icon(
                self@,
                percentage as int,
                discharge_rate_percent as int,
                is_charging,
            ),
            forall|i: int|
                0 <= i < icon@.pixels.len() && covering_glyph(
                    self@,
                    percentage as int,
                    icon@.column_of(i),
                    icon@.row_of(i),
                ) is None ==> #[trigger] icon@.pixels[i] == 0,
    {
        let mut icon_image = self.draw_digits(percentage);
        let ghost layer = icon_image@;

        if is_charging {
            if discharge_rate_percent > 0 {
                // Draining although plugged in: a weak charger. Dim the green.
                image_overlay_multiply(
                    &mut icon_image,
                    &self.green_gradient_overlay,
                    0,
                    -WEAK_CHARGER_SHIFT,
                );
            } else {
                image_overlay_multiply(&mut icon_image, &self.green_gradient_overlay, 0, 0);
            }
        }
        if discharge_rate_percent > 0 {
            let capped: u32 = if discharge_rate_percent > 100 {
                100
            } else {
                discharge_rate_percent as u32
            };
            let fill_height: u32 = (capped * ICON_HEIGHT + 50) / 100;
            image_overlay_multiply(
                &mut icon_image,
                &self.red_gradient_overlay,
                0,
                (ICON_HEIGHT - fill_height) as i32,
            );
        }
        proof {
            assert forall|i: int|
                0 <= i < icon_image@.pixels.len() && covering_glyph(
                    self@,
                    percentage as int,
                    icon_image@.column_of(i),
                    icon_image@.row_of(i),
                ) is None implies #[trigger] icon_image@.pixels[i] == 0 by {
                assert(digits_byte_law(self@, percentage as int, layer, i));
                lemma_tints_keep_zero(
                    self@,
                    percentage as int,
                    discharge_rate_percent as int,
                    is_charging,
                    i,
                );
            }
        }
        icon_image
    }
}

/// The tints leave a zero byte zero: nothing times anything is nothing.
pub proof fn lemma_tints_keep_zero(
    assets: Assets,
    percentage: int,
    rate: int,
    charging: bool,
    i: int,
)
    requires
        0 <= i < digits_layer(assets, percentage).pixels.len(),
        digits_layer(assets, percentage).pixels[i] == 0,
    ensures
        percentage_icon(assets, percentage, rate, charging).pixels[i] == 0,
{
    let base = digits_layer(assets, percentage);
    let green = green_layer(assets, base, rate, charging);
    assert(green.pixels.len() == base.pixels.len());
    assert(green.pixels[i] == 0);
}

/// The gradients' top and bottom rows: pure green down to white, pale red
/// down to pure red. Green is full in every row of the green gradient, red in
/// every row of the red one, and both gradients are opaque throughout.
pub proof fn lemma_gradient_rows(assets: Assets, x: int, y: int, channel: int)
    requires
        assets.wf(),
        0 <= x < ICON_WIDTH,
        0 <= y < ICON_HEIGHT,
        0 <= channel < 4,
    ensures
        y == 0 ==> assets.green.pixels[pixel_index(ICON_WIDTH as int, x, y, channel)]
            == green_top()[channel],
        y == 0 ==> assets.red.pixels[pixel_index(ICON_WIDTH as int, x, y, channel)]
            == red_top()[channel],
        y == ICON_HEIGHT - 1 ==> assets.green.pixels[pixel_index(
            ICON_WIDTH as int,
            x,
            y,
            channel,
        )] == green_bottom()[channel],
        y == ICON_HEIGHT - 1 ==> assets.red.pixels[pixel_index(ICON_WIDTH as int, x, y, channel)]
            == red_bottom()[channel],
        channel == 1 || channel == 3 ==> assets.green.pixels[pixel_index(
            ICON_WIDTH as int,
            x,
            y,
            channel,
        )] == 255,
        channel == 0 || channel == 3 ==> assets.red.pixels[pixel_index(
            ICON_WIDTH as int,
            x,
            y,
            channel,
        )] == 255,
{
    let i = pixel_index(ICON_WIDTH as int, x, y, channel);
    lemma_pixel_position(assets.green, x, y, channel);
    lemma_pixel_position(assets.red, x, y, channel);
    assert(gradient_byte_law(
        ICON_WIDTH as nat,
        ICON_HEIGHT as nat,
        green_top(),
        green_bottom(),
        assets.green.pixels,
        i,
    ));
    assert(gradient_byte_law(
        ICON_WIDTH as nat,
        ICON_HEIGHT as nat,
        red_top(),
        red_bottom(),
        assets.red.pixels,
        i,
    ));
}

/// A full battery is drawn from the glyph for "100" alone: two sets of assets
/// that differ only in their digits give the same icon.
pub proof fn lemma_full_charge_ignores_digits(
    a: Assets,
    b: Assets,
    percentage: int,
    rate: int,
    charging: bool,
)
    requires
        percentage >= 100,
        a.hundred == b.hundred,
        a.green == b.green,
        a.red == b.red,
    ensures
        percentage_icon(a, percentage, rate, charging) == percentage_icon(
            b,
            percentage,
            rate,
            charging,
        ),
{
}

/// Below 100 the icon holds two digits at fixed places: the tens digit from
/// column 0, the ones digit from column 36, both from row 4. The glyph for
/// "100" plays no part.
pub proof fn lemma_digit_placement(assets: Assets, percentage: int)
    requires
        assets.wf(),
        percentage < 100,
    ensures
        0 <= shown_percentage(percentage) / 10 < 10,
        0 <= shown_percentage(percentage) % 10 < 10,
        digits_layer(assets, percentage) == overlaid(
            overlaid(blank(64, 64), assets.digits[shown_percentage(percentage) / 10], 0, 4),
            assets.digits[shown_percentage(percentage) % 10],
            36,
            4,
        ),
{
}

/// A multiply blend never touches alpha: every fourth byte stays as it was.
pub proof fn lemma_multiply_keeps_alpha(
    image: Raster,
    overlay: Raster,
    x_offset: int,
    y_offset: int,
    i: int,
)
    requires
        0 <= i < image.pixels.len(),
        i % 4 == 3,
    ensures
        multiplied(image, overlay, x_offset, y_offset).pixels[i] == image.pixels[i],
{
}

/// The tints leave the icon's size and its alpha as the digits made them.
pub proof fn lemma_tints_keep_alpha(
    assets: Assets,
    percentage: int,
    rate: int,
    charging: bool,
    i: int,
)
    requires
        0 <= i < digits_layer(assets, percentage).pixels.len(),
        i % 4 == 3,
    ensures
        percentage_icon(assets, percentage, rate, charging).width == ICON_WIDTH,
        percentage_icon(assets, percentage, rate, charging).height == ICON_HEIGHT,
        percentage_icon(assets, percentage, rate, charging).pixels.len() == digits_layer(
            assets,
            percentage,
        ).pixels.len(),
        percentage_icon(assets, percentage, rate, charging).pixels[i] == digits_layer(
            assets,
            percentage,
        ).pixels[i],
{
    let base = digits_layer(assets, percentage);
    let green = green_layer(assets, base, rate, charging);
    assert(green.pixels.len() == base.pixels.len());
    assert(green.pixels[i] == base.pixels[i]);
}

/// The red tint rises with the rate and covers the whole icon from 100
/// percentage points per hour on.
pub proof fn lemma_red_fill_height(rate: int, faster: int)
    requires
        0 < rate <= faster,
    ensures
        0 <= red_fill_height(rate) <= red_fill_height(faster) <= ICON_HEIGHT,
        faster >= 100 ==> red_fill_height(faster) == ICON_HEIGHT,
{
}

} // verus!
