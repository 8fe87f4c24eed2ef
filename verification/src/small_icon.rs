//! The plain icon: two small digits side by side, nothing else.

use crate::icon_image::{pixel_index, IconImage, Raster};
use vstd::prelude::*;

verus! {

/// The width, in pixels, that each digit takes in the plain icon.
pub const SMALL_DIGIT_WIDTH: u32 = 3;

/// The height of the plain icon.
pub const SMALL_ICON_HEIGHT: u32 = 5;

/// The width of the plain icon: two digits.
pub const SMALL_ICON_WIDTH: u32 = 6;

/// Why the plain icon could not be made.
#[derive(Debug, Clone, Copy, PartialEq, Eq, Structural)]
pub enum SmallIconError {
    /// The image for the tens or for the ones is smaller than a digit's cell.
    DigitTooSmall,
}

/// Whether a digit's image covers a digit's cell.
pub open spec fn covers_cell(digit: Raster) -> bool {
    digit.width >= SMALL_DIGIT_WIDTH && digit.height >= SMALL_ICON_HEIGHT
}

/// Byte `i` of the plain icon: from the top left of `tens` in the left half,
/// from the top left of `ones` in the right half.
pub open spec fn side_by_side_byte(tens: Raster, ones: Raster, i: int) -> u8 {
    let channel = i % 4;
    let x = (i / 4) % 6;
    let y = (i / 4) / 6;
    if x < 3 {
        tens.pixels[pixel_index(tens.width as int, x, y, channel)]
    } else {
        ones.pixels[pixel_index(ones.width as int, x - 3, y, channel)]
    }
}

/// The bytes of the plain icon, row by row, four to a pixel.
pub open spec fn side_by_side(tens: Raster, ones: Raster) -> Seq<u8> {
    Seq::new(120, |i: int| side_by_side_byte(tens, ones, i))
}

/// The tens and the ones of a percentage: the two digit images that its plain
/// icon is made of, in the order in which they are wanted. From 100 on, the
/// tens are ten or more.
pub fn percentage_digits(percentage: u8) -> (digits: (u8, u8))
    ensures
        digits.0 == percentage / 10,
        digits.1 == percentage % 10,
{
    (percentage / 10, percentage % 10)
}

/// The plain icon: the image for the tens beside the image for the ones, as raw
/// RGBA bytes. Of each image the top left corner is taken.
pub fn create_percentage_icon(tens_img: &IconImage, ones_img: &IconImage) -> (outcome: Result<
    Vec<u8>,
    SmallIconError,
>)
    requires
        tens_img.wf(),
        ones_img.wf(),
    ensures
        match outcome {
            Ok(bytes) => {
                &&& covers_cell(tens_img@)
                &&& covers_cell(ones_img@)
                &&& bytes@ == side_by_side(tens_img@, ones_img@)
            },
            Err(SmallIconError::DigitTooSmall) => !(covers_cell(tens_img@) && covers_cell(
                ones_img@,
            )),
        },
{
    if tens_img.width() < SMALL_DIGIT_WIDTH || tens_img.height() < SMALL_ICON_HEIGHT
        || ones_img.width() < SMALL_DIGIT_WIDTH || ones_img.height() < SMALL_ICON_HEIGHT {
        return Err(SmallIconError::DigitTooSmall);
    }
    let mut raw_data: Vec<u8> = Vec::new();
    let mut y: u32 = 0;
    while y < SMALL_ICON_HEIGHT
        invariant
            y <= SMALL_ICON_HEIGHT,
            tens_img.wf(),
            ones_img.wf(),
            covers_cell(tens_img@),
            covers_cell(ones_img@),
            raw_data@.len() == y * 24,
            forall|i: int|
                0 <= i < raw_data@.len() ==> #[trigger] raw_data@[i] == side_by_side_byte(
                    tens_img@,
                    ones_img@,
                    i,
                ),
        decreases SMALL_ICON_HEIGHT - y,
    {
        let mut x: u32 = 0;
        while x < SMALL_ICON_WIDTH
            invariant
                y < SMALL_ICON_HEIGHT,
                x <= SMALL_ICON_WIDTH,
                tens_img.wf(),
                ones_img.wf(),
                covers_cell(tens_img@),
                covers_cell(ones_img@),
                raw_data@.len() == y * 24 + x * 4,
                forall|i: int|
                    0 <= i < raw_data@.len() ==> #[trigger] raw_data@[i] == side_by_side_byte(
                        tens_img@,
                        ones_img@,
                        i,
                    ),
            decreases SMALL_ICON_WIDTH - x,
        {
            let pixel: [u8; 4] = if x < SMALL_DIGIT_WIDTH {
                tens_img.get_pixel(x, y)
            } else {
                ones_img.get_pixel(x - SMALL_DIGIT_WIDTH, y)
            };
            let ghost earlier = raw_data@;
            raw_data.push(pixel[0]);
            raw_data.push(pixel[1]);
            raw_data.push(pixel[2]);
            raw_data.push(pixel[3]);
            assert forall|i: int| 0 <= i < raw_data@.len() implies #[trigger] raw_data@[i]
                == side_by_side_byte(tens_img@, ones_img@, i) by {
                if i >= earlier.len() {
                    assert((i / 4) % 6 == x && (i / 4) / 6 == y);
                } else {
                    assert(raw_data@[i] == earlier[i]);
                }
            }
            x += 1;
        }
        y += 1;
    }
    assert(raw_data@ =~= side_by_side(tens_img@, ones_img@));
    Ok(raw_data)
}

} // verus!
