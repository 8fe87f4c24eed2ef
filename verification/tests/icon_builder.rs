use battery_tray::icon_builder::{
    image_overlay_multiply, load_digit_image, multiply_blend, AssetError, IconBuilder, DIGIT_WIDTH,
    GLYPH_HEIGHT, HUNDRED_WIDTH, ICON_HEIGHT, ICON_WIDTH,
};
use battery_tray::icon_image::IconImage;

const W: usize = ICON_WIDTH as usize;
const H: usize = ICON_HEIGHT as usize;

/// An encoded bitmap of one colour.
fn bmp(width: u32, height: u32, color: [u8; 4]) -> Vec<u8> {
    let picture = image::RgbaImage::from_pixel(width, height, image::Rgba(color));
    let mut out = std::io::Cursor::new(Vec::new());
    picture.write_to(&mut out, image::ImageFormat::Bmp).unwrap();
    out.into_inner()
}

fn digit_color(digit: usize) -> [u8; 4] {
    [20 * digit as u8 + 10, 250 - 20 * digit as u8, 100 + digit as u8, 255]
}

const HUNDRED_COLOR: [u8; 4] = [240, 230, 220, 255];

/// A builder made from bitmaps, each digit in a colour of its own.
fn builder_from_bitmaps() -> IconBuilder {
    let files: Vec<Vec<u8>> = (0..10).map(|d| bmp(3, 5, digit_color(d))).collect();
    let hundred = bmp(16, 14, HUNDRED_COLOR);
    new_builder(&files, &hundred).unwrap()
}

fn new_builder(files: &[Vec<u8>], hundred: &[u8]) -> Result<IconBuilder, AssetError> {
    IconBuilder::new(
        [
            &files[0], &files[1], &files[2], &files[3], &files[4], &files[5], &files[6], &files[7],
            &files[8], &files[9],
        ],
        hundred,
    )
}

/// An opaque glyph whose every pixel tells its place: (tag, column, row).
fn patterned(tag: u8, width: u32, height: u32) -> IconImage {
    let mut bytes = Vec::new();
    for y in 0..height {
        for x in 0..width {
            bytes.extend_from_slice(&[tag, 100 + x as u8, 150 + y as u8, 255]);
        }
    }
    IconImage::from_raw(width, height, bytes).unwrap()
}

/// A builder over patterned glyphs: digit `d` has the tag `d + 1`, or `d + 101` in a second set;
/// "100" has the tag 200.
fn builder_from_patterns(second_set: bool) -> IconBuilder {
    let shift = if second_set { 101 } else { 1 };
    let digits = (0..10).map(|d| patterned(d + shift, DIGIT_WIDTH, GLYPH_HEIGHT)).collect();
    IconBuilder::from_glyphs(digits, patterned(200, HUNDRED_WIDTH, GLYPH_HEIGHT)).unwrap()
}

fn pixel(bytes: &[u8], width: usize, x: usize, y: usize) -> [u8; 4] {
    let at = (y * width + x) * 4;
    [bytes[at], bytes[at + 1], bytes[at + 2], bytes[at + 3]]
}

/// The bytes of `base` after a multiply blend, worked out pixel by pixel.
fn multiplied(
    base: &[u8],
    (width, height): (i64, i64),
    over: &[u8],
    (over_width, over_height): (i64, i64),
    (x_offset, y_offset): (i64, i64),
) -> Vec<u8> {
    let mut out = base.to_vec();
    for y in 0..height {
        for x in 0..width {
            let (ox, oy) = (x - x_offset, y - y_offset);
            if ox < 0 || oy < 0 || ox >= over_width || oy >= over_height {
                continue;
            }
            for c in 0..3 {
                let at = ((y * width + x) * 4 + c) as usize;
                let over_at = ((oy * over_width + ox) * 4 + c) as usize;
                out[at] = ((base[at] as u32 * over[over_at] as u32) / 255) as u8;
            }
        }
    }
    out
}

/// The untinted icon of two digits of the patterned builder.
fn two_digits(tens: u8, ones: u8) -> Vec<u8> {
    let mut out = vec![0u8; W * H * 4];
    for y in 0..GLYPH_HEIGHT as usize {
        for x in 0..DIGIT_WIDTH as usize {
            let left = ((y + 4) * W + x) * 4;
            out[left..left + 4].copy_from_slice(&[tens + 1, 100 + x as u8, 150 + y as u8, 255]);
            let right = ((y + 4) * W + x + 36) * 4;
            out[right..right + 4].copy_from_slice(&[ones + 1, 100 + x as u8, 150 + y as u8, 255]);
        }
    }
    out
}

/// The untinted icon of a full battery of the patterned builder.
fn full_charge() -> Vec<u8> {
    let mut out = vec![0u8; W * H * 4];
    for y in 0..GLYPH_HEIGHT as usize {
        for x in 0..HUNDRED_WIDTH as usize {
            let at = ((y + 4) * W + x) * 4;
            out[at..at + 4].copy_from_slice(&[200, 100 + x as u8, 150 + y as u8, 255]);
        }
    }
    out
}

fn tinted(base: &[u8], over: &IconImage, y_offset: i64) -> Vec<u8> {
    multiplied(base, (64, 64), over.as_raw(), (64, 64), (0, y_offset))
}

#[test]
fn multiply_blend_is_product_over_255() {
    assert_eq!(multiply_blend(0, 0), 0);
    assert_eq!(multiply_blend(0, 255), 0);
    assert_eq!(multiply_blend(255, 0), 0);
    assert_eq!(multiply_blend(255, 255), 255);
    assert_eq!(multiply_blend(255, 128), 128);
    assert_eq!(multiply_blend(200, 128), 100);
    assert_eq!(multiply_blend(128, 128), 64);
    assert_eq!(multiply_blend(1, 254), 0);
    assert_eq!(multiply_blend(254, 254), 253);
    for base in 0..=255u8 {
        for tint in 0..=255u8 {
            assert_eq!(multiply_blend(base, tint) as u32, base as u32 * tint as u32 / 255);
        }
    }
}

#[test]
fn overlay_multiply_blends_colour_and_keeps_alpha() {
    let mut img = IconImage::from_raw(2, 1, vec![200, 100, 50, 77, 255, 255, 255, 0]).unwrap();
    let over = IconImage::from_raw(2, 1, vec![128, 255, 0, 9, 10, 20, 30, 40]).unwrap();
    image_overlay_multiply(&mut img, &over, 0, 0);
    assert_eq!(img.as_raw(), &vec![100, 100, 0, 77, 10, 20, 30, 0]);
    assert_eq!(img.width(), 2);
    assert_eq!(img.height(), 1);
}

#[test]
fn overlay_multiply_covers_only_the_overlap() {
    let base: Vec<u8> = (0..4 * 3 * 4).map(|i| 255 - i as u8).collect();
    let over: Vec<u8> = (0..2 * 2 * 4).map(|i| 40 + 13 * i as u8).collect();
    let offsets: [(i32, i32); 12] = [
        (0, 0),
        (1, 1),
        (2, 1),
        (3, 2),
        (-1, -1),
        (-1, 2),
        (4, 0),
        (0, 3),
        (-2, 0),
        (0, -2),
        (i32::MAX, i32::MAX),
        (i32::MIN, i32::MIN),
    ];
    for (x, y) in offsets {
        let mut img = IconImage::from_raw(4, 3, base.clone()).unwrap();
        let overlay = IconImage::from_raw(2, 2, over.clone()).unwrap();
        image_overlay_multiply(&mut img, &overlay, x, y);
        let wanted = multiplied(&base, (4, 3), &over, (2, 2), (x as i64, y as i64));
        assert_eq!(img.as_raw(), &wanted, "offset ({}, {})", x, y);
    }
    // Outside the image nothing changes at all.
    for (x, y) in [(4, 0), (0, 3), (-2, 0), (0, -2)] {
        let mut img = IconImage::from_raw(4, 3, base.clone()).unwrap();
        image_overlay_multiply(&mut img, &IconImage::from_raw(2, 2, over.clone()).unwrap(), x, y);
        assert_eq!(img.as_raw(), &base);
    }
}

#[test]
fn overlay_multiply_with_a_larger_overlay() {
    let base: Vec<u8> = (0..2 * 2 * 4).map(|i| 200 + i as u8).collect();
    let over: Vec<u8> = (0..5 * 4 * 4).map(|i| 3 * i as u8).collect();
    for (x, y) in [(0, 0), (-3, -2), (-1, 0), (1, 1), (-5, 0), (-4, -3)] {
        let mut img = IconImage::from_raw(2, 2, base.clone()).unwrap();
        image_overlay_multiply(&mut img, &IconImage::from_raw(5, 4, over.clone()).unwrap(), x, y);
        let wanted = multiplied(&base, (2, 2), &over, (5, 4), (x as i64, y as i64));
        assert_eq!(img.as_raw(), &wanted, "offset ({}, {})", x, y);
    }
}

#[test]
fn overlay_multiply_on_empty_images() {
    let mut empty = IconImage::new(0, 0);
    image_overlay_multiply(&mut empty, &IconImage::new(3, 3), 0, 0);
    assert!(empty.as_raw().is_empty());
    let mut img = IconImage::from_raw(1, 1, vec![9, 8, 7, 6]).unwrap();
    image_overlay_multiply(&mut img, &IconImage::new(0, 0), 0, 0);
    assert_eq!(img.as_raw(), &vec![9, 8, 7, 6]);
}

#[test]
fn load_digit_image_decodes_a_bitmap() {
    let image = load_digit_image(&bmp(3, 5, [10, 200, 30, 255])).ok().unwrap();
    assert_eq!((image.width(), image.height()), (3, 5));
    for y in 0..5 {
        for x in 0..3 {
            assert_eq!(image.get_pixel(x, y), [10, 200, 30, 255]);
        }
    }
}

#[test]
fn load_digit_image_keeps_each_pixel_in_its_place() {
    let mut picture = image::RgbaImage::new(3, 2);
    for y in 0..2 {
        for x in 0..3 {
            picture.put_pixel(x, y, image::Rgba([x as u8, y as u8, 7, 255]));
        }
    }
    let mut out = std::io::Cursor::new(Vec::new());
    picture.write_to(&mut out, image::ImageFormat::Bmp).unwrap();
    let image = load_digit_image(&out.into_inner()).ok().unwrap();
    for y in 0..2 {
        for x in 0..3 {
            assert_eq!(image.get_pixel(x, y), [x as u8, y as u8, 7, 255]);
        }
    }
}

#[test]
fn load_digit_image_rejects_what_is_no_image() {
    assert_eq!(load_digit_image(&[]).err(), Some(AssetError::Undecodable));
    assert_eq!(load_digit_image(b"not a bitmap").err(), Some(AssetError::Undecodable));
    let mut cut = bmp(3, 5, [1, 2, 3, 255]);
    cut.truncate(40);
    assert_eq!(load_digit_image(&cut).err(), Some(AssetError::Undecodable));
}

#[test]
fn new_scales_every_glyph_to_its_cell() {
    let builder = builder_from_bitmaps();
    for digit in 0..10 {
        let glyph = builder.digit_image(digit);
        assert_eq!((glyph.width(), glyph.height()), (28, 56));
        assert_eq!(glyph.as_raw().len(), 28 * 56 * 4);
    }
    let hundred = builder.hundred_image();
    assert_eq!((hundred.width(), hundred.height()), (64, 56));
    assert_eq!(hundred.as_raw().len(), 64 * 56 * 4);
}

#[test]
fn new_keeps_the_colour_of_a_plain_bitmap() {
    let builder = builder_from_bitmaps();
    for digit in 0..10 {
        let glyph = builder.digit_image(digit);
        for y in [0, 27, 55] {
            for x in [0, 13, 27] {
                assert_eq!(glyph.get_pixel(x, y), digit_color(digit), "digit {}", digit);
            }
        }
    }
    assert_eq!(builder.hundred_image().get_pixel(63, 55), HUNDRED_COLOR);
}

#[test]
fn gradients_run_from_top_to_bottom() {
    let builder = builder_from_bitmaps();
    let green = builder.green_gradient_overlay();
    let red = builder.red_gradient_overlay();
    assert_eq!((green.width(), green.height()), (64, 64));
    assert_eq!((red.width(), red.height()), (64, 64));
    for x in [0, 31, 63] {
        assert_eq!(green.get_pixel(x, 0), [0, 255, 0, 255]);
        assert_eq!(green.get_pixel(x, 63), [255, 255, 255, 255]);
        assert_eq!(red.get_pixel(x, 0), [255, 200, 200, 255]);
        assert_eq!(red.get_pixel(x, 63), [255, 0, 0, 255]);
    }
    for y in 1..64 {
        let (above, here) = (green.get_pixel(0, y - 1), green.get_pixel(0, y));
        assert!(above[0] <= here[0] && above[2] <= here[2]);
        assert_eq!((here[1], here[3]), (255, 255));
        let (above, here) = (red.get_pixel(0, y - 1), red.get_pixel(0, y));
        assert!(above[1] >= here[1] && above[2] >= here[2]);
        assert_eq!((here[0], here[3]), (255, 255));
        for x in 1..64 {
            assert_eq!(green.get_pixel(x, y), green.get_pixel(0, y));
            assert_eq!(red.get_pixel(x, y), red.get_pixel(0, y));
        }
    }
}

#[test]
fn new_rejects_an_undecodable_bitmap() {
    let mut files: Vec<Vec<u8>> = (0..10).map(|d| bmp(3, 5, digit_color(d))).collect();
    let hundred = bmp(16, 14, HUNDRED_COLOR);
    files[3] = b"junk".to_vec();
    assert_eq!(new_builder(&files, &hundred).err(), Some(AssetError::Undecodable));
    files[3] = bmp(3, 5, digit_color(3));
    assert!(new_builder(&files, &hundred).is_ok());
    assert_eq!(new_builder(&files, &[]).err(), Some(AssetError::Undecodable));
}

#[test]
fn new_takes_bitmaps_of_any_size_that_fits() {
    let mut files: Vec<Vec<u8>> = (0..10).map(|d| bmp(3, 5, digit_color(d))).collect();
    files[0] = bmp(1, 1, digit_color(0));
    files[4] = bmp(1025, 1, digit_color(4));
    files[9] = bmp(2, 3000, digit_color(9));
    let builder = new_builder(&files, &bmp(700, 300, HUNDRED_COLOR)).unwrap();
    for digit in [0, 4, 9] {
        let glyph = builder.digit_image(digit);
        assert_eq!((glyph.width(), glyph.height()), (28, 56));
        assert_eq!(glyph.get_pixel(14, 28), digit_color(digit));
    }
    assert_eq!(builder.hundred_image().get_pixel(32, 28), HUNDRED_COLOR);
}

#[test]
fn new_fails_on_any_bitmap_that_does_not_decode() {
    let good: Vec<Vec<u8>> = (0..10).map(|d| bmp(3, 5, digit_color(d))).collect();
    let hundred = bmp(16, 14, HUNDRED_COLOR);
    for bad in 0..10 {
        let mut files = good.clone();
        files[bad] = Vec::new();
        assert_eq!(new_builder(&files, &hundred).err(), Some(AssetError::Undecodable));
    }
    let mut cut = hundred.clone();
    cut.truncate(30);
    assert_eq!(new_builder(&good, &cut).err(), Some(AssetError::Undecodable));
}

#[test]
fn load_digit_image_reads_the_format_off_the_bytes() {
    let picture = image::RgbaImage::from_pixel(2, 2, image::Rgba([9, 8, 7, 255]));
    let mut png = std::io::Cursor::new(Vec::new());
    picture.write_to(&mut png, image::ImageFormat::Png).unwrap();
    let png = png.into_inner();
    let image = load_digit_image(&png).ok().unwrap();
    assert_eq!((image.width(), image.height()), (2, 2));
    assert_eq!(image.get_pixel(1, 1), [9, 8, 7, 255]);
    // A format that is known by its first bytes but not decoded here.
    let gif = b"GIF89a\x01\x00\x01\x00\x00\x00\x00;";
    assert_eq!(load_digit_image(gif).err(), Some(AssetError::Undecodable));
    // The first bytes of a bitmap before something that is none.
    assert_eq!(load_digit_image(b"BM and then nothing").err(), Some(AssetError::Undecodable));
}

#[test]
fn draw_digits_is_the_untinted_icon() {
    let builder = builder_from_patterns(false);
    for percentage in [-3, 0, 7, 57, 99, 100, 140] {
        assert_eq!(
            builder.draw_digits(percentage).as_raw(),
            builder.create_percentage_icon(percentage, 0, false).as_raw()
        );
    }
    assert_eq!(builder.draw_digits(57).as_raw(), &two_digits(5, 7));
    assert_eq!(builder.draw_digits(100).as_raw(), &full_charge());
}

#[test]
fn transparent_pixels_of_a_glyph_leave_the_canvas_empty() {
    // Digit 3 is opaque in its left half and wholly transparent in its right half.
    let mut bytes = Vec::new();
    for y in 0..56u32 {
        for x in 0..28u32 {
            let alpha = if x < 14 { 255 } else { 0 };
            bytes.extend_from_slice(&[33, 100 + x as u8, 150 + y as u8, alpha]);
        }
    }
    let mut digits: Vec<IconImage> = (0..10).map(|d| patterned(d + 1, 28, 56)).collect();
    digits[3] = IconImage::from_raw(28, 56, bytes).unwrap();
    let builder = IconBuilder::from_glyphs(digits, patterned(200, 64, 56)).unwrap();
    let icon = builder.draw_digits(33);
    for (left, right) in [(0, 36)] {
        assert_eq!(pixel(icon.as_raw(), W, left, 4), [33, 100, 150, 255]);
        assert_eq!(pixel(icon.as_raw(), W, left + 13, 59), [33, 113, 205, 255]);
        assert_eq!(pixel(icon.as_raw(), W, left + 14, 30), [0, 0, 0, 0]);
        assert_eq!(pixel(icon.as_raw(), W, right, 4), [33, 100, 150, 255]);
        assert_eq!(pixel(icon.as_raw(), W, right + 27, 59), [0, 0, 0, 0]);
    }
}

#[test]
fn margins_and_gap_stay_transparent_under_every_tint() {
    let builder = builder_from_patterns(false);
    for (percentage, rate, charging) in
        [(57, 0, false), (57, 0, true), (57, 40, false), (57, 40, true), (100, 200, true)]
    {
        let icon = builder.create_percentage_icon(percentage, rate, charging);
        for y in 0..H {
            for x in 0..W {
                let in_rows = (4..60).contains(&y);
                let in_columns = percentage == 100 || x < 28 || x >= 36;
                if !(in_rows && in_columns) {
                    assert_eq!(pixel(icon.as_raw(), W, x, y), [0, 0, 0, 0], "({}, {})", x, y);
                }
            }
        }
    }
}

#[test]
fn from_glyphs_wants_ten_digits_of_the_cell_size() {
    let digits = |n: u8| (0..n).map(|d| patterned(d, 28, 56)).collect::<Vec<IconImage>>();
    assert!(IconBuilder::from_glyphs(digits(10), patterned(0, 64, 56)).is_ok());
    for n in [0, 9, 11] {
        let made = IconBuilder::from_glyphs(digits(n), patterned(0, 64, 56));
        assert_eq!(made.err(), Some(AssetError::WrongSize));
    }
    for (width, height) in [(27, 56), (29, 56), (28, 55), (28, 57), (56, 28)] {
        let mut wrong = digits(10);
        wrong[6] = patterned(6, width, height);
        let made = IconBuilder::from_glyphs(wrong, patterned(0, 64, 56));
        assert_eq!(made.err(), Some(AssetError::WrongSize));
    }
    for (width, height) in [(63, 56), (64, 57), (64, 64), (28, 56)] {
        let made = IconBuilder::from_glyphs(digits(10), patterned(0, width, height));
        assert_eq!(made.err(), Some(AssetError::WrongSize));
    }
}

#[test]
fn from_glyphs_keeps_the_glyphs_and_makes_the_gradients() {
    let builder = builder_from_patterns(false);
    for digit in 0..10 {
        assert_eq!(
            builder.digit_image(digit).as_raw(),
            patterned(digit as u8 + 1, 28, 56).as_raw()
        );
    }
    assert_eq!(builder.hundred_image().as_raw(), patterned(200, 64, 56).as_raw());
    let from_bitmaps = builder_from_bitmaps();
    assert_eq!(
        builder.green_gradient_overlay().as_raw(),
        from_bitmaps.green_gradient_overlay().as_raw()
    );
    assert_eq!(
        builder.red_gradient_overlay().as_raw(),
        from_bitmaps.red_gradient_overlay().as_raw()
    );
}

#[test]
fn icon_is_a_square_of_64() {
    let icon = builder_from_patterns(false).create_percentage_icon(42, 0, false);
    assert_eq!((icon.width(), icon.height()), (64, 64));
    assert_eq!(icon.as_raw().len(), 64 * 64 * 4);
}

#[test]
fn fifty_seven_places_five_left_and_seven_right() {
    let icon = builder_from_patterns(false).create_percentage_icon(57, 0, false);
    let bytes = icon.as_raw();
    assert_eq!(bytes, &two_digits(5, 7));
    // The corners of both digits, and the empty canvas around them.
    assert_eq!(pixel(bytes, W, 0, 4), [6, 100, 150, 255]);
    assert_eq!(pixel(bytes, W, 27, 59), [6, 127, 205, 255]);
    assert_eq!(pixel(bytes, W, 36, 4), [8, 100, 150, 255]);
    assert_eq!(pixel(bytes, W, 63, 59), [8, 127, 205, 255]);
    for (x, y) in [(0, 3), (0, 60), (28, 30), (35, 30), (63, 3), (63, 60)] {
        assert_eq!(pixel(bytes, W, x, y), [0, 0, 0, 0], "({}, {})", x, y);
    }
}

#[test]
fn every_percentage_below_100_shows_its_two_digits() {
    let builder = builder_from_patterns(false);
    for percentage in 0..100 {
        let icon = builder.create_percentage_icon(percentage, 0, false);
        let wanted = two_digits((percentage / 10) as u8, (percentage % 10) as u8);
        assert_eq!(icon.as_raw(), &wanted, "{} %", percentage);
    }
}

#[test]
fn full_charge_shows_the_glyph_for_100() {
    let icon = builder_from_patterns(false).create_percentage_icon(100, 0, false);
    assert_eq!(icon.as_raw(), &full_charge());
    assert_eq!(pixel(icon.as_raw(), W, 0, 4), [200, 100, 150, 255]);
    assert_eq!(pixel(icon.as_raw(), W, 63, 59), [200, 163, 205, 255]);
    assert_eq!(pixel(icon.as_raw(), W, 30, 3), [0, 0, 0, 0]);
}

#[test]
fn full_charge_does_not_touch_the_digits() {
    let first = builder_from_patterns(false);
    let second = builder_from_patterns(true);
    for (rate, charging) in [(0, false), (0, true), (40, false), (40, true), (500, true)] {
        assert_eq!(
            first.create_percentage_icon(100, rate, charging).as_raw(),
            second.create_percentage_icon(100, rate, charging).as_raw()
        );
    }
    assert_ne!(
        first.create_percentage_icon(99, 0, false).as_raw(),
        second.create_percentage_icon(99, 0, false).as_raw()
    );
}

#[test]
fn percentage_is_clamped_to_0_and_100() {
    let builder = builder_from_patterns(false);
    for low in [-1, -57, i32::MIN] {
        assert_eq!(builder.create_percentage_icon(low, 0, false).as_raw(), &two_digits(0, 0));
    }
    for high in [101, 157, i32::MAX] {
        assert_eq!(builder.create_percentage_icon(high, 0, false).as_raw(), &full_charge());
    }
}

#[test]
fn rendering_twice_gives_the_same_bytes() {
    let builder = builder_from_bitmaps();
    let glyphs_before: Vec<Vec<u8>> =
        (0..10).map(|d| builder.digit_image(d).as_raw().clone()).collect();
    for (percentage, rate, charging) in
        [(78, 0, false), (78, 0, true), (78, 20, false), (78, 30, true), (100, 50, true), (5, -3, false)]
    {
        let first = builder.create_percentage_icon(percentage, rate, charging);
        let second = builder.create_percentage_icon(percentage, rate, charging);
        assert_eq!(first.as_raw(), second.as_raw());
    }
    for digit in 0..10 {
        assert_eq!(builder.digit_image(digit).as_raw(), &glyphs_before[digit]);
    }
}

#[test]
fn bitmap_glyphs_are_laid_out_like_patterned_ones() {
    let builder = builder_from_bitmaps();
    let icon = builder.create_percentage_icon(78, 0, false);
    let bytes = icon.as_raw();
    assert_eq!(pixel(bytes, W, 0, 4), digit_color(7));
    assert_eq!(pixel(bytes, W, 27, 59), digit_color(7));
    assert_eq!(pixel(bytes, W, 36, 4), digit_color(8));
    assert_eq!(pixel(bytes, W, 63, 59), digit_color(8));
    assert_eq!(pixel(bytes, W, 30, 30), [0, 0, 0, 0]);
    assert_eq!(pixel(bytes, W, 10, 3), [0, 0, 0, 0]);
    let full = builder.create_percentage_icon(100, 0, false);
    assert_eq!(pixel(full.as_raw(), W, 32, 32), HUNDRED_COLOR);
}

#[test]
fn discharging_without_a_rate_is_untinted() {
    let builder = builder_from_patterns(false);
    for rate in [0, -1, -40, i32::MIN] {
        assert_eq!(builder.create_percentage_icon(78, rate, false).as_raw(), &two_digits(7, 8));
    }
}

#[test]
fn charging_tints_the_whole_icon_green() {
    let builder = builder_from_patterns(false);
    let wanted = tinted(&two_digits(7, 8), builder.green_gradient_overlay(), 0);
    for rate in [0, -1, -40] {
        assert_eq!(builder.create_percentage_icon(78, rate, true).as_raw(), &wanted);
    }
    // Top row of the digits: nearly pure green. Bottom row: nearly untouched.
    let top = pixel(&wanted, W, 0, 4);
    assert!(top[0] < 20 && top[1] == 100 && top[2] < 30 && top[3] == 255);
    let bottom = pixel(&wanted, W, 0, 59);
    assert!(bottom[0] == 7 && bottom[1] == 100 && bottom[2] > 180 && bottom[3] == 255);
}

#[test]
fn draining_tints_red_from_the_bottom() {
    let builder = builder_from_patterns(false);
    let rows: [(i32, i64); 13] = [
        (1, 1),
        (2, 1),
        (3, 2),
        (10, 6),
        (12, 8),
        (20, 13),
        (25, 16),
        (30, 19),
        (50, 32),
        (99, 63),
        (100, 64),
        (101, 64),
        (i32::MAX, 64),
    ];
    for (rate, fill) in rows {
        let wanted = tinted(&two_digits(7, 8), builder.red_gradient_overlay(), 64 - fill);
        let icon = builder.create_percentage_icon(78, rate, false);
        assert_eq!(icon.as_raw(), &wanted, "rate {}", rate);
        // Rows above the fill are as the digits left them.
        let untouched = (64 - fill) as usize * W * 4;
        assert_eq!(icon.as_raw()[..untouched], two_digits(7, 8)[..untouched]);
    }
}

#[test]
fn draining_at_half_rate_fills_the_lower_half() {
    let builder = builder_from_patterns(false);
    let icon = builder.create_percentage_icon(78, 50, false);
    let plain = two_digits(7, 8);
    // Row 31 is untouched; row 32 meets the top row of the gradient.
    assert_eq!(pixel(icon.as_raw(), W, 0, 31), pixel(&plain, W, 0, 31));
    let [r, g, b, a] = pixel(&plain, W, 0, 32);
    assert_eq!(
        pixel(icon.as_raw(), W, 0, 32),
        [r, (g as u32 * 200 / 255) as u8, (b as u32 * 200 / 255) as u8, a]
    );
}

#[test]
fn draining_while_charging_moves_the_green_up_and_adds_red() {
    let builder = builder_from_patterns(false);
    for (rate, fill) in [(30, 19), (100, 64), (1, 1)] {
        let green = tinted(&two_digits(7, 8), builder.green_gradient_overlay(), -15);
        let wanted = tinted(&green, builder.red_gradient_overlay(), 64 - fill);
        let icon = builder.create_percentage_icon(78, rate, true);
        assert_eq!(icon.as_raw(), &wanted, "rate {}", rate);
    }
    // With the green moved up by 15 rows, the lowest 15 rows get no green, and row 0 meets
    // row 15 of the gradient.
    let icon = builder.create_percentage_icon(78, 1, true);
    let plain = two_digits(7, 8);
    assert_eq!(icon.as_raw()[49 * W * 4..63 * W * 4], plain[49 * W * 4..63 * W * 4]);
    let gradient = builder.green_gradient_overlay().get_pixel(0, 19);
    let [r, g, b, a] = pixel(&plain, W, 0, 4);
    assert_eq!(
        pixel(icon.as_raw(), W, 0, 4),
        [
            (r as u32 * gradient[0] as u32 / 255) as u8,
            (g as u32 * gradient[1] as u32 / 255) as u8,
            (b as u32 * gradient[2] as u32 / 255) as u8,
            a
        ]
    );
    assert_ne!(pixel(icon.as_raw(), W, 0, 4), pixel(&plain, W, 0, 4));
}

#[test]
fn tints_never_change_alpha() {
    let builder = builder_from_patterns(false);
    let plain = builder.create_percentage_icon(42, 0, false);
    for (rate, charging) in [(0, true), (40, false), (40, true), (1000, true)] {
        let icon = builder.create_percentage_icon(42, rate, charging);
        for at in (3..W * H * 4).step_by(4) {
            assert_eq!(icon.as_raw()[at], plain.as_raw()[at]);
        }
    }
}

#[test]
fn glyph_sizes_follow_from_the_layout() {
    assert_eq!((DIGIT_WIDTH, GLYPH_HEIGHT, HUNDRED_WIDTH), (28, 56, 64));
}
