//! Rasters: rectangles of RGBA pixels, row by row, four bytes to a pixel.

use vstd::prelude::*;

verus! {

/// Bytes per pixel: red, green, blue, alpha.
pub const CHANNELS: usize = 4;

/// A raster as a mathematical value.
pub struct Raster {
    pub width: nat,
    pub height: nat,
    /// The pixels, row by row from the top, each as red, green, blue, alpha.
    pub pixels: Seq<u8>,
}

/// Where the byte of one channel of the pixel at (`x`, `y`) lies in the pixels
/// of a raster that is `width` wide.
pub open spec fn pixel_index(width: int, x: int, y: int, channel: int) -> int {
    (y * width + x) * 4 + channel
}

/// A raster that is wholly transparent black.
pub open spec fn blank(width: nat, height: nat) -> Raster {
    Raster { width, height, pixels: Seq::new(width * height * 4, |i: int| 0u8) }
}

impl Raster {
    /// A raster holds four bytes for each of its pixels.
    pub open spec fn wf(self) -> bool {
        self.pixels.len() == self.width * self.height * 4
    }

    /// The column of the pixel that byte `i` belongs to.
    pub open spec fn column_of(self, i: int) -> int {
        (i / 4) % (self.width as int)
    }

    /// The row of the pixel that byte `i` belongs to.
    pub open spec fn row_of(self, i: int) -> int {
        (i / 4) / (self.width as int)
    }
}

/// Every byte of a raster belongs to one channel of one pixel inside it.
pub proof fn lemma_byte_position(raster: Raster, i: int)
    requires
        raster.wf(),
        0 <= i < raster.pixels.len(),
    ensures
        0 <= raster.column_of(i) < raster.width,
        0 <= raster.row_of(i) < raster.height,
        0 <= i % 4 < 4,
        i == pixel_index(raster.width as int, raster.column_of(i), raster.row_of(i), i % 4),
{
    let w = raster.width as int;
    let h = raster.height as int;
    let p = i / 4;
    assert(w > 0 && h > 0 && p < w * h) by (nonlinear_arith)
        requires
            0 <= i < w * h * 4,
            p == i / 4,
            w >= 0,
            h >= 0,
    ;
    vstd::arithmetic::div_mod::lemma_fundamental_div_mod(p, w);
    vstd::arithmetic::div_mod::lemma_mod_bound(p, w);
    vstd::arithmetic::div_mod::lemma_div_pos_is_pos(p, w);
    vstd::arithmetic::div_mod::lemma_multiply_divide_lt(p, w, h);
    assert(w * (p / w) == (p / w) * w) by (nonlinear_arith);
}

/// Each channel of each pixel inside a raster has a byte of its own.
pub proof fn lemma_pixel_position(raster: Raster, x: int, y: int, channel: int)
    requires
        raster.wf(),
        0 <= x < raster.width,
        0 <= y < raster.height,
        0 <= channel < 4,
    ensures
        0 <= pixel_index(raster.width as int, x, y, channel) < raster.pixels.len(),
        raster.column_of(pixel_index(raster.width as int, x, y, channel)) == x,
        raster.row_of(pixel_index(raster.width as int, x, y, channel)) == y,
        pixel_index(raster.width as int, x, y, channel) % 4 == channel,
        pixel_index(raster.width as int, x, y, channel) / 4 == y * raster.width + x,
{
    let w = raster.width as int;
    let h = raster.height as int;
    let p = y * w + x;
    assert(0 <= p < w * h) by (nonlinear_arith)
        requires
            0 <= x < w,
            0 <= y < h,
            p == y * w + x,
    ;
    assert((p * 4 + channel) / 4 == p);
    vstd::arithmetic::div_mod::lemma_fundamental_div_mod_converse(p, w, y, x);
}

/// A raster that owns its pixels.
pub struct IconImage {
    pub(crate) width: u32,
    pub(crate) height: u32,
    pub(crate) pixels: Vec<u8>,
}

impl View for IconImage {
    type V = Raster;

    open(crate) spec fn view(&self) -> Raster {
        Raster { width: self.width as nat, height: self.height as nat, pixels: self.pixels@ }
    }
}

impl IconImage {
    /// The image's invariant: four bytes for each pixel.
    pub open spec fn wf(&self) -> bool {
        self@.wf()
    }

    /// A wholly transparent image of the given size, which must be one that a
    /// vector can hold.
    pub fn new(width: u32, height: u32) -> (image: Self)
        requires
            width * height * 4 <= isize::MAX,
        ensures
            image.wf(),
            image@ == blank(width as nat, height as nat),
    {
        assert(width * height <= isize::MAX && width * height * 4 == (width * height) * 4)
            by (nonlinear_arith)
            requires
                width * height * 4 <= isize::MAX,
        ;
        let count: usize = (width as usize) * (height as usize) * 4;
        let pixels: Vec<u8> = vec![0u8; count];
        assert(pixels@ =~= blank(width as nat, height as nat).pixels);
        IconImage { width, height, pixels }
    }

    /// The image of the given size over the given bytes, if they are four for
    /// each pixel.
    pub fn from_raw(width: u32, height: u32, pixels: Vec<u8>) -> (image: Option<Self>)
        ensures
            image is Some <==> pixels@.len() == width * height * 4,
            image is Some ==> image.unwrap().wf() && image.unwrap()@ == (Raster {
                width: width as nat,
                height: height as nat,
                pixels: pixels@,
            }),
    {
        assert(width * height <= 0xffff_ffff * 0xffff_ffff) by (nonlinear_arith)
            requires
                width <= 0xffff_ffff,
                height <= 0xffff_ffff,
        ;
        let wanted: u128 = (width as u128) * (height as u128) * 4;
        if pixels.len() as u128 == wanted {
            Some(IconImage { width, height, pixels })
        } else {
            None
        }
    }

    pub fn width(&self) -> (width: u32)
        ensures
            width == self@.width,
    {
        self.width
    }

    pub fn height(&self) -> (height: u32)
        ensures
            height == self@.height,
    {
        self.height
    }

    /// The image's bytes, row by row.
    pub fn as_raw(&self) -> (pixels: &Vec<u8>)
        ensures
            pixels@ == self@.pixels,
    {
        &self.pixels
    }

    /// The image's bytes, row by row.
    pub fn into_raw(self) -> (pixels: Vec<u8>)
        ensures
            pixels@ == self@.pixels,
    {
        self.pixels
    }

    /// The pixel at (`x`, `y`): red, green, blue, alpha.
    pub fn get_pixel(&self, x: u32, y: u32) -> (pixel: [u8; 4])
        requires
            self.wf(),
            x < self@.width,
            y < self@.height,
        ensures
            forall|channel: int|
                0 <= channel < 4 ==> pixel[channel] == self@.pixels[pixel_index(
                    self@.width as int,
                    x as int,
                    y as int,
                    channel,
                )],
    {
        proof {
            lemma_pixel_position(self@, x as int, y as int, 0);
            lemma_pixel_position(self@, x as int, y as int, 3);
            assert(0 <= y * self.width) by (nonlinear_arith);
        }
        let len: usize = self.pixels.len();
        let at: usize = ((y as usize) * (self.width as usize) + (x as usize)) * 4;
        assert(at + 3 < len);
        [self.pixels[at], self.pixels[at + 1], self.pixels[at + 2], self.pixels[at + 3]]
    }
}

} // verus!
