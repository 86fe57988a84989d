//! Pixel buffers with their dimensions: opaque rasters and palette images.

use vstd::prelude::*;
use crate::error::MosaicError;
use crate::pixel::Rgb;

verus! {

/// The number of bytes of a `width` by `height` image with `channels` bytes per pixel.
pub open spec fn byte_count(width: nat, height: nat, channels: nat) -> nat {
    width * height * channels
}

/// The colour of pixel `k` in a buffer of red, green, blue triples.
pub open spec fn color_at(pixels: Seq<u8>, k: int) -> Rgb {
    Rgb { r: pixels[3 * k], g: pixels[3 * k + 1], b: pixels[3 * k + 2] }
}

/// What a raster is, mathematically: its dimensions and its bytes, row by row.
pub struct RasterView {
    pub width: nat,
    pub height: nat,
    pub pixels: Seq<u8>,
}

impl RasterView {
    /// The buffer holds exactly three bytes for each pixel.
    pub open spec fn complete(self) -> bool {
        self.pixels.len() == byte_count(self.width, self.height, 3)
    }

    /// The colour at column `x` of row `y`.
    pub open spec fn color(self, x: int, y: int) -> Rgb {
        color_at(self.pixels, y * self.width + x)
    }
}

/// An opaque image: three bytes per pixel, rows from top to bottom.
///
/// Both the source image and the finished mosaic are rasters.
pub struct Raster {
    width: u32,
    height: u32,
    pixels: Vec<u8>,
}

impl View for Raster {
    type V = RasterView;

    closed spec fn view(&self) -> RasterView {
        RasterView {
            width: self.width as nat,
            height: self.height as nat,
            pixels: self.pixels@,
        }
    }
}

/// The byte count of an image, computed wide enough never to overflow.
fn byte_count_wide(width: u32, height: u32, channels: u8) -> (n: u128)
    ensures
        n == byte_count(width as nat, height as nat, channels as nat),
{
    assert(width * height <= 0xffff_ffff * 0xffff_ffff) by (nonlinear_arith)
        requires
            width <= 0xffff_ffff,
            height <= 0xffff_ffff,
    ;
    let area: u128 = width as u128 * height as u128;
    assert(area * channels <= 0xffff_ffff * 0xffff_ffff * 255) by (nonlinear_arith)
        requires
            area <= 0xffff_ffff * 0xffff_ffff,
            channels <= 255,
    ;
    area * channels as u128
}

impl Raster {
    /// The raster's buffer has the length its dimensions call for.
    pub open spec fn wf(&self) -> bool {
        self@.complete()
    }

    /// Takes a buffer as a raster of the given dimensions, if its length fits them.
    pub fn new(width: u32, height: u32, pixels: Vec<u8>) -> (made: Result<Raster, MosaicError>)
        ensures
            pixels.len() == byte_count(width as nat, height as nat, 3) ==> made is Ok,
            pixels.len() != byte_count(width as nat, height as nat, 3) ==> (made matches Err(e)
                && e == MosaicError::BufferSizeMismatch),
            made matches Ok(raster) ==> raster.wf() && raster@ == (RasterView {
                width: width as nat,
                height: height as nat,
                pixels: pixels@,
            }),
    {
        if pixels.len() as u128 == byte_count_wide(width, height, 3) {
            Ok(Raster { width, height, pixels })
        } else {
            Err(MosaicError::BufferSizeMismatch)
        }
    }

    /// Takes a buffer whose length is known to fit the dimensions.
    pub(crate) fn from_parts(width: u32, height: u32, pixels: Vec<u8>) -> (raster: Raster)
        requires
            pixels.len() == byte_count(width as nat, height as nat, 3),
        ensures
            raster.wf(),
            raster@ == (RasterView {
                width: width as nat,
                height: height as nat,
                pixels: pixels@,
            }),
    {
        Raster { width, height, pixels }
    }

    /// The number of columns.
    pub fn width(&self) -> (w: u32)
        ensures
            w == self@.width,
    {
        self.width
    }

    /// The number of rows.
    pub fn height(&self) -> (h: u32)
        ensures
            h == self@.height,
    {
        self.height
    }

    /// The number of pixels.
    pub fn pixel_count(&self) -> (count: usize)
        requires
            self.wf(),
        ensures
            count == self@.width * self@.height,
    {
        assert(self.pixels.len() == self.width as int * self.height as int * 3);
        self.pixels.len() / 3
    }

    /// The bytes of the raster.
    pub fn pixels(&self) -> (bytes: &Vec<u8>)
        ensures
            bytes@ == self@.pixels,
    {
        &self.pixels
    }

    /// Gives up the raster for its bytes.
    pub fn into_pixels(self) -> (bytes: Vec<u8>)
        ensures
            bytes@ == self@.pixels,
    {
        self.pixels
    }

    /// The colour at column `x` of row `y`, if the raster has such a pixel.
    pub fn pixel(&self, x: u32, y: u32) -> (found: Option<Rgb>)
        requires
            self.wf(),
        ensures
            x < self@.width && y < self@.height ==> found == Some(self@.color(x as int, y as int)),
            !(x < self@.width && y < self@.height) ==> found.is_none(),
    {
        if x < self.width && y < self.height {
            proof {
                lemma_cell_in_range(self.width as int, self.height as int, x as int, y as int);
                assert(self.pixels.len() == self.width as int * self.height as int * 3);
            }
            let k: usize = y as usize * self.width as usize + x as usize;
            Some(self.color_of(k))
        } else {
            None
        }
    }

    /// The colour of pixel `k`, counting along rows from the top left.
    pub(crate) fn color_of(&self, k: usize) -> (color: Rgb)
        requires
            self.wf(),
            k < self@.width * self@.height,
        ensures
            color == color_at(self@.pixels, k as int),
    {
        assert(self.pixels.len() == self.width as int * self.height as int * 3);
        Rgb { r: self.pixels[3 * k], g: self.pixels[3 * k + 1], b: self.pixels[3 * k + 2] }
    }
}

/// A cell of a grid, counted along rows, lies within the grid's cell count.
pub proof fn lemma_cell_in_range(width: int, height: int, x: int, y: int)
    by (nonlinear_arith)
    requires
        0 <= x < width,
        0 <= y < height,
    ensures
        0 <= y * width + x < width * height,
        0 <= y * width,
{
}

/// What a palette image is, mathematically.
pub struct TileImageView {
    pub width: nat,
    pub height: nat,
    pub pixels: Seq<u8>,
}

impl TileImageView {
    /// The buffer holds exactly four bytes for each pixel.
    pub open spec fn complete(self) -> bool {
        self.pixels.len() == byte_count(self.width, self.height, 4)
    }
}

/// A decoded palette image: red, green, blue and alpha for each pixel.
pub struct TileImage {
    width: u32,
    height: u32,
    pixels: Vec<u8>,
}

impl View for TileImage {
    type V = TileImageView;

    closed spec fn view(&self) -> TileImageView {
        TileImageView {
            width: self.width as nat,
            height: self.height as nat,
            pixels: self.pixels@,
        }
    }
}

impl TileImage {
    /// The image's buffer has the length its dimensions call for.
    pub open spec fn wf(&self) -> bool {
        self@.complete()
    }

    /// Takes a buffer as an image of the given dimensions, if its length fits them.
    pub fn new(width: u32, height: u32, pixels: Vec<u8>) -> (made: Result<TileImage, MosaicError>)
        ensures
            pixels.len() == byte_count(width as nat, height as nat, 4) ==> made is Ok,
            pixels.len() != byte_count(width as nat, height as nat, 4) ==> (made matches Err(e)
                && e == MosaicError::BufferSizeMismatch),
            made matches Ok(image) ==> image.wf() && image@ == (TileImageView {
                width: width as nat,
                height: height as nat,
                pixels: pixels@,
            }),
    {
        if pixels.len() as u128 == byte_count_wide(width, height, 4) {
            Ok(TileImage { width, height, pixels })
        } else {
            Err(MosaicError::BufferSizeMismatch)
        }
    }

    /// The number of columns.
    pub fn width(&self) -> (w: u32)
        ensures
            w == self@.width,
    {
        self.width
    }

    /// The number of rows.
    pub fn height(&self) -> (h: u32)
        ensures
            h == self@.height,
    {
        self.height
    }

    /// Gives up the image for its bytes.
    pub fn into_pixels(self) -> (bytes: Vec<u8>)
        ensures
            bytes@ == self@.pixels,
    {
        self.pixels
    }
}

} // verus!
