//! Palette tiles: compositing over black and totalling their channels.

use vstd::prelude::*;
use crate::error::MosaicError;
use crate::pixel::{composite_channel, lemma_opaque_keeps_channel, over_black, Rgb, CHANNEL_MAX};
use crate::raster::{byte_count, TileImage, TileImageView};
use crate::resample::{larger, resample_fits, resampled, resize_image};

verus! {

/// The sums of a tile's channels, each pixel weighted by its alpha.
///
/// A pixel of channel value `c` and alpha `a` shows `c * a / 255` over black;
/// the totals keep the numerators `c * a`, so they are exact. A channel's
/// average in `[0, 1]` is its total divided by `palette_scale` of the tile size.
#[derive(Clone, Copy, Debug, PartialEq, Eq, Structural)]
pub struct ChannelTotals {
    pub r: u128,
    pub g: u128,
    pub b: u128,
}

/// The sum of `channel * alpha` over the first `count` pixels of a buffer of
/// four bytes per pixel.
pub open spec fn weighted_total(pixels: Seq<u8>, channel: int, count: nat) -> nat
    decreases count,
{
    if count == 0 {
        0
    } else {
        let last = count - 1;
        let seen = pixels[4 * last + channel] * pixels[4 * last + 3];
        weighted_total(pixels, channel, last as nat) + seen as nat
    }
}

/// The three weighted totals over every whole pixel of a buffer.
pub open spec fn totals_of(pixels: Seq<u8>) -> ChannelTotals {
    let count = pixels.len() / 4;
    ChannelTotals {
        r: weighted_total(pixels, 0, count) as u128,
        g: weighted_total(pixels, 1, count) as u128,
        b: weighted_total(pixels, 2, count) as u128,
    }
}

/// The alpha of pixel `p` in a buffer of four bytes per pixel.
pub open spec fn alpha_of(pixels: Seq<u8>, p: int) -> u8 {
    pixels[4 * p + 3]
}

/// The colour of pixel `p` in a buffer of four bytes per pixel.
pub open spec fn rgb_of(pixels: Seq<u8>, p: int) -> Rgb {
    Rgb { r: pixels[4 * p], g: pixels[4 * p + 1], b: pixels[4 * p + 2] }
}

/// Byte `i` of a buffer after compositing over black: a colour channel of a
/// whole pixel is seen through that pixel's alpha; alpha bytes, and bytes
/// after the last whole pixel, stay.
pub open spec fn composited_byte(pixels: Seq<u8>, i: int) -> u8 {
    if i % 4 == 3 || i / 4 >= pixels.len() / 4 {
        pixels[i]
    } else {
        over_black(pixels[i], pixels[i / 4 * 4 + 3])
    }
}

/// A buffer of four bytes per pixel after compositing every pixel over black.
pub open spec fn composited(pixels: Seq<u8>) -> Seq<u8> {
    Seq::new(pixels.len(), |i: int| composited_byte(pixels, i))
}

/// The divisor that turns a channel total of a tile of side `tile_size` into
/// an average in `[0, 1]`.
pub open spec fn scale_of(tile_size: nat) -> nat {
    65025 * (tile_size * tile_size)
}

/// A weighted total over `count` pixels is at most `count` times 255 * 255,
/// the weight of a full channel at full alpha.
pub proof fn lemma_weighted_total_bound(pixels: Seq<u8>, channel: int, count: nat)
    requires
        0 <= channel < 3,
        4 * count <= pixels.len(),
    ensures
        weighted_total(pixels, channel, count) <= 65025 * count,
    decreases count,
{
    if count > 0 {
        let last = count - 1;
        lemma_weighted_total_bound(pixels, channel, last as nat);
        let c = pixels[4 * last + channel];
        let a = pixels[4 * last + 3];
        assert(0 <= c * a <= 255 * 255) by (nonlinear_arith)
            requires
                0 <= c <= 255,
                0 <= a <= 255,
        ;
    }
}

/// Compositing leaves a fully opaque pixel as it is.
pub proof fn lemma_opaque_pixel_unchanged(pixels: Seq<u8>, p: int)
    requires
        0 <= p < pixels.len() / 4,
        alpha_of(pixels, p) == CHANNEL_MAX,
    ensures
        rgb_of(composited(pixels), p) == rgb_of(pixels, p),
        alpha_of(composited(pixels), p) == alpha_of(pixels, p),
{
    lemma_opaque_keeps_channel(pixels[4 * p]);
    lemma_opaque_keeps_channel(pixels[4 * p + 1]);
    lemma_opaque_keeps_channel(pixels[4 * p + 2]);
    assert(composited(pixels)[4 * p] == composited_byte(pixels, 4 * p));
    assert(composited(pixels)[4 * p + 1] == composited_byte(pixels, 4 * p + 1));
    assert(composited(pixels)[4 * p + 2] == composited_byte(pixels, 4 * p + 2));
}

/// Composites every pixel of the buffer over black, in place, and totals the
/// channels as they were seen through alpha.
pub fn composite_over_black(pixels: &mut Vec<u8>) -> (totals: ChannelTotals)
    ensures
        final(pixels)@ == composited(old(pixels)@),
        totals == totals_of(old(pixels)@),
        forall|p: int|
            0 <= p < old(pixels)@.len() / 4 && #[trigger] alpha_of(old(pixels)@, p) == CHANNEL_MAX
                ==> rgb_of(final(pixels)@, p) == rgb_of(old(pixels)@, p),
{
    let ghost before = pixels@;
    let count: usize = pixels.len() / 4;
    let mut r_sum: u128 = 0;
    let mut g_sum: u128 = 0;
    let mut b_sum: u128 = 0;
    let mut p: usize = 0;
    while p < count
        invariant
            0 <= p <= count,
            count == before.len() / 4,
            pixels@.len() == before.len(),
            before.len() <= usize::MAX,
            r_sum == weighted_total(before, 0, p as nat),
            g_sum == weighted_total(before, 1, p as nat),
            b_sum == weighted_total(before, 2, p as nat),
            forall|i: int|
                0 <= i < before.len() ==> #[trigger] pixels@[i] == if i / 4 < p {
                    composited_byte(before, i)
                } else {
                    before[i]
                },
        decreases count - p,
    {
        let ghost entered = pixels@;
        let at: usize = 4 * p;
        let red: u8 = pixels[at];
        let green: u8 = pixels[at + 1];
        let blue: u8 = pixels[at + 2];
        let alpha: u8 = pixels[at + 3];
        proof {
            lemma_weighted_total_bound(before, 0, p as nat);
            lemma_weighted_total_bound(before, 1, p as nat);
            lemma_weighted_total_bound(before, 2, p as nat);
            assert(red * alpha <= 255 * 255 && green * alpha <= 255 * 255 && blue * alpha <= 255
                * 255) by (nonlinear_arith)
                requires
                    0 <= red <= 255,
                    0 <= green <= 255,
                    0 <= blue <= 255,
                    0 <= alpha <= 255,
            ;
        }
        if alpha != CHANNEL_MAX {
            pixels.set(at, composite_channel(red, alpha));
            pixels.set(at + 1, composite_channel(green, alpha));
            pixels.set(at + 2, composite_channel(blue, alpha));
        }
        r_sum = r_sum + red as u128 * alpha as u128;
        g_sum = g_sum + green as u128 * alpha as u128;
        b_sum = b_sum + blue as u128 * alpha as u128;
        proof {
            lemma_opaque_keeps_channel(red);
            lemma_opaque_keeps_channel(green);
            lemma_opaque_keeps_channel(blue);
            assert forall|i: int| 0 <= i < before.len() implies #[trigger] pixels@[i] == if i / 4
                < p + 1 {
                composited_byte(before, i)
            } else {
                before[i]
            } by {
                if i / 4 == p {
                    assert(i == at || i == at + 1 || i == at + 2 || i == at + 3);
                    assert(i / 4 * 4 + 3 == at + 3);
                    assert(entered[i] == before[i]);
                } else {
                    assert(pixels@[i] == entered[i]);
                }
            }
        }
        p = p + 1;
    }
    assert(pixels@ =~= composited(before));
    assert forall|q: int|
        0 <= q < before.len() / 4 && #[trigger] alpha_of(before, q) == CHANNEL_MAX implies rgb_of(
        pixels@,
        q,
    ) == rgb_of(before, q) by {
        lemma_opaque_pixel_unchanged(before, q);
    }
    ChannelTotals { r: r_sum, g: g_sum, b: b_sum }
}

/// What a palette tile is, mathematically.
pub struct PaletteTileView {
    /// The tile's width and height in pixels.
    pub side: nat,
    /// The tile's pixels after compositing, four bytes each.
    pub pixels: Seq<u8>,
    /// The channel totals that stand for the tile's average colour.
    pub totals: ChannelTotals,
}

/// The tile that an image already resized to `side` by `side` becomes.
pub open spec fn summary(resized: Seq<u8>, side: nat) -> PaletteTileView {
    PaletteTileView { side, pixels: composited(resized), totals: totals_of(resized) }
}

/// The tile that a palette image becomes at side `tile_size`: the summary of
/// the image as the resampler brings it to `tile_size` by `tile_size`.
pub open spec fn tile_of(image: TileImageView, tile_size: nat) -> PaletteTileView {
    summary(resampled(image.pixels, image.width, image.height, tile_size, tile_size), tile_size)
}

/// One cell of the mosaic's vocabulary: a square image, composited over
/// black, with the channel totals of its average colour.
pub struct PaletteTile {
    side: u32,
    pixels: Vec<u8>,
    totals: ChannelTotals,
}

impl View for PaletteTile {
    type V = PaletteTileView;

    closed spec fn view(&self) -> PaletteTileView {
        PaletteTileView { side: self.side as nat, pixels: self.pixels@, totals: self.totals }
    }
}

impl PaletteTile {
    /// The tile has a side, and four bytes for each of its pixels.
    pub open spec fn wf(&self) -> bool {
        &&& self@.side > 0
        &&& self@.pixels.len() == byte_count(self@.side, self@.side, 4)
    }

    /// Summarizes an image that has already been brought to `side` by `side`:
    /// composites it over black and totals its channels.
    pub fn from_resized(resized: Vec<u8>, side: u32) -> (made: Result<PaletteTile, MosaicError>)
        ensures
            side == 0 ==> (made matches Err(e) && e == MosaicError::InvalidTileSize),
            side > 0 && resized.len() != byte_count(side as nat, side as nat, 4) ==> (made
                matches Err(e) && e == MosaicError::BufferSizeMismatch),
            side > 0 && resized.len() == byte_count(side as nat, side as nat, 4) ==> made is Ok,
            made matches Ok(tile) ==> tile.wf() && tile@ == summary(resized@, side as nat),
    {
        if side == 0 {
            return Err(MosaicError::InvalidTileSize);
        }
        assert(side * side <= 0xffff_ffff * 0xffff_ffff) by (nonlinear_arith)
            requires
                side <= 0xffff_ffff,
        ;
        let expected: u128 = side as u128 * side as u128 * 4;
        if resized.len() as u128 != expected {
            return Err(MosaicError::BufferSizeMismatch);
        }
        let mut pixels = resized;
        let totals = composite_over_black(&mut pixels);
        Ok(PaletteTile { side, pixels, totals })
    }

    /// The tile's width and height in pixels.
    pub fn side(&self) -> (side: u32)
        ensures
            side == self@.side,
    {
        self.side
    }

    /// The tile's pixels, four bytes each, rows from top to bottom.
    pub fn pixels(&self) -> (bytes: &Vec<u8>)
        ensures
            bytes@ == self@.pixels,
    {
        &self.pixels
    }

    /// The channel totals that stand for the tile's average colour.
    pub fn totals(&self) -> (totals: ChannelTotals)
        ensures
            totals == self@.totals,
    {
        self.totals
    }
}

/// The divisor that turns a channel total of a tile of side `tile_size` into
/// an average in `[0, 1]`: 255 for the channel, 255 for alpha, and the
/// number of pixels.
pub fn palette_scale(tile_size: u32) -> (scale: u128)
    ensures
        scale == scale_of(tile_size as nat),
{
    assert(tile_size * tile_size <= 0xffff_ffff * 0xffff_ffff) by (nonlinear_arith)
        requires
            tile_size <= 0xffff_ffff,
    ;
    65025 * (tile_size as u128 * tile_size as u128)
}

/// Whether an image and tiles of side `tile_size` are small enough to resample.
fn fits_resampler(width: u32, height: u32, tile_size: u32) -> (fits: bool)
    ensures
        fits == resample_fits(width as nat, height as nat, tile_size as nat, tile_size as nat),
{
    let wide: u128 = if width >= tile_size {
        width as u128
    } else {
        tile_size as u128
    };
    let tall: u128 = if height >= tile_size {
        height as u128
    } else {
        tile_size as u128
    };
    assert(wide * tall <= 0xffff_ffff * 0xffff_ffff) by (nonlinear_arith)
        requires
            wide <= 0xffff_ffff,
            tall <= 0xffff_ffff,
    ;
    assert(wide == larger(width as nat, tile_size as nat));
    assert(tall == larger(height as nat, tile_size as nat));
    wide * tall * 4 + 4 <= isize::MAX as u128
}

/// Brings a palette image to `tile_size` by `tile_size` and summarizes it.
///
/// Every image that fits the resampler gets its tile, `tile_of` the image.
/// The resampling is not this crate's: the bytes the resampler makes of the
/// image are summarized as `PaletteTile::from_resized` says. An image that
/// already has the tile's dimensions is summarized as it is.
pub fn summarize_tile(image: TileImage, tile_size: u32) -> (made: Result<PaletteTile, MosaicError>)
    requires
        image.wf(),
    ensures
        tile_size == 0 ==> (made matches Err(e) && e == MosaicError::InvalidTileSize),
        tile_size > 0 && !resample_fits(
            image@.width,
            image@.height,
            tile_size as nat,
            tile_size as nat,
        ) ==> (made matches Err(e) && e == MosaicError::TooLargeToResample),
        tile_size > 0 && resample_fits(
            image@.width,
            image@.height,
            tile_size as nat,
            tile_size as nat,
        ) ==> made is Ok,
        made matches Ok(tile) ==> tile@ == tile_of(image@, tile_size as nat),
        image@.width == tile_size && image@.height == tile_size ==> (made matches Ok(tile)
            ==> tile@ == summary(image@.pixels, tile_size as nat)),
        made matches Ok(tile) ==> tile.wf() && tile@.side == tile_size,
{
    if tile_size == 0 {
        return Err(MosaicError::InvalidTileSize);
    }
    let width: u32 = image.width();
    let height: u32 = image.height();
    if !fits_resampler(width, height, tile_size) {
        return Err(MosaicError::TooLargeToResample);
    }
    let ghost given = image@.pixels;
    match resize_image(image.into_pixels(), width, height, tile_size, tile_size) {
        Some(resized) => {
            let ghost bytes = resized@;
            let made = PaletteTile::from_resized(resized, tile_size);
            proof {
                if width == tile_size && height == tile_size {
                    assert(bytes == given);
                }
            }
            made
        },
        None => Err(MosaicError::ResampleFailed),
    }
}

/// The tile of an image depends on the image and the tile size alone:
/// summarizing equal images at the same tile size gives equal tiles, byte
/// for byte, however often it is done.
pub proof fn lemma_same_image_same_tile(first: TileImage, second: TileImage, tile_size: nat)
    requires
        first@ == second@,
    ensures
        tile_of(first@, tile_size) == tile_of(second@, tile_size),
{
}

} // verus!
