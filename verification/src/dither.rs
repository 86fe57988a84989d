//! The optional dithering pass over the source image, done by the
//! `quantette` crate.

use vstd::prelude::*;
use image::RgbImage;
use quantette::{ColorSpace, ImagePipeline};
use crate::error::MosaicError;
use crate::pixel::Rgb;
use crate::raster::{byte_count, color_at, Raster};

verus! {

/// The most colours a quantized image shows: the quantizer's palette is
/// indexed by one byte.
pub const QUANTIZED_COLORS: usize = 256;

/// Every pixel of a buffer of colour triples has one of the colours of
/// `palette`.
pub open spec fn drawn_from(pixels: Seq<u8>, palette: Seq<Rgb>) -> bool {
    forall|k: int| 0 <= k < pixels.len() / 3 ==> palette.contains(#[trigger] color_at(pixels, k))
}

/// The pixels of a buffer of colour triples show at most `limit` colours
/// between them: some palette of that size holds them all.
pub open spec fn within_colors(pixels: Seq<u8>, limit: nat) -> bool {
    exists|palette: Seq<Rgb>| palette.len() <= limit && #[trigger] drawn_from(pixels, palette)
}

/// Reduces the colours of an image in Oklab space and dithers it, with
/// `quantette`: `ImagePipeline::try_from` takes the image, which
/// `image::RgbImage::from_raw` made of the buffer, `colorspace` sets the
/// colour space, and `quantized_rgbimage_par` runs the reduction and the
/// Floyd-Steinberg dither on several threads.
///
/// Trusted, not proved:
/// - the call returns for an image that has pixels, and succeeds unless the
///   image has more than `u32::MAX` of them, the one thing
///   `ImagePipeline::try_from` refuses;
/// - `quantized_rgbimage_par` gives back one pixel for each pixel it was
///   given, so as many bytes as went in;
/// - every pixel that comes back is an entry of the quantizer's palette,
///   which `quantized_rgbimage_par` indexes by one byte, so the pixels show
///   at most 256 colours.
/// Nothing is claimed of which colours those are, nor of where they fall.
#[verifier::external_body]
fn quantize_dithered(pixels: Vec<u8>, width: u32, height: u32) -> (out: Option<Vec<u8>>)
    requires
        pixels.len() == width * height * 3,
        width > 0,
        height > 0,
    ensures
        width * height <= u32::MAX ==> out is Some,
        width * height > u32::MAX ==> out is None,
        out matches Some(quantized) ==> quantized.len() == pixels.len(),
        out matches Some(quantized) ==> within_colors(quantized@, QUANTIZED_COLORS as nat),
{
    let image = RgbImage::from_raw(width, height, pixels)?;
    let mut pipeline = ImagePipeline::try_from(&image).ok()?;
    Some(pipeline.colorspace(ColorSpace::Oklab).quantized_rgbimage_par().into_raw())
}

/// Whether a quantizer's outcome is an image of `width` by `height` pixels.
pub open spec fn is_image_of(outcome: Option<Vec<u8>>, width: nat, height: nat) -> bool {
    outcome matches Some(pixels) && pixels.len() == byte_count(width, height, 3)
}

/// Takes the outcome of a quantizer run over a `width` by `height` image as
/// the new source image, if it is an image of those dimensions.
pub fn adopt_quantized(width: u32, height: u32, outcome: Option<Vec<u8>>) -> (made: Result<
    Raster,
    MosaicError,
>)
    ensures
        is_image_of(outcome, width as nat, height as nat) ==> (made matches Ok(raster)
            && raster.wf() && raster@.width == width && raster@.height == height
            && raster@.pixels == outcome.unwrap()@),
        !is_image_of(outcome, width as nat, height as nat) ==> (made matches Err(e) && e
            == MosaicError::QuantizeFailed),
{
    match outcome {
        Some(pixels) => match Raster::new(width, height, pixels) {
            Ok(raster) => Ok(raster),
            Err(_) => Err(MosaicError::QuantizeFailed),
        },
        None => Err(MosaicError::QuantizeFailed),
    }
}

/// The source image as the composer is to take it: dithered if `dither` is
/// set and the image has pixels, and as it is otherwise.
///
/// The dithering is not this crate's: whatever the quantizer hands back is
/// taken as `adopt_quantized` says, so the image that comes out has the
/// dimensions of the one that went in, and, being quantized, shows no more
/// than `QUANTIZED_COLORS` colours. Only an image of more pixels than the
/// quantizer takes, more than `u32::MAX`, is refused.
pub fn prepare_source(source: Raster, dither: bool) -> (made: Result<Raster, MosaicError>)
    requires
        source.wf(),
    ensures
        !dither || source@.width == 0 || source@.height == 0 ==> (made matches Ok(raster)
            && raster@ == source@),
        dither && source@.width > 0 && source@.height > 0 ==> (made matches Ok(raster)
            ==> within_colors(raster@.pixels, QUANTIZED_COLORS as nat)),
        source@.width * source@.height <= u32::MAX ==> made is Ok,
        dither && source@.width * source@.height > u32::MAX ==> made is Err,
        match made {
            Ok(raster) => {
                &&& raster.wf()
                &&& raster@.width == source@.width
                &&& raster@.height == source@.height
            },
            Err(e) => e == MosaicError::QuantizeFailed,
        },
{
    let width: u32 = source.width();
    let height: u32 = source.height();
    assert(width == 0 || height == 0 ==> width * height == 0) by (nonlinear_arith);
    if dither && width > 0 && height > 0 {
        adopt_quantized(width, height, quantize_dithered(source.into_pixels(), width, height))
    } else {
        Ok(source)
    }
}

} // verus!
