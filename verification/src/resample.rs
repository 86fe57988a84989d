//! Bilinear resampling of palette images, done by the `fast_image_resize` crate.

use vstd::prelude::*;
use fast_image_resize::images::Image;
use fast_image_resize::{FilterType, PixelType, ResizeAlg, ResizeOptions, Resizer};

verus! {

/// The larger of two lengths.
pub open spec fn larger(a: nat, b: nat) -> nat {
    if a >= b {
        a
    } else {
        b
    }
}

/// Whether the buffers of a resampling can all be allocated. Source, target
/// and the resampler's scratch images each have no more pixels than the
/// larger width times the larger height, and a scratch image takes one
/// pixel more than it holds; the coefficient tables take a few bytes for
/// each row and column of the target, far less than the target itself.
pub open spec fn resample_fits(width: nat, height: nat, new_width: nat, new_height: nat) -> bool {
    larger(width, new_width) * larger(height, new_height) * 4 + 4 <= isize::MAX
}

/// The bytes that `fast_image_resize` makes of an image of four bytes per
/// pixel when it resamples it, with bilinear interpolation, from `width` by
/// `height` to `new_width` by `new_height` pixels.
///
/// The bytes depend on the image and the sizes alone. The crate computes its
/// weights with basic operations on double-precision numbers and rounds to
/// bytes in integer arithmetic, and its own tests hold each of its
/// processor-specific kernels to the same bytes.
pub uninterp spec fn resampled(
    pixels: Seq<u8>,
    width: nat,
    height: nat,
    new_width: nat,
    new_height: nat,
) -> Seq<u8>;

/// Bilinear resampling to a target that has pixels, by `fast_image_resize`:
/// `Image::from_vec_u8` takes the buffer, `Image::new` makes the target, and
/// `Resizer::resize` fills it by bilinear interpolation
/// (`ResizeAlg::Interpolation(FilterType::Bilinear)`).
///
/// Trusted, not proved:
/// - the call succeeds: `Image::from_vec_u8` refuses only a buffer that is
///   too short or misaligned, and a pixel of four bytes has alignment 1;
///   `Resizer::resize` refuses only a crop box outside the source, and the
///   box in use is the whole source;
/// - the target that `Image::new` allocates and `Image::into_vec` gives back
///   has four bytes for each of its pixels;
/// - the bytes that come back are `resampled` of the image and the sizes;
/// - where the target has the source's dimensions, `Resizer::resize` copies
///   the source row by row.
/// Nothing else is claimed of the resized bytes.
#[verifier::external_body]
fn resample_bilinear(
    pixels: Vec<u8>,
    width: u32,
    height: u32,
    new_width: u32,
    new_height: u32,
) -> (out: Option<Vec<u8>>)
    requires
        pixels.len() == width * height * 4,
        new_width > 0,
        new_height > 0,
        resample_fits(width as nat, height as nat, new_width as nat, new_height as nat),
    ensures
        out is Some,
        out.unwrap()@ == resampled(
            pixels@,
            width as nat,
            height as nat,
            new_width as nat,
            new_height as nat,
        ),
        out.unwrap().len() == new_width * new_height * 4,
        width == new_width && height == new_height ==> out.unwrap()@ == pixels@,
{
    let image = Image::from_vec_u8(width, height, pixels, PixelType::U8x4).ok()?;
    let mut resized_image = Image::new(new_width, new_height, PixelType::U8x4);
    let options =
        ResizeOptions::default().resize_alg(ResizeAlg::Interpolation(FilterType::Bilinear));
    Resizer::new().resize(&image, &mut resized_image, &options).ok()?;
    Some(resized_image.into_vec())
}

/// Resizes an image of four bytes per pixel to `new_width` by `new_height`
/// with bilinear sampling.
///
/// A target without pixels is not a size an image can be brought to: it is
/// refused. Any other target is made, as `resampled` names it, with four
/// bytes for each of its pixels; a target of the source's own dimensions is
/// the source.
pub(crate) fn resize_image(
    pixels: Vec<u8>,
    width: u32,
    height: u32,
    new_width: u32,
    new_height: u32,
) -> (out: Option<Vec<u8>>)
    requires
        pixels.len() == width * height * 4,
        new_width > 0 && new_height > 0 ==> resample_fits(
            width as nat,
            height as nat,
            new_width as nat,
            new_height as nat,
        ),
    ensures
        new_width == 0 || new_height == 0 ==> out is None,
        new_width > 0 && new_height > 0 ==> out is Some,
        out matches Some(resized) ==> resized@ == resampled(
            pixels@,
            width as nat,
            height as nat,
            new_width as nat,
            new_height as nat,
        ),
        out matches Some(resized) ==> resized.len() == new_width * new_height * 4,
        width == new_width && height == new_height ==> (out matches Some(resized) ==> resized@
            == pixels@),
{
    if new_width == 0 || new_height == 0 {
        None
    } else {
        resample_bilinear(pixels, width, height, new_width, new_height)
    }
}

} // verus!
