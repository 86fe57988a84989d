//! The failures a mosaic run can end in.

use vstd::prelude::*;

verus! {

/// Why a step of a mosaic run was refused.
#[derive(Clone, Copy, Debug, PartialEq, Eq, Structural)]
pub enum MosaicError {
    /// The tile size is zero.
    InvalidTileSize,
    /// The palette image or the tile is too large for the resampler's buffers.
    TooLargeToResample,
    /// A pixel buffer's length disagrees with the dimensions given for it.
    BufferSizeMismatch,
    /// The resampler could not bring a palette image to the tile size.
    ResampleFailed,
    /// The quantizer did not hand back an image of the source's dimensions.
    QuantizeFailed,
    /// The palette holds no tile, so no colour index can be built over it.
    EmptyPalette,
    /// The colour index answered with a number that names no palette tile.
    TileOutOfRange,
    /// The mosaic's dimensions or byte count cannot be represented.
    OutputTooLarge,
    /// A tile was supplied although the composer had asked for none.
    NoPendingQuery,
    /// The raster was asked for before every source pixel had its tile.
    Incomplete,
}

impl MosaicError {
    /// The text of the message for this error.
    pub open spec fn text(self) -> Seq<char> {
        match self {
            MosaicError::InvalidTileSize => "tile size cannot be zero"@,
            MosaicError::TooLargeToResample => "image or tile size is too large to resample"@,
            MosaicError::BufferSizeMismatch => "pixel buffer does not match the image dimensions"@,
            MosaicError::ResampleFailed => "palette image could not be resized"@,
            MosaicError::QuantizeFailed => "dithering did not keep the image dimensions"@,
            MosaicError::EmptyPalette => "palette contains no usable tile"@,
            MosaicError::TileOutOfRange => "colour index named a tile outside the palette"@,
            MosaicError::OutputTooLarge => "output image dimensions are too large"@,
            MosaicError::NoPendingQuery => "a tile was supplied but none was requested"@,
            MosaicError::Incomplete => "mosaic is not complete yet"@,
        }
    }

    /// A human-readable message for this error.
    pub fn message(&self) -> (s: String)
        ensures
            s@ == self.text(),
    {
        match self {
            MosaicError::InvalidTileSize => "tile size cannot be zero".to_owned(),
            MosaicError::TooLargeToResample => {
                "image or tile size is too large to resample".to_owned()
            },
            MosaicError::BufferSizeMismatch => {
                "pixel buffer does not match the image dimensions".to_owned()
            },
            MosaicError::ResampleFailed => "palette image could not be resized".to_owned(),
            MosaicError::QuantizeFailed => {
                "dithering did not keep the image dimensions".to_owned()
            },
            MosaicError::EmptyPalette => "palette contains no usable tile".to_owned(),
            MosaicError::TileOutOfRange => {
                "colour index named a tile outside the palette".to_owned()
            },
            MosaicError::OutputTooLarge => "output image dimensions are too large".to_owned(),
            MosaicError::NoPendingQuery => {
                "a tile was supplied but none was requested".to_owned()
            },
            MosaicError::Incomplete => "mosaic is not complete yet".to_owned(),
        }
    }
}

} // verus!
