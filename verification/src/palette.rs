//! The palette: tiles of one size, numbered in the order they were added.

use vstd::prelude::*;
use crate::error::MosaicError;
use crate::raster::{byte_count, TileImage};
use crate::resample::resample_fits;
use crate::tile::{summarize_tile, summary, tile_of, PaletteTile, PaletteTileView};

verus! {

/// Whether files with this extension are taken into the palette: the
/// common raster formats, spelled in lower case.
pub open spec fn is_palette_extension(extension: Seq<char>) -> bool {
    ||| extension == "avif"@
    ||| extension == "jpeg"@
    ||| extension == "jpg"@
    ||| extension == "png"@
    ||| extension == "webp"@
}

/// Tells whether a file with this extension is taken into the palette. The
/// match is exact: an extension in upper case is not accepted.
pub fn accepts_extension(extension: &str) -> (accepted: bool)
    ensures
        accepted == is_palette_extension(extension@),
{
    let given = extension.to_owned();
    given == "avif".to_owned() || given == "jpeg".to_owned() || given == "jpg".to_owned() || given
        == "png".to_owned() || given == "webp".to_owned()
}

/// What a palette is, mathematically: its tile size and its tiles in order.
pub struct PaletteView {
    pub tile_size: nat,
    pub tiles: Seq<PaletteTileView>,
}

impl PaletteView {
    /// The tile size is positive and every tile is a full square of it.
    pub open spec fn uniform(self) -> bool {
        &&& self.tile_size > 0
        &&& forall|i: int|
            0 <= i < self.tiles.len() ==> {
                &&& (#[trigger] self.tiles[i]).side == self.tile_size
                &&& self.tiles[i].pixels.len() == byte_count(self.tile_size, self.tile_size, 4)
            }
    }
}

/// The tiles a mosaic is made of. A tile's number is its only identity; tiles
/// are added at the end and never changed or removed.
pub struct Palette {
    tile_size: u32,
    tiles: Vec<PaletteTile>,
}

impl View for Palette {
    type V = PaletteView;

    closed spec fn view(&self) -> PaletteView {
        PaletteView {
            tile_size: self.tile_size as nat,
            tiles: Seq::new(self.tiles@.len(), |i: int| self.tiles@[i]@),
        }
    }
}

impl Palette {
    /// Every tile has the palette's size.
    pub open spec fn wf(&self) -> bool {
        self@.uniform()
    }

    /// An empty palette for tiles of side `tile_size`.
    pub fn new(tile_size: u32) -> (made: Result<Palette, MosaicError>)
        ensures
            tile_size == 0 ==> (made matches Err(e) && e == MosaicError::InvalidTileSize),
            tile_size > 0 ==> made is Ok,
            made matches Ok(palette) ==> palette.wf() && palette@ == (PaletteView {
                tile_size: tile_size as nat,
                tiles: Seq::empty(),
            }),
    {
        if tile_size == 0 {
            return Err(MosaicError::InvalidTileSize);
        }
        let palette = Palette { tile_size, tiles: Vec::new() };
        assert(palette@.tiles =~= Seq::empty());
        Ok(palette)
    }

    /// The side of every tile, in pixels.
    pub fn tile_size(&self) -> (side: u32)
        ensures
            side == self@.tile_size,
    {
        self.tile_size
    }

    /// The number of tiles.
    pub fn len(&self) -> (count: usize)
        ensures
            count == self@.tiles.len(),
    {
        self.tiles.len()
    }

    /// Tile number `i`, if the palette has that many.
    pub fn tile(&self, i: usize) -> (found: Option<&PaletteTile>)
        ensures
            i < self@.tiles.len() ==> found is Some && found.unwrap()@ == self@.tiles[i as int],
            i >= self@.tiles.len() ==> found is None,
    {
        if i < self.tiles.len() {
            Some(&self.tiles[i])
        } else {
            None
        }
    }

    /// Tile number `i` of a palette that has that many.
    pub(crate) fn tile_at(&self, i: usize) -> (tile: &PaletteTile)
        requires
            i < self@.tiles.len(),
        ensures
            tile@ == self@.tiles[i as int],
    {
        &self.tiles[i]
    }

    /// Adds a tile at the end, if it has the palette's size.
    pub fn push(&mut self, tile: PaletteTile) -> (added: Result<usize, MosaicError>)
        requires
            old(self).wf(),
            tile.wf(),
        ensures
            final(self).wf(),
            tile@.side == old(self)@.tile_size ==> {
                &&& added matches Ok(number) && number == old(self)@.tiles.len()
                &&& final(self)@ == (PaletteView {
                    tile_size: old(self)@.tile_size,
                    tiles: old(self)@.tiles.push(tile@),
                })
            },
            tile@.side != old(self)@.tile_size ==> {
                &&& added matches Err(e) && e == MosaicError::BufferSizeMismatch
                &&& final(self)@ == old(self)@
            },
    {
        if tile.side() != self.tile_size {
            return Err(MosaicError::BufferSizeMismatch);
        }
        let number: usize = self.tiles.len();
        let ghost before = self@;
        self.tiles.push(tile);
        assert(self@.tiles =~= before.tiles.push(tile@));
        Ok(number)
    }

    /// Summarizes a palette image at the palette's tile size and adds the
    /// tile at the end. Only an image too large to resample is refused, and
    /// the palette then stays as it was.
    ///
    /// The tile is `tile_of` the image: the summary of what the resampler
    /// makes of it. Of an image that already has the tile's dimensions, it
    /// is the summary of the image itself.
    pub fn push_image(&mut self, image: TileImage) -> (added: Result<usize, MosaicError>)
        requires
            old(self).wf(),
            image.wf(),
        ensures
            final(self).wf(),
            final(self)@.tile_size == old(self)@.tile_size,
            !resample_fits(
                image@.width,
                image@.height,
                old(self)@.tile_size,
                old(self)@.tile_size,
            ) ==> (added matches Err(e) && e == MosaicError::TooLargeToResample),
            resample_fits(
                image@.width,
                image@.height,
                old(self)@.tile_size,
                old(self)@.tile_size,
            ) ==> added is Ok,
            added is Ok ==> final(self)@.tiles == old(self)@.tiles.push(
                tile_of(image@, old(self)@.tile_size),
            ),
            added is Ok && image@.width == old(self)@.tile_size && image@.height == old(
                self,
            )@.tile_size ==> final(self)@.tiles == old(self)@.tiles.push(
                summary(image@.pixels, old(self)@.tile_size),
            ),
            match added {
                Ok(number) => number == old(self)@.tiles.len(),
                Err(e) => {
                    &&& final(self)@ == old(self)@
                    &&& e == MosaicError::TooLargeToResample
                },
            },
    {
        match summarize_tile(image, self.tile_size) {
            Ok(tile) => self.push(tile),
            Err(e) => Err(e),
        }
    }
}

} // verus!
