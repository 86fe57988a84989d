//! The library's side of the nearest-colour index.
//!
//! The index itself, a spatial tree over perceptual colours, is the
//! caller's. What the composer needs of it is kept here: that it was built
//! over at least one colour, and that each of its answers names a tile.

use vstd::prelude::*;
use crate::error::MosaicError;

verus! {

/// The number of colours a nearest-colour index was built over, never zero.
#[derive(Clone, Copy, Debug)]
pub struct IndexBounds {
    colors: usize,
}

impl IndexBounds {
    /// The number of colours under the index.
    pub closed spec fn count(&self) -> nat {
        self.colors as nat
    }

    /// The index has at least one colour.
    pub open spec fn wf(&self) -> bool {
        self.count() > 0
    }

    /// What an answer of the index resolves to: the tile it names, if there
    /// is such a tile.
    pub open spec fn resolved(count: nat, item: u64) -> Result<usize, MosaicError> {
        if item < count {
            Ok(item as usize)
        } else {
            Err(MosaicError::TileOutOfRange)
        }
    }

    /// The bounds of an index over `colors` colours. An index over no
    /// colour at all is refused.
    pub fn build(colors: usize) -> (made: Result<IndexBounds, MosaicError>)
        ensures
            colors == 0 ==> (made matches Err(e) && e == MosaicError::EmptyPalette),
            colors > 0 ==> made is Ok,
            made matches Ok(bounds) ==> bounds.wf() && bounds.count() == colors,
    {
        if colors == 0 {
            Err(MosaicError::EmptyPalette)
        } else {
            Ok(IndexBounds { colors })
        }
    }

    /// The number of colours under the index.
    pub fn colors(&self) -> (colors: usize)
        ensures
            colors == self.count(),
    {
        self.colors
    }

    /// Resolves an answer of the index to a tile number.
    pub fn resolve(&self, item: u64) -> (tile: Result<usize, MosaicError>)
        ensures
            tile == Self::resolved(self.count(), item),
            tile matches Ok(number) ==> number == item && number < self.count(),
    {
        if item < self.colors as u64 {
            Ok(item as usize)
        } else {
            Err(MosaicError::TileOutOfRange)
        }
    }
}

/// Over a single colour, whatever the index is asked and whatever it
/// answers, the only tile an answer resolves to is tile 0.
pub proof fn lemma_single_color_resolves_to_first(bounds: IndexBounds, item: u64)
    requires
        bounds.count() == 1,
    ensures
        IndexBounds::resolved(bounds.count(), item) matches Ok(number) ==> number == 0,
        IndexBounds::resolved(bounds.count(), 0) == Ok::<usize, MosaicError>(0),
{
}

} // verus!
