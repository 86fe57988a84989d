//! The composer: every source pixel gets the tile chosen for its colour,
//! copied into the pixel's block of the output raster.
//!
//! Choosing a tile for a colour takes the perceptual colour transform and a
//! nearest-neighbour search, which are the caller's. The composer therefore
//! works in turns: `advance` places tiles for as long as the colours it
//! meets are in its cache, and stops with a `Step::Query` at the first
//! colour that is not; the caller looks that colour up and hands the tile
//! number to `answer`.

use vstd::prelude::*;
use vstd::arithmetic::div_mod::lemma_fundamental_div_mod_converse;
use crate::blit::{place_tile, tile_placed};
use crate::cache::LookupCache;
use crate::error::MosaicError;
use crate::grid::{lemma_place_of_byte, lemma_two_digits, mosaic_len, place_of, tile_byte};
use crate::index::IndexBounds;
use crate::palette::{Palette, PaletteView};
use crate::pixel::Rgb;
use crate::raster::{color_at, Raster, RasterView};

verus! {

/// What the composer needs next.
#[derive(Clone, Copy, Debug, PartialEq, Eq, Structural)]
pub enum Step {
    /// The tile nearest to this colour: look it up and `answer`.
    Query(Rgb),
    /// Nothing: every source pixel has its tile.
    Done,
}

/// The colours of the first `count` pixels of a buffer of colour triples.
pub open spec fn colors_before(pixels: Seq<u8>, count: int) -> Set<Rgb> {
    Set::new(|color: Rgb| exists|j: int| 0 <= j < count && #[trigger] color_at(pixels, j) == color)
}

/// Byte `i` of the mosaic of `source` in which each colour shows the tile
/// that `chosen` gives it.
pub open spec fn mosaic_byte(
    source: RasterView,
    palette: PaletteView,
    chosen: Map<Rgb, usize>,
    i: int,
) -> u8 {
    let place = place_of(source.width as int, palette.tile_size as int, i);
    let tile = palette.tiles[chosen[color_at(source.pixels, place.cell)] as int];
    tile.pixels[tile_byte(palette.tile_size as int, place)]
}

/// The mosaic of `source`: each source pixel becomes one tile, so the
/// raster is `tile_size` times as wide and as high as the source.
pub open spec fn mosaic(
    source: RasterView,
    palette: PaletteView,
    chosen: Map<Rgb, usize>,
) -> RasterView {
    RasterView {
        width: source.width * palette.tile_size,
        height: source.height * palette.tile_size,
        pixels: Seq::new(
            mosaic_len(source.width as int, source.height as int, palette.tile_size as int) as nat,
            |i: int| mosaic_byte(source, palette, chosen, i),
        ),
    }
}

/// Whether the mosaic's dimensions and byte count can be represented.
pub open spec fn output_fits(source: RasterView, palette: PaletteView) -> bool {
    &&& source.width * palette.tile_size <= u32::MAX
    &&& source.height * palette.tile_size <= u32::MAX
    &&& mosaic_len(source.width as int, source.height as int, palette.tile_size as int)
        <= isize::MAX
}

/// The blocks of the first `placed` source pixels hold their tiles.
pub open spec fn blocks_placed(
    source: RasterView,
    palette: PaletteView,
    chosen: Map<Rgb, usize>,
    output: Seq<u8>,
    placed: int,
) -> bool {
    forall|i: int|
        0 <= i < output.len() && place_of(source.width as int, palette.tile_size as int, i).cell
            < placed ==> #[trigger] output[i] == mosaic_byte(source, palette, chosen, i)
}

/// Taking one more pixel adds its colour to the colours met.
pub proof fn lemma_colors_before_next(pixels: Seq<u8>, count: int)
    requires
        0 <= count,
    ensures
        colors_before(pixels, count + 1) == colors_before(pixels, count).insert(
            color_at(pixels, count),
        ),
        colors_before(pixels, 0) == Set::<Rgb>::empty(),
{
    let next = colors_before(pixels, count + 1);
    let grown = colors_before(pixels, count).insert(color_at(pixels, count));
    assert forall|color: Rgb| next.contains(color) <==> grown.contains(color) by {
        if next.contains(color) {
            let j = choose|j: int| 0 <= j < count + 1 && #[trigger] color_at(pixels, j) == color;
            if j < count {
                assert(colors_before(pixels, count).contains(color));
            }
        }
        if grown.contains(color) {
            if color == color_at(pixels, count) {
                assert(0 <= count < count + 1 && color_at(pixels, count) == color);
            } else {
                let j = choose|j: int| 0 <= j < count && #[trigger] color_at(pixels, j) == color;
                assert(0 <= j < count + 1 && color_at(pixels, j) == color);
            }
        }
    }
    assert(next =~= grown);
    assert(colors_before(pixels, 0) =~= Set::<Rgb>::empty());
}

/// Copying in the tile chosen for the next pixel's colour places that
/// pixel's block and leaves the blocks before it as they were.
pub proof fn lemma_block_placed(
    source: RasterView,
    palette: PaletteView,
    chosen: Map<Rgb, usize>,
    before: Seq<u8>,
    after: Seq<u8>,
    placed: int,
)
    requires
        blocks_placed(source, palette, chosen, before, placed),
        after == tile_placed(
            before,
            palette.tiles[chosen[color_at(source.pixels, placed)] as int].pixels,
            source.width as int,
            palette.tile_size as int,
            placed,
        ),
    ensures
        blocks_placed(source, palette, chosen, after, placed + 1),
{
    assert forall|i: int|
        0 <= i < after.len() && place_of(source.width as int, palette.tile_size as int, i).cell
            < placed + 1 implies #[trigger] after[i] == mosaic_byte(source, palette, chosen, i) by {
        if place_of(source.width as int, palette.tile_size as int, i).cell < placed {
            assert(before[i] == mosaic_byte(source, palette, chosen, i));
        }
    }
}

/// A newly chosen colour changes nothing for the pixels already placed:
/// their colours had their tiles before.
pub proof fn lemma_choice_keeps_blocks(
    source: RasterView,
    palette: PaletteView,
    chosen: Map<Rgb, usize>,
    output: Seq<u8>,
    placed: int,
    color: Rgb,
    tile: usize,
)
    requires
        blocks_placed(source, palette, chosen, output, placed),
        chosen.dom() == colors_before(source.pixels, placed),
        !chosen.contains_key(color),
        output.len() == mosaic_len(
            source.width as int,
            source.height as int,
            palette.tile_size as int,
        ),
    ensures
        blocks_placed(source, palette, chosen.insert(color, tile), output, placed),
{
    let grown = chosen.insert(color, tile);
    assert forall|i: int|
        0 <= i < output.len() && place_of(source.width as int, palette.tile_size as int, i).cell
            < placed implies #[trigger] output[i] == mosaic_byte(source, palette, grown, i) by {
        lemma_place_of_byte(
            source.width as int,
            source.height as int,
            palette.tile_size as int,
            i,
        );
        let cell = place_of(source.width as int, palette.tile_size as int, i).cell;
        let met = color_at(source.pixels, cell);
        assert(colors_before(source.pixels, placed).contains(met));
        assert(chosen.contains_key(met));
    }
}

/// The pixel at column `x` of row `y` of a mosaic shows pixel
/// `(x % side, y % side)` of the tile chosen for the colour of source pixel
/// `(x / side, y / side)`, where `side` is the tile size.
pub proof fn lemma_mosaic_pixel(
    source: RasterView,
    palette: PaletteView,
    chosen: Map<Rgb, usize>,
    x: int,
    y: int,
    channel: int,
)
    requires
        0 <= x < source.width * palette.tile_size,
        0 <= y < source.height * palette.tile_size,
        0 <= channel < 3,
    ensures
        ({
            let side = palette.tile_size as int;
            let made = mosaic(source, palette, chosen);
            let i = (y * made.width + x) * 3 + channel;
            let tile = palette.tiles[chosen[source.color(x / side, y / side)] as int];
            &&& 0 <= i < made.pixels.len()
            &&& made.pixels[i] == tile.pixels[((y % side) * side + x % side) * 4 + channel]
        }),
{
    let width = source.width as int;
    let height = source.height as int;
    let side = palette.tile_size as int;
    let out_w = width * side;
    let out_h = height * side;
    let pixel = y * out_w + x;
    let i = pixel * 3 + channel;
    lemma_two_digits(y, x, out_w, out_h);
    assert(out_h * out_w == out_w * out_h) by (nonlinear_arith);
    lemma_fundamental_div_mod_converse(pixel, out_w, y, x);
    assert(i / 3 == pixel && i % 3 == channel);
}

/// The mosaic depends on the chosen tiles only through the colours that
/// occur in the source: two choices that agree on those give the same
/// raster, byte for byte.
pub proof fn lemma_mosaic_is_determined(
    source: RasterView,
    palette: PaletteView,
    first: Map<Rgb, usize>,
    second: Map<Rgb, usize>,
)
    requires
        forall|color: Rgb| #[trigger]
            colors_before(source.pixels, (source.width * source.height) as int).contains(color)
                ==> first[color] == second[color],
    ensures
        mosaic(source, palette, first) == mosaic(source, palette, second),
{
    let a = mosaic(source, palette, first);
    let b = mosaic(source, palette, second);
    assert forall|i: int| 0 <= i < a.pixels.len() implies a.pixels[i] == b.pixels[i] by {
        lemma_place_of_byte(
            source.width as int,
            source.height as int,
            palette.tile_size as int,
            i,
        );
        let cell = place_of(source.width as int, palette.tile_size as int, i).cell;
        let met = color_at(source.pixels, cell);
        assert(colors_before(source.pixels, (source.width * source.height) as int).contains(met));
    }
    assert(a.pixels =~= b.pixels);
}

/// A mosaic in the making.
pub struct Composer {
    source: Raster,
    palette: Palette,
    bounds: IndexBounds,
    cache: LookupCache,
    out: Vec<u8>,
    placed: usize,
    queries: usize,
}

impl Composer {
    /// The source image.
    pub closed spec fn source(&self) -> RasterView {
        self.source@
    }

    /// The palette.
    pub closed spec fn palette(&self) -> PaletteView {
        self.palette@
    }

    /// The tile chosen for each colour met so far.
    pub closed spec fn chosen(&self) -> Map<Rgb, usize> {
        self.cache@
    }

    /// The bytes of the output raster as they stand.
    pub closed spec fn output(&self) -> Seq<u8> {
        self.out@
    }

    /// How many source pixels, counted along rows, have their tile.
    pub closed spec fn placed(&self) -> nat {
        self.placed as nat
    }

    /// How many colours had to be looked up so far.
    pub closed spec fn queries(&self) -> nat {
        self.queries as nat
    }

    /// The number of source pixels.
    pub open spec fn total(&self) -> nat {
        self.source().width * self.source().height
    }

    /// The index bounds agree with the palette.
    pub closed spec fn bounded(&self) -> bool {
        self.bounds.count() == self.palette@.tiles.len()
    }

    /// The composer's state is consistent: the blocks of the pixels placed
    /// hold their tiles, the cache holds exactly the colours of those
    /// pixels, each with a tile of the palette, and every one of them was
    /// looked up once.
    pub open spec fn wf(&self) -> bool {
        &&& self.bounded()
        &&& self.source().complete()
        &&& self.palette().uniform()
        &&& self.palette().tiles.len() > 0
        &&& output_fits(self.source(), self.palette())
        &&& self.placed() <= self.total()
        &&& self.output().len() == mosaic_len(
            self.source().width as int,
            self.source().height as int,
            self.palette().tile_size as int,
        )
        &&& blocks_placed(
            self.source(),
            self.palette(),
            self.chosen(),
            self.output(),
            self.placed() as int,
        )
        &&& self.chosen().dom() == colors_before(self.source().pixels, self.placed() as int)
        &&& self.chosen().dom().finite()
        &&& forall|color: Rgb| #[trigger]
            self.chosen().contains_key(color) ==> self.chosen()[color] < self.palette().tiles.len()
        &&& self.queries() == self.chosen().dom().len()
        &&& self.queries() <= self.placed()
    }

    /// The composer waits for the tile of the next pixel's colour.
    pub open spec fn pending(&self) -> bool {
        &&& self.placed() < self.total()
        &&& !self.chosen().contains_key(color_at(self.source().pixels, self.placed() as int))
    }

    /// Starts a mosaic of `source` from the tiles of `palette`.
    pub fn new(source: Raster, palette: Palette) -> (made: Result<Composer, MosaicError>)
        requires
            source.wf(),
            palette.wf(),
        ensures
            palette@.tiles.len() == 0 ==> (made matches Err(e) && e == MosaicError::EmptyPalette),
            palette@.tiles.len() > 0 && !output_fits(source@, palette@) ==> (made matches Err(e)
                && e == MosaicError::OutputTooLarge),
            palette@.tiles.len() > 0 && output_fits(source@, palette@) ==> made is Ok,
            made matches Ok(composer) ==> {
                &&& composer.wf()
                &&& composer.source() == source@
                &&& composer.palette() == palette@
                &&& composer.chosen() == Map::<Rgb, usize>::empty()
                &&& composer.placed() == 0
                &&& composer.queries() == 0
            },
    {
        let bounds = match IndexBounds::build(palette.len()) {
            Ok(bounds) => bounds,
            Err(e) => {
                return Err(e);
            },
        };
        let width: u128 = source.width() as u128;
        let height: u128 = source.height() as u128;
        let side: u128 = palette.tile_size() as u128;
        assert(width * side <= 0xffff_ffff * 0xffff_ffff && height * side <= 0xffff_ffff
            * 0xffff_ffff) by (nonlinear_arith)
            requires
                width <= 0xffff_ffff,
                height <= 0xffff_ffff,
                side <= 0xffff_ffff,
        ;
        let out_w: u128 = width * side;
        let out_h: u128 = height * side;
        if out_w > u32::MAX as u128 || out_h > u32::MAX as u128 {
            return Err(MosaicError::OutputTooLarge);
        }
        assert(out_w * out_h <= 0xffff_ffff * 0xffff_ffff) by (nonlinear_arith)
            requires
                out_w <= 0xffff_ffff,
                out_h <= 0xffff_ffff,
        ;
        let bytes: u128 = out_w * out_h * 3;
        if bytes > isize::MAX as u128 {
            return Err(MosaicError::OutputTooLarge);
        }
        let out: Vec<u8> = vec![0u8; bytes as usize];
        let capacity: usize = source.pixel_count() / 2;
        let cache = LookupCache::with_capacity(capacity);
        let composer = Composer { source, palette, bounds, cache, out, placed: 0, queries: 0 };
        proof {
            lemma_colors_before_next(composer.source().pixels, 0);
            assert(composer.chosen().dom() =~= Set::<Rgb>::empty());
        }
        Ok(composer)
    }

    /// The number of source pixels.
    pub fn pixel_count(&self) -> (count: usize)
        requires
            self.wf(),
        ensures
            count == self.total(),
    {
        self.source.pixel_count()
    }

    /// How many source pixels have their tile.
    pub fn pixels_placed(&self) -> (count: usize)
        ensures
            count == self.placed(),
    {
        self.placed
    }

    /// How many colours had to be looked up so far: the number of distinct
    /// colours among the pixels placed.
    pub fn lookups(&self) -> (count: usize)
        ensures
            count == self.queries(),
    {
        self.queries
    }

    /// Copies the tile `number` into the block of the next pixel and counts
    /// the pixel as placed.
    fn place_next(&mut self, number: usize)
        requires
            old(self).bounded(),
            old(self).source().complete(),
            old(self).palette().uniform(),
            old(self).placed() < old(self).total(),
            old(self).placed() < usize::MAX,
            old(self).output().len() == mosaic_len(
                old(self).source().width as int,
                old(self).source().height as int,
                old(self).palette().tile_size as int,
            ),
            blocks_placed(
                old(self).source(),
                old(self).palette(),
                old(self).chosen(),
                old(self).output(),
                old(self).placed() as int,
            ),
            number < old(self).palette().tiles.len(),
            number == old(self).chosen()[color_at(
                old(self).source().pixels,
                old(self).placed() as int,
            )],
        ensures
            final(self).source() == old(self).source(),
            final(self).palette() == old(self).palette(),
            final(self).chosen() == old(self).chosen(),
            final(self).queries() == old(self).queries(),
            final(self).placed() == old(self).placed() + 1,
            final(self).bounded(),
            final(self).output().len() == old(self).output().len(),
            blocks_placed(
                final(self).source(),
                final(self).palette(),
                final(self).chosen(),
                final(self).output(),
                final(self).placed() as int,
            ),
    {
        let ghost before = self.out@;
        let width: usize = self.source.width() as usize;
        let height: usize = self.source.height() as usize;
        let side: usize = self.palette.tile_size() as usize;
        let cell: usize = self.placed;
        let tile = self.palette.tile_at(number);
        place_tile(&mut self.out, tile.pixels(), width, height, side, cell);
        self.placed = self.placed + 1;
        proof {
            lemma_block_placed(
                self.source(),
                self.palette(),
                self.chosen(),
                before,
                self.out@,
                cell as int,
            );
        }
    }

    /// Places tiles for as long as the next pixel's colour is in the cache.
    ///
    /// Stops with `Step::Query` at the first pixel whose colour has no tile
    /// yet, and with `Step::Done` when no pixel is left. Nothing is looked
    /// up and the cache is not changed.
    pub fn advance(&mut self) -> (step: Step)
        requires
            old(self).wf(),
        ensures
            final(self).wf(),
            final(self).source() == old(self).source(),
            final(self).palette() == old(self).palette(),
            final(self).chosen() == old(self).chosen(),
            final(self).queries() == old(self).queries(),
            old(self).placed() <= final(self).placed(),
            old(self).pending() ==> final(self).placed() == old(self).placed(),
            match step {
                Step::Query(color) => final(self).pending() && color == color_at(
                    final(self).source().pixels,
                    final(self).placed() as int,
                ),
                Step::Done => final(self).placed() == final(self).total(),
            },
    {
        let total: usize = self.source.pixel_count();
        while self.placed < total
            invariant
                self.wf(),
                total == self.total(),
                self.source() == old(self).source(),
                self.palette() == old(self).palette(),
                self.chosen() == old(self).chosen(),
                self.queries() == old(self).queries(),
                old(self).placed() <= self.placed(),
                old(self).pending() ==> self.placed() == old(self).placed(),
            decreases total - self.placed,
        {
            let color = self.source.color_of(self.placed);
            match self.cache.get(color) {
                Some(number) => {
                    proof {
                        lemma_colors_before_next(self.source().pixels, self.placed() as int);
                    }
                    self.place_next(number);
                    assert(self.chosen().dom() =~= colors_before(
                        self.source().pixels,
                        self.placed() as int,
                    ));
                },
                None => {
                    return Step::Query(color);
                },
            }
        }
        Step::Done
    }

    /// Takes the colour index's answer for the pending colour: records the
    /// tile it names for that colour and places it for the pending pixel.
    ///
    /// An answer that names no tile of the palette, or one that was not
    /// asked for, is refused and changes nothing.
    pub fn answer(&mut self, item: u64) -> (taken: Result<usize, MosaicError>)
        requires
            old(self).wf(),
        ensures
            final(self).wf(),
            final(self).source() == old(self).source(),
            final(self).palette() == old(self).palette(),
            !old(self).pending() ==> (taken matches Err(e) && e == MosaicError::NoPendingQuery),
            old(self).pending() && item >= old(self).palette().tiles.len() ==> (taken matches Err(e)
                && e == MosaicError::TileOutOfRange),
            old(self).pending() && item < old(self).palette().tiles.len() ==> (taken matches Ok(
                number,
            ) && number == item),
            match taken {
                Ok(number) => {
                    &&& final(self).chosen() == old(self).chosen().insert(
                        color_at(old(self).source().pixels, old(self).placed() as int),
                        number,
                    )
                    &&& final(self).placed() == old(self).placed() + 1
                    &&& final(self).queries() == old(self).queries() + 1
                },
                Err(_) => {
                    &&& final(self).chosen() == old(self).chosen()
                    &&& final(self).placed() == old(self).placed()
                    &&& final(self).queries() == old(self).queries()
                    &&& final(self).output() == old(self).output()
                },
            },
    {
        let total: usize = self.source.pixel_count();
        if self.placed >= total {
            return Err(MosaicError::NoPendingQuery);
        }
        let color = self.source.color_of(self.placed);
        if self.cache.get(color).is_some() {
            return Err(MosaicError::NoPendingQuery);
        }
        let number: usize = match self.bounds.resolve(item) {
            Ok(number) => number,
            Err(e) => {
                return Err(e);
            },
        };
        proof {
            lemma_choice_keeps_blocks(
                self.source(),
                self.palette(),
                self.chosen(),
                self.output(),
                self.placed() as int,
                color,
                number,
            );
            lemma_colors_before_next(self.source().pixels, self.placed() as int);
        }
        self.cache.record(color, number);
        self.queries = self.queries + 1;
        self.place_next(number);
        assert(self.chosen().dom() =~= colors_before(self.source().pixels, self.placed() as int));
        Ok(number)
    }

    /// Whether every source pixel has its tile.
    pub fn is_done(&self) -> (done: bool)
        requires
            self.wf(),
        ensures
            done == (self.placed() == self.total()),
    {
        self.placed >= self.source.pixel_count()
    }

    /// Gives up the composer for the finished mosaic.
    pub fn finish(self) -> (made: Result<Raster, MosaicError>)
        requires
            self.wf(),
        ensures
            self.placed() < self.total() ==> (made matches Err(e) && e == MosaicError::Incomplete),
            self.placed() == self.total() ==> (made matches Ok(raster) && raster.wf() && raster@
                == mosaic(self.source(), self.palette(), self.chosen())),
    {
        if self.placed < self.source.pixel_count() {
            return Err(MosaicError::Incomplete);
        }
        let out_w: u32 = self.source.width() * self.palette.tile_size();
        let out_h: u32 = self.source.height() * self.palette.tile_size();
        proof {
            lemma_finished_output(self);
        }
        Ok(Raster::from_parts(out_w, out_h, self.out))
    }
}

/// Every colour among the pixels placed has its tile, and was looked up
/// exactly once: the number of look-ups is the number of distinct colours
/// met.
pub proof fn lemma_one_lookup_per_color(composer: Composer)
    requires
        composer.wf(),
    ensures
        composer.queries() == colors_before(
            composer.source().pixels,
            composer.placed() as int,
        ).len(),
        forall|j: int|
            0 <= j < composer.placed() ==> composer.chosen().contains_key(
                #[trigger] color_at(composer.source().pixels, j),
            ),
{
    assert forall|j: int| 0 <= j < composer.placed() implies composer.chosen().contains_key(
        #[trigger] color_at(composer.source().pixels, j),
    ) by {
        assert(colors_before(composer.source().pixels, composer.placed() as int).contains(
            color_at(composer.source().pixels, j),
        ));
    }
}

/// A colour the composer asks for has not occurred among the pixels before
/// it: no colour is asked for twice.
pub proof fn lemma_query_is_new_color(composer: Composer, j: int)
    requires
        composer.wf(),
        composer.pending(),
        0 <= j < composer.placed(),
    ensures
        color_at(composer.source().pixels, j) != color_at(
            composer.source().pixels,
            composer.placed() as int,
        ),
{
    lemma_one_lookup_per_color(composer);
}

/// When every pixel is placed, the output is the mosaic.
pub proof fn lemma_finished_output(composer: Composer)
    requires
        composer.wf(),
        composer.placed() == composer.total(),
    ensures
        composer.output() == mosaic(
            composer.source(),
            composer.palette(),
            composer.chosen(),
        ).pixels,
{
    let made = mosaic(composer.source(), composer.palette(), composer.chosen());
    assert forall|i: int| 0 <= i < made.pixels.len() implies composer.output()[i]
        == made.pixels[i] by {
        lemma_place_of_byte(
            composer.source().width as int,
            composer.source().height as int,
            composer.palette().tile_size as int,
            i,
        );
    }
    assert(composer.output() =~= made.pixels);
}

/// Composing twice from the same source and palette, with a colour index
/// that answers alike both times, gives the same raster byte for byte.
pub proof fn lemma_same_inputs_same_mosaic(first: Composer, second: Composer)
    requires
        first.wf(),
        second.wf(),
        first.source() == second.source(),
        first.palette() == second.palette(),
        first.placed() == first.total(),
        second.placed() == second.total(),
        forall|color: Rgb| #[trigger]
            first.chosen().contains_key(color) ==> first.chosen()[color]
                == second.chosen()[color],
    ensures
        first.output() == second.output(),
{
    lemma_finished_output(first);
    lemma_finished_output(second);
    lemma_mosaic_is_determined(
        first.source(),
        first.palette(),
        first.chosen(),
        second.chosen(),
    );
}

} // verus!
