//! The geometry of a mosaic: which source pixel, and which byte of its
//! tile, each byte of the output shows.

use vstd::prelude::*;
use vstd::arithmetic::div_mod::{lemma_fundamental_div_mod, lemma_fundamental_div_mod_converse};

verus! {

/// Where a byte of the mosaic lies.
pub struct Place {
    /// The source pixel whose tile covers the byte, counted along rows.
    pub cell: int,
    /// The row within that tile.
    pub row: int,
    /// The column within that tile.
    pub col: int,
    /// The colour channel: 0 for red, 1 for green, 2 for blue.
    pub channel: int,
}

/// The place of byte `i` in the mosaic of a source `width` pixels wide,
/// made of tiles of side `side`.
///
/// The mosaic is `width * side` pixels wide and stored row by row, three
/// bytes per pixel; its pixel `(x, y)` lies in the tile of source pixel
/// `(x / side, y / side)`, at column `x % side` of row `y % side`.
pub open spec fn place_of(width: int, side: int, i: int) -> Place {
    let pixel = i / 3;
    let x = pixel % (width * side);
    let y = pixel / (width * side);
    Place { cell: (y / side) * width + x / side, row: y % side, col: x % side, channel: i % 3 }
}

/// The byte of the mosaic that lies at `place`.
pub open spec fn byte_at(width: int, side: int, place: Place) -> int {
    let x = (place.cell % width) * side + place.col;
    let y = (place.cell / width) * side + place.row;
    (y * (width * side) + x) * 3 + place.channel
}

/// `place` names a byte of the mosaic of a `width` by `height` source.
pub open spec fn place_valid(width: int, height: int, side: int, place: Place) -> bool {
    &&& 0 <= place.cell < width * height
    &&& 0 <= place.row < side
    &&& 0 <= place.col < side
    &&& 0 <= place.channel < 3
}

/// The number of bytes of the mosaic of a `width` by `height` source.
pub open spec fn mosaic_len(width: int, height: int, side: int) -> int {
    (width * side) * (height * side) * 3
}

/// The byte of a tile, four bytes per pixel, that shows at `place`.
pub open spec fn tile_byte(side: int, place: Place) -> int {
    (place.row * side + place.col) * 4 + place.channel
}

/// A two-digit number in base `base` is below `bound * base` when its
/// leading digit is below `bound`.
pub proof fn lemma_two_digits(high: int, low: int, base: int, bound: int)
    by (nonlinear_arith)
    requires
        0 <= high < bound,
        0 <= low < base,
    ensures
        0 <= high * base + low < bound * base,
        0 <= high * base,
{
}

/// Below `bound * base`, the leading digit is below `bound`.
pub proof fn lemma_leading_digit(value: int, base: int, bound: int)
    requires
        0 < base,
        0 <= value < bound * base,
    ensures
        0 <= value / base < bound,
        0 <= value % base < base,
        value == (value / base) * base + value % base,
{
    lemma_fundamental_div_mod(value, base);
    let q = value / base;
    let r = value % base;
    assert(0 <= r < base);
    assert(base * q == q * base) by (nonlinear_arith);
    assert(q < bound) by (nonlinear_arith)
        requires
            q * base + r < bound * base,
            0 <= r,
            0 < base,
    ;
    assert(0 <= q) by (nonlinear_arith)
        requires
            0 <= q * base + r,
            r < base,
            0 < base,
    ;
}

/// A valid place names a byte within the mosaic, and that byte lies at the place.
pub proof fn lemma_byte_at_place(width: int, height: int, side: int, place: Place)
    requires
        0 <= width,
        0 <= height,
        place_valid(width, height, side, place),
    ensures
        0 <= byte_at(width, side, place) < mosaic_len(width, height, side),
        place_of(width, side, byte_at(width, side, place)) == place,
        0 <= tile_byte(side, place) < side * side * 4,
{
    assert(0 < width && 0 < height) by (nonlinear_arith)
        requires
            0 <= width,
            0 <= height,
            0 < width * height,
    ;
    assert(width * height == height * width) by (nonlinear_arith);
    lemma_leading_digit(place.cell, width, height);
    let tile_x = place.cell % width;
    let tile_y = place.cell / width;
    let x = tile_x * side + place.col;
    let y = tile_y * side + place.row;
    let out_w = width * side;
    let out_h = height * side;
    lemma_two_digits(tile_x, place.col, side, width);
    lemma_two_digits(tile_y, place.row, side, height);
    lemma_two_digits(y, x, out_w, out_h);
    let pixel = y * out_w + x;
    assert(out_h * out_w == out_w * out_h) by (nonlinear_arith);
    lemma_fundamental_div_mod_converse(pixel, out_w, y, x);
    lemma_fundamental_div_mod_converse(x, side, tile_x, place.col);
    lemma_fundamental_div_mod_converse(y, side, tile_y, place.row);
    let i = pixel * 3 + place.channel;
    assert(i / 3 == pixel && i % 3 == place.channel);
    lemma_two_digits(place.row, place.col, side, side);
}

/// Every byte of the mosaic lies at a valid place, and at no other byte's place.
pub proof fn lemma_place_of_byte(width: int, height: int, side: int, i: int)
    requires
        0 <= width,
        0 <= height,
        0 <= side,
        0 <= i < mosaic_len(width, height, side),
    ensures
        place_valid(width, height, side, place_of(width, side, i)),
        byte_at(width, side, place_of(width, side, i)) == i,
{
    let out_w = width * side;
    let out_h = height * side;
    assert(0 <= out_w && 0 <= out_h) by (nonlinear_arith)
        requires
            0 <= width,
            0 <= height,
            0 <= side,
            out_w == width * side,
            out_h == height * side,
    ;
    assert(0 < out_w && 0 < out_h) by (nonlinear_arith)
        requires
            0 <= out_w,
            0 <= out_h,
            0 < out_w * out_h * 3,
    ;
    assert(0 < side && 0 < width && 0 < height) by (nonlinear_arith)
        requires
            0 <= width,
            0 <= height,
            0 <= side,
            0 < width * side,
            0 < height * side,
    ;
    let pixel = i / 3;
    assert(out_w * out_h == out_h * out_w) by (nonlinear_arith);
    lemma_leading_digit(pixel, out_w, out_h);
    let x = pixel % out_w;
    let y = pixel / out_w;
    lemma_leading_digit(x, side, width);
    lemma_leading_digit(y, side, height);
    let tile_x = x / side;
    let tile_y = y / side;
    lemma_two_digits(tile_y, tile_x, width, height);
    assert(height * width == width * height) by (nonlinear_arith);
    let cell = tile_y * width + tile_x;
    lemma_fundamental_div_mod_converse(cell, width, tile_y, tile_x);
}

} // verus!
