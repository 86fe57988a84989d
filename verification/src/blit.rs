//! Copying one tile into its block of the mosaic.

use vstd::prelude::*;
use crate::grid::{
    byte_at, lemma_byte_at_place, lemma_place_of_byte, mosaic_len, place_of, place_valid,
    tile_byte, Place,
};

verus! {

/// The mosaic bytes `before`, with the tile of `cell` copied in.
///
/// The bytes of the cell's block take the tile's colour channels; every
/// other byte stays. Alpha, the fourth byte of a tile pixel, is never read.
pub open spec fn tile_placed(
    before: Seq<u8>,
    tile: Seq<u8>,
    width: int,
    side: int,
    cell: int,
) -> Seq<u8> {
    Seq::new(
        before.len(),
        |i: int|
            {
                let place = place_of(width, side, i);
                if place.cell == cell {
                    tile[tile_byte(side, place)]
                } else {
                    before[i]
                }
            },
    )
}

/// The mosaic bytes while the tile of `cell` is being copied: its rows above
/// `rows` are in, and of row `rows` the columns left of `cols`.
pub open spec fn tile_placed_upto(
    before: Seq<u8>,
    tile: Seq<u8>,
    width: int,
    side: int,
    cell: int,
    rows: int,
    cols: int,
) -> Seq<u8> {
    Seq::new(
        before.len(),
        |i: int|
            {
                let place = place_of(width, side, i);
                if place.cell == cell && (place.row < rows || (place.row == rows && place.col
                    < cols)) {
                    tile[tile_byte(side, place)]
                } else {
                    before[i]
                }
            },
    )
}

/// Writing the three channels of one tile pixel extends the copied part by
/// one column.
proof fn lemma_pixel_placed(
    before: Seq<u8>,
    tile: Seq<u8>,
    width: int,
    height: int,
    side: int,
    cell: int,
    row: int,
    col: int,
    current: Seq<u8>,
    next: Seq<u8>,
)
    requires
        0 <= width,
        0 <= height,
        0 <= side,
        place_valid(width, height, side, Place { cell, row, col, channel: 0 }),
        before.len() == mosaic_len(width, height, side),
        current == tile_placed_upto(before, tile, width, side, cell, row, col),
        ({
            let first = Place { cell, row, col, channel: 0 };
            let o = byte_at(width, side, first);
            let t = tile_byte(side, first);
            next == current.update(o, tile[t]).update(o + 1, tile[t + 1]).update(o + 2, tile[t + 2])
        }),
    ensures
        next == tile_placed_upto(before, tile, width, side, cell, row, col + 1),
{
    let red = Place { cell, row, col, channel: 0 };
    let green = Place { cell, row, col, channel: 1 };
    let blue = Place { cell, row, col, channel: 2 };
    lemma_byte_at_place(width, height, side, red);
    lemma_byte_at_place(width, height, side, green);
    lemma_byte_at_place(width, height, side, blue);
    let o = byte_at(width, side, red);
    let goal = tile_placed_upto(before, tile, width, side, cell, row, col + 1);
    assert forall|i: int| 0 <= i < before.len() implies next[i] == goal[i] by {
        lemma_place_of_byte(width, height, side, i);
        let place = place_of(width, side, i);
        if place.cell == cell && place.row == row && place.col == col {
            assert(i == o + place.channel);
        }
    }
    assert(next =~= goal);
}

/// Copies the colour channels of `tile` into the block of source pixel
/// `cell`, row by row.
pub(crate) fn place_tile(
    out: &mut Vec<u8>,
    tile: &Vec<u8>,
    width: usize,
    height: usize,
    side: usize,
    cell: usize,
)
    requires
        cell < width * height,
        0 < side,
        tile.len() == side * side * 4,
        old(out).len() == mosaic_len(width as int, height as int, side as int),
    ensures
        final(out)@ == tile_placed(old(out)@, tile@, width as int, side as int, cell as int),
{
    let ghost before = out@;
    let ghost w = width as int;
    let ghost h = height as int;
    let ghost s = side as int;
    let ghost c = cell as int;
    proof {
        lemma_byte_at_place(w, h, s, Place { cell: c, row: 0, col: 0, channel: 0 });
    }
    let tile_x: usize = cell % width;
    let tile_y: usize = cell / width;
    assert(out.len() == (w * s) * (h * s) * 3);
    assert(0 <= w * s <= out.len()) by (nonlinear_arith)
        requires
            out.len() == (w * s) * (h * s) * 3,
            0 < w,
            0 < h,
            0 < s,
    ;
    let out_w: usize = width * side;
    let mut row: usize = 0;
    while row < side
        invariant
            0 <= row <= side,
            0 < side,
            0 < width,
            cell < width * height,
            tile_x == cell % width,
            tile_y == cell / width,
            out_w == width * side,
            w == width,
            h == height,
            s == side,
            c == cell,
            tile.len() == side * side * 4,
            before.len() == mosaic_len(w, h, s),
            out.len() == before.len(),
            out@ == tile_placed_upto(before, tile@, w, s, c, row as int, 0),
        decreases side - row,
    {
        let mut col: usize = 0;
        while col < side
            invariant
                0 <= col <= side,
                row < side,
                0 < width,
                cell < width * height,
                tile_x == cell % width,
                tile_y == cell / width,
                out_w == width * side,
                w == width,
                h == height,
                s == side,
                c == cell,
                tile.len() == side * side * 4,
                before.len() == mosaic_len(w, h, s),
                out.len() == before.len(),
                out@ == tile_placed_upto(before, tile@, w, s, c, row as int, col as int),
            decreases side - col,
        {
            let ghost first = Place { cell: c, row: row as int, col: col as int, channel: 0 };
            let ghost current = out@;
            proof {
                lemma_byte_at_place(w, h, s, first);
                lemma_byte_at_place(w, h, s, Place { channel: 2, ..first });
                lemma_offsets_fit(w, s, tile_x as int, tile_y as int, row as int, col as int);
            }
            let x: usize = tile_x * side + col;
            let y: usize = tile_y * side + row;
            let o: usize = (y * out_w + x) * 3;
            let t: usize = (row * side + col) * 4;
            out.set(o, tile[t]);
            out.set(o + 1, tile[t + 1]);
            out.set(o + 2, tile[t + 2]);
            proof {
                lemma_pixel_placed(
                    before,
                    tile@,
                    w,
                    h,
                    s,
                    c,
                    row as int,
                    col as int,
                    current,
                    out@,
                );
            }
            col = col + 1;
        }
        assert(out@ =~= tile_placed_upto(before, tile@, w, s, c, row + 1, 0)) by {
            assert forall|i: int| 0 <= i < before.len() implies #[trigger] out@[i]
                == tile_placed_upto(before, tile@, w, s, c, row + 1, 0)[i] by {
                lemma_place_of_byte(w, h, s, i);
            }
        }
        row = row + 1;
    }
    assert(out@ =~= tile_placed(before, tile@, w, s, c)) by {
        assert forall|i: int| 0 <= i < before.len() implies #[trigger] out@[i] == tile_placed(
            before,
            tile@,
            w,
            s,
            c,
        )[i] by {
            lemma_place_of_byte(w, h, s, i);
        }
    }
}

/// The partial sums on the way to a byte's offset are no larger than the
/// offset's pixel, nor those on the way to a tile byte than that byte.
proof fn lemma_offsets_fit(width: int, side: int, tile_x: int, tile_y: int, row: int, col: int)
    by (nonlinear_arith)
    requires
        0 < width,
        0 < side,
        0 <= tile_x,
        0 <= tile_y,
        0 <= row,
        0 <= col,
    ensures
        0 <= tile_x * side,
        0 <= tile_y * side,
        tile_y * side + row <= (tile_y * side + row) * (width * side),
        0 <= row * side,
{
}

} // verus!
