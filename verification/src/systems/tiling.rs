use vstd::prelude::*;
use vstd::arithmetic::div_mod::lemma_fundamental_div_mod_converse;
use vstd::arithmetic::div_mod::lemma_fundamental_div_mod;
use crate::components::tile::{Tile, DEFAULT_TILE_SIZE};

verus! {

/// The edge of a full tile, as a pixel coordinate.
const TILE_EDGE: u16 = 16;

/// Number of tiles needed along an axis of `extent` pixels.
pub open spec fn tile_count(extent: int) -> int {
    (extent + DEFAULT_TILE_SIZE - 1) / (DEFAULT_TILE_SIZE as int)
}

/// First pixel of the `i`-th tile along an axis.
pub open spec fn span_start(i: int) -> int {
    DEFAULT_TILE_SIZE * i
}

/// One past the last pixel of the `i`-th tile along an axis of `extent`
/// pixels: a boundary tile is shrunk to the image, never padded.
pub open spec fn span_end(extent: int, i: int) -> int {
    if span_start(i) + DEFAULT_TILE_SIZE <= extent {
        span_start(i) + DEFAULT_TILE_SIZE
    } else {
        extent
    }
}

/// The tile in column `col` and row `row` of the grid laid over a
/// `width` x `height` image.
pub open spec fn grid_tile(width: int, height: int, col: int, row: int) -> Tile {
    Tile {
        x_start: span_start(col) as u16,
        x_end: span_end(width, col) as u16,
        y_start: span_start(row) as u16,
        y_end: span_end(height, row) as u16,
    }
}

/// The tiles of a `width` x `height` image, row by row, each row from left
/// to right.
pub open spec fn tiling(width: int, height: int) -> Seq<Tile> {
    Seq::new(
        (tile_count(height) * tile_count(width)) as nat,
        |k: int| grid_tile(width, height, k % tile_count(width), k / tile_count(width)),
    )
}

/// Splits an image into square tiles with an edge of `DEFAULT_TILE_SIZE`
/// pixels; where the image is not divisible, the tiles on its right and
/// bottom edge are smaller.
pub struct TilingSystem;

impl TilingSystem {
    /// End of the tile that starts at `start` on an axis of `extent` pixels.
    fn span_end_from(extent: u16, start: u16, Ghost(i): Ghost<int>) -> (end: u16)
        requires
            start == span_start(i),
            start < extent,
            0 <= i,
        ensures
            end == span_end(extent as int, i),
            start < end <= extent,
            end == extent <==> i + 1 == tile_count(extent as int),
            end < extent ==> end == span_start(i + 1),
    {
        if extent - start >= TILE_EDGE {
            start + TILE_EDGE
        } else {
            extent
        }
    }

    /// The tiles of an image of `width` x `height` pixels, row by row.
    pub fn run(&mut self, width: u16, height: u16) -> (tiles: Vec<Tile>)
        ensures
            tiles@ == tiling(width as int, height as int),
    {
        let ghost cols = tile_count(width as int);
        let ghost rows = tile_count(height as int);
        let ghost mut row: int = 0;
        let mut tiles: Vec<Tile> = Vec::new();
        let mut y_start: u16 = 0;
        while y_start < height
            invariant
                cols == tile_count(width as int),
                rows == tile_count(height as int),
                0 <= row <= rows,
                row < rows ==> y_start == span_start(row),
                row == rows ==> y_start == height,
                tiles.len() == row * cols,
                forall|k: int|
                    0 <= k < tiles.len() ==> tiles[k] == grid_tile(
                        width as int,
                        height as int,
                        k % cols,
                        k / cols,
                    ),
            decreases rows - row,
        {
            let y_end = Self::span_end_from(height, y_start, Ghost(row));
            let ghost mut col: int = 0;
            let mut x_start: u16 = 0;
            while x_start < width
                invariant
                    cols == tile_count(width as int),
                    rows == tile_count(height as int),
                    0 <= row < rows,
                    y_start == span_start(row),
                    y_end == span_end(height as int, row),
                    0 <= col <= cols,
                    col < cols ==> x_start == span_start(col),
                    col == cols ==> x_start == width,
                    tiles.len() == row * cols + col,
                    forall|k: int|
                        0 <= k < tiles.len() ==> tiles[k] == grid_tile(
                            width as int,
                            height as int,
                            k % cols,
                            k / cols,
                        ),
                decreases cols - col,
            {
                let x_end = Self::span_end_from(width, x_start, Ghost(col));
                proof {
                    lemma_fundamental_div_mod_converse(row * cols + col, cols, row, col);
                }
                tiles.push(Tile { x_start, x_end, y_start, y_end });
                x_start = x_end;
                proof {
                    col = col + 1;
                }
            }
            proof {
                assert((row + 1) * cols == row * cols + cols) by (nonlinear_arith);
                row = row + 1;
            }
            y_start = y_end;
        }
        proof {
            assert(tiles@ =~= tiling(width as int, height as int));
        }
        tiles
    }
}

/// Index, in `tiling`, of the tile that holds pixel `(x, y)`.
pub open spec fn tile_index_of(width: int, x: int, y: int) -> int {
    (y / (DEFAULT_TILE_SIZE as int)) * tile_count(width) + x / (DEFAULT_TILE_SIZE as int)
}

/// Position of a grid cell in the row-major list, and back.
proof fn lemma_grid_index(cols: int, rows: int, col: int, row: int)
    requires
        0 <= col < cols,
        0 <= row < rows,
    ensures
        0 <= row * cols + col < rows * cols,
        (row * cols + col) % cols == col,
        (row * cols + col) / cols == row,
{
    lemma_fundamental_div_mod_converse(row * cols + col, cols, row, col);
    assert(0 <= row * cols) by (nonlinear_arith)
        requires
            0 <= row,
            0 <= cols,
    ;
    assert(row * cols + cols <= rows * cols) by (nonlinear_arith)
        requires
            row + 1 <= rows,
            0 <= cols,
    ;
}

/// Every index of the row-major list names one grid cell.
proof fn lemma_grid_cell(cols: int, rows: int, k: int)
    requires
        0 <= k < rows * cols,
        0 <= cols,
        0 <= rows,
    ensures
        0 <= k % cols < cols,
        0 <= k / cols < rows,
        k == (k / cols) * cols + k % cols,
{
    assert(cols > 0) by (nonlinear_arith)
        requires
            0 <= k < rows * cols,
            0 <= cols,
    ;
    lemma_fundamental_div_mod(k, cols);
    let q = k / cols;
    assert(cols * q == q * cols) by (nonlinear_arith);
    assert(0 <= q < rows) by (nonlinear_arith)
        requires
            0 <= k < rows * cols,
            k == q * cols + k % cols,
            0 <= k % cols < cols,
            0 <= rows,
    ;
}

impl TilingSystem {
    /// Every tile of the tiling is a non-empty range, no larger than a full
    /// tile, that lies inside the image.
    pub proof fn tiles_lie_within_image(width: u16, height: u16)
        ensures
            forall|k: int|
                0 <= k < tiling(width as int, height as int).len() ==> {
                    let t = #[trigger] tiling(width as int, height as int)[k];
                    t.well_formed() && t.x_end <= width && t.y_end <= height
                },
    {
        let cols = tile_count(width as int);
        let rows = tile_count(height as int);
        assert forall|k: int| 0 <= k < tiling(width as int, height as int).len() implies {
            let t = #[trigger] tiling(width as int, height as int)[k];
            t.well_formed() && t.x_end <= width && t.y_end <= height
        } by {
            lemma_grid_cell(cols, rows, k);
        }
    }

    /// Every pixel of the image lies in the tile that `tile_index_of` names.
    pub proof fn tiles_cover_image(width: u16, height: u16, x: int, y: int)
        requires
            0 <= x < width,
            0 <= y < height,
        ensures
            0 <= tile_index_of(width as int, x, y) < tiling(width as int, height as int).len(),
            tiling(width as int, height as int)[tile_index_of(width as int, x, y)].covers(x, y),
    {
        let cols = tile_count(width as int);
        let rows = tile_count(height as int);
        lemma_grid_index(cols, rows, x / (DEFAULT_TILE_SIZE as int), y / (DEFAULT_TILE_SIZE as int));
    }

    /// No pixel lies in two tiles of the tiling.
    pub proof fn tiles_do_not_overlap(width: u16, height: u16, i: int, j: int, x: int, y: int)
        requires
            0 <= i < tiling(width as int, height as int).len(),
            0 <= j < tiling(width as int, height as int).len(),
            tiling(width as int, height as int)[i].covers(x, y),
            tiling(width as int, height as int)[j].covers(x, y),
        ensures
            i == j,
    {
        let cols = tile_count(width as int);
        let rows = tile_count(height as int);
        lemma_grid_cell(cols, rows, i);
        lemma_grid_cell(cols, rows, j);
        assert(i % cols == x / (DEFAULT_TILE_SIZE as int));
        assert(j % cols == x / (DEFAULT_TILE_SIZE as int));
        assert(i / cols == y / (DEFAULT_TILE_SIZE as int));
        assert(j / cols == y / (DEFAULT_TILE_SIZE as int));
    }

    /// The tiles partition the image: each lies inside it, and every pixel
    /// of `[0, width) x [0, height)` lies in exactly one of them.
    pub proof fn tiling_partitions_image(width: u16, height: u16)
        ensures
            forall|k: int|
                0 <= k < tiling(width as int, height as int).len() ==> {
                    let t = #[trigger] tiling(width as int, height as int)[k];
                    t.well_formed() && t.x_end <= width && t.y_end <= height
                },
            forall|x: int, y: int|
                0 <= x < width && 0 <= y < height ==> {
                    let k = #[trigger] tile_index_of(width as int, x, y);
                    0 <= k < tiling(width as int, height as int).len() && tiling(
                        width as int,
                        height as int,
                    )[k].covers(x, y)
                },
            forall|i: int, j: int, x: int, y: int|
                0 <= i < tiling(width as int, height as int).len() && 0 <= j < tiling(
                    width as int,
                    height as int,
                ).len() && #[trigger] tiling(width as int, height as int)[i].covers(x, y)
                    && #[trigger] tiling(width as int, height as int)[j].covers(x, y) ==> i == j,
    {
        Self::tiles_lie_within_image(width, height);
        assert forall|x: int, y: int| 0 <= x < width && 0 <= y < height implies {
            let k = #[trigger] tile_index_of(width as int, x, y);
            0 <= k < tiling(width as int, height as int).len() && tiling(
                width as int,
                height as int,
            )[k].covers(x, y)
        } by {
            Self::tiles_cover_image(width, height, x, y);
        }
        assert forall|i: int, j: int, x: int, y: int|
            0 <= i < tiling(width as int, height as int).len() && 0 <= j < tiling(
                width as int,
                height as int,
            ).len() && #[trigger] tiling(width as int, height as int)[i].covers(x, y)
                && #[trigger] tiling(width as int, height as int)[j].covers(x, y) implies i
            == j by {
            Self::tiles_do_not_overlap(width, height, i, j, x, y);
        }
    }
}

} // verus!
