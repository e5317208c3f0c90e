pub mod intersection;

pub use intersection::{hit, Distance, IntersectionRecord, IntersectionSubsystem};

use rayon::iter::{IntoParallelRefIterator, ParallelIterator};
use vstd::prelude::*;
use crate::canvas::{batch_index, merged_color_inside_tile, Batch, Canvas, BATCH_SIZE};
use crate::components::tile::{Tile, DEFAULT_TILE_SIZE};
use crate::systems::tiling::{tile_index_of, tiling, TilingSystem};

verus! {

/// The place `i` of a batch's buffer belongs to a pixel of `tile`.
pub open spec fn place_in_tile(tile: Tile, i: int) -> bool {
    exists|x: int, y: int| tile.covers(x, y) && #[trigger] batch_index(tile, x, y) == i
}

/// `color` is what `trace` may leave for the pixel `(x, y)`: the colour it
/// gives, or `background` where it gives none.
pub open spec fn traced<P, F: Fn(u16, u16) -> Option<P>>(
    trace: F,
    background: P,
    x: u16,
    y: u16,
    color: P,
) -> bool {
    ||| call_ensures(trace, (x, y), Some(color))
    ||| call_ensures(trace, (x, y), None::<P>) && color == background
}

/// `batch` is a rendering of `tile`: it holds, for each pixel of the tile,
/// what `trace` leaves for it, and `background` in every other place.
pub open spec fn renders<P: Copy, F: Fn(u16, u16) -> Option<P>>(
    batch: Batch<P>,
    tile: Tile,
    background: P,
    trace: F,
) -> bool {
    &&& batch.tile == tile
    &&& forall|x: u16, y: u16|
        tile.covers(x as int, y as int) ==> traced(
            trace,
            background,
            x,
            y,
            #[trigger] batch.color_at(x as int, y as int),
        )
    &&& forall|i: int|
        0 <= i < BATCH_SIZE && !place_in_tile(tile, i) ==> #[trigger] batch.colors@[i]
            == background
}

/// `trace` may be asked for every pixel of `tile`.
pub open spec fn traceable<P, F: Fn(u16, u16) -> Option<P>>(tile: Tile, trace: F) -> bool {
    forall|x: u16, y: u16| tile.covers(x as int, y as int) ==> #[trigger] call_requires(trace, (x, y))
}

/// Root of the tracing pass: works through the tiles of an image, leaves
/// one batch per tile, and merges the batches into the image.
pub struct TracingSystem;

impl TracingSystem {
    /// Traces every pixel of `tile` and collects the colours in a batch.
    /// `trace` gives the colour seen through a pixel, or `None` where the
    /// ray through it hits nothing; such a pixel keeps `background`.
    pub fn render_tile<P: Copy, F: Fn(u16, u16) -> Option<P>>(
        tile: Tile,
        background: P,
        trace: F,
    ) -> (batch: Batch<P>)
        requires
            tile.spec_width() <= DEFAULT_TILE_SIZE,
            tile.spec_height() <= DEFAULT_TILE_SIZE,
            traceable(tile, trace),
        ensures
            renders(batch, tile, background, trace),
    {
        let mut batch = Batch::new(tile, background);
        let mut y: u16 = tile.y_start;
        while y < tile.y_end
            invariant
                tile.spec_width() <= DEFAULT_TILE_SIZE,
                tile.spec_height() <= DEFAULT_TILE_SIZE,
                traceable(tile, trace),
                tile.y_start <= y,
                batch.tile == tile,
                forall|px: u16, py: u16|
                    tile.covers(px as int, py as int) && py < y ==> traced(
                        trace,
                        background,
                        px,
                        py,
                        #[trigger] batch.color_at(px as int, py as int),
                    ),
                forall|i: int|
                    0 <= i < BATCH_SIZE && !(exists|px: int, py: int|
                        tile.covers(px, py) && py < y && #[trigger] batch_index(tile, px, py) == i)
                        ==> #[trigger] batch.colors@[i] == background,
            decreases tile.y_end - y,
        {
            let mut x: u16 = tile.x_start;
            while x < tile.x_end
                invariant
                    tile.spec_width() <= DEFAULT_TILE_SIZE,
                    tile.spec_height() <= DEFAULT_TILE_SIZE,
                    traceable(tile, trace),
                    tile.y_start <= y < tile.y_end,
                    tile.x_start <= x,
                    batch.tile == tile,
                    forall|px: u16, py: u16|
                        tile.covers(px as int, py as int) && (py < y || (py == y && px < x))
                            ==> traced(
                            trace,
                            background,
                            px,
                            py,
                            #[trigger] batch.color_at(px as int, py as int),
                        ),
                    forall|i: int|
                        0 <= i < BATCH_SIZE && !(exists|px: int, py: int|
                            tile.covers(px, py) && (py < y || (py == y && px < x))
                                && #[trigger] batch_index(tile, px, py) == i)
                            ==> #[trigger] batch.colors@[i] == background,
                decreases tile.x_end - x,
            {
                let ghost before = batch;
                let ghost here = batch_index(tile, x as int, y as int);
                assert(batch.colors@[here] == background) by {
                    if exists|px: int, py: int|
                        tile.covers(px, py) && (py < y || (py == y && px < x))
                            && #[trigger] batch_index(tile, px, py) == here {
                        let (px, py) = choose|px: int, py: int|
                            tile.covers(px, py) && (py < y || (py == y && px < x))
                                && #[trigger] batch_index(tile, px, py) == here;
                        assert(false);
                    }
                }
                assert(tile.covers(x as int, y as int));
                match trace(x, y) {
                    Some(color) => {
                        batch.put(x, y, color);
                    },
                    None => {},
                }
                proof {
                    assert forall|px: u16, py: u16|
                        tile.covers(px as int, py as int) && (py < y || (py == y && px < x + 1)) implies traced(
                        trace,
                        background,
                        px,
                        py,
                        #[trigger] batch.color_at(px as int, py as int),
                    ) by {
                        if px != x || py != y {
                            assert(batch_index(tile, px as int, py as int) != here);
                            assert(batch.color_at(px as int, py as int) == before.color_at(
                                px as int,
                                py as int,
                            ));
                        }
                    }
                    assert forall|i: int|
                        0 <= i < BATCH_SIZE && !(exists|px: int, py: int|
                            tile.covers(px, py) && (py < y || (py == y && px < x + 1))
                                && #[trigger] batch_index(tile, px, py) == i) implies #[trigger] batch.colors@[i]
                        == background by {
                        assert(i != here) by {
                            if i == here {
                                assert(tile.covers(x as int, y as int) && batch_index(
                                    tile,
                                    x as int,
                                    y as int,
                                ) == i);
                            }
                        }
                        assert(!(exists|px: int, py: int|
                            tile.covers(px, py) && (py < y || (py == y && px < x))
                                && #[trigger] batch_index(tile, px, py) == i));
                    }
                }
                x = x + 1;
            }
            y = y + 1;
        }
        batch
    }

    /// Renders each tile of `tiles` on the worker threads of rayon's pool and
    /// collects the batches in the order of the tiles.
    ///
    /// Calls `par_iter` on the slice, `ParallelIterator::map` with one call
    /// of `render_tile` per tile, and `ParallelIterator::collect` into a
    /// `Vec`, which keeps the order of the items. Taken on trust: that the
    /// batch at each place is what `render_tile` returned for the tile at
    /// that place.
    #[verifier::external_body]
    fn render_tiles<P: Copy + Send + Sync, F: Fn(u16, u16) -> Option<P> + Sync>(
        tiles: &[Tile],
        background: P,
        trace: &F,
    ) -> (batches: Vec<Batch<P>>)
        requires
            forall|i: int|
                0 <= i < tiles@.len() ==> (#[trigger] tiles@[i]).spec_width() <= DEFAULT_TILE_SIZE
                    && tiles@[i].spec_height() <= DEFAULT_TILE_SIZE && traceable(tiles@[i], *trace),
        ensures
            batches@.len() == tiles@.len(),
            forall|i: int|
                0 <= i < tiles@.len() ==> renders(
                    #[trigger] batches@[i],
                    tiles@[i],
                    background,
                    *trace,
                ),
    {
        tiles.par_iter().map(|tile| Self::render_tile(*tile, background, trace)).collect()
    }

    /// Renders an image of `width` x `height` pixels: splits it into tiles,
    /// renders the tiles in parallel, and merges the batches. Every pixel of
    /// the image holds what `trace` leaves for it.
    pub fn run<P: Copy + Send + Sync, F: Fn(u16, u16) -> Option<P> + Sync>(
        &mut self,
        width: u16,
        height: u16,
        background: P,
        trace: F,
    ) -> (canvas: Canvas<P>)
        requires
            forall|x: u16, y: u16| x < width && y < height ==> #[trigger] call_requires(trace, (x, y)),
        ensures
            canvas.well_formed(),
            canvas.spec_width() == width,
            canvas.spec_height() == height,
            forall|x: u16, y: u16|
                x < width && y < height ==> traced(
                    trace,
                    background,
                    x,
                    y,
                    #[trigger] canvas.color_at(x as int, y as int),
                ),
    {
        let mut tiling_system = TilingSystem;
        let tiles = tiling_system.run(width, height);
        proof {
            TilingSystem::tiles_lie_within_image(width, height);
            assert forall|i: int| 0 <= i < tiles@.len() implies (#[trigger] tiles@[i]).spec_width()
                <= DEFAULT_TILE_SIZE && tiles@[i].spec_height() <= DEFAULT_TILE_SIZE && traceable(tiles@[i], trace) by {
                let tile = tiling(width as int, height as int)[i];
                assert(tile.well_formed() && tile.x_end <= width && tile.y_end <= height);
            }
        }
        let batches = Self::render_tiles(tiles.as_slice(), background, &trace);
        proof {
            assert(width * height <= usize::MAX) by (nonlinear_arith)
                requires
                    0 <= width <= 0xffff,
                    0 <= height <= 0xffff,
                    usize::MAX >= 0xffff_ffff,
            ;
            assert forall|b: int| 0 <= b < batches@.len() implies (#[trigger] batches@[b]).fits(
                width as int,
                height as int,
            ) by {
                let tile = tiling(width as int, height as int)[b];
                assert(tile.well_formed() && tile.x_end <= width && tile.y_end <= height);
                assert(renders(batches@[b], tiles@[b], background, trace));
            }
        }
        let canvas = Canvas::from_batches(
            width as usize,
            height as usize,
            background,
            batches.as_slice(),
        );
        proof {
            assert forall|x: u16, y: u16| x < width && y < height implies traced(
                trace,
                background,
                x,
                y,
                #[trigger] canvas.color_at(x as int, y as int),
            ) by {
                let k = tile_index_of(width as int, x as int, y as int);
                TilingSystem::tiles_cover_image(width, height, x as int, y as int);
                assert(renders(batches@[k], tiles@[k], background, trace));
                assert forall|j: int| 0 <= j < batches@.len() && j != k implies !(
                #[trigger] batches@[j]).tile.covers(x as int, y as int) by {
                    assert(renders(batches@[j], tiles@[j], background, trace));
                    if batches@[j].tile.covers(x as int, y as int) {
                        TilingSystem::tiles_do_not_overlap(width, height, j, k, x as int, y as int);
                    }
                }
                merged_color_inside_tile(batches@, background, k, x as int, y as int);
                assert(canvas.color_at(x as int, y as int) == batches@[k].color_at(
                    x as int,
                    y as int,
                ));
            }
        }
        canvas
    }
}

} // verus!
