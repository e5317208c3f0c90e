use vstd::prelude::*;
use crate::components::tile::{Tile, DEFAULT_TILE_SIZE};

verus! {

/// Number of pixels that the buffer of a batch holds: one full tile.
pub const BATCH_SIZE: usize = 256;

/// Place, in the buffer of a batch for `tile`, of the pixel `(x, y)`.
pub open spec fn batch_index(tile: Tile, x: int, y: int) -> int {
    (y - tile.y_start) * DEFAULT_TILE_SIZE + (x - tile.x_start)
}

/// The pixels of one tile, row by row, in a buffer of `BATCH_SIZE` places.
pub struct Batch<P> {
    pub tile: Tile,
    pub colors: [P; BATCH_SIZE],
}

impl<P: Copy> Batch<P> {
    /// The tile is no larger than a full tile, so that each of its pixels
    /// has a place of its own in the buffer.
    pub open spec fn well_formed(self) -> bool {
        &&& self.tile.spec_width() <= DEFAULT_TILE_SIZE
        &&& self.tile.spec_height() <= DEFAULT_TILE_SIZE
    }

    /// The tile lies inside an image of `width` x `height` pixels.
    pub open spec fn fits(self, width: int, height: int) -> bool {
        &&& self.well_formed()
        &&& self.tile.x_end <= width
        &&& self.tile.y_end <= height
    }

    /// What the batch holds for the pixel `(x, y)` of the image.
    pub open spec fn color_at(self, x: int, y: int) -> P {
        self.colors@[batch_index(self.tile, x, y)]
    }

    /// A batch for `tile` with every place set to `background`.
    pub fn new(tile: Tile, background: P) -> (batch: Batch<P>)
        ensures
            batch.tile == tile,
            forall|i: int| 0 <= i < BATCH_SIZE ==> batch.colors@[i] == background,
    {
        Batch { tile, colors: [background; 256] }
    }

    /// Stores `color` for the pixel `(x, y)` of the image.
    pub fn put(&mut self, x: u16, y: u16, color: P)
        requires
            old(self).well_formed(),
            old(self).tile.covers(x as int, y as int),
        ensures
            final(self).tile == old(self).tile,
            final(self).colors@ == old(self).colors@.update(
                batch_index(old(self).tile, x as int, y as int),
                color,
            ),
    {
        let index = (y - self.tile.y_start) as usize * DEFAULT_TILE_SIZE + (x
            - self.tile.x_start) as usize;
        self.colors[index] = color;
    }

    /// The colour stored for the pixel `(x, y)` of the image.
    pub fn get(&self, x: u16, y: u16) -> (color: P)
        requires
            self.well_formed(),
            self.tile.covers(x as int, y as int),
        ensures
            color == self.color_at(x as int, y as int),
    {
        let index = (y - self.tile.y_start) as usize * DEFAULT_TILE_SIZE + (x
            - self.tile.x_start) as usize;
        self.colors[index]
    }
}

/// What the merge of `batches` over `background` leaves at pixel `(x, y)`:
/// the colour of the last batch whose tile holds the pixel, or the
/// background where no tile does.
pub open spec fn merged_color<P: Copy>(batches: Seq<Batch<P>>, background: P, x: int, y: int) -> P
    decreases batches.len(),
{
    if batches.len() == 0 {
        background
    } else if batches.last().tile.covers(x, y) {
        batches.last().color_at(x, y)
    } else {
        merged_color(batches.drop_last(), background, x, y)
    }
}

/// A `width` x `height` grid of colours, stored row by row.
#[derive(Debug, PartialEq)]
pub struct Canvas<P> {
    canvas: Vec<P>,
    height: usize,
    width: usize,
}

impl<P: Copy> Canvas<P> {
    /// Number of pixel columns.
    pub closed spec fn spec_width(self) -> int {
        self.width as int
    }

    /// Number of pixel rows.
    pub closed spec fn spec_height(self) -> int {
        self.height as int
    }

    /// The colours, row by row.
    pub closed spec fn pixels(self) -> Seq<P> {
        self.canvas@
    }

    /// The buffer holds one colour for each pixel of the grid.
    pub closed spec fn well_formed(self) -> bool {
        &&& self.canvas@.len() == self.width * self.height
        &&& self.width * self.height <= usize::MAX
    }

    /// The colour at column `x` of row `y`.
    pub open spec fn color_at(self, x: int, y: int) -> P {
        self.pixels()[grid_place(self.spec_width(), x, y)]
    }

    /// A well-formed canvas holds one colour for each pixel of its grid, and
    /// `grid_place` names the place of each.
    pub proof fn pixels_fill_the_grid(self, x: int, y: int)
        requires
            self.well_formed(),
            0 <= x < self.spec_width(),
            0 <= y < self.spec_height(),
        ensures
            self.pixels().len() == self.spec_width() * self.spec_height(),
            0 <= grid_place(self.spec_width(), x, y) < self.pixels().len(),
    {
        lemma_grid_place(self.spec_width(), self.spec_height(), x, y);
    }

    /// A canvas with every pixel set to `background`.
    pub fn new(width: usize, height: usize, background: P) -> (canvas: Canvas<P>)
        requires
            width * height <= usize::MAX,
        ensures
            canvas.well_formed(),
            canvas.spec_width() == width,
            canvas.spec_height() == height,
            canvas.pixels() == Seq::new((width * height) as nat, |i: int| background),
    {
        let canvas = Self::filled(width * height, background);
        Canvas { canvas, height, width }
    }

    /// A buffer of `len` copies of `background`.
    fn filled(len: usize, background: P) -> (buffer: Vec<P>)
        ensures
            buffer@ == Seq::new(len as nat, |i: int| background),
    {
        let mut buffer: Vec<P> = Vec::new();
        let mut i: usize = 0;
        while i < len
            invariant
                i <= len,
                buffer@ == Seq::new(i as nat, |k: int| background),
            decreases len - i,
        {
            buffer.push(background);
            i = i + 1;
            assert(buffer@ =~= Seq::new(i as nat, |k: int| background));
        }
        buffer
    }

    /// Merges the batches of a render into one canvas: each batch's colours
    /// go to the pixels that its tile names.
    pub fn from_batches(width: usize, height: usize, background: P, batches: &[Batch<P>]) -> (canvas:
        Canvas<P>)
        requires
            width * height <= usize::MAX,
            forall|b: int| 0 <= b < batches@.len() ==> (#[trigger] batches@[b]).fits(
                width as int,
                height as int,
            ),
        ensures
            canvas.well_formed(),
            canvas.spec_width() == width,
            canvas.spec_height() == height,
            forall|x: int, y: int|
                0 <= x < width && 0 <= y < height ==> #[trigger] canvas.color_at(x, y)
                    == merged_color(batches@, background, x, y),
    {
        let mut canvas = Self::new(width, height, background);
        assert forall|x: int, y: int| 0 <= x < width && 0 <= y < height implies #[trigger] canvas.color_at(
            x,
            y,
        ) == merged_color(batches@.take(0), background, x, y) by {
            lemma_grid_place(width as int, height as int, x, y);
        }
        let mut b: usize = 0;
        while b < batches.len()
            invariant
                b <= batches@.len(),
                canvas.well_formed(),
                canvas.spec_width() == width,
                canvas.spec_height() == height,
                forall|k: int| 0 <= k < batches@.len() ==> (#[trigger] batches@[k]).fits(
                    width as int,
                    height as int,
                ),
                forall|x: int, y: int|
                    0 <= x < width && 0 <= y < height ==> #[trigger] canvas.color_at(x, y)
                        == merged_color(batches@.take(b as int), background, x, y),
            decreases batches@.len() - b,
        {
            canvas.place(&batches[b]);
            proof {
                let done = batches@.take(b as int + 1);
                assert(done.drop_last() =~= batches@.take(b as int));
                assert(done.last() == batches@[b as int]);
            }
            b = b + 1;
        }
        proof {
            assert(batches@.take(b as int) =~= batches@);
        }
        canvas
    }

    /// Writes the colours of one batch to the pixels that its tile names.
    fn place(&mut self, batch: &Batch<P>)
        requires
            old(self).well_formed(),
            batch.fits(old(self).spec_width(), old(self).spec_height()),
        ensures
            final(self).well_formed(),
            final(self).spec_width() == old(self).spec_width(),
            final(self).spec_height() == old(self).spec_height(),
            forall|x: int, y: int|
                0 <= x < old(self).spec_width() && 0 <= y < old(self).spec_height()
                    ==> #[trigger] final(self).color_at(x, y) == if batch.tile.covers(x, y) {
                    batch.color_at(x, y)
                } else {
                    old(self).color_at(x, y)
                },
    {
        let tile = batch.tile;
        let mut y: u16 = tile.y_start;
        while y < tile.y_end
            invariant
                tile == batch.tile,
                tile.y_start <= y,
                self.well_formed(),
                batch.fits(self.spec_width(), self.spec_height()),
                self.spec_width() == old(self).spec_width(),
                self.spec_height() == old(self).spec_height(),
                forall|px: int, py: int|
                    0 <= px < self.spec_width() && 0 <= py < self.spec_height()
                        ==> #[trigger] self.color_at(px, py) == if tile.covers(px, py) && py < y {
                        batch.color_at(px, py)
                    } else {
                        old(self).color_at(px, py)
                    },
            decreases tile.y_end - y,
        {
            let mut x: u16 = tile.x_start;
            while x < tile.x_end
                invariant
                    tile == batch.tile,
                    tile.y_start <= y < tile.y_end,
                    tile.x_start <= x,
                    self.well_formed(),
                    batch.fits(self.spec_width(), self.spec_height()),
                    self.spec_width() == old(self).spec_width(),
                    self.spec_height() == old(self).spec_height(),
                    forall|px: int, py: int|
                        0 <= px < self.spec_width() && 0 <= py < self.spec_height()
                            ==> #[trigger] self.color_at(px, py) == if tile.covers(px, py) && (py
                            < y || (py == y && px < x)) {
                            batch.color_at(px, py)
                        } else {
                            old(self).color_at(px, py)
                        },
                decreases tile.x_end - x,
            {
                let color = batch.get(x, y);
                self.write(x as usize, y as usize, &color);
                x = x + 1;
            }
            y = y + 1;
        }
    }

    /// Sets the pixel at column `x` of row `y` to `color`.
    pub fn write(&mut self, x: usize, y: usize, color: &P)
        requires
            old(self).well_formed(),
            x < old(self).spec_width(),
            y < old(self).spec_height(),
        ensures
            final(self).well_formed(),
            final(self).spec_width() == old(self).spec_width(),
            final(self).spec_height() == old(self).spec_height(),
            final(self).pixels() == old(self).pixels().update(
                grid_place(old(self).spec_width(), x as int, y as int),
                *color,
            ),
            final(self).color_at(x as int, y as int) == *color,
            forall|px: int, py: int|
                0 <= px < old(self).spec_width() && 0 <= py < old(self).spec_height() && (px != x
                    || py != y) ==> #[trigger] final(self).color_at(px, py) == old(self).color_at(
                    px,
                    py,
                ),
    {
        proof {
            lemma_grid_place(self.width as int, self.height as int, x as int, y as int);
            assert forall|px: int, py: int|
                0 <= px < self.width && 0 <= py < self.height && (px != x || py != y) implies {
                &&& #[trigger] grid_place(self.width as int, px, py) != grid_place(
                    self.width as int,
                    x as int,
                    y as int,
                )
                &&& 0 <= grid_place(self.width as int, px, py) < self.canvas@.len()
            } by {
                lemma_grid_place(self.width as int, self.height as int, px, py);
                if grid_place(self.width as int, px, py) == grid_place(
                    self.width as int,
                    x as int,
                    y as int,
                ) {
                    lemma_grid_place_injective(self.width as int, px, py, x as int, y as int);
                }
            }
        }
        let index = y * self.width + x;
        self.canvas.set(index, *color);
    }

    /// The colour at column `x` of row `y`.
    pub fn pixel(&self, x: usize, y: usize) -> (color: P)
        requires
            self.well_formed(),
            x < self.spec_width(),
            y < self.spec_height(),
        ensures
            color == self.color_at(x as int, y as int),
    {
        proof {
            lemma_grid_place(self.width as int, self.height as int, x as int, y as int);
        }
        self.canvas[y * self.width + x]
    }

    /// Number of pixel columns.
    pub fn width(&self) -> (width: usize)
        ensures
            width == self.spec_width(),
    {
        self.width
    }

    /// Number of pixel rows.
    pub fn height(&self) -> (height: usize)
        ensures
            height == self.spec_height(),
    {
        self.height
    }

    /// The colours, row by row.
    pub fn as_slice(&self) -> (colors: &[P])
        ensures
            colors@ == self.pixels(),
    {
        self.canvas.as_slice()
    }
}

/// Place of pixel `(x, y)` in a row-major buffer of rows of `width` pixels.
pub open spec fn grid_place(width: int, x: int, y: int) -> int {
    y * width + x
}

/// The place of pixel `(x, y)` in a row-major buffer lies inside the buffer.
pub proof fn lemma_grid_place(width: int, height: int, x: int, y: int)
    requires
        0 <= x < width,
        0 <= y < height,
    ensures
        0 <= grid_place(width, x, y) < width * height,
{
    assert(0 <= y * width) by (nonlinear_arith)
        requires
            0 <= y,
            0 <= width,
    ;
    assert(y * width + width <= width * height) by (nonlinear_arith)
        requires
            y + 1 <= height,
            0 <= width,
    ;
}

/// Two pixels of a row-major buffer share a place only if they are the same
/// pixel.
pub proof fn lemma_grid_place_injective(width: int, x1: int, y1: int, x2: int, y2: int)
    requires
        0 <= x1 < width,
        0 <= x2 < width,
        grid_place(width, x1, y1) == grid_place(width, x2, y2),
    ensures
        x1 == x2,
        y1 == y2,
{
    assert(y1 == y2) by (nonlinear_arith)
        requires
            0 <= x1 < width,
            0 <= x2 < width,
            y1 * width + x1 == y2 * width + x2,
    ;
}

/// No pixel lies in the tiles of two batches of the list.
pub open spec fn tiles_disjoint<P: Copy>(batches: Seq<Batch<P>>) -> bool {
    forall|i: int, j: int, x: int, y: int|
        0 <= i < batches.len() && 0 <= j < batches.len() && #[trigger] batches[i].tile.covers(x, y)
            && #[trigger] batches[j].tile.covers(x, y) ==> i == j
}

/// Where the tile of no batch holds a pixel, the merge leaves the
/// background there.
pub proof fn merged_color_outside_tiles<P: Copy>(
    batches: Seq<Batch<P>>,
    background: P,
    x: int,
    y: int,
)
    requires
        forall|j: int| 0 <= j < batches.len() ==> !(#[trigger] batches[j]).tile.covers(x, y),
    ensures
        merged_color(batches, background, x, y) == background,
    decreases batches.len(),
{
    if batches.len() > 0 {
        merged_color_outside_tiles(batches.drop_last(), background, x, y);
    }
}

/// Where the tile of exactly one batch holds a pixel, the merge leaves that
/// batch's colour there, wherever the batch stands in the list.
pub proof fn merged_color_inside_tile<P: Copy>(
    batches: Seq<Batch<P>>,
    background: P,
    k: int,
    x: int,
    y: int,
)
    requires
        0 <= k < batches.len(),
        batches[k].tile.covers(x, y),
        forall|j: int|
            0 <= j < batches.len() && j != k ==> !(#[trigger] batches[j]).tile.covers(x, y),
    ensures
        merged_color(batches, background, x, y) == batches[k].color_at(x, y),
    decreases batches.len(),
{
    if k < batches.len() - 1 {
        merged_color_inside_tile(batches.drop_last(), background, k, x, y);
    }
}

/// The merge does not depend on the order of the batches: two lists of the
/// same batches, each with tiles that do not overlap, give every pixel the
/// same colour.
pub proof fn merge_ignores_order<P: Copy>(
    first: Seq<Batch<P>>,
    second: Seq<Batch<P>>,
    background: P,
    x: int,
    y: int,
)
    requires
        tiles_disjoint(first),
        tiles_disjoint(second),
        forall|b: Batch<P>| first.contains(b) <==> second.contains(b),
    ensures
        merged_color(first, background, x, y) == merged_color(second, background, x, y),
{
    if exists|k: int| 0 <= k < first.len() && (#[trigger] first[k]).tile.covers(x, y) {
        let k = choose|k: int| 0 <= k < first.len() && (#[trigger] first[k]).tile.covers(x, y);
        assert(first.contains(first[k]));
        assert(second.contains(first[k]));
        let j = choose|j: int| 0 <= j < second.len() && second[j] == first[k];
        merged_color_inside_tile(first, background, k, x, y);
        merged_color_inside_tile(second, background, j, x, y);
    } else {
        assert forall|j: int| 0 <= j < second.len() implies !(#[trigger] second[j]).tile.covers(
            x,
            y,
        ) by {
            assert(second.contains(second[j]));
            assert(first.contains(second[j]));
        }
        merged_color_outside_tiles(first, background, x, y);
        merged_color_outside_tiles(second, background, x, y);
    }
}

} // verus!
