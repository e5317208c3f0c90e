use vstd::prelude::*;

verus! {

/// Edge length, in pixels, of a full render tile.
pub const DEFAULT_TILE_SIZE: usize = 16;

/// A rectangular, half-open pixel range `[x_start, x_end) x [y_start, y_end)`.
#[derive(Clone, Copy, Debug, PartialEq, Eq)]
pub struct Tile {
    pub x_start: u16,
    pub x_end: u16,
    pub y_start: u16,
    pub y_end: u16,
}

impl Tile {
    /// The pixel `(x, y)` lies inside the tile.
    pub open spec fn covers(self, x: int, y: int) -> bool {
        self.x_start <= x < self.x_end && self.y_start <= y < self.y_end
    }

    /// Number of pixel columns of the tile.
    pub open spec fn spec_width(self) -> int {
        self.x_end - self.x_start
    }

    /// Number of pixel rows of the tile.
    pub open spec fn spec_height(self) -> int {
        self.y_end - self.y_start
    }

    /// The tile is a non-empty range no larger than a full tile.
    pub open spec fn well_formed(self) -> bool {
        &&& 0 < self.spec_width() <= DEFAULT_TILE_SIZE
        &&& 0 < self.spec_height() <= DEFAULT_TILE_SIZE
    }
}

} // verus!
