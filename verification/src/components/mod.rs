pub mod tile;

pub use tile::{Tile, DEFAULT_TILE_SIZE};
