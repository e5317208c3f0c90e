pub mod tile;

pub use tile::{Tile, Tiles, DEFAULT_TILE_SIZE};
