//! Verified core of a tile-based ray tracer: the index-level rules of the
//! linear-algebra containers, the partition of an image into tiles, the
//! placement of per-tile batches on a canvas, and nearest-hit selection.

pub mod canvas;
pub mod components;
pub mod math;
pub mod ppm;
pub mod resources;
pub mod systems;

pub use canvas::{Batch, Canvas, BATCH_SIZE};
