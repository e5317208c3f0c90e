pub mod tiling;
pub mod tracing;

pub use tiling::TilingSystem;
pub use tracing::TracingSystem;
