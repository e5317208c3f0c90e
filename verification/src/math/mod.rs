pub mod errors;
pub mod index;
pub mod matrix2;
pub mod matrix3;
pub mod matrix4;
pub mod tuple2;
pub mod tuple3;
pub mod tuple4;

pub use errors::{MatrixInversionError, PointCrossProductError, SubmatrixIndexError};
pub use index::cofactor_negates;
pub use matrix2::Matrix2;
pub use matrix3::Matrix3;
pub use matrix4::Matrix4;
pub use tuple2::Tuple2;
pub use tuple3::Tuple3;
pub use tuple4::Tuple4;
