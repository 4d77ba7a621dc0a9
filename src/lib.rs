//! Fixed-size, column-major matrix storage whose row and column counts may be
//! spelled with either typenum's or nalgebra's type-level integers.
mod array;
pub mod conv;
pub mod matrix;
pub mod storage;

pub use conv::Conv;
pub use matrix::{GenericMatrixExt, GenericMatrixFromExt};
pub use storage::GenericArrayStorage;
