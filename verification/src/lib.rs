//! Frame resolution, ephemeris window selection, frame-chain planning and the
//! decision logic of sequential orbit determination.
//!
//! Everything in this crate is exact: times are integer nanoseconds, paths are
//! index sequences, and every double-precision quantity is carried as an opaque
//! [`Scalar`](crate::scalar::Scalar) that is stored and compared but never computed
//! with. The numerical host evaluates the plans that the functions here return.

pub mod errors;
pub mod scalar;
pub mod time;
pub mod utils;
pub mod celestia;
pub mod od;
