//! Fixed-width integers stored as plain byte arrays with alignment 1.
//!
//! The crate offers byte-order utilities, a generic unaligned integer type
//! for every width from 1 to 16 bytes, and exact conversions between these
//! types and the primitive integers. Arithmetic is done on primitives:
//! convert, compute, convert back.

pub mod convert;
pub mod error;
pub mod laws;
pub mod native;
pub mod order;
pub mod platform;
pub mod repr;
pub mod unaligned;
pub mod utils;
pub mod value;
pub mod widths;

pub use error::TryFromIntError;
pub use native::NativeInteger;
pub use repr::Repr;
pub use unaligned::Unaligned;
pub use widths::{
    I104, I112, I120, I128, I16, I24, I32, I40, I48, I56, I64, I72, I80, I88, I96, U104, U112,
    U120, U128, U16, U24, U32, U40, U48, U56, U64, U72, U80, U88, U96,
};
