//! Names for the unaligned integers of every width from 16 to 128 bits.
//!
//! Each name comes with the primitive that pivots its conversions: the
//! smallest primitive of the same signedness that holds every value of the
//! type. A type of a standard width has the primitive of that width, and the
//! conversion from it cannot fail.

use vstd::prelude::*;
use crate::unaligned::Unaligned;

verus! {

/// 16-bit unsigned integer with alignment 1; converts to and from `u16`.
pub type U16 = Unaligned<2, false>;

/// 16-bit signed integer with alignment 1; converts to and from `i16`.
pub type I16 = Unaligned<2, true>;

/// 24-bit unsigned integer with alignment 1; converts to and from `u32`.
pub type U24 = Unaligned<3, false>;

/// 24-bit signed integer with alignment 1; converts to and from `i32`.
pub type I24 = Unaligned<3, true>;

/// 32-bit unsigned integer with alignment 1; converts to and from `u32`.
pub type U32 = Unaligned<4, false>;

/// 32-bit signed integer with alignment 1; converts to and from `i32`.
pub type I32 = Unaligned<4, true>;

/// 40-bit unsigned integer with alignment 1; converts to and from `u64`.
pub type U40 = Unaligned<5, false>;

/// 40-bit signed integer with alignment 1; converts to and from `i64`.
pub type I40 = Unaligned<5, true>;

/// 48-bit unsigned integer with alignment 1; converts to and from `u64`.
pub type U48 = Unaligned<6, false>;

/// 48-bit signed integer with alignment 1; converts to and from `i64`.
pub type I48 = Unaligned<6, true>;

/// 56-bit unsigned integer with alignment 1; converts to and from `u64`.
pub type U56 = Unaligned<7, false>;

/// 56-bit signed integer with alignment 1; converts to and from `i64`.
pub type I56 = Unaligned<7, true>;

/// 64-bit unsigned integer with alignment 1; converts to and from `u64`.
pub type U64 = Unaligned<8, false>;

/// 64-bit signed integer with alignment 1; converts to and from `i64`.
pub type I64 = Unaligned<8, true>;

/// 72-bit unsigned integer with alignment 1; converts to and from `u128`.
pub type U72 = Unaligned<9, false>;

/// 72-bit signed integer with alignment 1; converts to and from `i128`.
pub type I72 = Unaligned<9, true>;

/// 80-bit unsigned integer with alignment 1; converts to and from `u128`.
pub type U80 = Unaligned<10, false>;

/// 80-bit signed integer with alignment 1; converts to and from `i128`.
pub type I80 = Unaligned<10, true>;

/// 88-bit unsigned integer with alignment 1; converts to and from `u128`.
pub type U88 = Unaligned<11, false>;

/// 88-bit signed integer with alignment 1; converts to and from `i128`.
pub type I88 = Unaligned<11, true>;

/// 96-bit unsigned integer with alignment 1; converts to and from `u128`.
pub type U96 = Unaligned<12, false>;

/// 96-bit signed integer with alignment 1; converts to and from `i128`.
pub type I96 = Unaligned<12, true>;

/// 104-bit unsigned integer with alignment 1; converts to and from `u128`.
pub type U104 = Unaligned<13, false>;

/// 104-bit signed integer with alignment 1; converts to and from `i128`.
pub type I104 = Unaligned<13, true>;

/// 112-bit unsigned integer with alignment 1; converts to and from `u128`.
pub type U112 = Unaligned<14, false>;

/// 112-bit signed integer with alignment 1; converts to and from `i128`.
pub type I112 = Unaligned<14, true>;

/// 120-bit unsigned integer with alignment 1; converts to and from `u128`.
pub type U120 = Unaligned<15, false>;

/// 120-bit signed integer with alignment 1; converts to and from `i128`.
pub type I120 = Unaligned<15, true>;

/// 128-bit unsigned integer with alignment 1; converts to and from `u128`.
pub type U128 = Unaligned<16, false>;

/// 128-bit signed integer with alignment 1; converts to and from `i128`.
pub type I128 = Unaligned<16, true>;

} // verus!
