//! The pivot primitive of an unaligned integer as a value.

use vstd::prelude::*;
use crate::unaligned::{repr_width, Unaligned};

verus! {

/// A primitive integer of one of the eight pivot types.
#[derive(Debug, Copy, Clone, PartialEq, Eq)]
pub enum Repr {
    U16(u16),
    U32(u32),
    U64(u64),
    U128(u128),
    I16(i16),
    I32(i32),
    I64(i64),
    I128(i128),
}

impl Repr {
    /// The number that the primitive holds.
    pub open spec fn as_int(self) -> int {
        match self {
            Repr::U16(x) => x as int,
            Repr::U32(x) => x as int,
            Repr::U64(x) => x as int,
            Repr::U128(x) => x as int,
            Repr::I16(x) => x as int,
            Repr::I32(x) => x as int,
            Repr::I64(x) => x as int,
            Repr::I128(x) => x as int,
        }
    }

    /// The width of the primitive in bytes.
    pub open spec fn width(self) -> nat {
        match self {
            Repr::U16(_) | Repr::I16(_) => 2,
            Repr::U32(_) | Repr::I32(_) => 4,
            Repr::U64(_) | Repr::I64(_) => 8,
            Repr::U128(_) | Repr::I128(_) => 16,
        }
    }

    /// Whether the primitive is of a signed type.
    pub open spec fn is_signed(self) -> bool {
        match self {
            Repr::U16(_) | Repr::U32(_) | Repr::U64(_) | Repr::U128(_) => false,
            Repr::I16(_) | Repr::I32(_) | Repr::I64(_) | Repr::I128(_) => true,
        }
    }
}

impl<const N: usize> Unaligned<N, false> {
    /// Converts the integer to its pivot primitive: the smallest unsigned
    /// primitive that holds every value of the type. The conversion is exact.
    pub fn to_repr(self) -> (r: Repr)
        requires
            1 <= N <= 16,
        ensures
            r.as_int() == self.value(),
            r.width() == repr_width(N as nat),
            !r.is_signed(),
    {
        let width = Self::repr_bytes();
        if width == 2 {
            Repr::U16(self.to_native())
        } else if width == 4 {
            Repr::U32(self.to_native())
        } else if width == 8 {
            Repr::U64(self.to_native())
        } else {
            Repr::U128(self.to_native())
        }
    }
}

impl<const N: usize> Unaligned<N, true> {
    /// Converts the integer to its pivot primitive: the smallest signed
    /// primitive that holds every value of the type. The conversion is exact.
    pub fn to_repr(self) -> (r: Repr)
        requires
            1 <= N <= 16,
        ensures
            r.as_int() == self.value(),
            r.width() == repr_width(N as nat),
            r.is_signed(),
    {
        let width = Self::repr_bytes();
        if width == 2 {
            Repr::I16(self.to_native())
        } else if width == 4 {
            Repr::I32(self.to_native())
        } else if width == 8 {
            Repr::I64(self.to_native())
        } else {
            Repr::I128(self.to_native())
        }
    }
}

} // verus!
