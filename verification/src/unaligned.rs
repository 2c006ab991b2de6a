//! The unaligned integer: a number of `N` bytes kept as a byte array in
//! native order, with alignment 1.

use vstd::prelude::*;
use vstd::endian::Endian;
use vstd::endian::endianness;
use crate::convert::{
    lemma_bytes_of_value, lemma_int_value_injective, msb_index, msb_pos, sign_bit_clear,
    sign_fill, try_narrow_bytes, widen_bytes, widen_spec,
};
use crate::error::{lemma_error_unique, out_of_range, TryFromIntError};
use crate::native::NativeInteger;
use crate::utils::{be_bytes_to_ne, le_bytes_to_ne, ne_bytes_to_be, ne_bytes_to_le, truncate_spec};
use crate::value::{
    bytes_of, fill_of, filled, in_be_order, in_le_order, int_value, lemma_bytes_of,
    lemma_le_value_bound, lemma_le_value_filled, lemma_le_value_push, lemma_pow256_positive,
    max_int, min_int, pow256,
};

verus! {

/// The width in bytes of the primitive that pivots the conversions of an
/// integer of `n` bytes: the smallest primitive that holds every value of
/// the type. The standard widths have the primitive of their own width, the
/// others the next wider one.
pub open spec fn repr_width(n: nat) -> nat {
    if n <= 2 {
        2
    } else if n <= 4 {
        4
    } else if n <= 8 {
        8
    } else {
        16
    }
}

/// An array whose first `k` bytes are those of `bytes`.
spec fn array_with<const N: usize>(bytes: Seq<u8>, k: nat) -> [u8; N]
    decreases k,
{
    if k == 0 {
        vstd::array::spec_array_fill_for_copy_type::<u8, N>(0x00)
    } else {
        vstd::array::spec_array_update(
            array_with::<N>(bytes, (k - 1) as nat),
            k - 1,
            bytes[k - 1],
        )
    }
}

proof fn lemma_array_with<const N: usize>(bytes: Seq<u8>, k: nat)
    requires
        k <= N,
    ensures
        forall|j: int| 0 <= j < k ==> array_with::<N>(bytes, k)@[j] == bytes[j],
    decreases k,
{
    if k > 0 {
        lemma_array_with::<N>(bytes, (k - 1) as nat);
    }
}

/// An integer of `N` bytes, signed (two's complement) or unsigned, that
/// occupies exactly `N` bytes and needs no alignment.
#[derive(Debug, Copy, Clone, PartialEq, Eq)]
pub struct Unaligned<const N: usize, const SIGNED: bool> {
    bytes: [u8; N],
}

impl<const N: usize, const SIGNED: bool> Unaligned<N, SIGNED> {
    /// The bytes of the integer in native order: all that the value holds.
    pub closed spec fn ne_bytes(self) -> Seq<u8> {
        self.bytes@
    }

    /// The number that the integer stands for.
    pub open spec fn value(self) -> int {
        int_value(self.ne_bytes(), endianness(), SIGNED)
    }

    /// An integer always holds `N` bytes.
    pub proof fn lemma_len(self)
        ensures
            self.ne_bytes().len() == N,
    {
    }

    /// Integers with the same bytes are the same integer.
    pub proof fn lemma_same_bytes(self, other: Self)
        requires
            self.ne_bytes() == other.ne_bytes(),
        ensures
            self == other,
    {
        assert(self.bytes =~= other.bytes);
    }

    /// Integers that stand for the same number are the same integer.
    pub proof fn lemma_same_value(self, other: Self)
        requires
            self.value() == other.value(),
        ensures
            self == other,
    {
        lemma_int_value_injective(self.ne_bytes(), other.ne_bytes(), endianness(), SIGNED);
        self.lemma_same_bytes(other);
    }

    /// The integer of this type whose bytes in native order are `bytes`.
    pub closed spec fn of_ne_bytes(bytes: Seq<u8>) -> Self {
        choose|v: Self| v.ne_bytes() == bytes
    }

    /// Every integer is the integer of its own bytes.
    pub proof fn lemma_of_own_bytes(self)
        ensures
            Self::of_ne_bytes(self.ne_bytes()) == self,
    {
        Self::of_ne_bytes(self.ne_bytes()).lemma_same_bytes(self);
    }

    /// The integer of this type that stands for the number `i`.
    pub closed spec fn of_value(i: int) -> Self {
        choose|v: Self| v.value() == i
    }

    /// What narrowing makes of the number `i`: the integer that stands for
    /// it when it lies within the range of the type, the error otherwise.
    pub open spec fn narrowed(i: int) -> Result<Self, TryFromIntError> {
        if min_int(N as nat, SIGNED) <= i <= max_int(N as nat, SIGNED) {
            Ok(Self::of_value(i))
        } else {
            Err(out_of_range())
        }
    }

    /// Every number within the range of the type has its integer.
    pub proof fn lemma_of_value(i: int)
        requires
            N >= 1,
            min_int(N as nat, SIGNED) <= i <= max_int(N as nat, SIGNED),
        ensures
            Self::of_value(i).value() == i,
    {
        let bytes = bytes_of(i, N as nat, endianness());
        lemma_bytes_of(i, N as nat, endianness(), SIGNED);
        lemma_array_with::<N>(bytes, N as nat);
        let witness = Unaligned::<N, SIGNED> { bytes: array_with::<N>(bytes, N as nat) };
        assert(witness.ne_bytes() =~= bytes);
        assert(witness.value() == i);
    }

    /// Every integer is the integer of its own number.
    pub proof fn lemma_of_own_value(self)
        ensures
            Self::of_value(self.value()) == self,
    {
        Self::of_value(self.value()).lemma_same_value(self);
    }

    /// Creates the integer from its bytes in native order.
    pub fn from_ne_bytes(bytes: [u8; N]) -> (v: Self)
        ensures
            v == Self::of_ne_bytes(bytes@),
            v.ne_bytes() == bytes@,
    {
        let v = Unaligned { bytes };
        proof {
            v.lemma_of_own_bytes();
        }
        v
    }

    /// Creates the integer from its bytes in little-endian order.
    pub fn from_le_bytes(bytes: [u8; N]) -> (v: Self)
        ensures
            v == Self::of_ne_bytes(in_le_order(bytes@, endianness())),
            v.ne_bytes() == in_le_order(bytes@, endianness()),
            v.value() == int_value(bytes@, Endian::Little, SIGNED),
    {
        let v = Unaligned { bytes: le_bytes_to_ne(bytes) };
        proof {
            assert(bytes@.reverse().reverse() =~= bytes@);
            v.lemma_of_own_bytes();
        }
        v
    }

    /// Creates the integer from its bytes in big-endian order.
    pub fn from_be_bytes(bytes: [u8; N]) -> (v: Self)
        ensures
            v == Self::of_ne_bytes(in_be_order(bytes@, endianness())),
            v.ne_bytes() == in_be_order(bytes@, endianness()),
            v.value() == int_value(bytes@, Endian::Big, SIGNED),
    {
        let v = Unaligned { bytes: be_bytes_to_ne(bytes) };
        proof {
            assert(bytes@.reverse().reverse() =~= bytes@);
            v.lemma_of_own_bytes();
        }
        v
    }

    /// Returns the bytes of the integer in native order.
    pub fn to_ne_bytes(self) -> (bytes: [u8; N])
        ensures
            bytes@ == self.ne_bytes(),
            bytes@ == bytes_of(self.value(), N as nat, endianness()),
    {
        proof {
            lemma_bytes_of_value(self.bytes@, endianness(), SIGNED);
        }
        self.bytes
    }

    /// Returns the bytes of the integer in little-endian order. They depend
    /// on the number alone, not on the machine.
    pub fn to_le_bytes(self) -> (bytes: [u8; N])
        ensures
            bytes@ == in_le_order(self.ne_bytes(), endianness()),
            bytes@ == bytes_of(self.value(), N as nat, Endian::Little),
            int_value(bytes@, Endian::Little, SIGNED) == self.value(),
    {
        let bytes = ne_bytes_to_le(self.bytes);
        proof {
            lemma_bytes_of_value(bytes@, Endian::Little, SIGNED);
        }
        bytes
    }

    /// Returns the bytes of the integer in big-endian order. They depend on
    /// the number alone, not on the machine.
    pub fn to_be_bytes(self) -> (bytes: [u8; N])
        ensures
            bytes@ == in_be_order(self.ne_bytes(), endianness()),
            bytes@ == bytes_of(self.value(), N as nat, Endian::Big),
            int_value(bytes@, Endian::Big, SIGNED) == self.value(),
    {
        let bytes = ne_bytes_to_be(self.bytes);
        proof {
            assert(self.bytes@.reverse().reverse() =~= self.bytes@);
            lemma_bytes_of_value(bytes@, Endian::Big, SIGNED);
        }
        bytes
    }

    /// Returns the byte that extends the integer when it is widened: `0x00`
    /// for an unsigned or non-negative integer, `0xFF` for a negative one.
    pub fn sign_ext_byte(self) -> (fill: u8)
        requires
            N >= 1,
        ensures
            fill == fill_of(self.ne_bytes(), endianness(), SIGNED),
            fill == if self.value() < 0 {
                0xFFu8
            } else {
                0x00u8
            },
    {
        proof {
            lemma_le_value_bound(in_le_order(self.bytes@, endianness()));
        }
        sign_fill(&self.bytes, SIGNED)
    }
}

impl<const N: usize, const SIGNED: bool> Unaligned<N, SIGNED> {
    /// Returns the number of bits of the integer type: eight for each byte.
    pub fn bits() -> (bits: u32)
        requires
            N <= 16,
        ensures
            bits == 8 * N,
    {
        let width: u32 = N as u32;
        8 * width
    }

    /// Returns the width in bytes of the primitive that pivots the
    /// conversions of this type: 2, 4, 8 or 16.
    pub fn repr_bytes() -> (width: usize)
        requires
            1 <= N <= 16,
        ensures
            width == repr_width(N as nat),
            N <= width,
    {
        if N <= 2 {
            2
        } else if N <= 4 {
            4
        } else if N <= 8 {
            8
        } else {
            16
        }
    }

    /// Returns the smallest integer of the type: all bytes zero for an
    /// unsigned type, only the sign bit set for a signed one.
    pub fn min_value() -> (v: Self)
        requires
            N >= 1,
        ensures
            v.value() == min_int(N as nat, SIGNED),
            v.ne_bytes() == if SIGNED {
                filled(N as nat, 0x00).update(msb_index(N as nat, endianness()) as int, 0x80u8)
            } else {
                filled(N as nat, 0x00)
            },
    {
        let mut bytes = [0x00u8;N];
        assert(bytes@ =~= filled(N as nat, 0x00));
        if SIGNED {
            bytes[msb_pos::<N>()] = 0x80;
        }
        proof {
            let low = filled((N - 1) as nat, 0x00);
            let top = if SIGNED {
                0x80u8
            } else {
                0x00u8
            };
            assert(in_le_order(bytes@, endianness()) =~= low.push(top));
            lemma_le_value_push(low, top);
            lemma_le_value_filled((N - 1) as nat);
            assert(pow256(N as nat) == 256 * pow256((N - 1) as nat));
        }
        Unaligned { bytes }
    }

    /// Returns the greatest integer of the type: all bits set for an unsigned
    /// type, all but the sign bit for a signed one.
    pub fn max_value() -> (v: Self)
        requires
            N >= 1,
        ensures
            v.value() == max_int(N as nat, SIGNED),
            v.ne_bytes() == if SIGNED {
                filled(N as nat, 0xFF).update(msb_index(N as nat, endianness()) as int, 0x7Fu8)
            } else {
                filled(N as nat, 0xFF)
            },
    {
        let mut bytes = [0xFFu8;N];
        assert(bytes@ =~= filled(N as nat, 0xFF));
        if SIGNED {
            bytes[msb_pos::<N>()] = 0x7F;
        }
        proof {
            let low = filled((N - 1) as nat, 0xFF);
            let top = if SIGNED {
                0x7Fu8
            } else {
                0xFFu8
            };
            assert(in_le_order(bytes@, endianness()) =~= low.push(top));
            lemma_le_value_push(low, top);
            lemma_le_value_filled((N - 1) as nat);
            assert(pow256(N as nat) == 256 * pow256((N - 1) as nat));
        }
        Unaligned { bytes }
    }

    /// Widens the integer to the `M` bytes that a primitive or a wider
    /// unaligned integer holds, in native order: the sign-extension byte
    /// fills the array, then the payload is placed. The number is unchanged.
    pub fn to_wider_ne_bytes<const M: usize>(self) -> (wide: [u8; M])
        requires
            1 <= N <= M,
        ensures
            wide@ == widen_spec(self.ne_bytes(), M as nat, endianness(), SIGNED),
            int_value(wide@, endianness(), SIGNED) == self.value(),
    {
        widen_bytes(&self.bytes, SIGNED)
    }

    /// Converts the integer to a wider unaligned integer of the same
    /// signedness. The number is unchanged.
    pub fn widen<const M: usize>(self) -> (wide: Unaligned<M, SIGNED>)
        requires
            1 <= N <= M,
        ensures
            wide == Unaligned::<M, SIGNED>::of_value(self.value()),
            wide.value() == self.value(),
            wide.ne_bytes() == widen_spec(self.ne_bytes(), M as nat, endianness(), SIGNED),
    {
        let wide = Unaligned { bytes: widen_bytes(&self.bytes, SIGNED) };
        proof {
            wide.lemma_of_own_value();
        }
        wide
    }

    /// Converts a wider unaligned integer of the same signedness to this
    /// type. Succeeds exactly when the number lies within the range of this
    /// type, and then keeps it; fails with the narrowing error otherwise.
    pub fn try_narrow<const M: usize>(wide: Unaligned<M, SIGNED>) -> (r: Result<
        Self,
        TryFromIntError,
    >)
        requires
            1 <= N <= M,
        ensures
            r == Self::narrowed(wide.value()),
            r matches Ok(v) ==> v.value() == wide.value() && v.ne_bytes() == truncate_spec(
                wide.ne_bytes(),
                N as nat,
                endianness(),
            ),
    {
        match try_narrow_bytes::<N, M>(&wide.bytes, SIGNED) {
            Ok(bytes) => {
                let v = Unaligned { bytes };
                proof {
                    v.lemma_of_own_value();
                }
                Ok(v)
            },
            Err(e) => {
                proof {
                    lemma_error_unique(e, out_of_range());
                }
                Err(e)
            },
        }
    }

    /// Converts the integer to a primitive that is at least as wide and of
    /// the same signedness. The conversion is exact.
    pub fn to_native<R: NativeInteger<M, SIGNED>, const M: usize>(self) -> (x: R)
        requires
            1 <= N <= M,
        ensures
            x.as_int() == self.value(),
    {
        R::from_ne(widen_bytes::<N, M>(&self.bytes, SIGNED))
    }

    /// Converts a primitive that is at most as wide and of the same
    /// signedness to this type. The conversion is exact.
    pub fn from_native<R: NativeInteger<M, SIGNED>, const M: usize>(x: R) -> (v: Self)
        requires
            1 <= M <= N,
        ensures
            v == Self::of_value(x.as_int()),
            v.value() == x.as_int(),
    {
        let src = x.ne_bytes();
        let v = Unaligned { bytes: widen_bytes::<M, N>(&src, SIGNED) };
        proof {
            v.lemma_of_own_value();
        }
        v
    }

    /// Converts a primitive that is at least as wide and of the same
    /// signedness to this type. Succeeds exactly when the number lies within
    /// the range of this type, and then keeps it; fails with the narrowing
    /// error otherwise.
    pub fn try_from_native<R: NativeInteger<M, SIGNED>, const M: usize>(x: R) -> (r: Result<
        Self,
        TryFromIntError,
    >)
        requires
            1 <= N <= M,
        ensures
            r == Self::narrowed(x.as_int()),
            r matches Ok(v) ==> v.value() == x.as_int(),
    {
        let src = x.ne_bytes();
        match try_narrow_bytes::<N, M>(&src, SIGNED) {
            Ok(bytes) => {
                let v = Unaligned { bytes };
                proof {
                    v.lemma_of_own_value();
                }
                Ok(v)
            },
            Err(e) => {
                proof {
                    lemma_error_unique(e, out_of_range());
                }
                Err(e)
            },
        }
    }
}

impl<const N: usize> Unaligned<N, true> {
    /// Tells whether the sign bit is clear, that is whether the integer is
    /// zero or greater.
    pub fn is_positive(self) -> (positive: bool)
        requires
            N >= 1,
        ensures
            positive == (self.value() >= 0),
    {
        sign_bit_clear(&self.bytes)
    }
}

impl<const N: usize, const SIGNED: bool> Default for Unaligned<N, SIGNED> {
    /// The integer whose bytes are all zero.
    fn default() -> (v: Self)
        ensures
            v.ne_bytes() == filled(N as nat, 0x00),
            v.value() == 0,
    {
        let bytes = [0x00u8;N];
        proof {
            assert(bytes@ =~= filled(N as nat, 0x00));
            assert(bytes@.reverse() =~= filled(N as nat, 0x00));
            lemma_le_value_filled(N as nat);
            lemma_pow256_positive(N as nat);
        }
        Unaligned { bytes }
    }
}

} // verus!
