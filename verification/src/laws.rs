//! What holds between the conversions: round trips, exactness, the range of
//! narrowing and the order.

use vstd::prelude::*;
use vstd::arithmetic::power2::{lemma2_to64, lemma_pow2_adds, pow2};
use vstd::endian::endianness;
use crate::convert::{lemma_int_value_range, lemma_narrow_widen, widen_spec};
use crate::error::{out_of_range, TryFromIntError};
use crate::native::NativeInteger;
use crate::order::int_order;
use crate::unaligned::Unaligned;
use crate::utils::truncate_spec;
use crate::value::{
    in_be_order, in_le_order, lemma_pow256_is_pow2, lemma_pow256_positive, max_int, min_int, pow256,
};

verus! {

/// Changing the byte order twice, to little-endian and back or to big-endian
/// and back, gives the bytes one began with.
pub proof fn lemma_order_round_trip(bytes: Seq<u8>)
    ensures
        in_le_order(in_le_order(bytes, endianness()), endianness()) == bytes,
        in_be_order(in_be_order(bytes, endianness()), endianness()) == bytes,
{
    assert(bytes.reverse().reverse() =~= bytes);
}

/// An integer read back from the bytes that it gave is the same integer, in
/// each of the three byte orders: native, little-endian and big-endian.
pub proof fn lemma_bytes_round_trip<const N: usize, const SIGNED: bool>(v: Unaligned<N, SIGNED>)
    ensures
        Unaligned::<N, SIGNED>::of_ne_bytes(v.ne_bytes()) == v,
        Unaligned::<N, SIGNED>::of_ne_bytes(
            in_le_order(in_le_order(v.ne_bytes(), endianness()), endianness()),
        ) == v,
        Unaligned::<N, SIGNED>::of_ne_bytes(
            in_be_order(in_be_order(v.ne_bytes(), endianness()), endianness()),
        ) == v,
{
    lemma_order_round_trip(v.ne_bytes());
    v.lemma_of_own_bytes();
}

/// Every integer lies between the smallest and the greatest of its type.
pub proof fn lemma_value_in_range<const N: usize, const SIGNED: bool>(v: Unaligned<N, SIGNED>)
    requires
        N >= 1,
    ensures
        min_int(N as nat, SIGNED) <= v.value() <= max_int(N as nat, SIGNED),
{
    v.lemma_len();
    lemma_int_value_range(v.ne_bytes(), endianness(), SIGNED);
}

/// Narrowing undoes widening. A primitive that `v` has been converted to
/// holds the number of `v`; narrowing that number succeeds and yields `v`.
pub proof fn lemma_widen_then_narrow<const N: usize, const SIGNED: bool>(v: Unaligned<N, SIGNED>)
    requires
        N >= 1,
    ensures
        Unaligned::<N, SIGNED>::narrowed(v.value()) == Ok::<_, TryFromIntError>(v),
{
    lemma_value_in_range(v);
    v.lemma_of_own_value();
}

/// The same between two unaligned types: the bytes kept by narrowing a
/// widened integer are the bytes of the integer.
pub proof fn lemma_widen_then_narrow_bytes<const N: usize, const SIGNED: bool>(
    v: Unaligned<N, SIGNED>,
    m: nat,
)
    requires
        N <= m,
    ensures
        truncate_spec(widen_spec(v.ne_bytes(), m, endianness(), SIGNED), N as nat, endianness())
            == v.ne_bytes(),
{
    v.lemma_len();
    lemma_narrow_widen(v.ne_bytes(), m, endianness(), SIGNED);
}

/// Narrowing succeeds exactly on the numbers from the smallest to the
/// greatest of the type. What it yields stands for the number it was given;
/// what it refuses is reported by the one error, and nothing else comes back.
pub proof fn lemma_narrowing<const N: usize, const SIGNED: bool>(i: int)
    requires
        N >= 1,
    ensures
        Unaligned::<N, SIGNED>::narrowed(i) is Ok <==> min_int(N as nat, SIGNED) <= i <= max_int(
            N as nat,
            SIGNED,
        ),
        Unaligned::<N, SIGNED>::narrowed(i) matches Ok(v) ==> v.value() == i,
        Unaligned::<N, SIGNED>::narrowed(i) matches Err(e) ==> e == out_of_range(),
{
    if min_int(N as nat, SIGNED) <= i <= max_int(N as nat, SIGNED) {
        Unaligned::<N, SIGNED>::lemma_of_value(i);
    }
}

/// Widening undoes narrowing. When narrowing the primitive `x` has yielded
/// an integer, the primitive `back` that this integer converts to is `x`.
pub proof fn lemma_narrow_then_widen<
    R: NativeInteger<M, SIGNED>,
    const N: usize,
    const SIGNED: bool,
    const M: usize,
>(x: R, back: R)
    requires
        N >= 1,
        Unaligned::<N, SIGNED>::narrowed(x.as_int()) matches Ok(v) && back.as_int() == v.value(),
    ensures
        back == x,
{
    lemma_narrowing::<N, SIGNED>(x.as_int());
    R::lemma_as_int_injective(back, x);
}

/// The range that narrowing accepts is the range between the smallest and
/// the greatest integer of the type, taken as primitives: with `lo` and `hi`
/// the primitives that these two convert to, narrowing `x` succeeds exactly
/// when `x` lies between `lo` and `hi`.
pub proof fn lemma_narrowing_range<
    R: NativeInteger<M, SIGNED>,
    const N: usize,
    const SIGNED: bool,
    const M: usize,
>(x: R, lo: R, hi: R)
    requires
        N >= 1,
        lo.as_int() == min_int(N as nat, SIGNED),
        hi.as_int() == max_int(N as nat, SIGNED),
    ensures
        Unaligned::<N, SIGNED>::narrowed(x.as_int()) is Ok <==> lo.as_int() <= x.as_int()
            <= hi.as_int(),
{
}

/// The range of `n` bytes in powers of two: an unsigned type of `b` bits
/// reaches from 0 to 2^b - 1, a signed one from -2^(b-1) to 2^(b-1) - 1.
pub proof fn lemma_range_in_bits(n: nat)
    requires
        n >= 1,
    ensures
        min_int(n, false) == 0,
        max_int(n, false) == pow2(8 * n) - 1,
        min_int(n, true) == -pow2((8 * n - 1) as nat),
        max_int(n, true) == pow2((8 * n - 1) as nat) - 1,
{
    lemma2_to64();
    lemma_pow256_is_pow2(n);
    lemma_pow2_adds(1, (8 * n - 1) as nat);
}

/// The smallest and the greatest number of the type are accepted by
/// narrowing; the numbers just outside them are refused.
pub proof fn lemma_narrowing_at_the_bounds<const N: usize, const SIGNED: bool>()
    requires
        N >= 1,
    ensures
        Unaligned::<N, SIGNED>::narrowed(min_int(N as nat, SIGNED)) is Ok,
        Unaligned::<N, SIGNED>::narrowed(max_int(N as nat, SIGNED)) is Ok,
        Unaligned::<N, SIGNED>::narrowed(min_int(N as nat, SIGNED) - 1) is Err,
        Unaligned::<N, SIGNED>::narrowed(max_int(N as nat, SIGNED) + 1) is Err,
{
    lemma_pow256_positive(N as nat);
    assert(pow256(N as nat) == 256 * pow256((N - 1) as nat));
    lemma_pow256_positive((N - 1) as nat);
}

/// Unaligned integers are ordered as the primitives that they convert to:
/// with `x` and `y` the primitives of `a` and `b`, the order of `a` and `b`
/// is the order of `x` and `y`. Two integers compare equal only when they
/// are the same integer.
pub proof fn lemma_order_is_primitive_order<
    R: NativeInteger<M, SIGNED>,
    const N: usize,
    const SIGNED: bool,
    const M: usize,
>(a: Unaligned<N, SIGNED>, b: Unaligned<N, SIGNED>, x: R, y: R)
    requires
        x.as_int() == a.value(),
        y.as_int() == b.value(),
    ensures
        int_order(a.value(), b.value()) == int_order(x.as_int(), y.as_int()),
        int_order(a.value(), b.value()) == core::cmp::Ordering::Equal <==> a == b,
{
    if a.value() == b.value() {
        a.lemma_same_value(b);
    }
}

} // verus!
