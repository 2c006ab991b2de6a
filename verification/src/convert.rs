//! Widening and range-checked narrowing of integers held as native-order
//! byte arrays of any length.

use vstd::prelude::*;
use vstd::endian::Endian;
use vstd::endian::endianness;
use crate::error::TryFromIntError;
use crate::platform::native_is_big_endian;
use crate::utils::{extend_spec, place_bytes, sign_ext_byte, take_bytes, truncate_spec};
use crate::value::{
    bytes_of, fill_of, filled, in_le_order, int_value, le_fill, lemma_bytes_of,
    lemma_le_int_range, lemma_le_narrow, lemma_le_sign_bit, lemma_le_value_bound,
    lemma_le_value_injective, lemma_le_widen, max_int, min_int,
};

verus! {

/// The index of the most significant byte among `n` bytes in `order`.
pub open spec fn msb_index(n: nat, order: Endian) -> nat {
    match order {
        Endian::Little => (n - 1) as nat,
        Endian::Big => 0,
    }
}

/// `src` written with `m` bytes in `order`: the payload in its place and the
/// fill byte of `src` everywhere else.
pub open spec fn widen_spec(src: Seq<u8>, m: nat, order: Endian, signed: bool) -> Seq<u8> {
    extend_spec(filled(m, fill_of(src, order, signed)), src, order)
}

/// Whether the number that `src` spells can be written with `n` bytes.
pub open spec fn fits(src: Seq<u8>, n: nat, order: Endian, signed: bool) -> bool {
    min_int(n, signed) <= int_value(src, order, signed) <= max_int(n, signed)
}

/// Every number that `n` bytes spell lies within the range of `n` bytes.
pub proof fn lemma_int_value_range(bytes: Seq<u8>, order: Endian, signed: bool)
    requires
        bytes.len() >= 1,
    ensures
        fits(bytes, bytes.len(), order, signed),
{
    lemma_le_int_range(in_le_order(bytes, order), signed);
}

/// Byte sequences of one length that spell the same number are equal.
pub proof fn lemma_int_value_injective(a: Seq<u8>, b: Seq<u8>, order: Endian, signed: bool)
    requires
        a.len() == b.len(),
        int_value(a, order, signed) == int_value(b, order, signed),
    ensures
        a == b,
{
    let x = in_le_order(a, order);
    let y = in_le_order(b, order);
    assert(x.len() == y.len());
    lemma_le_value_bound(x);
    lemma_le_value_bound(y);
    lemma_le_value_injective(x, y);
    assert(x.reverse() =~= y.reverse());
    assert(a.reverse().reverse() =~= a);
    assert(b.reverse().reverse() =~= b);
}

/// Bytes are the bytes of the number that they spell.
pub proof fn lemma_bytes_of_value(bytes: Seq<u8>, order: Endian, signed: bool)
    ensures
        bytes_of(int_value(bytes, order, signed), bytes.len(), order) == bytes,
{
    let value = int_value(bytes, order, signed);
    if bytes.len() == 0 {
        assert(bytes_of(value, 0, order) =~= bytes);
    } else {
        lemma_int_value_range(bytes, order, signed);
        lemma_bytes_of(value, bytes.len(), order, signed);
        lemma_int_value_injective(bytes_of(value, bytes.len(), order), bytes, order, signed);
    }
}

/// Widening is exact: the widened bytes spell the number of `src`.
pub proof fn lemma_widen_value(src: Seq<u8>, m: nat, order: Endian, signed: bool)
    requires
        1 <= src.len() <= m,
    ensures
        widen_spec(src, m, order, signed).len() == m,
        int_value(widen_spec(src, m, order, signed), order, signed) == int_value(
            src,
            order,
            signed,
        ),
{
    let le = in_le_order(src, order);
    let k = (m - src.len()) as nat;
    let wide = widen_spec(src, m, order, signed);
    assert(in_le_order(wide, order) =~= le + filled(k, le_fill(le, signed)));
    lemma_le_widen(le, k, signed);
}

/// Narrowing is exact on what fits: the kept bytes spell the number of `src`.
pub proof fn lemma_narrow_value(src: Seq<u8>, n: nat, order: Endian, signed: bool)
    requires
        1 <= n <= src.len(),
        fits(src, n, order, signed),
    ensures
        truncate_spec(src, n, order).len() == n,
        int_value(truncate_spec(src, n, order), order, signed) == int_value(src, order, signed),
{
    let le = in_le_order(src, order);
    assert(in_le_order(truncate_spec(src, n, order), order) =~= le.take(n as int));
    lemma_le_narrow(le, n, signed);
}

/// Narrowing undoes widening, byte for byte.
pub proof fn lemma_narrow_widen(src: Seq<u8>, m: nat, order: Endian, signed: bool)
    requires
        src.len() <= m,
    ensures
        truncate_spec(widen_spec(src, m, order, signed), src.len(), order) == src,
{
    assert(truncate_spec(widen_spec(src, m, order, signed), src.len(), order) =~= src);
}

/// A number fits `n` bytes exactly when widening its low `n` bytes gives back
/// all of its bytes.
pub proof fn lemma_fits_iff_widen_restores(src: Seq<u8>, n: nat, order: Endian, signed: bool)
    requires
        1 <= n <= src.len(),
    ensures
        fits(src, n, order, signed) <==> widen_spec(
            truncate_spec(src, n, order),
            src.len(),
            order,
            signed,
        ) == src,
{
    let low = truncate_spec(src, n, order);
    let back = widen_spec(low, src.len(), order, signed);
    assert(low.len() == n);
    lemma_widen_value(low, src.len(), order, signed);
    lemma_int_value_range(low, order, signed);
    if fits(src, n, order, signed) {
        lemma_narrow_value(src, n, order, signed);
        lemma_int_value_injective(back, src, order, signed);
    }
}

/// Returns the index of the most significant byte of an `N`-byte integer in
/// native byte order.
pub fn msb_pos<const N: usize>() -> (pos: usize)
    requires
        N >= 1,
    ensures
        pos == msb_index(N as nat, endianness()),
{
    if native_is_big_endian() {
        0
    } else {
        N - 1
    }
}

/// Tells whether the sign bit of `bytes`, an integer in native byte order, is
/// clear.
pub fn sign_bit_clear<const N: usize>(bytes: &[u8; N]) -> (clear: bool)
    requires
        N >= 1,
    ensures
        clear == (int_value(bytes@, endianness(), true) >= 0),
        clear == (fill_of(bytes@, endianness(), true) == 0x00u8),
{
    let top = bytes[msb_pos::<N>()];
    proof {
        let le = in_le_order(bytes@, endianness());
        assert(le.last() == top);
        lemma_le_sign_bit(le);
        lemma_le_value_bound(le);
        assert((top & 0x80 == 0) == (top < 128)) by (bit_vector);
    }
    top & 0x80 == 0
}

/// Returns the byte that extends `bytes`, an integer in native byte order,
/// to a greater width: `0x00` for an unsigned or non-negative integer, `0xFF`
/// for a negative one.
pub fn sign_fill<const N: usize>(bytes: &[u8; N], signed: bool) -> (fill: u8)
    requires
        N >= 1,
    ensures
        fill == fill_of(bytes@, endianness(), signed),
{
    if signed {
        sign_ext_byte(sign_bit_clear(bytes))
    } else {
        0x00
    }
}

/// Widens an `N`-byte integer in native byte order to `M` bytes: the result
/// is filled with the sign-extension byte and then receives the payload. The
/// number is unchanged.
pub fn widen_bytes<const N: usize, const M: usize>(src: &[u8; N], signed: bool) -> (wide: [u8; M])
    requires
        1 <= N <= M,
    ensures
        wide@ == widen_spec(src@, M as nat, endianness(), signed),
        int_value(wide@, endianness(), signed) == int_value(src@, endianness(), signed),
{
    let fill = sign_fill(src, signed);
    let mut wide = [fill;M];
    assert(wide@ =~= filled(M as nat, fill));
    place_bytes(&mut wide, src);
    proof {
        lemma_widen_value(src@, M as nat, endianness(), signed);
    }
    wide
}

/// Tells whether two arrays hold the same bytes.
pub fn same_bytes<const M: usize>(a: &[u8; M], b: &[u8; M]) -> (same: bool)
    ensures
        same == (a@ == b@),
{
    let mut i: usize = 0;
    while i < M
        invariant
            i <= M,
            forall|j: int| 0 <= j < i ==> a@[j] == b@[j],
        decreases M - i,
    {
        if a[i] != b[i] {
            return false;
        }
        i += 1;
    }
    assert(a@ =~= b@);
    true
}

/// Tells whether the number of an `M`-byte integer in native byte order lies
/// within the range of `N` bytes. The test is made on the bytes: the number
/// fits exactly when widening its low-order bytes restores the source.
pub fn is_within_bounds<const N: usize, const M: usize>(src: &[u8; M], signed: bool) -> (within:
    bool)
    requires
        1 <= N <= M,
    ensures
        within == fits(src@, N as nat, endianness(), signed),
{
    let mut low = [0u8;N];
    take_bytes(&mut low, src);
    let back: [u8; M] = widen_bytes(&low, signed);
    proof {
        lemma_fits_iff_widen_restores(src@, N as nat, endianness(), signed);
    }
    same_bytes(&back, src)
}

/// Narrows an `M`-byte integer in native byte order to `N` bytes. The number
/// is first tested against the range of `N` bytes; one that fits is truncated
/// and keeps its value, any other is reported as an error.
pub fn try_narrow_bytes<const N: usize, const M: usize>(src: &[u8; M], signed: bool) -> (r: Result<
    [u8; N],
    TryFromIntError,
>)
    requires
        1 <= N <= M,
    ensures
        r is Ok <==> fits(src@, N as nat, endianness(), signed),
        r matches Ok(narrow) ==> narrow@ == truncate_spec(src@, N as nat, endianness())
            && int_value(narrow@, endianness(), signed) == int_value(
            src@,
            endianness(),
            signed,
        ),
{
    if is_within_bounds::<N, M>(src, signed) {
        let mut narrow = [0u8;N];
        take_bytes(&mut narrow, src);
        proof {
            lemma_narrow_value(src@, N as nat, endianness(), signed);
        }
        Ok(narrow)
    } else {
        Err(TryFromIntError(()))
    }
}

} // verus!
