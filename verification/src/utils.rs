//! Byte-order utilities on fixed-size byte arrays.

use vstd::prelude::*;
use vstd::endian::Endian;
use vstd::endian::endianness;
use crate::platform::native_is_big_endian;
use crate::value::{in_be_order, in_le_order};

verus! {

/// The byte that fills the added positions when a signed value is widened.
pub open spec fn sign_ext_byte_spec(is_positive: bool) -> u8 {
    if is_positive {
        0x00
    } else {
        0xFF
    }
}

/// Returns the byte with which a signed integer is extended upon widening:
/// `0x00` for a positive value, `0xFF` for a negative one.
pub fn sign_ext_byte(is_positive: bool) -> (fill: u8)
    ensures
        fill == sign_ext_byte_spec(is_positive),
{
    if is_positive {
        0x00
    } else {
        0xFF
    }
}

/// Returns the array with its bytes in the opposite order.
pub fn reverse_bytes<const N: usize>(array: [u8; N]) -> (r: [u8; N])
    ensures
        r@ == array@.reverse(),
{
    let mut out = array;
    let mut i: usize = 0;
    while i < N
        invariant
            i <= N,
            forall|j: int| 0 <= j < i ==> out@[j] == array@[N - 1 - j],
        decreases N - i,
    {
        out[i] = array[N - 1 - i];
        i += 1;
    }
    assert(out@ =~= array@.reverse());
    out
}

/// Converts the byte array from little-endian to native-endian order.
pub fn le_bytes_to_ne<const N: usize>(array: [u8; N]) -> (r: [u8; N])
    ensures
        r@ == in_le_order(array@, endianness()),
{
    if native_is_big_endian() {
        reverse_bytes(array)
    } else {
        array
    }
}

/// Converts the byte array from native-endian to little-endian order.
pub fn ne_bytes_to_le<const N: usize>(array: [u8; N]) -> (r: [u8; N])
    ensures
        r@ == in_le_order(array@, endianness()),
{
    if native_is_big_endian() {
        reverse_bytes(array)
    } else {
        array
    }
}

/// Converts the byte array from big-endian to native-endian order.
pub fn be_bytes_to_ne<const N: usize>(array: [u8; N]) -> (r: [u8; N])
    ensures
        r@ == in_be_order(array@, endianness()),
{
    if native_is_big_endian() {
        array
    } else {
        reverse_bytes(array)
    }
}

/// Converts the byte array from native-endian to big-endian order.
pub fn ne_bytes_to_be<const N: usize>(array: [u8; N]) -> (r: [u8; N])
    ensures
        r@ == in_be_order(array@, endianness()),
{
    if native_is_big_endian() {
        array
    } else {
        reverse_bytes(array)
    }
}

/// Where the bytes of a value of `narrow` bytes lie inside the same value
/// written with `wide` bytes: at the front when the least significant byte
/// comes first, at the back otherwise.
pub open spec fn payload_offset(wide: nat, narrow: nat, order: Endian) -> nat {
    match order {
        Endian::Little => 0,
        Endian::Big => (wide - narrow) as nat,
    }
}

/// `dst` with `src` written over the positions that hold the payload in
/// `order`; every other position keeps the byte of `dst`.
pub open spec fn extend_spec(dst: Seq<u8>, src: Seq<u8>, order: Endian) -> Seq<u8> {
    let off = payload_offset(dst.len(), src.len(), order);
    Seq::new(
        dst.len(),
        |i: int|
            if off <= i < off + src.len() {
                src[i - off]
            } else {
                dst[i]
            },
    )
}

/// The `n` bytes of `src` that hold the low-order part of the value in `order`.
pub open spec fn truncate_spec(src: Seq<u8>, n: nat, order: Endian) -> Seq<u8> {
    let off = payload_offset(src.len(), n, order);
    src.subrange(off as int, (off + n) as int)
}

/// Copies the smaller `src` into the larger `dst` at the place that native
/// byte order gives the payload. The other bytes of `dst` are untouched.
pub fn extend_bytes<const N: usize, const M: usize>(dst: &mut [u8; N], src: &[u8; M])
    requires
        N > M,
    ensures
        final(dst)@ == extend_spec(old(dst)@, src@, endianness()),
{
    place_bytes(dst, src);
}

/// Copies from the larger `src` into the smaller `dst` the bytes that hold
/// the low-order part of the value in native byte order. Nothing is checked:
/// the bytes left behind are simply dropped.
pub fn truncate_bytes<const N: usize, const M: usize>(dst: &mut [u8; N], src: &[u8; M])
    requires
        N < M,
    ensures
        final(dst)@ == truncate_spec(src@, N as nat, endianness()),
{
    take_bytes(dst, src);
}

/// `extend_bytes` for arrays that may also be of equal length.
pub(crate) fn place_bytes<const N: usize, const M: usize>(dst: &mut [u8; N], src: &[u8; M])
    requires
        N >= M,
    ensures
        final(dst)@ == extend_spec(old(dst)@, src@, endianness()),
{
    let offset: usize = if native_is_big_endian() {
        N - M
    } else {
        0
    };
    let mut i: usize = 0;
    while i < M
        invariant
            i <= M,
            offset + M <= N,
            forall|j: int| 0 <= j < N ==> dst@[j] == if offset <= j < offset + i {
                src@[j - offset]
            } else {
                old(dst)@[j]
            },
        decreases M - i,
    {
        dst[offset + i] = src[i];
        i += 1;
    }
    assert(dst@ =~= extend_spec(old(dst)@, src@, endianness()));
}

/// `truncate_bytes` for arrays that may also be of equal length.
pub(crate) fn take_bytes<const N: usize, const M: usize>(dst: &mut [u8; N], src: &[u8; M])
    requires
        N <= M,
    ensures
        final(dst)@ == truncate_spec(src@, N as nat, endianness()),
{
    let offset: usize = if native_is_big_endian() {
        M - N
    } else {
        0
    };
    let mut i: usize = 0;
    while i < N
        invariant
            i <= N,
            offset + N <= M,
            forall|j: int| 0 <= j < i ==> dst@[j] == src@[j + offset],
        decreases N - i,
    {
        dst[i] = src[offset + i];
        i += 1;
    }
    assert(dst@ =~= truncate_spec(src@, N as nat, endianness()));
}

} // verus!
