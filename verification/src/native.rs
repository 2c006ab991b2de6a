//! The primitive integers as sources and targets of conversions.

use vstd::prelude::*;
use vstd::endian::endianness;
use crate::platform::u16_to_ne_bytes;
use crate::value::{int_value, le_value, pow256, signed_value, unsigned_value};

verus! {

/// A primitive integer of `M` bytes that can give and take its bytes in
/// native order.
pub trait NativeInteger<const M: usize, const SIGNED: bool>: Copy + Sized {
    /// The number that the primitive holds.
    spec fn as_int(self) -> int;

    /// Primitives that hold the same number are equal.
    proof fn lemma_as_int_injective(a: Self, b: Self)
        requires
            a.as_int() == b.as_int(),
        ensures
            a == b,
    ;

    /// The bytes of the primitive in native order.
    fn ne_bytes(self) -> (bytes: [u8; M])
        ensures
            int_value(bytes@, endianness(), SIGNED) == self.as_int(),
    ;

    /// The primitive whose bytes in native order are `bytes`.
    fn from_ne(bytes: [u8; M]) -> (x: Self)
        ensures
            x.as_int() == int_value(bytes@, endianness(), SIGNED),
    ;
}

/// Calls `u16::from_ne_bytes`. Claims that it returns the unsigned number
/// that `bytes` spell in the byte order of the running machine, as the
/// standard library documents.
#[verifier::external_body]
fn u16_from_ne_bytes(bytes: [u8; 2]) -> (r: u16)
    ensures
        r == unsigned_value(bytes@, endianness()),
{
    u16::from_ne_bytes(bytes)
}

impl NativeInteger<2, false> for u16 {
    open spec fn as_int(self) -> int {
        self as int
    }

    proof fn lemma_as_int_injective(a: Self, b: Self) {
    }

    fn ne_bytes(self) -> (bytes: [u8; 2]) {
        u16_to_ne_bytes(self)
    }

    fn from_ne(bytes: [u8; 2]) -> (x: Self) {
        u16_from_ne_bytes(bytes)
    }
}

/// Calls `u32::to_ne_bytes`. Claims that the 4 bytes it returns spell `x`
/// as an unsigned number in the byte order of the running machine, as the
/// standard library documents.
#[verifier::external_body]
fn u32_to_ne_bytes(x: u32) -> (r: [u8; 4])
    ensures
        unsigned_value(r@, endianness()) == x,
{
    x.to_ne_bytes()
}

/// Calls `u32::from_ne_bytes`. Claims that it returns the unsigned number
/// that `bytes` spell in the byte order of the running machine, as the
/// standard library documents.
#[verifier::external_body]
fn u32_from_ne_bytes(bytes: [u8; 4]) -> (r: u32)
    ensures
        r == unsigned_value(bytes@, endianness()),
{
    u32::from_ne_bytes(bytes)
}

impl NativeInteger<4, false> for u32 {
    open spec fn as_int(self) -> int {
        self as int
    }

    proof fn lemma_as_int_injective(a: Self, b: Self) {
    }

    fn ne_bytes(self) -> (bytes: [u8; 4]) {
        u32_to_ne_bytes(self)
    }

    fn from_ne(bytes: [u8; 4]) -> (x: Self) {
        u32_from_ne_bytes(bytes)
    }
}

/// Calls `u64::to_ne_bytes`. Claims that the 8 bytes it returns spell `x`
/// as an unsigned number in the byte order of the running machine, as the
/// standard library documents.
#[verifier::external_body]
fn u64_to_ne_bytes(x: u64) -> (r: [u8; 8])
    ensures
        unsigned_value(r@, endianness()) == x,
{
    x.to_ne_bytes()
}

/// Calls `u64::from_ne_bytes`. Claims that it returns the unsigned number
/// that `bytes` spell in the byte order of the running machine, as the
/// standard library documents.
#[verifier::external_body]
fn u64_from_ne_bytes(bytes: [u8; 8]) -> (r: u64)
    ensures
        r == unsigned_value(bytes@, endianness()),
{
    u64::from_ne_bytes(bytes)
}

impl NativeInteger<8, false> for u64 {
    open spec fn as_int(self) -> int {
        self as int
    }

    proof fn lemma_as_int_injective(a: Self, b: Self) {
    }

    fn ne_bytes(self) -> (bytes: [u8; 8]) {
        u64_to_ne_bytes(self)
    }

    fn from_ne(bytes: [u8; 8]) -> (x: Self) {
        u64_from_ne_bytes(bytes)
    }
}

/// Calls `u128::to_ne_bytes`. Claims that the 16 bytes it returns spell `x`
/// as an unsigned number in the byte order of the running machine, as the
/// standard library documents.
#[verifier::external_body]
fn u128_to_ne_bytes(x: u128) -> (r: [u8; 16])
    ensures
        unsigned_value(r@, endianness()) == x,
{
    x.to_ne_bytes()
}

/// Calls `u128::from_ne_bytes`. Claims that it returns the unsigned number
/// that `bytes` spell in the byte order of the running machine, as the
/// standard library documents.
#[verifier::external_body]
fn u128_from_ne_bytes(bytes: [u8; 16]) -> (r: u128)
    ensures
        r == unsigned_value(bytes@, endianness()),
{
    u128::from_ne_bytes(bytes)
}

impl NativeInteger<16, false> for u128 {
    open spec fn as_int(self) -> int {
        self as int
    }

    proof fn lemma_as_int_injective(a: Self, b: Self) {
    }

    fn ne_bytes(self) -> (bytes: [u8; 16]) {
        u128_to_ne_bytes(self)
    }

    fn from_ne(bytes: [u8; 16]) -> (x: Self) {
        u128_from_ne_bytes(bytes)
    }
}

/// Calls `i16::to_ne_bytes`. Claims that the 2 bytes it returns spell `x`
/// as a two's complement number in the byte order of the running machine, as the
/// standard library documents.
#[verifier::external_body]
fn i16_to_ne_bytes(x: i16) -> (r: [u8; 2])
    ensures
        signed_value(r@, endianness()) == x,
{
    x.to_ne_bytes()
}

/// Calls `i16::from_ne_bytes`. Claims that it returns the two's complement number
/// that `bytes` spell in the byte order of the running machine, as the
/// standard library documents.
#[verifier::external_body]
fn i16_from_ne_bytes(bytes: [u8; 2]) -> (r: i16)
    ensures
        r == signed_value(bytes@, endianness()),
{
    i16::from_ne_bytes(bytes)
}

impl NativeInteger<2, true> for i16 {
    open spec fn as_int(self) -> int {
        self as int
    }

    proof fn lemma_as_int_injective(a: Self, b: Self) {
    }

    fn ne_bytes(self) -> (bytes: [u8; 2]) {
        i16_to_ne_bytes(self)
    }

    fn from_ne(bytes: [u8; 2]) -> (x: Self) {
        i16_from_ne_bytes(bytes)
    }
}

/// Calls `i32::to_ne_bytes`. Claims that the 4 bytes it returns spell `x`
/// as a two's complement number in the byte order of the running machine, as the
/// standard library documents.
#[verifier::external_body]
fn i32_to_ne_bytes(x: i32) -> (r: [u8; 4])
    ensures
        signed_value(r@, endianness()) == x,
{
    x.to_ne_bytes()
}

/// Calls `i32::from_ne_bytes`. Claims that it returns the two's complement number
/// that `bytes` spell in the byte order of the running machine, as the
/// standard library documents.
#[verifier::external_body]
fn i32_from_ne_bytes(bytes: [u8; 4]) -> (r: i32)
    ensures
        r == signed_value(bytes@, endianness()),
{
    i32::from_ne_bytes(bytes)
}

impl NativeInteger<4, true> for i32 {
    open spec fn as_int(self) -> int {
        self as int
    }

    proof fn lemma_as_int_injective(a: Self, b: Self) {
    }

    fn ne_bytes(self) -> (bytes: [u8; 4]) {
        i32_to_ne_bytes(self)
    }

    fn from_ne(bytes: [u8; 4]) -> (x: Self) {
        i32_from_ne_bytes(bytes)
    }
}

/// Calls `i64::to_ne_bytes`. Claims that the 8 bytes it returns spell `x`
/// as a two's complement number in the byte order of the running machine, as the
/// standard library documents.
#[verifier::external_body]
fn i64_to_ne_bytes(x: i64) -> (r: [u8; 8])
    ensures
        signed_value(r@, endianness()) == x,
{
    x.to_ne_bytes()
}

/// Calls `i64::from_ne_bytes`. Claims that it returns the two's complement number
/// that `bytes` spell in the byte order of the running machine, as the
/// standard library documents.
#[verifier::external_body]
fn i64_from_ne_bytes(bytes: [u8; 8]) -> (r: i64)
    ensures
        r == signed_value(bytes@, endianness()),
{
    i64::from_ne_bytes(bytes)
}

impl NativeInteger<8, true> for i64 {
    open spec fn as_int(self) -> int {
        self as int
    }

    proof fn lemma_as_int_injective(a: Self, b: Self) {
    }

    fn ne_bytes(self) -> (bytes: [u8; 8]) {
        i64_to_ne_bytes(self)
    }

    fn from_ne(bytes: [u8; 8]) -> (x: Self) {
        i64_from_ne_bytes(bytes)
    }
}

/// Calls `i128::to_ne_bytes`. Claims that the 16 bytes it returns spell `x`
/// as a two's complement number in the byte order of the running machine, as the
/// standard library documents.
#[verifier::external_body]
fn i128_to_ne_bytes(x: i128) -> (r: [u8; 16])
    ensures
        signed_value(r@, endianness()) == x,
{
    x.to_ne_bytes()
}

/// Calls `i128::from_ne_bytes`. Claims that it returns the two's complement number
/// that `bytes` spell in the byte order of the running machine, as the
/// standard library documents.
#[verifier::external_body]
fn i128_from_ne_bytes(bytes: [u8; 16]) -> (r: i128)
    ensures
        r == signed_value(bytes@, endianness()),
{
    i128::from_ne_bytes(bytes)
}

impl NativeInteger<16, true> for i128 {
    open spec fn as_int(self) -> int {
        self as int
    }

    proof fn lemma_as_int_injective(a: Self, b: Self) {
    }

    fn ne_bytes(self) -> (bytes: [u8; 16]) {
        i128_to_ne_bytes(self)
    }

    fn from_ne(bytes: [u8; 16]) -> (x: Self) {
        i128_from_ne_bytes(bytes)
    }
}

/// A single byte spells the same number in either byte order, so the
/// one-byte primitives below give and take their byte directly.
proof fn lemma_single_byte(bytes: Seq<u8>)
    requires
        bytes.len() == 1,
    ensures
        unsigned_value(bytes, endianness()) == bytes[0],
        signed_value(bytes, endianness()) == if bytes[0] >= 128 {
            bytes[0] - 256
        } else {
            bytes[0] as int
        },
{
    assert(bytes.reverse() =~= bytes);
    assert(le_value(bytes.drop_first()) == 0);
    assert(le_value(bytes) == bytes[0] as nat);
    assert(pow256(1) == 256 * pow256(0));
}

impl NativeInteger<1, false> for u8 {
    open spec fn as_int(self) -> int {
        self as int
    }

    proof fn lemma_as_int_injective(a: Self, b: Self) {
    }

    fn ne_bytes(self) -> (bytes: [u8; 1]) {
        let bytes = [self];
        proof {
            lemma_single_byte(bytes@);
        }
        bytes
    }

    fn from_ne(bytes: [u8; 1]) -> (x: Self) {
        proof {
            lemma_single_byte(bytes@);
        }
        bytes[0]
    }
}

impl NativeInteger<1, true> for i8 {
    open spec fn as_int(self) -> int {
        self as int
    }

    proof fn lemma_as_int_injective(a: Self, b: Self) {
    }

    fn ne_bytes(self) -> (bytes: [u8; 1]) {
        let byte = self as u8;
        let bytes = [byte];
        proof {
            lemma_single_byte(bytes@);
            assert(byte == self as u8 ==> (if byte >= 128 {
                byte as int - 256
            } else {
                byte as int
            }) == self as int) by (bit_vector);
        }
        bytes
    }

    fn from_ne(bytes: [u8; 1]) -> (x: Self) {
        let byte = bytes[0];
        let x = byte as i8;
        proof {
            lemma_single_byte(bytes@);
            assert(x == byte as i8 ==> (if byte >= 128 {
                byte as int - 256
            } else {
                byte as int
            }) == x as int) by (bit_vector);
        }
        x
    }
}

} // verus!
