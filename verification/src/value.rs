//! The mathematical reading of a byte sequence as an integer.

use vstd::prelude::*;
use vstd::arithmetic::power2::{lemma2_to64, lemma_pow2_adds, pow2};
use vstd::endian::Endian;

verus! {

/// 256 to the power `n`: the number of values that `n` bytes can hold.
pub open spec fn pow256(n: nat) -> nat
    decreases n,
{
    if n == 0 {
        1
    } else {
        256 * pow256((n - 1) as nat)
    }
}

/// The number that `bytes` spell with the least significant byte first.
pub open spec fn le_value(bytes: Seq<u8>) -> nat
    decreases bytes.len(),
{
    if bytes.len() == 0 {
        0
    } else {
        bytes[0] as nat + 256 * le_value(bytes.drop_first())
    }
}

/// `bytes`, given in `order`, rearranged so that the least significant byte
/// comes first.
pub open spec fn in_le_order(bytes: Seq<u8>, order: Endian) -> Seq<u8> {
    match order {
        Endian::Little => bytes,
        Endian::Big => bytes.reverse(),
    }
}

/// `bytes`, given in `order`, rearranged so that the most significant byte
/// comes first.
pub open spec fn in_be_order(bytes: Seq<u8>, order: Endian) -> Seq<u8> {
    match order {
        Endian::Little => bytes.reverse(),
        Endian::Big => bytes,
    }
}

/// The unsigned number that `bytes` spell in `order`.
pub open spec fn unsigned_value(bytes: Seq<u8>, order: Endian) -> nat {
    le_value(in_le_order(bytes, order))
}

/// Whether `bytes`, least significant byte first, have their sign bit set:
/// read as unsigned they reach the upper half of their range.
pub open spec fn le_sign_bit(bytes: Seq<u8>) -> bool {
    2 * le_value(bytes) >= pow256(bytes.len())
}

/// The number that `bytes` spell with the least significant byte first, read
/// as two's complement when `signed` and as unsigned otherwise.
pub open spec fn le_int(bytes: Seq<u8>, signed: bool) -> int {
    if signed && le_sign_bit(bytes) {
        le_value(bytes) - pow256(bytes.len())
    } else {
        le_value(bytes) as int
    }
}

/// The two's complement number that `bytes` spell in `order`.
pub open spec fn signed_value(bytes: Seq<u8>, order: Endian) -> int {
    le_int(in_le_order(bytes, order), true)
}

/// The number that `bytes` spell in `order`, read as two's complement when
/// `signed` and as unsigned otherwise.
pub open spec fn int_value(bytes: Seq<u8>, order: Endian, signed: bool) -> int {
    if signed {
        signed_value(bytes, order)
    } else {
        unsigned_value(bytes, order) as int
    }
}

/// The `len` bytes, least significant first, that spell the unsigned number
/// `value`.
pub open spec fn le_bytes_of(value: nat, len: nat) -> Seq<u8>
    decreases len,
{
    if len == 0 {
        Seq::empty()
    } else {
        seq![(value % 256) as u8] + le_bytes_of(value / 256, (len - 1) as nat)
    }
}

/// The unsigned number that stands for `value` in `len` bytes: `value`
/// itself, or the two's complement of a negative `value`.
pub open spec fn encoded(value: int, len: nat) -> nat {
    if value < 0 {
        (value + pow256(len)) as nat
    } else {
        value as nat
    }
}

/// The `len` bytes that spell `value` in `order`.
pub open spec fn bytes_of(value: int, len: nat, order: Endian) -> Seq<u8> {
    in_le_order(le_bytes_of(encoded(value, len), len), order)
}

/// The least number that `n` bytes can hold.
pub open spec fn min_int(n: nat, signed: bool) -> int {
    if signed {
        -(pow256(n) / 2)
    } else {
        0
    }
}

/// The greatest number that `n` bytes can hold.
pub open spec fn max_int(n: nat, signed: bool) -> int {
    if signed {
        pow256(n) / 2 - 1
    } else {
        pow256(n) - 1
    }
}

/// `len` bytes that are all `byte`.
pub open spec fn filled(len: nat, byte: u8) -> Seq<u8> {
    Seq::new(len, |i: int| byte)
}

/// The byte that extends `bytes`, least significant byte first, without
/// changing the number they spell.
pub open spec fn le_fill(bytes: Seq<u8>, signed: bool) -> u8 {
    if signed && le_sign_bit(bytes) {
        0xFF
    } else {
        0x00
    }
}

/// The byte that extends `bytes`, given in `order`, without changing the
/// number they spell.
pub open spec fn fill_of(bytes: Seq<u8>, order: Endian, signed: bool) -> u8 {
    le_fill(in_le_order(bytes, order), signed)
}

pub proof fn lemma_pow256_positive(n: nat)
    ensures
        pow256(n) >= 1,
    decreases n,
{
    if n > 0 {
        lemma_pow256_positive((n - 1) as nat);
    }
}

/// 256 to the `n` is two to the number of bits of `n` bytes.
pub proof fn lemma_pow256_is_pow2(n: nat)
    ensures
        pow256(n) == pow2(8 * n),
    decreases n,
{
    lemma2_to64();
    if n > 0 {
        lemma_pow256_is_pow2((n - 1) as nat);
        lemma_pow2_adds(8, (8 * (n - 1)) as nat);
    }
}

pub proof fn lemma_pow256_add(a: nat, b: nat)
    ensures
        pow256(a + b) == pow256(a) * pow256(b),
    decreases a,
{
    if a == 0 {
        assert(1 * pow256(b) == pow256(b));
    } else {
        lemma_pow256_add((a - 1) as nat, b);
        assert(((a - 1) as nat + b) as nat == (a + b - 1) as nat);
        assert(256 * (pow256((a - 1) as nat) * pow256(b)) == (256 * pow256((a - 1) as nat))
            * pow256(b)) by (nonlinear_arith);
    }
}

/// `n` bytes spell a number below 256 to the `n`.
pub proof fn lemma_le_value_bound(s: Seq<u8>)
    ensures
        le_value(s) < pow256(s.len()),
    decreases s.len(),
{
    if s.len() > 0 {
        lemma_le_value_bound(s.drop_first());
    }
}

/// Bytes appended at the high end count with the weight of their position.
pub proof fn lemma_le_value_concat(a: Seq<u8>, b: Seq<u8>)
    ensures
        le_value(a + b) == le_value(a) + pow256(a.len()) * le_value(b),
    decreases a.len(),
{
    if a.len() == 0 {
        assert(a + b =~= b);
        assert(1 * le_value(b) == le_value(b));
    } else {
        let rest = a.drop_first();
        assert((a + b).drop_first() =~= rest + b);
        lemma_le_value_concat(rest, b);
        assert(256 * (pow256(rest.len()) * le_value(b)) == (256 * pow256(rest.len())) * le_value(
            b,
        )) by (nonlinear_arith);
    }
}

/// Two byte sequences of one length that spell the same number are equal.
pub proof fn lemma_le_value_injective(a: Seq<u8>, b: Seq<u8>)
    requires
        a.len() == b.len(),
        le_value(a) == le_value(b),
    ensures
        a == b,
    decreases a.len(),
{
    if a.len() == 0 {
        assert(a =~= b);
    } else {
        lemma_le_value_injective(a.drop_first(), b.drop_first());
        assert forall|i: int| 0 <= i < a.len() implies a[i] == b[i] by {
            if i > 0 {
                assert(a[i] == a.drop_first()[i - 1]);
                assert(b[i] == b.drop_first()[i - 1]);
            }
        }
        assert(a =~= b);
    }
}

pub proof fn lemma_le_value_filled(len: nat)
    ensures
        le_value(filled(len, 0x00)) == 0,
        le_value(filled(len, 0xFF)) == pow256(len) - 1,
    decreases len,
{
    if len > 0 {
        lemma_le_value_filled((len - 1) as nat);
        assert(filled(len, 0x00).drop_first() =~= filled((len - 1) as nat, 0x00));
        assert(filled(len, 0xFF).drop_first() =~= filled((len - 1) as nat, 0xFF));
    }
}

/// A byte added at the high end counts with the weight of its position.
pub proof fn lemma_le_value_push(low: Seq<u8>, top: u8)
    ensures
        le_value(low.push(top)) == le_value(low) + pow256(low.len()) * top,
{
    let one = seq![top];
    assert(low.push(top) =~= low + one);
    lemma_le_value_concat(low, one);
    assert(one[0] == top);
    assert(le_value(one.drop_first()) == 0);
    assert(le_value(one) == top as nat);
}

/// The bytes of a number that `len` bytes can hold spell that number.
pub proof fn lemma_le_bytes_of(value: nat, len: nat)
    requires
        value < pow256(len),
    ensures
        le_bytes_of(value, len).len() == len,
        le_value(le_bytes_of(value, len)) == value,
    decreases len,
{
    if len > 0 {
        let rest = le_bytes_of(value / 256, (len - 1) as nat);
        lemma_le_bytes_of(value / 256, (len - 1) as nat);
        assert(le_bytes_of(value, len).drop_first() =~= rest);
    }
}

/// The bytes of a number within the range of `len` bytes spell that number,
/// in either byte order and for either signedness.
pub proof fn lemma_bytes_of(value: int, len: nat, order: Endian, signed: bool)
    requires
        len >= 1,
        min_int(len, signed) <= value <= max_int(len, signed),
    ensures
        bytes_of(value, len, order).len() == len,
        int_value(bytes_of(value, len, order), order, signed) == value,
{
    let le = le_bytes_of(encoded(value, len), len);
    assert(pow256(len) == 256 * pow256((len - 1) as nat));
    lemma_le_bytes_of(encoded(value, len), len);
    assert(le.reverse().reverse() =~= le);
}

/// The sign bit is the top bit of the most significant byte.
pub proof fn lemma_le_sign_bit(s: Seq<u8>)
    requires
        s.len() >= 1,
    ensures
        le_sign_bit(s) == (s.last() >= 128),
{
    let low = s.drop_last();
    let top = seq![s.last()];
    assert(s =~= low + top);
    lemma_le_value_concat(low, top);
    lemma_le_value_bound(low);
    assert(top[0] == s.last());
    assert(le_value(top.drop_first()) == 0);
    assert(le_value(top) == s.last() as nat);
    let p = pow256(low.len());
    let t = s.last() as nat;
    assert(pow256(s.len()) == 256 * p);
    if t >= 128 {
        assert(p * t >= 128 * p) by (nonlinear_arith)
            requires
                t >= 128,
                p >= 0,
        ;
    } else {
        assert(p * t <= 127 * p) by (nonlinear_arith)
            requires
                t <= 127,
                p >= 0,
        ;
    }
}

/// Every number that `n` bytes spell lies between `min_int` and `max_int`.
pub proof fn lemma_le_int_range(s: Seq<u8>, signed: bool)
    requires
        s.len() >= 1,
    ensures
        min_int(s.len(), signed) <= le_int(s, signed) <= max_int(s.len(), signed),
{
    lemma_le_value_bound(s);
    assert(pow256(s.len()) == 256 * pow256((s.len() - 1) as nat));
}

/// Widening keeps the number: extending with the fill byte at the high end
/// changes nothing.
pub proof fn lemma_le_widen(s: Seq<u8>, k: nat, signed: bool)
    requires
        s.len() >= 1,
    ensures
        le_int(s + filled(k, le_fill(s, signed)), signed) == le_int(s, signed),
{
    let f = le_fill(s, signed);
    let w = s + filled(k, f);
    let pn = pow256(s.len());
    let pk = pow256(k);
    lemma_le_value_concat(s, filled(k, f));
    lemma_le_value_filled(k);
    lemma_le_value_bound(s);
    lemma_pow256_add(s.len(), k);
    lemma_pow256_positive(k);
    lemma_pow256_positive(s.len());
    assert(w.len() == s.len() + k);
    assert(pow256(w.len()) == pn * pk);
    assert(pn * pk >= pn) by (nonlinear_arith)
        requires
            pk >= 1,
            pn >= 1,
    ;
    if f == 0x00 {
        assert(pn * 0 == 0);
        assert(le_value(w) == le_value(s));
    } else {
        assert(pn * (pk - 1) == pn * pk - pn) by (nonlinear_arith);
        assert(le_value(w) == le_value(s) + pn * pk - pn);
    }
}

/// Narrowing keeps a number that fits: dropping the high bytes of a number
/// within the range of `n` bytes leaves the same number.
pub proof fn lemma_le_narrow(s: Seq<u8>, n: nat, signed: bool)
    requires
        1 <= n <= s.len(),
        min_int(n, signed) <= le_int(s, signed) <= max_int(n, signed),
    ensures
        le_int(s.take(n as int), signed) == le_int(s, signed),
{
    let low = s.take(n as int);
    let high = s.skip(n as int);
    let k = (s.len() - n) as nat;
    let pn = pow256(n);
    let pk = pow256(k);
    let l = le_value(low);
    let h = le_value(high);
    assert(s =~= low + high);
    lemma_le_value_concat(low, high);
    lemma_le_value_bound(low);
    lemma_le_value_bound(high);
    lemma_le_value_bound(s);
    lemma_pow256_add(n, k);
    lemma_pow256_positive(n);
    lemma_pow256_positive(k);
    assert(pow256(s.len()) == pn * pk);
    assert(pn == 256 * pow256((n - 1) as nat));
    assert(le_value(s) == l + pn * h);
    if signed && le_sign_bit(s) {
        let d = pk - h;
        assert(pn * d == pn * pk - pn * h) by (nonlinear_arith)
            requires
                d == pk - h,
        ;
        assert(d < 2) by (nonlinear_arith)
            requires
                pn * d < 2 * pn,
                pn >= 1,
        ;
        assert(d == 1);
        assert(pn * 1 == pn);
    } else {
        assert(h == 0) by (nonlinear_arith)
            requires
                l + pn * h < pn,
                l >= 0,
                h >= 0,
                pn >= 1,
        ;
        assert(pn * 0 == 0);
    }
}

} // verus!
