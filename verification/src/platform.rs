//! The byte order of the machine that runs the code.

use vstd::prelude::*;
use vstd::endian::endianness;
use crate::value::{le_value, lemma_le_value_push, pow256, unsigned_value};

verus! {

/// Calls `u16::to_ne_bytes`. Claims that the two bytes it returns spell `x`
/// in the byte order of the running machine, as the standard library
/// documents.
#[verifier::external_body]
pub(crate) fn u16_to_ne_bytes(x: u16) -> (r: [u8; 2])
    ensures
        unsigned_value(r@, endianness()) == x,
{
    x.to_ne_bytes()
}

/// Tells whether the running machine stores the most significant byte first.
pub fn native_is_big_endian() -> (big: bool)
    ensures
        big == (endianness() is Big),
{
    let probe = u16_to_ne_bytes(1);
    proof {
        let lo = probe@[0];
        let hi = probe@[1];
        assert(probe@ =~= seq![lo].push(hi));
        assert(probe@.reverse() =~= seq![hi].push(lo));
        assert(Seq::<u8>::empty().push(lo) =~= seq![lo]);
        assert(Seq::<u8>::empty().push(hi) =~= seq![hi]);
        lemma_le_value_push(Seq::empty(), lo);
        lemma_le_value_push(Seq::empty(), hi);
        lemma_le_value_push(seq![lo], hi);
        lemma_le_value_push(seq![hi], lo);
        assert(pow256(0) == 1);
        assert(pow256(1) == 256 * pow256(0));
        assert(le_value(probe@) == lo + 256 * hi);
        assert(le_value(probe@.reverse()) == hi + 256 * lo);
    }
    probe[0] == 0
}

} // verus!
