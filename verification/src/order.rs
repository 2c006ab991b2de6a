//! The order of unaligned integers: that of the numbers they stand for.
//!
//! Every comparison widens both integers to the widest primitive of their
//! signedness and compares the primitives. The raw bytes are never compared:
//! their order is not the order of the numbers.

use vstd::prelude::*;
use core::cmp::Ordering;
use crate::native::NativeInteger;
use crate::unaligned::Unaligned;

verus! {

/// How the number `a` stands to the number `b`.
pub open spec fn int_order(a: int, b: int) -> Ordering {
    if a < b {
        Ordering::Less
    } else if a == b {
        Ordering::Equal
    } else {
        Ordering::Greater
    }
}

impl<const N: usize, const SIGNED: bool> Unaligned<N, SIGNED> {
    /// Compares two integers by the numbers they stand for: both are widened
    /// to a primitive, and the primitives are compared.
    pub fn cmp(&self, other: &Self) -> (o: Ordering)
        requires
            1 <= N <= 16,
        ensures
            o == int_order(self.value(), other.value()),
    {
        if SIGNED {
            let a: i128 = i128::from_ne(self.to_wider_ne_bytes::<16>());
            let b: i128 = i128::from_ne(other.to_wider_ne_bytes::<16>());
            if a < b {
                Ordering::Less
            } else if a == b {
                Ordering::Equal
            } else {
                Ordering::Greater
            }
        } else {
            let a: u128 = u128::from_ne(self.to_wider_ne_bytes::<16>());
            let b: u128 = u128::from_ne(other.to_wider_ne_bytes::<16>());
            if a < b {
                Ordering::Less
            } else if a == b {
                Ordering::Equal
            } else {
                Ordering::Greater
            }
        }
    }

    /// Compares two integers; the order is total, so the answer is never
    /// `None`.
    pub fn partial_cmp(&self, other: &Self) -> (o: Option<Ordering>)
        requires
            1 <= N <= 16,
        ensures
            o == Some(int_order(self.value(), other.value())),
    {
        Some(self.cmp(other))
    }

    /// Tells whether `self` is less than `other`.
    pub fn lt(&self, other: &Self) -> (r: bool)
        requires
            1 <= N <= 16,
        ensures
            r == (self.value() < other.value()),
    {
        matches!(self.cmp(other), Ordering::Less)
    }

    /// Tells whether `self` is less than or equal to `other`.
    pub fn le(&self, other: &Self) -> (r: bool)
        requires
            1 <= N <= 16,
        ensures
            r == (self.value() <= other.value()),
    {
        !matches!(self.cmp(other), Ordering::Greater)
    }

    /// Tells whether `self` is greater than `other`.
    pub fn gt(&self, other: &Self) -> (r: bool)
        requires
            1 <= N <= 16,
        ensures
            r == (self.value() > other.value()),
    {
        matches!(self.cmp(other), Ordering::Greater)
    }

    /// Tells whether `self` is greater than or equal to `other`.
    pub fn ge(&self, other: &Self) -> (r: bool)
        requires
            1 <= N <= 16,
        ensures
            r == (self.value() >= other.value()),
    {
        !matches!(self.cmp(other), Ordering::Less)
    }
}

} // verus!
