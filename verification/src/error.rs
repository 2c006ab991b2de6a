//! The error of a narrowing conversion.

use vstd::prelude::*;
use vstd::std_specs::convert::FromSpecImpl;

verus! {

/// Reported when a narrowing conversion is given a value outside the range of
/// the destination type. It carries nothing but its kind.
#[derive(Debug, Copy, Clone, PartialEq, Eq)]
pub struct TryFromIntError(pub(crate) ());

/// The one value of the error type.
pub closed spec fn out_of_range() -> TryFromIntError {
    TryFromIntError(())
}

/// Any two errors are the same error.
pub proof fn lemma_error_unique(a: TryFromIntError, b: TryFromIntError)
    ensures
        a == b,
        a == out_of_range(),
{
}

impl From<core::num::TryFromIntError> for TryFromIntError {
    fn from(_e: core::num::TryFromIntError) -> (r: Self) {
        TryFromIntError(())
    }
}

impl FromSpecImpl<core::num::TryFromIntError> for TryFromIntError {
    open spec fn obeys_from_spec() -> bool {
        true
    }

    open spec fn from_spec(_e: core::num::TryFromIntError) -> Self {
        out_of_range()
    }
}

} // verus!
