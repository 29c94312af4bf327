//! Integer conversions.

use clippy_utilities::NumericCast;

use vstd::prelude::*;

verus! {

/// Calls `clippy_utilities::NumericCast::numeric_cast` from `usize` to `u64`, which keeps
/// the value: every `usize` is a `u64`.
#[verifier::external_body]
pub(crate) fn usize_to_u64(n: usize) -> (res: u64)
    ensures
        res == n,
{
    n.numeric_cast::<u64>()
}

/// Calls `clippy_utilities::NumericCast::numeric_cast` from `u128` to `u64`, which keeps
/// the value and panics on one that no `u64` holds.
#[verifier::external_body]
pub(crate) fn u128_to_u64(n: u128) -> (res: u64)
    requires
        n <= u64::MAX,
    ensures
        res == n,
{
    n.numeric_cast::<u64>()
}

} // verus!
