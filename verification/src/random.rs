//! Chance.

use vstd::prelude::*;

verus! {

/// A random position below `len`: `fastrand::usize`.
///
/// Trusted: the position lies in the range. Which one it is, chance decides.
#[verifier::external_body]
pub(crate) fn random_below(len: usize) -> (at: usize)
    requires
        len > 0,
    ensures
        at < len,
{
    fastrand::usize(..len)
}

/// A random number not below `low`: `fastrand::u32`.
///
/// Trusted: the number lies in the range. Which one it is, chance decides.
#[verifier::external_body]
pub(crate) fn random_from(low: u32) -> (n: u32)
    ensures
        n >= low,
{
    fastrand::u32(low..)
}

} // verus!
