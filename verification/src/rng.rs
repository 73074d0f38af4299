//! The library's single source of randomness.

use vstd::prelude::*;

verus! {

/// Relies on rand::random::<u32>: a fresh 32-bit draw from the
/// thread-local generator.  Nothing is promised of the value; every
/// caller is verified for every possible outcome.
#[verifier::external_body]
pub(crate) fn random_u32() -> u32 {
    rand::random::<u32>()
}

} // verus!
