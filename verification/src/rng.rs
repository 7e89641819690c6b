//! The opaque uniform integer source that feeds the call generator.

use vstd::prelude::*;
use rand::Rng;

verus! {

/// Relies on rand::rng and Rng::random_range: a sample drawn from the
/// half-open range handed to it, so the result lies in [1, 9999); the range
/// is not empty, so the call does not panic.
#[verifier::external_body]
pub(crate) fn random_id() -> (id: i32)
    ensures
        1 <= id < 9999,
{
    rand::rng().random_range(1..9999)
}

} // verus!
