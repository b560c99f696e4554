//! Time and chance: the only inputs of the protocol that are not values.

use rand::Rng;
use tokio::time::Instant;
use vstd::prelude::*;

verus! {

/// `tokio::time::Instant`, carried through the protocol state unopened.
#[verifier::external_type_specification]
#[verifier::external_body]
pub struct ExInstant(tokio::time::Instant);

/// Calls `tokio::time::Instant::now`. The current instant depends on the clock,
/// so nothing is claimed of it.
#[verifier::external_body]
pub(crate) fn now() -> (t: Instant) {
    Instant::now()
}

/// Calls `tokio::time::Instant::elapsed` and converts the duration to
/// nanoseconds (`Duration::as_nanos`). It depends on the clock, so nothing is
/// claimed of the result.
#[verifier::external_body]
pub(crate) fn nanos_since(instant: &Instant) -> (n: u128) {
    instant.elapsed().as_nanos()
}

/// Calls `rand::Rng::random_range` on `rand::rng()` with the inclusive range
/// `lo..=hi`. The crate documents that the sample lies in the range and that an
/// empty range panics; the value itself is chance.
#[verifier::external_body]
pub(crate) fn random_between(lo: u64, hi: u64) -> (r: u64)
    requires
        lo <= hi,
    ensures
        lo <= r <= hi,
{
    rand::rng().random_range(lo..=hi)
}

} // verus!
