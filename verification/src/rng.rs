//! The simulation's one source of randomness: spawn columns and pattern
//! choices are drawn through a single trusted wrapper over the `rand` crate.

use vstd::prelude::*;

verus! {

/// Relies on rand's `Rng::gen_range` on the thread-local generator: it
/// returns a value of the given inclusive range, and panics only when the
/// range is empty, which the precondition rules out.  Nothing is assumed
/// about which value comes back, so callers are verified for every outcome.
#[verifier::external_body]
pub(crate) fn random_in_range(lo: i64, hi: i64) -> (r: i64)
    requires
        lo <= hi,
    ensures
        lo <= r <= hi,
{
    rand::Rng::gen_range(&mut rand::thread_rng(), lo..=hi)
}

} // verus!
