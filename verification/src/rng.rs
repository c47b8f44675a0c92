//! The one random draw the library makes. Nothing is assumed of the
//! outcome beyond its range: every caller's contract holds for every
//! value the draw may give.

use vstd::prelude::*;

use rand::Rng;

verus! {

/// Relies on rand's `thread_rng` and `Rng::gen_range` over `0..bound`:
/// the draw lies below the bound; nothing else is assumed of it.
#[verifier::external_body]
pub(crate) fn random_below(bound: u64) -> (r: u64)
    requires
        bound > 0,
    ensures
        r < bound,
{
    rand::thread_rng().gen_range(0..bound)
}

} // verus!
