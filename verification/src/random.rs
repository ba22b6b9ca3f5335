//! The one place where chance enters the library.

use rand::Rng;
use vstd::prelude::*;

verus! {

/// Draws an index below `bound` from the thread-local generator of the `rand`
/// crate, by `Rng::gen_range` on the half-open range from 0 to `bound`.
///
/// Nothing here is proved. The contract claims only that the index lies in
/// the range asked for; which index comes is left open, and two calls may
/// differ. `gen_range` panics on an empty range, so a `bound` of 0 is ruled
/// out. The generator seeds itself from the operating system on first use
/// and panics if the system gives it nothing; no argument can rule that out.
#[verifier::external_body]
pub(crate) fn random_below(bound: usize) -> (r: usize)
    requires
        bound > 0,
    ensures
        r < bound,
{
    rand::thread_rng().gen_range(0..bound)
}

} // verus!
