//! The one place where chance enters the library.

use rand::distributions::{IndependentSample, Range};
use vstd::prelude::*;

verus! {

/// Draws a number below `bound` from the thread's random number generator.
///
/// Not verified: the body builds `rand::distributions::Range::new(0, bound)`
/// and calls its `ind_sample` on `rand::thread_rng()`. The contract claims
/// what `Range` documents for the primitive integers, that a sample lies in
/// `[low, high)`, and leaves out the empty range on which `Range::new`
/// panics. Nothing is claimed about which number comes back, so two draws
/// with the same bound may differ. `thread_rng` panics where the system has
/// no entropy to seed it.
#[verifier::external_body]
pub(crate) fn sample_below(bound: usize) -> (r: usize)
    requires
        bound > 0,
    ensures
        r < bound,
{
    let mut rng = rand::thread_rng();
    Range::new(0, bound).ind_sample(&mut rng)
}

} // verus!
