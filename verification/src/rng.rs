use rand::Rng;
use vstd::prelude::*;

verus! {

/// Draws a number below `bound` from the thread-local generator, by
/// `rand::rng().random_range(0..bound)`. The crate documents the result as
/// lying in the given range and panics on an empty range, which `requires`
/// rules out; which number comes is left open.
#[verifier::external_body]
pub(crate) fn random_below(bound: usize) -> (r: usize)
    requires
        bound > 0,
    ensures
        r < bound,
{
    rand::rng().random_range(0..bound)
}

} // verus!
