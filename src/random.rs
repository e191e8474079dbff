use rand::Rng;
use vstd::prelude::*;

verus! {

/// Relies on rand's `thread_rng` and `Rng::gen_range`: a value drawn from
/// `0..bound`. `gen_range` panics on an empty range, hence the `requires`.
#[verifier::external_body]
pub(crate) fn random_below(bound: usize) -> (r: usize)
    requires
        bound > 0,
    ensures
        r < bound,
{
    rand::thread_rng().gen_range(0..bound)
}

} // verus!
