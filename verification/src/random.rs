use vstd::prelude::*;
use rand::Rng;

verus! {

/// A random number in `0..bound`, from the thread-local generator of `rand`
/// (`rand::thread_rng()` and `Rng::gen_range`). Trusted: the only claim made of it
/// is that it lies below `bound`, as `gen_range` documents for a half-open range.
#[verifier::external_body]
pub(crate) fn random_below(bound: u16) -> (r: u16)
    requires
        bound > 0,
    ensures
        r < bound,
{
    rand::thread_rng().gen_range(0..bound)
}

} // verus!
