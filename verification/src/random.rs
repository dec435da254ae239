use vstd::prelude::*;

verus! {

/// Draws a number below `high` from the thread's generator, by
/// `rand::Rng::gen_range` from zero up to `high`. The draw is uniform;
/// all that is claimed of it is the range. The outside function panics
/// on an empty range, which the precondition leaves out.
#[verifier::external_body]
pub(crate) fn random_below(high: usize) -> (drawn: usize)
    requires
        0 < high,
    ensures
        drawn < high,
{
    let mut rng = rand::thread_rng();
    rand::Rng::gen_range(&mut rng, 0, high)
}

} // verus!
