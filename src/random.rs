//! The random draws the sampler makes, through the `rand` crate.
use rand::rngs::StdRng;
use rand::seq::SliceRandom;
use rand::Rng;
use vstd::prelude::*;

verus! {

/// rand's standard generator, carried through the sampler unopened.
#[verifier::external_type_specification]
#[verifier::external_body]
pub struct ExStdRng(StdRng);

/// Relies on rand's `SliceRandom::shuffle` for slices: it reorders the
/// elements by swapping pairs of them, so the multiset of elements is kept.
#[verifier::external_body]
pub(crate) fn shuffle_levels(levels: &mut Vec<i64>, rng: &mut StdRng)
    ensures
        final(levels)@.to_multiset() == old(levels)@.to_multiset(),
{
    levels.shuffle(rng);
}

/// Relies on rand's `Rng::gen_range` on the range `0..bound`: a value below
/// `bound`; it panics only on an empty range, which `requires` leaves out.
#[verifier::external_body]
pub(crate) fn draw_below(bound: u64, rng: &mut StdRng) -> (r: u64)
    requires
        0 < bound,
    ensures
        r < bound,
{
    rng.gen_range(0..bound)
}

} // verus!
