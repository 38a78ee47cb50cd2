//! The source of chance: rand's seedable standard generator.
use rand::Rng;
use vstd::prelude::*;

verus! {

/// rand's standard generator, carried through the game as an opaque value.
#[verifier::external_type_specification]
#[verifier::external_body]
pub struct ExStdRng(rand::rngs::StdRng);

/// Relies on rand's `Rng::gen_range`: a value drawn from `[lo, hi)`; it
/// panics unless `lo < hi`.
#[verifier::external_body]
pub(crate) fn draw_between(rng: &mut rand::rngs::StdRng, lo: i32, hi: i32) -> (r: i32)
    requires
        lo < hi,
    ensures
        lo <= r < hi,
{
    rng.gen_range(lo, hi)
}

} // verus!
