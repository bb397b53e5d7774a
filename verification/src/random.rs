//! The one place where chance enters: draws from the thread-local random
//! number generator of `rand`. Verus takes the contracts here on trust.

use rand::rngs::ThreadRng;
use rand::Rng;
use vstd::prelude::*;

verus! {

/// The handle of `rand` to the thread-local generator. Nothing is known of
/// its state.
#[verifier::external_type_specification]
#[verifier::external_body]
pub struct ExThreadRng(rand::rngs::ThreadRng);

/// `rand::thread_rng`: a handle to the generator of the current thread.
/// Nothing is claimed of it.
pub assume_specification[ rand::thread_rng ]() -> (rng: ThreadRng)
;

/// Calls `Rng::gen_range` with the range `0..bound` on `rng`. The claim is
/// that of the documentation of `gen_range`: the number lies in the range.
/// Which number it is depends on chance, so nothing more is said. An empty
/// range makes `gen_range` panic, hence the demand that `bound` is positive.
#[verifier::external_body]
pub(crate) fn draw_below(rng: &mut ThreadRng, bound: usize) -> (n: usize)
    requires
        bound > 0,
    ensures
        n < bound,
{
    rng.gen_range(0..bound)
}

} // verus!
