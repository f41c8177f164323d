//! The one source of chance the proxy uses: a uniform draw below a bound.

use rand::rngs::StdRng;
use rand::Rng;
use vstd::prelude::*;

verus! {

/// `rand::rngs::StdRng`, carried through as an opaque generator state.
#[verifier::external_type_specification]
#[verifier::external_body]
pub struct ExStdRng(StdRng);

/// Calls `rand::Rng::gen_range(0, bound)` on the generator. The crate samples
/// the half-open range `[0, bound)` and panics when the range is empty, so the
/// bound must be positive; all that is claimed of the draw is that it lies
/// below the bound.
#[verifier::external_body]
pub(crate) fn draw_below(rng: &mut StdRng, bound: usize) -> (draw: usize)
    requires
        bound > 0,
    ensures
        draw < bound,
{
    rng.gen_range(0, bound)
}

} // verus!
