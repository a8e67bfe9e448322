//! The source of the random run lengths that the shuffle passes draw.

use vstd::prelude::*;

use rand::Rng;

verus! {

/// Relies on `rand::Rng::gen_range` over the inclusive range
/// `min..=max`: it returns a value of that range, drawn uniformly, and
/// panics only when the range is empty.
#[verifier::external_body]
pub(crate) fn random_in_range(min: u8, max: u8) -> (r: u8)
    requires
        min <= max,
    ensures
        min <= r <= max,
{
    rand::thread_rng().gen_range(min..=max)
}

} // verus!
