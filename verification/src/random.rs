//! The source of random numbers behind the `?` command.

use vstd::prelude::*;
use rand::rngs::SmallRng;
use rand::{Rng, SeedableRng};

verus! {

/// `rand::rngs::SmallRng`, a small non-cryptographic generator. Nothing is
/// known of its state.
#[verifier::external_type_specification]
#[verifier::external_body]
pub struct ExSmallRng(SmallRng);

/// A generator seeded by `SeedableRng::from_entropy`, that is from the
/// operating system. Nothing is claimed of the generator it returns. The
/// call panics where the operating system cannot provide entropy.
#[verifier::external_body]
pub(crate) fn entropy_rng() -> SmallRng {
    SmallRng::from_entropy()
}

/// A number drawn by `Rng::gen_range(low, high)`, which promises a value
/// that is at least `low` and less than `high`, and panics unless
/// `low < high`. Which value it is depends on the generator's state.
#[verifier::external_body]
pub(crate) fn random_in_range(rng: &mut SmallRng, low: usize, high: usize) -> (n: usize)
    requires
        low < high,
    ensures
        low <= n < high,
{
    rng.gen_range(low, high)
}

} // verus!
