//! The seeded random stream that picks materials in the mixed terrain layers.
use vstd::prelude::*;
use rand::Rng;
use rand::SeedableRng;
use rand_chacha::ChaCha8Rng;

verus! {

/// The answers of a ChaCha8 generator seeded from `seed` to `gen_range(0..b)`
/// for each bound `b` of `bounds`, in turn.
pub uninterp spec fn chacha_draws(seed: u64, bounds: Seq<u32>) -> Seq<u32>;

/// Relies on `rand_chacha::ChaCha8Rng::seed_from_u64` and `rand::Rng::gen_range`:
/// the stream is fixed by the seed, so the answers depend on the seed and the
/// bounds alone; each answer lies below its bound; an empty range would panic,
/// so every bound is positive.
#[verifier::external_body]
pub(crate) fn draw_below(seed: u64, bounds: &Vec<u32>) -> (r: Vec<u32>)
    requires
        forall|j: int| 0 <= j < bounds@.len() ==> bounds@[j] > 0,
    ensures
        r@ == chacha_draws(seed, bounds@),
        r@.len() == bounds@.len(),
        forall|j: int| 0 <= j < r@.len() ==> r@[j] < bounds@[j],
{
    let mut rng = ChaCha8Rng::seed_from_u64(seed);
    let mut r = Vec::with_capacity(bounds.len());
    for b in bounds.iter() {
        r.push(rng.gen_range(0..*b));
    }
    r
}

} // verus!
