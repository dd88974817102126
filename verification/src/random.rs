//! The random generators of a simulation.
//!
//! A simulation draws its world from one generator, and hands every creature
//! a generator of its own. Nothing is proved about what they produce: the
//! functions here state only what holds of every outcome.

use crate::vector2d::Vector2D;
use rand::seq::SliceRandom;
use rand::{RngCore, SeedableRng};
use vstd::prelude::*;

verus! {

/// The seed of a simulation.
pub type RngSeed = [u8; 32];

/// The generator that a simulation sets its world up with.
pub type WorldRng = rand_pcg::Pcg64;

/// The generator that a creature owns.
pub type CreatureRng = rand_chacha::ChaCha8Rng;

#[verifier::external_type_specification]
#[verifier::external_body]
pub struct ExLcg128Xsl64(rand_pcg::Lcg128Xsl64);

#[verifier::external_type_specification]
#[verifier::external_body]
pub struct ExChaCha8Rng(rand_chacha::ChaCha8Rng);

/// `picks` names, for every chosen item, a place in `items` where it stands,
/// and names no place twice.
pub open spec fn is_selection<T>(picks: Seq<int>, items: Seq<T>, chosen: Seq<T>) -> bool {
    &&& picks.len() == chosen.len()
    &&& picks.no_duplicates()
    &&& forall|k: int|
        0 <= k < picks.len() ==> 0 <= #[trigger] picks[k] < items.len() && chosen[k]
            == items[picks[k]]
}

/// `rand_pcg::Pcg64::from_seed`: a world generator made from a seed. Nothing
/// is claimed of it.
#[verifier::external_body]
pub(crate) fn world_rng_from_seed(seed: RngSeed) -> (rng: WorldRng) {
    WorldRng::from_seed(seed)
}

/// `RngCore::next_u64` of the world generator. Nothing is claimed of the number.
#[verifier::external_body]
pub(crate) fn next_seed(rng: &mut WorldRng) -> (seed: u64) {
    rng.next_u64()
}

/// `RngCore::fill_bytes` of the world generator: overwrites the buffer. It
/// is claimed only that the buffer keeps its length.
#[verifier::external_body]
pub(crate) fn fill_bytes(rng: &mut WorldRng, buffer: &mut Vec<u8>)
    ensures
        final(buffer)@.len() == old(buffer)@.len(),
{
    rng.fill_bytes(buffer);
}

/// `SliceRandom::choose_multiple` on the cells, copied out: `amount` cells,
/// or all of them where there are fewer, taken from places of the slice of
/// which none is taken twice.
#[verifier::external_body]
pub(crate) fn choose_multiple(
    cells: &Vec<Vector2D<usize>>,
    rng: &mut WorldRng,
    amount: usize,
) -> (chosen: Vec<Vector2D<usize>>)
    ensures
        chosen@.len() == if amount <= cells@.len() {
            amount as nat
        } else {
            cells@.len()
        },
        exists|picks: Seq<int>| is_selection(picks, cells@, chosen@),
{
    cells.choose_multiple(rng, amount).copied().collect()
}

/// `rand_chacha::ChaCha8Rng::seed_from_u64`: a creature generator made from
/// a number. Nothing is claimed of it.
#[verifier::external_body]
pub(crate) fn creature_rng_from_seed(seed: u64) -> (rng: CreatureRng) {
    CreatureRng::seed_from_u64(seed)
}

/// `rand_chacha::ChaCha8Rng::set_stream`: moves the generator to one of its
/// streams. Nothing is claimed of the generator after it.
#[verifier::external_body]
pub(crate) fn set_stream(rng: &mut CreatureRng, stream: u64) {
    rng.set_stream(stream);
}

} // verus!
