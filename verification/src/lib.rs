use vstd::prelude::*;

pub mod byteworks;
pub mod cga;
pub mod genprobs;
pub mod hookejeeves;
pub mod mccga;
pub mod random;
pub mod realbits;

verus! {

/// Fixed-point scale for probabilities: a probability p in [0, 1] is stored
/// as the integer p * PROBABILITY_SCALE, so every stored probability lies in
/// [0, PROBABILITY_SCALE].
pub const PROBABILITY_SCALE: u64 = 1_000_000_000;

} // verus!
