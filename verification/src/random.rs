use vstd::prelude::*;

verus! {

/// Relies on rand::random: one uniformly distributed 64-bit word from the
/// thread-local generator. Nothing is assumed of the value that comes
/// back.
#[verifier::external_body]
fn random_word() -> u64 {
    rand::random()
}

/// One draw from [0, PROBABILITY_SCALE), as close to uniform as a modulo
/// reduction of a uniform 64-bit word allows.
pub fn random_fixed() -> (r: u64)
    ensures
        r < crate::PROBABILITY_SCALE,
{
    let u: u64 = random_word();
    u % crate::PROBABILITY_SCALE
}

} // verus!
