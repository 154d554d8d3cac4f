use vstd::prelude::*;
use crate::byteworks::{bits2floats, floatstodoubles, is_bitvector};
use crate::cga::{
    isconverged, sample, spec_update, update, valid_probvector,
};
use crate::genprobs::{generate_probability_vector, valid_bounds, BoundsError, PointSource};
use crate::hookejeeves::{HjPhase, HjSearch};
use crate::realbits::real_lt;
use crate::PROBABILITY_SCALE;

verus! {

/// How many points the probability-vector initializer draws.
pub const INIT_SAMPLE_COUNT: usize = 500_000;

/// The iteration budget of the local refinement stage.
pub const REFINE_MAX_ITERATIONS: usize = 1000;

/// The binary64 bit pattern of the refinement stage's starting step, ten.
pub const REFINE_START_STEP_BITS: u64 = 0x4024_0000_0000_0000;

/// The binary64 bit pattern of the refinement stage's end step, one
/// ten-thousandth.
pub const REFINE_END_STEP_BITS: u64 = 0x3f1a_36e2_eb1c_432d;

/// The caller's cost function over real vectors: one 64-bit
/// floating-point value per coordinate and one for the returned cost,
/// each given as its bit pattern.
pub trait CostFunction {
    fn cost(&self, x: &Vec<u64>) -> u64;
}

/// The cost of a candidate bit-string: the bits are decoded to 32-bit
/// floating-point values, widened, and handed to the cost function.
fn binarycost<F: CostFunction>(fcost: &F, candidate: &Vec<u8>) -> u64
    requires
        is_bitvector(candidate@),
{
    let doubles = floatstodoubles(&bits2floats(candidate));
    let result = fcost.cost(&doubles);
    result
}

/// One tournament round of the global stage: draws two candidates from
/// the probability vector, costs each through the bit codec, and pulls
/// the vector toward the candidate of strictly lower cost (the
/// first-drawn candidate wins ties).
pub fn mccga_singleiter<F: CostFunction>(probvect: &mut Vec<u64>, fcost: &F, mutrate: u64)
    requires
        valid_probvector(old(probvect)@),
        mutrate <= PROBABILITY_SCALE,
    ensures
        final(probvect)@.len() == old(probvect)@.len(),
        valid_probvector(final(probvect)@),
        exists|w: Seq<u8>, l: Seq<u8>|
            is_bitvector(w) && is_bitvector(l) && w.len() == old(probvect)@.len() && l.len() == old(
                probvect,
            )@.len() && final(probvect)@ == spec_update(old(probvect)@, w, l, mutrate),
{
    let candidate1: Vec<u8> = sample(probvect);
    let candidate2: Vec<u8> = sample(probvect);
    let cost1: u64 = binarycost(fcost, &candidate1);
    let cost2: u64 = binarycost(fcost, &candidate2);
    if real_lt(cost2, cost1) {
        update(probvect, &candidate2, &candidate1, mutrate);
        proof {
            assert(is_bitvector(candidate2@) && is_bitvector(candidate1@) && candidate2@.len()
                == old(probvect)@.len() && candidate1@.len() == old(probvect)@.len() && probvect@
                == spec_update(old(probvect)@, candidate2@, candidate1@, mutrate));
        }
    } else {
        update(probvect, &candidate1, &candidate2, mutrate);
        proof {
            assert(is_bitvector(candidate1@) && is_bitvector(candidate2@) && candidate1@.len()
                == old(probvect)@.len() && candidate2@.len() == old(probvect)@.len() && probvect@
                == spec_update(old(probvect)@, candidate1@, candidate2@, mutrate));
        }
    }
}

/// The machine-coded compact genetic algorithm's global stage, wired end
/// to end: seeds a probability vector over the bit-coded representation
/// of the bounded parameters, runs tournament rounds until the vector
/// converges or the iteration budget runs out, decodes one final sample
/// to a real vector, and hands that vector to the local refinement stage.
///
/// The returned machine holds the decoded point as its starting point,
/// with the fixed refinement budget and step schedule; the caller drives
/// it with cost evaluations to the final answer. Degenerate bounds are
/// rejected before any sampling, exactly as the initializer rejects them.
pub fn mccga<F: CostFunction, S: PointSource>(
    fcost: &F,
    source: &mut S,
    mins: &Vec<u64>,
    maxs: &Vec<u64>,
    mutrate: u64,
    maxiter: usize,
) -> (r: Result<HjSearch, BoundsError>)
    requires
        mutrate <= PROBABILITY_SCALE,
        32 * mins@.len() <= usize::MAX,
    ensures
        mins@.len() != maxs@.len() ==> r == Result::<HjSearch, BoundsError>::Err(
            BoundsError::DimensionMismatch,
        ),
        mins@.len() == maxs@.len() && !valid_bounds(mins@, maxs@) ==> r == Result::<
            HjSearch,
            BoundsError,
        >::Err(BoundsError::InvalidBounds),
        valid_bounds(mins@, maxs@) ==> r is Ok,
        r is Ok ==> {
            &&& r->Ok_0.wf()
            &&& r->Ok_0@.par.len() == mins@.len()
            &&& r->Ok_0@.step == REFINE_START_STEP_BITS
            &&& r->Ok_0@.endstep == REFINE_END_STEP_BITS
            &&& r->Ok_0@.maxiter == REFINE_MAX_ITERATIONS
            &&& r->Ok_0@.iter == 0
            &&& r->Ok_0@.phase == HjPhase::Base
        },
{
    let mut probvect: Vec<u64> = match generate_probability_vector(
        source,
        mins,
        maxs,
        INIT_SAMPLE_COUNT,
    ) {
        Ok(p) => p,
        Err(e) => {
            return Result::Err(e);
        },
    };

    let ghost nbits = probvect@.len();
    let mut iter: usize = 0;
    while iter < maxiter
        invariant
            probvect@.len() == nbits,
            valid_probvector(probvect@),
            mutrate <= PROBABILITY_SCALE,
        decreases maxiter - iter,
    {
        mccga_singleiter(&mut probvect, fcost, mutrate);

        if isconverged(&probvect, mutrate) {
            break ;
        }

        iter = iter + 1;
    }

    let firstresult: Vec<u64> = floatstodoubles(&bits2floats(&sample(&probvect)));

    proof {
        assert(nbits == 32 * mins@.len());
        assert(firstresult@.len() == mins@.len()) by {
            assert(firstresult@.len() == (32 * mins@.len()) / 32);
            assert((32 * mins@.len()) / 32 == mins@.len()) by (nonlinear_arith);
        }
    }

    Result::Ok(
        HjSearch::new(
            firstresult,
            REFINE_MAX_ITERATIONS,
            REFINE_START_STEP_BITS,
            REFINE_END_STEP_BITS,
        ),
    )
}

} // verus!
