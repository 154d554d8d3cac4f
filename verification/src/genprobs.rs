use vstd::prelude::*;
use vstd::arithmetic::div_mod::{lemma_div_is_ordered, lemma_div_multiples_vanish};
use crate::cga::valid_probvector;
use crate::realbits::{lt_bits, real_lt};
use crate::PROBABILITY_SCALE;

verus! {

/// A source of random sample points within a rectangular domain, supplied
/// by the caller. One call draws one fresh point: one 32-bit
/// floating-point coordinate per domain dimension, each given as its bit
/// pattern, drawn uniformly between the matching entries of `mins` and
/// `maxs` (64-bit floating-point bounds, given as bit patterns).
pub trait PointSource {
    fn next_point(&mut self, mins: &Vec<u64>, maxs: &Vec<u64>) -> Vec<u32>;
}

/// A degenerate search domain.
#[derive(Clone, Copy, Debug, PartialEq, Eq, Structural)]
pub enum BoundsError {
    /// `mins` and `maxs` differ in length.
    DimensionMismatch,
    /// Some lower bound lies strictly above its upper bound.
    InvalidBounds,
}

/// Well-formed bounds: equal lengths, and no lower bound strictly above
/// its upper bound (compared as the 64-bit floating-point values the
/// patterns stand for).
pub open spec fn valid_bounds(mins: Seq<u64>, maxs: Seq<u64>) -> bool {
    mins.len() == maxs.len() && forall|i: int|
        0 <= i < mins.len() ==> !lt_bits(#[trigger] maxs[i], mins[i])
}

/// Turns per-position one-bit counts over `ntries` draws into fixed-point
/// empirical probabilities: entry `i` becomes
/// `counts[i] * PROBABILITY_SCALE / ntries`, rounded down.
pub fn counts_to_probabilities(counts: &Vec<u64>, ntries: u64) -> (r: Vec<u64>)
    requires
        ntries >= 1,
        forall|i: int| 0 <= i < counts@.len() ==> #[trigger] counts@[i] <= ntries,
    ensures
        r@.len() == counts@.len(),
        forall|i: int|
            0 <= i < r@.len() ==> #[trigger] r@[i] == counts@[i] * PROBABILITY_SCALE / (ntries as int),
        valid_probvector(r@),
{
    let n: usize = counts.len();
    let mut result: Vec<u64> = Vec::with_capacity(n);
    for i in 0..n
        invariant
            counts@.len() == n,
            ntries >= 1,
            forall|k: int| 0 <= k < n ==> #[trigger] counts@[k] <= ntries,
            result@.len() == i,
            forall|k: int|
                0 <= k < i ==> #[trigger] result@[k] == counts@[k] * PROBABILITY_SCALE / (ntries as int),
            valid_probvector(result@),
    {
        let c: u64 = counts[i];
        let wide: u128 = (c as u128) * (PROBABILITY_SCALE as u128) / (ntries as u128);
        proof {
            assert(c * PROBABILITY_SCALE <= ntries * PROBABILITY_SCALE) by (nonlinear_arith)
                requires
                    c <= ntries,
            ;
            lemma_div_is_ordered(
                c * PROBABILITY_SCALE,
                ntries * PROBABILITY_SCALE,
                ntries as int,
            );
            lemma_div_multiples_vanish(PROBABILITY_SCALE as int, ntries as int);
            assert(wide <= PROBABILITY_SCALE);
        }
        let v: u64 = wide as u64;
        result.push(v);
    }
    result
}

/// Monte-Carlo estimate of the per-bit one-probabilities of uniformly
/// drawn points: draws `ntries` points from `source`, encodes each, and
/// counts, for every bit position of the 32-bit-per-dimension encoding,
/// how often a 1 was seen; the counts then become fixed-point empirical
/// probabilities. Draws of the wrong dimension contribute no ones.
///
/// Fails fast on a degenerate domain: mismatched bound lengths, or a
/// lower bound strictly above its upper bound, reject before sampling.
pub fn generate_probability_vector<S: PointSource>(
    source: &mut S,
    mins: &Vec<u64>,
    maxs: &Vec<u64>,
    ntries: usize,
) -> (r: Result<Vec<u64>, BoundsError>)
    requires
        ntries >= 1,
        32 * mins@.len() <= usize::MAX,
    ensures
        mins@.len() != maxs@.len() ==> r == Result::<Vec<u64>, BoundsError>::Err(
            BoundsError::DimensionMismatch,
        ),
        mins@.len() == maxs@.len() && !valid_bounds(mins@, maxs@) ==> r == Result::<
            Vec<u64>,
            BoundsError,
        >::Err(BoundsError::InvalidBounds),
        valid_bounds(mins@, maxs@) ==> r is Ok,
        r is Ok ==> r->Ok_0@.len() == 32 * mins@.len() && valid_probvector(r->Ok_0@),
{
    let n: usize = mins.len();
    if n != maxs.len() {
        return Result::Err(BoundsError::DimensionMismatch);
    }
    for i in 0..n
        invariant
            mins@.len() == n,
            maxs@.len() == n,
            forall|j: int| 0 <= j < i ==> !lt_bits(#[trigger] maxs@[j], mins@[j]),
    {
        if real_lt(maxs[i], mins[i]) {
            return Result::Err(BoundsError::InvalidBounds);
        }
    }
    let nbits: usize = n * 32;
    let mut counts: Vec<u64> = Vec::with_capacity(nbits);
    for i in 0..nbits
        invariant
            counts@.len() == i,
            forall|k: int| 0 <= k < i ==> #[trigger] counts@[k] == 0,
    {
        counts.push(0);
    }
    for t in 0..ntries
        invariant
            mins@.len() == n,
            maxs@.len() == n,
            nbits == 32 * n,
            counts@.len() == nbits,
            forall|k: int| 0 <= k < nbits ==> #[trigger] counts@[k] <= t,
    {
        let floats: Vec<u32> = source.next_point(mins, maxs);
        if floats.len() == n {
            for w in 0..n
                invariant
                    counts@.len() == nbits,
                    nbits == 32 * n,
                    floats@.len() == n,
                    forall|j: int| 32 * w <= j < nbits ==> #[trigger] counts@[j] <= t,
                    forall|j: int| 0 <= j < 32 * w ==> #[trigger] counts@[j] <= t + 1,
                    t < ntries,
            {
                let word: u32 = floats[w];
                for b in 0..32usize
                    invariant
                        counts@.len() == nbits,
                        nbits == 32 * n,
                        w < n,
                        forall|j: int| 32 * w + b <= j < nbits ==> #[trigger] counts@[j] <= t,
                        forall|j: int| 0 <= j < 32 * w + b ==> #[trigger] counts@[j] <= t + 1,
                        t < ntries,
                {
                    if (word >> (b as u32)) & 1 == 1 {
                        let idx: usize = 32 * w + b;
                        counts.set(idx, counts[idx] + 1);
                    }
                }
            }
        }
    }
    let probs: Vec<u64> = counts_to_probabilities(&counts, ntries as u64);
    Result::Ok(probs)
}

} // verus!
