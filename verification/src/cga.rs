use vstd::prelude::*;
use crate::byteworks::is_bitvector;
use crate::random::random_fixed;
use crate::realbits::real_lt;
use crate::PROBABILITY_SCALE;

verus! {

/// A cost function over candidate bit-strings, supplied by the caller.
/// The returned value is the IEEE-754 binary64 bit pattern of the cost.
pub trait BitCostFunction {
    fn cost(&self, x: &Vec<u8>) -> u64;
}

/// A well-formed probability vector: every fixed-point entry stands for a
/// probability in [0, 1].
pub open spec fn valid_probvector(s: Seq<u64>) -> bool {
    forall|i: int| 0 <= i < s.len() ==> s[i] <= PROBABILITY_SCALE
}

/// One entry after the competitive update: untouched where winner and
/// loser agree, pulled one `rate` step toward the winner's bit value and
/// clamped to [0, PROBABILITY_SCALE] where they differ.
pub open spec fn updated_entry(p: u64, w: u8, l: u8, rate: u64) -> u64 {
    if w == l {
        p
    } else if w == 0 {
        if p >= rate {
            (p - rate) as u64
        } else {
            0
        }
    } else {
        if p + rate <= PROBABILITY_SCALE {
            (p + rate) as u64
        } else {
            PROBABILITY_SCALE
        }
    }
}

/// The whole probability vector after the competitive update.
pub open spec fn spec_update(p: Seq<u64>, w: Seq<u8>, l: Seq<u8>, rate: u64) -> Seq<u64> {
    Seq::new(p.len(), |i: int| updated_entry(p[i], w[i], l[i], rate))
}

/// Whether a fixed-point value lies within `tol` of `other`.
pub open spec fn spec_within(x: u64, other: u64, tol: u64) -> bool {
    if x >= other {
        x - other <= tol
    } else {
        other - x <= tol
    }
}

/// The convergence predicate: every entry lies within `tol` of 0 or of
/// PROBABILITY_SCALE.
pub open spec fn spec_converged(p: Seq<u64>, tol: u64) -> bool {
    forall|i: int|
        0 <= i < p.len() ==> spec_within(#[trigger] p[i], 0, tol) || spec_within(
            p[i],
            PROBABILITY_SCALE,
            tol,
        )
}

/// Draws one candidate bit-string from the probability vector: bit `i` is
/// 1 with the probability that entry `i` stands for.
pub fn sample(probvector: &Vec<u64>) -> (r: Vec<u8>)
    ensures
        r@.len() == probvector@.len(),
        is_bitvector(r@),
{
    let n: usize = probvector.len();
    let mut newvector: Vec<u8> = Vec::with_capacity(n);
    for i in 0..n
        invariant
            probvector@.len() == n,
            newvector@.len() == i,
            is_bitvector(newvector@),
    {
        let u: u64 = random_fixed();
        if u < probvector[i] {
            newvector.push(1u8);
        } else {
            newvector.push(0u8);
        }
    }
    newvector
}

/// In-place competitive update of the probability vector. Where the ith
/// bits of winner and loser agree nothing changes; where they differ the
/// ith probability moves one `mutrate` step toward the winner's bit,
/// clamped to the valid range.
pub fn update(probvector: &mut Vec<u64>, winner: &Vec<u8>, loser: &Vec<u8>, mutrate: u64)
    requires
        winner@.len() == old(probvector)@.len(),
        loser@.len() == old(probvector)@.len(),
        valid_probvector(old(probvector)@),
        mutrate <= PROBABILITY_SCALE,
    ensures
        final(probvector)@ == spec_update(old(probvector)@, winner@, loser@, mutrate),
        valid_probvector(final(probvector)@),
        winner@ == loser@ ==> final(probvector)@ == old(probvector)@,
{
    let n: usize = probvector.len();
    for i in 0..n
        invariant
            probvector@.len() == n,
            old(probvector)@.len() == n,
            winner@.len() == n,
            loser@.len() == n,
            valid_probvector(old(probvector)@),
            valid_probvector(probvector@),
            mutrate <= PROBABILITY_SCALE,
            forall|k: int| 0 <= k < i ==> probvector@[k] == #[trigger] spec_update(
                old(probvector)@,
                winner@,
                loser@,
                mutrate,
            )[k],
            forall|k: int| i <= k < n ==> probvector@[k] == old(probvector)@[k],
    {
        let ghost entered = probvector@;
        if winner[i] != loser[i] {
            let p: u64 = probvector[i];
            if winner[i] == 0 {
                let lowered: u64 = if p >= mutrate {
                    p - mutrate
                } else {
                    0
                };
                probvector.set(i, lowered);
            } else {
                let raised: u64 = if p + mutrate <= PROBABILITY_SCALE {
                    p + mutrate
                } else {
                    PROBABILITY_SCALE
                };
                probvector.set(i, raised);
            }
        }
        proof {
            let target = spec_update(old(probvector)@, winner@, loser@, mutrate);
            assert(target[i as int] == updated_entry(
                old(probvector)@[i as int],
                winner@[i as int],
                loser@[i as int],
                mutrate,
            ));
            assert(entered[i as int] == old(probvector)@[i as int]);
            assert(probvector@[i as int] == target[i as int]);
            assert forall|k: int| 0 <= k < i + 1 implies probvector@[k] == #[trigger] target[k] by {
                if k < i {
                    assert(probvector@[k] == entered[k]);
                }
            }
        }
    }
    proof {
        assert(probvector@ =~= spec_update(old(probvector)@, winner@, loser@, mutrate));
        if winner@ == loser@ {
            assert(probvector@ =~= old(probvector)@);
        }
    }
}

/// Whether `x` lies within `mutrate` of `other`, in fixed point.
pub fn isequal(x: u64, other: u64, mutrate: u64) -> (r: bool)
    ensures
        r == spec_within(x, other, mutrate),
{
    if x >= other {
        x - other <= mutrate
    } else {
        other - x <= mutrate
    }
}

/// Whether every probability lies within `mutrate` of 0 or of 1. The scan
/// stops at the first entry that does not satisfy this; the answer does
/// not depend on the order.
pub fn isconverged(probvector: &Vec<u64>, mutrate: u64) -> (r: bool)
    ensures
        r == spec_converged(probvector@, mutrate),
{
    let n: usize = probvector.len();
    for i in 0..n
        invariant
            probvector@.len() == n,
            forall|k: int|
                0 <= k < i ==> spec_within(#[trigger] probvector@[k], 0, mutrate) || spec_within(
                    probvector@[k],
                    PROBABILITY_SCALE,
                    mutrate,
                ),
    {
        let val: u64 = probvector[i];
        if !(isequal(val, 0, mutrate) || isequal(val, PROBABILITY_SCALE, mutrate)) {
            return false;
        }
    }
    true
}

/// One tournament round: draws two candidates, asks the cost function for
/// each, and pulls the probability vector toward the candidate of
/// strictly lower cost (the first-drawn candidate wins ties).
pub fn single_iteration<F: BitCostFunction>(probvector: &mut Vec<u64>, fcost: &F, mutrate: u64)
    requires
        valid_probvector(old(probvector)@),
        mutrate <= PROBABILITY_SCALE,
    ensures
        final(probvector)@.len() == old(probvector)@.len(),
        valid_probvector(final(probvector)@),
        exists|w: Seq<u8>, l: Seq<u8>|
            is_bitvector(w) && is_bitvector(l) && w.len() == old(probvector)@.len() && l.len()
                == old(probvector)@.len() && final(probvector)@ == spec_update(
                old(probvector)@,
                w,
                l,
                mutrate,
            ),
{
    let candidate1: Vec<u8> = sample(probvector);
    let candidate2: Vec<u8> = sample(probvector);

    let cost1: u64 = fcost.cost(&candidate1);
    let cost2: u64 = fcost.cost(&candidate2);

    if real_lt(cost2, cost1) {
        update(probvector, &candidate2, &candidate1, mutrate);
        proof {
            assert(is_bitvector(candidate2@) && is_bitvector(candidate1@) && candidate2@.len()
                == old(probvector)@.len() && candidate1@.len() == old(probvector)@.len()
                && probvector@ == spec_update(
                old(probvector)@,
                candidate2@,
                candidate1@,
                mutrate,
            ));
        }
    } else {
        update(probvector, &candidate1, &candidate2, mutrate);
        proof {
            assert(is_bitvector(candidate1@) && is_bitvector(candidate2@) && candidate1@.len()
                == old(probvector)@.len() && candidate2@.len() == old(probvector)@.len()
                && probvector@ == spec_update(
                old(probvector)@,
                candidate1@,
                candidate2@,
                mutrate,
            ));
        }
    }
}

/// The standalone compact genetic algorithm: starts from the uniform 0.5
/// probability vector over `bitlen` bits, runs tournament rounds until
/// the vector converges or the iteration budget runs out, and returns one
/// final sample of the vector.
pub fn cga<F: BitCostFunction>(fcost: &F, mutrate: u64, bitlen: usize, maxiter: usize) -> (r: Vec<
    u8,
>)
    requires
        mutrate <= PROBABILITY_SCALE,
    ensures
        r@.len() == bitlen,
        is_bitvector(r@),
{
    let mut probvector: Vec<u64> = Vec::with_capacity(bitlen);
    for i in 0..bitlen
        invariant
            probvector@.len() == i,
            valid_probvector(probvector@),
    {
        probvector.push(PROBABILITY_SCALE / 2);
    }

    let mut iter: usize = 0;
    while iter < maxiter
        invariant
            probvector@.len() == bitlen,
            valid_probvector(probvector@),
            mutrate <= PROBABILITY_SCALE,
            iter <= maxiter,
        decreases maxiter - iter,
    {
        if isconverged(&probvector, mutrate) {
            break ;
        }
        single_iteration(&mut probvector, fcost, mutrate);
        iter = iter + 1;
    }

    let result: Vec<u8> = sample(&probvector);
    result
}

/// Every probability vector made only of the exact values 0 and 1
/// converges, whatever the nonnegative tolerance.
pub proof fn lemma_extreme_vector_converges(p: Seq<u64>, tol: u64)
    requires
        forall|i: int| 0 <= i < p.len() ==> p[i] == 0 || #[trigger] p[i] == PROBABILITY_SCALE,
    ensures
        spec_converged(p, tol),
{
    assert forall|i: int|
        0 <= i < p.len() implies spec_within(#[trigger] p[i], 0, tol) || spec_within(
        p[i],
        PROBABILITY_SCALE,
        tol,
    ) by {
        assert(p[i] == 0 || p[i] == PROBABILITY_SCALE);
    }
}

/// A probability vector holding the exact value 0.5 anywhere does not
/// converge for a tolerance below 0.5.
pub proof fn lemma_half_entry_blocks_convergence(p: Seq<u64>, tol: u64, i: int)
    requires
        0 <= i < p.len(),
        p[i] == PROBABILITY_SCALE / 2,
        tol < PROBABILITY_SCALE / 2,
    ensures
        !spec_converged(p, tol),
{
    assert(!(spec_within(p[i], 0, tol) || spec_within(p[i], PROBABILITY_SCALE, tol)));
}

} // verus!
