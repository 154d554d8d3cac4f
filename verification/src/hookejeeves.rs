use vstd::prelude::*;
use crate::realbits::{half_bits, le_bits, lt_bits, neg_bits, real_half, real_le, real_lt, real_neg};

verus! {

/// Where the pattern search stands inside one iteration.
#[derive(Clone, Copy, Debug, PartialEq, Eq, Structural)]
pub enum HjPhase {
    /// The cost of the current point is wanted.
    Base,
    /// The cost of the current point with one coordinate lowered by the
    /// current step is wanted.
    Left,
    /// The cost of the current point with one coordinate raised by the
    /// current step is wanted.
    Right,
    /// The search has terminated; the current point is the answer.
    Done,
}

/// The evaluation the search asks for next. All values are IEEE-754
/// binary64 bit patterns.
#[derive(Clone, Copy, Debug, PartialEq, Eq, Structural)]
pub enum HjProbe {
    /// Evaluate the cost at the current point as it stands.
    Base,
    /// Evaluate the cost at the current point with coordinate `index`
    /// perturbed by `delta`, and report the perturbed coordinate value
    /// together with the cost.
    Coord { index: usize, delta: u64 },
}

/// The mathematical state of the pattern search. Coordinates, step
/// sizes and costs are IEEE-754 binary64 bit patterns.
#[verifier::ext_equal]
pub ghost struct HjView {
    pub par: Seq<u64>,
    pub step: u64,
    pub endstep: u64,
    pub iter: int,
    pub maxiter: int,
    pub fold: u64,
    pub fnow: u64,
    pub coord: int,
    pub leftval: u64,
    pub leftcost: u64,
    pub phase: HjPhase,
}

/// Closes one full coordinate scan: halves the step when the scan brought
/// no strict improvement, then either terminates (step below `endstep`,
/// or iteration budget spent) or begins the next iteration.
pub open spec fn spec_scan_end(s: HjView) -> HjView {
    let halved = if le_bits(s.fold, s.fnow) {
        half_bits(s.step)
    } else {
        s.step
    };
    if lt_bits(halved, s.endstep) {
        HjView { step: halved, phase: HjPhase::Done, ..s }
    } else if s.iter + 1 >= s.maxiter {
        HjView { step: halved, iter: s.iter + 1, phase: HjPhase::Done, ..s }
    } else {
        HjView { step: halved, iter: s.iter + 1, phase: HjPhase::Base, ..s }
    }
}

/// One transition of the search, fed with the evaluation it asked for:
/// for a `Base` probe only `cost` matters; for a coordinate probe,
/// `value` is the perturbed coordinate and `cost` the cost there.
///
/// In the `Right` phase the exploratory decision falls: the lowered
/// point is accepted when it strictly improves on the cost at the start
/// of the scan; otherwise the raised point when that one does; otherwise
/// the coordinate stays.
pub open spec fn spec_advance(s: HjView, value: u64, cost: u64) -> HjView {
    match s.phase {
        HjPhase::Base => {
            let s1 = HjView { fold: cost, fnow: cost, coord: 0, ..s };
            if s.par.len() == 0 {
                spec_scan_end(s1)
            } else {
                HjView { phase: HjPhase::Left, ..s1 }
            }
        },
        HjPhase::Left => HjView { leftval: value, leftcost: cost, phase: HjPhase::Right, ..s },
        HjPhase::Right => {
            let s1 = if lt_bits(s.leftcost, s.fold) {
                HjView { par: s.par.update(s.coord, s.leftval), fnow: s.leftcost, ..s }
            } else if lt_bits(cost, s.fold) {
                HjView { par: s.par.update(s.coord, value), fnow: cost, ..s }
            } else {
                s
            };
            let s2 = HjView { coord: s.coord + 1, ..s1 };
            if s.coord + 1 < s.par.len() {
                HjView { phase: HjPhase::Left, ..s2 }
            } else {
                spec_scan_end(s2)
            }
        },
        HjPhase::Done => s,
    }
}

/// Hooke-Jeeves pattern search over a real vector, run as a decision
/// machine: the caller repeatedly asks `next_probe` what cost evaluation
/// is wanted, performs it, and hands the outcome to `advance`; when
/// `done` reports true, `current_point` is the best point found.
pub struct HjSearch {
    par: Vec<u64>,
    step: u64,
    endstep: u64,
    iter: usize,
    maxiter: usize,
    fold: u64,
    fnow: u64,
    coord: usize,
    leftval: u64,
    leftcost: u64,
    phase: HjPhase,
}

impl View for HjSearch {
    type V = HjView;

    closed spec fn view(&self) -> HjView {
        HjView {
            par: self.par@,
            step: self.step,
            endstep: self.endstep,
            iter: self.iter as int,
            maxiter: self.maxiter as int,
            fold: self.fold,
            fnow: self.fnow,
            coord: self.coord as int,
            leftval: self.leftval,
            leftcost: self.leftcost,
            phase: self.phase,
        }
    }
}

impl HjSearch {
    /// The machine's internal consistency: a coordinate phase points at a
    /// real coordinate, and a machine that is not done has budget left.
    pub open spec fn wf(self) -> bool {
        &&& (self@.phase == HjPhase::Left || self@.phase == HjPhase::Right) ==> 0 <= self@.coord
            < self@.par.len()
        &&& self@.phase != HjPhase::Done ==> self@.iter < self@.maxiter
        &&& self@.iter <= self@.maxiter
    }

    /// Starts a search at `parv` with the given iteration budget,
    /// starting step and end step (both steps as binary64 bit patterns).
    /// A zero budget is already done, with `parv` as the answer.
    pub fn new(parv: Vec<u64>, maxiter: usize, startstep: u64, endstep: u64) -> (r: HjSearch)
        ensures
            r.wf(),
            r@.par == parv@,
            r@.step == startstep,
            r@.endstep == endstep,
            r@.iter == 0,
            r@.maxiter == maxiter,
            r@.phase == if maxiter == 0 {
                HjPhase::Done
            } else {
                HjPhase::Base
            },
    {
        HjSearch {
            par: parv,
            step: startstep,
            endstep,
            iter: 0,
            maxiter,
            fold: 0,
            fnow: 0,
            coord: 0,
            leftval: 0,
            leftcost: 0,
            phase: if maxiter == 0 {
                HjPhase::Done
            } else {
                HjPhase::Base
            },
        }
    }

    /// Whether the search has terminated.
    pub fn done(&self) -> (r: bool)
        ensures
            r == (self@.phase == HjPhase::Done),
    {
        match self.phase {
            HjPhase::Done => true,
            _ => false,
        }
    }

    /// The current point (the answer, once the search is done).
    pub fn current_point(&self) -> (r: &Vec<u64>)
        ensures
            r@ == self@.par,
    {
        &self.par
    }

    /// The evaluation the search wants next, or nothing once done.
    pub fn next_probe(&self) -> (r: Option<HjProbe>)
        requires
            self.wf(),
        ensures
            r == match self@.phase {
                HjPhase::Base => Some(HjProbe::Base),
                HjPhase::Left => Some(
                    HjProbe::Coord { index: self@.coord as usize, delta: neg_bits(self@.step) },
                ),
                HjPhase::Right => Some(
                    HjProbe::Coord { index: self@.coord as usize, delta: self@.step },
                ),
                HjPhase::Done => None::<HjProbe>,
            },
    {
        match self.phase {
            HjPhase::Base => Some(HjProbe::Base),
            HjPhase::Left => Some(HjProbe::Coord { index: self.coord, delta: real_neg(self.step) }),
            HjPhase::Right => Some(HjProbe::Coord { index: self.coord, delta: self.step }),
            HjPhase::Done => None,
        }
    }

    /// Feeds back the evaluation asked for by `next_probe`: `cost` is the
    /// cost found, and, for a coordinate probe, `value` the perturbed
    /// coordinate value the cost was taken at (ignored for a base probe).
    /// The machine moves exactly as `spec_advance` states.
    pub fn advance(&mut self, value: u64, cost: u64)
        requires
            old(self).wf(),
            old(self)@.phase != HjPhase::Done,
        ensures
            final(self).wf(),
            final(self)@ == spec_advance(old(self)@, value, cost),
            final(self)@.par.len() == old(self)@.par.len(),
    {
        match self.phase {
            HjPhase::Base => {
                self.fold = cost;
                self.fnow = cost;
                self.coord = 0;
                if self.par.len() == 0 {
                    self.scan_end();
                } else {
                    self.phase = HjPhase::Left;
                }
                proof {
                    assert(self@ =~= spec_advance(old(self)@, value, cost));
                }
            },
            HjPhase::Left => {
                self.leftval = value;
                self.leftcost = cost;
                self.phase = HjPhase::Right;
                proof {
                    assert(self@ =~= spec_advance(old(self)@, value, cost));
                }
            },
            HjPhase::Right => {
                let n: usize = self.par.len();
                if real_lt(self.leftcost, self.fold) {
                    let accepted: u64 = self.leftval;
                    self.fnow = self.leftcost;
                    self.par.set(self.coord, accepted);
                } else if real_lt(cost, self.fold) {
                    self.fnow = cost;
                    self.par.set(self.coord, value);
                }
                self.coord = self.coord + 1;
                if self.coord < n {
                    self.phase = HjPhase::Left;
                } else {
                    self.scan_end();
                }
                proof {
                    assert(self@ =~= spec_advance(old(self)@, value, cost));
                }
            },
            HjPhase::Done => {
                proof {
                    assert(false);
                }
            },
        }
    }

    /// Closes one coordinate scan, as `spec_scan_end` states.
    fn scan_end(&mut self)
        requires
            old(self)@.iter < old(self)@.maxiter,
        ensures
            final(self)@ == spec_scan_end(old(self)@),
            final(self)@.par == old(self)@.par,
            final(self)@.phase == HjPhase::Base || final(self)@.phase == HjPhase::Done,
            final(self)@.phase == HjPhase::Base ==> final(self)@.iter < final(self)@.maxiter,
            final(self)@.iter <= final(self)@.maxiter,
    {
        if real_le(self.fold, self.fnow) {
            self.step = real_half(self.step);
        }
        if real_lt(self.step, self.endstep) {
            self.phase = HjPhase::Done;
        } else {
            self.iter = self.iter + 1;
            if self.iter >= self.maxiter {
                self.phase = HjPhase::Done;
            } else {
                self.phase = HjPhase::Base;
            }
        }
        proof {
            assert(self@ =~= spec_scan_end(old(self)@));
        }
    }
}

} // verus!
