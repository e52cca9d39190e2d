//! One table's proof as a sequence of phases. Each step binds what was just
//! committed into the transcript before drawing the challenges that depend
//! on it, and a step taken out of order is refused.
use crate::bundle::MerkleCap;
use crate::challenger::{cap_elements, permutation_ok, Challenger};
use crate::field::ExtElem;
use crate::grand_product::GrandProductChallenge;
use crate::prover::{draw_alphas, draw_opening_point, get_n_grand_product_challenge_sets};
use crate::stark::{in_trace_subgroup, ProofError};
use vstd::prelude::*;

verus! {

/// The phases of one table's proof.
#[derive(Clone, Copy, Debug, PartialEq, Eq, Structural)]
pub enum TablePhase {
    /// The trace is committed and its cap observed with every other table's.
    TraceCommitted,
    /// The `Z` cap is observed and the combination challenges drawn.
    ChallengesDrawn,
    /// The quotient cap is observed and the out-of-domain point drawn.
    PointChosen,
    /// The opened values are observed; the opening proof comes next.
    OpeningsComputed,
    /// The out-of-domain point fell in the trace subgroup: the table's proof
    /// is abandoned, and no further step is taken.
    Failed,
}

/// The transcript and the challenges of one table's proof in progress.
pub struct TableSession {
    pub phase: TablePhase,
    pub challenger: Challenger,
    pub degree_bits: usize,
    pub permutation_challenges: Vec<Vec<GrandProductChallenge>>,
    pub alphas: Vec<u64>,
    pub zeta: ExtElem,
}

impl TableSession {
    pub open spec fn wf(&self) -> bool {
        self.challenger.wf()
    }

    /// Starts a table: compacts the transcript, then draws
    /// `permutation_sets` sets of `num_challenges` permutation challenges.
    pub fn start<F: Fn(Vec<u64>) -> Vec<u64>>(
        challenger: Challenger,
        perm: &F,
        degree_bits: usize,
        num_challenges: usize,
        permutation_sets: usize,
    ) -> (r: Self)
        requires
            challenger.wf(),
            permutation_ok(perm),
            2 * (num_challenges * permutation_sets) <= usize::MAX,
        ensures
            r.wf(),
            r.phase == TablePhase::TraceCommitted,
            r.degree_bits == degree_bits,
            r.alphas@.len() == 0,
            r.permutation_challenges@.len() == permutation_sets,
            exists|mid: Challenger, flat: Seq<u64>|
                #![trigger challenger.compacted(mid, perm), mid.draws(r.challenger, flat, perm)]
                challenger.compacted(mid, perm) && mid.draws(r.challenger, flat, perm) && flat.len() == 2 * (
                num_challenges * permutation_sets) && forall|i: int, j: int|
                    0 <= i < permutation_sets && 0 <= j < num_challenges ==> (#[trigger] r.permutation_challenges@[i]@[j])
                        == (GrandProductChallenge {
                        beta: flat[2 * (i * num_challenges + j)],
                        gamma: flat[2 * (i * num_challenges + j) + 1],
                    }),
    {
        let mut challenger = challenger;
        let ghost start = challenger;
        challenger.compact(perm);
        let ghost mid = challenger;
        let permutation_challenges = get_n_grand_product_challenge_sets(
            &mut challenger,
            perm,
            num_challenges,
            permutation_sets,
        );
        assert(start.compacted(mid, perm));
        let ghost flat = choose|flat: Seq<u64>|
            #[trigger] mid.draws(challenger, flat, perm) && flat.len() == 2 * (num_challenges * permutation_sets)
                && permutation_challenges@.len() == permutation_sets && forall|i: int, j: int|
                0 <= i < permutation_sets && 0 <= j < num_challenges ==> (#[trigger] permutation_challenges@[i]@[j]) == (
                GrandProductChallenge {
                    beta: flat[2 * (i * num_challenges + j)],
                    gamma: flat[2 * (i * num_challenges + j) + 1],
                });
        assert(mid.draws(challenger, flat, perm));
        TableSession {
            phase: TablePhase::TraceCommitted,
            challenger,
            degree_bits,
            permutation_challenges,
            alphas: Vec::new(),
            zeta: ExtElem { c0: 0, c1: 0 },
        }
    }

    /// Observes the cap of the merged `Z` commitment and draws the
    /// `num_challenges` combination challenges.
    pub fn commit_zs<F: Fn(Vec<u64>) -> Vec<u64>>(&mut self, perm: &F, zs_cap: &MerkleCap, num_challenges: usize) -> (r:
        Result<(), ProofError>)
        requires
            old(self).wf(),
            permutation_ok(perm),
        ensures
            final(self).wf(),
            r is Err <==> old(self).phase != TablePhase::TraceCommitted,
            r is Err ==> r == Err::<(), ProofError>(ProofError::OutOfOrder) && *final(self) == *old(self),
            r is Ok ==> {
                &&& final(self).phase == TablePhase::ChallengesDrawn
                &&& final(self).alphas@.len() == num_challenges
                &&& final(self).degree_bits == old(self).degree_bits
                &&& final(self).permutation_challenges@ == old(self).permutation_challenges@
                &&& exists|mid: Challenger|
                    #[trigger] old(self).challenger.observes(mid, cap_elements(zs_cap@), perm) && mid.draws(
                        final(self).challenger,
                        final(self).alphas@,
                        perm,
                    )
            },
    {
        if self.phase != TablePhase::TraceCommitted {
            return Err(ProofError::OutOfOrder);
        }
        self.alphas = draw_alphas(&mut self.challenger, perm, zs_cap, num_challenges);
        self.phase = TablePhase::ChallengesDrawn;
        Ok(())
    }

    /// Observes the cap of the quotient commitment and draws the
    /// out-of-domain point; fails where it lies in the trace subgroup.
    pub fn commit_quotient<F: Fn(Vec<u64>) -> Vec<u64>>(&mut self, perm: &F, quotient_cap: &MerkleCap) -> (r: Result<
        ExtElem,
        ProofError,
    >)
        requires
            old(self).wf(),
            permutation_ok(perm),
        ensures
            final(self).wf(),
            old(self).phase != TablePhase::ChallengesDrawn ==> r == Err::<ExtElem, ProofError>(ProofError::OutOfOrder)
                && *final(self) == *old(self),
            old(self).phase == TablePhase::ChallengesDrawn ==> {
                &&& final(self).alphas@ == old(self).alphas@
                &&& final(self).permutation_challenges@ == old(self).permutation_challenges@
                &&& exists|mid: Challenger, zeta: ExtElem|
                    #![trigger old(self).challenger.observes(mid, cap_elements(quotient_cap@), perm), zeta.wf()]
                    old(self).challenger.observes(mid, cap_elements(quotient_cap@), perm) && mid.draws(
                        final(self).challenger,
                        seq![zeta.c0, zeta.c1],
                        perm,
                    ) && zeta.wf() && match r {
                        Ok(z) => z == zeta && final(self).zeta == zeta && final(self).phase == TablePhase::PointChosen
                            && !in_trace_subgroup(zeta, old(self).degree_bits as nat),
                        Err(e) => e == ProofError::OpeningPointInSubgroup && final(self).phase == TablePhase::Failed
                            && in_trace_subgroup(zeta, old(self).degree_bits as nat),
                    }
            },
    {
        if self.phase != TablePhase::ChallengesDrawn {
            return Err(ProofError::OutOfOrder);
        }
        let r = draw_opening_point(&mut self.challenger, perm, quotient_cap, self.degree_bits);
        match r {
            Ok(z) => {
                self.zeta = z;
                self.phase = TablePhase::PointChosen;
            },
            Err(_) => {
                self.phase = TablePhase::Failed;
            },
        }
        r
    }

    /// Observes the opened values, each extension element as its two
    /// coordinates, before the opening proof is made.
    pub fn observe_openings<F: Fn(Vec<u64>) -> Vec<u64>>(&mut self, perm: &F, opened: &Vec<ExtElem>) -> (r: Result<
        (),
        ProofError,
    >)
        requires
            old(self).wf(),
            permutation_ok(perm),
        ensures
            final(self).wf(),
            r is Err <==> old(self).phase != TablePhase::PointChosen,
            r is Err ==> r == Err::<(), ProofError>(ProofError::OutOfOrder) && *final(self) == *old(self),
            r is Ok ==> {
                &&& final(self).phase == TablePhase::OpeningsComputed
                &&& final(self).zeta == old(self).zeta
                &&& final(self).alphas@ == old(self).alphas@
                &&& old(self).challenger.observes(final(self).challenger, ext_coordinates(opened@), perm)
            },
    {
        if self.phase != TablePhase::PointChosen {
            return Err(ProofError::OutOfOrder);
        }
        let ghost start = self.challenger;
        let ghost elems = ext_coordinates(opened@);
        let ghost mut states: Seq<Challenger> = seq![self.challenger];
        let mut i: usize = 0;
        while i < opened.len()
            invariant
                i <= opened@.len(),
                elems == ext_coordinates(opened@),
                self.challenger.wf(),
                permutation_ok(perm),
                self.phase == TablePhase::PointChosen,
                self.zeta == old(self).zeta,
                self.alphas@ == old(self).alphas@,
                states.len() == 2 * i + 1,
                states[0] == start,
                start == old(self).challenger,
                states.last() == self.challenger,
                forall|k: int| 0 <= k < 2 * i ==> #[trigger] states[k].observe_step(states[k + 1], elems[k], perm),
            decreases opened.len() - i,
        {
            let e = opened[i];
            assert(elems[2 * i] == e.c0 && elems[2 * i + 1] == e.c1) by {
                assert((2 * i) / 2 == i && (2 * i) % 2 == 0 && (2 * i + 1) / 2 == i && (2 * i + 1) % 2 == 1) by (nonlinear_arith);
            }
            self.challenger.observe_element(e.c0, perm);
            proof {
                states = states.push(self.challenger);
            }
            self.challenger.observe_element(e.c1, perm);
            proof {
                states = states.push(self.challenger);
            }
            i = i + 1;
        }
        assert(start.observes(self.challenger, elems, perm));
        self.phase = TablePhase::OpeningsComputed;
        Ok(())
    }
}

impl TableSession {
    /// Ends the table's part of the proof, handing the transcript on to the
    /// low-degree test and then to the next table.
    pub fn into_challenger(self) -> (r: Challenger)
        ensures
            r == self.challenger,
    {
        self.challenger
    }
}

/// The coordinates of a list of extension elements, element after element.
pub open spec fn ext_coordinates(v: Seq<ExtElem>) -> Seq<u64> {
    Seq::new(2 * v.len(), |i: int| if i % 2 == 0 { v[i / 2].c0 } else { v[i / 2].c1 })
}

} // verus!
