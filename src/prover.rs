//! The decisions of the prover that precede and frame the commitments: each
//! table's evaluation layout, the checks that abort a proof, and the order in
//! which the tables and their transcript steps are taken.
use crate::bundle::MerkleCap;
use crate::challenger::{cap_elements, caps_elements, observe_trace_caps, permutation_ok, Challenger, SPONGE_WIDTH};
use crate::field::ExtElem;
use crate::grand_product::GrandProductChallenge;
use crate::stark::{check_opening_point, degree_supported, in_trace_subgroup, quotient_degree_bits, ProofError, StarkConfig};
use crate::transcript::{transcript_schedule, transcript_spec, TranscriptStep, NUM_TABLES};
use crate::util::{is_power_of_two, lemma_log2_of_pow2, log2_ceil_spec, log2_of, log2_strict};
use vstd::prelude::*;

verus! {

/// What the prover needs to know of one table before it commits to anything.
#[derive(Clone, Copy, Debug, PartialEq, Eq, Structural)]
pub struct TableShape {
    /// Number of rows of the trace, a power of two.
    pub degree: usize,
    /// The maximum degree of the table's constraints.
    pub quotient_degree_factor: usize,
    pub uses_permutation_args: bool,
    /// Whether the table takes part in cross-table lookups.
    pub declares_lookups: bool,
    /// How many permutation checks share one batch, and so how many
    /// challenge sets are drawn.
    pub permutation_batch_size: usize,
    /// Number of permutation `Z` polynomials the table produces.
    pub num_permutation_zs: usize,
    /// Number of lookup `Z` polynomials that lookups assign to the table.
    pub num_ctl_zs: usize,
}

/// How one table is proved.
#[derive(Clone, Copy, Debug, PartialEq, Eq, Structural)]
pub struct TablePlan {
    /// `log2` of the number of rows.
    pub degree_bits: usize,
    /// `ceil(log2(quotient_degree_factor))`.
    pub quotient_degree_bits: usize,
    /// Stride through the low-degree extension that samples the quotient coset.
    pub step: u64,
    /// Distance on the coset from a point to the next row's point.
    pub next_step: u64,
    /// Number of points of the coset on which the quotient is evaluated.
    pub coset_size: u64,
    /// Number of permutation challenge sets drawn, each of `num_challenges`
    /// challenge pairs.
    pub permutation_challenge_sets: usize,
    /// Number of `Z` polynomials committed together.
    pub num_zs: usize,
    /// Number of quotient chunks committed, `degree` coefficients each.
    pub num_quotient_chunks: usize,
}

/// The table declares permutation checks or lookups, and so must commit
/// running-product `Z` polynomials.
pub open spec fn needs_zs(shape: TableShape) -> bool {
    shape.uses_permutation_args || shape.declares_lookups
}

/// The table's plan, or the first check that fails: no `Z` polynomial to
/// commit for a table that declares permutation checks or lookups, then a
/// constraint degree beyond the rate. A table that declares neither is
/// planned with an empty batch of `Z` polynomials.
pub open spec fn plan_spec(shape: TableShape, config: StarkConfig, degree_bits: nat) -> Result<TablePlan, ProofError> {
    let rate_bits = config.fri_config.rate_bits;
    let q = log2_ceil_spec(shape.quotient_degree_factor as nat);
    if needs_zs(shape) && shape.num_permutation_zs + shape.num_ctl_zs == 0 {
        Err(ProofError::NoCtlData)
    } else if !degree_supported(shape.quotient_degree_factor as nat, rate_bits as nat) {
        Err(ProofError::DegreeTooHigh)
    } else {
        Ok(
            TablePlan {
                degree_bits: degree_bits as usize,
                quotient_degree_bits: q as usize,
                step: 1u64 << (rate_bits - q) as u64,
                next_step: 1u64 << q as u64,
                coset_size: (shape.degree as u64) << q as u64,
                permutation_challenge_sets: if shape.uses_permutation_args {
                    shape.permutation_batch_size
                } else {
                    0
                },
                num_zs: (shape.num_permutation_zs + shape.num_ctl_zs) as usize,
                num_quotient_chunks: (config.num_challenges * shape.quotient_degree_factor) as usize,
            },
        )
    }
}

/// The plan of a table whose trace has `shape.degree` rows.
pub open spec fn table_plan(shape: TableShape, config: StarkConfig) -> Result<TablePlan, ProofError> {
    plan_spec(shape, config, log2_of(shape.degree as nat))
}

/// The shape is one the prover can be asked about: a power-of-two trace and
/// counts that fit in a machine word.
pub open spec fn shape_wf(shape: TableShape, config: StarkConfig) -> bool {
    &&& is_power_of_two(shape.degree as nat)
    &&& shape.num_permutation_zs + shape.num_ctl_zs <= usize::MAX
    &&& config.num_challenges * shape.quotient_degree_factor <= usize::MAX
    &&& config.fri_config.rate_bits < 64
}

/// Plans the proof of one table: the layout of its quotient evaluation and
/// the number of challenges and polynomials it commits to.
pub fn plan_table(shape: TableShape, config: &StarkConfig) -> (r: Result<TablePlan, ProofError>)
    requires
        shape_wf(shape, *config),
    ensures
        r == table_plan(shape, *config),
{
    let degree_bits = log2_strict(shape.degree);
    proof {
        lemma_log2_of_pow2(degree_bits as nat);
    }
    let num_zs = shape.num_permutation_zs + shape.num_ctl_zs;
    if (shape.uses_permutation_args || shape.declares_lookups) && num_zs == 0 {
        return Err(ProofError::NoCtlData);
    }
    let rate_bits = config.fri_config.rate_bits;
    let q = match quotient_degree_bits(shape.quotient_degree_factor, rate_bits) {
        Ok(q) => q,
        Err(e) => return Err(e),
    };
    let permutation_challenge_sets = if shape.uses_permutation_args {
        shape.permutation_batch_size
    } else {
        0
    };
    Ok(
        TablePlan {
            degree_bits,
            quotient_degree_bits: q,
            step: 1u64 << (rate_bits - q) as u64,
            next_step: 1u64 << q as u64,
            coset_size: (shape.degree as u64) << q as u64,
            permutation_challenge_sets,
            num_zs,
            num_quotient_chunks: config.num_challenges * shape.quotient_degree_factor,
        },
    )
}

/// Plans every table in table order and fixes the transcript. Fails with the
/// error of the first table, in table order, whose plan fails.
pub fn plan_all_tables(shapes: &Vec<TableShape>, config: &StarkConfig) -> (r: Result<
    (Vec<TablePlan>, Vec<TranscriptStep>),
    ProofError,
>)
    requires
        shapes@.len() == NUM_TABLES,
        forall|i: int| 0 <= i < NUM_TABLES ==> shape_wf(#[trigger] shapes@[i], *config),
    ensures
        match r {
            Ok((plans, steps)) => {
                &&& plans@.len() == NUM_TABLES
                &&& forall|i: int|
                    0 <= i < NUM_TABLES ==> #[trigger] table_plan(shapes@[i], *config) == Ok::<TablePlan, ProofError>(plans@[i])
                &&& steps@ == transcript_spec(Seq::new(NUM_TABLES as nat, |i: int| plans@[i].permutation_challenge_sets))
            },
            Err(e) => exists|j: int|
                0 <= j < NUM_TABLES && (forall|i: int| 0 <= i < j ==> (#[trigger] table_plan(shapes@[i], *config)) is Ok)
                    && table_plan(shapes@[j], *config) == Err::<TablePlan, ProofError>(e),
        },
{
    let mut plans: Vec<TablePlan> = Vec::new();
    let mut sets: Vec<usize> = Vec::new();
    let mut i: usize = 0;
    while i < NUM_TABLES
        invariant
            i <= NUM_TABLES,
            shapes@.len() == NUM_TABLES,
            forall|i: int| 0 <= i < NUM_TABLES ==> shape_wf(#[trigger] shapes@[i], *config),
            plans@.len() == i,
            sets@.len() == i,
            forall|k: int| 0 <= k < i ==> #[trigger] sets@[k] == plans@[k].permutation_challenge_sets,
            forall|m: int| 0 <= m < i ==> #[trigger] table_plan(shapes@[m], *config) == Ok::<TablePlan, ProofError>(plans@[m]),
        decreases NUM_TABLES - i,
    {
        match plan_table(shapes[i], config) {
            Ok(plan) => {
                plans.push(plan);
                sets.push(plan.permutation_challenge_sets);
                assert(plans@[i as int] == plan);
            },
            Err(e) => {
                return Err(e);
            },
        }
        i = i + 1;
    }
    let steps = transcript_schedule(&sets);
    assert(sets@ =~= Seq::new(NUM_TABLES as nat, |i: int| plans@[i].permutation_challenge_sets));
    Ok((plans, steps))
}

/// Draws `num_sets` sets of `num_challenges` grand-product challenges, each a
/// `beta` then a `gamma`.
pub fn get_n_grand_product_challenge_sets<F: Fn(Vec<u64>) -> Vec<u64>>(
    challenger: &mut Challenger,
    perm: &F,
    num_challenges: usize,
    num_sets: usize,
) -> (r: Vec<Vec<GrandProductChallenge>>)
    requires
        old(challenger).wf(),
        permutation_ok(perm),
        2 * (num_challenges * num_sets) <= usize::MAX,
    ensures
        final(challenger).wf(),
        exists|flat: Seq<u64>|
            #[trigger] old(challenger).draws(*final(challenger), flat, perm) && flat.len() == 2 * (num_challenges * num_sets)
                && r@.len() == num_sets && forall|i: int, j: int|
                0 <= i < num_sets && 0 <= j < num_challenges ==> (#[trigger] r@[i]@[j]) == (GrandProductChallenge {
                    beta: flat[2 * (i * num_challenges + j)],
                    gamma: flat[2 * (i * num_challenges + j) + 1],
                }),
        forall|i: int| 0 <= i < r@.len() ==> (#[trigger] r@[i])@.len() == num_challenges,
        forall|i: int, j: int| 0 <= i < r@.len() && 0 <= j < num_challenges ==> (#[trigger] r@[i]@[j]).wf(),
{
    let pairs = num_challenges * num_sets;
    let total = 2 * pairs;
    let flat = challenger.get_n_challenges(total, perm);
    let mut sets: Vec<Vec<GrandProductChallenge>> = Vec::new();
    let mut i: usize = 0;
    while i < num_sets
        invariant
            i <= num_sets,
            total == 2 * (num_challenges * num_sets),
            flat@.len() == total,
            forall|k: int| 0 <= k < total ==> crate::field::is_elem(#[trigger] flat@[k]),
            sets@.len() == i,
            forall|a: int| 0 <= a < i ==> (#[trigger] sets@[a])@.len() == num_challenges,
            forall|a: int, b: int|
                0 <= a < i && 0 <= b < num_challenges ==> (#[trigger] sets@[a]@[b]) == (GrandProductChallenge {
                    beta: flat@[2 * (a * num_challenges + b)],
                    gamma: flat@[2 * (a * num_challenges + b) + 1],
                }),
        decreases num_sets - i,
    {
        let mut set: Vec<GrandProductChallenge> = Vec::new();
        let mut j: usize = 0;
        while j < num_challenges
            invariant
                i < num_sets,
                j <= num_challenges,
                total == 2 * (num_challenges * num_sets),
                flat@.len() == total,
                set@.len() == j,
                forall|b: int| 0 <= b < j ==> (#[trigger] set@[b]) == (GrandProductChallenge {
                    beta: flat@[2 * (i * num_challenges + b)],
                    gamma: flat@[2 * (i * num_challenges + b) + 1],
                }),
            decreases num_challenges - j,
        {
            assert(2 * (i * num_challenges + j) + 1 < 2 * (num_challenges * num_sets)) by (nonlinear_arith)
                requires
                    i < num_sets,
                    j < num_challenges,
            ;
            let k = 2 * (i * num_challenges + j);
            set.push(GrandProductChallenge { beta: flat[k], gamma: flat[k + 1] });
            j = j + 1;
        }
        sets.push(set);
        i = i + 1;
    }
    proof {
        assert forall|a: int, b: int| 0 <= a < num_sets && 0 <= b < num_challenges implies (#[trigger] sets@[a]@[b]).wf() by {
            assert(2 * (a * num_challenges + b) + 1 < 2 * (num_challenges * num_sets)) by (nonlinear_arith)
                requires
                    0 <= a < num_sets,
                    0 <= b < num_challenges,
            ;
        }
    }
    sets
}

/// Observes a table's `Z` cap, then draws the constraint-combination
/// challenges `alphas`.
pub fn draw_alphas<F: Fn(Vec<u64>) -> Vec<u64>>(
    challenger: &mut Challenger,
    perm: &F,
    zs_cap: &MerkleCap,
    num_challenges: usize,
) -> (r: Vec<u64>)
    requires
        old(challenger).wf(),
        permutation_ok(perm),
    ensures
        final(challenger).wf(),
        r@.len() == num_challenges,
        forall|i: int| 0 <= i < r@.len() ==> crate::field::is_elem(#[trigger] r@[i]),
        exists|mid: Challenger|
            #[trigger] old(challenger).observes(mid, cap_elements(zs_cap@), perm) && mid.draws(*final(challenger), r@, perm),
{
    challenger.observe_cap(zs_cap, perm);
    let ghost mid = *challenger;
    let r = challenger.get_n_challenges(num_challenges, perm);
    assert(old(challenger).observes(mid, cap_elements(zs_cap@), perm));
    r
}

/// Observes a table's quotient cap, then draws the out-of-domain point
/// `zeta`; fails where `zeta` lies in the trace subgroup of order
/// `2^degree_bits`.
pub fn draw_opening_point<F: Fn(Vec<u64>) -> Vec<u64>>(
    challenger: &mut Challenger,
    perm: &F,
    quotient_cap: &MerkleCap,
    degree_bits: usize,
) -> (r: Result<ExtElem, ProofError>)
    requires
        old(challenger).wf(),
        permutation_ok(perm),
    ensures
        final(challenger).wf(),
        exists|mid: Challenger, zeta: ExtElem|
            #![trigger old(challenger).observes(mid, cap_elements(quotient_cap@), perm), zeta.wf()]
            old(challenger).observes(mid, cap_elements(quotient_cap@), perm) && mid.draws(
                *final(challenger),
                seq![zeta.c0, zeta.c1],
                perm,
            ) && zeta.wf() && match r {
                Ok(z) => z == zeta && !in_trace_subgroup(zeta, degree_bits as nat),
                Err(e) => e == ProofError::OpeningPointInSubgroup && in_trace_subgroup(zeta, degree_bits as nat),
            },
{
    challenger.observe_cap(quotient_cap, perm);
    let ghost mid = *challenger;
    let zeta = challenger.get_extension_challenge(perm);
    assert(old(challenger).observes(mid, cap_elements(quotient_cap@), perm));
    let r = match check_opening_point(zeta, degree_bits) {
        Ok(()) => Ok(zeta),
        Err(e) => Err(e),
    };
    assert(zeta.wf());
    r
}

/// Starts the transcript of a proof: a fresh transcript absorbs the trace
/// caps of all tables in table order, then draws the lookup challenges,
/// `num_challenges` pairs of a `beta` then a `gamma`, shared by every lookup.
pub fn start_proof<F: Fn(Vec<u64>) -> Vec<u64>>(perm: &F, trace_caps: &Vec<MerkleCap>, num_challenges: usize) -> (r: (
    Challenger,
    Vec<GrandProductChallenge>,
))
    requires
        permutation_ok(perm),
        trace_caps@.len() == NUM_TABLES,
        2 * num_challenges <= usize::MAX,
    ensures
        r.0.wf(),
        r.1@.len() == num_challenges,
        exists|fresh: Challenger, mid: Challenger, flat: Seq<u64>|
            #![trigger fresh.observes(mid, caps_elements(trace_caps@), perm), mid.draws(r.0, flat, perm)]
            fresh.wf() && fresh.input_buffer@.len() == 0 && fresh.output_buffer@.len() == 0 && fresh.sponge_state@ == Seq::new(
                SPONGE_WIDTH as nat,
                |i: int| 0u64,
            ) && fresh.observes(mid, caps_elements(trace_caps@), perm) && mid.draws(r.0, flat, perm) && flat.len() == 2
                * num_challenges && forall|j: int|
                0 <= j < num_challenges ==> (#[trigger] r.1@[j]) == (GrandProductChallenge {
                    beta: flat[2 * j],
                    gamma: flat[2 * j + 1],
                }),
{
    let mut challenger = Challenger::new();
    let ghost fresh = challenger;
    observe_trace_caps(&mut challenger, perm, trace_caps);
    let ghost mid = challenger;
    let mut sets = get_n_grand_product_challenge_sets(&mut challenger, perm, num_challenges, 1);
    let ghost flat = choose|flat: Seq<u64>|
        #[trigger] mid.draws(challenger, flat, perm) && flat.len() == 2 * (num_challenges * 1) && sets@.len() == 1
            && forall|i: int, j: int|
            0 <= i < 1 && 0 <= j < num_challenges ==> (#[trigger] sets@[i]@[j]) == (GrandProductChallenge {
                beta: flat[2 * (i * num_challenges + j)],
                gamma: flat[2 * (i * num_challenges + j) + 1],
            });
    let lookup_challenges = sets.pop().unwrap();
    assert forall|j: int| 0 <= j < num_challenges implies (#[trigger] lookup_challenges@[j]) == (GrandProductChallenge {
        beta: flat[2 * j],
        gamma: flat[2 * j + 1],
    }) by {
        assert(0 * num_challenges + j == j);
        assert(sets@.len() == 0);
    }
    assert(fresh.observes(mid, caps_elements(trace_caps@), perm));
    assert(num_challenges * 1 == num_challenges);
    assert(mid.draws(challenger, flat, perm));
    assert(flat.len() == 2 * num_challenges);
    assert(fresh.wf());
    assert(fresh.input_buffer@.len() == 0 && fresh.output_buffer@.len() == 0);
    assert(fresh.sponge_state@ == Seq::new(SPONGE_WIDTH as nat, |i: int| 0u64));
    assert(forall|j: int|
        0 <= j < num_challenges ==> (#[trigger] lookup_challenges@[j]) == (GrandProductChallenge {
            beta: flat[2 * j],
            gamma: flat[2 * j + 1],
        }));
    (challenger, lookup_challenges)
}

} // verus!
