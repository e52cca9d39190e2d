use ola_prover::bundle::{assemble_all_proof, merge_z_polys, split_quotients, StarkOpeningSet, StarkProof};
use ola_prover::cfft::{get_inv_twiddles, get_twiddles, permute, permute_index};
use ola_prover::constraint::{Constraint, ConstraintConsumer, ConstraintKind, RowSelectors};
use ola_prover::field::{
    exp_power_of_2, exp_u64, ext_exp_power_of_2, ext_mul, fadd, fmul, fsub, inverse,
    primitive_root_of_unity, ExtElem, MULTIPLICATIVE_GROUP_GENERATOR, ORDER,
};
use ola_prover::grand_product::{
    check_lookup_final_values, lookup_z_poly, permutation_z_poly, GrandProductChallenge,
};
use ola_prover::quotient::{check_quotient_identity, quotient_values, z_h_inverses_on_coset};
use ola_prover::stark::{check_opening_point, quotient_degree_bits, ProofError};
use ola_prover::table::{check_constraints, EqualColumnsStark};
use ola_prover::transcript::{transcript_schedule, Table, TranscriptStep, NUM_TABLES};

fn ext(c0: u64, c1: u64) -> ExtElem {
    ExtElem { c0, c1 }
}

#[test]
fn field_arithmetic_wraps_at_the_prime() {
    assert_eq!(fadd(ORDER - 1, 2), 1);
    assert_eq!(fsub(1, 2), ORDER - 1);
    assert_eq!(fmul(ORDER - 1, ORDER - 1), 1);
    assert_eq!(fmul(1 << 32, 1 << 32), (1u64 << 32) - 1);
    assert_eq!(exp_u64(3, 5), 243);
    assert_eq!(exp_power_of_2(3, 2), 81);
    assert_eq!(fmul(7, inverse(7)), 1);
}

#[test]
fn extension_multiplication_reduces_by_seven() {
    // X * X = 7 in F[X] / (X^2 - 7).
    assert_eq!(ext_mul(ext(0, 1), ext(0, 1)), ext(7, 0));
    assert_eq!(ext_mul(ext(1, 2), ext(3, 4)), ext(3 + 7 * 8, 10));
    assert_eq!(ext_exp_power_of_2(ext(0, 1), 2), ext(49, 0));
}

#[test]
fn roots_of_unity_have_their_order() {
    for bits in 0..6usize {
        let g = primitive_root_of_unity(bits);
        assert_eq!(exp_power_of_2(g, bits), 1);
        if bits > 0 {
            assert_ne!(exp_power_of_2(g, bits - 1), 1);
        }
    }
}

#[test]
fn degree_within_rate_is_accepted() {
    assert_eq!(quotient_degree_bits(4, 2), Ok(2));
    assert_eq!(quotient_degree_bits(5, 3), Ok(3));
    assert_eq!(quotient_degree_bits(1, 0), Ok(0));
    assert_eq!(quotient_degree_bits(3, 2), Ok(2));
}

#[test]
fn degree_above_rate_is_refused() {
    assert_eq!(quotient_degree_bits(5, 2), Err(ProofError::DegreeTooHigh));
    assert_eq!(quotient_degree_bits(2, 0), Err(ProofError::DegreeTooHigh));
    assert_eq!(quotient_degree_bits(9, 3), Err(ProofError::DegreeTooHigh));
}

#[test]
fn opening_point_in_trace_subgroup_is_refused() {
    assert_eq!(check_opening_point(ext(1, 0), 4), Err(ProofError::OpeningPointInSubgroup));
    let g = primitive_root_of_unity(3);
    assert_eq!(check_opening_point(ext(g, 0), 3), Err(ProofError::OpeningPointInSubgroup));
    let g5 = fmul(fmul(g, g), fmul(fmul(g, g), g));
    assert_eq!(check_opening_point(ext(g5, 0), 3), Err(ProofError::OpeningPointInSubgroup));
}

#[test]
fn opening_point_outside_subgroup_is_accepted() {
    assert_eq!(check_opening_point(ext(0, 1), 2), Ok(()));
    assert_eq!(check_opening_point(ext(2, 5), 3), Ok(()));
}

#[test]
fn consumer_combines_by_horner() {
    let sel = RowSelectors { z_last: 4, lagrange_first: 1, lagrange_last: 0 };
    let mut c = ConstraintConsumer::new(vec![2, 10], sel);
    c.constraint(Constraint { kind: ConstraintKind::EveryRow, value: 3 });
    c.constraint(Constraint { kind: ConstraintKind::Transition, value: 5 });
    c.constraint(Constraint { kind: ConstraintKind::LastRow, value: 9 });
    // ((3 * a) + 5 * 4) * a + 9 * 0
    assert_eq!(c.accumulators(), vec![(3 * 2 + 20) * 2, (3 * 10 + 20) * 10]);
}

#[test]
fn single_row_equal_columns_pass_local_check() {
    let trace = vec![vec![5u64], vec![5u64]];
    assert_eq!(check_constraints(&EqualColumnsStark {}, &trace, &vec![3, 7], &vec![], &vec![]), Ok(()));
}

#[test]
fn corrupted_column_fails_local_check() {
    let trace = vec![vec![5u64], vec![6u64]];
    assert_eq!(check_constraints(&EqualColumnsStark {}, &trace, &vec![3, 7], &vec![], &vec![]), Err(0));
}

#[test]
fn first_failing_row_is_reported() {
    let trace = vec![vec![1u64, 2, 3, 4], vec![1u64, 2, 9, 9]];
    assert_eq!(check_constraints(&EqualColumnsStark {}, &trace, &vec![11], &vec![], &vec![]), Err(2));
    let good = vec![vec![1u64, 2, 3, 4], vec![1u64, 2, 3, 4]];
    assert_eq!(check_constraints(&EqualColumnsStark {}, &good, &vec![11], &vec![], &vec![]), Ok(()));
}

#[test]
fn combine_is_powers_of_beta_plus_gamma() {
    let ch = GrandProductChallenge { beta: 10, gamma: 7 };
    assert_eq!(ch.combine(&vec![1, 2, 3]), 1 + 20 + 300 + 7);
    assert_eq!(ch.combine(&vec![]), 7);
}

#[test]
fn lookup_running_product_skips_filtered_rows() {
    // Columns: value, filter.
    let trace = vec![vec![2u64, 3, 4, 5], vec![1u64, 0, 1, 1]];
    let ch = GrandProductChallenge { beta: 1, gamma: 1 };
    let z = lookup_z_poly(&trace, &vec![0], Some(1), ch);
    assert_eq!(z, vec![3, 3, 15, 90]);
    let unfiltered = lookup_z_poly(&trace, &vec![0], None, ch);
    assert_eq!(unfiltered, vec![3, 12, 60, 360]);
}

#[test]
fn lookup_sides_with_equal_multisets_agree() {
    let looking = vec![vec![4u64, 2, 9, 1]];
    let looked = vec![vec![9u64, 1, 4, 2]];
    let ch = GrandProductChallenge { beta: 3, gamma: 17 };
    let a = lookup_z_poly(&looking, &vec![0], None, ch);
    let b = lookup_z_poly(&looked, &vec![0], None, ch);
    assert_eq!(check_lookup_final_values(&vec![a[3]], b[3]), Ok(()));
}

#[test]
fn lookup_with_unmatched_value_is_rejected() {
    let looking = vec![vec![4u64, 2, 9, 8]];
    let looked = vec![vec![9u64, 1, 4, 2]];
    let ch = GrandProductChallenge { beta: 3, gamma: 17 };
    let a = lookup_z_poly(&looking, &vec![0], None, ch);
    let b = lookup_z_poly(&looked, &vec![0], None, ch);
    assert_eq!(check_lookup_final_values(&vec![a[3]], b[3]), Err(ProofError::LookupMismatch));
}

#[test]
fn permutation_running_product() {
    let z = permutation_z_poly(&vec![2, 3, 5], &vec![3, 5, 2]).unwrap();
    assert_eq!(z[0], 1);
    assert_eq!(fmul(z[1], 3), 2);
    assert_eq!(fmul(z[2], 15), 6);
    // The numerators are a permutation of the denominators: the product
    // over all rows is one.
    let last = fmul(z[2], fmul(5, inverse(2)));
    assert_eq!(last, 1);
    let malicious = permutation_z_poly(&vec![2, 3, 6], &vec![3, 5, 2]).unwrap();
    assert_ne!(fmul(malicious[2], fmul(6, inverse(2))), 1);
}

#[test]
fn quotient_values_do_not_depend_on_batch_width() {
    let evals: Vec<Vec<u64>> = (0..10u64).map(|i| vec![i + 1, 2 * i + 3]).collect();
    let inv = vec![5u64, 7];
    let one = quotient_values(&evals, &inv, 2, 1);
    for width in [2usize, 3, 4, 16] {
        assert_eq!(quotient_values(&evals, &inv, 2, width), one);
    }
    assert_eq!(one[0][3], 4 * 7);
    assert_eq!(one[1][2], 7 * 5);
}

#[test]
fn vanishing_inverses_on_coset() {
    let degree_bits = 3;
    let rate_bits = 2;
    let inv = z_h_inverses_on_coset(degree_bits, rate_bits).unwrap();
    assert_eq!(inv.len(), 4);
    let shift_n = exp_power_of_2(MULTIPLICATIVE_GROUP_GENERATOR, degree_bits);
    let w = primitive_root_of_unity(rate_bits);
    let mut x = 1u64;
    for v in inv {
        let z_h = fsub(fmul(shift_n, x), 1);
        assert_eq!(fmul(z_h, v), 1);
        x = fmul(x, w);
    }
}

#[test]
fn quotient_identity_accepts_consistent_openings() {
    // zeta = X, degree_bits = 1: zeta^2 = 7, Z_H(zeta) = 6.
    let zeta = ext(0, 1);
    let q = vec![ext(2, 0), ext(1, 0)];
    // q0 + q1 * zeta^2 = 2 + 7 = 9, times 6.
    assert_eq!(check_quotient_identity(&vec![ext(54, 0)], &q, 2, zeta, 1), Ok(()));
}

#[test]
fn quotient_identity_rejects_a_tampered_opening() {
    let zeta = ext(0, 1);
    let q = vec![ext(2, 0), ext(1, 0)];
    assert_eq!(
        check_quotient_identity(&vec![ext(55, 0)], &q, 2, zeta, 1),
        Err(ProofError::QuotientIdentityMismatch)
    );
    let tampered = vec![ext(2, 1), ext(1, 0)];
    assert_eq!(
        check_quotient_identity(&vec![ext(54, 0)], &tampered, 2, zeta, 1),
        Err(ProofError::QuotientIdentityMismatch)
    );
}

#[test]
fn transcript_follows_the_table_order() {
    let sets = vec![0usize; NUM_TABLES];
    let steps = transcript_schedule(&sets);
    assert_eq!(steps.len(), 12 + 1 + 12 * 8);
    assert_eq!(steps[0], TranscriptStep::ObserveTraceCap { table: 0 });
    assert_eq!(steps[11], TranscriptStep::ObserveTraceCap { table: 11 });
    assert_eq!(steps[12], TranscriptStep::DrawLookupChallenges);
    assert_eq!(steps[13], TranscriptStep::Compact { table: 0 });
    assert_eq!(steps[15], TranscriptStep::ObserveZsCap { table: 0 });
    assert_eq!(steps[16], TranscriptStep::DrawAlphas { table: 0 });
    assert_eq!(steps[18], TranscriptStep::DrawZeta { table: 0 });
    assert_eq!(steps[21], TranscriptStep::Compact { table: 1 });
    assert_eq!(steps[108], TranscriptStep::ProveOpenings { table: 11 });
}

#[test]
fn permutation_sets_are_recorded_per_table() {
    let mut sets = vec![0usize; NUM_TABLES];
    sets[Table::Memory.index()] = 2;
    let steps = transcript_schedule(&sets);
    assert_eq!(steps[14], TranscriptStep::DrawPermutationChallenges { table: 0, sets: 0 });
    assert_eq!(steps[22], TranscriptStep::DrawPermutationChallenges { table: 1, sets: 2 });
}

#[test]
fn tables_round_trip_through_index() {
    for i in 0..NUM_TABLES {
        assert_eq!(Table::from_index(i).unwrap().index(), i);
    }
    assert_eq!(Table::from_index(NUM_TABLES), None);
    assert_eq!(Table::Program.index(), 10);
}

fn empty_proof(tag: u64) -> StarkProof {
    StarkProof {
        trace_cap: vec![[tag, 0, 0, 0]],
        permutation_ctl_zs_cap: vec![],
        quotient_polys_cap: vec![],
        openings: StarkOpeningSet {
            local_values: vec![],
            next_values: vec![],
            permutation_ctl_zs: vec![],
            permutation_ctl_zs_next: vec![],
            ctl_zs_last: vec![],
            quotient_polys: vec![],
        },
        opening_proof: vec![],
    }
}

#[test]
fn all_proof_aligns_compress_challenges() {
    let proofs: Vec<StarkProof> = (0..12u64).map(empty_proof).collect();
    let mut compress = vec![None; NUM_TABLES];
    compress[Table::Bitwise.index()] = Some(11);
    compress[Table::Program.index()] = Some(13);
    let all = assemble_all_proof(proofs, &compress, vec![1, 2]).unwrap();
    assert_eq!(all.compress_challenges, vec![0, 0, 11, 0, 0, 0, 0, 0, 0, 0, 13, 0]);
    assert_eq!(all.stark_proofs[5].trace_cap, vec![[5, 0, 0, 0]]);
    assert_eq!(all.public_values, vec![1, 2]);
}

#[test]
fn all_proof_needs_every_table() {
    let proofs: Vec<StarkProof> = (0..11u64).map(empty_proof).collect();
    let compress = vec![None; NUM_TABLES];
    assert!(matches!(
        assemble_all_proof(proofs, &compress, vec![]),
        Err(ProofError::ShapeMismatch)
    ));
}

#[test]
fn permutation_zs_come_before_lookup_zs() {
    let merged = merge_z_polys(Some(vec![vec![1], vec![2]]), vec![vec![3]], true).unwrap();
    assert_eq!(merged, vec![vec![1], vec![2], vec![3]]);
    assert_eq!(merge_z_polys(None, vec![vec![3]], true).unwrap(), vec![vec![3]]);
}

#[test]
fn no_z_polynomials_is_an_error() {
    assert_eq!(merge_z_polys(None, vec![], true), Err(ProofError::NoCtlData));
    assert_eq!(merge_z_polys(Some(vec![]), vec![], false), Err(ProofError::NoCtlData));
}

#[test]
fn table_without_lookups_or_permutations_gets_an_empty_batch() {
    assert_eq!(merge_z_polys(None, vec![], false), Ok(vec![]));
    let mut s = shape(1, 1, 0);
    s.declares_lookups = false;
    let p = plan_table(s, &config(1)).unwrap();
    assert_eq!(p.num_zs, 0);
    assert_eq!(p.degree_bits, 0);
}

#[test]
fn quotient_is_split_into_degree_chunks() {
    let polys = vec![vec![1u64, 2, 3, 4, 0, 0], vec![5u64, 6, 7, 8, 0, 0]];
    let chunks = split_quotients(&polys, 2, 2).unwrap();
    assert_eq!(chunks, vec![vec![1, 2], vec![3, 4], vec![5, 6], vec![7, 8]]);
}

#[test]
fn inexact_quotient_is_an_error() {
    let polys = vec![vec![1u64, 2, 3, 4, 0, 9]];
    assert_eq!(split_quotients(&polys, 2, 2), Err(ProofError::QuotientNotDivisible));
}

#[test]
fn bit_reversal_indices() {
    assert_eq!(permute_index(8, 1), 4);
    assert_eq!(permute_index(8, 3), 6);
    assert_eq!(permute_index(8, 6), 3);
    assert_eq!(permute_index(1, 0), 0);
    assert_eq!(permute_index(2, 1), 1);
    let mut v = vec![10, 11, 12, 13, 14, 15, 16, 17];
    permute(&mut v);
    assert_eq!(v, vec![10, 14, 12, 16, 11, 15, 13, 17]);
}

#[test]
fn twiddles_are_bit_reversed_powers() {
    let w = primitive_root_of_unity(3);
    let t = get_twiddles(8);
    let w2 = fmul(w, w);
    assert_eq!(t, vec![1, w2, w, fmul(w2, w)]);
    let inv = get_inv_twiddles(8);
    let iw = exp_u64(w, 7);
    assert_eq!(fmul(iw, w), 1);
    assert_eq!(inv, vec![1, fmul(iw, iw), iw, fmul(fmul(iw, iw), iw)]);
    assert_eq!(get_twiddles(1), Vec::<u64>::new());
}

use ola_prover::prover::{plan_all_tables, plan_table, TableShape};
use ola_prover::stark::{FriConfig, StarkConfig};

fn config(rate_bits: usize) -> StarkConfig {
    StarkConfig {
        num_challenges: 2,
        fri_config: FriConfig { rate_bits, cap_height: 4, proof_of_work_bits: 16, num_query_rounds: 84 },
    }
}

fn shape(degree: usize, factor: usize, zs: usize) -> TableShape {
    TableShape {
        degree,
        quotient_degree_factor: factor,
        uses_permutation_args: false,
        declares_lookups: true,
        permutation_batch_size: 0,
        num_permutation_zs: 0,
        num_ctl_zs: zs,
    }
}

#[test]
fn table_plan_layout() {
    let mut s = shape(8, 3, 1);
    s.uses_permutation_args = true;
    s.permutation_batch_size = 5;
    s.num_permutation_zs = 2;
    let p = plan_table(s, &config(3)).unwrap();
    assert_eq!(p.degree_bits, 3);
    assert_eq!(p.quotient_degree_bits, 2);
    assert_eq!(p.step, 2);
    assert_eq!(p.next_step, 4);
    assert_eq!(p.coset_size, 32);
    assert_eq!(p.permutation_challenge_sets, 5);
    assert_eq!(p.num_zs, 3);
    assert_eq!(p.num_quotient_chunks, 6);
}

#[test]
fn table_plan_failures() {
    assert_eq!(plan_table(shape(8, 3, 0), &config(3)), Err(ProofError::NoCtlData));
    assert_eq!(plan_table(shape(8, 5, 1), &config(2)), Err(ProofError::DegreeTooHigh));
    // The missing lookup data is reported before the degree.
    assert_eq!(plan_table(shape(8, 5, 0), &config(2)), Err(ProofError::NoCtlData));
}

#[test]
fn all_tables_fail_at_the_first_bad_table() {
    let mut shapes = vec![shape(4, 2, 1); NUM_TABLES];
    shapes[3] = shape(4, 9, 1);
    shapes[7] = shape(4, 2, 0);
    assert_eq!(plan_all_tables(&shapes, &config(2)).err(), Some(ProofError::DegreeTooHigh));
    shapes[3] = shape(4, 2, 1);
    assert_eq!(plan_all_tables(&shapes, &config(2)).err(), Some(ProofError::NoCtlData));
}

#[test]
fn all_tables_plan_and_schedule() {
    let mut shapes = vec![shape(4, 2, 1); NUM_TABLES];
    shapes[1].uses_permutation_args = true;
    shapes[1].permutation_batch_size = 3;
    shapes[2].permutation_batch_size = 4;
    let (plans, steps) = plan_all_tables(&shapes, &config(1)).unwrap();
    assert_eq!(plans.len(), NUM_TABLES);
    assert_eq!(plans[1].permutation_challenge_sets, 3);
    assert_eq!(plans[2].permutation_challenge_sets, 0);
    assert_eq!(steps[22], TranscriptStep::DrawPermutationChallenges { table: 1, sets: 3 });
    assert_eq!(steps[14], TranscriptStep::DrawPermutationChallenges { table: 0, sets: 0 });
}

#[test]
fn single_row_table_quotient_identity() {
    // One row, so the trace domain is {1} and Z_H(x) = x - 1. For equal
    // columns the constraint polynomial is zero and so is the quotient.
    let zeta = ext(3, 2);
    assert_eq!(check_opening_point(zeta, 0), Ok(()));
    let honest_quotient = vec![ext(0, 0)];
    assert_eq!(check_quotient_identity(&vec![ext(0, 0)], &honest_quotient, 1, zeta, 0), Ok(()));
    // Openings of a trace whose second column was changed from 5 to 6: the
    // constraint evaluates to 5 - 6, which the honest quotient does not explain.
    let corrupted = ext(fsub(5, 6), 0);
    assert_eq!(
        check_quotient_identity(&vec![corrupted], &honest_quotient, 1, zeta, 0),
        Err(ProofError::QuotientIdentityMismatch)
    );
}

use ola_prover::challenger::Challenger;
use ola_prover::prover::{draw_alphas, draw_opening_point, get_n_grand_product_challenge_sets};

fn toy_perm(s: Vec<u64>) -> Vec<u64> {
    (0..12)
        .map(|i| ((s[(i + 1) % 12] as u128 * 3 + i as u128 + 1) % ORDER as u128) as u64)
        .collect()
}

fn overwritten(state: &[u64], inputs: &[u64]) -> Vec<u64> {
    let mut s = state.to_vec();
    s[..inputs.len()].copy_from_slice(inputs);
    s
}

#[test]
fn challenger_squeezes_after_absorbing() {
    let mut c = Challenger::new();
    for e in [1u64, 2, 3] {
        c.observe_element(e, &toy_perm);
    }
    let p = toy_perm(overwritten(&[0; 12], &[1, 2, 3]));
    assert_eq!(c.get_challenge(&toy_perm), p[7]);
    assert_eq!(c.get_challenge(&toy_perm), p[6]);
    // A new observation discards the outputs not yet used.
    c.observe_element(9, &toy_perm);
    assert!(c.output_buffer.is_empty());
    let p2 = toy_perm(overwritten(&p, &[9]));
    assert_eq!(c.get_challenge(&toy_perm), p2[7]);
}

#[test]
fn challenger_absorbs_a_full_rate_at_once() {
    let mut c = Challenger::new();
    for e in 1u64..=8 {
        c.observe_element(e, &toy_perm);
    }
    assert!(c.input_buffer.is_empty());
    let p = toy_perm(overwritten(&[0; 12], &[1, 2, 3, 4, 5, 6, 7, 8]));
    assert_eq!(c.sponge_state, p);
    assert_eq!(c.get_challenge(&toy_perm), p[7]);
}

#[test]
fn challenger_refills_when_outputs_run_out() {
    let mut c = Challenger::new();
    let first = c.get_n_challenges(9, &toy_perm);
    let p = toy_perm(vec![0; 12]);
    let q = toy_perm(p.clone());
    assert_eq!(first, vec![p[7], p[6], p[5], p[4], p[3], p[2], p[1], p[0], q[7]]);
}

#[test]
fn compact_absorbs_pending_inputs() {
    let mut c = Challenger::new();
    c.observe_element(5, &toy_perm);
    c.observe_element(6, &toy_perm);
    c.compact(&toy_perm);
    let p = toy_perm(overwritten(&[0; 12], &[5, 6]));
    assert_eq!(c.sponge_state, p);
    assert!(c.input_buffer.is_empty() && c.output_buffer.is_empty());
    // With nothing pending, compacting again changes nothing.
    c.compact(&toy_perm);
    assert_eq!(c.sponge_state, p);
}

#[test]
fn table_challenges_follow_their_caps() {
    let mut c = Challenger::new();
    let zs_cap = vec![[11u64, 12, 13, 14]];
    let alphas = draw_alphas(&mut c, &toy_perm, &zs_cap, 2);
    let p = toy_perm(overwritten(&[0; 12], &[11, 12, 13, 14]));
    assert_eq!(alphas, vec![p[7], p[6]]);
    let sets = get_n_grand_product_challenge_sets(&mut c, &toy_perm, 2, 1);
    assert_eq!(sets.len(), 1);
    assert_eq!(sets[0][0], GrandProductChallenge { beta: p[5], gamma: p[4] });
    assert_eq!(sets[0][1], GrandProductChallenge { beta: p[3], gamma: p[2] });
    let quotient_cap = vec![[1u64, 2, 3, 4]];
    let zeta = draw_opening_point(&mut c, &toy_perm, &quotient_cap, 3).unwrap();
    let q = toy_perm(overwritten(&p, &[1, 2, 3, 4]));
    assert_eq!(zeta, ext(q[7], q[6]));
}

#[test]
fn opening_point_in_subgroup_aborts_the_table() {
    // A permutation that puts one and zero where zeta is read gives zeta = 1,
    // which lies in every trace subgroup.
    fn one_then_zero(_: Vec<u64>) -> Vec<u64> {
        let mut v = vec![0u64; 12];
        v[7] = 1;
        v
    }
    let mut c = Challenger::new();
    let r = draw_opening_point(&mut c, &one_then_zero, &vec![[1u64, 2, 3, 4]], 5);
    assert_eq!(r, Err(ProofError::OpeningPointInSubgroup));
}

use ola_prover::grand_product::{eval_lookup_check, permutation_factors, LookupZ, PermutationZ};

#[test]
fn lookup_check_constraints_hold_for_the_running_product() {
    // Columns: value, filter.
    let trace = vec![vec![2u64, 3, 4, 5], vec![1u64, 0, 1, 1]];
    let ch = GrandProductChallenge { beta: 1, gamma: 1 };
    let z = lookup_z_poly(&trace, &vec![0], Some(1), ch);
    let rows: Vec<Vec<u64>> = (0..4).map(|i| vec![trace[0][i], trace[1][i]]).collect();
    let first = eval_lookup_check(&rows[0], &rows[1], z[0], z[1], ch, &vec![0], Some(1));
    assert_eq!(first[0], Constraint { kind: ConstraintKind::FirstRow, value: 0 });
    for i in 0..3 {
        let cs = eval_lookup_check(&rows[i], &rows[i + 1], z[i], z[i + 1], ch, &vec![0], Some(1));
        assert_eq!(cs[1], Constraint { kind: ConstraintKind::Transition, value: 0 });
    }
    // A wrong running product breaks the transition.
    let cs = eval_lookup_check(&rows[1], &rows[2], z[1], z[2] + 1, ch, &vec![0], Some(1));
    assert_eq!(cs[1].value, 1);
}

use ola_prover::session::{TablePhase, TableSession};

#[test]
fn table_session_runs_in_order() {
    let mut s = TableSession::start(Challenger::new(), &toy_perm, 3, 2, 1);
    assert_eq!(s.phase, TablePhase::TraceCommitted);
    assert_eq!(s.permutation_challenges.len(), 1);
    assert_eq!(s.permutation_challenges[0].len(), 2);
    let p = toy_perm(vec![0; 12]);
    assert_eq!(s.permutation_challenges[0][0], GrandProductChallenge { beta: p[7], gamma: p[6] });
    assert_eq!(s.commit_zs(&toy_perm, &vec![[1u64, 2, 3, 4]], 2), Ok(()));
    assert_eq!(s.phase, TablePhase::ChallengesDrawn);
    assert_eq!(s.alphas.len(), 2);
    let zeta = s.commit_quotient(&toy_perm, &vec![[5u64, 6, 7, 8]]).unwrap();
    assert_eq!(s.zeta, zeta);
    assert_eq!(s.phase, TablePhase::PointChosen);
    assert_eq!(s.observe_openings(&toy_perm, &vec![ext(1, 2), ext(3, 4)]), Ok(()));
    assert_eq!(s.phase, TablePhase::OpeningsComputed);
}

#[test]
fn table_session_refuses_steps_out_of_order() {
    let mut s = TableSession::start(Challenger::new(), &toy_perm, 3, 2, 0);
    assert_eq!(s.commit_quotient(&toy_perm, &vec![[5u64, 6, 7, 8]]), Err(ProofError::OutOfOrder));
    assert_eq!(s.observe_openings(&toy_perm, &vec![]), Err(ProofError::OutOfOrder));
    assert_eq!(s.commit_zs(&toy_perm, &vec![], 1), Ok(()));
    assert_eq!(s.commit_zs(&toy_perm, &vec![], 1), Err(ProofError::OutOfOrder));
    assert_eq!(s.phase, TablePhase::ChallengesDrawn);
}

#[test]
fn table_session_ends_on_an_opening_point_in_the_subgroup() {
    fn one_then_zero(_: Vec<u64>) -> Vec<u64> {
        let mut v = vec![0u64; 12];
        v[7] = 1;
        v
    }
    let mut s = TableSession::start(Challenger::new(), &one_then_zero, 3, 1, 0);
    assert_eq!(s.commit_zs(&one_then_zero, &vec![], 1), Ok(()));
    assert_eq!(s.commit_quotient(&one_then_zero, &vec![[1u64, 2, 3, 4]]), Err(ProofError::OpeningPointInSubgroup));
    assert_eq!(s.phase, TablePhase::Failed);
    // No second point is drawn.
    assert_eq!(s.commit_quotient(&one_then_zero, &vec![[1u64, 2, 3, 4]]), Err(ProofError::OutOfOrder));
    assert_eq!(s.observe_openings(&one_then_zero, &vec![]), Err(ProofError::OutOfOrder));
}

#[test]
fn local_check_covers_lookup_and_permutation_zs() {
    // Two equal columns, so the table's own constraint holds, and each is
    // trivially a permutation of the other.
    let trace = vec![vec![4u64, 7, 7, 9], vec![4u64, 7, 7, 9]];
    let ch = GrandProductChallenge { beta: 2, gamma: 5 };
    let lookup = lookup_z_poly(&trace, &vec![0], None, ch);
    let (num, den) = permutation_factors(&trace, &vec![0], &vec![1], ch);
    assert_eq!(num, vec![9, 12, 12, 14]);
    let perm = permutation_z_poly(&num, &den).unwrap();
    let lookups = vec![LookupZ { z: lookup.clone(), challenge: ch, columns: vec![0], filter: None }];
    let perms = vec![PermutationZ { z: perm.clone(), challenge: ch, lhs: vec![0], rhs: vec![1] }];
    assert_eq!(check_constraints(&EqualColumnsStark {}, &trace, &vec![3], &perms, &lookups), Ok(()));
    // A running product that skips a factor breaks the check.
    let mut bad = lookup.clone();
    bad[2] = bad[1];
    let bad_lookups = vec![LookupZ { z: bad, challenge: ch, columns: vec![0], filter: None }];
    assert_eq!(check_constraints(&EqualColumnsStark {}, &trace, &vec![3], &perms, &bad_lookups), Err(1));
    // A permutation Z that does not start at one breaks the first row.
    let mut bad_perm = perm;
    bad_perm[0] = 2;
    let bad_perms = vec![PermutationZ { z: bad_perm, challenge: ch, lhs: vec![0], rhs: vec![1] }];
    assert_eq!(check_constraints(&EqualColumnsStark {}, &trace, &vec![3], &bad_perms, &lookups), Err(0));
}

#[test]
fn permutation_check_closes_only_for_a_permutation() {
    // Column 1 is column 0 reordered: the wrap-around constraint holds.
    let trace = vec![vec![1u64, 2, 3, 4], vec![1u64, 2, 3, 4], vec![3u64, 1, 4, 2]];
    let ch = GrandProductChallenge { beta: 1, gamma: 10 };
    let (num, den) = permutation_factors(&trace, &vec![0], &vec![2], ch);
    let z = permutation_z_poly(&num, &den).unwrap();
    let last = ola_prover::grand_product::eval_permutation_check(&vec![4, 4, 2], z[3], z[0], ch, &vec![0], &vec![2]);
    assert_eq!(last[1].value, 0);
    // Not a permutation: the product does not close.
    let trace2 = vec![vec![1u64, 2, 3, 4], vec![1u64, 2, 3, 4], vec![3u64, 1, 4, 4]];
    let (num2, den2) = permutation_factors(&trace2, &vec![0], &vec![2], ch);
    let z2 = permutation_z_poly(&num2, &den2).unwrap();
    let last2 = ola_prover::grand_product::eval_permutation_check(&vec![4, 4, 4], z2[3], z2[0], ch, &vec![0], &vec![2]);
    assert_ne!(last2[1].value, 0);
}

#[test]
fn permutation_with_zero_denominator_is_refused() {
    assert_eq!(permutation_z_poly(&vec![1, 2], &vec![3, 0]), Err(ProofError::NotInvertible));
}

use ola_prover::challenger::observe_trace_caps;
use ola_prover::prover::start_proof;
use ola_prover::table::eval_on_coset;

#[test]
fn coset_evaluation_pairs_each_point_with_its_next_row() {
    let lde = vec![vec![1u64, 2, 7, 4], vec![1u64, 5, 7, 4]];
    let coset = vec![7u64, 8, 9, 10];
    let first = vec![1u64, 0, 0, 0];
    let last_row = vec![0u64, 0, 0, 1];
    let evals = eval_on_coset(&EqualColumnsStark {}, &lde, &vec![], &vec![], &coset, &first, &last_row, 3, 2, &vec![3, 5]);
    assert_eq!(evals.len(), 4);
    assert_eq!(evals[0], vec![0, 0]);
    assert_eq!(evals[1], vec![fsub(2, 5), fsub(2, 5)]);
    assert_eq!(evals[2], vec![0, 0]);
}

#[test]
fn coset_evaluation_includes_lookup_checks() {
    // One column, a lookup over it with no filter; the running product is
    // honest, so every combination vanishes wherever the selectors apply.
    let lde = vec![vec![2u64, 3], vec![2u64, 3]];
    let ch = GrandProductChallenge { beta: 1, gamma: 1 };
    let z = lookup_z_poly(&lde, &vec![0], None, ch);
    let lookups = vec![LookupZ { z, challenge: ch, columns: vec![0], filter: None }];
    let g = primitive_root_of_unity(1);
    let last = g;
    let coset = vec![1u64, g];
    let evals = eval_on_coset(&EqualColumnsStark {}, &lde, &vec![], &lookups, &coset, &vec![1, 0], &vec![0, 1], last, 1, &vec![7]);
    assert_eq!(evals, vec![vec![0], vec![0]]);
}

#[test]
fn proof_transcript_starts_with_every_trace_cap() {
    let caps: Vec<Vec<[u64; 4]>> = (0..12u64).map(|t| vec![[t, t + 1, t + 2, t + 3]]).collect();
    let (c, lookup_challenges) = start_proof(&toy_perm, &caps, 2);
    let mut replay = Challenger::new();
    observe_trace_caps(&mut replay, &toy_perm, &caps);
    let draws = replay.get_n_challenges(4, &toy_perm);
    assert_eq!(
        lookup_challenges,
        vec![
            GrandProductChallenge { beta: draws[0], gamma: draws[1] },
            GrandProductChallenge { beta: draws[2], gamma: draws[3] },
        ]
    );
    assert_eq!(c.sponge_state, replay.sponge_state);
    let mut by_hand = Challenger::new();
    for cap in &caps {
        by_hand.observe_cap(cap, &toy_perm);
    }
    assert_eq!(by_hand.get_challenge(&toy_perm), draws[0]);
}
