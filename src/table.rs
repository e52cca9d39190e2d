//! What the prover needs of each table, and the exhaustive check that a
//! trace satisfies a table's constraints on every row.
use crate::constraint::{combine_all, selected_all, Constraint, ConstraintConsumer, ConstraintKind, RowSelectors};
use crate::field::{
    fmul, fsub, is_elem, power_spec, primitive_root_of_unity, primitive_root_spec, sub_spec,
    TWO_ADICITY,
};
use crate::grand_product::{
    eval_lookup_check, eval_permutation_check, lookup_check_spec, permutation_check_spec, LookupZ, PermutationZ,
};
use crate::util::{is_power_of_two, log2_strict};
use vstd::arithmetic::power2::{lemma_pow2_strictly_increases, pow2};
use vstd::prelude::*;

verus! {

/// The capability interface of one table: its shape, the degree of its
/// constraints, and their evaluation on a pair of consecutive rows.
pub trait Stark {
    spec fn columns_spec(&self) -> nat;

    spec fn quotient_degree_factor_spec(&self) -> nat;

    /// The constraints on the row `local` followed by the row `next`.
    spec fn eval_spec(&self, local: Seq<u64>, next: Seq<u64>) -> Seq<Constraint>;

    /// Number of trace columns.
    fn columns(&self) -> (r: usize)
        ensures
            r == self.columns_spec(),
    ;

    /// The maximum constraint degree, which bounds the blowup of the quotient.
    fn quotient_degree_factor(&self) -> (r: usize)
        ensures
            r == self.quotient_degree_factor_spec(),
    ;

    /// Whether the table checks permutations between its own columns.
    fn uses_permutation_args(&self) -> bool;

    /// How many permutation checks share one batch of challenges.
    fn permutation_batch_size(&self) -> usize;

    /// The extra challenge of a lookup filter of variable arity, if any.
    fn compress_challenge(&self) -> Option<u64>;

    /// Evaluates the constraints on two consecutive rows.
    fn eval(&self, local: &Vec<u64>, next: &Vec<u64>) -> (r: Vec<Constraint>)
        requires
            local@.len() == self.columns_spec(),
            next@.len() == self.columns_spec(),
            forall|c: int| 0 <= c < local@.len() ==> is_elem(#[trigger] local@[c]),
            forall|c: int| 0 <= c < next@.len() ==> is_elem(#[trigger] next@[c]),
        ensures
            r@ == self.eval_spec(local@, next@),
            forall|i: int| 0 <= i < r@.len() ==> is_elem(#[trigger] r@[i].value),
    ;
}

/// A table of two columns that must be equal on every row.
#[derive(Clone, Copy, Debug, PartialEq, Eq, Structural)]
pub struct EqualColumnsStark {}

impl Stark for EqualColumnsStark {
    open spec fn columns_spec(&self) -> nat {
        2
    }

    open spec fn quotient_degree_factor_spec(&self) -> nat {
        1
    }

    open spec fn eval_spec(&self, local: Seq<u64>, next: Seq<u64>) -> Seq<Constraint> {
        seq![
            Constraint {
                kind: ConstraintKind::EveryRow,
                value: sub_spec(local[0] as int, local[1] as int) as u64,
            },
        ]
    }

    fn columns(&self) -> (r: usize) {
        2
    }

    fn quotient_degree_factor(&self) -> (r: usize) {
        1
    }

    fn uses_permutation_args(&self) -> bool {
        false
    }

    fn permutation_batch_size(&self) -> usize {
        1
    }

    fn compress_challenge(&self) -> Option<u64> {
        None
    }

    fn eval(&self, local: &Vec<u64>, next: &Vec<u64>) -> (r: Vec<Constraint>) {
        let value = fsub(local[0], local[1]);
        let r = vec![Constraint { kind: ConstraintKind::EveryRow, value }];
        assert(r@ =~= self.eval_spec(local@, next@));
        r
    }
}

/// A trace of `width` columns, each of `n` field elements.
pub open spec fn trace_wf(trace: Seq<Vec<u64>>, width: nat, n: nat) -> bool {
    &&& trace.len() == width
    &&& forall|c: int| 0 <= c < trace.len() ==> (#[trigger] trace[c])@.len() == n
    &&& forall|c: int, i: int|
        0 <= c < trace.len() && 0 <= i < n ==> is_elem(#[trigger] trace[c]@[i])
}

/// Row `i` of a trace given as columns.
pub open spec fn row(trace: Seq<Vec<u64>>, i: int) -> Seq<u64> {
    Seq::new(trace.len(), |c: int| trace[c]@[i])
}

/// The row selectors of row `i` of a trace of `n` rows over the subgroup
/// generated by `g`.
pub open spec fn selectors_at(g: int, n: nat, i: nat) -> RowSelectors {
    RowSelectors {
        z_last: sub_spec(power_spec(g, i), power_spec(g, (n - 1) as nat)) as u64,
        lagrange_first: if i == 0 { 1 } else { 0 },
        lagrange_last: if i == n - 1 { 1 } else { 0 },
    }
}

/// The permutation-check constraints of every permutation `Z` on a row.
pub open spec fn permutation_checks_at(perms: Seq<PermutationZ>, local: Seq<u64>, i: int, next: int) -> Seq<Constraint> {
    Seq::new(
        2 * perms.len(),
        |k: int|
            permutation_check_spec(
                local,
                perms[k / 2].z@[i],
                perms[k / 2].z@[next],
                perms[k / 2].challenge,
                perms[k / 2].lhs@,
                perms[k / 2].rhs@,
            )[k % 2],
    )
}

/// The lookup-check constraints of every lookup `Z` on a row and the next.
pub open spec fn lookup_checks_at(
    lookups: Seq<LookupZ>,
    local: Seq<u64>,
    next_row: Seq<u64>,
    i: int,
    next: int,
) -> Seq<Constraint> {
    Seq::new(
        2 * lookups.len(),
        |k: int|
            lookup_check_spec(
                local,
                next_row,
                lookups[k / 2].z@[i],
                lookups[k / 2].z@[next],
                lookups[k / 2].challenge,
                lookups[k / 2].columns@,
                lookups[k / 2].filter,
            )[k % 2],
    )
}

/// Every constraint on row `i`: the table's own, then the permutation
/// checks', then the lookup checks'.
pub open spec fn row_constraints<S: Stark>(
    stark: &S,
    trace: Seq<Vec<u64>>,
    perms: Seq<PermutationZ>,
    lookups: Seq<LookupZ>,
    i: int,
    next: int,
) -> Seq<Constraint> {
    stark.eval_spec(row(trace, i), row(trace, next)) + permutation_checks_at(perms, row(trace, i), i, next)
        + lookup_checks_at(lookups, row(trace, i), row(trace, next), i, next)
}

/// The running products fit a trace of `width` columns and `n` rows.
pub open spec fn zs_wf(perms: Seq<PermutationZ>, lookups: Seq<LookupZ>, width: nat, n: nat) -> bool {
    &&& forall|k: int| 0 <= k < perms.len() ==> {
        &&& (#[trigger] perms[k]).z@.len() == n
        &&& forall|i: int| 0 <= i < n ==> is_elem(#[trigger] perms[k].z@[i])
        &&& perms[k].challenge.wf()
        &&& forall|c: int| 0 <= c < perms[k].lhs@.len() ==> (#[trigger] perms[k].lhs@[c]) < width
        &&& forall|c: int| 0 <= c < perms[k].rhs@.len() ==> (#[trigger] perms[k].rhs@[c]) < width
    }
    &&& forall|k: int| 0 <= k < lookups.len() ==> {
        &&& (#[trigger] lookups[k]).z@.len() == n
        &&& forall|i: int| 0 <= i < n ==> is_elem(#[trigger] lookups[k].z@[i])
        &&& lookups[k].challenge.wf()
        &&& forall|c: int| 0 <= c < lookups[k].columns@.len() ==> (#[trigger] lookups[k].columns@[c]) < width
        &&& lookups[k].filter matches Some(f) ==> f < width
    }
}

/// Every combination of the constraints on row `i` (with the next row
/// wrapping around) vanishes.
pub open spec fn row_holds<S: Stark>(
    stark: &S,
    trace: Seq<Vec<u64>>,
    perms: Seq<PermutationZ>,
    lookups: Seq<LookupZ>,
    alphas: Seq<u64>,
    n_log: nat,
    i: nat,
) -> bool {
    let n = pow2(n_log);
    let combined = combine_all(
        row_constraints(stark, trace, perms, lookups, i as int, ((i + 1) % n) as int),
        selectors_at(primitive_root_spec(n_log), n, i),
        alphas,
    );
    forall|j: int| 0 <= j < combined.len() ==> #[trigger] combined[j] == 0
}

fn permutation_checks_row(perms: &Vec<PermutationZ>, local: &Vec<u64>, i: usize, next: usize, Ghost(n): Ghost<nat>) -> (r: Vec<
    Constraint,
>)
    requires
        zs_wf(perms@, Seq::empty(), local@.len(), n),
        i < n,
        next < n,
        forall|c: int| 0 <= c < local@.len() ==> is_elem(#[trigger] local@[c]),
    ensures
        r@ == permutation_checks_at(perms@, local@, i as int, next as int),
        forall|k: int| 0 <= k < r@.len() ==> is_elem(#[trigger] r@[k].value),
{
    let mut r: Vec<Constraint> = Vec::new();
    let mut k: usize = 0;
    while k < perms.len()
        invariant
            k <= perms@.len(),
            zs_wf(perms@, Seq::empty(), local@.len(), n),
            i < n,
            next < n,
            forall|c: int| 0 <= c < local@.len() ==> is_elem(#[trigger] local@[c]),
            r@ =~= permutation_checks_at(perms@, local@, i as int, next as int).subrange(0, 2 * k),
            forall|m: int| 0 <= m < r@.len() ==> is_elem(#[trigger] r@[m].value),
        decreases perms.len() - k,
    {
        let p = &perms[k];
        let cs = eval_permutation_check(local, p.z[i], p.z[next], p.challenge, &p.lhs, &p.rhs);
        r.push(cs[0]);
        r.push(cs[1]);
        assert forall|m: int| 2 * k <= m < 2 * k + 2 implies #[trigger] permutation_checks_at(perms@, local@, i as int, next as int)[m] == r@[m] by {
            assert(m / 2 == k && m % 2 == m - 2 * k) by (nonlinear_arith)
                requires
                    2 * k <= m < 2 * k + 2,
            ;
        }
        k = k + 1;
        assert(r@ =~= permutation_checks_at(perms@, local@, i as int, next as int).subrange(0, 2 * k));
    }
    r
}

fn lookup_checks_row(
    lookups: &Vec<LookupZ>,
    local: &Vec<u64>,
    next_row: &Vec<u64>,
    i: usize,
    next: usize,
    Ghost(n): Ghost<nat>,
) -> (r: Vec<Constraint>)
    requires
        zs_wf(Seq::empty(), lookups@, local@.len(), n),
        local@.len() == next_row@.len(),
        i < n,
        next < n,
        forall|c: int| 0 <= c < local@.len() ==> is_elem(#[trigger] local@[c]),
        forall|c: int| 0 <= c < next_row@.len() ==> is_elem(#[trigger] next_row@[c]),
    ensures
        r@ == lookup_checks_at(lookups@, local@, next_row@, i as int, next as int),
        forall|k: int| 0 <= k < r@.len() ==> is_elem(#[trigger] r@[k].value),
{
    let mut r: Vec<Constraint> = Vec::new();
    let mut k: usize = 0;
    while k < lookups.len()
        invariant
            k <= lookups@.len(),
            zs_wf(Seq::empty(), lookups@, local@.len(), n),
            local@.len() == next_row@.len(),
            i < n,
            next < n,
            forall|c: int| 0 <= c < local@.len() ==> is_elem(#[trigger] local@[c]),
            forall|c: int| 0 <= c < next_row@.len() ==> is_elem(#[trigger] next_row@[c]),
            r@ =~= lookup_checks_at(lookups@, local@, next_row@, i as int, next as int).subrange(0, 2 * k),
            forall|m: int| 0 <= m < r@.len() ==> is_elem(#[trigger] r@[m].value),
        decreases lookups.len() - k,
    {
        let l = &lookups[k];
        let cs = eval_lookup_check(local, next_row, l.z[i], l.z[next], l.challenge, &l.columns, l.filter);
        r.push(cs[0]);
        r.push(cs[1]);
        assert forall|m: int| 2 * k <= m < 2 * k + 2 implies #[trigger] lookup_checks_at(lookups@, local@, next_row@, i as int, next as int)[m] == r@[m] by {
            assert(m / 2 == k && m % 2 == m - 2 * k) by (nonlinear_arith)
                requires
                    2 * k <= m < 2 * k + 2,
            ;
        }
        k = k + 1;
        assert(r@ =~= lookup_checks_at(lookups@, local@, next_row@, i as int, next as int).subrange(0, 2 * k));
    }
    r
}

fn trace_row(trace: &Vec<Vec<u64>>, i: usize, Ghost(n): Ghost<nat>) -> (r: Vec<u64>)
    requires
        trace_wf(trace@, trace@.len(), n),
        i < n,
    ensures
        r@ == row(trace@, i as int),
        forall|c: int| 0 <= c < r@.len() ==> is_elem(#[trigger] r@[c]),
{
    let mut r: Vec<u64> = Vec::new();
    let mut c: usize = 0;
    while c < trace.len()
        invariant
            c <= trace@.len(),
            trace_wf(trace@, trace@.len(), n),
            i < n,
            r@ =~= row(trace@, i as int).subrange(0, c as int),
        decreases trace.len() - c,
    {
        r.push(trace[c][i]);
        c = c + 1;
    }
    assert(r@ =~= row(trace@, i as int));
    r
}

fn all_zero(v: &Vec<u64>) -> (r: bool)
    ensures
        r == forall|j: int| 0 <= j < v@.len() ==> #[trigger] v@[j] == 0,
{
    let mut j: usize = 0;
    while j < v.len()
        invariant
            j <= v@.len(),
            forall|k: int| 0 <= k < j ==> #[trigger] v@[k] == 0,
        decreases v.len() - j,
    {
        if v[j] != 0 {
            return false;
        }
        j = j + 1;
    }
    true
}

/// Evaluates every constraint on every row of `trace` (given as columns):
/// the table's own, then those of its permutation checks and of its lookups
/// over their running products, combined by each challenge of `alphas`.
/// Returns the first row on which a combination does not vanish.
pub fn check_constraints<S: Stark>(
    stark: &S,
    trace: &Vec<Vec<u64>>,
    alphas: &Vec<u64>,
    permutation_zs: &Vec<PermutationZ>,
    lookup_zs: &Vec<LookupZ>,
) -> (r: Result<(), usize>)
    requires
        trace@.len() > 0,
        alphas@.len() > 0,
        zs_wf(permutation_zs@, lookup_zs@, stark.columns_spec(), trace@[0]@.len() as nat),
        trace_wf(trace@, stark.columns_spec(), trace@[0]@.len()),
        is_power_of_two(trace@[0]@.len() as nat),
        trace@[0]@.len() <= pow2(TWO_ADICITY as nat),
        forall|j: int| 0 <= j < alphas@.len() ==> is_elem(#[trigger] alphas@[j]),
    ensures
        ({
            let n = trace@[0]@.len();
            exists|n_log: nat| #![auto] pow2(n_log) == n && n_log <= TWO_ADICITY && match r {
                Ok(()) => forall|i: nat| i < n ==> row_holds(stark, trace@, permutation_zs@, lookup_zs@, alphas@, n_log, i),
                Err(i) => i < n && !row_holds(stark, trace@, permutation_zs@, lookup_zs@, alphas@, n_log, i as nat) && forall|k: nat|
                    k < i ==> row_holds(stark, trace@, permutation_zs@, lookup_zs@, alphas@, n_log, k),
            }
        }),
{
    let n = trace[0].len();
    let degree_bits = log2_strict(n);
    proof {
        vstd::arithmetic::power2::lemma_pow2_pos(degree_bits as nat);
        if degree_bits > TWO_ADICITY {
            lemma_pow2_strictly_increases(TWO_ADICITY as nat, degree_bits as nat);
        }
    }
    let g = primitive_root_of_unity(degree_bits);
    let ghost gs = primitive_root_spec(degree_bits as nat);
    // The last element of the subgroup, `g^(n-1)`.
    let mut last: u64 = 1;
    let mut k: usize = 0;
    while k < n - 1
        invariant
            k <= n - 1,
            n > 0,
            is_elem(g),
            g == gs,
            is_elem(last),
            last == power_spec(gs, k as nat),
        decreases n - 1 - k,
    {
        last = fmul(last, g);
        k = k + 1;
    }
    let mut x: u64 = 1;
    let mut i: usize = 0;
    while i < n
        invariant
            i <= n,
            trace@.len() > 0,
            n == trace@[0]@.len(),
            pow2(degree_bits as nat) == n,
            degree_bits <= TWO_ADICITY,
            trace_wf(trace@, stark.columns_spec(), n as nat),
            zs_wf(permutation_zs@, lookup_zs@, stark.columns_spec(), n as nat),
            forall|j: int| 0 <= j < alphas@.len() ==> is_elem(#[trigger] alphas@[j]),
            is_elem(g),
            g == gs,
            gs == primitive_root_spec(degree_bits as nat),
            is_elem(last),
            last == power_spec(gs, (n - 1) as nat),
            is_elem(x),
            x == power_spec(gs, i as nat),
            forall|k: nat| k < i ==> row_holds(stark, trace@, permutation_zs@, lookup_zs@, alphas@, degree_bits as nat, k),
        decreases n - i,
    {
        let next_i = if i + 1 == n { 0 } else { i + 1 };
        proof {
            if i + 1 == n {
                vstd::arithmetic::div_mod::lemma_mod_self_0(n as int);
            } else {
                vstd::arithmetic::div_mod::lemma_small_mod((i + 1) as nat, n as nat);
            }
        }
        assert(next_i == ((i + 1) as nat) % pow2(degree_bits as nat));
        let local = trace_row(trace, i, Ghost(n as nat));
        let next = trace_row(trace, next_i, Ghost(n as nat));
        let sel = RowSelectors {
            z_last: fsub(x, last),
            lagrange_first: if i == 0 { 1 } else { 0 },
            lagrange_last: if i == n - 1 { 1 } else { 0 },
        };
        assert(sel == selectors_at(gs, n as nat, i as nat));
        let mut consumer = ConstraintConsumer::new(alphas.clone(), sel);
        let own = stark.eval(&local, &next);
        let perm_cs = permutation_checks_row(permutation_zs, &local, i, next_i, Ghost(n as nat));
        let lookup_cs = lookup_checks_row(lookup_zs, &local, &next, i, next_i, Ghost(n as nat));
        consumer.constraints(&own);
        consumer.constraints(&perm_cs);
        consumer.constraints(&lookup_cs);
        let accs = consumer.accumulators();
        let ghost cs = own@ + perm_cs@ + lookup_cs@;
        assert(cs == row_constraints(stark, trace@, permutation_zs@, lookup_zs@, i as int, next_i as int));
        assert(consumer.consumed@ =~= selected_all(cs, sel));
        let ghost combined = combine_all(cs, sel, alphas@);
        assert(forall|j: int| 0 <= j < combined.len() ==> #[trigger] combined[j] == accs@[j] as int);
        if !all_zero(&accs) {
            let ghost j = choose|j: int| 0 <= j < accs@.len() && accs@[j] != 0;
            assert(combined[j] != 0);
            assert(!row_holds(stark, trace@, permutation_zs@, lookup_zs@, alphas@, degree_bits as nat, i as nat));
            return Err(i);
        }
        assert(row_holds(stark, trace@, permutation_zs@, lookup_zs@, alphas@, degree_bits as nat, i as nat));
        x = fmul(x, g);
        i = i + 1;
    }
    Ok(())
}

/// The row selectors at point `i` of the evaluation coset.
pub open spec fn coset_selectors(coset: Seq<u64>, first: Seq<u64>, last_row: Seq<u64>, last: u64, i: int) -> RowSelectors {
    RowSelectors {
        z_last: sub_spec(coset[i] as int, last as int) as u64,
        lagrange_first: first[i],
        lagrange_last: last_row[i],
    }
}

/// The values of `v` are field elements.
pub open spec fn all_elems(v: Seq<u64>) -> bool {
    forall|i: int| 0 <= i < v.len() ==> is_elem(#[trigger] v[i])
}

/// Evaluates the combined constraints at every point of the evaluation
/// coset: the table's own, its permutation checks' and its lookups', with
/// the trace and `Z` columns given by their values on the coset. The next
/// row of point `i` is point `(i + next_step) % m`; `z_last` is
/// `x_i - last` with `last` the last element of the trace subgroup, and the
/// Lagrange selectors are given by their values on the coset. Entry `i` of
/// the result holds one combination per challenge of `alphas`.
pub fn eval_on_coset<S: Stark>(
    stark: &S,
    lde: &Vec<Vec<u64>>,
    permutation_zs: &Vec<PermutationZ>,
    lookup_zs: &Vec<LookupZ>,
    coset: &Vec<u64>,
    lagrange_first: &Vec<u64>,
    lagrange_last: &Vec<u64>,
    last: u64,
    next_step: usize,
    alphas: &Vec<u64>,
) -> (r: Vec<Vec<u64>>)
    requires
        lde@.len() > 0,
        lde@[0]@.len() > 0,
        trace_wf(lde@, stark.columns_spec(), lde@[0]@.len() as nat),
        zs_wf(permutation_zs@, lookup_zs@, stark.columns_spec(), lde@[0]@.len() as nat),
        coset@.len() == lde@[0]@.len(),
        lagrange_first@.len() == lde@[0]@.len(),
        lagrange_last@.len() == lde@[0]@.len(),
        all_elems(coset@),
        all_elems(lagrange_first@),
        all_elems(lagrange_last@),
        is_elem(last),
        next_step <= lde@[0]@.len(),
        all_elems(alphas@),
    ensures
        r@.len() == lde@[0]@.len(),
        forall|i: int| 0 <= i < r@.len() ==> (#[trigger] r@[i])@.len() == alphas@.len(),
        forall|i: int, j: int|
            0 <= i < r@.len() && 0 <= j < alphas@.len() ==> (#[trigger] r@[i]@[j]) as int == combine_all(
                row_constraints(stark, lde@, permutation_zs@, lookup_zs@, i, (i + next_step) % (r@.len() as int)),
                coset_selectors(coset@, lagrange_first@, lagrange_last@, last, i),
                alphas@,
            )[j],
{
    let m = lde[0].len();
    let mut r: Vec<Vec<u64>> = Vec::new();
    let mut i: usize = 0;
    while i < m
        invariant
            i <= m,
            lde@.len() > 0,
            m == lde@[0]@.len(),
            trace_wf(lde@, stark.columns_spec(), m as nat),
            zs_wf(permutation_zs@, lookup_zs@, stark.columns_spec(), m as nat),
            coset@.len() == m,
            lagrange_first@.len() == m,
            lagrange_last@.len() == m,
            all_elems(coset@),
            all_elems(lagrange_first@),
            all_elems(lagrange_last@),
            is_elem(last),
            next_step <= m,
            all_elems(alphas@),
            r@.len() == i,
            forall|k: int| 0 <= k < i ==> (#[trigger] r@[k])@.len() == alphas@.len(),
            forall|k: int, j: int|
                0 <= k < i && 0 <= j < alphas@.len() ==> (#[trigger] r@[k]@[j]) as int == combine_all(
                    row_constraints(stark, lde@, permutation_zs@, lookup_zs@, k, (k + next_step) % (m as int)),
                    coset_selectors(coset@, lagrange_first@, lagrange_last@, last, k),
                    alphas@,
                )[j],
        decreases m - i,
    {
        let next_i = if i >= m - next_step { i - (m - next_step) } else { i + next_step };
        proof {
            if i >= m - next_step {
                let y = (i + next_step - m) as int;
                vstd::arithmetic::div_mod::lemma_mod_add_multiples_vanish(y, m as int);
                vstd::arithmetic::div_mod::lemma_small_mod(y as nat, m as nat);
            } else {
                vstd::arithmetic::div_mod::lemma_small_mod((i + next_step) as nat, m as nat);
            }
        }
        assert(next_i == (i + next_step) % (m as int));
        let local = trace_row(lde, i, Ghost(m as nat));
        let next = trace_row(lde, next_i, Ghost(m as nat));
        let sel = RowSelectors {
            z_last: fsub(coset[i], last),
            lagrange_first: lagrange_first[i],
            lagrange_last: lagrange_last[i],
        };
        assert(sel == coset_selectors(coset@, lagrange_first@, lagrange_last@, last, i as int));
        let mut consumer = ConstraintConsumer::new(alphas.clone(), sel);
        let own = stark.eval(&local, &next);
        let perm_cs = permutation_checks_row(permutation_zs, &local, i, next_i, Ghost(m as nat));
        let lookup_cs = lookup_checks_row(lookup_zs, &local, &next, i, next_i, Ghost(m as nat));
        consumer.constraints(&own);
        consumer.constraints(&perm_cs);
        consumer.constraints(&lookup_cs);
        let accs = consumer.accumulators();
        let ghost cs = own@ + perm_cs@ + lookup_cs@;
        assert(cs == row_constraints(stark, lde@, permutation_zs@, lookup_zs@, i as int, next_i as int));
        assert(consumer.consumed@ =~= selected_all(cs, sel));
        r.push(accs);
        i = i + 1;
    }
    r
}

/// A one-row trace of the equal-columns table, without permutation checks or
/// lookups, satisfies its constraints exactly when its two columns are
/// equal, whatever the (at least one) challenges.
pub proof fn lemma_single_row_equal_columns(trace: Seq<Vec<u64>>, alphas: Seq<u64>)
    requires
        trace_wf(trace, 2, 1),
        alphas.len() > 0,
    ensures
        row_holds(&(EqualColumnsStark {}), trace, Seq::empty(), Seq::empty(), alphas, 0, 0) <==> trace[0]@[0]
            == trace[1]@[0],
{
    let stark = EqualColumnsStark {};
    let a = trace[0]@[0];
    let b = trace[1]@[0];
    vstd::arithmetic::power::lemma_pow0(2);
    assert(pow2(0) == 1);
    let sel = selectors_at(primitive_root_spec(0), 1, 0);
    assert(row(trace, 0)[0] == a && row(trace, 0)[1] == b);
    let cs = row_constraints(&stark, trace, Seq::empty(), Seq::empty(), 0, 0);
    assert(permutation_checks_at(Seq::<PermutationZ>::empty(), row(trace, 0), 0, 0) =~= Seq::<Constraint>::empty());
    assert(lookup_checks_at(Seq::<LookupZ>::empty(), row(trace, 0), row(trace, 0), 0, 0) =~= Seq::<Constraint>::empty());
    let v = sub_spec(a as int, b as int);
    assert(cs =~= seq![Constraint { kind: ConstraintKind::EveryRow, value: v as u64 }]);
    assert(0 <= v < crate::field::ORDER);
    let sv = selected_all(cs, sel);
    assert(sv =~= seq![v]);
    assert(sv.drop_last() =~= Seq::<int>::empty());
    let combined = combine_all(cs, sel, alphas);
    assert forall|j: int| 0 <= j < combined.len() implies #[trigger] combined[j] == v by {
        vstd::arithmetic::div_mod::lemma_small_mod(v as nat, crate::field::ORDER as nat);
        vstd::arithmetic::div_mod::lemma_small_mod(0, crate::field::ORDER as nat);
        let al = alphas[j] as int;
        assert(crate::constraint::horner(sv.drop_last(), al) == 0);
        assert(crate::field::mul_spec(0, al) == 0);
        assert(sv.last() == v);
        assert(crate::field::add_spec(0, v) == v);
        assert(combined[j] == crate::constraint::horner(sv, al));
    }
    assert((0nat + 1) % pow2(0) == 0);
    if a == b {
        assert(v == 0);
    } else {
        assert(v != 0);
        assert(combined[0] == v);
    }
}

} // verus!
