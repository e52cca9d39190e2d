//! Running products that certify multiset relations between column sets:
//! across tables (cross-table lookups) and within one table (permutations).
use crate::constraint::{selected, Constraint, ConstraintKind};
use crate::field::{
    add_spec, checked_inverse, fadd, fmul, fsub, inverse_spec, invertible, is_elem, mul_spec, primitive_root_spec,
    sub_spec, ORDER,
};
use crate::stark::ProofError;
use crate::table::{row, selectors_at, trace_wf};
use vstd::arithmetic::power2::pow2;
use vstd::prelude::*;

verus! {

/// The challenges of one grand-product check: `beta` compresses a row's
/// columns into one value, `gamma` shifts it.
#[derive(Clone, Copy, Debug, PartialEq, Eq, Structural)]
pub struct GrandProductChallenge {
    pub beta: u64,
    pub gamma: u64,
}

impl GrandProductChallenge {
    pub open spec fn wf(&self) -> bool {
        is_elem(self.beta) && is_elem(self.gamma)
    }

    /// `sum_i terms[i] * beta^i + gamma`.
    pub open spec fn combine_spec(&self, terms: Seq<u64>) -> int {
        add_spec(reduce_with_powers(terms, self.beta as int), self.gamma as int)
    }

    /// `sum_i terms[i] * beta^i + gamma`.
    pub fn combine(&self, terms: &Vec<u64>) -> (r: u64)
        requires
            self.wf(),
            forall|i: int| 0 <= i < terms@.len() ==> is_elem(#[trigger] terms@[i]),
        ensures
            is_elem(r),
            r == self.combine_spec(terms@),
    {
        let mut acc: u64 = 0;
        let mut i: usize = terms.len();
        while i > 0
            invariant
                i <= terms@.len(),
                self.wf(),
                forall|k: int| 0 <= k < terms@.len() ==> is_elem(#[trigger] terms@[k]),
                is_elem(acc),
                acc == reduce_with_powers(terms@.subrange(i as int, terms@.len() as int), self.beta as int),
            decreases i,
        {
            let ghost tail = terms@.subrange(i as int, terms@.len() as int);
            i = i - 1;
            assert(terms@.subrange(i as int, terms@.len() as int).subrange(1, terms@.len() - i) =~= tail);
            acc = fadd(terms[i], fmul(self.beta, acc));
        }
        assert(terms@.subrange(0, terms@.len() as int) =~= terms@);
        fadd(acc, self.gamma)
    }
}

/// `sum_i terms[i] * beta^i`.
pub open spec fn reduce_with_powers(terms: Seq<u64>, beta: int) -> int
    decreases terms.len(),
{
    if terms.len() == 0 {
        0
    } else {
        add_spec(terms[0] as int, mul_spec(beta, reduce_with_powers(terms.subrange(1, terms.len() as int), beta)))
    }
}

/// A permutation check of a table: its running product `Z`, one value per
/// row, its challenge, and the two column sets it relates.
pub struct PermutationZ {
    pub z: Vec<u64>,
    pub challenge: GrandProductChallenge,
    pub lhs: Vec<usize>,
    pub rhs: Vec<usize>,
}

/// One side of a cross-table lookup in a table: its running product `Z`,
/// one value per row, its challenge, its columns and its filter column.
pub struct LookupZ {
    pub z: Vec<u64>,
    pub challenge: GrandProductChallenge,
    pub columns: Vec<usize>,
    pub filter: Option<usize>,
}

/// The columns `cols` of row `i` of a trace given as columns.
pub open spec fn row_columns(trace: Seq<Vec<u64>>, cols: Seq<usize>, i: int) -> Seq<u64> {
    Seq::new(cols.len(), |k: int| trace[cols[k] as int]@[i])
}

/// Row `i` takes part in the lookup: there is no filter, or its filter is one.
pub open spec fn row_selected(trace: Seq<Vec<u64>>, filter: Option<usize>, i: int) -> bool {
    match filter {
        None => true,
        Some(f) => trace[f as int]@[i] == 1,
    }
}

/// The lookup's running product up to and including row `i`: the product of
/// the combined values of the selected rows.
pub open spec fn lookup_z_spec(
    trace: Seq<Vec<u64>>,
    cols: Seq<usize>,
    filter: Option<usize>,
    ch: GrandProductChallenge,
    i: int,
) -> int
    decreases i + 1,
{
    if i < 0 {
        1
    } else {
        let prev = lookup_z_spec(trace, cols, filter, ch, i - 1);
        if row_selected(trace, filter, i) {
            mul_spec(prev, ch.combine_spec(row_columns(trace, cols, i)))
        } else {
            prev
        }
    }
}

/// The columns and filter of one side of a lookup fit a trace of `width`
/// columns, and the filter column holds only zeros and ones.
pub open spec fn lookup_side_wf(
    trace: Seq<Vec<u64>>,
    n: nat,
    cols: Seq<usize>,
    filter: Option<usize>,
) -> bool {
    &&& forall|k: int| 0 <= k < cols.len() ==> (#[trigger] cols[k]) < trace.len()
    &&& match filter {
        None => true,
        Some(f) => f < trace.len() && forall|i: int|
            0 <= i < n ==> #[trigger] trace[f as int]@[i] == 0 || trace[f as int]@[i] == 1,
    }
}

fn row_columns_exec(trace: &Vec<Vec<u64>>, cols: &Vec<usize>, i: usize, Ghost(n): Ghost<nat>) -> (r: Vec<u64>)
    requires
        trace_wf(trace@, trace@.len(), n),
        forall|k: int| 0 <= k < cols@.len() ==> (#[trigger] cols@[k]) < trace@.len(),
        i < n,
    ensures
        r@ == row_columns(trace@, cols@, i as int),
        forall|k: int| 0 <= k < r@.len() ==> is_elem(#[trigger] r@[k]),
{
    let mut r: Vec<u64> = Vec::new();
    let mut k: usize = 0;
    while k < cols.len()
        invariant
            k <= cols@.len(),
            trace_wf(trace@, trace@.len(), n),
            forall|k: int| 0 <= k < cols@.len() ==> (#[trigger] cols@[k]) < trace@.len(),
            i < n,
            r@ =~= row_columns(trace@, cols@, i as int).subrange(0, k as int),
        decreases cols.len() - k,
    {
        r.push(trace[cols[k]][i]);
        k = k + 1;
    }
    assert(r@ =~= row_columns(trace@, cols@, i as int));
    r
}

/// The running product of one side of a cross-table lookup: at row `i`, the
/// product of `beta`-compressed, `gamma`-shifted column values of the rows up
/// to `i` that the filter selects.
pub fn lookup_z_poly(
    trace: &Vec<Vec<u64>>,
    cols: &Vec<usize>,
    filter: Option<usize>,
    challenge: GrandProductChallenge,
) -> (r: Vec<u64>)
    requires
        trace@.len() > 0,
        trace_wf(trace@, trace@.len(), trace@[0]@.len() as nat),
        lookup_side_wf(trace@, trace@[0]@.len() as nat, cols@, filter),
        challenge.wf(),
    ensures
        r@.len() == trace@[0]@.len(),
        forall|i: int| 0 <= i < r@.len() ==> is_elem(#[trigger] r@[i]),
        forall|i: int| 0 <= i < r@.len() ==> #[trigger] r@[i] == lookup_z_spec(trace@, cols@, filter, challenge, i),
{
    let len = trace[0].len();
    let ghost n = len as nat;
    let mut r: Vec<u64> = Vec::new();
    let mut acc: u64 = 1;
    let mut i: usize = 0;
    while i < len
        invariant
            i <= len,
            len == n,
            trace_wf(trace@, trace@.len(), n),
            lookup_side_wf(trace@, n, cols@, filter),
            challenge.wf(),
            r@.len() == i,
            is_elem(acc),
            acc == lookup_z_spec(trace@, cols@, filter, challenge, i - 1),
            forall|k: int| 0 <= k < i ==> is_elem(#[trigger] r@[k]),
            forall|k: int| 0 <= k < i ==> #[trigger] r@[k] == lookup_z_spec(trace@, cols@, filter, challenge, k),
        decreases len - i,
    {
        let selected = match filter {
            None => true,
            Some(f) => trace[f][i] == 1,
        };
        if selected {
            let vals = row_columns_exec(trace, cols, i, Ghost(n));
            acc = fmul(acc, challenge.combine(&vals));
        }
        r.push(acc);
        i = i + 1;
    }
    r
}

/// The product of a sequence of field elements.
pub open spec fn product(v: Seq<u64>) -> int
    decreases v.len(),
{
    if v.len() == 0 {
        1
    } else {
        mul_spec(product(v.drop_last()), v.last() as int)
    }
}

/// Checks one cross-table lookup: the product of the final running-product
/// values of its looking sides equals the final value of its looked side.
pub fn check_lookup_final_values(looking_finals: &Vec<u64>, looked_final: u64) -> (r: Result<(), ProofError>)
    requires
        forall|i: int| 0 <= i < looking_finals@.len() ==> is_elem(#[trigger] looking_finals@[i]),
    ensures
        r is Ok <==> product(looking_finals@) == looked_final,
        r is Err ==> r == Err::<(), ProofError>(ProofError::LookupMismatch),
{
    let mut acc: u64 = 1;
    let mut i: usize = 0;
    while i < looking_finals.len()
        invariant
            i <= looking_finals@.len(),
            forall|k: int| 0 <= k < looking_finals@.len() ==> is_elem(#[trigger] looking_finals@[k]),
            is_elem(acc),
            acc == product(looking_finals@.subrange(0, i as int)),
        decreases looking_finals.len() - i,
    {
        assert(looking_finals@.subrange(0, i + 1).drop_last() =~= looking_finals@.subrange(0, i as int));
        acc = fmul(acc, looking_finals[i]);
        i = i + 1;
    }
    assert(looking_finals@.subrange(0, looking_finals@.len() as int) =~= looking_finals@);
    if acc == looked_final {
        Ok(())
    } else {
        Err(ProofError::LookupMismatch)
    }
}

/// The permutation argument's running product at row `i`: the product over
/// the rows before `i` of `numerators[k] / denominators[k]`.
pub open spec fn permutation_z_spec(numerators: Seq<u64>, denominators: Seq<u64>, i: int) -> int
    decreases i,
{
    if i <= 0 {
        1
    } else {
        mul_spec(
            permutation_z_spec(numerators, denominators, i - 1),
            mul_spec(numerators[i - 1] as int, inverse_spec(denominators[i - 1] as int)),
        )
    }
}

proof fn lemma_ratio_step(acc: int, num: int, den: int, inv: int)
    requires
        0 <= num < ORDER,
        mul_spec(den, inv) == 1,
    ensures
        mul_spec(mul_spec(acc, mul_spec(num, inv)), den) == mul_spec(acc, num),
{
    crate::field::lemma_mul_assoc(acc, mul_spec(num, inv), den);
    crate::field::lemma_mul_assoc(num, inv, den);
    assert(mul_spec(inv, den) == mul_spec(den, inv)) by {
        vstd::arithmetic::mul::lemma_mul_is_commutative(inv, den);
    }
    vstd::arithmetic::div_mod::lemma_small_mod(num as nat, ORDER as nat);
    assert(num * 1 == num);
    assert(mul_spec(num, 1) == num);
}

/// The running product `Z` of a permutation check between two column sets
/// of one table, from the combined values of each row on either side:
/// `Z(0) = 1` and `Z(i + 1) = Z(i) * numerators[i] / denominators[i]`, so
/// that `Z(i + 1) * denominators[i] == Z(i) * numerators[i]`. Fails with
/// `NotInvertible` where a denominator is zero.
pub fn permutation_z_poly(numerators: &Vec<u64>, denominators: &Vec<u64>) -> (r: Result<Vec<u64>, ProofError>)
    requires
        numerators@.len() == denominators@.len(),
        forall|i: int| 0 <= i < numerators@.len() ==> is_elem(#[trigger] numerators@[i]),
        forall|i: int| 0 <= i < denominators@.len() ==> is_elem(#[trigger] denominators@[i]),
    ensures
        r is Err <==> exists|i: int| 0 <= i < denominators@.len() && !#[trigger] invertible(denominators@[i] as int),
        r is Err ==> r == Err::<Vec<u64>, ProofError>(ProofError::NotInvertible),
        r matches Ok(z) ==> {
            &&& z@.len() == numerators@.len()
            &&& forall|i: int| 0 <= i < z@.len() ==> is_elem(#[trigger] z@[i])
            &&& forall|i: int| 0 <= i < z@.len() ==> #[trigger] z@[i] == permutation_z_spec(numerators@, denominators@, i)
            &&& forall|i: int|
                0 <= i && i + 1 < z@.len() ==> mul_spec(#[trigger] z@[i + 1] as int, denominators@[i] as int) == mul_spec(
                    z@[i] as int,
                    numerators@[i] as int,
                )
        },
{
    let mut r: Vec<u64> = Vec::new();
    let mut acc: u64 = 1;
    let mut i: usize = 0;
    while i < numerators.len()
        invariant
            i <= numerators@.len(),
            numerators@.len() == denominators@.len(),
            forall|k: int| 0 <= k < numerators@.len() ==> is_elem(#[trigger] numerators@[k]),
            forall|k: int| 0 <= k < denominators@.len() ==> is_elem(#[trigger] denominators@[k]),
            r@.len() == i,
            is_elem(acc),
            acc == permutation_z_spec(numerators@, denominators@, i as int),
            forall|k: int| 0 <= k < i ==> is_elem(#[trigger] r@[k]),
            forall|k: int| 0 <= k < i ==> #[trigger] r@[k] == permutation_z_spec(numerators@, denominators@, k),
            forall|k: int| 0 <= k < i ==> #[trigger] invertible(denominators@[k] as int),
            forall|k: int|
                0 <= k && k + 1 < i ==> mul_spec(#[trigger] r@[k + 1] as int, denominators@[k] as int) == mul_spec(
                    r@[k] as int,
                    numerators@[k] as int,
                ),
            i > 0 ==> mul_spec(acc as int, denominators@[i - 1] as int) == mul_spec(r@[i - 1] as int, numerators@[i - 1] as int),
        decreases numerators.len() - i,
    {
        r.push(acc);
        let inv = match checked_inverse(denominators[i]) {
            Some(v) => v,
            None => return Err(ProofError::NotInvertible),
        };
        let ratio = fmul(numerators[i], inv);
        proof {
            lemma_ratio_step(acc as int, numerators@[i as int] as int, denominators@[i as int] as int, inv as int);
        }
        acc = fmul(acc, ratio);
        i = i + 1;
    }
    Ok(r)
}

/// The combined values of the rows up to `i` that the filter selects, in order.
pub open spec fn selected_values(
    trace: Seq<Vec<u64>>,
    cols: Seq<usize>,
    filter: Option<usize>,
    ch: GrandProductChallenge,
    i: int,
) -> Seq<int>
    decreases i + 1,
{
    if i < 0 {
        Seq::empty()
    } else {
        let prev = selected_values(trace, cols, filter, ch, i - 1);
        if row_selected(trace, filter, i) {
            prev.push(ch.combine_spec(row_columns(trace, cols, i)))
        } else {
            prev
        }
    }
}

/// The product of a sequence of values, in the field.
pub open spec fn product_of(v: Seq<int>) -> int
    decreases v.len(),
{
    if v.len() == 0 {
        1
    } else {
        mul_spec(product_of(v.drop_last()), v.last())
    }
}

proof fn lemma_lookup_z_is_product(
    trace: Seq<Vec<u64>>,
    cols: Seq<usize>,
    filter: Option<usize>,
    ch: GrandProductChallenge,
    i: int,
)
    ensures
        lookup_z_spec(trace, cols, filter, ch, i) == product_of(selected_values(trace, cols, filter, ch, i)),
    decreases i + 1,
{
    if i >= 0 {
        lemma_lookup_z_is_product(trace, cols, filter, ch, i - 1);
        let prev = selected_values(trace, cols, filter, ch, i - 1);
        if row_selected(trace, filter, i) {
            assert(prev.push(ch.combine_spec(row_columns(trace, cols, i))).drop_last() =~= prev);
        }
    }
}

proof fn lemma_mul_swap(a: int, b: int, c: int)
    ensures
        mul_spec(mul_spec(a, b), c) == mul_spec(mul_spec(a, c), b),
{
    let m = ORDER as int;
    vstd::arithmetic::div_mod::lemma_mul_mod_noop_left(a * b, c, m);
    vstd::arithmetic::div_mod::lemma_mul_mod_noop_left(a * c, b, m);
    assert((a * b) * c == (a * c) * b) by (nonlinear_arith);
}

proof fn lemma_product_remove(v: Seq<int>, j: int)
    requires
        0 <= j < v.len(),
    ensures
        product_of(v) == mul_spec(product_of(v.remove(j)), v[j]),
    decreases v.len(),
{
    if j == v.len() - 1 {
        assert(v.remove(j) =~= v.drop_last());
    } else {
        let w = v.drop_last();
        lemma_product_remove(w, j);
        assert(v.remove(j).drop_last() =~= w.remove(j));
        assert(v.remove(j).last() == v.last());
        lemma_mul_swap(product_of(w.remove(j)), v[j], v.last());
    }
}

proof fn lemma_product_multiset(a: Seq<int>, b: Seq<int>)
    requires
        a.to_multiset() == b.to_multiset(),
    ensures
        product_of(a) == product_of(b),
    decreases a.len(),
{
    broadcast use vstd::seq_lib::group_to_multiset_ensures;
    broadcast use vstd::multiset::group_multiset_axioms;

    if a.len() == 0 {
        assert(b.to_multiset().len() == 0);
        assert(b.len() == 0);
    } else {
        let x = a.last();
        let rest = a.drop_last();
        assert(a =~= rest.push(x));
        assert(a.to_multiset() =~= rest.to_multiset().insert(x));
        assert(b.to_multiset().count(x) > 0);
        assert(b.contains(x));
        let j = choose|j: int| 0 <= j < b.len() && b[j] == x;
        let b2 = b.remove(j);
        assert(b2.to_multiset() =~= b.to_multiset().remove(x));
        assert(b2.to_multiset() =~= rest.to_multiset());
        lemma_product_multiset(rest, b2);
        lemma_product_remove(b, j);
    }
}

/// Completeness of a cross-table lookup: where the rows that the looking
/// side selects give the same multiset of combined values as the rows that
/// the looked side selects, the final values of their running products agree,
/// whatever the challenge.
pub proof fn lemma_lookup_completeness(
    looking: Seq<Vec<u64>>,
    looking_cols: Seq<usize>,
    looking_filter: Option<usize>,
    looked: Seq<Vec<u64>>,
    looked_cols: Seq<usize>,
    looked_filter: Option<usize>,
    ch: GrandProductChallenge,
    looking_rows: int,
    looked_rows: int,
)
    requires
        selected_values(looking, looking_cols, looking_filter, ch, looking_rows - 1).to_multiset()
            == selected_values(looked, looked_cols, looked_filter, ch, looked_rows - 1).to_multiset(),
    ensures
        lookup_z_spec(looking, looking_cols, looking_filter, ch, looking_rows - 1) == lookup_z_spec(
            looked,
            looked_cols,
            looked_filter,
            ch,
            looked_rows - 1,
        ),
{
    lemma_lookup_z_is_product(looking, looking_cols, looking_filter, ch, looking_rows - 1);
    lemma_lookup_z_is_product(looked, looked_cols, looked_filter, ch, looked_rows - 1);
    lemma_product_multiset(
        selected_values(looking, looking_cols, looking_filter, ch, looking_rows - 1),
        selected_values(looked, looked_cols, looked_filter, ch, looked_rows - 1),
    );
}

/// `x` where the filter is one and one where it is zero: `f * x + 1 - f`.
pub open spec fn select_spec(f: int, x: int) -> int {
    add_spec(mul_spec(f, x), sub_spec(1, f))
}

/// The columns `cols` of a row.
pub open spec fn columns_of(r: Seq<u64>, cols: Seq<usize>) -> Seq<u64> {
    Seq::new(cols.len(), |k: int| r[cols[k] as int])
}

/// A row's filter value: its filter column, or one without a filter.
pub open spec fn filter_of(r: Seq<u64>, filter: Option<usize>) -> int {
    match filter {
        Some(f) => r[f as int] as int,
        None => 1,
    }
}

/// The constraints that tie a lookup's running product to the trace: on the
/// first row `Z` is the first factor, and from each row to the next `Z` is
/// multiplied by the next row's factor, a factor being the combined columns
/// where the filter is one and one where it is zero.
pub open spec fn lookup_check_spec(
    local: Seq<u64>,
    next: Seq<u64>,
    local_z: u64,
    next_z: u64,
    ch: GrandProductChallenge,
    cols: Seq<usize>,
    filter: Option<usize>,
) -> Seq<Constraint> {
    seq![
        Constraint {
            kind: ConstraintKind::FirstRow,
            value: sub_spec(
                local_z as int,
                select_spec(filter_of(local, filter), ch.combine_spec(columns_of(local, cols))),
            ) as u64,
        },
        Constraint {
            kind: ConstraintKind::Transition,
            value: sub_spec(
                next_z as int,
                mul_spec(local_z as int, select_spec(filter_of(next, filter), ch.combine_spec(columns_of(next, cols)))),
            ) as u64,
        },
    ]
}

fn columns_of_exec(r: &Vec<u64>, cols: &Vec<usize>) -> (v: Vec<u64>)
    requires
        forall|k: int| 0 <= k < cols@.len() ==> (#[trigger] cols@[k]) < r@.len(),
        forall|c: int| 0 <= c < r@.len() ==> is_elem(#[trigger] r@[c]),
    ensures
        v@ == columns_of(r@, cols@),
        forall|k: int| 0 <= k < v@.len() ==> is_elem(#[trigger] v@[k]),
{
    let mut v: Vec<u64> = Vec::new();
    let mut k: usize = 0;
    while k < cols.len()
        invariant
            k <= cols@.len(),
            forall|k: int| 0 <= k < cols@.len() ==> (#[trigger] cols@[k]) < r@.len(),
            forall|c: int| 0 <= c < r@.len() ==> is_elem(#[trigger] r@[c]),
            v@ =~= columns_of(r@, cols@).subrange(0, k as int),
        decreases cols.len() - k,
    {
        v.push(r[cols[k]]);
        k = k + 1;
    }
    assert(v@ =~= columns_of(r@, cols@));
    v
}

/// Evaluates a lookup's check constraints on a row and the next row, given
/// the running product `Z` at both.
pub fn eval_lookup_check(
    local: &Vec<u64>,
    next: &Vec<u64>,
    local_z: u64,
    next_z: u64,
    challenge: GrandProductChallenge,
    cols: &Vec<usize>,
    filter: Option<usize>,
) -> (r: Vec<Constraint>)
    requires
        challenge.wf(),
        is_elem(local_z),
        is_elem(next_z),
        local@.len() == next@.len(),
        forall|c: int| 0 <= c < local@.len() ==> is_elem(#[trigger] local@[c]),
        forall|c: int| 0 <= c < next@.len() ==> is_elem(#[trigger] next@[c]),
        forall|k: int| 0 <= k < cols@.len() ==> (#[trigger] cols@[k]) < local@.len(),
        filter matches Some(f) ==> f < local@.len(),
    ensures
        r@ == lookup_check_spec(local@, next@, local_z, next_z, challenge, cols@, filter),
        forall|i: int| 0 <= i < r@.len() ==> is_elem(#[trigger] r@[i].value),
{
    let local_filter: u64 = match filter {
        Some(f) => local[f],
        None => 1,
    };
    let next_filter: u64 = match filter {
        Some(f) => next[f],
        None => 1,
    };
    let local_comb = challenge.combine(&columns_of_exec(local, cols));
    let next_comb = challenge.combine(&columns_of_exec(next, cols));
    let local_sel = fadd(fmul(local_filter, local_comb), fsub(1, local_filter));
    let next_sel = fadd(fmul(next_filter, next_comb), fsub(1, next_filter));
    let first = Constraint { kind: ConstraintKind::FirstRow, value: fsub(local_z, local_sel) };
    let transition = Constraint { kind: ConstraintKind::Transition, value: fsub(next_z, fmul(local_z, next_sel)) };
    let r = vec![first, transition];
    assert(r@ =~= lookup_check_spec(local@, next@, local_z, next_z, challenge, cols@, filter));
    r
}

proof fn lemma_lookup_z_elem(
    trace: Seq<Vec<u64>>,
    cols: Seq<usize>,
    filter: Option<usize>,
    ch: GrandProductChallenge,
    i: int,
)
    ensures
        0 <= lookup_z_spec(trace, cols, filter, ch, i) < ORDER,
    decreases i + 1,
{
    if i >= 0 {
        lemma_lookup_z_elem(trace, cols, filter, ch, i - 1);
    }
}

proof fn lemma_select(f: int, x: int)
    requires
        f == 0 || f == 1,
        0 <= x < ORDER,
    ensures
        select_spec(f, x) == if f == 1 { x } else { 1 },
{
    vstd::arithmetic::div_mod::lemma_small_mod(x as nat, ORDER as nat);
    vstd::arithmetic::div_mod::lemma_small_mod(1, ORDER as nat);
    vstd::arithmetic::div_mod::lemma_small_mod(0, ORDER as nat);
    if f == 1 {
        assert(mul_spec(f, x) == x);
        assert(sub_spec(1, f) == 0);
    } else {
        assert(mul_spec(f, x) == 0);
        assert(sub_spec(1, f) == 1);
    }
}

proof fn lemma_mul_one(x: int)
    requires
        0 <= x < ORDER,
    ensures
        mul_spec(x, 1) == x,
        mul_spec(1, x) == x,
{
    vstd::arithmetic::div_mod::lemma_small_mod(x as nat, ORDER as nat);
}

/// The filter of row `i` is zero or one, and one exactly where the row is selected.
proof fn lemma_row_filter(trace: Seq<Vec<u64>>, n: nat, cols: Seq<usize>, filter: Option<usize>, i: int)
    requires
        trace_wf(trace, trace.len(), n),
        lookup_side_wf(trace, n, cols, filter),
        0 <= i < n,
    ensures
        filter_of(row(trace, i), filter) == 0 || filter_of(row(trace, i), filter) == 1,
        filter_of(row(trace, i), filter) == 1 <==> row_selected(trace, filter, i),
        columns_of(row(trace, i), cols) == row_columns(trace, cols, i),
{
    match filter {
        Some(f) => {
            assert(row(trace, i)[f as int] == trace[f as int]@[i]);
        },
        None => {},
    }
    assert(columns_of(row(trace, i), cols) =~= row_columns(trace, cols, i));
}

proof fn lemma_lookup_first_row(
    trace: Seq<Vec<u64>>,
    n: nat,
    cols: Seq<usize>,
    filter: Option<usize>,
    ch: GrandProductChallenge,
    local_next: Seq<u64>,
    next_z: u64,
)
    requires
        trace_wf(trace, trace.len(), n),
        n > 0,
        lookup_side_wf(trace, n, cols, filter),
        ch.wf(),
    ensures
        lookup_check_spec(
            row(trace, 0),
            local_next,
            lookup_z_spec(trace, cols, filter, ch, 0) as u64,
            next_z,
            ch,
            cols,
            filter,
        )[0].value == 0,
{
    let x = ch.combine_spec(row_columns(trace, cols, 0));
    lemma_row_filter(trace, n, cols, filter, 0);
    lemma_select(filter_of(row(trace, 0), filter), x);
    lemma_mul_one(x);
    assert(lookup_z_spec(trace, cols, filter, ch, -1) == 1);
}

proof fn lemma_lookup_transition(
    trace: Seq<Vec<u64>>,
    n: nat,
    cols: Seq<usize>,
    filter: Option<usize>,
    ch: GrandProductChallenge,
    i: int,
)
    requires
        trace_wf(trace, trace.len(), n),
        lookup_side_wf(trace, n, cols, filter),
        ch.wf(),
        0 <= i,
        i + 1 < n,
    ensures
        lookup_check_spec(
            row(trace, i),
            row(trace, i + 1),
            lookup_z_spec(trace, cols, filter, ch, i) as u64,
            lookup_z_spec(trace, cols, filter, ch, i + 1) as u64,
            ch,
            cols,
            filter,
        )[1].value == 0,
{
    let zi = lookup_z_spec(trace, cols, filter, ch, i);
    let x = ch.combine_spec(row_columns(trace, cols, i + 1));
    lemma_lookup_z_elem(trace, cols, filter, ch, i);
    lemma_row_filter(trace, n, cols, filter, i + 1);
    lemma_select(filter_of(row(trace, i + 1), filter), x);
    lemma_mul_one(zi);
}

/// Completeness of the lookup check constraints: on a trace whose filter
/// column holds zeros and ones, the running product that `lookup_z_poly`
/// computes satisfies them on every row, the first-row constraint being
/// enforced on the first row only and the transition on every row but the
/// last.
pub proof fn lemma_lookup_check_vanishes(
    trace: Seq<Vec<u64>>,
    cols: Seq<usize>,
    filter: Option<usize>,
    ch: GrandProductChallenge,
    n_log: nat,
    i: nat,
)
    requires
        trace_wf(trace, trace.len(), pow2(n_log)),
        lookup_side_wf(trace, pow2(n_log), cols, filter),
        ch.wf(),
        i < pow2(n_log),
    ensures
        ({
            let n = pow2(n_log);
            let next = ((i + 1) % n) as int;
            let cs = lookup_check_spec(
                row(trace, i as int),
                row(trace, next),
                lookup_z_spec(trace, cols, filter, ch, i as int) as u64,
                lookup_z_spec(trace, cols, filter, ch, next) as u64,
                ch,
                cols,
                filter,
            );
            forall|k: int| 0 <= k < cs.len() ==> #[trigger] selected(cs[k], selectors_at(primitive_root_spec(n_log), n, i)) == 0
        }),
{
    let n = pow2(n_log);
    let next = ((i + 1) % n) as int;
    let sel = selectors_at(primitive_root_spec(n_log), n, i);
    let cs = lookup_check_spec(
        row(trace, i as int),
        row(trace, next),
        lookup_z_spec(trace, cols, filter, ch, i as int) as u64,
        lookup_z_spec(trace, cols, filter, ch, next) as u64,
        ch,
        cols,
        filter,
    );
    if i == 0 {
        lemma_lookup_first_row(trace, n, cols, filter, ch, row(trace, next), lookup_z_spec(trace, cols, filter, ch, next) as u64);
    }
    assert(selected(cs[0], sel) == 0);
    if i + 1 < n {
        vstd::arithmetic::div_mod::lemma_small_mod((i + 1) as nat, n);
        assert(next == i + 1);
        lemma_lookup_transition(trace, n, cols, filter, ch, i as int);
        assert(cs[1].value == 0);
        assert(cs[1].kind == ConstraintKind::Transition);
        assert(mul_spec(0, sel.z_last as int) == 0);
    } else {
        assert(sel.z_last == 0);
        assert(cs[1].kind == ConstraintKind::Transition);
        assert(mul_spec(cs[1].value as int, 0) == 0);
    }
    assert(selected(cs[1], sel) == 0);
    assert forall|k: int| 0 <= k < cs.len() implies #[trigger] selected(cs[k], sel) == 0 by {
        if k == 0 {
            assert(selected(cs[0], sel) == 0);
        } else {
            assert(selected(cs[1], sel) == 0);
        }
    }
}

/// The constraints of one permutation check between the columns `lhs` and
/// `rhs` of a table: `Z` is one on the first row, and on every row, wrapping
/// from the last to the first, `Z_next * combine(rhs) == Z * combine(lhs)`.
/// On the last row this closes the product: over all rows the combined `lhs`
/// values and the combined `rhs` values have equal products.
pub open spec fn permutation_check_spec(
    local: Seq<u64>,
    local_z: u64,
    next_z: u64,
    ch: GrandProductChallenge,
    lhs: Seq<usize>,
    rhs: Seq<usize>,
) -> Seq<Constraint> {
    seq![
        Constraint { kind: ConstraintKind::FirstRow, value: sub_spec(local_z as int, 1) as u64 },
        Constraint {
            kind: ConstraintKind::EveryRow,
            value: sub_spec(
                mul_spec(next_z as int, ch.combine_spec(columns_of(local, rhs))),
                mul_spec(local_z as int, ch.combine_spec(columns_of(local, lhs))),
            ) as u64,
        },
    ]
}

/// Evaluates the constraints of a permutation check on a row, given its
/// running product `Z` there and on the next row.
pub fn eval_permutation_check(
    local: &Vec<u64>,
    local_z: u64,
    next_z: u64,
    challenge: GrandProductChallenge,
    lhs: &Vec<usize>,
    rhs: &Vec<usize>,
) -> (r: Vec<Constraint>)
    requires
        challenge.wf(),
        is_elem(local_z),
        is_elem(next_z),
        forall|c: int| 0 <= c < local@.len() ==> is_elem(#[trigger] local@[c]),
        forall|k: int| 0 <= k < lhs@.len() ==> (#[trigger] lhs@[k]) < local@.len(),
        forall|k: int| 0 <= k < rhs@.len() ==> (#[trigger] rhs@[k]) < local@.len(),
    ensures
        r@ == permutation_check_spec(local@, local_z, next_z, challenge, lhs@, rhs@),
        forall|i: int| 0 <= i < r@.len() ==> is_elem(#[trigger] r@[i].value),
{
    let num = challenge.combine(&columns_of_exec(local, lhs));
    let den = challenge.combine(&columns_of_exec(local, rhs));
    let first = Constraint { kind: ConstraintKind::FirstRow, value: fsub(local_z, 1) };
    let step = Constraint { kind: ConstraintKind::EveryRow, value: fsub(fmul(next_z, den), fmul(local_z, num)) };
    let r = vec![first, step];
    assert(r@ =~= permutation_check_spec(local@, local_z, next_z, challenge, lhs@, rhs@));
    r
}

/// The numerators and denominators of a permutation check: on each row the
/// combined `lhs` columns and the combined `rhs` columns.
pub fn permutation_factors(
    trace: &Vec<Vec<u64>>,
    lhs: &Vec<usize>,
    rhs: &Vec<usize>,
    challenge: GrandProductChallenge,
) -> (r: (Vec<u64>, Vec<u64>))
    requires
        trace@.len() > 0,
        trace_wf(trace@, trace@.len(), trace@[0]@.len() as nat),
        forall|k: int| 0 <= k < lhs@.len() ==> (#[trigger] lhs@[k]) < trace@.len(),
        forall|k: int| 0 <= k < rhs@.len() ==> (#[trigger] rhs@[k]) < trace@.len(),
        challenge.wf(),
    ensures
        r.0@.len() == trace@[0]@.len(),
        r.1@.len() == trace@[0]@.len(),
        forall|i: int| 0 <= i < r.0@.len() ==> #[trigger] r.0@[i] == challenge.combine_spec(row_columns(trace@, lhs@, i)),
        forall|i: int| 0 <= i < r.1@.len() ==> #[trigger] r.1@[i] == challenge.combine_spec(row_columns(trace@, rhs@, i)),
        forall|i: int| 0 <= i < r.0@.len() ==> is_elem(#[trigger] r.0@[i]),
        forall|i: int| 0 <= i < r.1@.len() ==> is_elem(#[trigger] r.1@[i]),
{
    let n = trace[0].len();
    let mut num: Vec<u64> = Vec::new();
    let mut den: Vec<u64> = Vec::new();
    let mut i: usize = 0;
    while i < n
        invariant
            i <= n,
            n == trace@[0]@.len(),
            trace_wf(trace@, trace@.len(), n as nat),
            forall|k: int| 0 <= k < lhs@.len() ==> (#[trigger] lhs@[k]) < trace@.len(),
            forall|k: int| 0 <= k < rhs@.len() ==> (#[trigger] rhs@[k]) < trace@.len(),
            challenge.wf(),
            num@.len() == i,
            den@.len() == i,
            forall|k: int| 0 <= k < i ==> #[trigger] num@[k] == challenge.combine_spec(row_columns(trace@, lhs@, k)),
            forall|k: int| 0 <= k < i ==> #[trigger] den@[k] == challenge.combine_spec(row_columns(trace@, rhs@, k)),
            forall|k: int| 0 <= k < i ==> is_elem(#[trigger] num@[k]),
            forall|k: int| 0 <= k < i ==> is_elem(#[trigger] den@[k]),
        decreases n - i,
    {
        num.push(challenge.combine(&row_columns_exec(trace, lhs, i, Ghost(n as nat))));
        den.push(challenge.combine(&row_columns_exec(trace, rhs, i, Ghost(n as nat))));
        i = i + 1;
    }
    (num, den)
}

} // verus!
