//! Combining a table's constraints by powers of random challenges.
use crate::field::{fadd, fmul, is_elem, add_spec, mul_spec};
use vstd::prelude::*;

verus! {

/// On which rows a constraint is enforced.
#[derive(Clone, Copy, Debug, PartialEq, Eq, Structural)]
pub enum ConstraintKind {
    /// Every row.
    EveryRow,
    /// Every row but the last, where the next row wraps around.
    Transition,
    /// The first row only.
    FirstRow,
    /// The last row only.
    LastRow,
}

/// One constraint evaluated at a point: it holds where `value` is zero.
#[derive(Clone, Copy, Debug, PartialEq, Eq, Structural)]
pub struct Constraint {
    pub kind: ConstraintKind,
    pub value: u64,
}

/// The row selectors at one evaluation point: `x - g^(n-1)`, which vanishes on
/// the last row, and the first and last Lagrange basis polynomials.
#[derive(Clone, Copy, Debug, PartialEq, Eq, Structural)]
pub struct RowSelectors {
    pub z_last: u64,
    pub lagrange_first: u64,
    pub lagrange_last: u64,
}

impl RowSelectors {
    pub open spec fn wf(&self) -> bool {
        is_elem(self.z_last) && is_elem(self.lagrange_first) && is_elem(self.lagrange_last)
    }
}

/// A constraint's value with its row selector applied.
pub open spec fn selected(c: Constraint, sel: RowSelectors) -> int {
    match c.kind {
        ConstraintKind::EveryRow => c.value as int,
        ConstraintKind::Transition => mul_spec(c.value as int, sel.z_last as int),
        ConstraintKind::FirstRow => mul_spec(c.value as int, sel.lagrange_first as int),
        ConstraintKind::LastRow => mul_spec(c.value as int, sel.lagrange_last as int),
    }
}

/// `sum_i cs[i] * alpha^(len - 1 - i)`, by Horner's rule: each new value is
/// added after the accumulator is multiplied by `alpha`.
pub open spec fn horner(cs: Seq<int>, alpha: int) -> int
    decreases cs.len(),
{
    if cs.len() == 0 {
        0
    } else {
        add_spec(mul_spec(horner(cs.drop_last(), alpha), alpha), cs.last())
    }
}

/// The selected values of a list of constraints.
pub open spec fn selected_all(cs: Seq<Constraint>, sel: RowSelectors) -> Seq<int> {
    Seq::new(cs.len(), |i: int| selected(cs[i], sel))
}

/// One accumulator per challenge, each the combination of the constraints by
/// powers of its challenge.
pub open spec fn combine_all(cs: Seq<Constraint>, sel: RowSelectors, alphas: Seq<u64>) -> Seq<int> {
    Seq::new(alphas.len(), |j: int| horner(selected_all(cs, sel), alphas[j] as int))
}

/// Accumulates constraints, one accumulator per challenge `alpha`.
pub struct ConstraintConsumer {
    pub alphas: Vec<u64>,
    pub accs: Vec<u64>,
    pub selectors: RowSelectors,
    /// The selected values consumed so far.
    pub consumed: Ghost<Seq<int>>,
}

impl ConstraintConsumer {
    pub open spec fn wf(&self) -> bool {
        &&& self.alphas.len() == self.accs.len()
        &&& self.selectors.wf()
        &&& forall|j: int| 0 <= j < self.alphas.len() ==> is_elem(#[trigger] self.alphas[j])
        &&& forall|j: int|
            0 <= j < self.accs.len() ==> #[trigger] self.accs[j] == horner(
                self.consumed@,
                self.alphas[j] as int,
            )
    }

    /// A consumer with every accumulator at zero.
    pub fn new(alphas: Vec<u64>, selectors: RowSelectors) -> (r: Self)
        requires
            selectors.wf(),
            forall|j: int| 0 <= j < alphas.len() ==> is_elem(#[trigger] alphas[j]),
        ensures
            r.wf(),
            r.alphas@ == alphas@,
            r.selectors == selectors,
            r.consumed@ == Seq::<int>::empty(),
    {
        let mut accs: Vec<u64> = Vec::new();
        let mut j: usize = 0;
        while j < alphas.len()
            invariant
                j <= alphas.len(),
                accs.len() == j,
                forall|k: int| 0 <= k < j ==> #[trigger] accs[k] == 0,
            decreases alphas.len() - j,
        {
            accs.push(0);
            j = j + 1;
        }
        ConstraintConsumer { alphas, accs, selectors, consumed: Ghost(Seq::empty()) }
    }

    /// Applies the row selector of `c` and adds it to every accumulator.
    pub fn constraint(&mut self, c: Constraint)
        requires
            old(self).wf(),
            is_elem(c.value),
        ensures
            final(self).wf(),
            final(self).alphas@ == old(self).alphas@,
            final(self).selectors == old(self).selectors,
            final(self).consumed@ == old(self).consumed@.push(selected(c, old(self).selectors)),
    {
        let v = match c.kind {
            ConstraintKind::EveryRow => c.value,
            ConstraintKind::Transition => fmul(c.value, self.selectors.z_last),
            ConstraintKind::FirstRow => fmul(c.value, self.selectors.lagrange_first),
            ConstraintKind::LastRow => fmul(c.value, self.selectors.lagrange_last),
        };
        let ghost consumed = self.consumed@.push(v as int);
        assert(consumed.drop_last() =~= self.consumed@);
        let n = self.accs.len();
        let mut j: usize = 0;
        while j < n
            invariant
                j <= n,
                n == self.accs.len(),
                self.alphas.len() == n,
                self.alphas@ == old(self).alphas@,
                self.selectors == old(self).selectors,
                self.consumed@ == old(self).consumed@,
                consumed == old(self).consumed@.push(v as int),
                consumed.drop_last() == old(self).consumed@,
                is_elem(v),
                old(self).wf(),
                forall|k: int| 0 <= k < j ==> #[trigger] self.accs[k] == horner(consumed, self.alphas[k] as int),
                forall|k: int| j <= k < n ==> #[trigger] self.accs[k] == old(self).accs[k],
            decreases n - j,
        {
            let a = self.accs[j];
            let updated = fadd(fmul(a, self.alphas[j]), v);
            self.accs.set(j, updated);
            j = j + 1;
        }
        self.consumed = Ghost(consumed);
    }

    /// Consumes every constraint of `cs`, in order.
    pub fn constraints(&mut self, cs: &Vec<Constraint>)
        requires
            old(self).wf(),
            forall|i: int| 0 <= i < cs.len() ==> is_elem(#[trigger] cs[i].value),
        ensures
            final(self).wf(),
            final(self).alphas@ == old(self).alphas@,
            final(self).selectors == old(self).selectors,
            final(self).consumed@ == old(self).consumed@ + selected_all(cs@, old(self).selectors),
    {
        let mut i: usize = 0;
        while i < cs.len()
            invariant
                i <= cs.len(),
                self.wf(),
                self.alphas@ == old(self).alphas@,
                self.selectors == old(self).selectors,
                forall|k: int| 0 <= k < cs.len() ==> is_elem(#[trigger] cs[k].value),
                self.consumed@ == old(self).consumed@ + selected_all(cs@.subrange(0, i as int), old(self).selectors),
            decreases cs.len() - i,
        {
            self.constraint(cs[i]);
            assert(selected_all(cs@.subrange(0, i + 1), old(self).selectors) =~= selected_all(
                cs@.subrange(0, i as int),
                old(self).selectors,
            ).push(selected(cs[i as int], old(self).selectors)));
            i = i + 1;
        }
        assert(cs@.subrange(0, cs.len() as int) =~= cs@);
    }

    /// The accumulators, one per challenge.
    pub fn accumulators(&self) -> (r: Vec<u64>)
        ensures
            r@ == self.accs@,
    {
        self.accs.clone()
    }
}

} // verus!
