//! The quotient of the combined constraints by the vanishing polynomial of
//! the trace domain: its values on a disjoint coset, and the identity that
//! the verifier checks at the out-of-domain point.
use crate::field::{
    exp_power_of_2, exp_pow2_spec, ext_add, ext_add_spec, ext_exp_power_of_2, ext_exp_pow2_spec,
    checked_inverse, ext_mul, ext_mul_spec, ext_sub, ext_sub_spec, fmul, fsub, inverse_spec, invertible, is_elem,
    mul_spec, power_spec, primitive_root_of_unity, primitive_root_spec, sub_spec, ExtElem,
    MULTIPLICATIVE_GROUP_GENERATOR, TWO_ADICITY,
};
use crate::stark::ProofError;
use vstd::prelude::*;

verus! {

/// `1 / Z_H(x_i)` on the coset `shift * <w>` of size `2^(degree_bits + rate_bits)`,
/// where `Z_H(x) = x^(2^degree_bits) - 1`. Since `x_i^(2^degree_bits)` is
/// `shift^(2^degree_bits) * w_r^i` with `w_r` of order `2^rate_bits`, the
/// values repeat with period `2^rate_bits`; entry `i` is for every point
/// `x_k` with `k % 2^rate_bits == i`.
pub open spec fn z_h_inverse_spec(degree_bits: nat, rate_bits: nat, i: nat) -> int {
    inverse_spec(z_h_value_spec(degree_bits, rate_bits, i))
}

/// `Z_H(x_i) = x_i^(2^degree_bits) - 1` for the points `x_i` of residue class `i`.
pub open spec fn z_h_value_spec(degree_bits: nat, rate_bits: nat, i: nat) -> int {
    sub_spec(
        mul_spec(
            exp_pow2_spec(MULTIPLICATIVE_GROUP_GENERATOR as int, degree_bits),
            power_spec(primitive_root_spec(rate_bits), i),
        ),
        1,
    )
}

/// The inverses of the vanishing polynomial on the evaluation coset, one per
/// residue class modulo `2^rate_bits`, each checked to be the inverse. Fails
/// with `NotInvertible` where the vanishing polynomial is zero at a point,
/// which is when the coset meets the trace domain.
pub fn z_h_inverses_on_coset(degree_bits: usize, rate_bits: usize) -> (r: Result<Vec<u64>, ProofError>)
    requires
        rate_bits <= TWO_ADICITY,
        rate_bits < 64,
    ensures
        r is Err <==> exists|i: nat|
            i < vstd::arithmetic::power2::pow2(rate_bits as nat) && !#[trigger] invertible(
                z_h_value_spec(degree_bits as nat, rate_bits as nat, i),
            ),
        r is Err ==> r == Err::<Vec<u64>, ProofError>(ProofError::NotInvertible),
        r matches Ok(v) ==> {
            &&& v@.len() == vstd::arithmetic::power2::pow2(rate_bits as nat)
            &&& forall|i: int| 0 <= i < v@.len() ==> is_elem(#[trigger] v@[i])
            &&& forall|i: int|
                0 <= i < v@.len() ==> #[trigger] v@[i] == z_h_inverse_spec(degree_bits as nat, rate_bits as nat, i as nat)
            &&& forall|i: int|
                0 <= i < v@.len() ==> mul_spec(z_h_value_spec(degree_bits as nat, rate_bits as nat, i as nat), #[trigger] v@[i] as int)
                    == 1
        },
{
    let shift_pow = exp_power_of_2(MULTIPLICATIVE_GROUP_GENERATOR, degree_bits);
    let w = primitive_root_of_unity(rate_bits);
    let count: u64 = 1u64 << rate_bits as u64;
    assert(count == vstd::arithmetic::power2::pow2(rate_bits as nat)) by {
        vstd::arithmetic::power2::lemma2_to64();
        vstd::arithmetic::power2::lemma_pow2_strictly_increases(rate_bits as nat, 64);
        vstd::bits::lemma_u64_shl_is_mul(1, rate_bits as u64);
        vstd::arithmetic::power2::lemma_pow2(rate_bits as nat);
    }
    let mut r: Vec<u64> = Vec::new();
    let mut x: u64 = 1;
    let mut i: u64 = 0;
    while i < count
        invariant
            i <= count,
            count == vstd::arithmetic::power2::pow2(rate_bits as nat),
            is_elem(shift_pow),
            shift_pow == exp_pow2_spec(MULTIPLICATIVE_GROUP_GENERATOR as int, degree_bits as nat),
            is_elem(w),
            w == primitive_root_spec(rate_bits as nat),
            is_elem(x),
            x == power_spec(w as int, i as nat),
            r@.len() == i,
            forall|k: int| 0 <= k < i ==> is_elem(#[trigger] r@[k]),
            forall|k: int| 0 <= k < i ==> #[trigger] r@[k] == z_h_inverse_spec(degree_bits as nat, rate_bits as nat, k as nat),
            forall|k: nat| k < i ==> #[trigger] invertible(z_h_value_spec(degree_bits as nat, rate_bits as nat, k)),
            forall|k: int|
                0 <= k < i ==> mul_spec(z_h_value_spec(degree_bits as nat, rate_bits as nat, k as nat), #[trigger] r@[k] as int)
                    == 1,
        decreases count - i,
    {
        let z_h = fsub(fmul(shift_pow, x), 1);
        match checked_inverse(z_h) {
            Some(v) => {
                assert(z_h == z_h_value_spec(degree_bits as nat, rate_bits as nat, i as nat));
                r.push(v);
            },
            None => {
                assert(!invertible(z_h_value_spec(degree_bits as nat, rate_bits as nat, i as nat)));
                return Err(ProofError::NotInvertible);
            },
        }
        x = fmul(x, w);
        i = i + 1;
    }
    Ok(r)
}

/// The quotient value of challenge `j` at coset point `i`: the `j`-th
/// combined constraint value there, times `1 / Z_H` at that point.
pub open spec fn quotient_value_spec(evals: Seq<Vec<u64>>, z_h_inv: Seq<u64>, j: int, i: int) -> int {
    mul_spec(evals[i]@[j] as int, z_h_inv[i % z_h_inv.len() as int] as int)
}

/// Divides the combined constraint values at every coset point (`evals[i]`,
/// one value per challenge) by the vanishing polynomial, and regroups them by
/// challenge. Points are taken `width` at a time; the result is the same for
/// every `width`.
pub fn quotient_values(evals: &Vec<Vec<u64>>, z_h_inv: &Vec<u64>, num_challenges: usize, width: usize) -> (r: Vec<Vec<u64>>)
    requires
        width >= 1,
        z_h_inv@.len() > 0,
        forall|i: int| 0 <= i < z_h_inv@.len() ==> is_elem(#[trigger] z_h_inv@[i]),
        forall|i: int| 0 <= i < evals@.len() ==> (#[trigger] evals@[i])@.len() == num_challenges,
        forall|i: int, j: int|
            0 <= i < evals@.len() && 0 <= j < num_challenges ==> is_elem(#[trigger] evals@[i]@[j]),
    ensures
        r@.len() == num_challenges,
        forall|j: int| 0 <= j < num_challenges ==> (#[trigger] r@[j])@.len() == evals@.len(),
        forall|j: int, i: int|
            0 <= j < num_challenges && 0 <= i < evals@.len() ==> #[trigger] r@[j]@[i] == quotient_value_spec(evals@, z_h_inv@, j, i),
{
    let size = evals.len();
    let mut r: Vec<Vec<u64>> = Vec::new();
    let mut j: usize = 0;
    while j < num_challenges
        invariant
            j <= num_challenges,
            r@.len() == j,
            forall|k: int| 0 <= k < j ==> (#[trigger] r@[k])@.len() == 0,
        decreases num_challenges - j,
    {
        r.push(Vec::new());
        j = j + 1;
    }
    let mut i_start: usize = 0;
    while i_start < size
        invariant
            width >= 1,
            size == evals@.len(),
            z_h_inv@.len() > 0,
            forall|i: int| 0 <= i < z_h_inv@.len() ==> is_elem(#[trigger] z_h_inv@[i]),
            forall|i: int| 0 <= i < evals@.len() ==> (#[trigger] evals@[i])@.len() == num_challenges,
            forall|i: int, j: int|
                0 <= i < evals@.len() && 0 <= j < num_challenges ==> is_elem(#[trigger] evals@[i]@[j]),
            r@.len() == num_challenges,
            forall|j: int| 0 <= j < num_challenges ==> (#[trigger] r@[j])@.len() == i_start,
            forall|j: int, i: int|
                0 <= j < num_challenges && 0 <= i < i_start ==> #[trigger] r@[j]@[i] == quotient_value_spec(evals@, z_h_inv@, j, i),
            i_start <= size,
        decreases size - i_start,
    {
        let mut k: usize = 0;
        while k < width && i_start + k < size
            invariant
                width >= 1,
                i_start < size,
                size == evals@.len(),
                z_h_inv@.len() > 0,
                forall|i: int| 0 <= i < z_h_inv@.len() ==> is_elem(#[trigger] z_h_inv@[i]),
                forall|i: int| 0 <= i < evals@.len() ==> (#[trigger] evals@[i])@.len() == num_challenges,
                forall|i: int, j: int|
                    0 <= i < evals@.len() && 0 <= j < num_challenges ==> is_elem(#[trigger] evals@[i]@[j]),
                r@.len() == num_challenges,
                k <= width,
                i_start + k <= size,
                forall|j: int| 0 <= j < num_challenges ==> (#[trigger] r@[j])@.len() == i_start + k,
                forall|j: int, i: int|
                    0 <= j < num_challenges && 0 <= i < i_start + k ==> #[trigger] r@[j]@[i] == quotient_value_spec(evals@, z_h_inv@, j, i),
            decreases width - k,
        {
            let i = i_start + k;
            let denominator_inv = z_h_inv[i % z_h_inv.len()];
            let mut jj: usize = 0;
            while jj < num_challenges
                invariant
                    i < size,
                    size == evals@.len(),
                    z_h_inv@.len() > 0,
                    denominator_inv == z_h_inv@[(i as int) % (z_h_inv@.len() as int)],
                    is_elem(denominator_inv),
                    forall|i: int| 0 <= i < evals@.len() ==> (#[trigger] evals@[i])@.len() == num_challenges,
                    forall|i: int, j: int|
                        0 <= i < evals@.len() && 0 <= j < num_challenges ==> is_elem(#[trigger] evals@[i]@[j]),
                    r@.len() == num_challenges,
                    jj <= num_challenges,
                    forall|j: int| 0 <= j < jj ==> (#[trigger] r@[j])@.len() == i + 1,
                    forall|j: int| jj <= j < num_challenges ==> (#[trigger] r@[j])@.len() == i,
                    forall|j: int, i2: int|
                        0 <= j < num_challenges && 0 <= i2 < i ==> #[trigger] r@[j]@[i2] == quotient_value_spec(evals@, z_h_inv@, j, i2),
                    forall|j: int| 0 <= j < jj ==> #[trigger] r@[j]@[i as int] == quotient_value_spec(evals@, z_h_inv@, j, i as int),
                decreases num_challenges - jj,
            {
                let v = fmul(evals[i][jj], denominator_inv);
                let mut column: Vec<u64> = Vec::new();
                r.set_and_swap(jj, &mut column);
                column.push(v);
                r.set(jj, column);
                jj = jj + 1;
            }
            k = k + 1;
        }
        i_start = i_start + k;
    }
    r
}

/// `sum_k chunk[k] * x^k` in the extension.
pub open spec fn ext_reduce_with_powers(chunk: Seq<ExtElem>, x: ExtElem) -> ExtElem
    decreases chunk.len(),
{
    if chunk.len() == 0 {
        ExtElem { c0: 0, c1: 0 }
    } else {
        ext_add_spec(chunk[0], ext_mul_spec(x, ext_reduce_with_powers(chunk.subrange(1, chunk.len() as int), x)))
    }
}

fn ext_reduce(chunk: &Vec<ExtElem>, start: usize, end: usize, x: ExtElem) -> (r: ExtElem)
    requires
        start <= end <= chunk@.len(),
        x.wf(),
        forall|k: int| 0 <= k < chunk@.len() ==> (#[trigger] chunk@[k]).wf(),
    ensures
        r.wf(),
        r == ext_reduce_with_powers(chunk@.subrange(start as int, end as int), x),
{
    let mut acc = ExtElem { c0: 0, c1: 0 };
    let mut i: usize = end;
    while i > start
        invariant
            start <= i <= end,
            end <= chunk@.len(),
            x.wf(),
            forall|k: int| 0 <= k < chunk@.len() ==> (#[trigger] chunk@[k]).wf(),
            acc.wf(),
            acc == ext_reduce_with_powers(chunk@.subrange(i as int, end as int), x),
        decreases i - start,
    {
        let ghost tail = chunk@.subrange(i as int, end as int);
        i = i - 1;
        assert(chunk@.subrange(i as int, end as int).subrange(1, (end - i) as int) =~= tail);
        acc = ext_add(chunk[i], ext_mul(x, acc));
    }
    acc
}

/// The identity that ties the openings together: for each challenge `i`, the
/// combined constraints at `zeta` equal `Z_H(zeta)` times the quotient
/// recombined from its chunks, `sum_k q_(i,k)(zeta) * zeta^(n k)`.
pub open spec fn quotient_identity_holds(
    vanishing: Seq<ExtElem>,
    quotient_openings: Seq<ExtElem>,
    factor: nat,
    zeta: ExtElem,
    degree_bits: nat,
) -> bool {
    let zeta_pow_deg = ext_exp_pow2_spec(zeta, degree_bits);
    let z_h_zeta = ext_sub_spec(zeta_pow_deg, ExtElem { c0: 1, c1: 0 });
    forall|i: int|
        0 <= i < vanishing.len() ==> #[trigger] vanishing[i] == ext_mul_spec(
            z_h_zeta,
            ext_reduce_with_powers(quotient_openings.subrange(i * factor, (i + 1) * factor), zeta_pow_deg),
        )
}

/// Checks the quotient identity at the out-of-domain point `zeta`, given the
/// combined constraint values there (one per challenge) and the openings of
/// the quotient chunks (`factor` per challenge).
pub fn check_quotient_identity(
    vanishing: &Vec<ExtElem>,
    quotient_openings: &Vec<ExtElem>,
    factor: usize,
    zeta: ExtElem,
    degree_bits: usize,
) -> (r: Result<(), ProofError>)
    requires
        quotient_openings@.len() == vanishing@.len() * factor,
        zeta.wf(),
        forall|k: int| 0 <= k < vanishing@.len() ==> (#[trigger] vanishing@[k]).wf(),
        forall|k: int| 0 <= k < quotient_openings@.len() ==> (#[trigger] quotient_openings@[k]).wf(),
    ensures
        r is Ok <==> quotient_identity_holds(vanishing@, quotient_openings@, factor as nat, zeta, degree_bits as nat),
        r is Err ==> r == Err::<(), ProofError>(ProofError::QuotientIdentityMismatch),
{
    let zeta_pow_deg = ext_exp_power_of_2(zeta, degree_bits);
    let z_h_zeta = ext_sub(zeta_pow_deg, ExtElem { c0: 1, c1: 0 });
    let mut i: usize = 0;
    while i < vanishing.len()
        invariant
            i <= vanishing@.len(),
            quotient_openings@.len() == vanishing@.len() * factor,
            forall|k: int| 0 <= k < vanishing@.len() ==> (#[trigger] vanishing@[k]).wf(),
            forall|k: int| 0 <= k < quotient_openings@.len() ==> (#[trigger] quotient_openings@[k]).wf(),
            zeta_pow_deg.wf(),
            zeta_pow_deg == ext_exp_pow2_spec(zeta, degree_bits as nat),
            z_h_zeta.wf(),
            z_h_zeta == ext_sub_spec(zeta_pow_deg, ExtElem { c0: 1, c1: 0 }),
            forall|k: int| 0 <= k < i ==> #[trigger] vanishing@[k] == ext_mul_spec(
                z_h_zeta,
                ext_reduce_with_powers(quotient_openings@.subrange(k * factor, (k + 1) * factor), zeta_pow_deg),
            ),
        decreases vanishing.len() - i,
    {
        assert((i + 1) * factor <= vanishing@.len() * factor) by (nonlinear_arith)
            requires
                i < vanishing@.len(),
        ;
        assert(i * factor + factor == (i + 1) * factor) by (nonlinear_arith);
        assert(i * factor <= i * factor + factor);
        let total = quotient_openings.len();
        assert(i * factor + factor <= total);
        let recombined = ext_reduce(quotient_openings, i * factor, i * factor + factor, zeta_pow_deg);
        let expected = ext_mul(z_h_zeta, recombined);
        if vanishing[i] != expected {
            assert(!quotient_identity_holds(vanishing@, quotient_openings@, factor as nat, zeta, degree_bits as nat));
            return Err(ProofError::QuotientIdentityMismatch);
        }
        i = i + 1;
    }
    Ok(())
}

} // verus!
