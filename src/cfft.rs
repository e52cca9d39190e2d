//! Twiddle factors of the radix-2 FFT, in bit-reversed order.
use crate::field::{
    exp_spec, exp_u64, fmul, is_elem, power_spec, primitive_root_of_unity, primitive_root_spec,
    TWO_ADICITY,
};
use crate::util::{is_power_of_two, lemma_log2_of_pow2, log2_of, log2_strict};
use vstd::arithmetic::power2::{lemma_pow2_pos, lemma_pow2_strictly_increases, lemma_pow2_unfold, pow2};
use vstd::prelude::*;

verus! {

/// The lowest `k` bits of `x`, in reverse order.
pub open spec fn bit_reverse(x: nat, k: nat) -> nat
    decreases k,
{
    if k == 0 {
        0
    } else {
        bit_reverse(x / 2, (k - 1) as nat) + (x % 2) * pow2((k - 1) as nat)
    }
}

proof fn lemma_bit_reverse_bound(x: nat, k: nat)
    ensures
        bit_reverse(x, k) < pow2(k),
    decreases k,
{
    if k == 0 {
        vstd::arithmetic::power::lemma_pow0(2);
    } else {
        lemma_bit_reverse_bound(x / 2, (k - 1) as nat);
        lemma_pow2_unfold(k);
        let p = pow2((k - 1) as nat);
        assert((x % 2) * p <= p) by (nonlinear_arith)
            requires
                x % 2 <= 1,
                p >= 0,
        ;
    }
}

/// The position that index `index` takes in the bit-reversal permutation of
/// `size` elements: its `log2(size)` low bits reversed.
pub fn permute_index(size: usize, index: usize) -> (r: usize)
    requires
        index < size,
        is_power_of_two(size as nat),
    ensures
        r == bit_reverse(index as nat, log2_of(size as nat)),
        r < size,
{
    let bits = log2_strict(size);
    proof {
        lemma_log2_of_pow2(bits as nat);
        vstd::arithmetic::power::lemma_pow0(2);
    }
    if size == 1 {
        assert(bits == 0) by {
            if bits > 0 {
                lemma_pow2_strictly_increases(0, bits as nat);
            }
        }
        return 0;
    }
    let mut r: usize = 0;
    let mut x: usize = index;
    let mut i: usize = 0;
    while i < bits
        invariant
            i <= bits,
            pow2(bits as nat) == size,
            r < pow2(i as nat),
            r * pow2((bits - i) as nat) + bit_reverse(x as nat, (bits - i) as nat) == bit_reverse(index as nat, bits as nat),
        decreases bits - i,
    {
        let ghost k = (bits - i) as nat;
        proof {
            lemma_pow2_unfold(k);
            lemma_pow2_unfold((i + 1) as nat);
            if i + 1 < bits {
                lemma_pow2_strictly_increases((i + 1) as nat, bits as nat);
            }
            let pk1 = pow2((k - 1) as nat);
            assert(r * pow2(k) == 2 * r * pk1) by (nonlinear_arith)
                requires
                    pow2(k) == 2 * pk1,
            ;
            assert((2 * r + x % 2) * pk1 == 2 * r * pk1 + (x % 2) * pk1) by (nonlinear_arith);
        }
        r = 2 * r + x % 2;
        x = x / 2;
        i = i + 1;
    }
    proof {
        lemma_bit_reverse_bound(index as nat, bits as nat);
        vstd::arithmetic::power::lemma_pow0(2);
        assert(pow2(0) == 1);
        assert(r * pow2(0) == r);
        assert(bit_reverse(x as nat, 0) == 0);
    }
    r
}

/// Reorders `v` by the bit-reversal permutation of its indices.
pub fn permute(v: &mut Vec<u64>)
    requires
        old(v)@.len() == 0 || is_power_of_two(old(v)@.len() as nat),
    ensures
        final(v)@.len() == old(v)@.len(),
        forall|i: int|
            0 <= i < old(v)@.len() ==> #[trigger] final(v)@[i] == old(v)@[bit_reverse(
                i as nat,
                log2_of(old(v)@.len() as nat),
            ) as int],
{
    let n = v.len();
    let src = v.clone();
    let mut i: usize = 0;
    while i < n
        invariant
            n == src@.len(),
            n == v@.len(),
            src@ == old(v)@,
            n == 0 || is_power_of_two(n as nat),
            i <= n,
            forall|i2: int|
                0 <= i2 < i ==> #[trigger] v@[i2] == src@[bit_reverse(i2 as nat, log2_of(n as nat)) as int],
        decreases n - i,
    {
        let j = permute_index(n, i);
        v.set(i, src[j]);
        i = i + 1;
    }
}

/// `g^0, g^1, ..., g^(count-1)`.
fn powers(g: u64, count: usize) -> (r: Vec<u64>)
    requires
        is_elem(g),
    ensures
        r@.len() == count,
        forall|i: int| 0 <= i < count ==> #[trigger] r@[i] == power_spec(g as int, i as nat),
{
    let mut r: Vec<u64> = Vec::new();
    let mut x: u64 = 1;
    let mut i: usize = 0;
    while i < count
        invariant
            i <= count,
            is_elem(g),
            is_elem(x),
            x == power_spec(g as int, i as nat),
            r@.len() == i,
            forall|k: int| 0 <= k < i ==> #[trigger] r@[k] == power_spec(g as int, k as nat),
        decreases count - i,
    {
        r.push(x);
        x = fmul(x, g);
        i = i + 1;
    }
    r
}

/// For `n = 2^n_log`, `n / 2` is zero or a power of two with logarithm `n_log - 1`.
proof fn lemma_half(n: nat, n_log: nat)
    requires
        pow2(n_log) == n,
    ensures
        n / 2 == 0 || is_power_of_two(n / 2),
        n / 2 > 0 ==> log2_of(n / 2) == n_log - 1,
{
    if n_log > 0 {
        lemma_pow2_unfold(n_log);
        lemma_log2_of_pow2((n_log - 1) as nat);
    } else {
        vstd::arithmetic::power::lemma_pow0(2);
    }
}

/// The powers `g^i` for `i < domain_size / 2`, bit-reversed.
fn permuted_powers(g: u64, domain_size: usize, Ghost(n_log): Ghost<nat>) -> (r: Vec<u64>)
    requires
        is_elem(g),
        pow2(n_log) == domain_size,
    ensures
        r@.len() == domain_size / 2,
        forall|i: int|
            0 <= i < r@.len() ==> #[trigger] r@[i] == power_spec(g as int, bit_reverse(i as nat, (n_log - 1) as nat)),
{
    let mut v = powers(g, domain_size / 2);
    proof {
        lemma_half(domain_size as nat, n_log);
    }
    permute(&mut v);
    proof {
        assert forall|i: int| 0 <= i < v@.len() implies #[trigger] v@[i] == power_spec(
            g as int,
            bit_reverse(i as nat, (n_log - 1) as nat),
        ) by {
            lemma_bit_reverse_bound(i as nat, log2_of((domain_size / 2) as nat));
            lemma_log2_of_pow2((n_log - 1) as nat);
            lemma_pow2_unfold(n_log);
        }
    }
    v
}

/// The first half of the powers of the generator `w` of the subgroup of
/// order `domain_size`, in bit-reversed order: entry `i` is `w^bit_reverse(i)`.
pub fn get_twiddles(domain_size: usize) -> (r: Vec<u64>)
    requires
        is_power_of_two(domain_size as nat),
        domain_size <= pow2(TWO_ADICITY as nat),
    ensures
        r@.len() == domain_size / 2,
        forall|i: int|
            0 <= i < r@.len() ==> #[trigger] r@[i] == power_spec(
                primitive_root_spec(log2_of(domain_size as nat)),
                bit_reverse(i as nat, (log2_of(domain_size as nat) - 1) as nat),
            ),
{
    let n_log = log2_strict(domain_size);
    proof {
        lemma_log2_of_pow2(n_log as nat);
        if n_log > TWO_ADICITY {
            lemma_pow2_strictly_increases(TWO_ADICITY as nat, n_log as nat);
        }
    }
    let root = primitive_root_of_unity(n_log);
    permuted_powers(root, domain_size, Ghost(n_log as nat))
}

/// The first half of the powers of the inverse generator `w^(n-1)` of the
/// subgroup of order `n = domain_size`, in bit-reversed order.
pub fn get_inv_twiddles(domain_size: usize) -> (r: Vec<u64>)
    requires
        is_power_of_two(domain_size as nat),
        domain_size <= pow2(TWO_ADICITY as nat),
    ensures
        r@.len() == domain_size / 2,
        forall|i: int|
            0 <= i < r@.len() ==> #[trigger] r@[i] == power_spec(
                exp_spec(primitive_root_spec(log2_of(domain_size as nat)), (domain_size - 1) as nat),
                bit_reverse(i as nat, (log2_of(domain_size as nat) - 1) as nat),
            ),
{
    let n_log = log2_strict(domain_size);
    proof {
        lemma_log2_of_pow2(n_log as nat);
        lemma_pow2_pos(n_log as nat);
        if n_log > TWO_ADICITY {
            lemma_pow2_strictly_increases(TWO_ADICITY as nat, n_log as nat);
        }
    }
    let root = primitive_root_of_unity(n_log);
    let inv_root = exp_u64(root, domain_size as u64 - 1);
    permuted_powers(inv_root, domain_size, Ghost(n_log as nat))
}

} // verus!
