//! Integer logarithms, through `plonky2_util`.
use vstd::arithmetic::power::lemma_pow0;
use vstd::arithmetic::power2::{lemma_pow2_unfold, pow2};
use vstd::prelude::*;

verus! {

/// Number of binary digits of `m` (zero for `m == 0`).
pub open spec fn bit_length(m: nat) -> nat
    decreases m,
{
    if m == 0 {
        0
    } else {
        1 + bit_length(m / 2)
    }
}

/// `ceil(log2(n))`: the binary length of `n - 1`, zero for `n <= 1`.
pub open spec fn log2_ceil_spec(n: nat) -> nat {
    if n == 0 {
        0
    } else {
        bit_length((n - 1) as nat)
    }
}

/// `n` is `2^k` for some `k`.
pub open spec fn is_power_of_two(n: nat) -> bool {
    exists|k: nat| pow2(k) == n
}

/// Relies on `plonky2_util::log2_ceil`, which returns
/// `usize::BITS - n.saturating_sub(1).leading_zeros()`: the binary length of `n - 1`.
#[verifier::external_body]
pub(crate) fn log2_ceil(n: usize) -> (r: usize)
    ensures
        r == log2_ceil_spec(n as nat),
{
    plonky2_util::log2_ceil(n)
}

/// Relies on `plonky2_util::log2_strict`, which panics unless `n` is a power of
/// two and otherwise returns `n.trailing_zeros()`, the `k` with `2^k == n`.
#[verifier::external_body]
pub(crate) fn log2_strict(n: usize) -> (r: usize)
    requires
        is_power_of_two(n as nat),
    ensures
        pow2(r as nat) == n,
{
    plonky2_util::log2_strict(n)
}

/// `bit_length(m) <= k` exactly when `m < 2^k`.
pub proof fn lemma_bit_length_bound(m: nat, k: nat)
    ensures
        bit_length(m) <= k <==> m < pow2(k),
    decreases k,
{
    if k == 0 {
        assert(pow2(0) == 1) by {
            lemma_pow0(2);
        }
        if m > 0 {
            assert(bit_length(m) >= 1);
        }
    } else {
        lemma_pow2_unfold(k);
        lemma_bit_length_bound(m / 2, (k - 1) as nat);
        if m == 0 {
            vstd::arithmetic::power2::lemma_pow2_pos(k);
        }
    }
}

/// `log2(n)` for a power of two `n`: one less than its binary length.
pub open spec fn log2_of(n: nat) -> nat {
    (bit_length(n) - 1) as nat
}

/// The binary length of `2^k` is `k + 1`, so `log2_of(2^k) == k`.
pub proof fn lemma_log2_of_pow2(k: nat)
    ensures
        bit_length(pow2(k)) == k + 1,
        log2_of(pow2(k)) == k,
    decreases k,
{
    if k == 0 {
        lemma_pow0(2);
        assert(bit_length(0) == 0);
        assert(bit_length(1) == 1 + bit_length(0));
    } else {
        lemma_pow2_unfold(k);
        lemma_log2_of_pow2((k - 1) as nat);
        vstd::arithmetic::power2::lemma_pow2_pos(k);
        assert(pow2(k) / 2 == pow2((k - 1) as nat));
    }
}

} // verus!
