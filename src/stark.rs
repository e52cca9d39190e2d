//! Configuration, errors and the algebraic checks of one table's proof.
use crate::field::{ext_exp_power_of_2, ext_exp_pow2_spec, ext_is_one, ExtElem};
use crate::util::{lemma_bit_length_bound, log2_ceil, log2_ceil_spec};
use vstd::arithmetic::power2::pow2;
use vstd::prelude::*;

verus! {

/// Parameters of the low-degree test.
#[derive(Clone, Copy, Debug, PartialEq, Eq, Structural)]
pub struct FriConfig {
    /// `log2` of the blowup factor of the low-degree extension.
    pub rate_bits: usize,
    /// Height of the Merkle cap exposed by each commitment.
    pub cap_height: usize,
    pub proof_of_work_bits: u32,
    pub num_query_rounds: usize,
}

/// Options that trade soundness against proving cost.
#[derive(Clone, Copy, Debug, PartialEq, Eq, Structural)]
pub struct StarkConfig {
    /// How many independent challenges of each kind are drawn.
    pub num_challenges: usize,
    pub fri_config: FriConfig,
}

/// Why a proof could not be constructed or was rejected.
#[derive(Clone, Copy, Debug, PartialEq, Eq, Structural)]
pub enum ProofError {
    /// A constraint degree needs a larger blowup than the configured rate.
    DegreeTooHigh,
    /// A table produced no permutation or lookup `Z` polynomial to commit.
    NoCtlData,
    /// The combined constraints are not divisible by the vanishing polynomial.
    QuotientNotDivisible,
    /// The out-of-domain point lies in the trace subgroup.
    OpeningPointInSubgroup,
    /// The openings do not satisfy the quotient identity.
    QuotientIdentityMismatch,
    /// The final values of a lookup's running products disagree.
    LookupMismatch,
    /// A trace or proof is shaped differently from what its table declares.
    ShapeMismatch,
    /// A step of a table's proof was taken out of its order.
    OutOfOrder,
    /// A value that must be divided by has no inverse: it is zero.
    NotInvertible,
}

/// The quotient degree bits are within the rate.
pub open spec fn degree_supported(quotient_degree_factor: nat, rate_bits: nat) -> bool {
    log2_ceil_spec(quotient_degree_factor) <= rate_bits
}

/// `ceil(log2(quotient_degree_factor))`, the extra bits of blowup that the
/// quotient needs; fails with `DegreeTooHigh` where it exceeds `rate_bits`.
pub fn quotient_degree_bits(quotient_degree_factor: usize, rate_bits: usize) -> (r: Result<
    usize,
    ProofError,
>)
    ensures
        r is Err <==> !degree_supported(quotient_degree_factor as nat, rate_bits as nat),
        match r {
            Ok(bits) => bits == log2_ceil_spec(quotient_degree_factor as nat) && bits <= rate_bits,
            Err(e) => e == ProofError::DegreeTooHigh,
        },
{
    let bits = log2_ceil(quotient_degree_factor);
    if bits <= rate_bits {
        Ok(bits)
    } else {
        Err(ProofError::DegreeTooHigh)
    }
}

/// A quotient-degree factor is accepted exactly when it is at most the
/// blowup `2^rate_bits`; any larger factor is refused, never truncated.
pub proof fn lemma_degree_bound(quotient_degree_factor: nat, rate_bits: nat)
    ensures
        degree_supported(quotient_degree_factor, rate_bits) <==> quotient_degree_factor <= pow2(
            rate_bits,
        ),
{
    if quotient_degree_factor > 0 {
        lemma_bit_length_bound((quotient_degree_factor - 1) as nat, rate_bits);
    } else {
        vstd::arithmetic::power2::lemma_pow2_pos(rate_bits);
    }
}

/// `zeta` lies in the subgroup of order `2^degree_bits`.
pub open spec fn in_trace_subgroup(zeta: ExtElem, degree_bits: nat) -> bool {
    ext_exp_pow2_spec(zeta, degree_bits).is_one_spec()
}

/// Refuses an out-of-domain point that lies in the trace subgroup, that is
/// one with `zeta^(2^degree_bits) == 1`.
pub fn check_opening_point(zeta: ExtElem, degree_bits: usize) -> (r: Result<(), ProofError>)
    requires
        zeta.wf(),
    ensures
        r is Err <==> in_trace_subgroup(zeta, degree_bits as nat),
        r is Err ==> r == Err::<(), ProofError>(ProofError::OpeningPointInSubgroup),
{
    let z_n = ext_exp_power_of_2(zeta, degree_bits);
    if ext_is_one(z_n) {
        Err(ProofError::OpeningPointInSubgroup)
    } else {
        Ok(())
    }
}

} // verus!
