//! Assembling the data of one table's proof and the proof of all tables.
use crate::field::ExtElem;
use crate::stark::ProofError;
use crate::transcript::NUM_TABLES;
use vstd::prelude::*;

verus! {

/// A Merkle cap: the top layer of a Merkle tree, one digest per node.
pub type MerkleCap = Vec<[u64; 4]>;

/// Values of the committed polynomials at `zeta` and at `g * zeta`.
#[derive(Clone, Debug)]
pub struct StarkOpeningSet {
    pub local_values: Vec<ExtElem>,
    pub next_values: Vec<ExtElem>,
    pub permutation_ctl_zs: Vec<ExtElem>,
    pub permutation_ctl_zs_next: Vec<ExtElem>,
    /// The final values of the lookup running products, in the base field.
    pub ctl_zs_last: Vec<u64>,
    pub quotient_polys: Vec<ExtElem>,
}

/// The proof of one table.
#[derive(Clone, Debug)]
pub struct StarkProof {
    pub trace_cap: MerkleCap,
    pub permutation_ctl_zs_cap: MerkleCap,
    pub quotient_polys_cap: MerkleCap,
    pub openings: StarkOpeningSet,
    /// The serialized low-degree-test proof of the openings.
    pub opening_proof: Vec<u64>,
}

/// The proofs of all tables, in table order, with one compress challenge per
/// table and the public values.
#[derive(Clone, Debug)]
pub struct AllProof {
    pub stark_proofs: Vec<StarkProof>,
    pub compress_challenges: Vec<u64>,
    pub public_values: Vec<u64>,
}

impl AllProof {
    pub open spec fn wf(&self) -> bool {
        self.stark_proofs@.len() == NUM_TABLES && self.compress_challenges@.len() == NUM_TABLES
    }
}

/// A table's compress challenge, zero where it declares none.
pub open spec fn compress_or_zero(c: Option<u64>) -> u64 {
    match c {
        Some(v) => v,
        None => 0,
    }
}

/// Bundles the per-table proofs, given in table order, with each table's
/// optional compress challenge (zero by default) and the public values.
pub fn assemble_all_proof(
    stark_proofs: Vec<StarkProof>,
    compress: &Vec<Option<u64>>,
    public_values: Vec<u64>,
) -> (r: Result<AllProof, ProofError>)
    ensures
        r is Err <==> stark_proofs@.len() != NUM_TABLES || compress@.len() != NUM_TABLES,
        match r {
            Ok(p) => {
                &&& p.wf()
                &&& p.stark_proofs@ == stark_proofs@
                &&& p.public_values@ == public_values@
                &&& forall|i: int| 0 <= i < NUM_TABLES ==> #[trigger] p.compress_challenges@[i] == compress_or_zero(compress@[i])
            },
            Err(e) => e == ProofError::ShapeMismatch,
        },
{
    if stark_proofs.len() != NUM_TABLES || compress.len() != NUM_TABLES {
        return Err(ProofError::ShapeMismatch);
    }
    let mut compress_challenges: Vec<u64> = Vec::new();
    let mut i: usize = 0;
    while i < NUM_TABLES
        invariant
            i <= NUM_TABLES,
            compress@.len() == NUM_TABLES,
            compress_challenges@.len() == i,
            forall|k: int| 0 <= k < i ==> #[trigger] compress_challenges@[k] == compress_or_zero(compress@[k]),
        decreases NUM_TABLES - i,
    {
        let c = match compress[i] {
            Some(v) => v,
            None => 0,
        };
        compress_challenges.push(c);
        i = i + 1;
    }
    Ok(AllProof { stark_proofs, compress_challenges, public_values })
}

/// Merges a table's `Z` polynomials for one commitment: the permutation
/// checks' first, then the lookups'. Fails with `NoCtlData` when there is
/// none although the table declares permutation checks (`permutation_zs` is
/// present) or lookups (`declares_lookups`); a table that declares neither
/// gets an empty batch.
pub fn merge_z_polys(permutation_zs: Option<Vec<Vec<u64>>>, ctl_zs: Vec<Vec<u64>>, declares_lookups: bool) -> (r: Result<
    Vec<Vec<u64>>,
    ProofError,
>)
    ensures
        ({
            let perm = match permutation_zs {
                Some(p) => p@,
                None => Seq::<Vec<u64>>::empty(),
            };
            &&& r is Err <==> (permutation_zs is Some || declares_lookups) && perm.len() + ctl_zs@.len() == 0
            &&& match r {
                Ok(zs) => zs@ == perm + ctl_zs@,
                Err(e) => e == ProofError::NoCtlData,
            }
        }),
{
    let needs_zs = permutation_zs.is_some() || declares_lookups;
    let mut zs = match permutation_zs {
        Some(p) => p,
        None => Vec::new(),
    };
    let mut ctl = ctl_zs;
    zs.append(&mut ctl);
    if needs_zs && zs.len() == 0 {
        Err(ProofError::NoCtlData)
    } else {
        Ok(zs)
    }
}

/// A polynomial's coefficients from `len` on are all zero.
pub open spec fn fits_len(coeffs: Seq<u64>, len: int) -> bool {
    forall|k: int| len <= k < coeffs.len() ==> #[trigger] coeffs[k] == 0
}

/// Truncates each quotient polynomial (in coefficient form) to
/// `degree * factor` coefficients and splits it into `factor` chunks of
/// `degree` coefficients, all chunks of all polynomials in one list. Fails
/// with `QuotientNotDivisible` when a truncated coefficient is nonzero, which
/// means the division by the vanishing polynomial was not exact.
pub fn split_quotients(polys: &Vec<Vec<u64>>, degree: usize, factor: usize) -> (r: Result<
    Vec<Vec<u64>>,
    ProofError,
>)
    requires
        degree * factor <= usize::MAX,
        forall|i: int| 0 <= i < polys@.len() ==> degree * factor <= (#[trigger] polys@[i])@.len(),
    ensures
        r is Err <==> exists|i: int| 0 <= i < polys@.len() && !fits_len(#[trigger] polys@[i]@, degree * factor),
        match r {
            Ok(chunks) => {
                &&& chunks@.len() == polys@.len() * factor
                &&& forall|i: int, c: int|
                    0 <= i < polys@.len() && 0 <= c < factor ==> (#[trigger] chunks@[i * factor + c])@ == polys@[i]@.subrange(
                        c * degree,
                        (c + 1) * degree,
                    )
            },
            Err(e) => e == ProofError::QuotientNotDivisible,
        },
{
    let len = degree * factor;
    let mut chunks: Vec<Vec<u64>> = Vec::new();
    let mut i: usize = 0;
    while i < polys.len()
        invariant
            i <= polys@.len(),
            len == degree * factor,
            forall|i: int| 0 <= i < polys@.len() ==> degree * factor <= (#[trigger] polys@[i])@.len(),
            forall|k: int| 0 <= k < i ==> fits_len(#[trigger] polys@[k]@, len as int),
            chunks@.len() == i * factor,
            forall|i2: int, c: int|
                0 <= i2 < i && 0 <= c < factor ==> (#[trigger] chunks@[i2 * factor + c])@ == polys@[i2]@.subrange(
                    c * degree,
                    (c + 1) * degree,
                ),
        decreases polys.len() - i,
    {
        let p = &polys[i];
        let mut k: usize = len;
        while k < p.len()
            invariant
                i < polys@.len(),
                p == polys@[i as int],
                len == degree * factor,
                len <= k <= p@.len(),
                forall|m: int| len <= m < k ==> #[trigger] p@[m] == 0,
            decreases p.len() - k,
        {
            if p[k] != 0 {
                assert(!fits_len(polys@[i as int]@, len as int));
                assert(exists|i2: int| 0 <= i2 < polys@.len() && !fits_len(#[trigger] polys@[i2]@, degree * factor));
                return Err(ProofError::QuotientNotDivisible);
            }
            k = k + 1;
        }
        let mut c: usize = 0;
        while c < factor
            invariant
                c <= factor,
                i < polys@.len(),
                p == polys@[i as int],
                len == degree * factor,
                len <= p@.len(),
                chunks@.len() == i * factor + c,
                forall|i2: int, c2: int|
                    0 <= i2 < i && 0 <= c2 < factor ==> (#[trigger] chunks@[i2 * factor + c2])@ == polys@[i2]@.subrange(
                        c2 * degree,
                        (c2 + 1) * degree,
                    ),
                forall|c2: int|
                    0 <= c2 < c ==> (#[trigger] chunks@[i * factor + c2])@ == polys@[i as int]@.subrange(
                        c2 * degree,
                        (c2 + 1) * degree,
                    ),
            decreases factor - c,
        {
            assert((c + 1) * degree <= degree * factor) by (nonlinear_arith)
                requires
                    c < factor,
            ;
            assert(c * degree + degree == (c + 1) * degree) by (nonlinear_arith);
            let start = c * degree;
            let plen = p.len();
            let mut chunk: Vec<u64> = Vec::new();
            let mut k: usize = 0;
            while k < degree
                invariant
                    k <= degree,
                    start == c * degree,
                    plen == p@.len(),
                    start + degree <= plen,
                    chunk@ =~= p@.subrange(start as int, start + k),
                decreases degree - k,
            {
                chunk.push(p[start + k]);
                k = k + 1;
            }
            let ghost before = chunks@;
            chunks.push(chunk);
            assert forall|i2: int, c2: int|
                0 <= i2 < i && 0 <= c2 < factor implies (#[trigger] chunks@[i2 * factor + c2])@ == polys@[i2]@.subrange(
                    c2 * degree,
                    (c2 + 1) * degree,
                ) by {
                assert(i2 * factor + c2 < i * factor) by (nonlinear_arith)
                    requires
                        0 <= i2 < i,
                        0 <= c2 < factor,
                ;
                assert(chunks@[i2 * factor + c2] == before[i2 * factor + c2]);
            }
            c = c + 1;
        }
        assert((i + 1) * factor == i * factor + factor) by (nonlinear_arith);
        i = i + 1;
    }
    Ok(chunks)
}

} // verus!
