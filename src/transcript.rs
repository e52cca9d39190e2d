//! The fixed order of the tables and of the Fiat-Shamir transcript.
use vstd::prelude::*;

verus! {

/// Number of tables, each proved separately.
pub const NUM_TABLES: usize = 12;

/// Transcript steps of one table.
pub const TABLE_STEPS: usize = 8;

/// The tables, in the fixed order that binds them into the transcript.
#[derive(Clone, Copy, Debug, PartialEq, Eq, Structural)]
pub enum Table {
    Cpu,
    Memory,
    Bitwise,
    Cmp,
    RangeCheck,
    Poseidon,
    PoseidonChunk,
    StorageAccess,
    Tape,
    SCCall,
    Program,
    ProgChunk,
}

impl Table {
    pub open spec fn index_spec(self) -> nat {
        match self {
            Table::Cpu => 0,
            Table::Memory => 1,
            Table::Bitwise => 2,
            Table::Cmp => 3,
            Table::RangeCheck => 4,
            Table::Poseidon => 5,
            Table::PoseidonChunk => 6,
            Table::StorageAccess => 7,
            Table::Tape => 8,
            Table::SCCall => 9,
            Table::Program => 10,
            Table::ProgChunk => 11,
        }
    }

    /// The table's position in the fixed order.
    pub fn index(self) -> (r: usize)
        ensures
            r == self.index_spec(),
            r < NUM_TABLES,
    {
        match self {
            Table::Cpu => 0,
            Table::Memory => 1,
            Table::Bitwise => 2,
            Table::Cmp => 3,
            Table::RangeCheck => 4,
            Table::Poseidon => 5,
            Table::PoseidonChunk => 6,
            Table::StorageAccess => 7,
            Table::Tape => 8,
            Table::SCCall => 9,
            Table::Program => 10,
            Table::ProgChunk => 11,
        }
    }

    /// The table at position `i` of the fixed order.
    pub fn from_index(i: usize) -> (r: Option<Table>)
        ensures
            r is Some <==> i < NUM_TABLES,
            r matches Some(t) ==> t.index_spec() == i,
    {
        match i {
            0 => Some(Table::Cpu),
            1 => Some(Table::Memory),
            2 => Some(Table::Bitwise),
            3 => Some(Table::Cmp),
            4 => Some(Table::RangeCheck),
            5 => Some(Table::Poseidon),
            6 => Some(Table::PoseidonChunk),
            7 => Some(Table::StorageAccess),
            8 => Some(Table::Tape),
            9 => Some(Table::SCCall),
            10 => Some(Table::Program),
            11 => Some(Table::ProgChunk),
            _ => None,
        }
    }
}

/// One operation on the Fiat-Shamir transcript.
#[derive(Clone, Copy, Debug, PartialEq, Eq, Structural)]
pub enum TranscriptStep {
    /// Observe the Merkle cap of a table's trace commitment.
    ObserveTraceCap { table: usize },
    /// Draw the challenges shared by every cross-table lookup.
    DrawLookupChallenges,
    /// Flush the transcript's buffers before a table's own challenges.
    Compact { table: usize },
    /// Draw the table's permutation challenge sets (possibly none).
    DrawPermutationChallenges { table: usize, sets: usize },
    /// Observe the cap of the merged permutation and lookup `Z` commitment.
    ObserveZsCap { table: usize },
    /// Draw the constraint-combination challenges.
    DrawAlphas { table: usize },
    /// Observe the cap of the quotient commitment.
    ObserveQuotientCap { table: usize },
    /// Draw the out-of-domain point.
    DrawZeta { table: usize },
    /// Observe the opened values.
    ObserveOpenings { table: usize },
    /// Run the low-degree test on the three commitments.
    ProveOpenings { table: usize },
}

/// The step at position `k` of the transcript: every trace cap, the lookup
/// challenges, then for each table in order its `TABLE_STEPS` steps.
pub open spec fn step_at(permutation_sets: Seq<usize>, k: int) -> TranscriptStep {
    if k < NUM_TABLES {
        TranscriptStep::ObserveTraceCap { table: k as usize }
    } else if k == NUM_TABLES {
        TranscriptStep::DrawLookupChallenges
    } else {
        let t = (k - NUM_TABLES - 1) / (TABLE_STEPS as int);
        let p = (k - NUM_TABLES - 1) % (TABLE_STEPS as int);
        let table = t as usize;
        if p == 0 {
            TranscriptStep::Compact { table }
        } else if p == 1 {
            TranscriptStep::DrawPermutationChallenges { table, sets: permutation_sets[t] }
        } else if p == 2 {
            TranscriptStep::ObserveZsCap { table }
        } else if p == 3 {
            TranscriptStep::DrawAlphas { table }
        } else if p == 4 {
            TranscriptStep::ObserveQuotientCap { table }
        } else if p == 5 {
            TranscriptStep::DrawZeta { table }
        } else if p == 6 {
            TranscriptStep::ObserveOpenings { table }
        } else {
            TranscriptStep::ProveOpenings { table }
        }
    }
}

pub open spec fn transcript_len() -> nat {
    (NUM_TABLES + 1 + NUM_TABLES * TABLE_STEPS) as nat
}

/// The whole transcript of a proof, given how many permutation challenge
/// sets each table draws.
pub open spec fn transcript_spec(permutation_sets: Seq<usize>) -> Seq<TranscriptStep> {
    Seq::new(transcript_len(), |k: int| step_at(permutation_sets, k))
}

/// The sequence of transcript operations that the prover performs and the
/// verifier replays, given how many permutation challenge sets each table
/// draws (zero for a table without permutation checks).
pub fn transcript_schedule(permutation_sets: &Vec<usize>) -> (r: Vec<TranscriptStep>)
    requires
        permutation_sets@.len() == NUM_TABLES,
    ensures
        r@ == transcript_spec(permutation_sets@),
{
    let mut r: Vec<TranscriptStep> = Vec::new();
    let mut t: usize = 0;
    while t < NUM_TABLES
        invariant
            t <= NUM_TABLES,
            r@ =~= transcript_spec(permutation_sets@).subrange(0, t as int),
        decreases NUM_TABLES - t,
    {
        r.push(TranscriptStep::ObserveTraceCap { table: t });
        t = t + 1;
    }
    r.push(TranscriptStep::DrawLookupChallenges);
    let mut t: usize = 0;
    while t < NUM_TABLES
        invariant
            t <= NUM_TABLES,
            permutation_sets@.len() == NUM_TABLES,
            r@ =~= transcript_spec(permutation_sets@).subrange(0, NUM_TABLES + 1 + t * TABLE_STEPS),
        decreases NUM_TABLES - t,
    {
        let base = NUM_TABLES + 1 + t * TABLE_STEPS;
        r.push(TranscriptStep::Compact { table: t });
        r.push(TranscriptStep::DrawPermutationChallenges { table: t, sets: permutation_sets[t] });
        r.push(TranscriptStep::ObserveZsCap { table: t });
        r.push(TranscriptStep::DrawAlphas { table: t });
        r.push(TranscriptStep::ObserveQuotientCap { table: t });
        r.push(TranscriptStep::DrawZeta { table: t });
        r.push(TranscriptStep::ObserveOpenings { table: t });
        r.push(TranscriptStep::ProveOpenings { table: t });
        assert forall|k: int| base <= k < base + TABLE_STEPS implies #[trigger] r@[k] == step_at(permutation_sets@, k) by {
            assert((k - NUM_TABLES - 1) / (TABLE_STEPS as int) == t) by (nonlinear_arith)
                requires base == NUM_TABLES + 1 + t * TABLE_STEPS, base <= k < base + TABLE_STEPS;
            assert((k - NUM_TABLES - 1) % (TABLE_STEPS as int) == k - base) by (nonlinear_arith)
                requires base == NUM_TABLES + 1 + t * TABLE_STEPS, base <= k < base + TABLE_STEPS;
        }
        assert(r@ =~= transcript_spec(permutation_sets@).subrange(0, NUM_TABLES + 1 + (t + 1) * TABLE_STEPS));
        t = t + 1;
    }
    r
}

/// `step` occurs before position `k`.
pub open spec fn occurs_before(s: Seq<TranscriptStep>, k: int, step: TranscriptStep) -> bool {
    exists|m: int| 0 <= m < k && s[m] == step
}

/// Every trace cap has been observed before position `k`.
pub open spec fn all_trace_caps_before(s: Seq<TranscriptStep>, k: int) -> bool {
    forall|t: usize|
        t < NUM_TABLES ==> #[trigger] occurs_before(s, k, TranscriptStep::ObserveTraceCap { table: t })
}

/// Each challenge is drawn only after the commitments it binds to were observed.
pub open spec fn draws_follow_commitments(s: Seq<TranscriptStep>) -> bool {
    forall|k: int|
        0 <= k < s.len() ==> match #[trigger] s[k] {
            TranscriptStep::DrawLookupChallenges => all_trace_caps_before(s, k),
            TranscriptStep::DrawPermutationChallenges { table, sets } => all_trace_caps_before(s, k),
            TranscriptStep::DrawAlphas { table } => exists|m: int|
                0 <= m < k && #[trigger] s[m] == TranscriptStep::ObserveZsCap { table },
            TranscriptStep::DrawZeta { table } => exists|m: int|
                0 <= m < k && #[trigger] s[m] == TranscriptStep::ObserveQuotientCap { table },
            _ => true,
        }
}

/// In the transcript of every proof, no challenge is drawn before the
/// commitments it binds to are observed: lookup and permutation challenges
/// after every trace cap, a table's `alphas` after its `Z` cap, and its
/// out-of-domain point after its quotient cap.
pub proof fn lemma_draws_follow_commitments(permutation_sets: Seq<usize>)
    requires
        permutation_sets.len() == NUM_TABLES,
    ensures
        draws_follow_commitments(transcript_spec(permutation_sets)),
{
    let s = transcript_spec(permutation_sets);
    assert forall|k: int| 0 <= k < s.len() implies match #[trigger] s[k] {
        TranscriptStep::DrawLookupChallenges => all_trace_caps_before(s, k),
        TranscriptStep::DrawPermutationChallenges { table, sets } => all_trace_caps_before(s, k),
        TranscriptStep::DrawAlphas { table } => exists|m: int|
            0 <= m < k && #[trigger] s[m] == TranscriptStep::ObserveZsCap { table },
        TranscriptStep::DrawZeta { table } => exists|m: int|
            0 <= m < k && #[trigger] s[m] == TranscriptStep::ObserveQuotientCap { table },
        _ => true,
    } by {
        if k >= NUM_TABLES {
            assert forall|t: usize| t < NUM_TABLES implies #[trigger] occurs_before(
                s,
                k,
                TranscriptStep::ObserveTraceCap { table: t },
            ) by {
                assert(s[t as int] == TranscriptStep::ObserveTraceCap { table: t });
            }
        }
        if k > NUM_TABLES {
            let j = k - NUM_TABLES - 1;
            let t = j / (TABLE_STEPS as int);
            let p = j % (TABLE_STEPS as int);
            if p == 3 || p == 5 {
                let m = k - 1;
                assert((m - NUM_TABLES - 1) / (TABLE_STEPS as int) == t && (m - NUM_TABLES - 1) % (
                TABLE_STEPS as int) == p - 1) by (nonlinear_arith)
                    requires
                        m == k - 1,
                        j == k - NUM_TABLES - 1,
                        t == j / (TABLE_STEPS as int),
                        p == j % (TABLE_STEPS as int),
                        p >= 1,
                        j >= 0,
                ;
                assert(0 <= m < k);
                if p == 3 {
                    assert(s[k] == TranscriptStep::DrawAlphas { table: t as usize });
                    assert(s[m] == TranscriptStep::ObserveZsCap { table: t as usize });
                } else {
                    assert(s[k] == TranscriptStep::DrawZeta { table: t as usize });
                    assert(s[m] == TranscriptStep::ObserveQuotientCap { table: t as usize });
                }
            }
        }
    }
}

} // verus!
