//! The Fiat-Shamir transcript: a duplex sponge in overwrite mode, generic over
//! its permutation. Observed values are buffered and absorbed `SPONGE_RATE` at
//! a time; challenges are squeezed from the state, and any new observation
//! discards the challenges squeezed but not yet used.
use crate::bundle::MerkleCap;
use crate::field::{is_elem, ExtElem};
use vstd::prelude::*;

verus! {

/// Number of elements of the sponge state.
pub const SPONGE_WIDTH: usize = 12;

/// Number of state elements absorbed or squeezed at a time.
pub const SPONGE_RATE: usize = 8;

/// `perm` can be applied to any full state and returns a full state.
pub open spec fn permutation_ok<F: Fn(Vec<u64>) -> Vec<u64>>(perm: &F) -> bool {
    &&& forall|s: Vec<u64>| s@.len() == SPONGE_WIDTH ==> #[trigger] perm.requires((s,))
    &&& forall|s: Vec<u64>, r: Vec<u64>| #[trigger] perm.ensures((s,), r) ==> r@.len() == SPONGE_WIDTH
    &&& forall|s: Vec<u64>, r: Vec<u64>, i: int|
        #[trigger] perm.ensures((s,), r) && 0 <= i < r@.len() ==> is_elem(#[trigger] r@[i])
}

/// The state with its first elements overwritten by `inputs`.
pub open spec fn overwrite(state: Seq<u64>, inputs: Seq<u64>) -> Seq<u64> {
    inputs + state.subrange(inputs.len() as int, state.len() as int)
}

/// The elements of a Merkle cap, digest after digest.
pub open spec fn cap_elements(cap: Seq<[u64; 4]>) -> Seq<u64> {
    Seq::new(4 * cap.len(), |i: int| cap[i / 4][i % 4])
}

/// The transcript's state.
pub struct Challenger {
    pub sponge_state: Vec<u64>,
    pub input_buffer: Vec<u64>,
    pub output_buffer: Vec<u64>,
}

impl Challenger {
    pub open spec fn wf(&self) -> bool {
        &&& self.sponge_state@.len() == SPONGE_WIDTH
        &&& self.input_buffer@.len() < SPONGE_RATE
        &&& self.output_buffer@.len() <= SPONGE_RATE
        &&& forall|i: int| 0 <= i < self.output_buffer@.len() ==> is_elem(#[trigger] self.output_buffer@[i])
    }

    /// `next` is `self` after one duplexing with `perm`: the pending inputs
    /// overwrite the start of the state, the permutation is applied, and the
    /// output buffer is refilled from the start of the new state.
    pub open spec fn duplexed<F: Fn(Vec<u64>) -> Vec<u64>>(&self, next: Challenger, perm: &F) -> bool {
        &&& next.input_buffer@.len() == 0
        &&& next.output_buffer@ == next.sponge_state@.subrange(0, SPONGE_RATE as int)
        &&& exists|v: Vec<u64>|
            v@ == overwrite(self.sponge_state@, self.input_buffer@) && #[trigger] perm.ensures((v,), next.sponge_state)
    }

    /// A transcript that has observed nothing.
    pub fn new() -> (r: Self)
        ensures
            r.wf(),
            r.sponge_state@ == Seq::new(SPONGE_WIDTH as nat, |i: int| 0u64),
            r.input_buffer@.len() == 0,
            r.output_buffer@.len() == 0,
    {
        let mut state: Vec<u64> = Vec::new();
        let mut i: usize = 0;
        while i < SPONGE_WIDTH
            invariant
                i <= SPONGE_WIDTH,
                state@ == Seq::new(i as nat, |k: int| 0u64),
            decreases SPONGE_WIDTH - i,
        {
            state.push(0);
            i = i + 1;
            assert(state@ =~= Seq::new(i as nat, |k: int| 0u64));
        }
        Challenger { sponge_state: state, input_buffer: Vec::new(), output_buffer: Vec::new() }
    }

    fn duplexing<F: Fn(Vec<u64>) -> Vec<u64>>(&mut self, perm: &F)
        requires
            old(self).sponge_state@.len() == SPONGE_WIDTH,
            old(self).input_buffer@.len() <= SPONGE_RATE,
            permutation_ok(perm),
        ensures
            final(self).wf(),
            old(self).duplexed(*final(self), perm),
    {
        let n = self.input_buffer.len();
        let mut state: Vec<u64> = Vec::new();
        let mut i: usize = 0;
        while i < SPONGE_WIDTH
            invariant
                i <= SPONGE_WIDTH,
                n == self.input_buffer@.len(),
                n <= SPONGE_RATE,
                self.sponge_state@.len() == SPONGE_WIDTH,
                state@ =~= overwrite(self.sponge_state@, self.input_buffer@).subrange(0, i as int),
            decreases SPONGE_WIDTH - i,
        {
            if i < n {
                state.push(self.input_buffer[i]);
            } else {
                state.push(self.sponge_state[i]);
            }
            i = i + 1;
        }
        assert(state@ =~= overwrite(self.sponge_state@, self.input_buffer@));
        let ghost v = state;
        let permuted = perm(state);
        assert(forall|j: int| 0 <= j < permuted@.len() ==> is_elem(#[trigger] permuted@[j]));
        let mut out: Vec<u64> = Vec::new();
        let mut k: usize = 0;
        while k < SPONGE_RATE
            invariant
                k <= SPONGE_RATE,
                permuted@.len() == SPONGE_WIDTH,
                forall|j: int| 0 <= j < permuted@.len() ==> is_elem(#[trigger] permuted@[j]),
                out@ =~= permuted@.subrange(0, k as int),
            decreases SPONGE_RATE - k,
        {
            out.push(permuted[k]);
            k = k + 1;
        }
        self.sponge_state = permuted;
        self.input_buffer = Vec::new();
        self.output_buffer = out;
    }

    /// `next` is `self` after absorbing `element`.
    pub open spec fn observe_step<F: Fn(Vec<u64>) -> Vec<u64>>(&self, next: Challenger, element: u64, perm: &F) -> bool {
        if self.input_buffer@.len() + 1 < SPONGE_RATE {
            &&& next.sponge_state == self.sponge_state
            &&& next.input_buffer@ == self.input_buffer@.push(element)
            &&& next.output_buffer@.len() == 0
        } else {
            self.duplexed_with(self.input_buffer@.push(element), next, perm)
        }
    }

    /// Absorbs one field element. Challenges squeezed before it are discarded.
    pub fn observe_element<F: Fn(Vec<u64>) -> Vec<u64>>(&mut self, element: u64, perm: &F)
        requires
            old(self).wf(),
            permutation_ok(perm),
        ensures
            final(self).wf(),
            old(self).observe_step(*final(self), element, perm),
    {
        self.output_buffer = Vec::new();
        self.input_buffer.push(element);
        if self.input_buffer.len() == SPONGE_RATE {
            self.duplexing(perm);
        }
    }

    /// `next` is a duplexing of the state with `inputs` pending.
    pub open spec fn duplexed_with<F: Fn(Vec<u64>) -> Vec<u64>>(&self, inputs: Seq<u64>, next: Challenger, perm: &F) -> bool {
        &&& next.input_buffer@.len() == 0
        &&& next.output_buffer@ == next.sponge_state@.subrange(0, SPONGE_RATE as int)
        &&& exists|v: Vec<u64>| v@ == overwrite(self.sponge_state@, inputs) && #[trigger] perm.ensures((v,), next.sponge_state)
    }

    /// `next` and `r` are `self` after drawing the challenge `r`: the last
    /// unused output, after a duplexing where inputs are pending or every
    /// output has been used.
    pub open spec fn challenge_step<F: Fn(Vec<u64>) -> Vec<u64>>(&self, next: Challenger, r: u64, perm: &F) -> bool {
        if self.input_buffer@.len() > 0 || self.output_buffer@.len() == 0 {
            exists|mid: Challenger|
                #[trigger] self.duplexed(mid, perm) && r == mid.output_buffer@.last() && next.output_buffer@
                    == mid.output_buffer@.drop_last() && next.sponge_state == mid.sponge_state
                    && next.input_buffer@.len() == 0
        } else {
            &&& r == self.output_buffer@.last()
            &&& next.output_buffer@ == self.output_buffer@.drop_last()
            &&& next.sponge_state == self.sponge_state
            &&& next.input_buffer@ == self.input_buffer@
        }
    }

    /// Draws one challenge.
    pub fn get_challenge<F: Fn(Vec<u64>) -> Vec<u64>>(&mut self, perm: &F) -> (r: u64)
        requires
            old(self).wf(),
            permutation_ok(perm),
        ensures
            final(self).wf(),
            is_elem(r),
            old(self).challenge_step(*final(self), r, perm),
    {
        if self.input_buffer.len() > 0 || self.output_buffer.len() == 0 {
            self.duplexing(perm);
            let ghost mid = *self;
            let r = self.output_buffer.pop().unwrap();
            assert(old(self).duplexed(mid, perm));
            r
        } else {
            self.output_buffer.pop().unwrap()
        }
    }

    /// `end` is `self` after drawing the challenges `r`, one after the other.
    pub open spec fn draws<F: Fn(Vec<u64>) -> Vec<u64>>(&self, end: Challenger, r: Seq<u64>, perm: &F) -> bool {
        exists|states: Seq<Challenger>|
            states.len() == r.len() + 1 && states[0] == *self && states.last() == end && forall|i: int|
                0 <= i < r.len() ==> #[trigger] states[i].challenge_step(states[i + 1], r[i], perm)
    }

    /// `end` is `self` after absorbing `elems`, one after the other.
    pub open spec fn observes<F: Fn(Vec<u64>) -> Vec<u64>>(&self, end: Challenger, elems: Seq<u64>, perm: &F) -> bool {
        exists|states: Seq<Challenger>|
            states.len() == elems.len() + 1 && states[0] == *self && states.last() == end && forall|i: int|
                0 <= i < elems.len() ==> #[trigger] states[i].observe_step(states[i + 1], elems[i], perm)
    }

    /// Draws `n` challenges, one after the other.
    pub fn get_n_challenges<F: Fn(Vec<u64>) -> Vec<u64>>(&mut self, n: usize, perm: &F) -> (r: Vec<u64>)
        requires
            old(self).wf(),
            permutation_ok(perm),
        ensures
            final(self).wf(),
            r@.len() == n,
            forall|i: int| 0 <= i < n ==> is_elem(#[trigger] r@[i]),
            old(self).draws(*final(self), r@, perm),
    {
        let mut r: Vec<u64> = Vec::new();
        let ghost mut states: Seq<Challenger> = seq![*self];
        let mut i: usize = 0;
        while i < n
            invariant
                i <= n,
                self.wf(),
                permutation_ok(perm),
                r@.len() == i,
                forall|k: int| 0 <= k < i ==> is_elem(#[trigger] r@[k]),
                states.len() == i + 1,
                states[0] == *old(self),
                states[i as int] == *self,
                forall|k: int| 0 <= k < i ==> #[trigger] states[k].challenge_step(states[k + 1], r@[k], perm),
            decreases n - i,
        {
            let c = self.get_challenge(perm);
            r.push(c);
            proof {
                states = states.push(*self);
            }
            i = i + 1;
        }
        assert(states.last() == *self);
        r
    }

    /// Draws an element of the extension from two challenges.
    pub fn get_extension_challenge<F: Fn(Vec<u64>) -> Vec<u64>>(&mut self, perm: &F) -> (r: ExtElem)
        requires
            old(self).wf(),
            permutation_ok(perm),
        ensures
            final(self).wf(),
            r.wf(),
            old(self).draws(*final(self), seq![r.c0, r.c1], perm),
    {
        let c0 = self.get_challenge(perm);
        let ghost mid = *self;
        let c1 = self.get_challenge(perm);
        let r = ExtElem { c0, c1 };
        let ghost states = seq![*old(self), mid, *self];
        assert(states[0].challenge_step(states[1], r.c0, perm));
        assert(states[1].challenge_step(states[2], r.c1, perm));
        let ghost cs = seq![r.c0, r.c1];
        assert(cs[0] == r.c0 && cs[1] == r.c1 && cs.len() == 2);
        assert(states.len() == 3 && states[0] == *old(self) && states[1] == mid && states[2] == *self);
        assert(states.last() == *self);
        assert(forall|i: int| 0 <= i < cs.len() ==> #[trigger] states[i].challenge_step(states[i + 1], cs[i], perm));
        assert(old(self).draws(*self, cs, perm));
        r
    }

    /// Absorbs every element of every digest of a Merkle cap, in order.
    pub fn observe_cap<F: Fn(Vec<u64>) -> Vec<u64>>(&mut self, cap: &MerkleCap, perm: &F)
        requires
            old(self).wf(),
            permutation_ok(perm),
        ensures
            final(self).wf(),
            old(self).observes(*final(self), cap_elements(cap@), perm),
    {
        let ghost elems = cap_elements(cap@);
        let ghost mut states: Seq<Challenger> = seq![*self];
        let mut i: usize = 0;
        while i < cap.len()
            invariant
                i <= cap@.len(),
                elems == cap_elements(cap@),
                self.wf(),
                permutation_ok(perm),
                states.len() == 4 * i + 1,
                states[0] == *old(self),
                states.last() == *self,
                forall|k: int| 0 <= k < 4 * i ==> #[trigger] states[k].observe_step(states[k + 1], elems[k], perm),
            decreases cap.len() - i,
        {
            let digest = cap[i];
            let mut k: usize = 0;
            while k < 4
                invariant
                    k <= 4,
                    i < cap@.len(),
                    digest == cap@[i as int],
                    elems == cap_elements(cap@),
                    self.wf(),
                    permutation_ok(perm),
                    states.len() == 4 * i + k + 1,
                    states[0] == *old(self),
                    states.last() == *self,
                    forall|m: int| 0 <= m < 4 * i + k ==> #[trigger] states[m].observe_step(states[m + 1], elems[m], perm),
                decreases 4 - k,
            {
                assert(elems[4 * i + k] == digest[k as int]) by {
                    assert((4 * i + k) / 4 == i as int && (4 * i + k) % 4 == k as int) by (nonlinear_arith)
                        requires k < 4;
                }
                self.observe_element(digest[k], perm);
                proof {
                    states = states.push(*self);
                }
                k = k + 1;
            }
            i = i + 1;
        }
        assert(old(self).observes(*self, elems, perm));
    }

    /// `next` is `self` compacted: pending inputs absorbed, unused outputs dropped.
    pub open spec fn compacted<F: Fn(Vec<u64>) -> Vec<u64>>(&self, next: Challenger, perm: &F) -> bool {
        &&& next.input_buffer@.len() == 0
        &&& next.output_buffer@.len() == 0
        &&& self.input_buffer@.len() == 0 ==> next.sponge_state == self.sponge_state
        &&& self.input_buffer@.len() > 0 ==> exists|mid: Challenger|
            #[trigger] self.duplexed(mid, perm) && next.sponge_state == mid.sponge_state
    }

    /// Absorbs the pending inputs, if any, and discards unused outputs, so that
    /// prover and verifier draw the next challenges from the same state.
    pub fn compact<F: Fn(Vec<u64>) -> Vec<u64>>(&mut self, perm: &F)
        requires
            old(self).wf(),
            permutation_ok(perm),
        ensures
            final(self).wf(),
            old(self).compacted(*final(self), perm),
    {
        if self.input_buffer.len() > 0 {
            self.duplexing(perm);
            let ghost mid = *self;
            assert(old(self).duplexed(mid, perm));
        }
        self.output_buffer = Vec::new();
    }
}

/// `perm` gives equal outputs on equal states.
pub open spec fn deterministic<F: Fn(Vec<u64>) -> Vec<u64>>(perm: &F) -> bool {
    forall|s1: Vec<u64>, s2: Vec<u64>, r1: Vec<u64>, r2: Vec<u64>|
        #![trigger perm.ensures((s1,), r1), perm.ensures((s2,), r2)]
        perm.ensures((s1,), r1) && perm.ensures((s2,), r2) && s1@ == s2@ ==> r1@ == r2@
}

/// The two transcripts hold the same values.
pub open spec fn same_view(a: Challenger, b: Challenger) -> bool {
    &&& a.sponge_state@ == b.sponge_state@
    &&& a.input_buffer@ == b.input_buffer@
    &&& a.output_buffer@ == b.output_buffer@
}

proof fn lemma_duplex_deterministic<F: Fn(Vec<u64>) -> Vec<u64>>(
    a: Challenger,
    b: Challenger,
    inputs: Seq<u64>,
    a2: Challenger,
    b2: Challenger,
    perm: &F,
)
    requires
        deterministic(perm),
        a.sponge_state@ == b.sponge_state@,
        a.duplexed_with(inputs, a2, perm),
        b.duplexed_with(inputs, b2, perm),
    ensures
        same_view(a2, b2),
{
    let va = choose|v: Vec<u64>| v@ == overwrite(a.sponge_state@, inputs) && #[trigger] perm.ensures((v,), a2.sponge_state);
    let vb = choose|v: Vec<u64>| v@ == overwrite(b.sponge_state@, inputs) && #[trigger] perm.ensures((v,), b2.sponge_state);
    assert(va@ =~= vb@);
    assert(perm.ensures((va,), a2.sponge_state) && perm.ensures((vb,), b2.sponge_state));
    assert(a2.sponge_state@ == b2.sponge_state@);
    assert(a2.input_buffer@ =~= b2.input_buffer@);
}

proof fn lemma_challenge_step_deterministic<F: Fn(Vec<u64>) -> Vec<u64>>(
    a: Challenger,
    b: Challenger,
    a2: Challenger,
    b2: Challenger,
    r1: u64,
    r2: u64,
    perm: &F,
)
    requires
        deterministic(perm),
        same_view(a, b),
        a.challenge_step(a2, r1, perm),
        b.challenge_step(b2, r2, perm),
    ensures
        r1 == r2,
        same_view(a2, b2),
{
    if a.input_buffer@.len() > 0 || a.output_buffer@.len() == 0 {
        let ma = choose|mid: Challenger|
            #[trigger] a.duplexed(mid, perm) && r1 == mid.output_buffer@.last() && a2.output_buffer@
                == mid.output_buffer@.drop_last() && a2.sponge_state == mid.sponge_state && a2.input_buffer@.len() == 0;
        let mb = choose|mid: Challenger|
            #[trigger] b.duplexed(mid, perm) && r2 == mid.output_buffer@.last() && b2.output_buffer@
                == mid.output_buffer@.drop_last() && b2.sponge_state == mid.sponge_state && b2.input_buffer@.len() == 0;
        lemma_duplex_deterministic(a, b, a.input_buffer@, ma, mb, perm);
        assert(a2.input_buffer@ =~= b2.input_buffer@);
    }
}

proof fn lemma_observe_step_deterministic<F: Fn(Vec<u64>) -> Vec<u64>>(
    a: Challenger,
    b: Challenger,
    a2: Challenger,
    b2: Challenger,
    e: u64,
    perm: &F,
)
    requires
        deterministic(perm),
        same_view(a, b),
        a.observe_step(a2, e, perm),
        b.observe_step(b2, e, perm),
    ensures
        same_view(a2, b2),
{
    if a.input_buffer@.len() + 1 < SPONGE_RATE {
        assert(a2.output_buffer@ =~= b2.output_buffer@);
    } else {
        lemma_duplex_deterministic(a, b, a.input_buffer@.push(e), a2, b2, perm);
    }
}

proof fn lemma_draw_chain<F: Fn(Vec<u64>) -> Vec<u64>>(
    sa: Seq<Challenger>,
    sb: Seq<Challenger>,
    r1: Seq<u64>,
    r2: Seq<u64>,
    k: int,
    perm: &F,
)
    requires
        deterministic(perm),
        r1.len() == r2.len(),
        sa.len() == r1.len() + 1,
        sb.len() == r2.len() + 1,
        same_view(sa[0], sb[0]),
        forall|i: int| 0 <= i < r1.len() ==> #[trigger] sa[i].challenge_step(sa[i + 1], r1[i], perm),
        forall|i: int| 0 <= i < r2.len() ==> #[trigger] sb[i].challenge_step(sb[i + 1], r2[i], perm),
        0 <= k <= r1.len(),
    ensures
        same_view(sa[k], sb[k]),
        forall|i: int| 0 <= i < k ==> r1[i] == r2[i],
    decreases k,
{
    if k > 0 {
        lemma_draw_chain(sa, sb, r1, r2, k - 1, perm);
        let i = k - 1;
        assert(sa[i].challenge_step(sa[i + 1], r1[i], perm));
        assert(sb[i].challenge_step(sb[i + 1], r2[i], perm));
        lemma_challenge_step_deterministic(sa[i], sb[i], sa[i + 1], sb[i + 1], r1[i], r2[i], perm);
    }
}

proof fn lemma_observe_chain<F: Fn(Vec<u64>) -> Vec<u64>>(
    sa: Seq<Challenger>,
    sb: Seq<Challenger>,
    elems: Seq<u64>,
    k: int,
    perm: &F,
)
    requires
        deterministic(perm),
        sa.len() == elems.len() + 1,
        sb.len() == elems.len() + 1,
        same_view(sa[0], sb[0]),
        forall|i: int| 0 <= i < elems.len() ==> #[trigger] sa[i].observe_step(sa[i + 1], elems[i], perm),
        forall|i: int| 0 <= i < elems.len() ==> #[trigger] sb[i].observe_step(sb[i + 1], elems[i], perm),
        0 <= k <= elems.len(),
    ensures
        same_view(sa[k], sb[k]),
    decreases k,
{
    if k > 0 {
        lemma_observe_chain(sa, sb, elems, k - 1, perm);
        let i = k - 1;
        assert(sa[i].observe_step(sa[i + 1], elems[i], perm));
        assert(sb[i].observe_step(sb[i + 1], elems[i], perm));
        lemma_observe_step_deterministic(sa[i], sb[i], sa[i + 1], sb[i + 1], elems[i], perm);
    }
}

/// Replaying a transcript: from equal states, absorbing the same values and
/// then drawing as many challenges gives the same challenges and equal
/// states, provided the permutation is a function. This is what lets the
/// verifier rederive the prover's challenges from the proof alone.
pub proof fn lemma_transcript_replay<F: Fn(Vec<u64>) -> Vec<u64>>(
    a: Challenger,
    b: Challenger,
    a_mid: Challenger,
    b_mid: Challenger,
    a_end: Challenger,
    b_end: Challenger,
    observed: Seq<u64>,
    r1: Seq<u64>,
    r2: Seq<u64>,
    perm: &F,
)
    requires
        deterministic(perm),
        same_view(a, b),
        a.observes(a_mid, observed, perm),
        b.observes(b_mid, observed, perm),
        a_mid.draws(a_end, r1, perm),
        b_mid.draws(b_end, r2, perm),
        r1.len() == r2.len(),
    ensures
        r1 == r2,
        same_view(a_end, b_end),
{
    let oa = choose|states: Seq<Challenger>|
        states.len() == observed.len() + 1 && states[0] == a && states.last() == a_mid && forall|i: int|
            0 <= i < observed.len() ==> #[trigger] states[i].observe_step(states[i + 1], observed[i], perm);
    let ob = choose|states: Seq<Challenger>|
        states.len() == observed.len() + 1 && states[0] == b && states.last() == b_mid && forall|i: int|
            0 <= i < observed.len() ==> #[trigger] states[i].observe_step(states[i + 1], observed[i], perm);
    lemma_observe_chain(oa, ob, observed, observed.len() as int, perm);
    let da = choose|states: Seq<Challenger>|
        states.len() == r1.len() + 1 && states[0] == a_mid && states.last() == a_end && forall|i: int|
            0 <= i < r1.len() ==> #[trigger] states[i].challenge_step(states[i + 1], r1[i], perm);
    let db = choose|states: Seq<Challenger>|
        states.len() == r2.len() + 1 && states[0] == b_mid && states.last() == b_end && forall|i: int|
            0 <= i < r2.len() ==> #[trigger] states[i].challenge_step(states[i + 1], r2[i], perm);
    lemma_draw_chain(da, db, r1, r2, r1.len() as int, perm);
    assert(r1 =~= r2);
}

/// The elements of a list of Merkle caps, cap after cap.
pub open spec fn caps_elements(caps: Seq<MerkleCap>) -> Seq<u64>
    decreases caps.len(),
{
    if caps.len() == 0 {
        Seq::empty()
    } else {
        caps_elements(caps.drop_last()) + cap_elements(caps.last()@)
    }
}

/// Absorbing `e1` then `e2` is absorbing `e1 + e2`.
pub proof fn lemma_observes_concat<F: Fn(Vec<u64>) -> Vec<u64>>(
    a: Challenger,
    b: Challenger,
    c: Challenger,
    e1: Seq<u64>,
    e2: Seq<u64>,
    perm: &F,
)
    requires
        a.observes(b, e1, perm),
        b.observes(c, e2, perm),
    ensures
        a.observes(c, e1 + e2, perm),
{
    let s1 = choose|states: Seq<Challenger>|
        states.len() == e1.len() + 1 && states[0] == a && states.last() == b && forall|i: int|
            0 <= i < e1.len() ==> #[trigger] states[i].observe_step(states[i + 1], e1[i], perm);
    let s2 = choose|states: Seq<Challenger>|
        states.len() == e2.len() + 1 && states[0] == b && states.last() == c && forall|i: int|
            0 <= i < e2.len() ==> #[trigger] states[i].observe_step(states[i + 1], e2[i], perm);
    let s = s1 + s2.drop_first();
    let e = e1 + e2;
    assert forall|i: int| 0 <= i < e.len() implies #[trigger] s[i].observe_step(s[i + 1], e[i], perm) by {
        if i < e1.len() {
            assert(s[i] == s1[i]);
            assert(s[i + 1] == s1[i + 1]);
        } else {
            let j = i - e1.len();
            assert(s[i] == s2[j]);
            assert(s[i + 1] == s2[j + 1]);
            assert(e[i] == e2[j]);
        }
    }
    assert(s.last() == c);
}

/// Absorbs the trace caps of every table, in table order.
pub fn observe_trace_caps<F: Fn(Vec<u64>) -> Vec<u64>>(challenger: &mut Challenger, perm: &F, caps: &Vec<MerkleCap>)
    requires
        old(challenger).wf(),
        permutation_ok(perm),
    ensures
        final(challenger).wf(),
        old(challenger).observes(*final(challenger), caps_elements(caps@), perm),
{
    let ghost start = *challenger;
    assert(start.observes(start, Seq::<u64>::empty(), perm)) by {
        let states = seq![start];
        assert(states.last() == start);
    }
    let mut t: usize = 0;
    while t < caps.len()
        invariant
            t <= caps@.len(),
            challenger.wf(),
            permutation_ok(perm),
            start == *old(challenger),
            start.observes(*challenger, caps_elements(caps@.subrange(0, t as int)), perm),
        decreases caps.len() - t,
    {
        let ghost before = *challenger;
        challenger.observe_cap(&caps[t], perm);
        proof {
            lemma_observes_concat(
                start,
                before,
                *challenger,
                caps_elements(caps@.subrange(0, t as int)),
                cap_elements(caps@[t as int]@),
                perm,
            );
            assert(caps@.subrange(0, t + 1).drop_last() =~= caps@.subrange(0, t as int));
        }
        t = t + 1;
    }
    assert(caps@.subrange(0, caps@.len() as int) =~= caps@);
}

} // verus!
