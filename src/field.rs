//! Arithmetic in the Goldilocks prime field and in its quadratic extension.
use vstd::arithmetic::div_mod::{lemma_mod_add_multiples_vanish, lemma_small_mod};
use vstd::prelude::*;

verus! {

/// The Goldilocks prime `2^64 - 2^32 + 1`.
pub const ORDER: u64 = 0xFFFF_FFFF_0000_0001;

/// Non-residue `W` of the quadratic extension `F[X] / (X^2 - W)`.
pub const EXT_W: u64 = 7;

/// Generator of the multiplicative group, used as the coset shift.
pub const MULTIPLICATIVE_GROUP_GENERATOR: u64 = 7;

/// Largest `k` such that `2^k` divides `ORDER - 1`.
pub const TWO_ADICITY: usize = 32;

/// Generator of the subgroup of order `2^TWO_ADICITY`.
pub const POWER_OF_TWO_GENERATOR: u64 = 1753635133440165772;

pub open spec fn modulus() -> int {
    ORDER as int
}

/// A canonical field element.
pub open spec fn is_elem(a: u64) -> bool {
    a < ORDER
}

pub open spec fn add_spec(a: int, b: int) -> int {
    (a + b) % modulus()
}

pub open spec fn sub_spec(a: int, b: int) -> int {
    (a - b) % modulus()
}

pub open spec fn mul_spec(a: int, b: int) -> int {
    (a * b) % modulus()
}

/// `a^(2^k)`, by `k` squarings.
pub open spec fn exp_pow2_spec(a: int, k: nat) -> int
    decreases k,
{
    if k == 0 {
        a % modulus()
    } else {
        let h = exp_pow2_spec(a, (k - 1) as nat);
        mul_spec(h, h)
    }
}

/// `a^e`, by binary expansion of `e`.
pub open spec fn exp_spec(a: int, e: nat) -> int
    decreases e,
{
    if e == 0 {
        1
    } else {
        let h = exp_spec(a, e / 2);
        if e % 2 == 0 {
            mul_spec(h, h)
        } else {
            mul_spec(a, mul_spec(h, h))
        }
    }
}

/// `g^0, g^1, ..., g^(n-1)`: the `i`-th power of `g`, by repeated multiplication.
pub open spec fn power_spec(g: int, i: nat) -> int
    decreases i,
{
    if i == 0 {
        1
    } else {
        mul_spec(power_spec(g, (i - 1) as nat), g)
    }
}

/// `(a + b) mod p`.
pub fn fadd(a: u64, b: u64) -> (r: u64)
    requires
        is_elem(a),
        is_elem(b),
    ensures
        is_elem(r),
        r == add_spec(a as int, b as int),
{
    if a >= ORDER - b {
        proof {
            lemma_mod_add_multiples_vanish(a + b - modulus(), modulus());
            lemma_small_mod((a + b - ORDER) as nat, ORDER as nat);
        }
        a - (ORDER - b)
    } else {
        proof {
            lemma_small_mod((a + b) as nat, ORDER as nat);
        }
        a + b
    }
}

/// `(a - b) mod p`.
pub fn fsub(a: u64, b: u64) -> (r: u64)
    requires
        is_elem(a),
        is_elem(b),
    ensures
        is_elem(r),
        r == sub_spec(a as int, b as int),
{
    if a >= b {
        proof {
            lemma_small_mod((a - b) as nat, ORDER as nat);
        }
        a - b
    } else {
        proof {
            lemma_mod_add_multiples_vanish(a - b, modulus());
            lemma_small_mod((ORDER - b + a) as nat, ORDER as nat);
        }
        ORDER - b + a
    }
}

/// `(a * b) mod p`.
pub fn fmul(a: u64, b: u64) -> (r: u64)
    requires
        is_elem(a),
        is_elem(b),
    ensures
        is_elem(r),
        r == mul_spec(a as int, b as int),
{
    assert((a as int) * (b as int) <= 0xFFFF_FFFF_FFFF_FFFF * 0xFFFF_FFFF_FFFF_FFFF) by (nonlinear_arith)
        requires
            a < ORDER,
            b < ORDER,
    ;
    let wide: u128 = (a as u128) * (b as u128);
    assert(wide == (a as int) * (b as int));
    let r = (wide % (ORDER as u128)) as u64;
    r
}

/// `a^(2^k)`.
pub fn exp_power_of_2(a: u64, k: usize) -> (r: u64)
    requires
        is_elem(a),
    ensures
        is_elem(r),
        r == exp_pow2_spec(a as int, k as nat),
{
    let mut r = a;
    let mut i: usize = 0;
    proof {
        lemma_small_mod(a as nat, ORDER as nat);
    }
    while i < k
        invariant
            i <= k,
            is_elem(r),
            r == exp_pow2_spec(a as int, i as nat),
        decreases k - i,
    {
        r = fmul(r, r);
        i = i + 1;
    }
    r
}

/// `a^e`.
pub fn exp_u64(a: u64, e: u64) -> (r: u64)
    requires
        is_elem(a),
    ensures
        is_elem(r),
        r == exp_spec(a as int, e as nat),
    decreases e,
{
    if e == 0 {
        1
    } else {
        let h = exp_u64(a, e / 2);
        let sq = fmul(h, h);
        if e % 2 == 0 {
            sq
        } else {
            fmul(a, sq)
        }
    }
}

/// An element `c0 + c1 * X` of the quadratic extension `F[X] / (X^2 - 7)`.
#[derive(Clone, Copy, Debug, PartialEq, Eq, Structural)]
pub struct ExtElem {
    pub c0: u64,
    pub c1: u64,
}

impl ExtElem {
    pub open spec fn wf(&self) -> bool {
        is_elem(self.c0) && is_elem(self.c1)
    }

    pub open spec fn is_one_spec(&self) -> bool {
        self.c0 == 1 && self.c1 == 0
    }
}

pub open spec fn ext_mul_spec(a: ExtElem, b: ExtElem) -> ExtElem {
    ExtElem {
        c0: add_spec(
            mul_spec(a.c0 as int, b.c0 as int),
            mul_spec(EXT_W as int, mul_spec(a.c1 as int, b.c1 as int)),
        ) as u64,
        c1: add_spec(mul_spec(a.c0 as int, b.c1 as int), mul_spec(a.c1 as int, b.c0 as int)) as u64,
    }
}

/// `z^(2^k)` in the extension, by `k` squarings.
pub open spec fn ext_exp_pow2_spec(z: ExtElem, k: nat) -> ExtElem
    decreases k,
{
    if k == 0 {
        z
    } else {
        let h = ext_exp_pow2_spec(z, (k - 1) as nat);
        ext_mul_spec(h, h)
    }
}

/// Product in the extension.
pub fn ext_mul(a: ExtElem, b: ExtElem) -> (r: ExtElem)
    requires
        a.wf(),
        b.wf(),
    ensures
        r.wf(),
        r == ext_mul_spec(a, b),
{
    let c0 = fadd(fmul(a.c0, b.c0), fmul(EXT_W, fmul(a.c1, b.c1)));
    let c1 = fadd(fmul(a.c0, b.c1), fmul(a.c1, b.c0));
    ExtElem { c0, c1 }
}

/// `z^(2^k)` in the extension.
pub fn ext_exp_power_of_2(z: ExtElem, k: usize) -> (r: ExtElem)
    requires
        z.wf(),
    ensures
        r.wf(),
        r == ext_exp_pow2_spec(z, k as nat),
{
    let mut r = z;
    let mut i: usize = 0;
    while i < k
        invariant
            i <= k,
            r.wf(),
            r == ext_exp_pow2_spec(z, i as nat),
        decreases k - i,
    {
        r = ext_mul(r, r);
        i = i + 1;
    }
    r
}

/// Whether `z` is the multiplicative identity.
pub fn ext_is_one(z: ExtElem) -> (r: bool)
    ensures
        r == z.is_one_spec(),
{
    z.c0 == 1 && z.c1 == 0
}

/// The generator of the subgroup of order `2^n_log`:
/// `POWER_OF_TWO_GENERATOR^(2^(TWO_ADICITY - n_log))`.
pub open spec fn primitive_root_spec(n_log: nat) -> int {
    exp_pow2_spec(POWER_OF_TWO_GENERATOR as int, (TWO_ADICITY - n_log) as nat)
}

/// The generator of the subgroup of order `2^n_log`.
pub fn primitive_root_of_unity(n_log: usize) -> (r: u64)
    requires
        n_log <= TWO_ADICITY,
    ensures
        is_elem(r),
        r == primitive_root_spec(n_log as nat),
{
    exp_power_of_2(POWER_OF_TWO_GENERATOR, TWO_ADICITY - n_log)
}

/// `a^(p-2)`, which is the inverse of `a` for nonzero `a`.
pub open spec fn inverse_spec(a: int) -> int {
    exp_spec(a, (ORDER - 2) as nat)
}

/// `a * a^(p-2)` is one. This holds of every nonzero `a` by Fermat's
/// little theorem; here it is checked where it is needed.
pub open spec fn invertible(a: int) -> bool {
    mul_spec(a, inverse_spec(a)) == 1
}

/// `a^(p-2)` where it is the inverse of `a`, checked by multiplying back;
/// none otherwise (for zero).
pub fn checked_inverse(a: u64) -> (r: Option<u64>)
    requires
        is_elem(a),
    ensures
        r is Some <==> invertible(a as int),
        r matches Some(x) ==> is_elem(x) && x == inverse_spec(a as int) && mul_spec(a as int, x as int) == 1,
{
    let x = inverse(a);
    if fmul(a, x) == 1 {
        Some(x)
    } else {
        None
    }
}

/// Multiplication in the field is associative.
pub proof fn lemma_mul_assoc(a: int, b: int, c: int)
    ensures
        mul_spec(mul_spec(a, b), c) == mul_spec(a, mul_spec(b, c)),
{
    let m = modulus();
    vstd::arithmetic::div_mod::lemma_mul_mod_noop_left(a * b, c, m);
    vstd::arithmetic::div_mod::lemma_mul_mod_noop_right(a, b * c, m);
    vstd::arithmetic::mul::lemma_mul_is_associative(a, b, c);
}

/// `a^(p-2)`: the inverse of a nonzero `a` (and zero for zero).
pub fn inverse(a: u64) -> (r: u64)
    requires
        is_elem(a),
    ensures
        is_elem(r),
        r == inverse_spec(a as int),
{
    exp_u64(a, ORDER - 2)
}

pub open spec fn ext_add_spec(a: ExtElem, b: ExtElem) -> ExtElem {
    ExtElem { c0: add_spec(a.c0 as int, b.c0 as int) as u64, c1: add_spec(a.c1 as int, b.c1 as int) as u64 }
}

pub open spec fn ext_sub_spec(a: ExtElem, b: ExtElem) -> ExtElem {
    ExtElem { c0: sub_spec(a.c0 as int, b.c0 as int) as u64, c1: sub_spec(a.c1 as int, b.c1 as int) as u64 }
}

/// Sum in the extension.
pub fn ext_add(a: ExtElem, b: ExtElem) -> (r: ExtElem)
    requires
        a.wf(),
        b.wf(),
    ensures
        r.wf(),
        r == ext_add_spec(a, b),
{
    ExtElem { c0: fadd(a.c0, b.c0), c1: fadd(a.c1, b.c1) }
}

/// Difference in the extension.
pub fn ext_sub(a: ExtElem, b: ExtElem) -> (r: ExtElem)
    requires
        a.wf(),
        b.wf(),
    ensures
        r.wf(),
        r == ext_sub_spec(a, b),
{
    ExtElem { c0: fsub(a.c0, b.c0), c1: fsub(a.c1, b.c1) }
}

} // verus!
