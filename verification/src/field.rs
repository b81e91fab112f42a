//! Field elements as canonical residues.
//!
//! The synthesis layer treats a field element as its canonical residue: a
//! `u64` strictly below the modulus `m` of the field. Every operation the
//! circuits need (addition, multiplication, injecting a small constant) is
//! modular arithmetic on residues. A prime modulus makes the residues a
//! field; the synthesis layer itself only needs `m >= 2`, so that `0` and
//! `1` are distinct residues.

use vstd::prelude::*;
use vstd::arithmetic::div_mod::lemma_small_mod;

verus! {

broadcast use vstd::arithmetic::div_mod::lemma_mod_division_less_than_divisor;

/// The sum of two residues, reduced modulo `m`.
pub open spec fn fadd(m: u64, a: u64, b: u64) -> u64 {
    (((a + b) % (m as int))) as u64
}

/// The product of two residues, reduced modulo `m`.
pub open spec fn fmul(m: u64, a: u64, b: u64) -> u64 {
    (((a * b) % (m as int))) as u64
}

/// The canonical residue of an arbitrary `u64`.
pub open spec fn fcanon(m: u64, x: u64) -> u64 {
    ((x as int % m as int)) as u64
}

pub proof fn lemma_fadd_bound(m: u64, a: u64, b: u64)
    requires
        m >= 1,
    ensures
        fadd(m, a, b) < m,
{
}

pub proof fn lemma_fmul_bound(m: u64, a: u64, b: u64)
    requires
        m >= 1,
    ensures
        fmul(m, a, b) < m,
{
}

pub proof fn lemma_fcanon_bound(m: u64, x: u64)
    requires
        m >= 1,
    ensures
        fcanon(m, x) < m,
{
}

/// Zero is the additive identity on residues.
pub proof fn lemma_fadd_zero(m: u64, a: u64)
    requires
        m >= 1,
        a < m,
    ensures
        fadd(m, 0, a) == a,
        fadd(m, a, 0) == a,
{
    lemma_small_mod(a as nat, m as nat);
}

/// One is the multiplicative identity on residues.
pub proof fn lemma_fmul_one(m: u64, a: u64)
    requires
        m >= 1,
        a < m,
    ensures
        fmul(m, 1, a) == a,
        fmul(m, a, 1) == a,
{
    lemma_small_mod(a as nat, m as nat);
}

/// Residue addition associates.
pub proof fn lemma_fadd_assoc(m: u64, a: u64, b: u64, c: u64)
    requires
        m >= 1,
        a < m,
        c < m,
    ensures
        fadd(m, fadd(m, a, b), c) == fadd(m, a, fadd(m, b, c)),
{
    let mi = m as int;
    lemma_small_mod(a as nat, m as nat);
    lemma_small_mod(c as nat, m as nat);
    vstd::arithmetic::div_mod::lemma_add_mod_noop(a + b, c as int, mi);
    vstd::arithmetic::div_mod::lemma_add_mod_noop(a as int, b + c, mi);
    assert(fadd(m, fadd(m, a, b), c) as int == (a + b + c) % mi);
    assert(fadd(m, a, fadd(m, b, c)) as int == (a + b + c) % mi);
}

/// Residue addition commutes.
pub proof fn lemma_fadd_comm(m: u64, a: u64, b: u64)
    ensures
        fadd(m, a, b) == fadd(m, b, a),
{
}

/// Residue multiplication distributes over residue addition.
pub proof fn lemma_fmul_distributes(m: u64, a: u64, b: u64, c: u64)
    requires
        m >= 1,
    ensures
        fmul(m, fadd(m, a, b), c) == fadd(m, fmul(m, a, c), fmul(m, b, c)),
{
    let mi = m as int;
    vstd::arithmetic::div_mod::lemma_mul_mod_noop_left(a + b, c as int, mi);
    vstd::arithmetic::mul::lemma_mul_is_distributive_add_other_way(c as int, a as int, b as int);
    vstd::arithmetic::div_mod::lemma_add_mod_noop(a as int * c as int, b as int * c as int, mi);
    assert(fmul(m, fadd(m, a, b), c) as int == (a as int * c + b as int * c) % mi);
    assert(fadd(m, fmul(m, a, c), fmul(m, b, c)) as int == (a as int * c + b as int * c) % mi);
}

/// Modular addition of residues.
pub fn add_mod(m: u64, a: u64, b: u64) -> (r: u64)
    requires
        m >= 1,
    ensures
        r == fadd(m, a, b),
        r < m,
{
    (((a as u128) + (b as u128)) % (m as u128)) as u64
}

/// Modular multiplication of residues.
pub fn mul_mod(m: u64, a: u64, b: u64) -> (r: u64)
    requires
        m >= 1,
    ensures
        r == fmul(m, a, b),
        r < m,
{
    proof {
        vstd::arithmetic::mul::lemma_mul_upper_bound(a as int, u64::MAX as int, b as int, u64::MAX as int);
    }
    (((a as u128) * (b as u128)) % (m as u128)) as u64
}

/// The residue of a small unsigned constant, as circuits inject constants
/// into linear combinations.
pub fn from_u32(m: u64, x: u32) -> (r: u64)
    requires
        m >= 1,
    ensures
        r == fcanon(m, x as u64),
        r < m,
{
    (x as u64) % m
}

} // verus!
