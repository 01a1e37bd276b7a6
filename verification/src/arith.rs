//! Number-theoretic groundwork for the squaring loop, the long-division
//! loop, and the verification equation: how powers behave under a modulus
//! and how doubling interacts with quotient and remainder.

use vstd::arithmetic::div_mod::{
    lemma_fundamental_div_mod, lemma_fundamental_div_mod_converse_div,
    lemma_fundamental_div_mod_converse_mod, lemma_mod_bound, lemma_mul_mod_noop_general,
};
use vstd::arithmetic::power::{lemma_pow_adds, lemma_pow_mod_noop, lemma_pow_multiplies, pow};
use vstd::prelude::*;

verus! {

/// Multiplying two reduced powers of the same base and reducing again gives
/// the reduced power at the summed exponent.
pub proof fn lemma_mod_mul_pows(g: int, e1: nat, e2: nat, n: int)
    requires
        n > 0,
    ensures
        (pow(g, e1) % n) * (pow(g, e2) % n) % n == pow(g, e1 + e2) % n,
{
    lemma_mul_mod_noop_general(pow(g, e1), pow(g, e2), n);
    lemma_pow_adds(g, e1, e2);
}

/// Doubling a dividend advances its quotient and remainder by exactly the
/// long-division step: the new quotient gains twice the old one plus the
/// digit carried out of the doubled remainder, and the new remainder is the
/// doubled remainder reduced once more.
pub proof fn lemma_double_div_mod(p: int, l: int)
    requires
        l >= 1,
        p >= 0,
    ensures
        2 * p / l == 2 * (p / l) + 2 * (p % l) / l,
        2 * p % l == 2 * (p % l) % l,
{
    let q = p / l;
    let rr = p % l;
    lemma_fundamental_div_mod(p, l);
    lemma_mod_bound(p, l);
    let b = 2 * rr / l;
    let r2 = 2 * rr % l;
    lemma_fundamental_div_mod(2 * rr, l);
    lemma_mod_bound(2 * rr, l);
    assert(2 * p == (2 * q + b) * l + r2) by (nonlinear_arith)
        requires
            p == q * l + rr,
            2 * rr == b * l + r2,
    ;
    lemma_fundamental_div_mod_converse_div(2 * p, l, 2 * q + b, r2);
    lemma_fundamental_div_mod_converse_mod(2 * p, l, 2 * q + b, r2);
}

/// The algebra behind verification: with `T = q*l + r` split by division,
/// raising the reduced `g^q` to the `l` and multiplying by the reduced
/// `g^r` lands back on the reduced `g^T`.
pub proof fn lemma_proof_equation(g: int, e: nat, l: int, n: int)
    requires
        n > 0,
        l >= 1,
    ensures
        (pow(pow(g, (e as int / l) as nat) % n, l as nat) % n) * (pow(g, (e as int % l) as nat) % n)
            % n == pow(g, e) % n,
{
    let q = (e as int / l) as nat;
    let r = (e as int % l) as nat;
    lemma_mod_bound(e as int, l);
    lemma_pow_mod_noop(pow(g, q), l as nat, n);
    lemma_pow_multiplies(g, q, l as nat);
    lemma_mod_mul_pows(g, q * l as nat, r, n);
    lemma_fundamental_div_mod(e as int, l);
    assert(q * l as nat + r == e) by (nonlinear_arith)
        requires
            e as int == (e as int / l) * l + e as int % l,
            q == e as int / l,
            r == e as int % l,
            l >= 1,
    ;
}

} // verus!
