//! The derivers under the engine: the trusted-setup modulus, the
//! hash-to-group map, and the hash-to-prime map, together with the error
//! type that verification reports.

use curv::BigInt;
use vstd::arithmetic::div_mod::lemma_mod_bound;
use vstd::arithmetic::div_mod::lemma_mul_mod_noop_general;
use vstd::arithmetic::power2::{
    lemma2_to64, lemma_pow2_adds, lemma_pow2_strictly_increases, pow2,
};
use vstd::prelude::*;

use crate::bignum::{
    big_add, big_digest, big_from_u64, big_lt, big_mod_floor, big_mul, big_next_prime,
    big_strict_sample, big_sub, big_value, digest_of, next_prime_of,
};
use crate::SetupForVDF;

verus! {

/// Why a verification call failed.
#[derive(Clone, Copy, Debug, PartialEq, Eq)]
pub enum ErrorReason {
    /// The solved instance does not match the challenge it was checked
    /// against: a protocol mix-up, never a cryptographic failure.
    MisMatchedVDF,
    /// A residue out of range or a verification equation that does not
    /// hold: corruption, a wrong prover, or foreign parameters.
    VDFVerifyError,
}

/// The group element that hashing `(N, x)` lands on: the digest reduced
/// into `[1, N-1]`, so that no prover can choose its own starting element.
pub open spec fn group_elem_of(n: int, x: int) -> int {
    digest_of(seq![n, x]) % (n - 1) + 1
}

/// The challenge prime for `(N, t, g, y)`: the first probable prime above
/// the digest of the whole transcript. Binding it to `y` is the Fiat-Shamir
/// step that makes the proof answer this output and no other.
pub open spec fn challenge_of(n: int, t: u64, g: int, y: int) -> int {
    next_prime_of(digest_of(seq![n, t as int, g, y]))
}

/// Derives the starting group element from the modulus and the seed by a
/// one-way transform: `H(N, x) mod (N-1) + 1`, a deterministic element of
/// `(0, N)`.
pub fn h_g(N: &BigInt, x: &BigInt) -> (r: BigInt)
    requires
        big_value(*N) >= 2,
    ensures
        big_value(r) == group_elem_of(big_value(*N), big_value(*x)),
        1 <= big_value(r) < big_value(*N),
{
    let mut inputs: Vec<BigInt> = Vec::new();
    inputs.push(N.clone());
    inputs.push(x.clone());
    let h = big_digest(&inputs);
    proof {
        assert(inputs@.map_values(|b: BigInt| big_value(b)) =~= seq![
            big_value(*N),
            big_value(*x),
        ]);
    }
    let one = big_from_u64(1);
    let nm1 = big_sub(N, &one);
    let hm = big_mod_floor(&h, &nm1);
    proof {
        lemma_mod_bound(big_value(h), big_value(*N) - 1);
    }
    big_add(&hm, &one)
}

/// Derives the challenge prime from the setup, the group element and the
/// claimed output: the transcript `(N, t, g, y)` is digested and the first
/// probable prime above the digest is taken.
pub fn hash_to_prime(setup: &SetupForVDF, g: &BigInt, y: &BigInt) -> (r: BigInt)
    ensures
        big_value(r) == challenge_of(setup@.n, setup@.t, big_value(*g), big_value(*y)),
        big_value(r) >= 2,
{
    let mut inputs: Vec<BigInt> = Vec::new();
    inputs.push(setup.N.clone());
    inputs.push(big_from_u64(setup.t));
    inputs.push(g.clone());
    inputs.push(y.clone());
    let c = big_digest(&inputs);
    proof {
        assert(inputs@.map_values(|b: BigInt| big_value(b)) =~= seq![
            setup@.n,
            setup@.t as int,
            big_value(*g),
            big_value(*y),
        ]);
    }
    big_next_prime(&c)
}

/// `2^e` as a big integer, built by repeated doubling.
fn power_of_two(e: usize) -> (r: BigInt)
    ensures
        big_value(r) == pow2(e as nat),
{
    let two = big_from_u64(2);
    let mut acc = big_from_u64(1);
    let mut k: usize = 0;
    proof {
        lemma2_to64();
    }
    while k < e
        invariant
            k <= e,
            big_value(two) == 2,
            big_value(acc) == pow2(k as nat),
        decreases e - k,
    {
        acc = big_mul(&acc, &two);
        proof {
            lemma_pow2_adds(1, k as nat);
            lemma2_to64();
            assert(pow2((k + 1) as nat) == 2 * pow2(k as nat));
        }
        k = k + 1;
    }
    acc
}

/// Generates the trusted-setup modulus: the product of two probable primes
/// of half the requested bit length, each drawn with its top bit set,
/// redrawn until the product has exactly the requested bit length. Only
/// the product leaves this function; the factors are dropped here, so the
/// order of the group modulo the result stays unknown to every caller.
pub fn compute_rsa_modulus(bit_length: usize) -> (r: BigInt)
    requires
        4 <= bit_length,
        bit_length % 2 == 0,
    ensures
        big_value(r) % 2 == 1,
        pow2((bit_length - 1) as nat) <= big_value(r) < pow2(bit_length as nat),
        exists|p: int, q: int| 2 < p && 2 < q && big_value(r) == #[trigger] (p * q),
{
    let half = bit_length / 2;
    let lower = power_of_two(bit_length - 1);
    let upper = power_of_two(bit_length);
    // Two primes of exactly half the bit length multiply to the full bit
    // length roughly two times in five, so a handful of draws suffices; the
    // attempt bound only makes termination provable.
    let mut attempts: u64 = 65536;
    while attempts > 0
        invariant
            2 <= half,
            big_value(lower) == pow2((bit_length - 1) as nat),
            big_value(upper) == pow2(bit_length as nat),
        decreases attempts,
    {
        attempts = attempts - 1;
        let cp = big_strict_sample(half);
        let p = big_next_prime(&cp);
        let cq = big_strict_sample(half);
        let q = big_next_prime(&cq);
        let n = big_mul(&p, &q);
        if !big_lt(&n, &lower) && big_lt(&n, &upper) {
            proof {
                let pv = big_value(p);
                let qv = big_value(q);
                lemma2_to64();
                lemma_pow2_strictly_increases(0, (half - 1) as nat);
                assert(big_value(cp) >= 2);
                assert(big_value(cq) >= 2);
                lemma_mul_mod_noop_general(pv, qv, 2);
                assert(big_value(n) == pv * qv);
                assert(2 < pv && 2 < qv && big_value(n) == pv * qv);
            }
            return n;
        }
    }
    // Unreachable in practice: the square of `2^(bit_length/2) - 1` is an
    // odd composite of exactly the requested bit length, kept only so the
    // exhausted path is total under the same contract.
    let a = big_sub(&power_of_two(half), &big_from_u64(1));
    let n = big_mul(&a, &a);
    proof {
        let b = pow2(half as nat) as int;
        let av = b - 1;
        lemma_pow2_adds(2, (half - 2) as nat);
        vstd::arithmetic::power2::lemma_pow2_pos((half - 2) as nat);
        lemma2_to64();
        assert(b >= 4);
        lemma_pow2_adds(1, (half - 1) as nat);
        vstd::arithmetic::power2::lemma_pow2_pos((half - 1) as nat);
        assert(av % 2 == 1);
        lemma_mul_mod_noop_general(av, av, 2);
        lemma_pow2_adds(half as nat, half as nat);
        assert(half as nat + half as nat == bit_length as nat);
        lemma_pow2_adds(1, (bit_length - 1) as nat);
        let p1 = pow2((bit_length - 1) as nat) as int;
        assert(av * av >= p1 && av * av < b * b) by (nonlinear_arith)
            requires
                av == b - 1,
                b >= 4,
                2 * p1 == b * b,
        ;
        assert(2 < av && 2 < av && big_value(n) == av * av);
    }
    n
}

} // verus!
