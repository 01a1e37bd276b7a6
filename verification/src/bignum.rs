//! Trusted bridge to the arbitrary-precision integers of the `curv` crate.
//!
//! Everything in this module is believed rather than proved: each contract
//! states only what the sources of `curv` (GMP backend) show of the
//! corresponding call. All verified arithmetic in the rest of the crate is
//! carried out through these items.

use curv::arithmetic::traits::{Integer, Modulo, Primes, Samplable};
use curv::cryptographic_primitives::hashing::DigestExt;
use curv::BigInt;
use sha2::{Digest, Sha256};
use vstd::arithmetic::power::pow;
use vstd::arithmetic::power2::pow2;
use vstd::prelude::*;

verus! {

/// The mathematical value held by a `curv::BigInt`, a signed
/// arbitrary-precision integer.
pub uninterp spec fn big_value(b: BigInt) -> int;

#[verifier::external_type_specification]
#[verifier::external_body]
pub struct ExBigInt(BigInt);

/// Relies on `<BigInt as Clone>::clone`: a clone holds the same value.
pub assume_specification[ <BigInt as Clone>::clone ](b: &BigInt) -> (r: BigInt)
    ensures
        big_value(r) == big_value(*b),
;

/// Relies on `From<u64> for BigInt`: the conversion keeps the value.
#[verifier::external_body]
pub(crate) fn big_from_u64(v: u64) -> (r: BigInt)
    ensures
        big_value(r) == v as int,
{
    BigInt::from(v)
}

/// Relies on `PartialEq for BigInt`: equality of `BigInt`s is equality of
/// their values.
#[verifier::external_body]
pub(crate) fn big_eq(a: &BigInt, b: &BigInt) -> (r: bool)
    ensures
        r == (big_value(*a) == big_value(*b)),
{
    a == b
}

/// Relies on `PartialOrd for BigInt`: `BigInt`s are ordered by value.
#[verifier::external_body]
pub(crate) fn big_lt(a: &BigInt, b: &BigInt) -> (r: bool)
    ensures
        r == (big_value(*a) < big_value(*b)),
{
    a < b
}

/// Relies on `Mul for &BigInt`: the exact product.
#[verifier::external_body]
pub(crate) fn big_mul(a: &BigInt, b: &BigInt) -> (r: BigInt)
    ensures
        big_value(r) == big_value(*a) * big_value(*b),
{
    a * b
}

/// Relies on `Sub for &BigInt`: the exact difference.
#[verifier::external_body]
pub(crate) fn big_sub(a: &BigInt, b: &BigInt) -> (r: BigInt)
    ensures
        big_value(r) == big_value(*a) - big_value(*b),
{
    a - b
}

/// Relies on `Add for &BigInt`: the exact sum.
#[verifier::external_body]
pub(crate) fn big_add(a: &BigInt, b: &BigInt) -> (r: BigInt)
    ensures
        big_value(r) == big_value(*a) + big_value(*b),
{
    a + b
}

/// Relies on `Integer::div_floor`: floor division, which for a positive
/// divisor agrees with the Euclidean quotient.
#[verifier::external_body]
pub(crate) fn big_div_floor(a: &BigInt, b: &BigInt) -> (r: BigInt)
    requires
        big_value(*b) > 0,
    ensures
        big_value(r) == big_value(*a) / big_value(*b),
{
    a.div_floor(b)
}

/// Relies on `Integer::mod_floor`: the remainder of floor division, which
/// for a positive divisor `b` lies in `[0, b)` whatever the sign of `a`.
#[verifier::external_body]
pub(crate) fn big_mod_floor(a: &BigInt, b: &BigInt) -> (r: BigInt)
    requires
        big_value(*b) > 0,
    ensures
        big_value(r) == big_value(*a) % big_value(*b),
{
    a.mod_floor(b)
}

/// Relies on `Modulo::mod_mul`: it reduces both factors and the product with
/// `mod_floor`, so for a positive modulus the result is `(a * b) mod m`.
#[verifier::external_body]
pub(crate) fn big_mod_mul(a: &BigInt, b: &BigInt, m: &BigInt) -> (r: BigInt)
    requires
        big_value(*m) > 0,
    ensures
        big_value(r) == (big_value(*a) * big_value(*b)) % big_value(*m),
{
    BigInt::mod_mul(a, b, m)
}

/// Relies on `Modulo::mod_pow` (GMP's `powm`): the canonical
/// residue of `base^exponent` for a non-negative base and exponent and a
/// positive modulus.
#[verifier::external_body]
pub(crate) fn big_mod_pow(base: &BigInt, exponent: &BigInt, m: &BigInt) -> (r: BigInt)
    requires
        big_value(*base) >= 0,
        big_value(*exponent) >= 0,
        big_value(*m) > 0,
    ensures
        big_value(r) == pow(big_value(*base), big_value(*exponent) as nat) % big_value(*m),
{
    BigInt::mod_pow(base, exponent, m)
}

/// Relies on `Samplable::sample`: a random integer drawn from
/// `[0, 2^bit_size)`. Nothing more is claimed: each call may return another
/// value.
#[verifier::external_body]
pub(crate) fn big_sample(bit_size: usize) -> (r: BigInt)
    ensures
        0 <= big_value(r) < pow2(bit_size as nat),
{
    BigInt::sample(bit_size)
}

/// Relies on `Samplable::strict_sample`: a random integer of exactly
/// `bit_size` bits, drawn from `[2^(bit_size-1), 2^bit_size)`.
#[verifier::external_body]
pub(crate) fn big_strict_sample(bit_size: usize) -> (r: BigInt)
    requires
        bit_size >= 1,
    ensures
        pow2((bit_size - 1) as nat) <= big_value(r) < pow2(bit_size as nat),
{
    BigInt::strict_sample(bit_size)
}

/// The value that `Primes::next_prime` returns on a given value.
pub uninterp spec fn next_prime_of(c: int) -> int;

/// Relies on `Primes::next_prime` (GMP's `mpz_nextprime`): a deterministic
/// search for the next probable prime strictly above the argument, whose
/// primality test draws its bases from a default-seeded state, so the
/// result is a function of the argument alone. For a non-negative argument
/// the result exceeds it and is at least two; a prime above two is odd.
#[verifier::external_body]
pub(crate) fn big_next_prime(c: &BigInt) -> (r: BigInt)
    requires
        big_value(*c) >= 0,
    ensures
        big_value(r) == next_prime_of(big_value(*c)),
        big_value(r) > big_value(*c),
        big_value(r) >= 2,
        big_value(*c) >= 2 ==> big_value(r) % 2 == 1,
{
    c.next_prime()
}

/// The value that the SHA-256 digest of a sequence of big integers reads
/// back as.
pub uninterp spec fn digest_of(inputs: Seq<int>) -> int;

/// Relies on sha2's `Sha256` through curv's `DigestExt`: each integer is fed
/// to the digest as the big-endian bytes of its magnitude and the digest is
/// read back as a non-negative integer, so the result depends on the
/// sequence of values alone.
#[verifier::external_body]
pub(crate) fn big_digest(inputs: &Vec<BigInt>) -> (r: BigInt)
    ensures
        big_value(r) == digest_of(inputs@.map_values(|b: BigInt| big_value(b))),
        big_value(r) >= 0,
{
    let mut hasher = Sha256::new();
    for b in inputs {
        hasher.input_bigint(b);
    }
    hasher.result_bigint()
}

} // verus!
