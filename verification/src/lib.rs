//! A verifiable delay function in the Wesolowski style: `t` strictly
//! sequential modular squarings in a group of hidden order, certified by a
//! short proof that a verifier checks with a single modular equation, in
//! time independent of `t`.

#![allow(non_snake_case)]

use curv::BigInt;
use vstd::arithmetic::div_mod::{
    lemma_basic_div, lemma_div_pos_is_pos, lemma_mod_bound, lemma_small_mod,
};
use vstd::arithmetic::power::{lemma_pow1, pow};
use vstd::arithmetic::power2::{
    lemma2_to64, lemma_pow2_adds, lemma_pow2_pos, lemma_pow2_strictly_increases, pow2,
};
use vstd::prelude::*;

use arith::{lemma_double_div_mod, lemma_mod_mul_pows};

mod arith;
mod bignum;
pub mod laws;
pub mod utilities;

use bignum::{big_eq, big_value};
use utilities::{challenge_of, group_elem_of, ErrorReason};

verus! {

/// Bit length of the trusted-setup modulus `N`, the system-wide security
/// parameter of the hidden-order group.
pub const BIT_LENGTH: usize = 4096;

/// Bit length of the challenge seed `x`, the per-instance entropy.
pub const SEED_LENGTH: usize = 256;

/// Marker type reserved for an ElGamal-style co-protocol over the same
/// hidden-order group; it carries no data and no operation yet.
pub struct ElGamal;

/// Marker type reserved for an exponent-ElGamal co-protocol over the same
/// hidden-order group; it carries no data and no operation yet.
pub struct ExponentElGamal;

/// Mathematical image of a [`SetupForVDF`]: the delay parameter and the
/// value of the modulus.
pub ghost struct SetupView {
    pub t: u64,
    pub n: int,
}

/// Mathematical image of an [`UnsolvedVDF`].
pub ghost struct UnsolvedView {
    pub x: int,
    pub setup: SetupView,
}

/// Mathematical image of a [`SolvedVDF`].
pub ghost struct SolvedView {
    pub instance: UnsolvedView,
    pub y: int,
    pub pi: int,
}

/// The public parameters fixed once per epoch: the delay parameter `t` and
/// the modulus `N`, an odd composite whose group order nobody knows.
#[derive(Clone)]
pub struct SetupForVDF {
    pub t: u64,
    pub N: BigInt,
}

/// One challenge: a fresh seed `x` paired with the setup it was drawn for.
#[derive(Clone)]
pub struct UnsolvedVDF {
    pub x: BigInt,
    pub setup: SetupForVDF,
}

/// The prover's answer: the claimed output `y` and the proof element `pi`,
/// both canonical residues modulo `N`, bound to the instance they answer.
#[derive(Clone)]
pub struct SolvedVDF {
    vdf_instance: UnsolvedVDF,
    pub y: BigInt,
    pub pi: BigInt,
}

impl View for SetupForVDF {
    type V = SetupView;

    open spec fn view(&self) -> SetupView {
        SetupView { t: self.t, n: big_value(self.N) }
    }
}

impl View for UnsolvedVDF {
    type V = UnsolvedView;

    open spec fn view(&self) -> UnsolvedView {
        UnsolvedView { x: big_value(self.x), setup: self.setup@ }
    }
}

impl View for SolvedVDF {
    type V = SolvedView;

    closed spec fn view(&self) -> SolvedView {
        SolvedView {
            instance: self.vdf_instance@,
            y: big_value(self.y),
            pi: big_value(self.pi),
        }
    }
}

impl PartialEq for SetupForVDF {
    fn eq(&self, other: &Self) -> (r: bool) {
        self.t == other.t && big_eq(&self.N, &other.N)
    }
}

impl vstd::std_specs::cmp::PartialEqSpecImpl for SetupForVDF {
    open spec fn obeys_eq_spec() -> bool {
        true
    }

    open spec fn eq_spec(&self, other: &Self) -> bool {
        self@ == other@
    }
}

impl PartialEq for UnsolvedVDF {
    fn eq(&self, other: &Self) -> (r: bool) {
        big_eq(&self.x, &other.x) && self.setup == other.setup
    }
}

impl vstd::std_specs::cmp::PartialEqSpecImpl for UnsolvedVDF {
    open spec fn obeys_eq_spec() -> bool {
        true
    }

    open spec fn eq_spec(&self, other: &Self) -> bool {
        self@ == other@
    }
}

impl PartialEq for SolvedVDF {
    fn eq(&self, other: &Self) -> (r: bool) {
        self.vdf_instance == other.vdf_instance && big_eq(&self.y, &other.y) && big_eq(
            &self.pi,
            &other.pi,
        )
    }
}

impl vstd::std_specs::cmp::PartialEqSpecImpl for SolvedVDF {
    open spec fn obeys_eq_spec() -> bool {
        true
    }

    open spec fn eq_spec(&self, other: &Self) -> bool {
        self@ == other@
    }
}

/// A setup is well formed when its modulus can carry a multiplicative
/// group: `N >= 2`.
pub open spec fn setup_wf(s: SetupView) -> bool {
    s.n >= 2
}

/// The output the evaluator owes: `g^(2^t) mod N`, for the group element
/// `g` derived from the instance.
pub open spec fn eval_y_spec(u: UnsolvedView) -> int {
    pow(group_elem_of(u.setup.n, u.x), pow2(u.setup.t as nat)) % u.setup.n
}

/// The challenge prime for an instance and a claimed output.
pub open spec fn challenge_for(u: UnsolvedView, y: int) -> int {
    challenge_of(u.setup.n, u.setup.t, group_elem_of(u.setup.n, u.x), y)
}

/// The proof element the evaluator owes: `g^(2^t div l) mod N`, for the
/// challenge prime `l` bound to the instance and to the output itself.
pub open spec fn eval_pi_spec(u: UnsolvedView) -> int {
    let g = group_elem_of(u.setup.n, u.x);
    let l = challenge_for(u, eval_y_spec(u));
    pow(g, (pow2(u.setup.t as nat) as int / l) as nat) % u.setup.n
}

/// Everything [`UnsolvedVDF::eval`] promises of its result: the instance is
/// embedded unchanged, `y` and `pi` are the exact values owed, both are
/// canonical residues, and the challenge prime bound to the result is a
/// genuine prime candidate (at least two).
pub open spec fn eval_post(u: UnsolvedView, s: SolvedView) -> bool {
    &&& s.instance == u
    &&& s.y == eval_y_spec(u)
    &&& s.pi == eval_pi_spec(u)
    &&& challenge_for(u, s.y) >= 2
    &&& 0 <= s.y < u.setup.n
    &&& 0 <= s.pi < u.setup.n
}

/// The verification equation: `pi^l * g^(2^t mod l) = y (mod N)`, with `g`
/// and `l` recomputed from the instance, never taken from the prover.
pub open spec fn verify_equation(u: UnsolvedView, y: int, pi: int) -> bool {
    let g = group_elem_of(u.setup.n, u.x);
    let l = challenge_for(u, y);
    let r = pow2(u.setup.t as nat) as int % l;
    (pow(pi, l as nat) % u.setup.n) * (pow(g, r as nat) % u.setup.n) % u.setup.n == y
}

impl SetupForVDF {
    /// Fixes the public parameters of an epoch: generates the trusted-setup
    /// modulus at the system-wide bit length and pairs it with the
    /// caller-supplied delay parameter.
    pub fn public_setup(t: u64) -> (r: SetupForVDF)
        ensures
            r@.t == t,
            setup_wf(r@),
            r@.n % 2 == 1,
            pow2((BIT_LENGTH - 1) as nat) <= r@.n < pow2(BIT_LENGTH as nat),
            exists|p: int, q: int| 2 < p && 2 < q && r@.n == #[trigger] (p * q),
    {
        let N = utilities::compute_rsa_modulus(BIT_LENGTH);
        proof {
            lemma2_to64();
            lemma_pow2_strictly_increases(1, (BIT_LENGTH - 1) as nat);
        }
        SetupForVDF { t, N }
    }

    /// Draws a fresh challenge for a setup: a seed sampled uniformly from
    /// the fixed seed domain, paired with the setup it was drawn for.
    pub fn pick_challenge(setup: &SetupForVDF) -> (r: UnsolvedVDF)
        ensures
            r@.setup == setup@,
            0 <= r@.x < pow2(SEED_LENGTH as nat),
    {
        let x = bignum::big_sample(SEED_LENGTH);
        UnsolvedVDF { x, setup: SetupForVDF { t: setup.t, N: setup.N.clone() } }
    }
}

impl UnsolvedVDF {
    /// Evaluates the delay function: derives the group element, squares it
    /// `t` times in sequence, derives the challenge prime from the whole
    /// transcript, and rebuilds the proof element `g^(2^t div l) mod N` by
    /// long division of `2^t` by `l`, never forming `2^t` itself.
    pub fn eval(unsolved_vdf: &UnsolvedVDF) -> (r: SolvedVDF)
        requires
            setup_wf(unsolved_vdf@.setup),
        ensures
            eval_post(unsolved_vdf@, r@),
    {
        let N = unsolved_vdf.setup.N.clone();
        let x = unsolved_vdf.x.clone();
        let t = unsolved_vdf.setup.t;
        let ghost n = big_value(unsolved_vdf.setup.N);
        let ghost xv = big_value(unsolved_vdf.x);

        let g = utilities::h_g(&N, &x);
        let ghost gv = big_value(g);

        let mut y = g.clone();
        let mut i: u64 = 0;
        proof {
            lemma_pow1(gv);
            lemma2_to64();
            lemma_small_mod(gv as nat, n as nat);
            assert(big_value(y) == pow(gv, pow2(0)) % n);
        }
        while i < t
            invariant
                i <= t,
                n >= 2,
                big_value(N) == n,
                big_value(y) == pow(gv, pow2(i as nat)) % n,
            decreases t - i,
        {
            let ghost e = pow2(i as nat);
            y = bignum::big_mod_mul(&y, &y, &N);
            proof {
                lemma_mod_mul_pows(gv, e, e, n);
                lemma_pow2_adds(1, i as nat);
                lemma2_to64();
                assert(pow2((i + 1) as nat) == e + e);
            }
            i = i + 1;
        }
        let ghost yv = big_value(y);
        assert(yv == eval_y_spec(unsolved_vdf@));

        let l = utilities::hash_to_prime(&unsolved_vdf.setup, &g, &y);
        let ghost lv = big_value(l);
        assert(lv == challenge_for(unsolved_vdf@, yv));

        let two = bignum::big_from_u64(2);
        let mut j: u64 = 0;
        let mut rem = bignum::big_from_u64(1);
        let mut pi = bignum::big_from_u64(1);
        proof {
            lemma2_to64();
            lemma_small_mod(1, lv as nat);
            lemma_small_mod(1, n as nat);
            lemma_basic_div(1, lv);
            assert(pow(gv, 0) == 1) by {
                vstd::arithmetic::power::lemma_pow0(gv);
            }
        }
        while j < t
            invariant
                j <= t,
                n >= 2,
                lv >= 2,
                big_value(N) == n,
                big_value(l) == lv,
                big_value(two) == 2,
                big_value(g) == gv,
                0 <= gv,
                big_value(rem) == pow2(j as nat) as int % lv,
                big_value(pi) == pow(gv, (pow2(j as nat) as int / lv) as nat) % n,
            decreases t - j,
        {
            proof {
                lemma_pow2_pos(j as nat);
                lemma_mod_bound(pow2(j as nat) as int, lv);
                lemma_div_pos_is_pos(2 * (pow2(j as nat) as int % lv), lv);
            }
            let r2 = bignum::big_mul(&rem, &two);
            let b = bignum::big_div_floor(&r2, &l);
            let r_next = bignum::big_mod_floor(&r2, &l);
            let g_b = bignum::big_mod_pow(&g, &b, &N);
            pi = bignum::big_mod_mul(&pi, &pi, &N);
            pi = bignum::big_mod_mul(&pi, &g_b, &N);
            rem = r_next;
            proof {
                let p = pow2(j as nat) as int;
                let q = p / lv;
                let rv = p % lv;
                let bv = 2 * rv / lv;
                lemma_div_pos_is_pos(p, lv);
                lemma_double_div_mod(p, lv);
                lemma_pow2_adds(1, j as nat);
                lemma2_to64();
                assert(pow2((j + 1) as nat) == 2 * p);
                lemma_mod_mul_pows(gv, q as nat, q as nat, n);
                lemma_mod_mul_pows(gv, (q + q) as nat, bv as nat, n);
                assert(pow2((j + 1) as nat) as int / lv == q + q + bv);
                assert(pow2((j + 1) as nat) as int % lv == 2 * rv % lv);
                assert(big_value(pi) == pow(gv, (pow2((j + 1) as nat) as int / lv) as nat) % n);
                assert(big_value(rem) == pow2((j + 1) as nat) as int % lv);
            }
            j = j + 1;
        }
        proof {
            lemma_mod_bound(pow(gv, pow2(t as nat)), n);
            lemma_mod_bound(pow(gv, (pow2(t as nat) as int / lv) as nat), n);
        }
        SolvedVDF { vdf_instance: UnsolvedVDF { x, setup: SetupForVDF { t, N } }, y, pi }
    }
}

impl SolvedVDF {
    /// The instance this solution claims to answer.
    pub fn vdf_instance(&self) -> (r: &UnsolvedVDF)
        ensures
            r@ == self@.instance,
    {
        &self.vdf_instance
    }

    /// Reassembles a solution from its parts, as received from transport or
    /// storage; only verification decides whether it is genuine.
    pub fn new(vdf_instance: UnsolvedVDF, y: BigInt, pi: BigInt) -> (r: SolvedVDF)
        ensures
            r@ == (SolvedView { instance: vdf_instance@, y: big_value(y), pi: big_value(pi) }),
    {
        SolvedVDF { vdf_instance, y, pi }
    }

    /// Checks a claimed solution against the verifier's own copy of the
    /// challenge: the embedded instance must match it exactly, both
    /// residues must be canonical, and the verification equation must hold
    /// with the group element and the challenge prime recomputed here,
    /// never taken from the prover.
    pub fn verify(&self, unsolved_vdf: &UnsolvedVDF) -> (r: Result<(), ErrorReason>)
        requires
            setup_wf(unsolved_vdf@.setup),
        ensures
            r == verify_spec(self@, unsolved_vdf@),
    {
        if !(self.vdf_instance == *unsolved_vdf) {
            return Err(ErrorReason::MisMatchedVDF);
        }
        let N = &self.vdf_instance.setup.N;
        let zero = bignum::big_from_u64(0);
        if bignum::big_lt(&self.y, &zero) || !bignum::big_lt(&self.y, N) || bignum::big_lt(
            &self.pi,
            &zero,
        ) || !bignum::big_lt(&self.pi, N) {
            return Err(ErrorReason::VDFVerifyError);
        }
        let g = utilities::h_g(N, &self.vdf_instance.x);
        let l = utilities::hash_to_prime(&self.vdf_instance.setup, &g, &self.y);
        let t_big = bignum::big_from_u64(self.vdf_instance.setup.t);
        let two = bignum::big_from_u64(2);
        let r_small = bignum::big_mod_pow(&two, &t_big, &l);
        proof {
            lemma_mod_bound(pow(2, self.vdf_instance.setup.t as nat), big_value(l));
            vstd::arithmetic::power2::lemma_pow2(self.vdf_instance.setup.t as nat);
        }
        let pi_l = bignum::big_mod_pow(&self.pi, &l, N);
        let g_r = bignum::big_mod_pow(&g, &r_small, N);
        let pi_l_g_r = bignum::big_mod_mul(&pi_l, &g_r, N);
        if bignum::big_eq(&pi_l_g_r, &self.y) {
            Ok(())
        } else {
            Err(ErrorReason::VDFVerifyError)
        }
    }
}

/// The exact outcome [`SolvedVDF::verify`] owes: a mismatched instance is
/// refused as such; then both residues must lie in `[0, N)` and the
/// verification equation must hold.
pub open spec fn verify_spec(s: SolvedView, u: UnsolvedView) -> Result<(), ErrorReason> {
    if s.instance != u {
        Err(ErrorReason::MisMatchedVDF)
    } else if !(0 <= s.y < u.setup.n && 0 <= s.pi < u.setup.n) {
        Err(ErrorReason::VDFVerifyError)
    } else if verify_equation(u, s.y, s.pi) {
        Ok(())
    } else {
        Err(ErrorReason::VDFVerifyError)
    }
}

} // verus!
