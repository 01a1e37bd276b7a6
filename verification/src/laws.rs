//! The global guarantees of the scheme, each proved once and for all over
//! the mathematical images of the data: an honest evaluation always
//! verifies, evaluation is deterministic, and verification is bound to the
//! exact instance it was issued for.

use vstd::arithmetic::power2::pow2;
use vstd::prelude::*;

use crate::arith::lemma_proof_equation;
use crate::utilities::ErrorReason;
use crate::{challenge_for, eval_post, setup_wf, verify_spec, SolvedView, UnsolvedView};

verus! {

/// Completeness: whatever the challenge, the solution that evaluation owes
/// for it passes verification.
pub proof fn lemma_completeness(u: UnsolvedView, s: SolvedView)
    requires
        setup_wf(u.setup),
        eval_post(u, s),
    ensures
        verify_spec(s, u) == Ok::<(), ErrorReason>(()),
{
    let g = crate::utilities::group_elem_of(u.setup.n, u.x);
    let l = challenge_for(u, s.y);
    lemma_proof_equation(g, pow2(u.setup.t as nat), l, u.setup.n);
}

/// Determinism: the evaluation contract pins down one solution per
/// challenge, so any two results for the same challenge are identical.
pub proof fn lemma_eval_deterministic(u: UnsolvedView, s1: SolvedView, s2: SolvedView)
    requires
        eval_post(u, s1),
        eval_post(u, s2),
    ensures
        s1 == s2,
{
}

/// Instance binding: a solution checked against a challenge that differs in
/// the seed, the delay parameter or the modulus is refused as mismatched,
/// before any cryptographic check runs.
pub proof fn lemma_instance_binding(u: UnsolvedView, s: SolvedView)
    requires
        s.instance.x != u.x || s.instance.setup.t != u.setup.t || s.instance.setup.n != u.setup.n,
    ensures
        verify_spec(s, u) == Err::<(), ErrorReason>(ErrorReason::MisMatchedVDF),
{
}

/// Cross-setup rejection: a solution produced under one setup is refused
/// against any distinct setup, whatever the seed.
pub proof fn lemma_cross_setup_rejected(u: UnsolvedView, s: SolvedView)
    requires
        s.instance.setup != u.setup,
    ensures
        verify_spec(s, u) == Err::<(), ErrorReason>(ErrorReason::MisMatchedVDF),
{
}

/// Range rejection: once the instances match, a residue at or beyond the
/// modulus, or below zero, fails verification as a verify error, whatever
/// the rest of the solution holds.
pub proof fn lemma_out_of_range_rejected(u: UnsolvedView, s: SolvedView)
    requires
        s.instance == u,
        s.y < 0 || s.y >= u.setup.n || s.pi < 0 || s.pi >= u.setup.n,
    ensures
        verify_spec(s, u) == Err::<(), ErrorReason>(ErrorReason::VDFVerifyError),
{
}

} // verus!
