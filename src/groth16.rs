//! Preparing a verifying key once, and checking proofs against the prepared
//! key: the Groth16 equation `e(A, B) * e(acc, -gamma) * e(C, -delta) ==
//! e(alpha, beta)`, where `acc` commits to the public inputs.
use crate::artifact::{
    g1_affine, parse_public_inputs, public_inputs_from_strs, spec_frs_from_strs,
    spec_proof_from_json, spec_public_inputs, spec_vk_from_json, zero_limbs, CircomProofJson,
    VerificationKeyJson,
};
use crate::backend::{
    final_exponentiation, final_exponentiation_of, fq12_limbs, fq12_mul, fq12_mul_of, fq_neg_value,
    g1_add, g1_add_of, g1_from_jacobian, g1_mul, g1_mul_of, g2_lines, g2_lines_of, g2_neg,
    miller_loop_components, miller_loop_of, LINE_COEFF_COUNT,
};
use crate::error::VerifierError;
use crate::field::{
    base_modulus, check_fq12_in_range, check_fq_in_range, fq12_in_range, fq_in_range, limb_radix,
    montgomery_form,
};
use crate::model::{
    lemma_limbs_of_value, limbs_of, limbs_value, BigInteger256, Fq12, Fq2, Fq6, Fr, G1Affine,
    G1Projective, G2Affine, G2Prepared, G2PreparedView, PreparedVerifyingKey,
    PreparedVerifyingKeyView, Proof, VerifyingKey, VerifyingKeyView,
};
use vstd::prelude::*;

verus! {

/// The negation of a point of the second group: the identity stays, else `y`
/// is negated in each component.
pub open spec fn spec_g2_neg(q: G2Affine) -> G2Affine {
    if q.infinity {
        q
    } else {
        G2Affine {
            x: q.x,
            y: Fq2 {
                c0: limbs_of(fq_neg_value(limbs_value(q.y.c0))),
                c1: limbs_of(fq_neg_value(limbs_value(q.y.c1))),
            },
            infinity: false,
        }
    }
}

/// The final exponentiation of a Miller-loop value: `OutOfRange` where a
/// component is not below the modulus, `PairingFailure` where the value has
/// no inverse.
pub open spec fn spec_finish(f: Fq12) -> Result<Fq12, VerifierError> {
    if !fq12_in_range(f) {
        Err(VerifierError::OutOfRange)
    } else {
        match final_exponentiation_of(f) {
            None => Err(VerifierError::PairingFailure),
            Some(t) => Ok(t),
        }
    }
}

/// The pairing `e(p, q)`: a Miller loop and the final exponentiation.
pub open spec fn spec_pairing(p: G1Affine, q: G2Affine) -> Result<Fq12, VerifierError> {
    spec_finish(miller_loop_of(p, g2_lines_of(q)))
}

/// The prepared form of `vk`: `e(alpha, beta)` and the lines of `-gamma` and
/// `-delta`, or the error met in computing the pairing.
pub open spec fn spec_prepare(vk: VerifyingKeyView) -> Result<PreparedVerifyingKeyView, VerifierError> {
    match spec_pairing(vk.alpha_g1, vk.beta_g2) {
        Err(e) => Err(e),
        Ok(t) => Ok(
            PreparedVerifyingKeyView {
                vk,
                alpha_g1_beta_g2: t,
                gamma_g2_neg_pc: g2_lines_of(spec_g2_neg(vk.gamma_g2)),
                delta_g2_neg_pc: g2_lines_of(spec_g2_neg(vk.delta_g2)),
            },
        ),
    }
}

/// The prepared form of the key that a key artifact describes, or the first
/// error met in reading or preparing it.
pub open spec fn spec_get_prepared(j: VerificationKeyJson) -> Result<
    PreparedVerifyingKeyView,
    VerifierError,
> {
    match spec_vk_from_json(j) {
        Err(e) => Err(e),
        Ok(vk) => spec_prepare(vk),
    }
}

/// The Jacobian form of an affine point: `(x, y, 1)`, or `(1, 1, 0)` for the
/// identity, as ark_ec's `into_projective` gives it.
pub open spec fn spec_to_projective(p: G1Affine) -> G1Projective {
    let one = limbs_of(montgomery_form(1, base_modulus()));
    if p.infinity {
        G1Projective { x: one, y: one, z: limbs_of(0) }
    } else {
        G1Projective { x: p.x, y: p.y, z: one }
    }
}

/// The affine form of a Jacobian point, or `OutOfRange` where `z` is not
/// below the modulus.
pub open spec fn spec_normalize(p: G1Projective) -> Result<G1Affine, VerifierError> {
    if fq_in_range(p.z) {
        Ok(g1_affine(p.x, p.y, p.z))
    } else {
        Err(VerifierError::OutOfRange)
    }
}

/// `gamma_abc[0] + inputs[0] * gamma_abc[1] + ... + inputs[k-1] * gamma_abc[k]`,
/// in Jacobian coordinates.
pub open spec fn spec_commitment(gamma_abc: Seq<G1Affine>, inputs: Seq<Fr>, k: nat) -> G1Projective
    decreases k,
{
    if k == 0 {
        spec_to_projective(gamma_abc[0])
    } else {
        g1_add_of(
            spec_commitment(gamma_abc, inputs, (k - 1) as nat),
            g1_mul_of(gamma_abc[k as int], inputs[k - 1]),
        )
    }
}

/// Line coefficients that the Miller loop can read in full.
pub open spec fn lines_complete(pc: G2PreparedView) -> bool {
    pc.infinity || pc.ell_coeffs.len() >= LINE_COEFF_COUNT
}

/// The Miller-loop product `f(A, B) * f(acc, -gamma) * f(C, -delta)`.
pub open spec fn spec_miller_product(pvk: PreparedVerifyingKeyView, proof: Proof, acc: G1Affine) -> Fq12 {
    fq12_mul_of(
        fq12_mul_of(
            miller_loop_of(proof.a, g2_lines_of(proof.b)),
            miller_loop_of(acc, pvk.gamma_g2_neg_pc),
        ),
        miller_loop_of(proof.c, pvk.delta_g2_neg_pc),
    )
}

/// The verdict on a final-exponentiation outcome: whether it is the expected
/// value, or the error met on the way.
pub open spec fn spec_verdict(outcome: Result<Fq12, VerifierError>, expected: Fq12) -> Result<
    bool,
    VerifierError,
> {
    match outcome {
        Err(e) => Err(e),
        Ok(t) => Ok(t == expected),
    }
}

/// The outcome of checking `proof` with `inputs` against `pvk`.
pub open spec fn spec_verify(pvk: PreparedVerifyingKeyView, proof: Proof, inputs: Seq<Fr>) -> Result<
    bool,
    VerifierError,
> {
    if inputs.len() + 1 != pvk.vk.gamma_abc_g1.len() {
        Err(VerifierError::PublicInputCountMismatch)
    } else if !(lines_complete(pvk.gamma_g2_neg_pc) && lines_complete(pvk.delta_g2_neg_pc)) {
        Err(VerifierError::InvalidPreparedKey)
    } else {
        match spec_normalize(spec_commitment(pvk.vk.gamma_abc_g1, inputs, inputs.len())) {
            Err(e) => Err(e),
            Ok(acc) => spec_verdict(
                spec_finish(spec_miller_product(pvk, proof, acc)),
                pvk.alpha_g1_beta_g2,
            ),
        }
    }
}

/// The outcome of checking a proof artifact and a public-input JSON text
/// against `pvk`: the first error met in reading them, or the verdict.
pub open spec fn spec_verify_proof(
    pvk: PreparedVerifyingKeyView,
    proof: CircomProofJson,
    inputs: Seq<char>,
) -> Result<bool, VerifierError> {
    match spec_proof_from_json(proof) {
        Err(e) => Err(e),
        Ok(p) => match spec_public_inputs(inputs) {
            Err(e) => Err(e),
            Ok(v) => match spec_frs_from_strs(v) {
                Err(e) => Err(e),
                Ok(xs) => spec_verify(pvk, p, xs),
            },
        },
    }
}

fn limbs_eq(a: &BigInteger256, b: &BigInteger256) -> (r: bool)
    ensures
        r == (*a == *b),
{
    let r = a.val[0] == b.val[0] && a.val[1] == b.val[1] && a.val[2] == b.val[2] && a.val[3]
        == b.val[3];
    proof {
        if r {
            assert(a.val =~= b.val);
        }
    }
    r
}

fn fq2_eq(a: &Fq2, b: &Fq2) -> (r: bool)
    ensures
        r == (*a == *b),
{
    limbs_eq(&a.c0, &b.c0) && limbs_eq(&a.c1, &b.c1)
}

fn fq6_eq(a: &Fq6, b: &Fq6) -> (r: bool)
    ensures
        r == (*a == *b),
{
    fq2_eq(&a.c0, &b.c0) && fq2_eq(&a.c1, &b.c1) && fq2_eq(&a.c2, &b.c2)
}

/// Whether two elements of the degree-twelve extension have the same limbs.
pub fn fq12_eq(a: &Fq12, b: &Fq12) -> (r: bool)
    ensures
        r == (*a == *b),
{
    fq6_eq(&a.c0, &b.c0) && fq6_eq(&a.c1, &b.c1)
}

/// The negation of a point of the second group.
pub fn neg_g2(q: &G2Affine) -> (r: G2Affine)
    ensures
        r == spec_g2_neg(*q),
{
    let r = g2_neg(q);
    proof {
        lemma_limbs_of_value(r.y.c0);
        lemma_limbs_of_value(r.y.c1);
    }
    r
}

/// The element of `Fq12` with the twelve components `v`, innermost first.
pub fn fq12_from_limbs(v: &Vec<BigInteger256>) -> (r: Fq12)
    requires
        v.len() == 12,
    ensures
        fq12_limbs(r) == v@,
{
    let r = Fq12::new(
        Fq6::new(Fq2::new(v[0], v[1]), Fq2::new(v[2], v[3]), Fq2::new(v[4], v[5])),
        Fq6::new(Fq2::new(v[6], v[7]), Fq2::new(v[8], v[9]), Fq2::new(v[10], v[11])),
    );
    assert(fq12_limbs(r) =~= v@);
    r
}

/// The Miller loop of `p` against the prepared point `q`.
pub fn miller_loop(p: &G1Affine, q: &G2Prepared) -> (r: Fq12)
    requires
        p.infinity || q.infinity || q.ell_coeffs.len() >= LINE_COEFF_COUNT,
    ensures
        r == miller_loop_of(*p, q@),
{
    let v = miller_loop_components(p, q);
    let r = fq12_from_limbs(&v);
    let ghost m = miller_loop_of(*p, q@);
    assert(fq12_limbs(r) == fq12_limbs(m));
    assert(r.c0.c0 == m.c0.c0 && r.c0.c1 == m.c0.c1 && r.c0.c2 == m.c0.c2) by {
        assert(fq12_limbs(r)[0] == fq12_limbs(m)[0] && fq12_limbs(r)[1] == fq12_limbs(m)[1]);
        assert(fq12_limbs(r)[2] == fq12_limbs(m)[2] && fq12_limbs(r)[3] == fq12_limbs(m)[3]);
        assert(fq12_limbs(r)[4] == fq12_limbs(m)[4] && fq12_limbs(r)[5] == fq12_limbs(m)[5]);
    }
    assert(r.c1.c0 == m.c1.c0 && r.c1.c1 == m.c1.c1 && r.c1.c2 == m.c1.c2) by {
        assert(fq12_limbs(r)[6] == fq12_limbs(m)[6] && fq12_limbs(r)[7] == fq12_limbs(m)[7]);
        assert(fq12_limbs(r)[8] == fq12_limbs(m)[8] && fq12_limbs(r)[9] == fq12_limbs(m)[9]);
        assert(fq12_limbs(r)[10] == fq12_limbs(m)[10] && fq12_limbs(r)[11] == fq12_limbs(m)[11]);
    }
    r
}

/// The final exponentiation of a Miller-loop value.
pub fn finish(f: &Fq12) -> (r: Result<Fq12, VerifierError>)
    ensures
        r == spec_finish(*f),
{
    if !check_fq12_in_range(f) {
        return Err(VerifierError::OutOfRange);
    }
    match final_exponentiation(f) {
        Some(t) => Ok(t),
        None => Err(VerifierError::PairingFailure),
    }
}

/// The pairing `e(p, q)`.
pub fn pairing(p: &G1Affine, q: &G2Affine) -> (r: Result<Fq12, VerifierError>)
    ensures
        r == spec_pairing(*p, *q),
{
    let lines = g2_lines(q);
    finish(&miller_loop(p, &lines))
}

/// Prepares `vk` for verification: computes `e(alpha_g1, beta_g2)` and the
/// Miller-loop lines of `-gamma_g2` and `-delta_g2`, and keeps `vk` itself.
pub fn prepare_verifying_key(vk: VerifyingKey) -> (r: Result<PreparedVerifyingKey, VerifierError>)
    ensures
        match r {
            Ok(pvk) => spec_prepare(vk@) == Ok::<PreparedVerifyingKeyView, VerifierError>(pvk@),
            Err(e) => spec_prepare(vk@) == Err::<PreparedVerifyingKeyView, VerifierError>(e),
        },
        r matches Ok(pvk) ==> lines_complete(pvk.gamma_g2_neg_pc@) && lines_complete(
            pvk.delta_g2_neg_pc@,
        ),
{
    let alpha_g1_beta_g2 = match pairing(&vk.alpha_g1, &vk.beta_g2) {
        Ok(t) => t,
        Err(e) => return Err(e),
    };
    let gamma_g2_neg_pc = g2_lines(&neg_g2(&vk.gamma_g2));
    let delta_g2_neg_pc = g2_lines(&neg_g2(&vk.delta_g2));
    Ok(PreparedVerifyingKey { vk, alpha_g1_beta_g2, gamma_g2_neg_pc, delta_g2_neg_pc })
}

/// Reads a verifying-key artifact and prepares the key it describes.
pub fn get_prepared_verifying_key(vkey: &VerificationKeyJson) -> (r: Result<
    PreparedVerifyingKey,
    VerifierError,
>)
    ensures
        match r {
            Ok(pvk) => spec_get_prepared(*vkey) == Ok::<PreparedVerifyingKeyView, VerifierError>(pvk@),
            Err(e) => spec_get_prepared(*vkey) == Err::<PreparedVerifyingKeyView, VerifierError>(e),
        },
        r matches Ok(pvk) ==> lines_complete(pvk.gamma_g2_neg_pc@) && lines_complete(
            pvk.delta_g2_neg_pc@,
        ),
{
    match VerifyingKey::from_json(vkey) {
        Ok(vk) => prepare_verifying_key(vk),
        Err(e) => Err(e),
    }
}

/// The Jacobian form of an affine point of the first group.
pub fn to_projective(p: &G1Affine) -> (r: G1Projective)
    ensures
        r == spec_to_projective(*p),
{
    let one = BigInteger256::new(
        [15230403791020821917, 754611498739239741, 7381016538464732716, 1011752739694698287],
    );
    proof {
        lemma_limbs_of_value(one);
        assert(one.val[0] == 15230403791020821917 && one.val[1] == 754611498739239741);
        assert(one.val[2] == 7381016538464732716 && one.val[3] == 1011752739694698287);
        assert(limbs_value(one) == 6350874878119819312338956282401532409788428879151445726012394534686998597021nat);
        vstd::arithmetic::div_mod::lemma_fundamental_div_mod_converse(
            limb_radix() as int,
            base_modulus() as int,
            5,
            limbs_value(one) as int,
        );
    }
    if p.infinity {
        G1Projective { x: one, y: one, z: zero_limbs() }
    } else {
        G1Projective { x: p.x, y: p.y, z: one }
    }
}

/// The affine form of a Jacobian point of the first group.
pub fn normalize(p: &G1Projective) -> (r: Result<G1Affine, VerifierError>)
    ensures
        r == spec_normalize(*p),
{
    if !check_fq_in_range(&p.z) {
        Err(VerifierError::OutOfRange)
    } else if p.z.is_zero() {
        Ok(G1Affine::new(zero_limbs(), zero_limbs(), true))
    } else {
        Ok(g1_from_jacobian(&p.x, &p.y, &p.z))
    }
}

/// The public-input commitment `gamma_abc[0] + sum of inputs[i] * gamma_abc[i + 1]`,
/// in Jacobian coordinates.
pub fn input_commitment(gamma_abc: &Vec<G1Affine>, inputs: &Vec<Fr>) -> (r: G1Projective)
    requires
        gamma_abc.len() == inputs.len() + 1,
    ensures
        r == spec_commitment(gamma_abc@, inputs@, inputs.len() as nat),
{
    let mut acc = to_projective(&gamma_abc[0]);
    let mut i: usize = 0;
    while i < inputs.len()
        invariant
            gamma_abc.len() == inputs.len() + 1,
            0 <= i <= inputs.len(),
            acc == spec_commitment(gamma_abc@, inputs@, i as nat),
        decreases inputs.len() - i,
    {
        acc = g1_add(&acc, &g1_mul(&gamma_abc[i + 1], &inputs[i]));
        i += 1;
    }
    acc
}

/// The verdict on the outcome of the final exponentiation: whether it equals
/// `expected`, or the error met on the way.
pub fn pairing_verdict(outcome: &Result<Fq12, VerifierError>, expected: &Fq12) -> (r: Result<
    bool,
    VerifierError,
>)
    ensures
        r == spec_verdict(*outcome, *expected),
{
    match outcome {
        Ok(t) => Ok(fq12_eq(t, expected)),
        Err(e) => Err(*e),
    }
}

/// Checks `proof` with `public_inputs` against `pvk`. Fails with
/// `PublicInputCountMismatch` when there is not one input fewer than
/// `gamma_abc_g1` has points, and with `InvalidPreparedKey` when the key's line
/// coefficients are cut short; otherwise gives whether the Groth16 equation
/// holds.
pub fn verify(pvk: &PreparedVerifyingKey, proof: &Proof, public_inputs: &Vec<Fr>) -> (r: Result<
    bool,
    VerifierError,
>)
    ensures
        r == spec_verify(pvk@, *proof, public_inputs@),
        public_inputs.len() + 1 != pvk.vk.gamma_abc_g1.len() ==> r == Err::<bool, VerifierError>(
            VerifierError::PublicInputCountMismatch,
        ),
{
    if pvk.vk.gamma_abc_g1.len() == 0 || public_inputs.len() != pvk.vk.gamma_abc_g1.len() - 1 {
        return Err(VerifierError::PublicInputCountMismatch);
    }
    let gamma_pc = &pvk.gamma_g2_neg_pc;
    let delta_pc = &pvk.delta_g2_neg_pc;
    if !((gamma_pc.infinity || gamma_pc.ell_coeffs.len() >= LINE_COEFF_COUNT) && (delta_pc.infinity
        || delta_pc.ell_coeffs.len() >= LINE_COEFF_COUNT)) {
        return Err(VerifierError::InvalidPreparedKey);
    }
    let acc = match normalize(&input_commitment(&pvk.vk.gamma_abc_g1, public_inputs)) {
        Ok(p) => p,
        Err(e) => return Err(e),
    };
    let b_lines = g2_lines(&proof.b);
    let ab = miller_loop(&proof.a, &b_lines);
    let f = fq12_mul(&fq12_mul(&ab, &miller_loop(&acc, gamma_pc)), &miller_loop(&proof.c, delta_pc));
    pairing_verdict(&finish(&f), &pvk.alpha_g1_beta_g2)
}

/// Reads a proof artifact and a JSON array of decimal public inputs, then
/// checks the proof against `pvk`; the first error met is returned.
pub fn verify_proof(pvk: &PreparedVerifyingKey, proof: &CircomProofJson, pub_inputs_str: &str) -> (r:
    Result<bool, VerifierError>)
    ensures
        r == spec_verify_proof(pvk@, *proof, pub_inputs_str@),
{
    let p = match Proof::from_json(proof) {
        Ok(p) => p,
        Err(e) => return Err(e),
    };
    let strs = match parse_public_inputs(pub_inputs_str) {
        Ok(v) => v,
        Err(e) => return Err(e),
    };
    let inputs = match public_inputs_from_strs(&strs) {
        Ok(xs) => xs,
        Err(e) => return Err(e),
    };
    verify(pvk, &p, &inputs)
}

} // verus!
