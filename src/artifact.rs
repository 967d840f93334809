//! The verifying-key and proof artifacts as a prover writes them: decimal
//! strings in projective coordinates. Reading one checks its shape, parses
//! every number and normalises every point to affine form. Points are read
//! in arkworks' Jacobian model, `(x, y, z)` standing for `(x / z^2, y / z^3)`;
//! provers write `z = 1` for finite points and `z = 0` for the identity, and
//! there every projective model agrees.
use crate::backend::{
    g1_from_jacobian, g1_from_jacobian_of, g2_from_jacobian, g2_from_jacobian_of,
    json_string_array_of, parse_json_string_array,
};
use crate::error::VerifierError;
use crate::field::{
    base_modulus, check_digit_string, fq_from_str, fq_in_range, fr_from_str, is_digit_string, spec_fq_from_str,
    montgomery_form, spec_fr_from_str,
};
use crate::model::{
    is_zero_limbs, lemma_limbs_of_value, limbs_of, limbs_value, BigInteger256, Fq2, Fr, G1Affine,
    G2Affine, Proof, VerifyingKey, VerifyingKeyPart1, VerifyingKeyView,
};
use vstd::prelude::*;

verus! {

/// A verifying key as a Circom/SnarkJS toolchain writes it. `protocol`,
/// `curve` and `num_public` are kept as read and are not checked;
/// `vk_alphabeta_12` is recomputed from the key rather than trusted.
#[derive(Clone, Debug, PartialEq, Eq)]
pub struct VerificationKeyJson {
    pub protocol: String,
    pub curve: String,
    pub num_public: u64,
    pub vk_alpha_1: Vec<String>,
    pub vk_beta_2: Vec<Vec<String>>,
    pub vk_gamma_2: Vec<Vec<String>>,
    pub vk_delta_2: Vec<Vec<String>>,
    pub vk_alphabeta_12: Vec<Vec<Vec<String>>>,
    pub ic: Vec<Vec<String>>,
}

/// A proof as a Circom/SnarkJS prover writes it; `curve` is empty when absent.
#[derive(Clone, Debug, PartialEq, Eq)]
pub struct CircomProofJson {
    pub pi_a: Vec<String>,
    pub pi_b: Vec<Vec<String>>,
    pub pi_c: Vec<String>,
    pub protocol: String,
    pub curve: String,
}

/// The characters of each string.
pub open spec fn strs(v: Seq<String>) -> Seq<Seq<char>> {
    v.map_values(|s: String| s@)
}

/// The characters of each string of each list.
pub open spec fn strs2(v: Seq<Vec<String>>) -> Seq<Seq<Seq<char>>> {
    v.map_values(|w: Vec<String>| strs(w@))
}

/// The affine point of the first group with Jacobian coordinates `(x, y, z)`:
/// `z == 0` gives the identity, with both coordinates zero; `z == 1` keeps
/// `x` and `y`; any other `z` gives a finite point.
pub open spec fn g1_affine(x: BigInteger256, y: BigInteger256, z: BigInteger256) -> G1Affine {
    if is_zero_limbs(z) {
        G1Affine { x: limbs_of(0), y: limbs_of(0), infinity: true }
    } else if limbs_value(z) == montgomery_form(1, base_modulus()) {
        G1Affine { x, y, infinity: false }
    } else {
        let n = g1_from_jacobian_of(x, y, z);
        G1Affine { x: n.x, y: n.y, infinity: false }
    }
}

/// The affine point of the second group with Jacobian coordinates `(x, y, z)`:
/// `z == 0` gives the identity, with both coordinates zero; `z == 1` keeps
/// `x` and `y`; any other `z` gives a finite point.
pub open spec fn g2_affine(x: Fq2, y: Fq2, z: Fq2) -> G2Affine {
    if is_zero_limbs(z.c0) && is_zero_limbs(z.c1) {
        let zero = Fq2 { c0: limbs_of(0), c1: limbs_of(0) };
        G2Affine { x: zero, y: zero, infinity: true }
    } else if limbs_value(z.c0) == montgomery_form(1, base_modulus()) && is_zero_limbs(z.c1) {
        G2Affine { x, y, infinity: false }
    } else {
        let n = g2_from_jacobian_of(x, y, z);
        G2Affine { x: n.x, y: n.y, infinity: false }
    }
}

/// A point of the first group written as three decimal coordinates.
pub open spec fn spec_g1_from_strs(v: Seq<Seq<char>>) -> Result<G1Affine, VerifierError> {
    if v.len() != 3 {
        Err(VerifierError::SchemaError)
    } else {
        match spec_fq_from_str(v[0]) {
            Err(e) => Err(e),
            Ok(x) => match spec_fq_from_str(v[1]) {
                Err(e) => Err(e),
                Ok(y) => match spec_fq_from_str(v[2]) {
                    Err(e) => Err(e),
                    Ok(z) => Ok(g1_affine(x.c0, y.c0, z.c0)),
                },
            },
        }
    }
}

/// An element of `Fq2` written as two decimal components, `c0` first.
pub open spec fn spec_fq2_from_strs(v: Seq<Seq<char>>) -> Result<Fq2, VerifierError> {
    if v.len() != 2 {
        Err(VerifierError::SchemaError)
    } else {
        match spec_fq_from_str(v[0]) {
            Err(e) => Err(e),
            Ok(c0) => match spec_fq_from_str(v[1]) {
                Err(e) => Err(e),
                Ok(c1) => Ok(Fq2 { c0: c0.c0, c1: c1.c0 }),
            },
        }
    }
}

/// A point of the second group written as three `Fq2` coordinates.
pub open spec fn spec_g2_from_strs(v: Seq<Seq<Seq<char>>>) -> Result<G2Affine, VerifierError> {
    if v.len() != 3 {
        Err(VerifierError::SchemaError)
    } else {
        match spec_fq2_from_strs(v[0]) {
            Err(e) => Err(e),
            Ok(x) => match spec_fq2_from_strs(v[1]) {
                Err(e) => Err(e),
                Ok(y) => match spec_fq2_from_strs(v[2]) {
                    Err(e) => Err(e),
                    Ok(z) => Ok(g2_affine(x, y, z)),
                },
            },
        }
    }
}

/// Points of the first group, each as three decimal coordinates; the first
/// that fails gives the error.
pub open spec fn spec_g1_list_from_strs(v: Seq<Seq<Seq<char>>>) -> Result<
    Seq<G1Affine>,
    VerifierError,
>
    decreases v.len(),
{
    if v.len() == 0 {
        Ok(Seq::empty())
    } else {
        match spec_g1_list_from_strs(v.drop_last()) {
            Err(e) => Err(e),
            Ok(ps) => match spec_g1_from_strs(v.last()) {
                Err(e) => Err(e),
                Ok(p) => Ok(ps.push(p)),
            },
        }
    }
}

/// The verifying key that a key artifact describes, or why it describes none.
pub open spec fn spec_vk_from_json(j: VerificationKeyJson) -> Result<
    VerifyingKeyView,
    VerifierError,
> {
    match spec_g1_from_strs(strs(j.vk_alpha_1@)) {
        Err(e) => Err(e),
        Ok(alpha_g1) => match spec_g2_from_strs(strs2(j.vk_beta_2@)) {
            Err(e) => Err(e),
            Ok(beta_g2) => match spec_g2_from_strs(strs2(j.vk_gamma_2@)) {
                Err(e) => Err(e),
                Ok(gamma_g2) => match spec_g2_from_strs(strs2(j.vk_delta_2@)) {
                    Err(e) => Err(e),
                    Ok(delta_g2) => match spec_g1_list_from_strs(strs2(j.ic@)) {
                        Err(e) => Err(e),
                        Ok(gamma_abc_g1) => Ok(
                            VerifyingKeyView { alpha_g1, beta_g2, gamma_g2, delta_g2, gamma_abc_g1 },
                        ),
                    },
                },
            },
        },
    }
}

/// The fixed-size key part that a key artifact describes, or why it describes
/// none; `IC` is not read.
pub open spec fn spec_vk_part1_from_json(j: VerificationKeyJson) -> Result<
    VerifyingKeyPart1,
    VerifierError,
> {
    match spec_g1_from_strs(strs(j.vk_alpha_1@)) {
        Err(e) => Err(e),
        Ok(alpha_g1) => match spec_g2_from_strs(strs2(j.vk_beta_2@)) {
            Err(e) => Err(e),
            Ok(beta_g2) => match spec_g2_from_strs(strs2(j.vk_gamma_2@)) {
                Err(e) => Err(e),
                Ok(gamma_g2) => match spec_g2_from_strs(strs2(j.vk_delta_2@)) {
                    Err(e) => Err(e),
                    Ok(delta_g2) => Ok(VerifyingKeyPart1 { alpha_g1, beta_g2, gamma_g2, delta_g2 }),
                },
            },
        },
    }
}

/// The proof that a proof artifact describes, or why it describes none.
pub open spec fn spec_proof_from_json(j: CircomProofJson) -> Result<Proof, VerifierError> {
    match spec_g1_from_strs(strs(j.pi_a@)) {
        Err(e) => Err(e),
        Ok(a) => match spec_g2_from_strs(strs2(j.pi_b@)) {
            Err(e) => Err(e),
            Ok(b) => match spec_g1_from_strs(strs(j.pi_c@)) {
                Err(e) => Err(e),
                Ok(c) => Ok(Proof { a, b, c }),
            },
        },
    }
}

/// Scalars, each as a decimal literal; the first that fails gives the error.
pub open spec fn spec_frs_from_strs(v: Seq<Seq<char>>) -> Result<Seq<Fr>, VerifierError>
    decreases v.len(),
{
    if v.len() == 0 {
        Ok(Seq::empty())
    } else {
        match spec_frs_from_strs(v.drop_last()) {
            Err(e) => Err(e),
            Ok(xs) => match spec_fr_from_str(v.last()) {
                Err(e) => Err(e),
                Ok(x) => Ok(xs.push(x)),
            },
        }
    }
}

/// The public-input strings of a JSON array text: `SchemaError` where the
/// text is not an array of strings, `MalformedNumber` where one of them is not
/// a string of decimal digits.
pub open spec fn spec_public_inputs(s: Seq<char>) -> Result<Seq<Seq<char>>, VerifierError> {
    match json_string_array_of(s) {
        None => Err(VerifierError::SchemaError),
        Some(v) => if forall|i: int| 0 <= i < v.len() ==> is_digit_string(#[trigger] v[i]) {
            Ok(v)
        } else {
            Err(VerifierError::MalformedNumber)
        },
    }
}

/// The limbs of zero.
pub fn zero_limbs() -> (r: BigInteger256)
    ensures
        r == limbs_of(0),
{
    let r = BigInteger256::new([0, 0, 0, 0]);
    proof {
        lemma_limbs_of_value(r);
    }
    r
}

/// The affine point of the first group given by three decimal Jacobian
/// coordinates.
pub fn g1_from_str(g1: &Vec<String>) -> (r: Result<G1Affine, VerifierError>)
    ensures
        r == spec_g1_from_strs(strs(g1@)),
{
    if g1.len() != 3 {
        return Err(VerifierError::SchemaError);
    }
    let x = match fq_from_str(g1[0].as_str()) {
        Ok(x) => x,
        Err(e) => return Err(e),
    };
    let y = match fq_from_str(g1[1].as_str()) {
        Ok(y) => y,
        Err(e) => return Err(e),
    };
    let z = match fq_from_str(g1[2].as_str()) {
        Ok(z) => z,
        Err(e) => return Err(e),
    };
    if z.c0.is_zero() {
        Ok(G1Affine::new(zero_limbs(), zero_limbs(), true))
    } else {
        Ok(g1_from_jacobian(&x.c0, &y.c0, &z.c0))
    }
}

/// An element of `Fq2` given by two decimal components.
fn fq2_from_str(v: &Vec<String>) -> (r: Result<Fq2, VerifierError>)
    ensures
        r == spec_fq2_from_strs(strs(v@)),
        r matches Ok(e) ==> fq_in_range(e.c0) && fq_in_range(e.c1),
{
    if v.len() != 2 {
        return Err(VerifierError::SchemaError);
    }
    let c0 = match fq_from_str(v[0].as_str()) {
        Ok(c) => c,
        Err(e) => return Err(e),
    };
    let c1 = match fq_from_str(v[1].as_str()) {
        Ok(c) => c,
        Err(e) => return Err(e),
    };
    Ok(Fq2::new(c0.c0, c1.c0))
}

/// The affine point of the second group given by three decimal Jacobian
/// coordinates over `Fq2`.
pub fn g2_from_str(g2: &Vec<Vec<String>>) -> (r: Result<G2Affine, VerifierError>)
    ensures
        r == spec_g2_from_strs(strs2(g2@)),
{
    if g2.len() != 3 {
        return Err(VerifierError::SchemaError);
    }
    let x = match fq2_from_str(&g2[0]) {
        Ok(x) => x,
        Err(e) => return Err(e),
    };
    let y = match fq2_from_str(&g2[1]) {
        Ok(y) => y,
        Err(e) => return Err(e),
    };
    let z = match fq2_from_str(&g2[2]) {
        Ok(z) => z,
        Err(e) => return Err(e),
    };
    if z.c0.is_zero() && z.c1.is_zero() {
        let zero = Fq2::new(zero_limbs(), zero_limbs());
        Ok(G2Affine::new(zero, zero, true))
    } else {
        Ok(g2_from_jacobian(&x, &y, &z))
    }
}

/// The points of the first group given by a list of decimal Jacobian triples.
pub fn g1_list_from_str(v: &Vec<Vec<String>>) -> (r: Result<Vec<G1Affine>, VerifierError>)
    ensures
        match r {
            Ok(ps) => spec_g1_list_from_strs(strs2(v@)) == Ok::<Seq<G1Affine>, VerifierError>(ps@),
            Err(e) => spec_g1_list_from_strs(strs2(v@)) == Err::<Seq<G1Affine>, VerifierError>(e),
        },
{
    let mut out: Vec<G1Affine> = Vec::new();
    let mut i: usize = 0;
    while i < v.len()
        invariant
            0 <= i <= v.len(),
            spec_g1_list_from_strs(strs2(v@).take(i as int)) == Ok::<Seq<G1Affine>, VerifierError>(
                out@,
            ),
        decreases v.len() - i,
    {
        proof {
            assert(strs2(v@).take(i + 1).drop_last() =~= strs2(v@).take(i as int));
        }
        match g1_from_str(&v[i]) {
            Ok(p) => {
                out.push(p);
            },
            Err(e) => {
                proof {
                    lemma_g1_list_err_extends(strs2(v@), i as int + 1, e);
                    assert(strs2(v@).take(v.len() as int) =~= strs2(v@));
                }
                return Err(e);
            },
        }
        i += 1;
    }
    proof {
        assert(strs2(v@).take(v.len() as int) =~= strs2(v@));
    }
    Ok(out)
}

proof fn lemma_g1_list_err_extends(v: Seq<Seq<Seq<char>>>, k: int, e: VerifierError)
    requires
        0 <= k <= v.len(),
        spec_g1_list_from_strs(v.take(k)) == Err::<Seq<G1Affine>, VerifierError>(e),
    ensures
        spec_g1_list_from_strs(v) == Err::<Seq<G1Affine>, VerifierError>(e),
    decreases v.len() - k,
{
    if k < v.len() {
        assert(v.take(k + 1).drop_last() =~= v.take(k));
        lemma_g1_list_err_extends(v, k + 1, e);
    } else {
        assert(v.take(k) =~= v);
    }
}

proof fn lemma_frs_err_extends(v: Seq<Seq<char>>, k: int, e: VerifierError)
    requires
        0 <= k <= v.len(),
        spec_frs_from_strs(v.take(k)) == Err::<Seq<Fr>, VerifierError>(e),
    ensures
        spec_frs_from_strs(v) == Err::<Seq<Fr>, VerifierError>(e),
    decreases v.len() - k,
{
    if k < v.len() {
        assert(v.take(k + 1).drop_last() =~= v.take(k));
        lemma_frs_err_extends(v, k + 1, e);
    } else {
        assert(v.take(k) =~= v);
    }
}

impl VerifyingKey {
    /// The verifying key that a key artifact describes: its points parsed and
    /// normalised, or the first error met, in field order.
    pub fn from_json(j: &VerificationKeyJson) -> (r: Result<VerifyingKey, VerifierError>)
        ensures
            match r {
                Ok(vk) => spec_vk_from_json(*j) == Ok::<VerifyingKeyView, VerifierError>(vk@),
                Err(e) => spec_vk_from_json(*j) == Err::<VerifyingKeyView, VerifierError>(e),
            },
    {
        let alpha_g1 = match g1_from_str(&j.vk_alpha_1) {
            Ok(p) => p,
            Err(e) => return Err(e),
        };
        let beta_g2 = match g2_from_str(&j.vk_beta_2) {
            Ok(p) => p,
            Err(e) => return Err(e),
        };
        let gamma_g2 = match g2_from_str(&j.vk_gamma_2) {
            Ok(p) => p,
            Err(e) => return Err(e),
        };
        let delta_g2 = match g2_from_str(&j.vk_delta_2) {
            Ok(p) => p,
            Err(e) => return Err(e),
        };
        let gamma_abc_g1 = match g1_list_from_str(&j.ic) {
            Ok(ps) => ps,
            Err(e) => return Err(e),
        };
        Ok(VerifyingKey { alpha_g1, beta_g2, gamma_g2, delta_g2, gamma_abc_g1 })
    }
}

impl VerifyingKeyPart1 {
    /// The fixed-size part of the key that a key artifact describes; `IC` is
    /// not read.
    pub fn from_json(j: &VerificationKeyJson) -> (r: Result<VerifyingKeyPart1, VerifierError>)
        ensures
            r == spec_vk_part1_from_json(*j),
    {
        let alpha_g1 = match g1_from_str(&j.vk_alpha_1) {
            Ok(p) => p,
            Err(e) => return Err(e),
        };
        let beta_g2 = match g2_from_str(&j.vk_beta_2) {
            Ok(p) => p,
            Err(e) => return Err(e),
        };
        let gamma_g2 = match g2_from_str(&j.vk_gamma_2) {
            Ok(p) => p,
            Err(e) => return Err(e),
        };
        let delta_g2 = match g2_from_str(&j.vk_delta_2) {
            Ok(p) => p,
            Err(e) => return Err(e),
        };
        Ok(VerifyingKeyPart1 { alpha_g1, beta_g2, gamma_g2, delta_g2 })
    }
}

impl Proof {
    /// The proof that a proof artifact describes: its points parsed and
    /// normalised, or the first error met, in field order.
    pub fn from_json(j: &CircomProofJson) -> (r: Result<Proof, VerifierError>)
        ensures
            r == spec_proof_from_json(*j),
    {
        let a = match g1_from_str(&j.pi_a) {
            Ok(p) => p,
            Err(e) => return Err(e),
        };
        let b = match g2_from_str(&j.pi_b) {
            Ok(p) => p,
            Err(e) => return Err(e),
        };
        let c = match g1_from_str(&j.pi_c) {
            Ok(p) => p,
            Err(e) => return Err(e),
        };
        Ok(Proof { a, b, c })
    }
}

/// The strings of a JSON array of public inputs: `SchemaError` where the
/// text is not an array of strings, `MalformedNumber` where a string is not
/// made of decimal digits.
pub fn parse_public_inputs(inputs: &str) -> (r: Result<Vec<String>, VerifierError>)
    ensures
        match r {
            Ok(v) => spec_public_inputs(inputs@) == Ok::<Seq<Seq<char>>, VerifierError>(strs(v@)),
            Err(e) => spec_public_inputs(inputs@) == Err::<Seq<Seq<char>>, VerifierError>(e),
        },
{
    let v = match parse_json_string_array(inputs) {
        Some(v) => v,
        None => return Err(VerifierError::SchemaError),
    };
    proof {
        assert(strs(v@) =~= json_string_array_of(inputs@)->Some_0);
    }
    let mut i: usize = 0;
    while i < v.len()
        invariant
            0 <= i <= v.len(),
            json_string_array_of(inputs@) == Some(strs(v@)),
            forall|j: int| 0 <= j < i ==> is_digit_string(#[trigger] strs(v@)[j]),
        decreases v.len() - i,
    {
        if !check_digit_string(v[i].as_str()) {
            proof {
                assert(strs(v@)[i as int] == v@[i as int]@);
                assert(!is_digit_string(strs(v@)[i as int]));
            }
            return Err(VerifierError::MalformedNumber);
        }
        i += 1;
    }
    Ok(v)
}

/// The scalars that a list of decimal literals denotes, or the first
/// `MalformedNumber`.
pub fn public_inputs_from_strs(v: &Vec<String>) -> (r: Result<Vec<Fr>, VerifierError>)
    ensures
        match r {
            Ok(xs) => spec_frs_from_strs(strs(v@)) == Ok::<Seq<Fr>, VerifierError>(xs@),
            Err(e) => spec_frs_from_strs(strs(v@)) == Err::<Seq<Fr>, VerifierError>(e),
        },
{
    let mut out: Vec<Fr> = Vec::new();
    let mut i: usize = 0;
    while i < v.len()
        invariant
            0 <= i <= v.len(),
            spec_frs_from_strs(strs(v@).take(i as int)) == Ok::<Seq<Fr>, VerifierError>(out@),
        decreases v.len() - i,
    {
        proof {
            assert(strs(v@).take(i + 1).drop_last() =~= strs(v@).take(i as int));
        }
        match fr_from_str(v[i].as_str()) {
            Ok(x) => {
                out.push(x);
            },
            Err(e) => {
                proof {
                    lemma_frs_err_extends(strs(v@), i as int + 1, e);
                }
                return Err(e);
            },
        }
        i += 1;
    }
    proof {
        assert(strs(v@).take(v.len() as int) =~= strs(v@));
    }
    Ok(out)
}

} // verus!
