//! The calls into arkworks: field parsing, curve normalisation, negation,
//! scalar multiplication, line precomputation, Miller loops and the final
//! exponentiation. Each wrapper converts the library's values to arkworks'
//! values and back, which only moves limbs and flags: arkworks keeps a field
//! element as the same four Montgomery limbs that `BigInteger256` holds.
use crate::field::{
    base_modulus, decimal_value, fq12_in_range, fq_in_range, is_decimal_literal, limb_radix,
    montgomery_form, scalar_modulus,
};
use crate::model::{
    is_zero_limbs, limbs_value, BigInteger256, Fq12, Fq2, Fq6, Fr, G1Affine, G1Projective, G2Affine,
    G2Prepared, G2PreparedView,
};
use ark_ec::{AffineCurve, PairingEngine};
use ark_ff::{PrimeField, ToConstraintField};
use std::str::FromStr;
use vstd::prelude::*;

verus! {

/// arkworks' prime-field element: four Montgomery limbs and its parameters.
#[verifier::external_type_specification]
#[verifier::external_body]
#[verifier::reject_recursive_types(P)]
pub struct ExFp256<P>(ark_ff::Fp256<P>);

/// The parameters of BN254's base field.
#[verifier::external_type_specification]
#[verifier::external_body]
pub struct ExFqParameters(ark_bn254::FqParameters);

/// The parameters of BN254's scalar field.
#[verifier::external_type_specification]
#[verifier::external_body]
pub struct ExFrParameters(ark_bn254::FrParameters);

impl From<BigInteger256> for ark_bn254::Fq {
    /// Relies on ark_ff::Fp256::new: the limbs become the element's internal
    /// representation unchanged.
    #[verifier::external_body]
    fn from(b: BigInteger256) -> Self {
        ark_bn254::Fq::new(ark_ff::BigInteger256::new(b.val))
    }
}

impl From<ark_bn254::Fq> for BigInteger256 {
    /// Reads the element's internal limbs (the public field of ark_ff::Fp256).
    #[verifier::external_body]
    fn from(f: ark_bn254::Fq) -> Self {
        BigInteger256::new((f.0).0)
    }
}

impl From<Fr> for ark_bn254::Fr {
    /// Relies on ark_ff::Fp256::new: the limbs become the element's internal
    /// representation unchanged.
    #[verifier::external_body]
    fn from(f: Fr) -> Self {
        ark_bn254::Fr::new(ark_ff::BigInteger256::new(f.c0.val))
    }
}

impl From<ark_bn254::Fr> for Fr {
    /// Reads the element's internal limbs (the public field of ark_ff::Fp256).
    #[verifier::external_body]
    fn from(f: ark_bn254::Fr) -> Self {
        Fr::new(BigInteger256::new((f.0).0))
    }
}

/// The number of line coefficients that the Miller loop reads from a prepared
/// point of the second group that is not the identity.
pub const LINE_COEFF_COUNT: usize = 91;

/// Relies on `FromStr for ark_bn254::Fq` (ark_ff's Fp256): digits only, no
/// leading zero, the value reduced modulo the base field's modulus.
#[verifier::external_body]
pub(crate) fn parse_fq(s: &str) -> (r: Option<BigInteger256>)
    ensures
        r is Some <==> is_decimal_literal(s@),
        r matches Some(b) ==> limbs_value(b) == montgomery_form(decimal_value(s@), base_modulus()),
{
    ark_bn254::Fq::from_str(s).ok().map(|f| f.into())
}

/// Relies on `FromStr for ark_bn254::Fr` (ark_ff's Fp256): digits only, no
/// leading zero, the value reduced modulo the scalar field's modulus.
#[verifier::external_body]
pub(crate) fn parse_fr(s: &str) -> (r: Option<Fr>)
    ensures
        r is Some <==> is_decimal_literal(s@),
        r matches Some(f) ==> limbs_value(f.c0) == montgomery_form(
            decimal_value(s@),
            scalar_modulus(),
        ),
{
    ark_bn254::Fr::from_str(s).ok().map(|f| f.into())
}

/// The affine form of the Jacobian point `(x, y, z)` of the first group.
pub uninterp spec fn g1_from_jacobian_of(x: BigInteger256, y: BigInteger256, z: BigInteger256) -> G1Affine;

/// Relies on `From<G1Projective> for G1Affine` (ark_ec's Jacobian model):
/// `(x / z^2, y / z^3)`, and the coordinates unchanged when `z` is one. The
/// inversion of `z` ends only for limbs below the modulus.
#[verifier::external_body]
pub(crate) fn g1_from_jacobian(x: &BigInteger256, y: &BigInteger256, z: &BigInteger256) -> (r: G1Affine)
    requires
        !is_zero_limbs(*z),
        fq_in_range(*z),
    ensures
        r == g1_from_jacobian_of(*x, *y, *z),
        !r.infinity,
        limbs_value(*z) == montgomery_form(1, base_modulus()) ==> r == (G1Affine {
            x: *x,
            y: *y,
            infinity: false,
        }),
{
    let p = ark_bn254::G1Projective::new((*x).into(), (*y).into(), (*z).into());
    let a = ark_bn254::G1Affine::from(p);
    G1Affine::new(a.x.into(), a.y.into(), a.infinity)
}

/// The affine form of the Jacobian point `(x, y, z)` of the second group.
pub uninterp spec fn g2_from_jacobian_of(x: Fq2, y: Fq2, z: Fq2) -> G2Affine;

/// Relies on `From<G2Projective> for G2Affine` (ark_ec's Jacobian model):
/// `(x / z^2, y / z^3)`, and the coordinates unchanged when `z` is one. The
/// inversion of `z` ends only for components below the modulus.
#[verifier::external_body]
pub(crate) fn g2_from_jacobian(x: &Fq2, y: &Fq2, z: &Fq2) -> (r: G2Affine)
    requires
        !(is_zero_limbs(z.c0) && is_zero_limbs(z.c1)),
        fq_in_range(z.c0) && fq_in_range(z.c1),
    ensures
        r == g2_from_jacobian_of(*x, *y, *z),
        !r.infinity,
        limbs_value(z.c0) == montgomery_form(1, base_modulus()) && is_zero_limbs(z.c1) ==> r == (
        G2Affine { x: *x, y: *y, infinity: false }),
{
    let f2 = |e: &Fq2| ark_bn254::Fq2::new(e.c0.into(), e.c1.into());
    let a = ark_bn254::G2Affine::from(ark_bn254::G2Projective::new(f2(x), f2(y), f2(z)));
    let h = |e: ark_bn254::Fq2| Fq2::new(e.c0.into(), e.c1.into());
    G2Affine::new(h(a.x), h(a.y), a.infinity)
}

/// The additive inverse of a base-field element given by its limbs: the
/// modulus minus the value, on 256 bits, and zero for zero.
pub open spec fn fq_neg_value(v: nat) -> nat {
    if v == 0 {
        0
    } else {
        ((base_modulus() - v) % (limb_radix() as int)) as nat
    }
}

/// Relies on `Neg for GroupAffine` (ark_ec) over `Neg for Fp256` (ark_ff): the
/// identity stays as it is, else `y` is negated in each component.
#[verifier::external_body]
pub(crate) fn g2_neg(q: &G2Affine) -> (r: G2Affine)
    ensures
        r.x == q.x,
        r.infinity == q.infinity,
        q.infinity ==> r.y == q.y,
        !q.infinity ==> limbs_value(r.y.c0) == fq_neg_value(limbs_value(q.y.c0)) && limbs_value(
            r.y.c1,
        ) == fq_neg_value(limbs_value(q.y.c1)),
{
    let f2 = |e: &Fq2| ark_bn254::Fq2::new(e.c0.into(), e.c1.into());
    let n = -ark_bn254::G2Affine::new(f2(&q.x), f2(&q.y), q.infinity);
    let h = |e: ark_bn254::Fq2| Fq2::new(e.c0.into(), e.c1.into());
    G2Affine::new(h(n.x), h(n.y), n.infinity)
}

/// The Miller-loop line coefficients of a point of the second group.
pub uninterp spec fn g2_lines_of(q: G2Affine) -> G2PreparedView;

/// Relies on `From<G2Affine> for G2Prepared` (ark_ec's BN model): no lines
/// for the identity, else one per step of the loop.
#[verifier::external_body]
pub(crate) fn g2_lines(q: &G2Affine) -> (r: G2Prepared)
    ensures
        r@ == g2_lines_of(*q),
        r.infinity == q.infinity,
        q.infinity ==> r.ell_coeffs.len() == 0,
        !q.infinity ==> r.ell_coeffs.len() == LINE_COEFF_COUNT,
{
    let f2 = |e: &Fq2| ark_bn254::Fq2::new(e.c0.into(), e.c1.into());
    let p = ark_ec::bn::G2Prepared::<ark_bn254::Parameters>::from(ark_bn254::G2Affine::new(f2(&q.x), f2(&q.y), q.infinity));
    let h = |e: ark_bn254::Fq2| Fq2::new(e.c0.into(), e.c1.into());
    let lines = p.ell_coeffs.into_iter().map(|c| (h(c.0), h(c.1), h(c.2))).collect();
    G2Prepared::new(lines, p.infinity)
}

/// `s * base` in the first group, in Jacobian coordinates.
pub uninterp spec fn g1_mul_of(base: G1Affine, s: Fr) -> G1Projective;

/// Relies on ark_ec's `AffineCurve::mul` for the short Weierstrass model
/// (double-and-add over the bits of `s`; nothing is inverted).
#[verifier::external_body]
pub(crate) fn g1_mul(base: &G1Affine, s: &Fr) -> (r: G1Projective)
    ensures
        r == g1_mul_of(*base, *s),
{
    let b = ark_bn254::G1Affine::new(base.x.into(), base.y.into(), base.infinity);
    let t = b.mul(ark_bn254::Fr::from(*s).into_repr());
    G1Projective { x: t.x.into(), y: t.y.into(), z: t.z.into() }
}

/// `a + b` in the first group, in Jacobian coordinates.
pub uninterp spec fn g1_add_of(a: G1Projective, b: G1Projective) -> G1Projective;

/// Relies on `Add` for ark_ec's Jacobian `GroupProjective` (nothing is
/// inverted).
#[verifier::external_body]
pub(crate) fn g1_add(a: &G1Projective, b: &G1Projective) -> (r: G1Projective)
    ensures
        r == g1_add_of(*a, *b),
{
    let p = ark_bn254::G1Projective::new(a.x.into(), a.y.into(), a.z.into());
    let q = ark_bn254::G1Projective::new(b.x.into(), b.y.into(), b.z.into());
    let t = p + q;
    G1Projective { x: t.x.into(), y: t.y.into(), z: t.z.into() }
}

/// The Miller loop of one pair of a point and a prepared point.
pub uninterp spec fn miller_loop_of(p: G1Affine, q: G2PreparedView) -> Fq12;

/// The twelve base-field components of an element of `Fq12`, innermost first:
/// `c0.c0.c0, c0.c0.c1, c0.c1.c0, ..., c1.c2.c1`.
pub open spec fn fq12_limbs(f: Fq12) -> Seq<BigInteger256> {
    seq![
        f.c0.c0.c0, f.c0.c0.c1, f.c0.c1.c0, f.c0.c1.c1, f.c0.c2.c0, f.c0.c2.c1,
        f.c1.c0.c0, f.c1.c0.c1, f.c1.c1.c0, f.c1.c1.c1, f.c1.c2.c0, f.c1.c2.c1,
    ]
}

/// Relies on `PairingEngine::miller_loop` for Bn254 (ark_ec's BN model), which
/// reads `LINE_COEFF_COUNT` coefficients unless one side is the identity, and
/// on `ToConstraintField` (ark_ff), which lists an extension element's
/// components `c0` before `c1` before `c2`, innermost first.
#[verifier::external_body]
pub(crate) fn miller_loop_components(p: &G1Affine, q: &G2Prepared) -> (r: Vec<BigInteger256>)
    requires
        p.infinity || q.infinity || q.ell_coeffs.len() >= LINE_COEFF_COUNT,
    ensures
        r@ == fq12_limbs(miller_loop_of(*p, q@)),
{
    let f2 = |e: &Fq2| ark_bn254::Fq2::new(e.c0.into(), e.c1.into());
    let a = ark_bn254::G1Affine::new(p.x.into(), p.y.into(), p.infinity);
    let ell_coeffs = q.ell_coeffs.iter().map(|c| (f2(&c.0), f2(&c.1), f2(&c.2))).collect();
    let b = ark_ec::bn::G2Prepared::<ark_bn254::Parameters> { ell_coeffs, infinity: q.infinity };
    let f = ark_bn254::Bn254::miller_loop(&[(a.into(), b)]).to_field_elements();
    let v: Vec<ark_bn254::Fq> = f.unwrap_or_default();
    v.into_iter().map(|x| x.into()).collect()
}

/// The product of two elements of the degree-twelve extension.
pub uninterp spec fn fq12_mul_of(a: Fq12, b: Fq12) -> Fq12;

/// Relies on `Mul for QuadExtField` (ark_ff) on `ark_bn254::Fq12`.
#[verifier::external_body]
pub(crate) fn fq12_mul(a: &Fq12, b: &Fq12) -> (r: Fq12)
    ensures
        r == fq12_mul_of(*a, *b),
{
    let f2 = |e: Fq2| ark_bn254::Fq2::new(e.c0.into(), e.c1.into());
    let f6 = |e: Fq6| ark_bn254::Fq6::new(f2(e.c0), f2(e.c1), f2(e.c2));
    let f = ark_bn254::Fq12::new(f6(a.c0), f6(a.c1)) * ark_bn254::Fq12::new(f6(b.c0), f6(b.c1));
    let h = |e: ark_bn254::Fq2| Fq2::new(e.c0.into(), e.c1.into());
    let s = |e: ark_bn254::Fq6| Fq6::new(h(e.c0), h(e.c1), h(e.c2));
    Fq12::new(s(f.c0), s(f.c1))
}

/// The final exponentiation of a Miller-loop value, or `None` where the value
/// has no inverse.
pub uninterp spec fn final_exponentiation_of(f: Fq12) -> Option<Fq12>;

/// Relies on `PairingEngine::final_exponentiation` for Bn254 (ark_ec's BN
/// model), which gives `None` when its argument has no inverse; the inversion
/// ends only for components below the modulus.
#[verifier::external_body]
pub(crate) fn final_exponentiation(f: &Fq12) -> (r: Option<Fq12>)
    requires
        fq12_in_range(*f),
    ensures
        r == final_exponentiation_of(*f),
{
    let f2 = |e: Fq2| ark_bn254::Fq2::new(e.c0.into(), e.c1.into());
    let f6 = |e: Fq6| ark_bn254::Fq6::new(f2(e.c0), f2(e.c1), f2(e.c2));
    let r = ark_bn254::Bn254::final_exponentiation(&ark_bn254::Fq12::new(f6(f.c0), f6(f.c1)));
    let h = |e: ark_bn254::Fq2| Fq2::new(e.c0.into(), e.c1.into());
    let s = |e: ark_bn254::Fq6| Fq6::new(h(e.c0), h(e.c1), h(e.c2));
    r.map(|t| Fq12::new(s(t.c0), s(t.c1)))
}

/// The strings of a JSON array of strings, or `None` where the text is not one.
pub uninterp spec fn json_string_array_of(s: Seq<char>) -> Option<Seq<Seq<char>>>;

/// Relies on `serde_json_wasm::from_str` into `Vec<String>`: the result is a
/// function of the text alone.
#[verifier::external_body]
pub(crate) fn parse_json_string_array(s: &str) -> (r: Option<Vec<String>>)
    ensures
        r is Some <==> json_string_array_of(s@) is Some,
        r matches Some(v) ==> v@.map_values(|x: String| x@) == json_string_array_of(s@)->Some_0,
{
    serde_json_wasm::from_str::<Vec<String>>(s).ok()
}

} // verus!
