//! The data model: field elements as little-endian 64-bit limbs, extension
//! field elements and affine curve points built from them, and the verifying
//! key in its raw and prepared forms.
use vstd::prelude::*;

verus! {

/// Four little-endian 64-bit limbs: the internal (Montgomery) representation
/// of a BN254 field element.
#[derive(Clone, Copy, Debug, PartialEq, Eq)]
pub struct BigInteger256 {
    pub val: [u64; 4],
}

/// The integer that a limb sequence spells, least significant limb first.
pub open spec fn limbs_value(b: BigInteger256) -> nat {
    b.val[0] as nat + b.val[1] as nat * 0x1_0000_0000_0000_0000 + b.val[2] as nat
        * 0x1_0000_0000_0000_0000_0000_0000_0000_0000 + b.val[3] as nat
        * 0x1_0000_0000_0000_0000_0000_0000_0000_0000_0000_0000_0000_0000
}

/// The limbs that spell `n`, for `n` below `2^256`.
pub open spec fn limbs_of(n: nat) -> BigInteger256 {
    choose|b: BigInteger256| limbs_value(b) == n
}

/// Two limb sequences that spell the same integer are the same.
pub proof fn lemma_limbs_value_injective(a: BigInteger256, b: BigInteger256)
    requires
        limbs_value(a) == limbs_value(b),
    ensures
        a == b,
{
    let d: int = 0x1_0000_0000_0000_0000;
    let qa2: int = a.val[2] as int + d * a.val[3] as int;
    let qb2: int = b.val[2] as int + d * b.val[3] as int;
    let qa1: int = a.val[1] as int + d * qa2;
    let qb1: int = b.val[1] as int + d * qb2;
    assert(limbs_value(a) == a.val[0] as int + d * qa1) by (nonlinear_arith)
        requires
            d == 0x1_0000_0000_0000_0000,
            qa2 == a.val[2] as int + d * a.val[3] as int,
            qa1 == a.val[1] as int + d * qa2,
            limbs_value(a) == a.val[0] as nat + a.val[1] as nat * 0x1_0000_0000_0000_0000 + a.val[2] as nat
                * 0x1_0000_0000_0000_0000_0000_0000_0000_0000 + a.val[3] as nat
                * 0x1_0000_0000_0000_0000_0000_0000_0000_0000_0000_0000_0000_0000,
    ;
    assert(limbs_value(b) == b.val[0] as int + d * qb1) by (nonlinear_arith)
        requires
            d == 0x1_0000_0000_0000_0000,
            qb2 == b.val[2] as int + d * b.val[3] as int,
            qb1 == b.val[1] as int + d * qb2,
            limbs_value(b) == b.val[0] as nat + b.val[1] as nat * 0x1_0000_0000_0000_0000 + b.val[2] as nat
                * 0x1_0000_0000_0000_0000_0000_0000_0000_0000 + b.val[3] as nat
                * 0x1_0000_0000_0000_0000_0000_0000_0000_0000_0000_0000_0000_0000,
    ;
    assert(0 <= qa2 && 0 <= qb2) by (nonlinear_arith)
        requires
            d > 0,
            qa2 == a.val[2] as int + d * a.val[3] as int,
            qb2 == b.val[2] as int + d * b.val[3] as int,
    ;
    assert(0 <= qa1 && 0 <= qb1) by (nonlinear_arith)
        requires
            d > 0,
            qa2 >= 0,
            qb2 >= 0,
            qa1 == a.val[1] as int + d * qa2,
            qb1 == b.val[1] as int + d * qb2,
    ;
    vstd::arithmetic::div_mod::lemma_fundamental_div_mod_converse(limbs_value(a) as int, d, qa1, a.val[0] as int);
    vstd::arithmetic::div_mod::lemma_fundamental_div_mod_converse(limbs_value(b) as int, d, qb1, b.val[0] as int);
    vstd::arithmetic::div_mod::lemma_fundamental_div_mod_converse(qa1, d, qa2, a.val[1] as int);
    vstd::arithmetic::div_mod::lemma_fundamental_div_mod_converse(qb1, d, qb2, b.val[1] as int);
    vstd::arithmetic::div_mod::lemma_fundamental_div_mod_converse(qa2, d, a.val[3] as int, a.val[2] as int);
    vstd::arithmetic::div_mod::lemma_fundamental_div_mod_converse(qb2, d, b.val[3] as int, b.val[2] as int);
    assert(a.val =~= b.val);
}

/// Limbs spell one integer only: a sequence with value `n` is `limbs_of(n)`.
pub proof fn lemma_limbs_of_value(b: BigInteger256)
    ensures
        limbs_of(limbs_value(b)) == b,
{
    let n = limbs_value(b);
    assert(exists|c: BigInteger256| limbs_value(c) == n);
    lemma_limbs_value_injective(limbs_of(n), b);
}

proof fn lemma_split_lt(lx: int, hx: int, ly: int, hy: int, d: int)
    requires
        d > 0,
        0 <= lx < d,
        0 <= ly < d,
        0 <= hx,
        0 <= hy,
    ensures
        (lx + d * hx < ly + d * hy) == (hx < hy || (hx == hy && lx < ly)),
{
    if hx < hy {
        assert(lx + d * hx < ly + d * hy) by (nonlinear_arith)
            requires
                d > 0,
                0 <= lx < d,
                0 <= ly,
                hx < hy,
        ;
    } else if hx > hy {
        assert(lx + d * hx >= ly + d * hy) by (nonlinear_arith)
            requires
                d > 0,
                0 <= lx,
                ly < d,
                hx > hy,
        ;
    }
}

/// Comparing limb sequences from the most significant limb down compares the
/// integers they spell.
pub proof fn lemma_limbs_lt(a: BigInteger256, b: BigInteger256)
    ensures
        (limbs_value(a) < limbs_value(b)) == (a.val[3] < b.val[3] || (a.val[3] == b.val[3] && (
        a.val[2] < b.val[2] || (a.val[2] == b.val[2] && (a.val[1] < b.val[1] || (a.val[1]
            == b.val[1] && a.val[0] < b.val[0])))))),
{
    let d: int = 0x1_0000_0000_0000_0000;
    let ha2: int = a.val[2] as int + d * a.val[3] as int;
    let hb2: int = b.val[2] as int + d * b.val[3] as int;
    let ha1: int = a.val[1] as int + d * ha2;
    let hb1: int = b.val[1] as int + d * hb2;
    assert(limbs_value(a) == a.val[0] as int + d * ha1) by (nonlinear_arith)
        requires
            d == 0x1_0000_0000_0000_0000,
            ha2 == a.val[2] as int + d * a.val[3] as int,
            ha1 == a.val[1] as int + d * ha2,
            limbs_value(a) == a.val[0] as nat + a.val[1] as nat * 0x1_0000_0000_0000_0000 + a.val[2] as nat
                * 0x1_0000_0000_0000_0000_0000_0000_0000_0000 + a.val[3] as nat
                * 0x1_0000_0000_0000_0000_0000_0000_0000_0000_0000_0000_0000_0000,
    ;
    assert(limbs_value(b) == b.val[0] as int + d * hb1) by (nonlinear_arith)
        requires
            d == 0x1_0000_0000_0000_0000,
            hb2 == b.val[2] as int + d * b.val[3] as int,
            hb1 == b.val[1] as int + d * hb2,
            limbs_value(b) == b.val[0] as nat + b.val[1] as nat * 0x1_0000_0000_0000_0000 + b.val[2] as nat
                * 0x1_0000_0000_0000_0000_0000_0000_0000_0000 + b.val[3] as nat
                * 0x1_0000_0000_0000_0000_0000_0000_0000_0000_0000_0000_0000_0000,
    ;
    assert(0 <= ha2 && 0 <= hb2 && 0 <= ha1 && 0 <= hb1) by (nonlinear_arith)
        requires
            d > 0,
            ha2 == a.val[2] as int + d * a.val[3] as int,
            hb2 == b.val[2] as int + d * b.val[3] as int,
            ha1 == a.val[1] as int + d * ha2,
            hb1 == b.val[1] as int + d * hb2,
    ;
    lemma_split_lt(a.val[0] as int, ha1, b.val[0] as int, hb1, d);
    lemma_split_lt(a.val[1] as int, ha2, b.val[1] as int, hb2, d);
    lemma_split_lt(a.val[2] as int, a.val[3] as int, b.val[2] as int, b.val[3] as int, d);
}

/// All four limbs are zero.
pub open spec fn is_zero_limbs(b: BigInteger256) -> bool {
    b.val[0] == 0 && b.val[1] == 0 && b.val[2] == 0 && b.val[3] == 0
}

impl BigInteger256 {
    pub fn new(src: [u64; 4]) -> (r: Self)
        ensures
            r.val == src,
    {
        BigInteger256 { val: src }
    }

    /// Tells whether all four limbs are zero.
    pub fn is_zero(&self) -> (r: bool)
        ensures
            r == is_zero_limbs(*self),
    {
        self.val[0] == 0 && self.val[1] == 0 && self.val[2] == 0 && self.val[3] == 0
    }
}

/// An element of the scalar field, which public inputs live in.
#[derive(Clone, Copy, Debug, PartialEq, Eq)]
pub struct Fr {
    pub c0: BigInteger256,
}

impl Fr {
    pub fn new(src: BigInteger256) -> (r: Self)
        ensures
            r.c0 == src,
    {
        Fr { c0: src }
    }
}

/// An element of the base field, which curve coordinates live in.
#[derive(Clone, Copy, Debug, PartialEq, Eq)]
pub struct Fq {
    pub c0: BigInteger256,
}

impl Fq {
    pub fn new(src: BigInteger256) -> (r: Self)
        ensures
            r.c0 == src,
    {
        Fq { c0: src }
    }
}

/// `c0 + c1 * u`, an element of the quadratic extension of the base field.
#[derive(Clone, Copy, Debug, PartialEq, Eq)]
pub struct Fq2 {
    pub c0: BigInteger256,
    pub c1: BigInteger256,
}

impl Fq2 {
    pub fn new(c0_: BigInteger256, c1_: BigInteger256) -> (r: Self)
        ensures
            r.c0 == c0_,
            r.c1 == c1_,
    {
        Fq2 { c0: c0_, c1: c1_ }
    }
}

/// An element of the sextic extension, as three coefficients over `Fq2`.
#[derive(Clone, Copy, Debug, PartialEq, Eq)]
pub struct Fq6 {
    pub c0: Fq2,
    pub c1: Fq2,
    pub c2: Fq2,
}

impl Fq6 {
    pub fn new(c0_: Fq2, c1_: Fq2, c2_: Fq2) -> (r: Self)
        ensures
            r.c0 == c0_,
            r.c1 == c1_,
            r.c2 == c2_,
    {
        Fq6 { c0: c0_, c1: c1_, c2: c2_ }
    }
}

/// An element of the degree-twelve extension: the pairing's target group.
#[derive(Clone, Copy, Debug, PartialEq, Eq)]
pub struct Fq12 {
    pub c0: Fq6,
    pub c1: Fq6,
}

impl Fq12 {
    pub fn new(c0_: Fq6, c1_: Fq6) -> (r: Self)
        ensures
            r.c0 == c0_,
            r.c1 == c1_,
    {
        Fq12 { c0: c0_, c1: c1_ }
    }
}

/// An affine point of the first group; when `infinity` is set the point is the
/// identity and the coordinates carry no meaning.
#[derive(Clone, Copy, Debug, PartialEq, Eq)]
pub struct G1Affine {
    pub x: BigInteger256,
    pub y: BigInteger256,
    pub infinity: bool,
}

impl G1Affine {
    pub fn new(x_: BigInteger256, y_: BigInteger256, infinity_: bool) -> (r: Self)
        ensures
            r.x == x_,
            r.y == y_,
            r.infinity == infinity_,
    {
        G1Affine { x: x_, y: y_, infinity: infinity_ }
    }
}

/// A point of the first group in Jacobian coordinates: the affine point
/// `(x / z^2, y / z^3)`, or the identity when `z` is zero.
#[derive(Clone, Copy, Debug, PartialEq, Eq)]
pub struct G1Projective {
    pub x: BigInteger256,
    pub y: BigInteger256,
    pub z: BigInteger256,
}

/// An affine point of the second group, with coordinates in `Fq2`.
#[derive(Clone, Copy, Debug, PartialEq, Eq)]
pub struct G2Affine {
    pub x: Fq2,
    pub y: Fq2,
    pub infinity: bool,
}

impl G2Affine {
    pub fn new(x_: Fq2, y_: Fq2, infinity_: bool) -> (r: Self)
        ensures
            r.x == x_,
            r.y == y_,
            r.infinity == infinity_,
    {
        G2Affine { x: x_, y: y_, infinity: infinity_ }
    }
}

/// The Miller-loop line coefficients precomputed for one fixed point of the
/// second group.
#[derive(Clone, Debug, PartialEq, Eq)]
pub struct G2Prepared {
    pub ell_coeffs: Vec<(Fq2, Fq2, Fq2)>,
    pub infinity: bool,
}

/// What a `G2Prepared` holds, with its lines as a sequence.
pub ghost struct G2PreparedView {
    pub ell_coeffs: Seq<(Fq2, Fq2, Fq2)>,
    pub infinity: bool,
}

impl View for G2Prepared {
    type V = G2PreparedView;

    open spec fn view(&self) -> G2PreparedView {
        G2PreparedView { ell_coeffs: self.ell_coeffs@, infinity: self.infinity }
    }
}

impl G2Prepared {
    pub fn new(ell_coeffs_: Vec<(Fq2, Fq2, Fq2)>, inf: bool) -> (r: Self)
        ensures
            r.ell_coeffs@ == ell_coeffs_@,
            r.infinity == inf,
    {
        G2Prepared { ell_coeffs: ell_coeffs_, infinity: inf }
    }
}

/// A Groth16 verifying key; `gamma_abc_g1` holds one point more than there
/// are public inputs.
#[derive(Clone, Debug, PartialEq, Eq)]
pub struct VerifyingKey {
    pub alpha_g1: G1Affine,
    pub beta_g2: G2Affine,
    pub gamma_g2: G2Affine,
    pub delta_g2: G2Affine,
    pub gamma_abc_g1: Vec<G1Affine>,
}

/// What a `VerifyingKey` holds, with `gamma_abc_g1` as a sequence.
pub ghost struct VerifyingKeyView {
    pub alpha_g1: G1Affine,
    pub beta_g2: G2Affine,
    pub gamma_g2: G2Affine,
    pub delta_g2: G2Affine,
    pub gamma_abc_g1: Seq<G1Affine>,
}

impl View for VerifyingKey {
    type V = VerifyingKeyView;

    open spec fn view(&self) -> VerifyingKeyView {
        VerifyingKeyView {
            alpha_g1: self.alpha_g1,
            beta_g2: self.beta_g2,
            gamma_g2: self.gamma_g2,
            delta_g2: self.delta_g2,
            gamma_abc_g1: self.gamma_abc_g1@,
        }
    }
}

/// The fixed-size part of a verifying key: everything but `gamma_abc_g1`.
#[derive(Clone, Copy, Debug, PartialEq, Eq)]
pub struct VerifyingKeyPart1 {
    pub alpha_g1: G1Affine,
    pub beta_g2: G2Affine,
    pub gamma_g2: G2Affine,
    pub delta_g2: G2Affine,
}

impl VerifyingKeyPart1 {
    /// The fixed-size part of `vk`.
    pub fn from_key(vk: &VerifyingKey) -> (r: Self)
        ensures
            r.alpha_g1 == vk.alpha_g1,
            r.beta_g2 == vk.beta_g2,
            r.gamma_g2 == vk.gamma_g2,
            r.delta_g2 == vk.delta_g2,
    {
        VerifyingKeyPart1 {
            alpha_g1: vk.alpha_g1,
            beta_g2: vk.beta_g2,
            gamma_g2: vk.gamma_g2,
            delta_g2: vk.delta_g2,
        }
    }
}

/// A verifying key with the values that every verification against it needs:
/// the pairing of `alpha_g1` and `beta_g2`, and the line coefficients of the
/// negations of `gamma_g2` and `delta_g2`.
#[derive(Clone, Debug, PartialEq, Eq)]
pub struct PreparedVerifyingKey {
    pub vk: VerifyingKey,
    pub alpha_g1_beta_g2: Fq12,
    pub gamma_g2_neg_pc: G2Prepared,
    pub delta_g2_neg_pc: G2Prepared,
}

/// What a `PreparedVerifyingKey` holds, as views.
pub ghost struct PreparedVerifyingKeyView {
    pub vk: VerifyingKeyView,
    pub alpha_g1_beta_g2: Fq12,
    pub gamma_g2_neg_pc: G2PreparedView,
    pub delta_g2_neg_pc: G2PreparedView,
}

impl View for PreparedVerifyingKey {
    type V = PreparedVerifyingKeyView;

    open spec fn view(&self) -> PreparedVerifyingKeyView {
        PreparedVerifyingKeyView {
            vk: self.vk@,
            alpha_g1_beta_g2: self.alpha_g1_beta_g2,
            gamma_g2_neg_pc: self.gamma_g2_neg_pc@,
            delta_g2_neg_pc: self.delta_g2_neg_pc@,
        }
    }
}

/// A Groth16 proof: two points of the first group and one of the second.
#[derive(Clone, Copy, Debug, PartialEq, Eq)]
pub struct Proof {
    pub a: G1Affine,
    pub b: G2Affine,
    pub c: G1Affine,
}

impl Proof {
    pub fn new(a: G1Affine, b: G2Affine, c: G1Affine) -> (r: Self)
        ensures
            r.a == a,
            r.b == b,
            r.c == c,
    {
        Proof { a, b, c }
    }
}

} // verus!
