use borsh::BorshSerialize;
use groth16_verifier::{
    BigInteger256, DecodeError, Fq, Fq12, Fq2, Fq6, Fr, G1Affine, G2Affine, G2Prepared,
    PreparedVerifyingKey, Proof, VerificationKeyJson, VerifyingKey, VerifyingKeyPart1,
};
use groth16_verifier::{fq_from_str, get_prepared_verifying_key};

fn s(x: &str) -> String {
    x.to_string()
}

fn big(a: u64) -> BigInteger256 {
    BigInteger256::new([a, a.wrapping_mul(3), u64::MAX - a, 1 << 63])
}

fn fq2(a: u64) -> Fq2 {
    Fq2::new(big(a), big(a + 1))
}

fn fq6(a: u64) -> Fq6 {
    Fq6::new(fq2(a), fq2(a + 10), fq2(a + 20))
}

fn g1(a: u64, inf: bool) -> G1Affine {
    G1Affine::new(big(a), big(a + 7), inf)
}

fn g2(a: u64, inf: bool) -> G2Affine {
    G2Affine::new(fq2(a), fq2(a + 5), inf)
}

fn sample_pvk() -> PreparedVerifyingKey {
    let vk = VerifyingKey {
        alpha_g1: g1(1, false),
        beta_g2: g2(2, false),
        gamma_g2: g2(3, true),
        delta_g2: g2(4, false),
        gamma_abc_g1: vec![g1(5, false), g1(6, true), g1(7, false)],
    };
    PreparedVerifyingKey {
        vk,
        alpha_g1_beta_g2: Fq12::new(fq6(8), fq6(9)),
        gamma_g2_neg_pc: G2Prepared::new(vec![(fq2(1), fq2(2), fq2(3)), (fq2(4), fq2(5), fq2(6))], false),
        delta_g2_neg_pc: G2Prepared::new(Vec::new(), true),
    }
}

fn key_json() -> VerificationKeyJson {
    VerificationKeyJson {
        protocol: s("groth16"),
        curve: s("bn128"),
        num_public: 1,
        vk_alpha_1: vec![
            s("8604667279420059501166553404773392135946736498054200992926926673060716660829"),
            s("20360062655515720670379654635393394213543483323604306907537674392480557199402"),
            s("1"),
        ],
        vk_beta_2: vec![
            vec![
                s("3043345541449451671254450988991753002656660035846876061355339859941832004318"),
                s("9366036361352379018594831897170702393774275718261521192392224789664885279048"),
            ],
            vec![
                s("13013276479422120091160662049955987435710012286605495842546532018893262680987"),
                s("14570689804927635484337933117252889899638838990887585775285700495326742500608"),
            ],
            vec![s("1"), s("0")],
        ],
        vk_gamma_2: vec![
            vec![
                s("10857046999023057135944570762232829481370756359578518086990519993285655852781"),
                s("11559732032986387107991004021392285783925812861821192530917403151452391805634"),
            ],
            vec![
                s("8495653923123431417604973247489272438418190587263600148770280649306958101930"),
                s("4082367875863433681332203403145435568316851327593401208105741076214120093531"),
            ],
            vec![s("1"), s("0")],
        ],
        vk_delta_2: vec![
            vec![
                s("2734577848493477101784673168916689189152190109550989513773621988766628013896"),
                s("20992053824921110769159163698868426355728207712097181822869885973257549986665"),
            ],
            vec![
                s("18858728426139214530397886298764629051579512035453478146479294850808428228226"),
                s("16650869185745772661582147225220884707446064820553793560683789497559329846949"),
            ],
            vec![s("1"), s("0")],
        ],
        vk_alphabeta_12: Vec::new(),
        ic: vec![
            vec![
                s("20510024326636861894856056279186972251820656064299818504132684390781123564002"),
                s("3794043495370927585051135397901732182692326739063049522454286904701134003013"),
                s("1"),
            ],
            vec![
                s("7791962724153994122113202116325467726962116651195725568779661762583649623632"),
                s("21733435539045095673745804075891544265305400637072500486664710068860705765791"),
                s("1"),
            ],
        ],
    }
}

#[test]
fn fixed_width_values_round_trip() {
    let b = big(42);
    assert_eq!(BigInteger256::from_bytes(&b.to_bytes()), Ok(b));
    let f = Fq::new(big(3));
    assert_eq!(Fq::from_bytes(&f.to_bytes()), Ok(f));
    let r = Fr::new(big(4));
    assert_eq!(Fr::from_bytes(&r.to_bytes()), Ok(r));
    assert_eq!(Fq2::from_bytes(&fq2(5).to_bytes()), Ok(fq2(5)));
    assert_eq!(Fq6::from_bytes(&fq6(6).to_bytes()), Ok(fq6(6)));
    let t = Fq12::new(fq6(1), fq6(2));
    assert_eq!(Fq12::from_bytes(&t.to_bytes()), Ok(t));
    assert_eq!(G1Affine::from_bytes(&g1(9, true).to_bytes()), Ok(g1(9, true)));
    assert_eq!(G2Affine::from_bytes(&g2(9, false).to_bytes()), Ok(g2(9, false)));
    let p = Proof::new(g1(1, false), g2(2, false), g1(3, true));
    assert_eq!(Proof::from_bytes(&p.to_bytes()), Ok(p));
}

#[test]
fn widths_are_fixed() {
    assert_eq!(big(1).to_bytes().len(), 32);
    assert_eq!(fq2(1).to_bytes().len(), 64);
    assert_eq!(fq6(1).to_bytes().len(), 192);
    assert_eq!(Fq12::new(fq6(1), fq6(2)).to_bytes().len(), 384);
    assert_eq!(g1(1, false).to_bytes().len(), 65);
    assert_eq!(g2(1, false).to_bytes().len(), 129);
    assert_eq!(Proof::new(g1(1, false), g2(2, false), g1(3, true)).to_bytes().len(), 259);
}

#[test]
fn prepared_key_round_trips() {
    let pvk = sample_pvk();
    let bytes = pvk.to_bytes();
    assert_eq!(PreparedVerifyingKey::from_bytes(&bytes), Ok(pvk.clone()));
    let vk = pvk.vk.clone();
    assert_eq!(VerifyingKey::from_bytes(&vk.to_bytes()), Ok(vk.clone()));
    let part = VerifyingKeyPart1::from_key(&vk);
    assert_eq!(VerifyingKeyPart1::from_bytes(&part.to_bytes()), Ok(part));
    let pc = pvk.gamma_g2_neg_pc.clone();
    assert_eq!(G2Prepared::from_bytes(&pc.to_bytes()), Ok(pc));
}

#[test]
fn real_prepared_key_round_trips() {
    let pvk = get_prepared_verifying_key(&key_json()).unwrap();
    let bytes = pvk.to_bytes();
    assert_eq!(PreparedVerifyingKey::from_bytes(&bytes), Ok(pvk.clone()));
    // preparing again gives the same bytes
    let again = get_prepared_verifying_key(&key_json()).unwrap();
    assert_eq!(again.to_bytes(), bytes);
    assert_eq!(pvk.gamma_g2_neg_pc.ell_coeffs.len(), 91);
}

#[test]
fn length_mismatches_are_truncated_input() {
    let bytes = g1(1, false).to_bytes();
    assert_eq!(G1Affine::from_bytes(&bytes[..64]), Err(DecodeError::TruncatedInput));
    let mut longer = bytes.clone();
    longer.push(0);
    assert_eq!(G1Affine::from_bytes(&longer), Err(DecodeError::TruncatedInput));
    assert_eq!(Fq12::from_bytes(&[]), Err(DecodeError::TruncatedInput));
    let pvk = sample_pvk().to_bytes();
    assert_eq!(
        PreparedVerifyingKey::from_bytes(&pvk[..pvk.len() - 1]),
        Err(DecodeError::TruncatedInput)
    );
    // a list length larger than the bytes that follow
    let mut pc = G2Prepared::new(Vec::new(), false).to_bytes();
    pc[0] = 2;
    assert_eq!(G2Prepared::from_bytes(&pc), Err(DecodeError::TruncatedInput));
}

#[test]
fn flag_bytes_other_than_zero_or_one_are_refused() {
    let mut bytes = g1(1, false).to_bytes();
    bytes[64] = 2;
    assert_eq!(G1Affine::from_bytes(&bytes), Err(DecodeError::InvalidDiscriminant));
    let mut g = g2(1, true).to_bytes();
    g[128] = 0xff;
    assert_eq!(G2Affine::from_bytes(&g), Err(DecodeError::InvalidDiscriminant));
}

#[test]
fn limbs_at_or_above_the_modulus_are_kept() {
    let b = BigInteger256::new([u64::MAX; 4]);
    assert_eq!(BigInteger256::from_bytes(&b.to_bytes()), Ok(b));
}

fn limbs(b: &BigInteger256) -> [u64; 4] {
    b.val
}

#[test]
fn layout_matches_borsh() {
    let p = g1(3, true);
    let expected = (limbs(&p.x), limbs(&p.y), p.infinity).try_to_vec().unwrap();
    assert_eq!(p.to_bytes(), expected);
    let q = g2(4, false);
    let f2 = |e: &Fq2| (limbs(&e.c0), limbs(&e.c1));
    let expected = (f2(&q.x), f2(&q.y), q.infinity).try_to_vec().unwrap();
    assert_eq!(q.to_bytes(), expected);
    let pc = sample_pvk().gamma_g2_neg_pc;
    let lines: Vec<_> = pc.ell_coeffs.iter().map(|c| (f2(&c.0), f2(&c.1), f2(&c.2))).collect();
    let expected = (lines, pc.infinity).try_to_vec().unwrap();
    assert_eq!(pc.to_bytes(), expected);
    let vk = sample_pvk().vk;
    let g = |p: &G1Affine| (limbs(&p.x), limbs(&p.y), p.infinity);
    let h = |q: &G2Affine| (f2(&q.x), f2(&q.y), q.infinity);
    let ic: Vec<_> = vk.gamma_abc_g1.iter().map(g).collect();
    let expected =
        (g(&vk.alpha_g1), h(&vk.beta_g2), h(&vk.gamma_g2), h(&vk.delta_g2), ic).try_to_vec().unwrap();
    assert_eq!(vk.to_bytes(), expected);
}

#[test]
fn field_element_bytes_are_little_endian_limbs() {
    let one = fq_from_str("1").unwrap();
    let bytes = one.to_bytes();
    assert_eq!(&bytes[..8], &15230403791020821917u64.to_le_bytes());
    assert_eq!(&bytes[24..], &1011752739694698287u64.to_le_bytes());
}

#[test]
fn out_of_range_limbs_survive_a_round_trip() {
    // the binary form keeps limbs at or above the modulus as they are
    let mut pvk = get_prepared_verifying_key(&key_json()).unwrap();
    let modulus = BigInteger256::new([
        4332616871279656263,
        10917124144477883021,
        13281191951274694749,
        3486998266802970665,
    ]);
    assert!(!groth16_verifier::field::check_fq_in_range(&modulus));
    assert!(groth16_verifier::field::check_fq_in_range(&fq_from_str("5").unwrap().c0));
    pvk.alpha_g1_beta_g2.c0.c0.c0 = modulus;
    let bytes = pvk.to_bytes();
    assert_eq!(PreparedVerifyingKey::from_bytes(&bytes), Ok(pvk));
}
