// Cross-checks key preparation and verification against ark_groth16 itself.
use ark_ff::BigInteger256 as ArkBig;
use groth16_verifier::artifact::{parse_public_inputs, public_inputs_from_strs};
use groth16_verifier::{
    get_prepared_verifying_key, verify, BigInteger256, CircomProofJson, Fq2, G1Affine, G2Affine,
    Proof, VerificationKeyJson, VerifyingKey,
};

fn s(x: &str) -> String {
    x.to_string()
}

fn fq(b: &BigInteger256) -> ark_bn254::Fq {
    ark_bn254::Fq::new(ArkBig::new(b.val))
}

fn fq2(e: &Fq2) -> ark_bn254::Fq2 {
    ark_bn254::Fq2::new(fq(&e.c0), fq(&e.c1))
}

fn g1(p: &G1Affine) -> ark_bn254::G1Affine {
    ark_bn254::G1Affine::new(fq(&p.x), fq(&p.y), p.infinity)
}

fn g2(p: &G2Affine) -> ark_bn254::G2Affine {
    ark_bn254::G2Affine::new(fq2(&p.x), fq2(&p.y), p.infinity)
}

fn ark_vk(vk: &VerifyingKey) -> ark_groth16::VerifyingKey<ark_bn254::Bn254> {
    ark_groth16::VerifyingKey {
        alpha_g1: g1(&vk.alpha_g1),
        beta_g2: g2(&vk.beta_g2),
        gamma_g2: g2(&vk.gamma_g2),
        delta_g2: g2(&vk.delta_g2),
        gamma_abc_g1: vk.gamma_abc_g1.iter().map(g1).collect(),
    }
}

fn key_json() -> VerificationKeyJson {
    VerificationKeyJson {
        protocol: s("groth16"),
        curve: s("bn128"),
        num_public: 1,
        vk_alpha_1: vec![
            s("8604667279420059501166553404773392135946736498054200992926926673060716660829"),
            s("20360062655515720670379654635393394213543483323604306907537674392480557199402"),
            s("1"),
        ],
        vk_beta_2: vec![
            vec![
                s("3043345541449451671254450988991753002656660035846876061355339859941832004318"),
                s("9366036361352379018594831897170702393774275718261521192392224789664885279048"),
            ],
            vec![
                s("13013276479422120091160662049955987435710012286605495842546532018893262680987"),
                s("14570689804927635484337933117252889899638838990887585775285700495326742500608"),
            ],
            vec![s("1"), s("0")],
        ],
        vk_gamma_2: vec![
            vec![
                s("10857046999023057135944570762232829481370756359578518086990519993285655852781"),
                s("11559732032986387107991004021392285783925812861821192530917403151452391805634"),
            ],
            vec![
                s("8495653923123431417604973247489272438418190587263600148770280649306958101930"),
                s("4082367875863433681332203403145435568316851327593401208105741076214120093531"),
            ],
            vec![s("1"), s("0")],
        ],
        vk_delta_2: vec![
            vec![
                s("2734577848493477101784673168916689189152190109550989513773621988766628013896"),
                s("20992053824921110769159163698868426355728207712097181822869885973257549986665"),
            ],
            vec![
                s("18858728426139214530397886298764629051579512035453478146479294850808428228226"),
                s("16650869185745772661582147225220884707446064820553793560683789497559329846949"),
            ],
            vec![s("1"), s("0")],
        ],
        vk_alphabeta_12: Vec::new(),
        ic: vec![
            vec![
                s("20510024326636861894856056279186972251820656064299818504132684390781123564002"),
                s("3794043495370927585051135397901732182692326739063049522454286904701134003013"),
                s("1"),
            ],
            vec![
                s("7791962724153994122113202116325467726962116651195725568779661762583649623632"),
                s("21733435539045095673745804075891544265305400637072500486664710068860705765791"),
                s("1"),
            ],
        ],
    }
}

#[test]
fn preparation_matches_ark_groth16() {
    let pvk = get_prepared_verifying_key(&key_json()).unwrap();
    let theirs = ark_groth16::prepare_verifying_key(&ark_vk(&pvk.vk));
    let t = &theirs.alpha_g1_beta_g2;
    let ours = &pvk.alpha_g1_beta_g2;
    assert_eq!(fq2(&ours.c0.c0), t.c0.c0);
    assert_eq!(fq2(&ours.c0.c2), t.c0.c2);
    assert_eq!(fq2(&ours.c1.c1), t.c1.c1);
    let lines = &theirs.gamma_g2_neg_pc.ell_coeffs;
    assert_eq!(lines.len(), pvk.gamma_g2_neg_pc.ell_coeffs.len());
    for (a, b) in lines.iter().zip(pvk.gamma_g2_neg_pc.ell_coeffs.iter()) {
        assert_eq!(a.0, fq2(&b.0));
        assert_eq!(a.1, fq2(&b.1));
        assert_eq!(a.2, fq2(&b.2));
    }
    let dlines = &theirs.delta_g2_neg_pc.ell_coeffs;
    assert_eq!(dlines[90].2, fq2(&pvk.delta_g2_neg_pc.ell_coeffs[90].2));
}

fn proof_json() -> CircomProofJson {
    CircomProofJson {
        pi_a: vec![
            s("20198676790799425245595459194274498752473994950719073183074649501711660535595"),
            s("12758475309915023533579531485441554907458299575042834087971469653289637732346"),
            s("1"),
        ],
        pi_b: vec![
            vec![
                s("13742117572560123711123425096963974481037753438772131102525214062174465939468"),
                s("9217768357543713672348398426848893195759877300475465964741673960918197283129"),
            ],
            vec![
                s("13388985823083338129254299703944286332336674476925977438789020739020226493083"),
                s("13389941977815367065802562753053209214146349395284722106316234427940539426898"),
            ],
            vec![s("1"), s("0")],
        ],
        pi_c: vec![
            s("5988936190268741469108357726405145464702633179533876088993318355641592876129"),
            s("15053058905266236652562457399329328685910831643948235107886315836157181001907"),
            s("1"),
        ],
        protocol: s("groth16"),
        curve: String::new(),
    }
}

#[test]
fn verdicts_match_ark_groth16_on_mismatched_key() {
    // the proof belongs to another key: both implementations reject it
    let pvk = get_prepared_verifying_key(&key_json()).unwrap();
    let proof = Proof::from_json(&proof_json()).unwrap();
    let inputs = public_inputs_from_strs(&parse_public_inputs(r#"["1"]"#).unwrap()).unwrap();
    let ours = verify(&pvk, &proof, &inputs).unwrap();
    let theirs_pvk = ark_groth16::prepare_verifying_key(&ark_vk(&pvk.vk));
    let theirs_proof = ark_groth16::Proof { a: g1(&proof.a), b: g2(&proof.b), c: g1(&proof.c) };
    let xs: Vec<ark_bn254::Fr> =
        inputs.iter().map(|x| ark_bn254::Fr::new(ArkBig::new(x.c0.val))).collect();
    let theirs = ark_groth16::verify_proof(&theirs_pvk, &theirs_proof, &xs).unwrap();
    assert_eq!(ours, theirs);
    assert!(!ours);
}
