use groth16_verifier::groth16::{finish, neg_g2, normalize, pairing, pairing_verdict};
use groth16_verifier::model::G1Projective;
use groth16_verifier::{
    fq_from_str, fr_from_str, get_prepared_verifying_key, verify, verify_proof, BigInteger256,
    CircomProofJson, Fr, G1Affine, Proof, VerificationKeyJson, VerifierError, VerifyingKey,
};
use groth16_verifier::artifact::{
    g1_from_str, g2_from_str, parse_public_inputs, public_inputs_from_strs,
};

// Sample artifacts: a key with twenty-one public inputs with a matching proof
// and inputs, and a key with one public input.

pub fn s(x: &str) -> String {
    x.to_string()
}

pub fn vkey_21() -> VerificationKeyJson {
    VerificationKeyJson {
        protocol: s("groth16"),
        curve: s("bn128"),
        num_public: 21,
        vk_alpha_1: vec![s("20491192805390485299153009773594534940189261866228447918068658471970481763042"), s("9383485363053290200918347156157836566562967994039712273449902621266178545958"), s("1")],
        vk_beta_2: vec![vec![s("6375614351688725206403948262868962793625744043794305715222011528459656738731"), s("4252822878758300859123897981450591353533073413197771768651442665752259397132")], vec![s("10505242626370262277552901082094356697409835680220590971873171140371331206856"), s("21847035105528745403288232691147584728191162732299865338377159692350059136679")], vec![s("1"), s("0")]],
        vk_gamma_2: vec![vec![s("10857046999023057135944570762232829481370756359578518086990519993285655852781"), s("11559732032986387107991004021392285783925812861821192530917403151452391805634")], vec![s("8495653923123431417604973247489272438418190587263600148770280649306958101930"), s("4082367875863433681332203403145435568316851327593401208105741076214120093531")], vec![s("1"), s("0")]],
        vk_delta_2: vec![vec![s("166438788818422684353143109466712365495487529761282054253940311767202847529"), s("14821889692288092546390398853883577003395705920427691037003877337111307008319")], vec![s("5211044291848451570308359449705497730711843248959818951644537468318735026319"), s("3349759874590271776701023934351541831283252450166481144436728710799565826635")], vec![s("1"), s("0")]],
        vk_alphabeta_12: vec![vec![vec![s("2029413683389138792403550203267699914886160938906632433982220835551125967885"), s("21072700047562757817161031222997517981543347628379360635925549008442030252106")], vec![s("5940354580057074848093997050200682056184807770593307860589430076672439820312"), s("12156638873931618554171829126792193045421052652279363021382169897324752428276")], vec![s("7898200236362823042373859371574133993780991612861777490112507062703164551277"), s("7074218545237549455313236346927434013100842096812539264420499035217050630853")]], vec![vec![s("7077479683546002997211712695946002074877511277312570035766170199895071832130"), s("10093483419865920389913245021038182291233451549023025229112148274109565435465")], vec![s("4595479056700221319381530156280926371456704509942304414423590385166031118820"), s("19831328484489333784475432780421641293929726139240675179672856274388269393268")], vec![s("11934129596455521040620786944827826205713621633706285934057045369193958244500"), s("8037395052364110730298837004334506829870972346962140206007064471173334027475")]]],
        ic: vec![vec![s("19975645442203377055504350944199411205645925605842881710313661501103970826593"), s("17515161622283010384423259590087060433422690594791060414171309961412819784969"), s("1")], vec![s("8314529012362679498714409542216060373647165806213078732764739247682086265767"), s("121366207716244222195924313927761544312158108247873731042786280646943184074"), s("1")], vec![s("16709720837782968526180617884167855231344603866174025119200385206304701258678"), s("3147822512060247213265367088074297137791420360497197470911250310113275037763"), s("1")], vec![s("14216723210244410575876418879665374598747581482663712212010511617392597830954"), s("15811996758528967218865995673654714048570588460636125402018277656651434631576"), s("1")], vec![s("7348238908009886871059992732128931157271697524606274111411455960455037416413"), s("14001472805890407823397893627240743988837305207489952388063413323698861707624"), s("1")], vec![s("2138882192497635891459717929673559440104769163700828386965661447497938982721"), s("5186793583243682306353927402481196491547812815293709454908025411581465445004"), s("1")], vec![s("2116764452247307873087707246637130330345204236852642632713114592476993977670"), s("14896161713831569254989869822450928542555444355351318861266435690413316845347"), s("1")], vec![s("16392430006950202355682918247811738427580100868571691215288876389925500647279"), s("19437084047439114680241004405825353549565621104782399561893962443338240135858"), s("1")], vec![s("16963065381115919041780779888616737843143206987161162977928288398707149790618"), s("9087066945988971374305861013885116715721320414719802148300649773920118102481"), s("1")], vec![s("13714673228950478504452201663230221577251226934030004828193127473877480610295"), s("9332072320101623120415187992550525752876274301602491265535702933221101004380"), s("1")], vec![s("1064045990922553586834518447367936820175319540784875187573912133883165188670"), s("18287981330912970040426745735838860702735392209815444404076135459948276202848"), s("1")], vec![s("9210826867500141415001909980706988517816622370128886786816673451224513701503"), s("3651094788905360180553273507287364045940819368096000322156684552199804097143"), s("1")], vec![s("17720362295505313322759315353391656693108343058592864160681048989141882794083"), s("10097671657793855671159749436121468469201270375403582850205385628210921488731"), s("1")], vec![s("9801543874486422221954003660705098546171144064277720948049325854942931758306"), s("20479944074043794678092216875190551894013835948904068657881623722226189539016"), s("1")], vec![s("5374663040433250412848838440386505484894911153493652424898166227177046711199"), s("13679665179607144765496503536099360866217236185602567461732884358192393872279"), s("1")], vec![s("1064329530975255434535409396597644022861254752006703233721201637345800440139"), s("5140009461438788926486789050955593582109349287858692508879168080077367120629"), s("1")], vec![s("15366436033551689602012357199098419434258945123964889817106842055644617190504"), s("898268788386333715715903230667785887632210104432209295828625929694299885006"), s("1")], vec![s("5625417729666095139456177838606211212046421091440422619829111829213675828978"), s("18455517249670178543137281808225159109856379895586238312217422816116366743603"), s("1")], vec![s("17537235019815029148949517328224734386526017513684721827218738801833451783210"), s("2342105886191919519714066767578407697780765722350456533494274069027087830216"), s("1")], vec![s("8512191115799353035296472708809096858085180357544392842547774011355858433041"), s("2541245043439530389724749443817975569327264943016202232800605721736943199048"), s("1")], vec![s("19224585989189727449965872368330162278522031170641583311558474979239173678715"), s("18166021891232232834725962994255689261693690030629187665379835418854223722023"), s("1")], vec![s("14017181509831449693830612331037537298674425286306310710534048602053149127774"), s("330831566870832606085453648362982294226755734586757078631724647552023101374"), s("1")]],
    }
}

pub fn vkey_1() -> VerificationKeyJson {
    VerificationKeyJson {
        protocol: s("groth16"),
        curve: s("bn128"),
        num_public: 1,
        vk_alpha_1: vec![s("8604667279420059501166553404773392135946736498054200992926926673060716660829"), s("20360062655515720670379654635393394213543483323604306907537674392480557199402"), s("1")],
        vk_beta_2: vec![vec![s("3043345541449451671254450988991753002656660035846876061355339859941832004318"), s("9366036361352379018594831897170702393774275718261521192392224789664885279048")], vec![s("13013276479422120091160662049955987435710012286605495842546532018893262680987"), s("14570689804927635484337933117252889899638838990887585775285700495326742500608")], vec![s("1"), s("0")]],
        vk_gamma_2: vec![vec![s("10857046999023057135944570762232829481370756359578518086990519993285655852781"), s("11559732032986387107991004021392285783925812861821192530917403151452391805634")], vec![s("8495653923123431417604973247489272438418190587263600148770280649306958101930"), s("4082367875863433681332203403145435568316851327593401208105741076214120093531")], vec![s("1"), s("0")]],
        vk_delta_2: vec![vec![s("2734577848493477101784673168916689189152190109550989513773621988766628013896"), s("20992053824921110769159163698868426355728207712097181822869885973257549986665")], vec![s("18858728426139214530397886298764629051579512035453478146479294850808428228226"), s("16650869185745772661582147225220884707446064820553793560683789497559329846949")], vec![s("1"), s("0")]],
        vk_alphabeta_12: vec![vec![vec![s("16403249578719490126072533602691465129046148109548339172692159293394071643386"), s("404083172884130787011880125990917651653105025179849649507378532814812033743")], vec![s("9304686624381716522435760802435389234743930919257995833040856535135604271150"), s("7297682513079878497741793281328503938637410885893249606756478534362180551835")], vec![s("17354121827975724085057788554351619925552460622743302973070914719205720740971"), s("17029060856042991949050729552637497721303925875794209439369222736105594947627")]], vec![vec![s("7351439472145663460303190808494715160984862908266037163980906171905322144196"), s("4899830427462111655211072420148616010374627247339367569243756669854362971692")], vec![s("11493816073724792379849577567766940080449553642999473348500952038852103043242"), s("20229043536413592615655482855555253411102261009946710916737819944352224248089")], vec![s("20445551610334345159229738787294472467932316248073152880543490797842284204290"), s("4991801408713450062187668790956752622553932388084176879623832267439560781668")]]],
        ic: vec![vec![s("20510024326636861894856056279186972251820656064299818504132684390781123564002"), s("3794043495370927585051135397901732182692326739063049522454286904701134003013"), s("1")], vec![s("7791962724153994122113202116325467726962116651195725568779661762583649623632"), s("21733435539045095673745804075891544265305400637072500486664710068860705765791"), s("1")]],
    }
}

pub fn proof_snarkjs() -> CircomProofJson {
    CircomProofJson {
        pi_a: vec![s("20198676790799425245595459194274498752473994950719073183074649501711660535595"), s("12758475309915023533579531485441554907458299575042834087971469653289637732346"), s("1")],
        pi_b: vec![vec![s("13742117572560123711123425096963974481037753438772131102525214062174465939468"), s("9217768357543713672348398426848893195759877300475465964741673960918197283129")], vec![s("13388985823083338129254299703944286332336674476925977438789020739020226493083"), s("13389941977815367065802562753053209214146349395284722106316234427940539426898")], vec![s("1"), s("0")]],
        pi_c: vec![s("5988936190268741469108357726405145464702633179533876088993318355641592876129"), s("15053058905266236652562457399329328685910831643948235107886315836157181001907"), s("1")],
        protocol: s("groth16"),
        curve: s("bn128"),
    }
}

pub fn proof_rapidsnark() -> CircomProofJson {
    CircomProofJson {
        pi_a: vec![s("20198676790799425245595459194274498752473994950719073183074649501711660535595"), s("12758475309915023533579531485441554907458299575042834087971469653289637732346"), s("1")],
        pi_b: vec![vec![s("13742117572560123711123425096963974481037753438772131102525214062174465939468"), s("9217768357543713672348398426848893195759877300475465964741673960918197283129")], vec![s("13388985823083338129254299703944286332336674476925977438789020739020226493083"), s("13389941977815367065802562753053209214146349395284722106316234427940539426898")], vec![s("1"), s("0")]],
        pi_c: vec![s("5988936190268741469108357726405145464702633179533876088993318355641592876129"), s("15053058905266236652562457399329328685910831643948235107886315836157181001907"), s("1")],
        protocol: s("groth16"),
        curve: s(""),
    }
}

pub const PUBLIC_INPUTS: &str = r#"
        [
            "1",
            "139034790179591340742761703217010858871",
            "178747724383637324525799708680472596098",
            "249730154399878769526315894913495941533",
            "339453732354324016397146782775657558721",
            "208326850591216812292393721318634961999",
            "28902942442541169865286267622270965052",
            "208326850591216812292393721318634961999",
            "28902942442541169865286267622270965052",
            "208326850591216812292393721318634961999",
            "28902942442541169865286267622270965052",
            "208326850591216812292393721318634961999",
            "28902942442541169865286267622270965052",
            "208326850591216812292393721318634961999",
            "28902942442541169865286267622270965052",
            "208326850591216812292393721318634961999",
            "28902942442541169865286267622270965052",
            "208326850591216812292393721318634961999",
            "28902942442541169865286267622270965052",
            "208326850591216812292393721318634961999",
            "28902942442541169865286267622270965052"
        ]
        "#;

fn pvk_21() -> groth16_verifier::PreparedVerifyingKey {
    get_prepared_verifying_key(&vkey_21()).unwrap()
}

fn inputs_21() -> Vec<Fr> {
    public_inputs_from_strs(&parse_public_inputs(PUBLIC_INPUTS).unwrap()).unwrap()
}

#[test]
fn mod_test_prepared_verification_key() {
    let prepared_vkey = get_prepared_verifying_key(&vkey_21()).unwrap();
    let x: BigInteger256 = BigInteger256::new([
        129941079445278231,
        14986904513597369283,
        4385962745611939561,
        498495035870568143,
    ]);
    let y: BigInteger256 = BigInteger256::new([
        3551982070992374558,
        4387704605030068278,
        1260785428361773688,
        452138810654549394,
    ]);
    let g1 = G1Affine::new(x, y, false);

    assert_eq!(g1, prepared_vkey.vk.alpha_g1);
}

#[test]
fn one_input_key_alpha_is_in_montgomery_form() {
    let prepared_vkey = get_prepared_verifying_key(&vkey_1()).unwrap();
    let x = BigInteger256::new([
        18174744979924266970,
        5920055764491683349,
        3401623676778019423,
        3158170900049899811,
    ]);
    let y = BigInteger256::new([
        12184453621921457637,
        16533677166886476317,
        9526715874316704765,
        1608788193055366612,
    ]);
    assert_eq!(G1Affine::new(x, y, false), prepared_vkey.vk.alpha_g1);
    assert_eq!(prepared_vkey.vk.gamma_abc_g1.len(), 2);
}

#[test]
fn test_parse_public_input() {
    let pub_input_str = r#"[
            "1",
            "277989581668086710587965336712738880284",
            "314891321346369595428838678892844352460"
        ]"#;
    let inputs = parse_public_inputs(pub_input_str).unwrap();
    assert_eq!("1", inputs[0]);
    assert_eq!("277989581668086710587965336712738880284", inputs[1]);
    assert_eq!("314891321346369595428838678892844352460", inputs[2]);
}

#[test]
fn test_valid_proof_snarkjs() {
    let prepared_vkey = pvk_21();
    let res = verify_proof(&prepared_vkey, &proof_snarkjs(), PUBLIC_INPUTS);
    assert!(res.unwrap());
}

#[test]
fn test_valid_proof_rapidsnark() {
    let prepared_vkey = pvk_21();
    let res = verify_proof(&prepared_vkey, &proof_rapidsnark(), PUBLIC_INPUTS);
    assert!(res.unwrap());
}

#[test]
fn parsed_key_has_twenty_two_commitment_points() {
    let vk = VerifyingKey::from_json(&vkey_21()).unwrap();
    assert_eq!(vk.gamma_abc_g1.len(), 22);
    assert!(!vk.beta_g2.infinity);
}

#[test]
fn changing_one_public_input_rejects_the_proof() {
    let pvk = pvk_21();
    let proof = Proof::from_json(&proof_snarkjs()).unwrap();
    let mut strs = parse_public_inputs(PUBLIC_INPUTS).unwrap();
    strs[1] = "139034790179591340742761703217010858872".to_string();
    let inputs = public_inputs_from_strs(&strs).unwrap();
    assert_eq!(verify(&pvk, &proof, &inputs), Ok(false));
    assert_eq!(verify(&pvk, &proof, &inputs_21()), Ok(true));
}

#[test]
fn flipping_a_bit_of_the_proof_rejects_it() {
    let pvk = pvk_21();
    let inputs = inputs_21();
    let good = Proof::from_json(&proof_snarkjs()).unwrap();
    let mut a = good;
    a.a.x.val[0] ^= 1;
    assert_eq!(verify(&pvk, &a, &inputs), Ok(false));
    let mut b = good;
    b.b.y.c1.val[2] ^= 1 << 7;
    assert_eq!(verify(&pvk, &b, &inputs), Ok(false));
    let mut c = good;
    c.c.y.val[3] ^= 1 << 3;
    assert_eq!(verify(&pvk, &c, &inputs), Ok(false));
}

#[test]
fn wrong_number_of_public_inputs_is_refused() {
    let pvk = pvk_21();
    let proof = Proof::from_json(&proof_snarkjs()).unwrap();
    let inputs = inputs_21();
    assert_eq!(verify(&pvk, &proof, &Vec::new()), Err(VerifierError::PublicInputCountMismatch));
    assert_eq!(
        verify(&pvk, &proof, &inputs[..20].to_vec()),
        Err(VerifierError::PublicInputCountMismatch)
    );
    let mut more = inputs.clone();
    more.push(inputs[0]);
    assert_eq!(verify(&pvk, &proof, &more), Err(VerifierError::PublicInputCountMismatch));
}

#[test]
fn malformed_public_inputs_are_refused() {
    let pvk = pvk_21();
    let proof = proof_snarkjs();
    assert_eq!(verify_proof(&pvk, &proof, r#"["-1"]"#), Err(VerifierError::MalformedNumber));
    assert_eq!(verify_proof(&pvk, &proof, r#"["abc"]"#), Err(VerifierError::MalformedNumber));
    assert_eq!(verify_proof(&pvk, &proof, r#"{"a": 1}"#), Err(VerifierError::SchemaError));
    assert_eq!(verify_proof(&pvk, &proof, "[1, 2]"), Err(VerifierError::SchemaError));
    assert_eq!(fr_from_str("-1"), Err(VerifierError::MalformedNumber));
    assert_eq!(fr_from_str("abc"), Err(VerifierError::MalformedNumber));
}

#[test]
fn key_without_alpha_is_a_schema_error() {
    let mut j = vkey_21();
    j.vk_alpha_1 = Vec::new();
    assert_eq!(
        get_prepared_verifying_key(&j).err(),
        Some(VerifierError::SchemaError)
    );
    let mut k = vkey_21();
    k.vk_beta_2.pop();
    assert_eq!(VerifyingKey::from_json(&k).err(), Some(VerifierError::SchemaError));
    let mut m = vkey_21();
    m.ic[3][1] = "12x".to_string();
    assert_eq!(VerifyingKey::from_json(&m).err(), Some(VerifierError::MalformedNumber));
}

#[test]
fn proof_with_short_pi_b_is_a_schema_error() {
    let mut p = proof_snarkjs();
    p.pi_b[2] = vec![s("1")];
    assert_eq!(Proof::from_json(&p).err(), Some(VerifierError::SchemaError));
}

#[test]
fn decimal_literals_become_montgomery_limbs() {
    let one = fq_from_str("1").unwrap();
    assert_eq!(
        one.c0.val,
        [15230403791020821917, 754611498739239741, 7381016538464732716, 1011752739694698287]
    );
    assert_eq!(fq_from_str("0").unwrap().c0.val, [0, 0, 0, 0]);
    let r_one = fr_from_str("1").unwrap();
    assert_eq!(
        r_one.c0.val,
        [12436184717236109307, 3962172157175319849, 7381016538464732718, 1011752739694698287]
    );
    assert_eq!(fq_from_str("01"), fq_from_str("1"));
    assert_eq!(fq_from_str("000").unwrap().c0.val, [0, 0, 0, 0]);
    assert_eq!(fr_from_str("007"), fr_from_str("7"));
    assert_eq!(fq_from_str(""), Err(VerifierError::MalformedNumber));
    assert_eq!(fq_from_str("+1"), Err(VerifierError::MalformedNumber));
    // the modulus itself reduces to zero
    let p = "21888242871839275222246405745257275088696311157297823662689037894645226208583";
    assert_eq!(fq_from_str(p).unwrap().c0.val, [0, 0, 0, 0]);
}

#[test]
fn zero_z_gives_the_point_at_infinity() {
    let p = g1_from_str(&vec![s("5"), s("7"), s("0")]).unwrap();
    assert!(p.infinity);
    assert_eq!(p.x.val, [0, 0, 0, 0]);
    assert_eq!(p.y.val, [0, 0, 0, 0]);
    assert_eq!(g1_from_str(&vec![s("5"), s("7")]), Err(VerifierError::SchemaError));
}

#[test]
fn jacobian_coordinates_are_normalised() {
    // (x, y, 1) and (4x, 8y, 2) are the same point in Jacobian coordinates
    let a = g1_from_str(&vec![s("1"), s("2"), s("1")]).unwrap();
    let b = g1_from_str(&vec![s("4"), s("16"), s("2")]).unwrap();
    assert_eq!(a, b);
    assert_eq!(a.x, fq_from_str("1").unwrap().c0);
}

#[test]
fn negation_flips_y_only() {
    let vk = VerifyingKey::from_json(&vkey_21()).unwrap();
    let n = neg_g2(&vk.gamma_g2);
    assert_eq!(n.x, vk.gamma_g2.x);
    assert_ne!(n.y, vk.gamma_g2.y);
    assert_eq!(neg_g2(&n), vk.gamma_g2);
}

#[test]
fn pairing_is_bilinear_on_a_sample() {
    let vk = VerifyingKey::from_json(&vkey_21()).unwrap();
    let e = pairing(&vk.alpha_g1, &vk.beta_g2).unwrap();
    let pvk = pvk_21();
    assert_eq!(e, pvk.alpha_g1_beta_g2);
    let e_neg = pairing(&vk.alpha_g1, &neg_g2(&vk.beta_g2)).unwrap();
    assert_ne!(e, e_neg);
}

#[test]
fn second_group_jacobian_coordinates_are_normalised() {
    // (x, y, 1) and (4x, 8y, 2) over Fq2 are the same point
    let a = g2_from_str(&vec![vec![s("1"), s("2")], vec![s("3"), s("4")], vec![s("1"), s("0")]]);
    let b = g2_from_str(&vec![vec![s("4"), s("8")], vec![s("24"), s("32")], vec![s("2"), s("0")]]);
    assert_eq!(a, b);
    let c = a.unwrap();
    assert!(!c.infinity);
    assert_eq!(c.y.c1, fq_from_str("4").unwrap().c0);
    let inf = g2_from_str(&vec![vec![s("1"), s("2")], vec![s("3"), s("4")], vec![s("0"), s("0")]]);
    assert!(inf.unwrap().infinity);
    assert_eq!(
        g2_from_str(&vec![vec![s("1"), s("2")], vec![s("3")], vec![s("1"), s("0")]]),
        Err(VerifierError::SchemaError)
    );
}

#[test]
fn part_one_of_the_key_is_read_without_ic() {
    let mut j = vkey_21();
    j.ic = Vec::new();
    let part = groth16_verifier::VerifyingKeyPart1::from_json(&j).unwrap();
    let vk = VerifyingKey::from_json(&vkey_21()).unwrap();
    assert_eq!(part, groth16_verifier::VerifyingKeyPart1::from_key(&vk));
}

#[test]
fn verdict_compares_the_outcome_with_the_expected_value() {
    let pvk = pvk_21();
    let t = pvk.alpha_g1_beta_g2;
    assert_eq!(pairing_verdict(&Ok(t), &t), Ok(true));
    let mut u = t;
    u.c1.c2.c0.val[0] ^= 1;
    assert_eq!(pairing_verdict(&Ok(u), &t), Ok(false));
    assert_eq!(
        pairing_verdict(&Err(VerifierError::PairingFailure), &t),
        Err(VerifierError::PairingFailure)
    );
}

#[test]
fn out_of_range_values_are_refused_before_inversion() {
    let modulus = BigInteger256::new([
        4332616871279656263,
        10917124144477883021,
        13281191951274694749,
        3486998266802970665,
    ]);
    let mut f = pvk_21().alpha_g1_beta_g2;
    f.c0.c1.c1 = modulus;
    assert_eq!(finish(&f), Err(VerifierError::OutOfRange));
    let one = fq_from_str("1").unwrap().c0;
    let p = G1Projective { x: one, y: one, z: modulus };
    assert_eq!(normalize(&p), Err(VerifierError::OutOfRange));
    let zero = fq_from_str("0").unwrap().c0;
    let q = normalize(&G1Projective { x: one, y: one, z: zero }).unwrap();
    assert!(q.infinity);
    let r = normalize(&G1Projective { x: one, y: one, z: one }).unwrap();
    assert_eq!(r, G1Affine::new(one, one, false));
}

#[test]
fn public_inputs_must_be_digit_strings() {
    assert_eq!(parse_public_inputs(r#"["-1"]"#), Err(VerifierError::MalformedNumber));
    assert_eq!(parse_public_inputs(r#"["abc"]"#), Err(VerifierError::MalformedNumber));
    assert_eq!(parse_public_inputs(r#"["1", ""]"#), Err(VerifierError::MalformedNumber));
    assert_eq!(parse_public_inputs("[1]"), Err(VerifierError::SchemaError));
    assert_eq!(parse_public_inputs(r#"["01", "2"]"#).unwrap(), vec![s("01"), s("2")]);
}

#[test]
fn leading_zeros_in_inputs_are_accepted() {
    let pvk = pvk_21();
    let proof = proof_snarkjs();
    let padded = PUBLIC_INPUTS.replacen("\"1\"", "\"0001\"", 1);
    assert_eq!(verify_proof(&pvk, &proof, &padded), Ok(true));
}
