//! Decimal literals and the field elements they denote. A field element is
//! kept in Montgomery form: the limbs of `n * 2^256 mod m` stand for `n mod m`.
use crate::backend::{parse_fq, parse_fr};
use crate::error::VerifierError;
use crate::model::{
    lemma_limbs_lt, lemma_limbs_of_value, limbs_of, limbs_value, BigInteger256, Fq, Fq12, Fq2, Fr,
};
use vstd::prelude::*;

verus! {

/// The modulus of the base field, which curve coordinates live in.
pub open spec fn base_modulus() -> nat {
    21888242871839275222246405745257275088696311157297823662689037894645226208583nat
}

/// The modulus of the scalar field, which public inputs live in.
pub open spec fn scalar_modulus() -> nat {
    21888242871839275222246405745257275088548364400416034343698204186575808495617nat
}

/// `2^256`, the Montgomery radix of four 64-bit limbs.
pub open spec fn limb_radix() -> nat {
    0x1_0000_0000_0000_0000_0000_0000_0000_0000_0000_0000_0000_0000_0000_0000_0000_0000nat
}

/// The limbs are those of an element of the base field: below its modulus.
pub open spec fn fq_in_range(b: BigInteger256) -> bool {
    limbs_value(b) < base_modulus()
}

pub open spec fn fq2_in_range(e: Fq2) -> bool {
    fq_in_range(e.c0) && fq_in_range(e.c1)
}

pub open spec fn fq12_in_range(f: Fq12) -> bool {
    &&& fq2_in_range(f.c0.c0) && fq2_in_range(f.c0.c1) && fq2_in_range(f.c0.c2)
    &&& fq2_in_range(f.c1.c0) && fq2_in_range(f.c1.c1) && fq2_in_range(f.c1.c2)
}

/// The Montgomery representative of `n` modulo `m`.
pub open spec fn montgomery_form(n: nat, m: nat) -> nat {
    (n * limb_radix()) % m
}

pub open spec fn is_ascii_digit(c: char) -> bool {
    '0' <= c && c <= '9'
}

pub open spec fn digit_value(c: char) -> nat {
    (c as nat - '0' as nat) as nat
}

/// A non-negative base-ten literal: digits only, at least one, and no leading
/// zero unless the literal is `0` itself.
pub open spec fn is_decimal_literal(s: Seq<char>) -> bool {
    &&& s.len() > 0
    &&& forall|i: int| 0 <= i < s.len() ==> is_ascii_digit(#[trigger] s[i])
    &&& (s.len() == 1 || s[0] != '0')
}

/// The integer that a string of digits spells.
pub open spec fn decimal_value(s: Seq<char>) -> nat
    decreases s.len(),
{
    if s.len() == 0 {
        0
    } else {
        decimal_value(s.drop_last()) * 10 + digit_value(s.last())
    }
}

/// Whether the limbs are below the base field's modulus.
pub fn check_fq_in_range(b: &BigInteger256) -> (r: bool)
    ensures
        r == fq_in_range(*b),
{
    let m = BigInteger256::new(
        [4332616871279656263, 10917124144477883021, 13281191951274694749, 3486998266802970665],
    );
    proof {
        lemma_limbs_lt(*b, m);
        assert(limbs_value(m) == base_modulus());
    }
    b.val[3] < m.val[3] || (b.val[3] == m.val[3] && (b.val[2] < m.val[2] || (b.val[2] == m.val[2]
        && (b.val[1] < m.val[1] || (b.val[1] == m.val[1] && b.val[0] < m.val[0])))))
}

fn check_fq2_in_range(e: &Fq2) -> (r: bool)
    ensures
        r == fq2_in_range(*e),
{
    check_fq_in_range(&e.c0) && check_fq_in_range(&e.c1)
}

/// Whether all twelve components are below the base field's modulus.
pub fn check_fq12_in_range(f: &Fq12) -> (r: bool)
    ensures
        r == fq12_in_range(*f),
{
    check_fq2_in_range(&f.c0.c0) && check_fq2_in_range(&f.c0.c1) && check_fq2_in_range(&f.c0.c2)
        && check_fq2_in_range(&f.c1.c0) && check_fq2_in_range(&f.c1.c1) && check_fq2_in_range(
        &f.c1.c2,
    )
}

/// A string of decimal digits: at least one, and nothing else. Leading
/// zeros are allowed.
pub open spec fn is_digit_string(s: Seq<char>) -> bool {
    &&& s.len() > 0
    &&& forall|i: int| 0 <= i < s.len() ==> is_ascii_digit(#[trigger] s[i])
}

/// Whether `s` is a string of decimal digits.
pub fn check_digit_string(s: &str) -> (r: bool)
    ensures
        r == is_digit_string(s@),
{
    let n = s.unicode_len();
    if n == 0 {
        return false;
    }
    let mut i: usize = 0;
    while i < n
        invariant
            n == s@.len(),
            i <= n,
            forall|j: int| 0 <= j < i ==> is_ascii_digit(#[trigger] s@[j]),
        decreases n - i,
    {
        let c = s.get_char(i);
        if !('0' <= c && c <= '9') {
            return false;
        }
        i += 1;
    }
    true
}

proof fn lemma_zeros_value(z: Seq<char>)
    requires
        forall|i: int| 0 <= i < z.len() ==> z[i] == '0',
    ensures
        decimal_value(z) == 0,
    decreases z.len(),
{
    if z.len() > 0 {
        lemma_zeros_value(z.drop_last());
    }
}

/// Leading zeros do not change the integer that digits spell.
proof fn lemma_leading_zeros_value(z: Seq<char>, t: Seq<char>)
    requires
        forall|i: int| 0 <= i < z.len() ==> z[i] == '0',
    ensures
        decimal_value(z + t) == decimal_value(t),
    decreases t.len(),
{
    if t.len() == 0 {
        assert(z + t =~= z);
        lemma_zeros_value(z);
    } else {
        assert((z + t).drop_last() =~= z + t.drop_last());
        lemma_leading_zeros_value(z, t.drop_last());
        assert((z + t).last() == t.last());
    }
}

/// `s` without its leading zeros, keeping at least one digit: a decimal
/// literal exactly when `s` is a string of digits, and spelling the same
/// integer.
fn strip_leading_zeros<'a>(s: &'a str) -> (t: &'a str)
    ensures
        is_digit_string(s@) <==> is_decimal_literal(t@),
        is_digit_string(s@) ==> decimal_value(t@) == decimal_value(s@),
{
    let n = s.unicode_len();
    let mut i: usize = 0;
    while i + 1 < n && s.get_char(i) == '0'
        invariant
            n == s@.len(),
            i <= n,
            n > 0 ==> i < n,
            forall|j: int| 0 <= j < i ==> s@[j] == '0',
        decreases n - i,
    {
        i += 1;
    }
    let t = s.substring_char(i, n);
    proof {
        let z = s@.subrange(0, i as int);
        assert(s@ =~= z + t@);
        lemma_leading_zeros_value(z, t@);
        if is_digit_string(s@) {
            assert forall|j: int| 0 <= j < t@.len() implies is_ascii_digit(#[trigger] t@[j]) by {
                assert(t@[j] == s@[j + i]);
            }
        }
        if is_decimal_literal(t@) {
            assert forall|j: int| 0 <= j < s@.len() implies is_ascii_digit(#[trigger] s@[j]) by {
                if j >= i {
                    assert(s@[j] == t@[j - i]);
                }
            }
        }
    }
    t
}

/// The base-field element that the digits `s` denote, reduced modulo the
/// modulus, or `MalformedNumber`.
pub open spec fn spec_fq_from_str(s: Seq<char>) -> Result<Fq, VerifierError> {
    if is_digit_string(s) {
        Ok(Fq { c0: limbs_of(montgomery_form(decimal_value(s), base_modulus())) })
    } else {
        Err(VerifierError::MalformedNumber)
    }
}

/// The scalar-field element that the digits `s` denote, reduced modulo the
/// modulus, or `MalformedNumber`.
pub open spec fn spec_fr_from_str(s: Seq<char>) -> Result<Fr, VerifierError> {
    if is_digit_string(s) {
        Ok(Fr { c0: limbs_of(montgomery_form(decimal_value(s), scalar_modulus())) })
    } else {
        Err(VerifierError::MalformedNumber)
    }
}

/// The base-field element that a string of decimal digits denotes, reduced
/// modulo the modulus and in Montgomery form, or `MalformedNumber` when the
/// string is empty or holds anything but digits.
pub fn fq_from_str(s: &str) -> (r: Result<Fq, VerifierError>)
    ensures
        r == spec_fq_from_str(s@),
        r is Ok <==> is_digit_string(s@),
        r matches Ok(f) ==> limbs_value(f.c0) == montgomery_form(decimal_value(s@), base_modulus()),
        r matches Ok(f) ==> fq_in_range(f.c0),
{
    match parse_fq(strip_leading_zeros(s)) {
        Some(b) => {
            proof {
                lemma_limbs_of_value(b);
            }
            Ok(Fq::new(b))
        },
        None => Err(VerifierError::MalformedNumber),
    }
}

/// The scalar-field element that a string of decimal digits denotes, reduced
/// modulo the modulus and in Montgomery form, or `MalformedNumber` when the
/// string is empty or holds anything but digits.
pub fn fr_from_str(s: &str) -> (r: Result<Fr, VerifierError>)
    ensures
        r is Ok <==> is_digit_string(s@),
        r matches Ok(f) ==> limbs_value(f.c0) == montgomery_form(
            decimal_value(s@),
            scalar_modulus(),
        ),
        r == spec_fr_from_str(s@),
{
    match parse_fr(strip_leading_zeros(s)) {
        Some(f) => {
            proof {
                lemma_limbs_of_value(f.c0);
            }
            Ok(f)
        },
        None => Err(VerifierError::MalformedNumber),
    }
}

pub open spec fn digit_char(d: nat) -> char {
    if d == 0 {
        '0'
    } else if d == 1 {
        '1'
    } else if d == 2 {
        '2'
    } else if d == 3 {
        '3'
    } else if d == 4 {
        '4'
    } else if d == 5 {
        '5'
    } else if d == 6 {
        '6'
    } else if d == 7 {
        '7'
    } else if d == 8 {
        '8'
    } else {
        '9'
    }
}

/// The decimal literal of `n`: its digits, most significant first, with no
/// leading zero.
pub open spec fn to_decimal(n: nat) -> Seq<char>
    decreases n,
{
    if n < 10 {
        seq![digit_char(n)]
    } else {
        to_decimal(n / 10).push(digit_char(n % 10))
    }
}

/// `to_decimal(n)` is a decimal literal and spells `n`.
pub proof fn lemma_to_decimal(n: nat)
    ensures
        is_decimal_literal(to_decimal(n)),
        decimal_value(to_decimal(n)) == n,
        n > 0 ==> to_decimal(n)[0] != '0',
    decreases n,
{
    let s = to_decimal(n);
    if n < 10 {
        assert(s.drop_last() =~= Seq::<char>::empty());
        assert(decimal_value(Seq::<char>::empty()) == 0);
        assert(digit_value(digit_char(n)) == n);
        assert(decimal_value(s) == decimal_value(s.drop_last()) * 10 + digit_value(s.last()));
    } else {
        let t = to_decimal(n / 10);
        lemma_to_decimal(n / 10);
        vstd::arithmetic::div_mod::lemma_fundamental_div_mod(n as int, 10);
        assert(s.drop_last() =~= t);
        assert(digit_value(digit_char(n % 10)) == n % 10);
        assert(s.last() == digit_char(n % 10));
        assert(decimal_value(s) == decimal_value(t) * 10 + digit_value(s.last()));
        assert(s[0] == t[0]);
        assert forall|i: int| 0 <= i < s.len() implies is_ascii_digit(#[trigger] s[i]) by {
            if i < t.len() {
                assert(s[i] == t[i]);
            }
        }
    }
}

/// Writing the integer of a base-field element in decimal and reading it back
/// gives that element again.
pub proof fn lemma_fq_decimal_round_trip(x: Fq, n: nat)
    requires
        n < base_modulus(),
        limbs_value(x.c0) == montgomery_form(n, base_modulus()),
    ensures
        spec_fq_from_str(to_decimal(n)) == Ok::<Fq, VerifierError>(x),
{
    lemma_to_decimal(n);
    lemma_limbs_of_value(x.c0);
}

/// Writing the integer of a scalar-field element in decimal and reading it
/// back gives that element again.
pub proof fn lemma_fr_decimal_round_trip(x: Fr, n: nat)
    requires
        n < scalar_modulus(),
        limbs_value(x.c0) == montgomery_form(n, scalar_modulus()),
    ensures
        spec_fr_from_str(to_decimal(n)) == Ok::<Fr, VerifierError>(x),
{
    lemma_to_decimal(n);
    lemma_limbs_of_value(x.c0);
}

} // verus!
