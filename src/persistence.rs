//! Reading and writing whole values in the binary form, and the laws that
//! tie the two together: reading back what was written gives the value again.
use crate::codec::{
    agrees, enc_big, enc_fq12, enc_fq2, enc_fq6, enc_g1, enc_g1s, enc_g2, enc_g2_prepared,
    lemma_big_bytes, lemma_big_len, lemma_fq12_bytes, lemma_fq12_len, lemma_fq2_bytes,
    lemma_fq6_bytes, lemma_g1_bytes, lemma_g2_bytes, lemma_fq2_len, lemma_fq6_len, lemma_g1_len, lemma_g1s_len,
    lemma_g2_len, lemma_g2_prepared_len, lemma_parse_big, lemma_parse_fq12, lemma_parse_fq2,
    lemma_parse_fq6, lemma_parse_g1, lemma_parse_g1s, lemma_parse_g2, lemma_parse_g2_prepared,
    lemma_parse_u32, lemma_split, parse_big, parse_fq12, parse_fq2, parse_fq6, parse_g1,
    parse_g1s, parse_g2, parse_g2_prepared, parse_u32, read_big, read_fq12, read_fq2, read_fq6,
    read_g1, read_g1s, read_g2, read_g2_prepared, read_u32, write_big, write_fq12, write_fq2,
    write_fq6, write_g1, write_g1s, write_g2, write_g2_prepared, write_u32,
};
use crate::error::DecodeError;
use crate::model::{
    BigInteger256, Fq, Fq12, Fq2, Fq6, Fr, G1Affine, G2Affine, G2Prepared, G2PreparedView,
    PreparedVerifyingKey, PreparedVerifyingKeyView, Proof, VerifyingKey, VerifyingKeyPart1,
    VerifyingKeyView,
};
use vstd::bytes::{lemma_auto_spec_u32_to_from_le_bytes, spec_u32_to_le_bytes};
use vstd::prelude::*;

verus! {

/// A value read from the start of `s` that must use up all of `s`.
pub open spec fn whole<T>(p: Result<(T, int), DecodeError>, len: int) -> Result<T, DecodeError> {
    match p {
        Err(e) => Err(e),
        Ok((v, n)) => if n == len {
            Ok(v)
        } else {
            Err(DecodeError::TruncatedInput)
        },
    }
}

pub open spec fn parse_fq(s: Seq<u8>, pos: int) -> Result<(Fq, int), DecodeError> {
    match parse_big(s, pos) {
        Err(e) => Err(e),
        Ok((c0, p)) => Ok((Fq { c0 }, p)),
    }
}

pub open spec fn parse_fr(s: Seq<u8>, pos: int) -> Result<(Fr, int), DecodeError> {
    match parse_big(s, pos) {
        Err(e) => Err(e),
        Ok((c0, p)) => Ok((Fr { c0 }, p)),
    }
}

/// A verifying key: `alpha_g1`, `beta_g2`, `gamma_g2`, `delta_g2`, then the
/// length and points of `gamma_abc_g1`.
pub open spec fn enc_vk(vk: VerifyingKeyView) -> Seq<u8> {
    enc_g1(vk.alpha_g1) + enc_g2(vk.beta_g2) + enc_g2(vk.gamma_g2) + enc_g2(vk.delta_g2)
        + spec_u32_to_le_bytes(vk.gamma_abc_g1.len() as u32) + enc_g1s(vk.gamma_abc_g1)
}

pub open spec fn enc_vk_part1(k: VerifyingKeyPart1) -> Seq<u8> {
    enc_g1(k.alpha_g1) + enc_g2(k.beta_g2) + enc_g2(k.gamma_g2) + enc_g2(k.delta_g2)
}

pub open spec fn enc_pvk(p: PreparedVerifyingKeyView) -> Seq<u8> {
    enc_vk(p.vk) + enc_fq12(p.alpha_g1_beta_g2) + enc_g2_prepared(p.gamma_g2_neg_pc)
        + enc_g2_prepared(p.delta_g2_neg_pc)
}

pub open spec fn enc_proof(p: Proof) -> Seq<u8> {
    enc_g1(p.a) + enc_g2(p.b) + enc_g1(p.c)
}

pub open spec fn parse_vk(s: Seq<u8>, pos: int) -> Result<(VerifyingKeyView, int), DecodeError> {
    match parse_g1(s, pos) {
        Err(e) => Err(e),
        Ok((alpha_g1, at1)) => match parse_g2(s, at1) {
            Err(e) => Err(e),
            Ok((beta_g2, at2)) => match parse_g2(s, at2) {
                Err(e) => Err(e),
                Ok((gamma_g2, at3)) => match parse_g2(s, at3) {
                    Err(e) => Err(e),
                    Ok((delta_g2, at4)) => match parse_u32(s, at4) {
                        Err(e) => Err(e),
                        Ok((n, at5)) => match parse_g1s(s, at5, n as nat) {
                            Err(e) => Err(e),
                            Ok((gamma_abc_g1, at6)) => Ok(
                                (
                                    VerifyingKeyView {
                                        alpha_g1,
                                        beta_g2,
                                        gamma_g2,
                                        delta_g2,
                                        gamma_abc_g1,
                                    },
                                    at6,
                                ),
                            ),
                        },
                    },
                },
            },
        },
    }
}

pub open spec fn parse_vk_part1(s: Seq<u8>, pos: int) -> Result<(VerifyingKeyPart1, int), DecodeError> {
    match parse_g1(s, pos) {
        Err(e) => Err(e),
        Ok((alpha_g1, at1)) => match parse_g2(s, at1) {
            Err(e) => Err(e),
            Ok((beta_g2, at2)) => match parse_g2(s, at2) {
                Err(e) => Err(e),
                Ok((gamma_g2, at3)) => match parse_g2(s, at3) {
                    Err(e) => Err(e),
                    Ok((delta_g2, at4)) => Ok(
                        (VerifyingKeyPart1 { alpha_g1, beta_g2, gamma_g2, delta_g2 }, at4),
                    ),
                },
            },
        },
    }
}

pub open spec fn parse_pvk(s: Seq<u8>, pos: int) -> Result<(PreparedVerifyingKeyView, int), DecodeError> {
    match parse_vk(s, pos) {
        Err(e) => Err(e),
        Ok((vk, at1)) => match parse_fq12(s, at1) {
            Err(e) => Err(e),
            Ok((alpha_g1_beta_g2, at2)) => match parse_g2_prepared(s, at2) {
                Err(e) => Err(e),
                Ok((gamma_g2_neg_pc, at3)) => match parse_g2_prepared(s, at3) {
                    Err(e) => Err(e),
                    Ok((delta_g2_neg_pc, at4)) => Ok(
                        (
                            PreparedVerifyingKeyView {
                                vk,
                                alpha_g1_beta_g2,
                                gamma_g2_neg_pc,
                                delta_g2_neg_pc,
                            },
                            at4,
                        ),
                    ),
                },
            },
        },
    }
}

pub open spec fn parse_proof(s: Seq<u8>, pos: int) -> Result<(Proof, int), DecodeError> {
    match parse_g1(s, pos) {
        Err(e) => Err(e),
        Ok((a, at1)) => match parse_g2(s, at1) {
            Err(e) => Err(e),
            Ok((b, at2)) => match parse_g1(s, at2) {
                Err(e) => Err(e),
                Ok((c, at3)) => Ok((Proof { a, b, c }, at3)),
            },
        },
    }
}

/// The lists of a verifying key fit the 32-bit length prefix.
pub open spec fn vk_encodable(vk: VerifyingKeyView) -> bool {
    vk.gamma_abc_g1.len() <= u32::MAX
}

/// The lists of a prepared key fit the 32-bit length prefix.
pub open spec fn pvk_encodable(p: PreparedVerifyingKeyView) -> bool {
    &&& vk_encodable(p.vk)
    &&& p.gamma_g2_neg_pc.ell_coeffs.len() <= u32::MAX
    &&& p.delta_g2_neg_pc.ell_coeffs.len() <= u32::MAX
}

proof fn lemma_vk_len(vk: VerifyingKeyView)
    ensures
        enc_vk(vk).len() == 65 + 3 * 129 + 4 + 65 * vk.gamma_abc_g1.len(),
{
    lemma_g1_len(vk.alpha_g1);
    lemma_g2_len(vk.beta_g2);
    lemma_g2_len(vk.gamma_g2);
    lemma_g2_len(vk.delta_g2);
    lemma_auto_spec_u32_to_from_le_bytes();
    assert(spec_u32_to_le_bytes(vk.gamma_abc_g1.len() as u32).len() == 4);
    lemma_g1s_len(vk.gamma_abc_g1);
}

proof fn lemma_parse_vk(s: Seq<u8>, pos: int, vk: VerifyingKeyView)
    requires
        0 <= pos,
        vk_encodable(vk),
        pos + enc_vk(vk).len() <= s.len(),
        s.subrange(pos, pos + enc_vk(vk).len()) == enc_vk(vk),
    ensures
        parse_vk(s, pos) == Ok::<(VerifyingKeyView, int), DecodeError>((vk, pos + enc_vk(vk).len())),
{
    lemma_vk_len(vk);
    let a = enc_g1(vk.alpha_g1);
    let b = enc_g2(vk.beta_g2);
    let c = enc_g2(vk.gamma_g2);
    let d = enc_g2(vk.delta_g2);
    let n = spec_u32_to_le_bytes(vk.gamma_abc_g1.len() as u32);
    let l = enc_g1s(vk.gamma_abc_g1);
    lemma_g1_len(vk.alpha_g1);
    lemma_g2_len(vk.beta_g2);
    lemma_g2_len(vk.gamma_g2);
    lemma_g2_len(vk.delta_g2);
    lemma_auto_spec_u32_to_from_le_bytes();
    assert(n.len() == 4);
    lemma_g1s_len(vk.gamma_abc_g1);
    lemma_split(s, pos, a + b + c + d + n, l);
    lemma_split(s, pos, a + b + c + d, n);
    lemma_split(s, pos, a + b + c, d);
    lemma_split(s, pos, a + b, c);
    lemma_split(s, pos, a, b);
    lemma_parse_g1(s, pos, vk.alpha_g1);
    lemma_parse_g2(s, pos + 65, vk.beta_g2);
    lemma_parse_g2(s, pos + 194, vk.gamma_g2);
    lemma_parse_g2(s, pos + 323, vk.delta_g2);
    lemma_parse_u32(s, pos + 452, vk.gamma_abc_g1.len() as u32);
    lemma_parse_g1s(s, pos + 456, vk.gamma_abc_g1);
}

proof fn lemma_parse_vk_part1(s: Seq<u8>, pos: int, k: VerifyingKeyPart1)
    requires
        0 <= pos,
        pos + 452 <= s.len(),
        s.subrange(pos, pos + 452) == enc_vk_part1(k),
    ensures
        parse_vk_part1(s, pos) == Ok::<(VerifyingKeyPart1, int), DecodeError>((k, pos + 452)),
{
    let a = enc_g1(k.alpha_g1);
    let b = enc_g2(k.beta_g2);
    let c = enc_g2(k.gamma_g2);
    let d = enc_g2(k.delta_g2);
    lemma_g1_len(k.alpha_g1);
    lemma_g2_len(k.beta_g2);
    lemma_g2_len(k.gamma_g2);
    lemma_g2_len(k.delta_g2);
    lemma_split(s, pos, a + b + c, d);
    lemma_split(s, pos, a + b, c);
    lemma_split(s, pos, a, b);
    lemma_parse_g1(s, pos, k.alpha_g1);
    lemma_parse_g2(s, pos + 65, k.beta_g2);
    lemma_parse_g2(s, pos + 194, k.gamma_g2);
    lemma_parse_g2(s, pos + 323, k.delta_g2);
}

#[verifier::rlimit(60)]
proof fn lemma_parse_pvk(s: Seq<u8>, pos: int, p: PreparedVerifyingKeyView)
    requires
        0 <= pos,
        pvk_encodable(p),
        pos + enc_pvk(p).len() <= s.len(),
        s.subrange(pos, pos + enc_pvk(p).len()) == enc_pvk(p),
    ensures
        parse_pvk(s, pos) == Ok::<(PreparedVerifyingKeyView, int), DecodeError>(
            (p, pos + enc_pvk(p).len()),
        ),
{
    let a = enc_vk(p.vk);
    let b = enc_fq12(p.alpha_g1_beta_g2);
    let c = enc_g2_prepared(p.gamma_g2_neg_pc);
    let d = enc_g2_prepared(p.delta_g2_neg_pc);
    lemma_fq12_len(p.alpha_g1_beta_g2);
    lemma_split(s, pos, a + b + c, d);
    lemma_split(s, pos, a + b, c);
    lemma_split(s, pos, a, b);
    lemma_parse_vk(s, pos, p.vk);
    lemma_parse_fq12(s, pos + a.len(), p.alpha_g1_beta_g2);
    lemma_parse_g2_prepared(s, pos + a.len() + b.len(), p.gamma_g2_neg_pc);
    lemma_parse_g2_prepared(s, pos + a.len() + b.len() + c.len(), p.delta_g2_neg_pc);
}

proof fn lemma_parse_proof(s: Seq<u8>, pos: int, p: Proof)
    requires
        0 <= pos,
        pos + 259 <= s.len(),
        s.subrange(pos, pos + 259) == enc_proof(p),
    ensures
        parse_proof(s, pos) == Ok::<(Proof, int), DecodeError>((p, pos + 259)),
{
    lemma_g1_len(p.a);
    lemma_g2_len(p.b);
    lemma_g1_len(p.c);
    lemma_split(s, pos, enc_g1(p.a) + enc_g2(p.b), enc_g1(p.c));
    lemma_split(s, pos, enc_g1(p.a), enc_g2(p.b));
    lemma_parse_g1(s, pos, p.a);
    lemma_parse_g2(s, pos + 65, p.b);
    lemma_parse_g1(s, pos + 194, p.c);
}

fn write_vk(vk: &VerifyingKey, out: &mut Vec<u8>)
    requires
        vk_encodable(vk@),
    ensures
        final(out)@ == old(out)@ + enc_vk(vk@),
{
    write_g1(&vk.alpha_g1, out);
    write_g2(&vk.beta_g2, out);
    write_g2(&vk.gamma_g2, out);
    write_g2(&vk.delta_g2, out);
    write_u32(vk.gamma_abc_g1.len() as u32, out);
    write_g1s(&vk.gamma_abc_g1, out);
    assert(out@ =~= old(out)@ + enc_vk(vk@));
}

fn write_vk_part1(k: &VerifyingKeyPart1, out: &mut Vec<u8>)
    ensures
        final(out)@ == old(out)@ + enc_vk_part1(*k),
{
    write_g1(&k.alpha_g1, out);
    write_g2(&k.beta_g2, out);
    write_g2(&k.gamma_g2, out);
    write_g2(&k.delta_g2, out);
    assert(out@ =~= old(out)@ + enc_vk_part1(*k));
}

fn write_pvk(p: &PreparedVerifyingKey, out: &mut Vec<u8>)
    requires
        pvk_encodable(p@),
    ensures
        final(out)@ == old(out)@ + enc_pvk(p@),
{
    write_vk(&p.vk, out);
    write_fq12(&p.alpha_g1_beta_g2, out);
    write_g2_prepared(&p.gamma_g2_neg_pc, out);
    write_g2_prepared(&p.delta_g2_neg_pc, out);
    assert(out@ =~= old(out)@ + enc_pvk(p@));
}

fn write_proof(p: &Proof, out: &mut Vec<u8>)
    ensures
        final(out)@ == old(out)@ + enc_proof(*p),
{
    write_g1(&p.a, out);
    write_g2(&p.b, out);
    write_g1(&p.c, out);
    assert(out@ =~= old(out)@ + enc_proof(*p));
}

fn read_vk(s: &[u8], pos: usize) -> (r: Result<(VerifyingKey, usize), DecodeError>)
    ensures
        match r {
            Ok((v, p)) => parse_vk(s@, pos as int) == Ok::<(VerifyingKeyView, int), DecodeError>(
                (v@, p as int),
            ),
            Err(e) => parse_vk(s@, pos as int) == Err::<(VerifyingKeyView, int), DecodeError>(e),
        },
{
    let (alpha_g1, at1) = match read_g1(s, pos) {
        Ok(v) => v,
        Err(e) => return Err(e),
    };
    let (beta_g2, at2) = match read_g2(s, at1) {
        Ok(v) => v,
        Err(e) => return Err(e),
    };
    let (gamma_g2, at3) = match read_g2(s, at2) {
        Ok(v) => v,
        Err(e) => return Err(e),
    };
    let (delta_g2, at4) = match read_g2(s, at3) {
        Ok(v) => v,
        Err(e) => return Err(e),
    };
    let (n, at5) = match read_u32(s, at4) {
        Ok(v) => v,
        Err(e) => return Err(e),
    };
    let (gamma_abc_g1, at6) = match read_g1s(s, at5, n) {
        Ok(v) => v,
        Err(e) => return Err(e),
    };
    Ok((VerifyingKey { alpha_g1, beta_g2, gamma_g2, delta_g2, gamma_abc_g1 }, at6))
}

fn read_vk_part1(s: &[u8], pos: usize) -> (r: Result<(VerifyingKeyPart1, usize), DecodeError>)
    ensures
        agrees(r, parse_vk_part1(s@, pos as int)),
{
    let (alpha_g1, at1) = match read_g1(s, pos) {
        Ok(v) => v,
        Err(e) => return Err(e),
    };
    let (beta_g2, at2) = match read_g2(s, at1) {
        Ok(v) => v,
        Err(e) => return Err(e),
    };
    let (gamma_g2, at3) = match read_g2(s, at2) {
        Ok(v) => v,
        Err(e) => return Err(e),
    };
    let (delta_g2, at4) = match read_g2(s, at3) {
        Ok(v) => v,
        Err(e) => return Err(e),
    };
    Ok((VerifyingKeyPart1 { alpha_g1, beta_g2, gamma_g2, delta_g2 }, at4))
}

fn read_pvk(s: &[u8], pos: usize) -> (r: Result<(PreparedVerifyingKey, usize), DecodeError>)
    ensures
        match r {
            Ok((v, p)) => parse_pvk(s@, pos as int) == Ok::<
                (PreparedVerifyingKeyView, int),
                DecodeError,
            >((v@, p as int)),
            Err(e) => parse_pvk(s@, pos as int) == Err::<(PreparedVerifyingKeyView, int), DecodeError>(
                e,
            ),
        },
{
    let (vk, at1) = match read_vk(s, pos) {
        Ok(v) => v,
        Err(e) => return Err(e),
    };
    let (alpha_g1_beta_g2, at2) = match read_fq12(s, at1) {
        Ok(v) => v,
        Err(e) => return Err(e),
    };
    let (gamma_g2_neg_pc, at3) = match read_g2_prepared(s, at2) {
        Ok(v) => v,
        Err(e) => return Err(e),
    };
    let (delta_g2_neg_pc, at4) = match read_g2_prepared(s, at3) {
        Ok(v) => v,
        Err(e) => return Err(e),
    };
    Ok((PreparedVerifyingKey { vk, alpha_g1_beta_g2, gamma_g2_neg_pc, delta_g2_neg_pc }, at4))
}

fn read_proof(s: &[u8], pos: usize) -> (r: Result<(Proof, usize), DecodeError>)
    ensures
        agrees(r, parse_proof(s@, pos as int)),
{
    let (a, at1) = match read_g1(s, pos) {
        Ok(v) => v,
        Err(e) => return Err(e),
    };
    let (b, at2) = match read_g2(s, at1) {
        Ok(v) => v,
        Err(e) => return Err(e),
    };
    let (c, at3) = match read_g1(s, at2) {
        Ok(v) => v,
        Err(e) => return Err(e),
    };
    Ok((Proof { a, b, c }, at3))
}

fn read_fq(s: &[u8], pos: usize) -> (r: Result<(Fq, usize), DecodeError>)
    ensures
        agrees(r, parse_fq(s@, pos as int)),
{
    match read_big(s, pos) {
        Ok((c0, p)) => Ok((Fq { c0 }, p)),
        Err(e) => Err(e),
    }
}

fn read_fr(s: &[u8], pos: usize) -> (r: Result<(Fr, usize), DecodeError>)
    ensures
        agrees(r, parse_fr(s@, pos as int)),
{
    match read_big(s, pos) {
        Ok((c0, p)) => Ok((Fr { c0 }, p)),
        Err(e) => Err(e),
    }
}

fn write_fq(e: &Fq, out: &mut Vec<u8>)
    ensures
        final(out)@ == old(out)@ + enc_big(e.c0),
{
    write_big(&e.c0, out);
}

fn write_fr(e: &Fr, out: &mut Vec<u8>)
    ensures
        final(out)@ == old(out)@ + enc_big(e.c0),
{
    write_big(&e.c0, out);
}

/// A limb sequence read back from the whole of `s`.
pub open spec fn decode_big(s: Seq<u8>) -> Result<BigInteger256, DecodeError> {
    whole(parse_big(s, 0), s.len() as int)
}

impl BigInteger256 {
    /// The binary form of this limb sequence.
    pub fn to_bytes(&self) -> (r: Vec<u8>)
        ensures
            r@ == enc_big(*self),
    {
        let mut out: Vec<u8> = Vec::new();
        write_big(self, &mut out);
        assert(out@ =~= enc_big(*self));
        out
    }

    /// Reads a limb sequence back from its binary form, which must take up all of `s`.
    pub fn from_bytes(s: &[u8]) -> (r: Result<BigInteger256, DecodeError>)
        ensures
            r == decode_big(s@),
    {
        match read_big(s, 0) {
            Ok((v, n)) => if n == s.len() {
                Ok(v)
            } else {
                Err(DecodeError::TruncatedInput)
            },
            Err(e) => Err(e),
        }
    }
}

/// Reading back the binary form of a limb sequence gives that limb sequence again.
pub proof fn lemma_big_round_trip(x: BigInteger256)
    ensures
        decode_big(enc_big(x)) == Ok::<BigInteger256, DecodeError>(x),
{
    lemma_big_len(x);
    assert(enc_big(x).subrange(0, 32) =~= enc_big(x));
    lemma_parse_big(enc_big(x), 0, x);
}

/// A base-field element read back from the whole of `s`.
pub open spec fn decode_fq(s: Seq<u8>) -> Result<Fq, DecodeError> {
    whole(parse_fq(s, 0), s.len() as int)
}

impl Fq {
    /// The binary form of this base-field element.
    pub fn to_bytes(&self) -> (r: Vec<u8>)
        ensures
            r@ == enc_big(self.c0),
    {
        let mut out: Vec<u8> = Vec::new();
        write_fq(self, &mut out);
        assert(out@ =~= enc_big(self.c0));
        out
    }

    /// Reads a base-field element back from its binary form, which must take up all of `s`.
    pub fn from_bytes(s: &[u8]) -> (r: Result<Fq, DecodeError>)
        ensures
            r == decode_fq(s@),
    {
        match read_fq(s, 0) {
            Ok((v, n)) => if n == s.len() {
                Ok(v)
            } else {
                Err(DecodeError::TruncatedInput)
            },
            Err(e) => Err(e),
        }
    }
}

/// Reading back the binary form of a base-field element gives that base-field element again.
pub proof fn lemma_fq_round_trip(x: Fq)
    ensures
        decode_fq(enc_big(x.c0)) == Ok::<Fq, DecodeError>(x),
{
    lemma_big_len(x.c0);
    assert(enc_big(x.c0).subrange(0, 32) =~= enc_big(x.c0));
    lemma_parse_big(enc_big(x.c0), 0, x.c0);
}

/// A scalar-field element read back from the whole of `s`.
pub open spec fn decode_fr(s: Seq<u8>) -> Result<Fr, DecodeError> {
    whole(parse_fr(s, 0), s.len() as int)
}

impl Fr {
    /// The binary form of this scalar-field element.
    pub fn to_bytes(&self) -> (r: Vec<u8>)
        ensures
            r@ == enc_big(self.c0),
    {
        let mut out: Vec<u8> = Vec::new();
        write_fr(self, &mut out);
        assert(out@ =~= enc_big(self.c0));
        out
    }

    /// Reads a scalar-field element back from its binary form, which must take up all of `s`.
    pub fn from_bytes(s: &[u8]) -> (r: Result<Fr, DecodeError>)
        ensures
            r == decode_fr(s@),
    {
        match read_fr(s, 0) {
            Ok((v, n)) => if n == s.len() {
                Ok(v)
            } else {
                Err(DecodeError::TruncatedInput)
            },
            Err(e) => Err(e),
        }
    }
}

/// Reading back the binary form of a scalar-field element gives that scalar-field element again.
pub proof fn lemma_fr_round_trip(x: Fr)
    ensures
        decode_fr(enc_big(x.c0)) == Ok::<Fr, DecodeError>(x),
{
    lemma_big_len(x.c0);
    assert(enc_big(x.c0).subrange(0, 32) =~= enc_big(x.c0));
    lemma_parse_big(enc_big(x.c0), 0, x.c0);
}

/// A element of `Fq2` read back from the whole of `s`.
pub open spec fn decode_fq2(s: Seq<u8>) -> Result<Fq2, DecodeError> {
    whole(parse_fq2(s, 0), s.len() as int)
}

impl Fq2 {
    /// The binary form of this element of `Fq2`.
    pub fn to_bytes(&self) -> (r: Vec<u8>)
        ensures
            r@ == enc_fq2(*self),
    {
        let mut out: Vec<u8> = Vec::new();
        write_fq2(self, &mut out);
        assert(out@ =~= enc_fq2(*self));
        out
    }

    /// Reads a element of `Fq2` back from its binary form, which must take up all of `s`.
    pub fn from_bytes(s: &[u8]) -> (r: Result<Fq2, DecodeError>)
        ensures
            r == decode_fq2(s@),
    {
        match read_fq2(s, 0) {
            Ok((v, n)) => if n == s.len() {
                Ok(v)
            } else {
                Err(DecodeError::TruncatedInput)
            },
            Err(e) => Err(e),
        }
    }
}

/// Reading back the binary form of a element of `Fq2` gives that element of `Fq2` again.
pub proof fn lemma_fq2_round_trip(x: Fq2)
    ensures
        decode_fq2(enc_fq2(x)) == Ok::<Fq2, DecodeError>(x),
{
    lemma_fq2_len(x);
    assert(enc_fq2(x).subrange(0, 64) =~= enc_fq2(x));
    lemma_parse_fq2(enc_fq2(x), 0, x);
}

/// A element of `Fq6` read back from the whole of `s`.
pub open spec fn decode_fq6(s: Seq<u8>) -> Result<Fq6, DecodeError> {
    whole(parse_fq6(s, 0), s.len() as int)
}

impl Fq6 {
    /// The binary form of this element of `Fq6`.
    pub fn to_bytes(&self) -> (r: Vec<u8>)
        ensures
            r@ == enc_fq6(*self),
    {
        let mut out: Vec<u8> = Vec::new();
        write_fq6(self, &mut out);
        assert(out@ =~= enc_fq6(*self));
        out
    }

    /// Reads a element of `Fq6` back from its binary form, which must take up all of `s`.
    pub fn from_bytes(s: &[u8]) -> (r: Result<Fq6, DecodeError>)
        ensures
            r == decode_fq6(s@),
    {
        match read_fq6(s, 0) {
            Ok((v, n)) => if n == s.len() {
                Ok(v)
            } else {
                Err(DecodeError::TruncatedInput)
            },
            Err(e) => Err(e),
        }
    }
}

/// Reading back the binary form of a element of `Fq6` gives that element of `Fq6` again.
pub proof fn lemma_fq6_round_trip(x: Fq6)
    ensures
        decode_fq6(enc_fq6(x)) == Ok::<Fq6, DecodeError>(x),
{
    lemma_fq6_len(x);
    assert(enc_fq6(x).subrange(0, 192) =~= enc_fq6(x));
    lemma_parse_fq6(enc_fq6(x), 0, x);
}

/// A element of `Fq12` read back from the whole of `s`.
pub open spec fn decode_fq12(s: Seq<u8>) -> Result<Fq12, DecodeError> {
    whole(parse_fq12(s, 0), s.len() as int)
}

impl Fq12 {
    /// The binary form of this element of `Fq12`.
    pub fn to_bytes(&self) -> (r: Vec<u8>)
        ensures
            r@ == enc_fq12(*self),
    {
        let mut out: Vec<u8> = Vec::new();
        write_fq12(self, &mut out);
        assert(out@ =~= enc_fq12(*self));
        out
    }

    /// Reads a element of `Fq12` back from its binary form, which must take up all of `s`.
    pub fn from_bytes(s: &[u8]) -> (r: Result<Fq12, DecodeError>)
        ensures
            r == decode_fq12(s@),
    {
        match read_fq12(s, 0) {
            Ok((v, n)) => if n == s.len() {
                Ok(v)
            } else {
                Err(DecodeError::TruncatedInput)
            },
            Err(e) => Err(e),
        }
    }
}

/// Reading back the binary form of a element of `Fq12` gives that element of `Fq12` again.
pub proof fn lemma_fq12_round_trip(x: Fq12)
    ensures
        decode_fq12(enc_fq12(x)) == Ok::<Fq12, DecodeError>(x),
{
    lemma_fq12_len(x);
    assert(enc_fq12(x).subrange(0, 384) =~= enc_fq12(x));
    lemma_parse_fq12(enc_fq12(x), 0, x);
}

/// A point of the first group read back from the whole of `s`.
pub open spec fn decode_g1(s: Seq<u8>) -> Result<G1Affine, DecodeError> {
    whole(parse_g1(s, 0), s.len() as int)
}

impl G1Affine {
    /// The binary form of this point of the first group.
    pub fn to_bytes(&self) -> (r: Vec<u8>)
        ensures
            r@ == enc_g1(*self),
    {
        let mut out: Vec<u8> = Vec::new();
        write_g1(self, &mut out);
        assert(out@ =~= enc_g1(*self));
        out
    }

    /// Reads a point of the first group back from its binary form, which must take up all of `s`.
    pub fn from_bytes(s: &[u8]) -> (r: Result<G1Affine, DecodeError>)
        ensures
            r == decode_g1(s@),
    {
        match read_g1(s, 0) {
            Ok((v, n)) => if n == s.len() {
                Ok(v)
            } else {
                Err(DecodeError::TruncatedInput)
            },
            Err(e) => Err(e),
        }
    }
}

/// Reading back the binary form of a point of the first group gives that point of the first group again.
pub proof fn lemma_g1_round_trip(x: G1Affine)
    ensures
        decode_g1(enc_g1(x)) == Ok::<G1Affine, DecodeError>(x),
{
    lemma_g1_len(x);
    assert(enc_g1(x).subrange(0, 65) =~= enc_g1(x));
    lemma_parse_g1(enc_g1(x), 0, x);
}

/// A point of the second group read back from the whole of `s`.
pub open spec fn decode_g2(s: Seq<u8>) -> Result<G2Affine, DecodeError> {
    whole(parse_g2(s, 0), s.len() as int)
}

impl G2Affine {
    /// The binary form of this point of the second group.
    pub fn to_bytes(&self) -> (r: Vec<u8>)
        ensures
            r@ == enc_g2(*self),
    {
        let mut out: Vec<u8> = Vec::new();
        write_g2(self, &mut out);
        assert(out@ =~= enc_g2(*self));
        out
    }

    /// Reads a point of the second group back from its binary form, which must take up all of `s`.
    pub fn from_bytes(s: &[u8]) -> (r: Result<G2Affine, DecodeError>)
        ensures
            r == decode_g2(s@),
    {
        match read_g2(s, 0) {
            Ok((v, n)) => if n == s.len() {
                Ok(v)
            } else {
                Err(DecodeError::TruncatedInput)
            },
            Err(e) => Err(e),
        }
    }
}

/// Reading back the binary form of a point of the second group gives that point of the second group again.
pub proof fn lemma_g2_round_trip(x: G2Affine)
    ensures
        decode_g2(enc_g2(x)) == Ok::<G2Affine, DecodeError>(x),
{
    lemma_g2_len(x);
    assert(enc_g2(x).subrange(0, 129) =~= enc_g2(x));
    lemma_parse_g2(enc_g2(x), 0, x);
}

/// A fixed-size key part read back from the whole of `s`.
pub open spec fn decode_vk_part1(s: Seq<u8>) -> Result<VerifyingKeyPart1, DecodeError> {
    whole(parse_vk_part1(s, 0), s.len() as int)
}

impl VerifyingKeyPart1 {
    /// The binary form of this fixed-size key part.
    pub fn to_bytes(&self) -> (r: Vec<u8>)
        ensures
            r@ == enc_vk_part1(*self),
    {
        let mut out: Vec<u8> = Vec::new();
        write_vk_part1(self, &mut out);
        assert(out@ =~= enc_vk_part1(*self));
        out
    }

    /// Reads a fixed-size key part back from its binary form, which must take up all of `s`.
    pub fn from_bytes(s: &[u8]) -> (r: Result<VerifyingKeyPart1, DecodeError>)
        ensures
            r == decode_vk_part1(s@),
    {
        match read_vk_part1(s, 0) {
            Ok((v, n)) => if n == s.len() {
                Ok(v)
            } else {
                Err(DecodeError::TruncatedInput)
            },
            Err(e) => Err(e),
        }
    }
}

/// Reading back the binary form of a fixed-size key part gives that fixed-size key part again.
pub proof fn lemma_vk_part1_round_trip(x: VerifyingKeyPart1)
    ensures
        decode_vk_part1(enc_vk_part1(x)) == Ok::<VerifyingKeyPart1, DecodeError>(x),
{
    lemma_g1_len(x.alpha_g1);
    lemma_g2_len(x.beta_g2);
    lemma_g2_len(x.gamma_g2);
    lemma_g2_len(x.delta_g2);
    assert(enc_vk_part1(x).subrange(0, 452) =~= enc_vk_part1(x));
    lemma_parse_vk_part1(enc_vk_part1(x), 0, x);
}

/// A proof read back from the whole of `s`.
pub open spec fn decode_proof(s: Seq<u8>) -> Result<Proof, DecodeError> {
    whole(parse_proof(s, 0), s.len() as int)
}

impl Proof {
    /// The binary form of this proof.
    pub fn to_bytes(&self) -> (r: Vec<u8>)
        ensures
            r@ == enc_proof(*self),
    {
        let mut out: Vec<u8> = Vec::new();
        write_proof(self, &mut out);
        assert(out@ =~= enc_proof(*self));
        out
    }

    /// Reads a proof back from its binary form, which must take up all of `s`.
    pub fn from_bytes(s: &[u8]) -> (r: Result<Proof, DecodeError>)
        ensures
            r == decode_proof(s@),
    {
        match read_proof(s, 0) {
            Ok((v, n)) => if n == s.len() {
                Ok(v)
            } else {
                Err(DecodeError::TruncatedInput)
            },
            Err(e) => Err(e),
        }
    }
}

/// Reading back the binary form of a proof gives that proof again.
pub proof fn lemma_proof_round_trip(x: Proof)
    ensures
        decode_proof(enc_proof(x)) == Ok::<Proof, DecodeError>(x),
{
    lemma_g1_len(x.a);
    lemma_g2_len(x.b);
    lemma_g1_len(x.c);
    assert(enc_proof(x).subrange(0, 259) =~= enc_proof(x));
    lemma_parse_proof(enc_proof(x), 0, x);
}

/// A prepared point read back from the whole of `s`.
pub open spec fn decode_g2_prepared(s: Seq<u8>) -> Result<G2PreparedView, DecodeError> {
    whole(parse_g2_prepared(s, 0), s.len() as int)
}

impl G2Prepared {
    /// The binary form of this prepared point; its lists must fit the 32-bit length
    /// prefix.
    pub fn to_bytes(&self) -> (r: Vec<u8>)
        requires
            self.ell_coeffs.len() <= u32::MAX,
        ensures
            r@ == enc_g2_prepared(self@),
    {
        let mut out: Vec<u8> = Vec::new();
        write_g2_prepared(self, &mut out);
        assert(out@ =~= enc_g2_prepared(self@));
        out
    }

    /// Reads a prepared point back from its binary form, which must take up all of `s`.
    pub fn from_bytes(s: &[u8]) -> (r: Result<G2Prepared, DecodeError>)
        ensures
            match r {
                Ok(v) => decode_g2_prepared(s@) == Ok::<G2PreparedView, DecodeError>(v@),
                Err(e) => decode_g2_prepared(s@) == Err::<G2PreparedView, DecodeError>(e),
            },
    {
        match read_g2_prepared(s, 0) {
            Ok((v, n)) => if n == s.len() {
                Ok(v)
            } else {
                Err(DecodeError::TruncatedInput)
            },
            Err(e) => Err(e),
        }
    }
}

/// Reading back the binary form of a prepared point gives that prepared point again.
pub proof fn lemma_g2_prepared_round_trip(x: G2PreparedView)
    requires
        x.ell_coeffs.len() <= u32::MAX,
    ensures
        decode_g2_prepared(enc_g2_prepared(x)) == Ok::<G2PreparedView, DecodeError>(x),
{
    lemma_g2_prepared_len(x);
    let e = enc_g2_prepared(x);
    assert(e.subrange(0, e.len() as int) =~= e);
    lemma_parse_g2_prepared(e, 0, x);
}

/// A verifying key read back from the whole of `s`.
pub open spec fn decode_vk(s: Seq<u8>) -> Result<VerifyingKeyView, DecodeError> {
    whole(parse_vk(s, 0), s.len() as int)
}

impl VerifyingKey {
    /// The binary form of this verifying key; its lists must fit the 32-bit length
    /// prefix.
    pub fn to_bytes(&self) -> (r: Vec<u8>)
        requires
            vk_encodable(self@),
        ensures
            r@ == enc_vk(self@),
    {
        let mut out: Vec<u8> = Vec::new();
        write_vk(self, &mut out);
        assert(out@ =~= enc_vk(self@));
        out
    }

    /// Reads a verifying key back from its binary form, which must take up all of `s`.
    pub fn from_bytes(s: &[u8]) -> (r: Result<VerifyingKey, DecodeError>)
        ensures
            match r {
                Ok(v) => decode_vk(s@) == Ok::<VerifyingKeyView, DecodeError>(v@),
                Err(e) => decode_vk(s@) == Err::<VerifyingKeyView, DecodeError>(e),
            },
    {
        match read_vk(s, 0) {
            Ok((v, n)) => if n == s.len() {
                Ok(v)
            } else {
                Err(DecodeError::TruncatedInput)
            },
            Err(e) => Err(e),
        }
    }
}

/// Reading back the binary form of a verifying key gives that verifying key again.
pub proof fn lemma_vk_round_trip(x: VerifyingKeyView)
    requires
        vk_encodable(x),
    ensures
        decode_vk(enc_vk(x)) == Ok::<VerifyingKeyView, DecodeError>(x),
{
    lemma_vk_len(x);
    let e = enc_vk(x);
    assert(e.subrange(0, e.len() as int) =~= e);
    lemma_parse_vk(e, 0, x);
}

/// A prepared verifying key read back from the whole of `s`.
pub open spec fn decode_pvk(s: Seq<u8>) -> Result<PreparedVerifyingKeyView, DecodeError> {
    whole(parse_pvk(s, 0), s.len() as int)
}

impl PreparedVerifyingKey {
    /// The binary form of this prepared verifying key; its lists must fit the 32-bit length
    /// prefix.
    pub fn to_bytes(&self) -> (r: Vec<u8>)
        requires
            pvk_encodable(self@),
        ensures
            r@ == enc_pvk(self@),
    {
        let mut out: Vec<u8> = Vec::new();
        write_pvk(self, &mut out);
        assert(out@ =~= enc_pvk(self@));
        out
    }

    /// Reads a prepared verifying key back from its binary form, which must take up all of `s`.
    pub fn from_bytes(s: &[u8]) -> (r: Result<PreparedVerifyingKey, DecodeError>)
        ensures
            match r {
                Ok(v) => decode_pvk(s@) == Ok::<PreparedVerifyingKeyView, DecodeError>(v@),
                Err(e) => decode_pvk(s@) == Err::<PreparedVerifyingKeyView, DecodeError>(e),
            },
    {
        match read_pvk(s, 0) {
            Ok((v, n)) => if n == s.len() {
                Ok(v)
            } else {
                Err(DecodeError::TruncatedInput)
            },
            Err(e) => Err(e),
        }
    }
}

/// Reading back the binary form of a prepared verifying key gives that prepared verifying key again.
#[verifier::rlimit(60)]
pub proof fn lemma_pvk_round_trip(x: PreparedVerifyingKeyView)
    requires
        pvk_encodable(x),
    ensures
        decode_pvk(enc_pvk(x)) == Ok::<PreparedVerifyingKeyView, DecodeError>(x),
{
    let e = enc_pvk(x);
    assert(e.subrange(0, e.len() as int) =~= e);
    lemma_parse_pvk(e, 0, x);
}

/// Bytes that read back as a limb sequence are exactly its binary form: each
/// limb sequence has one binary form.
pub proof fn lemma_big_unique_form(s: Seq<u8>)
    requires
        decode_big(s) is Ok,
    ensures
        ({
            let v = decode_big(s)->Ok_0;
            enc_big(v) == s
        }),
{
    lemma_big_bytes(s, 0);
    assert(s.subrange(0, 32) =~= s);
}

/// Bytes that read back as a base-field element are exactly its binary form: each
/// base-field element has one binary form.
pub proof fn lemma_fq_unique_form(s: Seq<u8>)
    requires
        decode_fq(s) is Ok,
    ensures
        ({
            let v = decode_fq(s)->Ok_0;
            enc_big(v.c0) == s
        }),
{
    lemma_big_bytes(s, 0);
    assert(s.subrange(0, 32) =~= s);
}

/// Bytes that read back as a scalar-field element are exactly its binary form: each
/// scalar-field element has one binary form.
pub proof fn lemma_fr_unique_form(s: Seq<u8>)
    requires
        decode_fr(s) is Ok,
    ensures
        ({
            let v = decode_fr(s)->Ok_0;
            enc_big(v.c0) == s
        }),
{
    lemma_big_bytes(s, 0);
    assert(s.subrange(0, 32) =~= s);
}

/// Bytes that read back as a element of `Fq2` are exactly its binary form: each
/// element of `Fq2` has one binary form.
pub proof fn lemma_fq2_unique_form(s: Seq<u8>)
    requires
        decode_fq2(s) is Ok,
    ensures
        ({
            let v = decode_fq2(s)->Ok_0;
            enc_fq2(v) == s
        }),
{
    lemma_fq2_bytes(s, 0);
    assert(s.subrange(0, 64) =~= s);
}

/// Bytes that read back as a element of `Fq6` are exactly its binary form: each
/// element of `Fq6` has one binary form.
pub proof fn lemma_fq6_unique_form(s: Seq<u8>)
    requires
        decode_fq6(s) is Ok,
    ensures
        ({
            let v = decode_fq6(s)->Ok_0;
            enc_fq6(v) == s
        }),
{
    lemma_fq6_bytes(s, 0);
    assert(s.subrange(0, 192) =~= s);
}

/// Bytes that read back as a element of `Fq12` are exactly its binary form: each
/// element of `Fq12` has one binary form.
pub proof fn lemma_fq12_unique_form(s: Seq<u8>)
    requires
        decode_fq12(s) is Ok,
    ensures
        ({
            let v = decode_fq12(s)->Ok_0;
            enc_fq12(v) == s
        }),
{
    lemma_fq12_bytes(s, 0);
    assert(s.subrange(0, 384) =~= s);
}

/// Bytes that read back as a point of the first group are exactly its binary form: each
/// point of the first group has one binary form.
pub proof fn lemma_g1_unique_form(s: Seq<u8>)
    requires
        decode_g1(s) is Ok,
    ensures
        ({
            let v = decode_g1(s)->Ok_0;
            enc_g1(v) == s
        }),
{
    lemma_g1_bytes(s, 0);
    assert(s.subrange(0, 65) =~= s);
}

/// Bytes that read back as a point of the second group are exactly its binary form: each
/// point of the second group has one binary form.
pub proof fn lemma_g2_unique_form(s: Seq<u8>)
    requires
        decode_g2(s) is Ok,
    ensures
        ({
            let v = decode_g2(s)->Ok_0;
            enc_g2(v) == s
        }),
{
    lemma_g2_bytes(s, 0);
    assert(s.subrange(0, 129) =~= s);
}

/// Bytes that read back as a proof are exactly its binary form: each
/// proof has one binary form.
pub proof fn lemma_proof_unique_form(s: Seq<u8>)
    requires
        decode_proof(s) is Ok,
    ensures
        ({
            let v = decode_proof(s)->Ok_0;
            enc_proof(v) == s
        }),
{
    lemma_g1_bytes(s, 0);
    lemma_g2_bytes(s, 65);
    lemma_g1_bytes(s, 194);
    assert(s.subrange(0, 259) =~= s.subrange(0, 65) + s.subrange(65, 194) + s.subrange(194, 259));
    assert(s.subrange(0, 259) =~= s);
}

} // verus!
