//! The fixed-width binary form of every value: limbs as little-endian 64-bit
//! words, components in declaration order, a flag as one byte (0 or 1), and a
//! sequence as its length in a little-endian 32-bit word followed by its items.
//! Reading checks every length and flag and never reduces a limb.
use crate::error::DecodeError;
use crate::model::{
    BigInteger256, Fq12, Fq2, Fq6, G1Affine, G2Affine, G2Prepared, G2PreparedView,
};
use vstd::bytes::{
    lemma_auto_spec_u32_to_from_le_bytes, lemma_auto_spec_u64_to_from_le_bytes,
    spec_u32_from_le_bytes, spec_u32_to_le_bytes, spec_u64_from_le_bytes, spec_u64_to_le_bytes,
    u32_from_le_bytes, u32_to_le_bytes, u64_from_le_bytes, u64_to_le_bytes,
};
use vstd::prelude::*;
use vstd::slice::slice_subrange;

verus! {

/// An exec reading result, with the position after the value, agrees with a
/// spec reading result.
pub open spec fn agrees<T>(r: Result<(T, usize), DecodeError>, p: Result<(T, int), DecodeError>) -> bool {
    match r {
        Ok((v, n)) => p == Ok::<(T, int), DecodeError>((v, n as int)),
        Err(e) => p == Err::<(T, int), DecodeError>(e),
    }
}

pub open spec fn enc_u64(v: u64) -> Seq<u8> {
    spec_u64_to_le_bytes(v)
}

pub open spec fn enc_big(b: BigInteger256) -> Seq<u8> {
    enc_u64(b.val[0]) + enc_u64(b.val[1]) + enc_u64(b.val[2]) + enc_u64(b.val[3])
}

pub open spec fn enc_bool(b: bool) -> Seq<u8> {
    seq![if b { 1u8 } else { 0u8 }]
}

pub open spec fn enc_fq2(e: Fq2) -> Seq<u8> {
    enc_big(e.c0) + enc_big(e.c1)
}

pub open spec fn enc_fq6(e: Fq6) -> Seq<u8> {
    enc_fq2(e.c0) + enc_fq2(e.c1) + enc_fq2(e.c2)
}

pub open spec fn enc_fq12(e: Fq12) -> Seq<u8> {
    enc_fq6(e.c0) + enc_fq6(e.c1)
}

pub open spec fn enc_g1(p: G1Affine) -> Seq<u8> {
    enc_big(p.x) + enc_big(p.y) + enc_bool(p.infinity)
}

pub open spec fn enc_g2(p: G2Affine) -> Seq<u8> {
    enc_fq2(p.x) + enc_fq2(p.y) + enc_bool(p.infinity)
}

pub open spec fn enc_line(c: (Fq2, Fq2, Fq2)) -> Seq<u8> {
    enc_fq2(c.0) + enc_fq2(c.1) + enc_fq2(c.2)
}

pub open spec fn u64_at(s: Seq<u8>, pos: int) -> u64 {
    spec_u64_from_le_bytes(s.subrange(pos, pos + 8))
}

pub open spec fn parse_u32(s: Seq<u8>, pos: int) -> Result<(u32, int), DecodeError> {
    if 0 <= pos && pos + 4 <= s.len() {
        Ok((spec_u32_from_le_bytes(s.subrange(pos, pos + 4)), pos + 4))
    } else {
        Err(DecodeError::TruncatedInput)
    }
}

pub open spec fn parse_big(s: Seq<u8>, pos: int) -> Result<(BigInteger256, int), DecodeError> {
    if 0 <= pos && pos + 32 <= s.len() {
        Ok(
            (
                BigInteger256 {
                    val: [u64_at(s, pos), u64_at(s, pos + 8), u64_at(s, pos + 16), u64_at(s, pos + 24)],
                },
                pos + 32,
            ),
        )
    } else {
        Err(DecodeError::TruncatedInput)
    }
}

pub open spec fn parse_bool(s: Seq<u8>, pos: int) -> Result<(bool, int), DecodeError> {
    if 0 <= pos && pos < s.len() {
        if s[pos] == 0 {
            Ok((false, pos + 1))
        } else if s[pos] == 1 {
            Ok((true, pos + 1))
        } else {
            Err(DecodeError::InvalidDiscriminant)
        }
    } else {
        Err(DecodeError::TruncatedInput)
    }
}

pub open spec fn parse_fq2(s: Seq<u8>, pos: int) -> Result<(Fq2, int), DecodeError> {
    match parse_big(s, pos) {
        Err(e) => Err(e),
        Ok((c0, at1)) => match parse_big(s, at1) {
            Err(e) => Err(e),
            Ok((c1, at2)) => Ok((Fq2 { c0, c1 }, at2)),
        },
    }
}

pub open spec fn parse_fq6(s: Seq<u8>, pos: int) -> Result<(Fq6, int), DecodeError> {
    match parse_fq2(s, pos) {
        Err(e) => Err(e),
        Ok((c0, at1)) => match parse_fq2(s, at1) {
            Err(e) => Err(e),
            Ok((c1, at2)) => match parse_fq2(s, at2) {
                Err(e) => Err(e),
                Ok((c2, at3)) => Ok((Fq6 { c0, c1, c2 }, at3)),
            },
        },
    }
}

pub open spec fn parse_fq12(s: Seq<u8>, pos: int) -> Result<(Fq12, int), DecodeError> {
    match parse_fq6(s, pos) {
        Err(e) => Err(e),
        Ok((c0, at1)) => match parse_fq6(s, at1) {
            Err(e) => Err(e),
            Ok((c1, at2)) => Ok((Fq12 { c0, c1 }, at2)),
        },
    }
}

pub open spec fn parse_g1(s: Seq<u8>, pos: int) -> Result<(G1Affine, int), DecodeError> {
    match parse_big(s, pos) {
        Err(e) => Err(e),
        Ok((x, at1)) => match parse_big(s, at1) {
            Err(e) => Err(e),
            Ok((y, at2)) => match parse_bool(s, at2) {
                Err(e) => Err(e),
                Ok((infinity, at3)) => Ok((G1Affine { x, y, infinity }, at3)),
            },
        },
    }
}

pub open spec fn parse_g2(s: Seq<u8>, pos: int) -> Result<(G2Affine, int), DecodeError> {
    match parse_fq2(s, pos) {
        Err(e) => Err(e),
        Ok((x, at1)) => match parse_fq2(s, at1) {
            Err(e) => Err(e),
            Ok((y, at2)) => match parse_bool(s, at2) {
                Err(e) => Err(e),
                Ok((infinity, at3)) => Ok((G2Affine { x, y, infinity }, at3)),
            },
        },
    }
}

pub open spec fn parse_line(s: Seq<u8>, pos: int) -> Result<((Fq2, Fq2, Fq2), int), DecodeError> {
    match parse_fq2(s, pos) {
        Err(e) => Err(e),
        Ok((a, at1)) => match parse_fq2(s, at1) {
            Err(e) => Err(e),
            Ok((b, at2)) => match parse_fq2(s, at2) {
                Err(e) => Err(e),
                Ok((c, at3)) => Ok(((a, b, c), at3)),
            },
        },
    }
}

/// `a + b` stands at `pos` in `s`: then `a` stands at `pos` and `b` right after.
pub proof fn lemma_split(s: Seq<u8>, pos: int, a: Seq<u8>, b: Seq<u8>)
    requires
        0 <= pos,
        pos + a.len() + b.len() <= s.len(),
        s.subrange(pos, pos + a.len() + b.len()) == a + b,
    ensures
        s.subrange(pos, pos + a.len()) == a,
        s.subrange(pos + a.len(), pos + a.len() + b.len()) == b,
{
    assert(s.subrange(pos, pos + a.len()) =~= s.subrange(pos, pos + a.len() + b.len()).subrange(
        0,
        a.len() as int,
    ));
    assert(a =~= (a + b).subrange(0, a.len() as int));
    assert(s.subrange(pos + a.len(), pos + a.len() + b.len()) =~= s.subrange(
        pos,
        pos + a.len() + b.len(),
    ).subrange(a.len() as int, (a.len() + b.len()) as int));
    assert(b =~= (a + b).subrange(a.len() as int, (a.len() + b.len()) as int));
}

pub proof fn lemma_big_len(b: BigInteger256)
    ensures
        enc_big(b).len() == 32,
{
    lemma_auto_spec_u64_to_from_le_bytes();
}

pub proof fn lemma_fq2_len(e: Fq2)
    ensures
        enc_fq2(e).len() == 64,
{
    lemma_big_len(e.c0);
    lemma_big_len(e.c1);
}

pub proof fn lemma_fq6_len(e: Fq6)
    ensures
        enc_fq6(e).len() == 192,
{
    lemma_fq2_len(e.c0);
    lemma_fq2_len(e.c1);
    lemma_fq2_len(e.c2);
}

pub proof fn lemma_fq12_len(e: Fq12)
    ensures
        enc_fq12(e).len() == 384,
{
    lemma_fq6_len(e.c0);
    lemma_fq6_len(e.c1);
}

pub proof fn lemma_g1_len(p: G1Affine)
    ensures
        enc_g1(p).len() == 65,
{
    lemma_big_len(p.x);
    lemma_big_len(p.y);
}

pub proof fn lemma_g2_len(p: G2Affine)
    ensures
        enc_g2(p).len() == 129,
{
    lemma_fq2_len(p.x);
    lemma_fq2_len(p.y);
}

pub proof fn lemma_line_len(c: (Fq2, Fq2, Fq2))
    ensures
        enc_line(c).len() == 192,
{
    lemma_fq2_len(c.0);
    lemma_fq2_len(c.1);
    lemma_fq2_len(c.2);
}

pub proof fn lemma_parse_big(s: Seq<u8>, pos: int, b: BigInteger256)
    requires
        0 <= pos,
        pos + 32 <= s.len(),
        s.subrange(pos, pos + 32) == enc_big(b),
    ensures
        parse_big(s, pos) == Ok::<(BigInteger256, int), DecodeError>((b, pos + 32)),
{
    lemma_auto_spec_u64_to_from_le_bytes();
    let e0 = enc_u64(b.val[0]);
    let e1 = enc_u64(b.val[1]);
    let e2 = enc_u64(b.val[2]);
    let e3 = enc_u64(b.val[3]);
    lemma_split(s, pos, e0 + e1 + e2, e3);
    lemma_split(s, pos, e0 + e1, e2);
    lemma_split(s, pos, e0, e1);
    let r = BigInteger256 {
        val: [u64_at(s, pos), u64_at(s, pos + 8), u64_at(s, pos + 16), u64_at(s, pos + 24)],
    };
    assert(r.val =~= b.val);
}

pub proof fn lemma_parse_bool(s: Seq<u8>, pos: int, b: bool)
    requires
        0 <= pos,
        pos + 1 <= s.len(),
        s.subrange(pos, pos + 1) == enc_bool(b),
    ensures
        parse_bool(s, pos) == Ok::<(bool, int), DecodeError>((b, pos + 1)),
{
    assert(s[pos] == s.subrange(pos, pos + 1)[0]);
}

pub proof fn lemma_parse_u32(s: Seq<u8>, pos: int, n: u32)
    requires
        0 <= pos,
        pos + 4 <= s.len(),
        s.subrange(pos, pos + 4) == spec_u32_to_le_bytes(n),
    ensures
        parse_u32(s, pos) == Ok::<(u32, int), DecodeError>((n, pos + 4)),
{
    lemma_auto_spec_u32_to_from_le_bytes();
    assert(spec_u32_to_le_bytes(n).len() == 4);
}

pub proof fn lemma_parse_fq2(s: Seq<u8>, pos: int, e: Fq2)
    requires
        0 <= pos,
        pos + 64 <= s.len(),
        s.subrange(pos, pos + 64) == enc_fq2(e),
    ensures
        parse_fq2(s, pos) == Ok::<(Fq2, int), DecodeError>((e, pos + 64)),
{
    lemma_big_len(e.c0);
    lemma_big_len(e.c1);
    lemma_split(s, pos, enc_big(e.c0), enc_big(e.c1));
    lemma_parse_big(s, pos, e.c0);
    lemma_parse_big(s, pos + 32, e.c1);
}

pub proof fn lemma_parse_fq6(s: Seq<u8>, pos: int, e: Fq6)
    requires
        0 <= pos,
        pos + 192 <= s.len(),
        s.subrange(pos, pos + 192) == enc_fq6(e),
    ensures
        parse_fq6(s, pos) == Ok::<(Fq6, int), DecodeError>((e, pos + 192)),
{
    lemma_fq2_len(e.c0);
    lemma_fq2_len(e.c1);
    lemma_fq2_len(e.c2);
    lemma_split(s, pos, enc_fq2(e.c0) + enc_fq2(e.c1), enc_fq2(e.c2));
    lemma_split(s, pos, enc_fq2(e.c0), enc_fq2(e.c1));
    lemma_parse_fq2(s, pos, e.c0);
    lemma_parse_fq2(s, pos + 64, e.c1);
    lemma_parse_fq2(s, pos + 128, e.c2);
}

pub proof fn lemma_parse_fq12(s: Seq<u8>, pos: int, e: Fq12)
    requires
        0 <= pos,
        pos + 384 <= s.len(),
        s.subrange(pos, pos + 384) == enc_fq12(e),
    ensures
        parse_fq12(s, pos) == Ok::<(Fq12, int), DecodeError>((e, pos + 384)),
{
    lemma_fq6_len(e.c0);
    lemma_fq6_len(e.c1);
    lemma_split(s, pos, enc_fq6(e.c0), enc_fq6(e.c1));
    lemma_parse_fq6(s, pos, e.c0);
    lemma_parse_fq6(s, pos + 192, e.c1);
}

pub proof fn lemma_parse_g1(s: Seq<u8>, pos: int, p: G1Affine)
    requires
        0 <= pos,
        pos + 65 <= s.len(),
        s.subrange(pos, pos + 65) == enc_g1(p),
    ensures
        parse_g1(s, pos) == Ok::<(G1Affine, int), DecodeError>((p, pos + 65)),
{
    lemma_big_len(p.x);
    lemma_big_len(p.y);
    lemma_split(s, pos, enc_big(p.x) + enc_big(p.y), enc_bool(p.infinity));
    lemma_split(s, pos, enc_big(p.x), enc_big(p.y));
    lemma_parse_big(s, pos, p.x);
    lemma_parse_big(s, pos + 32, p.y);
    lemma_parse_bool(s, pos + 64, p.infinity);
}

pub proof fn lemma_parse_g2(s: Seq<u8>, pos: int, p: G2Affine)
    requires
        0 <= pos,
        pos + 129 <= s.len(),
        s.subrange(pos, pos + 129) == enc_g2(p),
    ensures
        parse_g2(s, pos) == Ok::<(G2Affine, int), DecodeError>((p, pos + 129)),
{
    lemma_fq2_len(p.x);
    lemma_fq2_len(p.y);
    lemma_split(s, pos, enc_fq2(p.x) + enc_fq2(p.y), enc_bool(p.infinity));
    lemma_split(s, pos, enc_fq2(p.x), enc_fq2(p.y));
    lemma_parse_fq2(s, pos, p.x);
    lemma_parse_fq2(s, pos + 64, p.y);
    lemma_parse_bool(s, pos + 128, p.infinity);
}

pub proof fn lemma_parse_line(s: Seq<u8>, pos: int, c: (Fq2, Fq2, Fq2))
    requires
        0 <= pos,
        pos + 192 <= s.len(),
        s.subrange(pos, pos + 192) == enc_line(c),
    ensures
        parse_line(s, pos) == Ok::<((Fq2, Fq2, Fq2), int), DecodeError>((c, pos + 192)),
{
    lemma_fq2_len(c.0);
    lemma_fq2_len(c.1);
    lemma_fq2_len(c.2);
    lemma_split(s, pos, enc_fq2(c.0) + enc_fq2(c.1), enc_fq2(c.2));
    lemma_split(s, pos, enc_fq2(c.0), enc_fq2(c.1));
    lemma_parse_fq2(s, pos, c.0);
    lemma_parse_fq2(s, pos + 64, c.1);
    lemma_parse_fq2(s, pos + 128, c.2);
}

/// What `parse_big` reads is the encoding of the limbs it returns.
pub proof fn lemma_big_bytes(s: Seq<u8>, pos: int)
    requires
        parse_big(s, pos) is Ok,
    ensures
        s.subrange(pos, pos + 32) == enc_big(parse_big(s, pos)->Ok_0.0),
{
    lemma_auto_spec_u64_to_from_le_bytes();
    let b = parse_big(s, pos)->Ok_0.0;
    let c0 = s.subrange(pos, pos + 8);
    let c1 = s.subrange(pos + 8, pos + 16);
    let c2 = s.subrange(pos + 16, pos + 24);
    let c3 = s.subrange(pos + 24, pos + 32);
    assert(spec_u64_to_le_bytes(spec_u64_from_le_bytes(c0)) == c0);
    assert(spec_u64_to_le_bytes(spec_u64_from_le_bytes(c1)) == c1);
    assert(spec_u64_to_le_bytes(spec_u64_from_le_bytes(c2)) == c2);
    assert(spec_u64_to_le_bytes(spec_u64_from_le_bytes(c3)) == c3);
    assert(s.subrange(pos, pos + 32) =~= c0 + c1 + c2 + c3);
}

/// What `parse_bool` reads is the encoding of the flag it returns.
pub proof fn lemma_bool_bytes(s: Seq<u8>, pos: int)
    requires
        parse_bool(s, pos) is Ok,
    ensures
        s.subrange(pos, pos + 1) == enc_bool(parse_bool(s, pos)->Ok_0.0),
{
    assert(s.subrange(pos, pos + 1) =~= seq![s[pos]]);
}

/// What `parse_fq2` reads is the encoding of the element it returns.
pub proof fn lemma_fq2_bytes(s: Seq<u8>, pos: int)
    requires
        parse_fq2(s, pos) is Ok,
    ensures
        parse_fq2(s, pos)->Ok_0.1 == pos + 64,
        s.subrange(pos, pos + 64) == enc_fq2(parse_fq2(s, pos)->Ok_0.0),
{
    lemma_big_bytes(s, pos);
    lemma_big_bytes(s, pos + 32);
    assert(s.subrange(pos, pos + 64) =~= s.subrange(pos, pos + 32) + s.subrange(pos + 32, pos + 64));
}

/// What `parse_fq6` reads is the encoding of the element it returns.
pub proof fn lemma_fq6_bytes(s: Seq<u8>, pos: int)
    requires
        parse_fq6(s, pos) is Ok,
    ensures
        parse_fq6(s, pos)->Ok_0.1 == pos + 192,
        s.subrange(pos, pos + 192) == enc_fq6(parse_fq6(s, pos)->Ok_0.0),
{
    lemma_fq2_bytes(s, pos);
    lemma_fq2_bytes(s, pos + 64);
    lemma_fq2_bytes(s, pos + 128);
    assert(s.subrange(pos, pos + 192) =~= s.subrange(pos, pos + 64) + s.subrange(pos + 64, pos + 128)
        + s.subrange(pos + 128, pos + 192));
}

/// What `parse_fq12` reads is the encoding of the element it returns.
pub proof fn lemma_fq12_bytes(s: Seq<u8>, pos: int)
    requires
        parse_fq12(s, pos) is Ok,
    ensures
        parse_fq12(s, pos)->Ok_0.1 == pos + 384,
        s.subrange(pos, pos + 384) == enc_fq12(parse_fq12(s, pos)->Ok_0.0),
{
    lemma_fq6_bytes(s, pos);
    lemma_fq6_bytes(s, pos + 192);
    assert(s.subrange(pos, pos + 384) =~= s.subrange(pos, pos + 192) + s.subrange(pos + 192, pos + 384));
}

/// What `parse_g1` reads is the encoding of the point it returns.
pub proof fn lemma_g1_bytes(s: Seq<u8>, pos: int)
    requires
        parse_g1(s, pos) is Ok,
    ensures
        parse_g1(s, pos)->Ok_0.1 == pos + 65,
        s.subrange(pos, pos + 65) == enc_g1(parse_g1(s, pos)->Ok_0.0),
{
    lemma_big_bytes(s, pos);
    lemma_big_bytes(s, pos + 32);
    lemma_bool_bytes(s, pos + 64);
    assert(s.subrange(pos, pos + 65) =~= s.subrange(pos, pos + 32) + s.subrange(pos + 32, pos + 64)
        + s.subrange(pos + 64, pos + 65));
}

/// What `parse_g2` reads is the encoding of the point it returns.
pub proof fn lemma_g2_bytes(s: Seq<u8>, pos: int)
    requires
        parse_g2(s, pos) is Ok,
    ensures
        parse_g2(s, pos)->Ok_0.1 == pos + 129,
        s.subrange(pos, pos + 129) == enc_g2(parse_g2(s, pos)->Ok_0.0),
{
    lemma_fq2_bytes(s, pos);
    lemma_fq2_bytes(s, pos + 64);
    lemma_bool_bytes(s, pos + 128);
    assert(s.subrange(pos, pos + 129) =~= s.subrange(pos, pos + 64) + s.subrange(pos + 64, pos + 128)
        + s.subrange(pos + 128, pos + 129));
}

fn write_u64(v: u64, out: &mut Vec<u8>)
    ensures
        final(out)@ == old(out)@ + enc_u64(v),
{
    let mut b = u64_to_le_bytes(v);
    out.append(&mut b);
}

pub(crate) fn write_u32(v: u32, out: &mut Vec<u8>)
    ensures
        final(out)@ == old(out)@ + spec_u32_to_le_bytes(v),
{
    let mut b = u32_to_le_bytes(v);
    out.append(&mut b);
}

pub(crate) fn write_bool(v: bool, out: &mut Vec<u8>)
    ensures
        final(out)@ == old(out)@ + enc_bool(v),
{
    out.push(if v { 1u8 } else { 0u8 });
    assert(out@ =~= old(out)@ + enc_bool(v));
}

pub(crate) fn write_big(b: &BigInteger256, out: &mut Vec<u8>)
    ensures
        final(out)@ == old(out)@ + enc_big(*b),
{
    write_u64(b.val[0], out);
    write_u64(b.val[1], out);
    write_u64(b.val[2], out);
    write_u64(b.val[3], out);
    assert(out@ =~= old(out)@ + enc_big(*b));
}

pub(crate) fn write_fq2(e: &Fq2, out: &mut Vec<u8>)
    ensures
        final(out)@ == old(out)@ + enc_fq2(*e),
{
    write_big(&e.c0, out);
    write_big(&e.c1, out);
    assert(out@ =~= old(out)@ + enc_fq2(*e));
}

pub(crate) fn write_fq6(e: &Fq6, out: &mut Vec<u8>)
    ensures
        final(out)@ == old(out)@ + enc_fq6(*e),
{
    write_fq2(&e.c0, out);
    write_fq2(&e.c1, out);
    write_fq2(&e.c2, out);
    assert(out@ =~= old(out)@ + enc_fq6(*e));
}

pub(crate) fn write_fq12(e: &Fq12, out: &mut Vec<u8>)
    ensures
        final(out)@ == old(out)@ + enc_fq12(*e),
{
    write_fq6(&e.c0, out);
    write_fq6(&e.c1, out);
    assert(out@ =~= old(out)@ + enc_fq12(*e));
}

pub(crate) fn write_g1(p: &G1Affine, out: &mut Vec<u8>)
    ensures
        final(out)@ == old(out)@ + enc_g1(*p),
{
    write_big(&p.x, out);
    write_big(&p.y, out);
    write_bool(p.infinity, out);
    assert(out@ =~= old(out)@ + enc_g1(*p));
}

pub(crate) fn write_g2(p: &G2Affine, out: &mut Vec<u8>)
    ensures
        final(out)@ == old(out)@ + enc_g2(*p),
{
    write_fq2(&p.x, out);
    write_fq2(&p.y, out);
    write_bool(p.infinity, out);
    assert(out@ =~= old(out)@ + enc_g2(*p));
}

pub(crate) fn write_line(c: &(Fq2, Fq2, Fq2), out: &mut Vec<u8>)
    ensures
        final(out)@ == old(out)@ + enc_line(*c),
{
    write_fq2(&c.0, out);
    write_fq2(&c.1, out);
    write_fq2(&c.2, out);
    assert(out@ =~= old(out)@ + enc_line(*c));
}

fn read_u64(s: &[u8], pos: usize) -> (r: u64)
    requires
        pos + 8 <= s@.len(),
        s@.len() <= usize::MAX,
    ensures
        r == u64_at(s@, pos as int),
{
    u64_from_le_bytes(slice_subrange(s, pos, pos + 8))
}

pub(crate) fn read_u32(s: &[u8], pos: usize) -> (r: Result<(u32, usize), DecodeError>)
    ensures
        agrees(r, parse_u32(s@, pos as int)),
{
    if pos > s.len() || s.len() - pos < 4 {
        return Err(DecodeError::TruncatedInput);
    }
    Ok((u32_from_le_bytes(slice_subrange(s, pos, pos + 4)), pos + 4))
}

pub(crate) fn read_bool(s: &[u8], pos: usize) -> (r: Result<(bool, usize), DecodeError>)
    ensures
        agrees(r, parse_bool(s@, pos as int)),
{
    if pos >= s.len() {
        Err(DecodeError::TruncatedInput)
    } else if s[pos] == 0 {
        Ok((false, pos + 1))
    } else if s[pos] == 1 {
        Ok((true, pos + 1))
    } else {
        Err(DecodeError::InvalidDiscriminant)
    }
}

pub(crate) fn read_big(s: &[u8], pos: usize) -> (r: Result<(BigInteger256, usize), DecodeError>)
    ensures
        agrees(r, parse_big(s@, pos as int)),
{
    if pos > s.len() || s.len() - pos < 32 {
        return Err(DecodeError::TruncatedInput);
    }
    let b = BigInteger256::new(
        [read_u64(s, pos), read_u64(s, pos + 8), read_u64(s, pos + 16), read_u64(s, pos + 24)],
    );
    Ok((b, pos + 32))
}

pub(crate) fn read_fq2(s: &[u8], pos: usize) -> (r: Result<(Fq2, usize), DecodeError>)
    ensures
        agrees(r, parse_fq2(s@, pos as int)),
{
    let (c0, at1) = match read_big(s, pos) {
        Ok(v) => v,
        Err(e) => return Err(e),
    };
    let (c1, at2) = match read_big(s, at1) {
        Ok(v) => v,
        Err(e) => return Err(e),
    };
    Ok((Fq2::new(c0, c1), at2))
}

pub(crate) fn read_fq6(s: &[u8], pos: usize) -> (r: Result<(Fq6, usize), DecodeError>)
    ensures
        agrees(r, parse_fq6(s@, pos as int)),
{
    let (c0, at1) = match read_fq2(s, pos) {
        Ok(v) => v,
        Err(e) => return Err(e),
    };
    let (c1, at2) = match read_fq2(s, at1) {
        Ok(v) => v,
        Err(e) => return Err(e),
    };
    let (c2, at3) = match read_fq2(s, at2) {
        Ok(v) => v,
        Err(e) => return Err(e),
    };
    Ok((Fq6::new(c0, c1, c2), at3))
}

pub(crate) fn read_fq12(s: &[u8], pos: usize) -> (r: Result<(Fq12, usize), DecodeError>)
    ensures
        agrees(r, parse_fq12(s@, pos as int)),
{
    let (c0, at1) = match read_fq6(s, pos) {
        Ok(v) => v,
        Err(e) => return Err(e),
    };
    let (c1, at2) = match read_fq6(s, at1) {
        Ok(v) => v,
        Err(e) => return Err(e),
    };
    Ok((Fq12::new(c0, c1), at2))
}

pub(crate) fn read_g1(s: &[u8], pos: usize) -> (r: Result<(G1Affine, usize), DecodeError>)
    ensures
        agrees(r, parse_g1(s@, pos as int)),
{
    let (x, at1) = match read_big(s, pos) {
        Ok(v) => v,
        Err(e) => return Err(e),
    };
    let (y, at2) = match read_big(s, at1) {
        Ok(v) => v,
        Err(e) => return Err(e),
    };
    let (infinity, at3) = match read_bool(s, at2) {
        Ok(v) => v,
        Err(e) => return Err(e),
    };
    Ok((G1Affine::new(x, y, infinity), at3))
}

pub(crate) fn read_g2(s: &[u8], pos: usize) -> (r: Result<(G2Affine, usize), DecodeError>)
    ensures
        agrees(r, parse_g2(s@, pos as int)),
{
    let (x, at1) = match read_fq2(s, pos) {
        Ok(v) => v,
        Err(e) => return Err(e),
    };
    let (y, at2) = match read_fq2(s, at1) {
        Ok(v) => v,
        Err(e) => return Err(e),
    };
    let (infinity, at3) = match read_bool(s, at2) {
        Ok(v) => v,
        Err(e) => return Err(e),
    };
    Ok((G2Affine::new(x, y, infinity), at3))
}

pub(crate) fn read_line(s: &[u8], pos: usize) -> (r: Result<((Fq2, Fq2, Fq2), usize), DecodeError>)
    ensures
        agrees(r, parse_line(s@, pos as int)),
{
    let (a, at1) = match read_fq2(s, pos) {
        Ok(v) => v,
        Err(e) => return Err(e),
    };
    let (b, at2) = match read_fq2(s, at1) {
        Ok(v) => v,
        Err(e) => return Err(e),
    };
    let (c, at3) = match read_fq2(s, at2) {
        Ok(v) => v,
        Err(e) => return Err(e),
    };
    Ok(((a, b, c), at3))
}

/// The items of a list, one after the other, with no length.
pub open spec fn enc_lines(v: Seq<(Fq2, Fq2, Fq2)>) -> Seq<u8>
    decreases v.len(),
{
    if v.len() == 0 {
        Seq::empty()
    } else {
        enc_lines(v.drop_last()) + enc_line(v.last())
    }
}

/// `n` items read one after the other from `pos`.
pub open spec fn parse_lines(s: Seq<u8>, pos: int, n: nat) -> Result<(Seq<(Fq2, Fq2, Fq2)>, int), DecodeError>
    decreases n,
{
    if n == 0 {
        Ok((Seq::empty(), pos))
    } else {
        match parse_lines(s, pos, (n - 1) as nat) {
            Err(e) => Err(e),
            Ok((v, p)) => match parse_line(s, p) {
                Err(e) => Err(e),
                Ok((c, q)) => Ok((v.push(c), q)),
            },
        }
    }
}

pub proof fn lemma_lines_len(v: Seq<(Fq2, Fq2, Fq2)>)
    ensures
        enc_lines(v).len() == 192 * v.len(),
    decreases v.len(),
{
    if v.len() > 0 {
        lemma_lines_len(v.drop_last());
        lemma_line_len(v.last());
    }
}

pub proof fn lemma_parse_lines(s: Seq<u8>, pos: int, v: Seq<(Fq2, Fq2, Fq2)>)
    requires
        0 <= pos,
        pos + enc_lines(v).len() <= s.len(),
        s.subrange(pos, pos + enc_lines(v).len()) == enc_lines(v),
    ensures
        parse_lines(s, pos, v.len()) == Ok::<(Seq<(Fq2, Fq2, Fq2)>, int), DecodeError>(
            (v, pos + enc_lines(v).len()),
        ),
    decreases v.len(),
{
    if v.len() == 0 {
        assert(v =~= Seq::<(Fq2, Fq2, Fq2)>::empty());
    } else {
        let d = v.drop_last();
        lemma_line_len(v.last());
        lemma_split(s, pos, enc_lines(d), enc_line(v.last()));
        lemma_parse_lines(s, pos, d);
        lemma_parse_line(s, pos + enc_lines(d).len(), v.last());
        assert(d.push(v.last()) =~= v);
    }
}

proof fn lemma_lines_err_extends(s: Seq<u8>, pos: int, k: nat, n: nat, e: DecodeError)
    requires
        k <= n,
        parse_lines(s, pos, k) == Err::<(Seq<(Fq2, Fq2, Fq2)>, int), DecodeError>(e),
    ensures
        parse_lines(s, pos, n) == Err::<(Seq<(Fq2, Fq2, Fq2)>, int), DecodeError>(e),
    decreases n - k,
{
    if k < n {
        lemma_lines_err_extends(s, pos, k + 1, n, e);
    }
}

pub(crate) fn write_lines(v: &Vec<(Fq2, Fq2, Fq2)>, out: &mut Vec<u8>)
    ensures
        final(out)@ == old(out)@ + enc_lines(v@),
{
    let mut i: usize = 0;
    while i < v.len()
        invariant
            0 <= i <= v.len(),
            out@ == old(out)@ + enc_lines(v@.take(i as int)),
        decreases v.len() - i,
    {
        write_line(&v[i], out);
        proof {
            assert(v@.take(i + 1).drop_last() =~= v@.take(i as int));
        }
        assert(out@ =~= old(out)@ + enc_lines(v@.take(i + 1)));
        i += 1;
    }
    assert(v@.take(v.len() as int) =~= v@);
}

pub(crate) fn read_lines(s: &[u8], pos: usize, n: u32) -> (r: Result<(Vec<(Fq2, Fq2, Fq2)>, usize), DecodeError>)
    ensures
        match r {
            Ok((v, p)) => parse_lines(s@, pos as int, n as nat) == Ok::<(Seq<(Fq2, Fq2, Fq2)>, int), DecodeError>(
                (v@, p as int),
            ),
            Err(e) => parse_lines(s@, pos as int, n as nat) == Err::<(Seq<(Fq2, Fq2, Fq2)>, int), DecodeError>(e),
        },
{
    let mut out: Vec<(Fq2, Fq2, Fq2)> = Vec::new();
    let mut p = pos;
    let mut i: u32 = 0;
    while i < n
        invariant
            i <= n,
            parse_lines(s@, pos as int, i as nat) == Ok::<(Seq<(Fq2, Fq2, Fq2)>, int), DecodeError>(
                (out@, p as int),
            ),
        decreases n - i,
    {
        match read_line(s, p) {
            Ok((c, q)) => {
                out.push(c);
                p = q;
            },
            Err(e) => {
                proof {
                    lemma_lines_err_extends(s@, pos as int, (i + 1) as nat, n as nat, e);
                }
                return Err(e);
            },
        }
        i += 1;
    }
    Ok((out, p))
}

/// The items of a list, one after the other, with no length.
pub open spec fn enc_g1s(v: Seq<G1Affine>) -> Seq<u8>
    decreases v.len(),
{
    if v.len() == 0 {
        Seq::empty()
    } else {
        enc_g1s(v.drop_last()) + enc_g1(v.last())
    }
}

/// `n` items read one after the other from `pos`.
pub open spec fn parse_g1s(s: Seq<u8>, pos: int, n: nat) -> Result<(Seq<G1Affine>, int), DecodeError>
    decreases n,
{
    if n == 0 {
        Ok((Seq::empty(), pos))
    } else {
        match parse_g1s(s, pos, (n - 1) as nat) {
            Err(e) => Err(e),
            Ok((v, p)) => match parse_g1(s, p) {
                Err(e) => Err(e),
                Ok((c, q)) => Ok((v.push(c), q)),
            },
        }
    }
}

pub proof fn lemma_g1s_len(v: Seq<G1Affine>)
    ensures
        enc_g1s(v).len() == 65 * v.len(),
    decreases v.len(),
{
    if v.len() > 0 {
        lemma_g1s_len(v.drop_last());
        lemma_g1_len(v.last());
    }
}

pub proof fn lemma_parse_g1s(s: Seq<u8>, pos: int, v: Seq<G1Affine>)
    requires
        0 <= pos,
        pos + enc_g1s(v).len() <= s.len(),
        s.subrange(pos, pos + enc_g1s(v).len()) == enc_g1s(v),
    ensures
        parse_g1s(s, pos, v.len()) == Ok::<(Seq<G1Affine>, int), DecodeError>(
            (v, pos + enc_g1s(v).len()),
        ),
    decreases v.len(),
{
    if v.len() == 0 {
        assert(v =~= Seq::<G1Affine>::empty());
    } else {
        let d = v.drop_last();
        lemma_g1_len(v.last());
        lemma_split(s, pos, enc_g1s(d), enc_g1(v.last()));
        lemma_parse_g1s(s, pos, d);
        lemma_parse_g1(s, pos + enc_g1s(d).len(), v.last());
        assert(d.push(v.last()) =~= v);
    }
}

proof fn lemma_g1s_err_extends(s: Seq<u8>, pos: int, k: nat, n: nat, e: DecodeError)
    requires
        k <= n,
        parse_g1s(s, pos, k) == Err::<(Seq<G1Affine>, int), DecodeError>(e),
    ensures
        parse_g1s(s, pos, n) == Err::<(Seq<G1Affine>, int), DecodeError>(e),
    decreases n - k,
{
    if k < n {
        lemma_g1s_err_extends(s, pos, k + 1, n, e);
    }
}

pub(crate) fn write_g1s(v: &Vec<G1Affine>, out: &mut Vec<u8>)
    ensures
        final(out)@ == old(out)@ + enc_g1s(v@),
{
    let mut i: usize = 0;
    while i < v.len()
        invariant
            0 <= i <= v.len(),
            out@ == old(out)@ + enc_g1s(v@.take(i as int)),
        decreases v.len() - i,
    {
        write_g1(&v[i], out);
        proof {
            assert(v@.take(i + 1).drop_last() =~= v@.take(i as int));
        }
        assert(out@ =~= old(out)@ + enc_g1s(v@.take(i + 1)));
        i += 1;
    }
    assert(v@.take(v.len() as int) =~= v@);
}

pub(crate) fn read_g1s(s: &[u8], pos: usize, n: u32) -> (r: Result<(Vec<G1Affine>, usize), DecodeError>)
    ensures
        match r {
            Ok((v, p)) => parse_g1s(s@, pos as int, n as nat) == Ok::<(Seq<G1Affine>, int), DecodeError>(
                (v@, p as int),
            ),
            Err(e) => parse_g1s(s@, pos as int, n as nat) == Err::<(Seq<G1Affine>, int), DecodeError>(e),
        },
{
    let mut out: Vec<G1Affine> = Vec::new();
    let mut p = pos;
    let mut i: u32 = 0;
    while i < n
        invariant
            i <= n,
            parse_g1s(s@, pos as int, i as nat) == Ok::<(Seq<G1Affine>, int), DecodeError>(
                (out@, p as int),
            ),
        decreases n - i,
    {
        match read_g1(s, p) {
            Ok((c, q)) => {
                out.push(c);
                p = q;
            },
            Err(e) => {
                proof {
                    lemma_g1s_err_extends(s@, pos as int, (i + 1) as nat, n as nat, e);
                }
                return Err(e);
            },
        }
        i += 1;
    }
    Ok((out, p))
}

/// A prepared point: its number of lines, the lines, and its flag.
pub open spec fn enc_g2_prepared(p: G2PreparedView) -> Seq<u8> {
    spec_u32_to_le_bytes(p.ell_coeffs.len() as u32) + enc_lines(p.ell_coeffs) + enc_bool(p.infinity)
}

pub open spec fn parse_g2_prepared(s: Seq<u8>, pos: int) -> Result<(G2PreparedView, int), DecodeError> {
    match parse_u32(s, pos) {
        Err(e) => Err(e),
        Ok((n, at1)) => match parse_lines(s, at1, n as nat) {
            Err(e) => Err(e),
            Ok((v, at2)) => match parse_bool(s, at2) {
                Err(e) => Err(e),
                Ok((infinity, at3)) => Ok((G2PreparedView { ell_coeffs: v, infinity }, at3)),
            },
        },
    }
}

pub proof fn lemma_g2_prepared_len(p: G2PreparedView)
    ensures
        enc_g2_prepared(p).len() == 5 + 192 * p.ell_coeffs.len(),
{
    lemma_auto_spec_u32_to_from_le_bytes();
    assert(spec_u32_to_le_bytes(p.ell_coeffs.len() as u32).len() == 4);
    lemma_lines_len(p.ell_coeffs);
}

pub proof fn lemma_parse_g2_prepared(s: Seq<u8>, pos: int, p: G2PreparedView)
    requires
        0 <= pos,
        p.ell_coeffs.len() <= u32::MAX,
        pos + enc_g2_prepared(p).len() <= s.len(),
        s.subrange(pos, pos + enc_g2_prepared(p).len()) == enc_g2_prepared(p),
    ensures
        parse_g2_prepared(s, pos) == Ok::<(G2PreparedView, int), DecodeError>(
            (p, pos + enc_g2_prepared(p).len()),
        ),
{
    let n = spec_u32_to_le_bytes(p.ell_coeffs.len() as u32);
    lemma_g2_prepared_len(p);
    lemma_lines_len(p.ell_coeffs);
    lemma_split(s, pos, n + enc_lines(p.ell_coeffs), enc_bool(p.infinity));
    lemma_split(s, pos, n, enc_lines(p.ell_coeffs));
    lemma_parse_u32(s, pos, p.ell_coeffs.len() as u32);
    lemma_parse_lines(s, pos + 4, p.ell_coeffs);
    lemma_parse_bool(s, pos + 4 + enc_lines(p.ell_coeffs).len(), p.infinity);
}

pub(crate) fn write_g2_prepared(p: &G2Prepared, out: &mut Vec<u8>)
    requires
        p.ell_coeffs.len() <= u32::MAX,
    ensures
        final(out)@ == old(out)@ + enc_g2_prepared(p@),
{
    write_u32(p.ell_coeffs.len() as u32, out);
    write_lines(&p.ell_coeffs, out);
    write_bool(p.infinity, out);
    assert(out@ =~= old(out)@ + enc_g2_prepared(p@));
}

pub(crate) fn read_g2_prepared(s: &[u8], pos: usize) -> (r: Result<(G2Prepared, usize), DecodeError>)
    ensures
        match r {
            Ok((v, p)) => parse_g2_prepared(s@, pos as int) == Ok::<(G2PreparedView, int), DecodeError>(
                (v@, p as int),
            ),
            Err(e) => parse_g2_prepared(s@, pos as int) == Err::<(G2PreparedView, int), DecodeError>(e),
        },
{
    let (n, at1) = match read_u32(s, pos) {
        Ok(v) => v,
        Err(e) => return Err(e),
    };
    let (lines, at2) = match read_lines(s, at1, n) {
        Ok(v) => v,
        Err(e) => return Err(e),
    };
    let (infinity, at3) = match read_bool(s, at2) {
        Ok(v) => v,
        Err(e) => return Err(e),
    };
    Ok((G2Prepared { ell_coeffs: lines, infinity }, at3))
}

} // verus!
