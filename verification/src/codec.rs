//! Fixed canonical byte encodings for the primitive values the ledger
//! stores: little-endian 64-bit words and a sign/magnitude form for
//! signed integers. Every encoding here is deterministic and injective,
//! which is what makes hashing and signing reproducible.

use vstd::prelude::*;

verus! {

/// The canonical little-endian byte sequence of a 64-bit word.
pub open spec fn u64_le(n: u64) -> Seq<u8> {
    seq![
        (n & 0xff) as u8,
        ((n >> 8) & 0xff) as u8,
        ((n >> 16) & 0xff) as u8,
        ((n >> 24) & 0xff) as u8,
        ((n >> 32) & 0xff) as u8,
        ((n >> 40) & 0xff) as u8,
        ((n >> 48) & 0xff) as u8,
        ((n >> 56) & 0xff) as u8,
    ]
}

/// The 64-bit word read from an 8-byte little-endian sequence.
pub open spec fn dec_u64(s: Seq<u8>) -> u64
    recommends
        s.len() == 8,
{
    ((s[0] as u64) | ((s[1] as u64) << 8) | ((s[2] as u64) << 16) | ((s[3] as u64) << 24)
        | ((s[4] as u64) << 32) | ((s[5] as u64) << 40) | ((s[6] as u64) << 48)
        | ((s[7] as u64) << 56)) as u64
}

/// Reading back the canonical encoding of a word yields the word.
pub proof fn lemma_u64_le_round_trip(n: u64)
    ensures
        dec_u64(u64_le(n)) == n,
{
    assert((((n & 0xff) as u8 as u64) | ((((n >> 8) & 0xff) as u8 as u64) << 8) | ((((n >> 16)
        & 0xff) as u8 as u64) << 16) | ((((n >> 24) & 0xff) as u8 as u64) << 24) | ((((n >> 32)
        & 0xff) as u8 as u64) << 32) | ((((n >> 40) & 0xff) as u8 as u64) << 40) | ((((n >> 48)
        & 0xff) as u8 as u64) << 48) | ((((n >> 56) & 0xff) as u8 as u64) << 56)) == n)
        by (bit_vector);
}

/// Every 8-byte sequence is the canonical encoding of the word read from
/// it: the encoding is onto, so decoding is its exact inverse.
pub proof fn lemma_dec_u64_round_trip(s: Seq<u8>)
    requires
        s.len() == 8,
    ensures
        u64_le(dec_u64(s)) == s,
{
    let b0 = s[0];
    let b1 = s[1];
    let b2 = s[2];
    let b3 = s[3];
    let b4 = s[4];
    let b5 = s[5];
    let b6 = s[6];
    let b7 = s[7];
    let n = dec_u64(s);
    assert(n == ((b0 as u64) | ((b1 as u64) << 8) | ((b2 as u64) << 16) | ((b3 as u64) << 24) | (
    (b4 as u64) << 32) | ((b5 as u64) << 40) | ((b6 as u64) << 48) | ((b7 as u64) << 56)) as u64);
    assert({
        let m = ((b0 as u64) | ((b1 as u64) << 8) | ((b2 as u64) << 16) | ((b3 as u64) << 24) | ((
        b4 as u64) << 32) | ((b5 as u64) << 40) | ((b6 as u64) << 48) | ((b7 as u64) << 56)) as u64;
        (m & 0xff) as u8 == b0 && ((m >> 8) & 0xff) as u8 == b1 && ((m >> 16) & 0xff) as u8 == b2
            && ((m >> 24) & 0xff) as u8 == b3 && ((m >> 32) & 0xff) as u8 == b4 && ((m >> 40)
            & 0xff) as u8 == b5 && ((m >> 48) & 0xff) as u8 == b6 && ((m >> 56) & 0xff) as u8 == b7
    }) by (bit_vector);
    assert(u64_le(n) =~= s);
}

/// The canonical encoding of a word is injective.
pub proof fn lemma_u64_le_injective(a: u64, b: u64)
    requires
        u64_le(a) == u64_le(b),
    ensures
        a == b,
{
    lemma_u64_le_round_trip(a);
    lemma_u64_le_round_trip(b);
}

/// Appends the canonical little-endian bytes of `n` to `out`.
pub fn push_u64_le(out: &mut Vec<u8>, n: u64)
    ensures
        final(out)@ == old(out)@ + u64_le(n),
{
    out.push((n & 0xff) as u8);
    out.push(((n >> 8) & 0xff) as u8);
    out.push(((n >> 16) & 0xff) as u8);
    out.push(((n >> 24) & 0xff) as u8);
    out.push(((n >> 32) & 0xff) as u8);
    out.push(((n >> 40) & 0xff) as u8);
    out.push(((n >> 48) & 0xff) as u8);
    out.push(((n >> 56) & 0xff) as u8);
    assert(out@ =~= old(out)@ + u64_le(n));
}

/// The canonical little-endian bytes of `n`, as a vector.
pub fn u64_le_bytes(n: u64) -> (r: Vec<u8>)
    ensures
        r@ == u64_le(n),
{
    let mut out: Vec<u8> = Vec::new();
    push_u64_le(&mut out, n);
    assert(out@ =~= u64_le(n));
    out
}

/// Reads the word encoded by an exact 8-byte buffer.
pub fn read_u64_le(buf: &Vec<u8>) -> (r: u64)
    requires
        buf@.len() == 8,
    ensures
        r == dec_u64(buf@),
{
    let b0 = buf[0] as u64;
    let b1 = buf[1] as u64;
    let b2 = buf[2] as u64;
    let b3 = buf[3] as u64;
    let b4 = buf[4] as u64;
    let b5 = buf[5] as u64;
    let b6 = buf[6] as u64;
    let b7 = buf[7] as u64;
    b0 | (b1 << 8) | (b2 << 16) | (b3 << 24) | (b4 << 32) | (b5 << 40) | (b6 << 48) | (b7 << 56)
}

/// The canonical form of a signed 64-bit integer: a sign byte (0 for
/// non-negative, 1 for negative) followed by the little-endian magnitude;
/// a negative `v` stores `-(v + 1)` so that the magnitude always fits.
pub open spec fn i64_canon(v: i64) -> Seq<u8> {
    if v >= 0 {
        seq![0u8] + u64_le(v as u64)
    } else {
        seq![1u8] + u64_le((-(v + 1)) as u64)
    }
}

/// The canonical form of a signed integer is injective.
pub proof fn lemma_i64_canon_injective(a: i64, b: i64)
    requires
        i64_canon(a) == i64_canon(b),
    ensures
        a == b,
{
    assert(i64_canon(a)[0] == i64_canon(b)[0]);
    assert((a >= 0) == (b >= 0)) by {
        if a >= 0 && b < 0 {
            assert(i64_canon(a)[0] == 0u8 && i64_canon(b)[0] == 1u8);
        }
        if a < 0 && b >= 0 {
            assert(i64_canon(a)[0] == 1u8 && i64_canon(b)[0] == 0u8);
        }
    }
    if a >= 0 {
        assert(u64_le(a as u64) =~= i64_canon(a).drop_first());
        assert(u64_le(b as u64) =~= i64_canon(b).drop_first());
        lemma_u64_le_injective(a as u64, b as u64);
    } else {
        assert(u64_le((-(a + 1)) as u64) =~= i64_canon(a).drop_first());
        assert(u64_le((-(b + 1)) as u64) =~= i64_canon(b).drop_first());
        lemma_u64_le_injective((-(a + 1)) as u64, (-(b + 1)) as u64);
    }
}

/// The canonical bytes of a signed 64-bit integer.
pub fn i64_canon_bytes(v: i64) -> (r: Vec<u8>)
    ensures
        r@ == i64_canon(v),
{
    let mut out: Vec<u8> = Vec::new();
    if v >= 0 {
        out.push(0u8);
        push_u64_le(&mut out, v as u64);
    } else {
        out.push(1u8);
        push_u64_le(&mut out, (-(v + 1)) as u64);
    }
    assert(out@ =~= i64_canon(v));
    out
}

/// Decodes the canonical form of a signed 64-bit integer; returns `None`
/// on any byte sequence that no integer encodes to.
pub fn i64_from_canon(buf: &Vec<u8>) -> (r: Option<i64>)
    ensures
        r matches Some(v) ==> i64_canon(v) == buf@,
        (exists|v: i64| i64_canon(v) == buf@) ==> r is Some,
{
    if buf.len() != 9 {
        assert(forall|v: i64| i64_canon(v).len() == 9);
        return None;
    }
    let tag = buf[0];
    let mut word: Vec<u8> = Vec::new();
    let mut i: usize = 1;
    while i < 9
        invariant
            1 <= i <= 9,
            buf@.len() == 9,
            word@ == buf@.subrange(1, i as int),
        decreases 9 - i,
    {
        word.push(buf[i]);
        i = i + 1;
        assert(word@ =~= buf@.subrange(1, i as int));
    }
    assert(word@ =~= buf@.drop_first());
    let m = read_u64_le(&word);
    proof {
        lemma_dec_u64_round_trip(word@);
    }
    if tag == 0 {
        if m <= 0x7fff_ffff_ffff_ffff {
            let v = m as i64;
            assert(i64_canon(v) =~= buf@);
            Some(v)
        } else {
            proof {
                assert forall|v: i64| i64_canon(v) != buf@ by {
                    if v >= 0 {
                        if i64_canon(v) == buf@ {
                            assert(u64_le(v as u64) =~= buf@.drop_first());
                            lemma_u64_le_injective(v as u64, m);
                        }
                    } else {
                        assert(i64_canon(v)[0] == 1u8);
                    }
                }
            }
            None
        }
    } else if tag == 1 {
        if m <= 0x7fff_ffff_ffff_ffff {
            let v = -(m as i64) - 1;
            assert(i64_canon(v) =~= buf@);
            Some(v)
        } else {
            proof {
                assert forall|v: i64| i64_canon(v) != buf@ by {
                    if v < 0 {
                        if i64_canon(v) == buf@ {
                            assert(u64_le((-(v + 1)) as u64) =~= buf@.drop_first());
                            lemma_u64_le_injective((-(v + 1)) as u64, m);
                        }
                    } else {
                        assert(i64_canon(v)[0] == 0u8);
                    }
                }
            }
            None
        }
    } else {
        assert(forall|v: i64| i64_canon(v)[0] == 0u8 || i64_canon(v)[0] == 1u8);
        None
    }
}

} // verus!

