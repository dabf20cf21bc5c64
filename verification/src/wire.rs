//! Byte-level primitives of the wire format: little-endian integers, one-byte
//! booleans, and length-prefixed UTF-8 strings, each with a writer, a reader,
//! and the lemma that reading undoes writing.

use vstd::prelude::*;
use vstd::utf8::{decode_utf8, encode_utf8, valid_utf8};

verus! {

/// Failure of `decode`: unknown tag, a length prefix that exceeds the
/// remaining buffer, a byte outside a known enumeration, or trailing garbage.
#[derive(Clone, Copy, Debug, PartialEq, Eq, Structural)]
pub enum DecodeError {
    MalformedMessage,
}

// ---------------------------------------------------------------------------
// Little-endian encodings at the spec level
// ---------------------------------------------------------------------------

/// The `n` low-order bytes of `v`, least significant first.
pub open spec fn le_bytes(v: nat, n: nat) -> Seq<u8>
    decreases n,
{
    if n == 0 {
        Seq::empty()
    } else {
        seq![(v % 256) as u8] + le_bytes(v / 256, (n - 1) as nat)
    }
}

/// The value of a little-endian byte string.
pub open spec fn le_value(s: Seq<u8>) -> nat
    decreases s.len(),
{
    if s.len() == 0 {
        0
    } else {
        (s[0] + 256 * le_value(s.drop_first())) as nat
    }
}

pub open spec fn enc_u8(v: u8) -> Seq<u8> {
    le_bytes(v as nat, 1)
}

pub open spec fn enc_u16(v: u16) -> Seq<u8> {
    le_bytes(v as nat, 2)
}

pub open spec fn enc_u32(v: u32) -> Seq<u8> {
    le_bytes(v as nat, 4)
}

pub open spec fn enc_u64(v: u64) -> Seq<u8> {
    le_bytes(v as nat, 8)
}

pub open spec fn enc_bool(b: bool) -> Seq<u8> {
    seq![if b { 1u8 } else { 0u8 }]
}

/// A string on the wire: a 16-bit byte count followed by the UTF-8 bytes.
pub open spec fn enc_str(s: Seq<char>) -> Seq<u8> {
    le_bytes(encode_utf8(s).len(), 2) + encode_utf8(s)
}

/// A string fits on the wire when its UTF-8 form fits the 16-bit count.
pub open spec fn str_fits(s: Seq<char>) -> bool {
    encode_utf8(s).len() <= 0xFFFF
}

pub proof fn lemma_le_bytes_len(v: nat, n: nat)
    ensures
        le_bytes(v, n).len() == n,
    decreases n,
{
    if n > 0 {
        lemma_le_bytes_len(v / 256, (n - 1) as nat);
    }
}

/// Reading the bytes of `v` back yields `v`, as long as `v` fits in `n` bytes.
pub proof fn lemma_le_round(v: nat, n: nat)
    requires
        v < pow256(n),
    ensures
        le_value(le_bytes(v, n)) == v,
    decreases n,
{
    if n > 0 {
        let s = le_bytes(v, n);
        lemma_le_bytes_len(v / 256, (n - 1) as nat);
        assert(s.drop_first() =~= le_bytes(v / 256, (n - 1) as nat));
        assert(v / 256 < pow256((n - 1) as nat)) by {
            assert(pow256(n) == 256 * pow256((n - 1) as nat));
        };
        lemma_le_round(v / 256, (n - 1) as nat);
    }
}

pub open spec fn pow256(n: nat) -> nat
    decreases n,
{
    if n == 0 {
        1
    } else {
        256 * pow256((n - 1) as nat)
    }
}

pub proof fn lemma_le_value_bound(s: Seq<u8>)
    ensures
        le_value(s) < pow256(s.len()),
    decreases s.len(),
{
    if s.len() > 0 {
        lemma_le_value_bound(s.drop_first());
    }
}

/// Sequence concatenation is associative; used throughout the codec proofs.
pub broadcast proof fn lemma_cat_assoc<T>(a: Seq<T>, b: Seq<T>, c: Seq<T>)
    ensures
        #[trigger] ((a + b) + c) == a + (b + c),
{
    assert((a + b) + c =~= a + (b + c));
}

/// A UTF-8 encoding takes at most four bytes per character.
pub proof fn lemma_encode_utf8_len(chars: Seq<char>)
    ensures
        encode_utf8(chars).len() <= 4 * chars.len(),
    decreases chars.len(),
{
    if chars.len() > 0 {
        assert(vstd::utf8::encode_scalar(chars[0] as u32).len() <= 4);
        lemma_encode_utf8_len(chars.drop_first());
    }
}

// ---------------------------------------------------------------------------
// Spec-level readers: each takes the unread bytes and yields the value read
// together with the bytes that remain, or nothing if the buffer is short.
// ---------------------------------------------------------------------------

pub open spec fn p_le(s: Seq<u8>, n: nat) -> Option<(nat, Seq<u8>)> {
    if s.len() >= n {
        Some((le_value(s.take(n as int)), s.skip(n as int)))
    } else {
        None
    }
}

pub open spec fn p_u8(s: Seq<u8>) -> Option<(u8, Seq<u8>)> {
    match p_le(s, 1) {
        Some((v, r)) => Some((v as u8, r)),
        None => None,
    }
}

pub open spec fn p_u16(s: Seq<u8>) -> Option<(u16, Seq<u8>)> {
    match p_le(s, 2) {
        Some((v, r)) => Some((v as u16, r)),
        None => None,
    }
}

pub open spec fn p_u32(s: Seq<u8>) -> Option<(u32, Seq<u8>)> {
    match p_le(s, 4) {
        Some((v, r)) => Some((v as u32, r)),
        None => None,
    }
}

pub open spec fn p_u64(s: Seq<u8>) -> Option<(u64, Seq<u8>)> {
    match p_le(s, 8) {
        Some((v, r)) => Some((v as u64, r)),
        None => None,
    }
}

/// A boolean must be exactly 0 or 1 on the wire.
pub open spec fn p_bool(s: Seq<u8>) -> Option<(bool, Seq<u8>)> {
    if s.len() >= 1 && (s[0] == 0 || s[0] == 1) {
        Some((s[0] == 1, s.skip(1)))
    } else {
        None
    }
}

pub open spec fn p_str(s: Seq<u8>) -> Option<(Seq<char>, Seq<u8>)> {
    match p_u16(s) {
        None => None,
        Some((n, r)) => {
            if r.len() >= n && valid_utf8(r.take(n as int)) {
                Some((decode_utf8(r.take(n as int)), r.skip(n as int)))
            } else {
                None
            }
        },
    }
}

/// A raw byte block with a 16-bit count prefix.
pub open spec fn p_data(s: Seq<u8>) -> Option<(Seq<u8>, Seq<u8>)> {
    match p_u16(s) {
        None => None,
        Some((n, r)) => {
            if r.len() >= n {
                Some((r.take(n as int), r.skip(n as int)))
            } else {
                None
            }
        },
    }
}

pub open spec fn enc_data(d: Seq<u8>) -> Seq<u8> {
    le_bytes(d.len(), 2) + d
}

// ---------------------------------------------------------------------------
// Round-trip lemmas for the combinators
// ---------------------------------------------------------------------------

pub proof fn lemma_p_le_round(v: nat, n: nat, rest: Seq<u8>)
    requires
        v < pow256(n),
    ensures
        p_le(le_bytes(v, n) + rest, n) == Some((v, rest)),
{
    lemma_le_bytes_len(v, n);
    let s = le_bytes(v, n) + rest;
    assert(s.take(n as int) =~= le_bytes(v, n));
    assert(s.skip(n as int) =~= rest);
    lemma_le_round(v, n);
}

proof fn lemma_pow256_values()
    ensures
        pow256(1) == 0x100,
        pow256(2) == 0x1_0000,
        pow256(4) == 0x1_0000_0000,
        pow256(8) == 0x1_0000_0000_0000_0000,
{
    reveal_with_fuel(pow256, 9);
}

pub proof fn lemma_p_u8_round(v: u8, rest: Seq<u8>)
    ensures
        p_u8(enc_u8(v) + rest) == Some((v, rest)),
{
    lemma_pow256_values();
    lemma_p_le_round(v as nat, 1, rest);
}

pub proof fn lemma_p_u16_round(v: u16, rest: Seq<u8>)
    ensures
        p_u16(enc_u16(v) + rest) == Some((v, rest)),
{
    lemma_pow256_values();
    lemma_p_le_round(v as nat, 2, rest);
}

pub proof fn lemma_p_u32_round(v: u32, rest: Seq<u8>)
    ensures
        p_u32(enc_u32(v) + rest) == Some((v, rest)),
{
    lemma_pow256_values();
    lemma_p_le_round(v as nat, 4, rest);
}

pub proof fn lemma_p_u64_round(v: u64, rest: Seq<u8>)
    ensures
        p_u64(enc_u64(v) + rest) == Some((v, rest)),
{
    lemma_pow256_values();
    lemma_p_le_round(v as nat, 8, rest);
}

pub proof fn lemma_p_bool_round(b: bool, rest: Seq<u8>)
    ensures
        p_bool(enc_bool(b) + rest) == Some((b, rest)),
{
    let s = enc_bool(b) + rest;
    assert(s.skip(1) =~= rest);
}

pub proof fn lemma_p_str_round(cs: Seq<char>, rest: Seq<u8>)
    requires
        str_fits(cs),
    ensures
        p_str(enc_str(cs) + rest) == Some((cs, rest)),
{
    broadcast use vstd::utf8::encode_utf8_valid_utf8;
    broadcast use vstd::utf8::encode_utf8_decode_utf8;

    let eu = encode_utf8(cs);
    let n = eu.len();
    let s = enc_str(cs) + rest;
    assert(s =~= le_bytes(n, 2) + (eu + rest));
    lemma_pow256_values();
    lemma_p_le_round(n, 2, eu + rest);
    let r = (eu + rest);
    assert(r.take(n as int) =~= eu);
    assert(r.skip(n as int) =~= rest);
}

pub proof fn lemma_p_data_round(d: Seq<u8>, rest: Seq<u8>)
    requires
        d.len() <= 0xFFFF,
    ensures
        p_data(enc_data(d) + rest) == Some((d, rest)),
{
    let n = d.len();
    let s = enc_data(d) + rest;
    assert(s =~= le_bytes(n, 2) + (d + rest));
    lemma_pow256_values();
    lemma_p_le_round(n, 2, d + rest);
    let r = (d + rest);
    assert(r.take(n as int) =~= d);
    assert(r.skip(n as int) =~= rest);
}

// ---------------------------------------------------------------------------
// Executable writers
// ---------------------------------------------------------------------------

pub fn write_u8(buf: &mut Vec<u8>, v: u8)
    ensures
        final(buf)@ == old(buf)@ + enc_u8(v),
{
    buf.push(v);
    proof {
        assert(le_bytes(v as nat, 1) == seq![(v as nat % 256) as u8] + le_bytes(v as nat / 256, 0));
        assert(le_bytes(v as nat / 256, 0) == Seq::<u8>::empty());
        assert(final(buf)@ =~= old(buf)@ + enc_u8(v));
    }
}

pub fn write_u16(buf: &mut Vec<u8>, v: u16)
    ensures
        final(buf)@ == old(buf)@ + enc_u16(v),
{
    buf.push((v % 256) as u8);
    buf.push((v / 256) as u8);
    proof {
        let v1 = v as nat / 256;
        assert(le_bytes(v as nat, 2) == seq![(v as nat % 256) as u8] + le_bytes(v1, 1));
        assert(le_bytes(v1, 1) == seq![(v1 % 256) as u8] + le_bytes(v1 / 256, 0));
        assert(le_bytes(v1 / 256, 0) == Seq::<u8>::empty());
        assert(final(buf)@ =~= old(buf)@ + enc_u16(v));
    }
}

pub fn write_u32(buf: &mut Vec<u8>, v: u32)
    ensures
        final(buf)@ == old(buf)@ + enc_u32(v),
{
    let v1 = v / 256;
    let v2 = v1 / 256;
    let v3 = v2 / 256;
    buf.push((v % 256) as u8);
    buf.push((v1 % 256) as u8);
    buf.push((v2 % 256) as u8);
    buf.push((v3 % 256) as u8);
    proof {
        assert(le_bytes(v as nat, 4) == seq![(v % 256) as u8] + le_bytes(v1 as nat, 3));
        assert(le_bytes(v1 as nat, 3) == seq![(v1 % 256) as u8] + le_bytes(v2 as nat, 2));
        assert(le_bytes(v2 as nat, 2) == seq![(v2 % 256) as u8] + le_bytes(v3 as nat, 1));
        assert(le_bytes(v3 as nat, 1) == seq![(v3 % 256) as u8] + le_bytes(v3 as nat / 256, 0));
        assert(final(buf)@ =~= old(buf)@ + enc_u32(v));
    }
}

pub fn write_u64(buf: &mut Vec<u8>, v: u64)
    ensures
        final(buf)@ == old(buf)@ + enc_u64(v),
{
    let v1 = v / 256;
    let v2 = v1 / 256;
    let v3 = v2 / 256;
    let v4 = v3 / 256;
    let v5 = v4 / 256;
    let v6 = v5 / 256;
    let v7 = v6 / 256;
    buf.push((v % 256) as u8);
    buf.push((v1 % 256) as u8);
    buf.push((v2 % 256) as u8);
    buf.push((v3 % 256) as u8);
    buf.push((v4 % 256) as u8);
    buf.push((v5 % 256) as u8);
    buf.push((v6 % 256) as u8);
    buf.push((v7 % 256) as u8);
    proof {
        assert(le_bytes(v as nat, 8) == seq![(v % 256) as u8] + le_bytes(v1 as nat, 7));
        assert(le_bytes(v1 as nat, 7) == seq![(v1 % 256) as u8] + le_bytes(v2 as nat, 6));
        assert(le_bytes(v2 as nat, 6) == seq![(v2 % 256) as u8] + le_bytes(v3 as nat, 5));
        assert(le_bytes(v3 as nat, 5) == seq![(v3 % 256) as u8] + le_bytes(v4 as nat, 4));
        assert(le_bytes(v4 as nat, 4) == seq![(v4 % 256) as u8] + le_bytes(v5 as nat, 3));
        assert(le_bytes(v5 as nat, 3) == seq![(v5 % 256) as u8] + le_bytes(v6 as nat, 2));
        assert(le_bytes(v6 as nat, 2) == seq![(v6 % 256) as u8] + le_bytes(v7 as nat, 1));
        assert(le_bytes(v7 as nat, 1) == seq![(v7 % 256) as u8] + le_bytes(v7 as nat / 256, 0));
        assert(final(buf)@ =~= old(buf)@ + enc_u64(v));
    }
}

pub fn write_bool(buf: &mut Vec<u8>, b: bool)
    ensures
        final(buf)@ == old(buf)@ + enc_bool(b),
{
    buf.push(if b { 1 } else { 0 });
    proof {
        assert(final(buf)@ =~= old(buf)@ + enc_bool(b));
    }
}

pub fn write_string(buf: &mut Vec<u8>, s: &str)
    requires
        str_fits(s@),
    ensures
        final(buf)@ == old(buf)@ + enc_str(s@),
{
    let n = s.len();
    write_u16(buf, n as u16);
    buf.extend_from_slice(s.as_bytes());
    proof {
        assert(final(buf)@ =~= old(buf)@ + enc_str(s@));
    }
}

pub fn write_data(buf: &mut Vec<u8>, d: &[u8])
    requires
        d@.len() <= 0xFFFF,
    ensures
        final(buf)@ == old(buf)@ + enc_data(d@),
{
    let n = d.len();
    write_u16(buf, n as u16);
    buf.extend_from_slice(d);
    proof {
        assert(final(buf)@ =~= old(buf)@ + enc_data(d@));
    }
}

// ---------------------------------------------------------------------------
// Executable readers. `pos` is the read cursor into `bytes`; each reader
// either consumes exactly what its spec-level counterpart consumes from
// `bytes@.skip(pos)` or reports a malformed buffer.
// ---------------------------------------------------------------------------

/// The bytes of `bytes` not yet consumed at cursor `pos`.
pub open spec fn rem(bytes: Seq<u8>, pos: int) -> Seq<u8> {
    bytes.skip(pos)
}

pub fn read_u8(bytes: &[u8], pos: &mut usize) -> (r: Result<u8, DecodeError>)
    requires
        *old(pos) <= bytes@.len(),
    ensures
        *final(pos) <= bytes@.len(),
        match r {
            Ok(v) => p_u8(rem(bytes@, *old(pos) as int)) == Some(
                (v, rem(bytes@, *final(pos) as int)),
            ) && *final(pos) == *old(pos) + 1,
            Err(_) => p_u8(rem(bytes@, *old(pos) as int)) is None && *final(pos) == *old(pos),
        },
{
    if bytes.len() - *pos >= 1 {
        let b = *vstd::slice::slice_index_get(bytes, *pos);
        *pos = *pos + 1;
        proof {
            let orig = rem(bytes@, (*final(pos) - 1) as int);
            assert(orig.take(1) =~= seq![b]);
            assert(orig.skip(1) =~= rem(bytes@, *final(pos) as int));
            assert(le_value(orig.take(1)) == b as nat + 256 * le_value(orig.take(1).drop_first()));
            assert(orig.take(1).drop_first() =~= Seq::<u8>::empty());
        }
        Ok(b)
    } else {
        Err(DecodeError::MalformedMessage)
    }
}

pub fn read_u16(bytes: &[u8], pos: &mut usize) -> (r: Result<u16, DecodeError>)
    requires
        *old(pos) <= bytes@.len(),
    ensures
        *final(pos) <= bytes@.len(),
        match r {
            Ok(v) => p_u16(rem(bytes@, *old(pos) as int)) == Some(
                (v, rem(bytes@, *final(pos) as int)),
            ) && *final(pos) == *old(pos) + 2,
            Err(_) => p_u16(rem(bytes@, *old(pos) as int)) is None && *final(pos) == *old(pos),
        },
{
    match read_le(bytes, pos, 2) {
        Ok(v) => Ok(v as u16),
        Err(e) => Err(e),
    }
}

pub fn read_u32(bytes: &[u8], pos: &mut usize) -> (r: Result<u32, DecodeError>)
    requires
        *old(pos) <= bytes@.len(),
    ensures
        *final(pos) <= bytes@.len(),
        match r {
            Ok(v) => p_u32(rem(bytes@, *old(pos) as int)) == Some(
                (v, rem(bytes@, *final(pos) as int)),
            ) && *final(pos) == *old(pos) + 4,
            Err(_) => p_u32(rem(bytes@, *old(pos) as int)) is None && *final(pos) == *old(pos),
        },
{
    match read_le(bytes, pos, 4) {
        Ok(v) => Ok(v as u32),
        Err(e) => Err(e),
    }
}

pub fn read_u64(bytes: &[u8], pos: &mut usize) -> (r: Result<u64, DecodeError>)
    requires
        *old(pos) <= bytes@.len(),
    ensures
        *final(pos) <= bytes@.len(),
        match r {
            Ok(v) => p_u64(rem(bytes@, *old(pos) as int)) == Some(
                (v, rem(bytes@, *final(pos) as int)),
            ) && *final(pos) == *old(pos) + 8,
            Err(_) => p_u64(rem(bytes@, *old(pos) as int)) is None && *final(pos) == *old(pos),
        },
{
    match read_le(bytes, pos, 8) {
        Ok(v) => Ok(v),
        Err(e) => Err(e),
    }
}

/// `le_value` of a prefix grows by the next byte scaled with the next power.
proof fn lemma_le_value_step(s: Seq<u8>, i: int)
    requires
        0 <= i < s.len(),
    ensures
        le_value(s.take(i + 1)) == le_value(s.take(i)) + s[i] * pow256(i as nat),
    decreases i,
{
    if i == 0 {
        assert(pow256(0) == 1);
        assert(s.take(0) =~= Seq::<u8>::empty());
        assert(le_value(s.take(0)) == 0);
        assert(s.take(1).drop_first() =~= Seq::<u8>::empty());
        assert(s.take(1)[0] == s[0]);
        assert(le_value(s.take(1)) == s.take(1)[0] + 256 * le_value(s.take(1).drop_first()));
        assert(le_value(s.take(1).drop_first()) == 0);
        assert(s[i] * pow256(i as nat) == s[0] * 1) by (nonlinear_arith)
            requires
                i == 0,
                pow256(i as nat) == 1,
        ;
        assert(le_value(s.take(i + 1)) == le_value(s.take(i)) + s[i] * pow256(i as nat));
    } else {
        let t = s.drop_first();
        lemma_le_value_step(t, i - 1);
        assert(s.take(i + 1).drop_first() =~= t.take(i));
        assert(s.take(i).drop_first() =~= t.take(i - 1));
        assert(le_value(s.take(i + 1)) == s[0] + 256 * le_value(t.take(i)));
        assert(le_value(s.take(i)) == s[0] + 256 * le_value(t.take(i - 1)));
        assert(t[i - 1] == s[i]);
        assert(le_value(t.take(i)) == le_value(t.take(i - 1)) + s[i] * pow256((i - 1) as nat));
        assert(256 * (le_value(t.take(i - 1)) + s[i] * pow256((i - 1) as nat)) == 256 * le_value(
            t.take(i - 1),
        ) + s[i] * (256 * pow256((i - 1) as nat))) by (nonlinear_arith);
        assert(pow256(i as nat) == 256 * pow256((i - 1) as nat));
        assert(s[i] * pow256(i as nat) == s[i] * (256 * pow256((i - 1) as nat)));
        assert(le_value(s.take(i + 1)) == le_value(s.take(i)) + s[i] * pow256(i as nat));
    }
}

fn read_le(bytes: &[u8], pos: &mut usize, n: usize) -> (r: Result<u64, DecodeError>)
    requires
        *old(pos) <= bytes@.len(),
        1 <= n <= 8,
    ensures
        *final(pos) <= bytes@.len(),
        match r {
            Ok(v) => p_le(rem(bytes@, *old(pos) as int), n as nat) == Some(
                (v as nat, rem(bytes@, *final(pos) as int)),
            ) && *final(pos) == *old(pos) + n,
            Err(_) => p_le(rem(bytes@, *old(pos) as int), n as nat) is None && *final(pos) == *old(
                pos,
            ),
        },
{
    let ghost orig = rem(bytes@, *pos as int);
    if bytes.len() - *pos < n {
        return Err(DecodeError::MalformedMessage);
    }
    let start = *pos;
    let mut acc: u64 = 0;
    let mut mul: u64 = 1;
    let mut i: usize = 0;
    while i < n
        invariant
            *pos == start + i,
            0 <= i <= n,
            n <= 8,
            start + n <= bytes@.len(),
            bytes@.len() <= usize::MAX,
            orig == rem(bytes@, start as int),
            acc as nat == le_value(orig.take(i as int)),
            i < n ==> mul as nat == pow256(i as nat),
            acc < pow256(i as nat),
        decreases n - i,
    {
        let b = *vstd::slice::slice_index_get(bytes, *pos);
        proof {
            assert(orig[i as int] == bytes@[(start + i) as int]);
            lemma_le_value_step(orig, i as int);
            assert(pow256((i + 1) as nat) == 256 * pow256(i as nat));
            assert(acc as nat + b as nat * pow256(i as nat) < pow256((i + 1) as nat)) by {
                lemma_le_value_bound(orig.take(i as int + 1));
                assert(orig.take(i as int + 1).len() == i + 1);
            };
            assert(pow256(8) == 0x1_0000_0000_0000_0000) by {
                reveal_with_fuel(pow256, 9);
            };
            assert(pow256((i + 1) as nat) <= pow256(8)) by {
                lemma_pow256_le((i + 1) as nat, 8);
            };
            assert(b as u64 as nat * mul as nat == b as nat * pow256(i as nat))
                by (nonlinear_arith)
                requires mul as nat == pow256(i as nat);
        }
        acc = acc + (b as u64) * mul;
        if i + 1 < n {
            proof {
                assert(pow256((i + 1) as nat) < pow256(8)) by {
                    lemma_pow256_lt((i + 1) as nat, 8);
                };
            }
            mul = mul * 256;
            proof {
                assert(pow256((i + 1) as nat) == 256 * pow256(i as nat));
            }
        }
        i = i + 1;
        *pos = *pos + 1;
    }
    proof {
        assert(orig.take(n as int) =~= orig.take(i as int));
        assert(orig.skip(n as int) =~= rem(bytes@, (start + n) as int));
    }
    Ok(acc)
}

proof fn lemma_pow256_le(a: nat, b: nat)
    requires
        a <= b,
    ensures
        pow256(a) <= pow256(b),
    decreases b,
{
    if a < b {
        lemma_pow256_le(a, (b - 1) as nat);
        assert(pow256(b) == 256 * pow256((b - 1) as nat));
        assert(pow256((b - 1) as nat) >= 1) by {
            lemma_pow256_pos((b - 1) as nat);
        };
    }
}

proof fn lemma_pow256_lt(a: nat, b: nat)
    requires
        a < b,
    ensures
        pow256(a) < pow256(b),
{
    lemma_pow256_le(a, (b - 1) as nat);
    assert(pow256(b) == 256 * pow256((b - 1) as nat));
    lemma_pow256_pos((b - 1) as nat);
}

proof fn lemma_pow256_pos(n: nat)
    ensures
        pow256(n) >= 1,
    decreases n,
{
    if n > 0 {
        lemma_pow256_pos((n - 1) as nat);
    }
}

pub fn read_bool(bytes: &[u8], pos: &mut usize) -> (r: Result<bool, DecodeError>)
    requires
        *old(pos) <= bytes@.len(),
    ensures
        *final(pos) <= bytes@.len(),
        match r {
            Ok(v) => p_bool(rem(bytes@, *old(pos) as int)) == Some(
                (v, rem(bytes@, *final(pos) as int)),
            ) && *final(pos) == *old(pos) + 1,
            Err(_) => p_bool(rem(bytes@, *old(pos) as int)) is None && *final(pos) == *old(pos),
        },
{
    let ghost orig = rem(bytes@, *pos as int);
    if bytes.len() - *pos >= 1 {
        let b = *vstd::slice::slice_index_get(bytes, *pos);
        if b == 0 || b == 1 {
            *pos = *pos + 1;
            proof {
                assert(orig.skip(1) =~= rem(bytes@, *final(pos) as int));
            }
            Ok(b == 1)
        } else {
            Err(DecodeError::MalformedMessage)
        }
    } else {
        Err(DecodeError::MalformedMessage)
    }
}

/// Relies on `String::from_utf8`: it succeeds exactly on valid UTF-8 input and
/// the characters of the result are the decoding of the input bytes.
#[verifier::external_body]
fn string_from_utf8(v: Vec<u8>) -> (r: Option<String>)
    ensures
        match r {
            Some(s) => valid_utf8(v@) && s@ == decode_utf8(v@),
            None => !valid_utf8(v@),
        },
{
    String::from_utf8(v).ok()
}

pub fn read_string(bytes: &[u8], pos: &mut usize) -> (r: Result<String, DecodeError>)
    requires
        *old(pos) <= bytes@.len(),
    ensures
        *final(pos) <= bytes@.len(),
        match r {
            Ok(s) => p_str(rem(bytes@, *old(pos) as int)) == Some(
                (s@, rem(bytes@, *final(pos) as int)),
            ),
            Err(_) => p_str(rem(bytes@, *old(pos) as int)) is None && *final(pos) == *old(pos),
        },
{
    let ghost orig = rem(bytes@, *pos as int);
    let start = *pos;
    let n = match read_u16(bytes, pos) {
        Ok(n) => n,
        Err(e) => {
            return Err(e);
        },
    };
    let ghost r1 = rem(bytes@, *pos as int);
    if bytes.len() - *pos < n as usize {
        *pos = start;
        return Err(DecodeError::MalformedMessage);
    }
    let raw = vstd::slice::slice_subrange(bytes, *pos, *pos + n as usize);
    proof {
        assert(raw@ =~= r1.take(n as int));
    }
    match string_from_utf8(vstd::slice::slice_to_vec(raw)) {
        Some(s) => {
            *pos = *pos + n as usize;
            proof {
                assert(r1.skip(n as int) =~= rem(bytes@, *final(pos) as int));
            }
            Ok(s)
        },
        None => {
            *pos = start;
            Err(DecodeError::MalformedMessage)
        },
    }
}

pub fn read_data(bytes: &[u8], pos: &mut usize) -> (r: Result<Vec<u8>, DecodeError>)
    requires
        *old(pos) <= bytes@.len(),
    ensures
        *final(pos) <= bytes@.len(),
        match r {
            Ok(d) => p_data(rem(bytes@, *old(pos) as int)) == Some(
                (d@, rem(bytes@, *final(pos) as int)),
            ),
            Err(_) => p_data(rem(bytes@, *old(pos) as int)) is None && *final(pos) == *old(pos),
        },
{
    let ghost orig = rem(bytes@, *pos as int);
    let start = *pos;
    let n = match read_u16(bytes, pos) {
        Ok(n) => n,
        Err(e) => {
            return Err(e);
        },
    };
    let ghost r1 = rem(bytes@, *pos as int);
    if bytes.len() - *pos < n as usize {
        *pos = start;
        return Err(DecodeError::MalformedMessage);
    }
    let raw = vstd::slice::slice_subrange(bytes, *pos, *pos + n as usize);
    let d = vstd::slice::slice_to_vec(raw);
    *pos = *pos + n as usize;
    proof {
        assert(d@ =~= r1.take(n as int));
        assert(r1.skip(n as int) =~= rem(bytes@, *final(pos) as int));
    }
    Ok(d)
}

} // verus!
