//! Byte-level wire primitives.
//!
//! Every value on the wire is framed with the structured binary encoding of
//! MessagePack. The spec functions below pin down, byte for byte, the exact
//! encodings the library emits (the most compact header for each length, as
//! the `rmp` crate produces them). The executable reads and writes go through
//! `rmp` behind the trusted wrappers at the bottom of this file; everything
//! layered above them is verified against these spec functions.

use vstd::prelude::*;
use vstd::utf8::encode_utf8;

verus! {

/// Exclusive upper bound on lengths that fit a 32-bit wire length field.
pub const LEN32_LIMIT: u64 = 0x1_0000_0000;

/// The `n` big-endian bytes of `x` (most significant first).
pub open spec fn be_bytes(x: nat, n: nat) -> Seq<u8>
    decreases n,
{
    if n == 0 {
        Seq::<u8>::empty()
    } else {
        be_bytes(x / 256, (n - 1) as nat).push((x % 256) as u8)
    }
}

/// Wire bytes of an unsigned integer: marker 0xcf, then eight big-endian bytes.
pub open spec fn mp_u64(v: u64) -> Seq<u8> {
    seq![0xcfu8] + be_bytes(v as nat, 8)
}

/// The two's-complement bit pattern of a signed 64-bit value.
pub open spec fn i64_bits(v: i64) -> nat {
    if v >= 0 {
        v as nat
    } else {
        (v + 0x1_0000_0000_0000_0000) as nat
    }
}

/// Wire bytes of a signed integer: marker 0xd3, then eight big-endian bytes.
pub open spec fn mp_i64(v: i64) -> Seq<u8> {
    seq![0xd3u8] + be_bytes(i64_bits(v), 8)
}

/// The most compact string header for a UTF-8 byte length `n`.
pub open spec fn mp_str_hdr(n: nat) -> Seq<u8> {
    if n < 32 {
        seq![(0xa0 + n) as u8]
    } else if n < 256 {
        seq![0xd9u8, n as u8]
    } else if n < 0x1_0000 {
        seq![0xdau8] + be_bytes(n, 2)
    } else {
        seq![0xdbu8] + be_bytes(n, 4)
    }
}

/// Wire bytes of a string: header for its UTF-8 length, then its UTF-8 bytes.
pub open spec fn mp_str(s: Seq<char>) -> Seq<u8> {
    mp_str_hdr(encode_utf8(s).len()) + encode_utf8(s)
}

/// The most compact binary header for a byte length `n`.
pub open spec fn mp_bin_hdr(n: nat) -> Seq<u8> {
    if n < 256 {
        seq![0xc4u8, n as u8]
    } else if n < 0x1_0000 {
        seq![0xc5u8] + be_bytes(n, 2)
    } else {
        seq![0xc6u8] + be_bytes(n, 4)
    }
}

/// Wire bytes of an opaque byte string: header, then the raw bytes.
pub open spec fn mp_bin(b: Seq<u8>) -> Seq<u8> {
    mp_bin_hdr(b.len()) + b
}

/// The most compact array header for an element count `n`.
pub open spec fn mp_arr_hdr(n: nat) -> Seq<u8> {
    if n < 16 {
        seq![(0x90 + n) as u8]
    } else if n < 0x1_0000 {
        seq![0xdcu8] + be_bytes(n, 2)
    } else {
        seq![0xddu8] + be_bytes(n, 4)
    }
}

/// A reader may also meet an array header in one of the wider (non-compact)
/// forms; this names every header that announces `n` elements.
pub open spec fn is_arr_hdr(h: Seq<u8>, n: nat) -> bool {
    ||| h == mp_arr_hdr(n)
    ||| (h == seq![0xdcu8] + be_bytes(n, 2) && n < 0x1_0000)
    ||| (h == seq![0xddu8] + be_bytes(n, 4) && n < LEN32_LIMIT)
}

/// Every string header a reader accepts for a UTF-8 byte length `n`.
pub open spec fn is_str_hdr(h: Seq<u8>, n: nat) -> bool {
    ||| (h == seq![(0xa0 + n) as u8] && n < 32)
    ||| (h == seq![0xd9u8, n as u8] && n < 256)
    ||| (h == seq![0xdau8] + be_bytes(n, 2) && n < 0x1_0000)
    ||| (h == seq![0xdbu8] + be_bytes(n, 4) && n < LEN32_LIMIT)
}

/// `part` is some accepted wire encoding of the string `s`.
pub open spec fn is_str_at(part: Seq<u8>, s: Seq<char>) -> bool {
    exists|h: Seq<u8>| part == h + encode_utf8(s) && is_str_hdr(h, encode_utf8(s).len())
}

/// Every binary header a reader accepts for a byte length `n`.
pub open spec fn is_bin_hdr(h: Seq<u8>, n: nat) -> bool {
    ||| (h == seq![0xc4u8, n as u8] && n < 256)
    ||| (h == seq![0xc5u8] + be_bytes(n, 2) && n < 0x1_0000)
    ||| (h == seq![0xc6u8] + be_bytes(n, 4) && n < LEN32_LIMIT)
}

/// `part` is some accepted wire encoding of the byte string `b`.
pub open spec fn is_bin_at(part: Seq<u8>, b: Seq<u8>) -> bool {
    exists|h: Seq<u8>| part == h + b && is_bin_hdr(h, b.len())
}

/// Powers of 256.
pub open spec fn pow256(n: nat) -> nat
    decreases n,
{
    if n == 0 {
        1
    } else {
        256 * pow256((n - 1) as nat)
    }
}

pub proof fn lemma_pow256_values()
    ensures
        pow256(2) == 0x1_0000,
        pow256(4) == 0x1_0000_0000,
        pow256(8) == 0x1_0000_0000_0000_0000,
{
    assert(pow256(0) == 1);
    assert(pow256(1) == 256);
    assert(pow256(2) == 0x1_0000);
    assert(pow256(3) == 0x100_0000);
    assert(pow256(4) == 0x1_0000_0000);
    assert(pow256(5) == 0x100_0000_0000);
    assert(pow256(6) == 0x1_0000_0000_0000);
    assert(pow256(7) == 0x100_0000_0000_0000);
    assert(pow256(8) == 0x1_0000_0000_0000_0000);
}

/// Big-endian bytes are injective on values that fit.
pub proof fn lemma_be_bytes_inj(x: nat, y: nat, n: nat)
    requires
        x < pow256(n),
        y < pow256(n),
        be_bytes(x, n) == be_bytes(y, n),
    ensures
        x == y,
    decreases n,
{
    broadcast use lemma_be_bytes_len;

    if n > 0 {
        let bx = be_bytes(x, n);
        let by = be_bytes(y, n);
        assert(bx == be_bytes(x / 256, (n - 1) as nat).push((x % 256) as u8));
        assert(by == be_bytes(y / 256, (n - 1) as nat).push((y % 256) as u8));
        assert(bx.last() == (x % 256) as u8);
        assert(by.last() == (y % 256) as u8);
        assert(x % 256 == y % 256);
        assert(bx.drop_last() =~= be_bytes(x / 256, (n - 1) as nat));
        assert(by.drop_last() =~= be_bytes(y / 256, (n - 1) as nat));
        assert(x / 256 < pow256((n - 1) as nat)) by (nonlinear_arith)
            requires
                x < 256 * pow256((n - 1) as nat),
        ;
        assert(y / 256 < pow256((n - 1) as nat)) by (nonlinear_arith)
            requires
                y < 256 * pow256((n - 1) as nat),
        ;
        lemma_be_bytes_inj(x / 256, y / 256, (n - 1) as nat);
    }
}

/// The unsigned-integer encoding is injective.
pub proof fn lemma_mp_u64_inj(x: u64, y: u64)
    requires
        mp_u64(x) == mp_u64(y),
    ensures
        x == y,
{
    broadcast use lemma_be_bytes_len;

    lemma_pow256_values();
    assert(be_bytes(x as nat, 8) =~= mp_u64(x).subrange(1, 9));
    assert(be_bytes(y as nat, 8) =~= mp_u64(y).subrange(1, 9));
    lemma_be_bytes_inj(x as nat, y as nat, 8);
}

/// The string encoding is injective on strings whose length fits the wire.
pub proof fn lemma_mp_str_inj(s1: Seq<char>, s2: Seq<char>)
    requires
        encode_utf8(s1).len() < LEN32_LIMIT,
        encode_utf8(s2).len() < LEN32_LIMIT,
        mp_str(s1) == mp_str(s2),
    ensures
        s1 == s2,
{
    broadcast use lemma_be_bytes_len;

    let n1 = encode_utf8(s1).len();
    let n2 = encode_utf8(s2).len();
    let h1 = mp_str_hdr(n1);
    let h2 = mp_str_hdr(n2);
    let b0 = mp_str(s1)[0];
    assert(mp_str(s1)[0] == h1[0]);
    assert(mp_str(s2)[0] == h2[0]);
    if n1 < 32 {
        assert(b0 == (0xa0 + n1) as u8);
        assert(n2 < 32);
        assert((0xa0 + n1) as u8 == (0xa0 + n2) as u8);
        assert(n1 == n2);
    } else if n1 < 256 {
        assert(b0 == 0xd9);
        assert(32 <= n2 < 256);
        assert(mp_str(s1)[1] == n1 as u8);
        assert(mp_str(s2)[1] == n2 as u8);
        assert(n1 == n2);
    } else if n1 < 0x1_0000 {
        assert(b0 == 0xda);
        assert(256 <= n2 < 0x1_0000);
        lemma_pow256_values();
        assert(be_bytes(n1, 2) =~= mp_str(s1).subrange(1, 3));
        assert(be_bytes(n2, 2) =~= mp_str(s2).subrange(1, 3));
        lemma_be_bytes_inj(n1, n2, 2);
    } else {
        assert(b0 == 0xdb);
        assert(0x1_0000 <= n2);
        lemma_pow256_values();
        assert(be_bytes(n1, 4) =~= mp_str(s1).subrange(1, 5));
        assert(be_bytes(n2, 4) =~= mp_str(s2).subrange(1, 5));
        lemma_be_bytes_inj(n1, n2, 4);
    }
    assert(encode_utf8(s1) =~= mp_str(s1).subrange(
        h1.len() as int,
        h1.len() as int + encode_utf8(s1).len() as int,
    ));
    assert(encode_utf8(s2) =~= mp_str(s2).subrange(
        h2.len() as int,
        h2.len() as int + encode_utf8(s2).len() as int,
    ));
    assert(encode_utf8(s1) == encode_utf8(s2));
    vstd::utf8::encode_utf8_decode_utf8(s1);
    vstd::utf8::encode_utf8_decode_utf8(s2);
}

/// The signed-integer encoding is injective.
pub proof fn lemma_mp_i64_inj(x: i64, y: i64)
    requires
        mp_i64(x) == mp_i64(y),
    ensures
        x == y,
{
    broadcast use lemma_be_bytes_len;

    lemma_pow256_values();
    assert(be_bytes(i64_bits(x), 8) =~= mp_i64(x).subrange(1, 9));
    assert(be_bytes(i64_bits(y), 8) =~= mp_i64(y).subrange(1, 9));
    lemma_be_bytes_inj(i64_bits(x), i64_bits(y), 8);
}

/// The binary encoding is injective on byte strings whose length fits the
/// wire.
pub proof fn lemma_mp_bin_inj(b1: Seq<u8>, b2: Seq<u8>)
    requires
        b1.len() < LEN32_LIMIT,
        b2.len() < LEN32_LIMIT,
        mp_bin(b1) == mp_bin(b2),
    ensures
        b1 == b2,
{
    broadcast use lemma_be_bytes_len;

    let n1 = b1.len();
    let n2 = b2.len();
    let h1 = mp_bin_hdr(n1);
    let h2 = mp_bin_hdr(n2);
    let b0 = mp_bin(b1)[0];
    assert(mp_bin(b1)[0] == h1[0]);
    assert(mp_bin(b2)[0] == h2[0]);
    if n1 < 256 {
        assert(b0 == 0xc4);
        assert(n2 < 256);
        assert(mp_bin(b1)[1] == n1 as u8);
        assert(mp_bin(b2)[1] == n2 as u8);
        assert(n1 == n2);
    } else if n1 < 0x1_0000 {
        assert(b0 == 0xc5);
        assert(256 <= n2 < 0x1_0000);
        lemma_pow256_values();
        assert(be_bytes(n1, 2) =~= mp_bin(b1).subrange(1, 3));
        assert(be_bytes(n2, 2) =~= mp_bin(b2).subrange(1, 3));
        lemma_be_bytes_inj(n1, n2, 2);
    } else {
        assert(b0 == 0xc6);
        assert(0x1_0000 <= n2);
        lemma_pow256_values();
        assert(be_bytes(n1, 4) =~= mp_bin(b1).subrange(1, 5));
        assert(be_bytes(n2, 4) =~= mp_bin(b2).subrange(1, 5));
        lemma_be_bytes_inj(n1, n2, 4);
    }
    assert(b1 =~= mp_bin(b1).subrange(h1.len() as int, h1.len() as int + n1 as int));
    assert(b2 =~= mp_bin(b2).subrange(h2.len() as int, h2.len() as int + n2 as int));
}

/// An encoded string determines where it ends: two encoded strings that
/// open the same byte sequence are the same string, and what follows them
/// is the same remainder.
pub proof fn lemma_mp_str_prefix_inj(s1: Seq<char>, s2: Seq<char>, r1: Seq<u8>, r2: Seq<u8>)
    requires
        encode_utf8(s1).len() < LEN32_LIMIT,
        encode_utf8(s2).len() < LEN32_LIMIT,
        mp_str(s1) + r1 == mp_str(s2) + r2,
    ensures
        s1 == s2,
        r1 == r2,
{
    broadcast use lemma_be_bytes_len;

    let whole = mp_str(s1) + r1;
    let n1 = encode_utf8(s1).len();
    let n2 = encode_utf8(s2).len();
    let h1 = mp_str_hdr(n1);
    let h2 = mp_str_hdr(n2);
    let b0 = whole[0];
    assert(whole[0] == h1[0]);
    assert(whole[0] == h2[0]);
    if n1 < 32 {
        assert(b0 == (0xa0 + n1) as u8);
        assert(n2 < 32);
        assert((0xa0 + n1) as u8 == (0xa0 + n2) as u8);
        assert(n1 == n2);
    } else if n1 < 256 {
        assert(b0 == 0xd9);
        assert(32 <= n2 < 256);
        assert(whole[1] == n1 as u8);
        assert(whole[1] == n2 as u8);
        assert(n1 == n2);
    } else if n1 < 0x1_0000 {
        assert(b0 == 0xda);
        assert(256 <= n2 < 0x1_0000);
        lemma_pow256_values();
        assert(be_bytes(n1, 2) =~= whole.subrange(1, 3));
        assert(be_bytes(n2, 2) =~= whole.subrange(1, 3));
        lemma_be_bytes_inj(n1, n2, 2);
    } else {
        assert(b0 == 0xdb);
        assert(0x1_0000 <= n2);
        lemma_pow256_values();
        assert(be_bytes(n1, 4) =~= whole.subrange(1, 5));
        assert(be_bytes(n2, 4) =~= whole.subrange(1, 5));
        lemma_be_bytes_inj(n1, n2, 4);
    }
    assert(mp_str(s1).len() == mp_str(s2).len());
    assert(mp_str(s1) =~= whole.subrange(0, mp_str(s1).len() as int));
    assert(mp_str(s2) =~= whole.subrange(0, mp_str(s1).len() as int));
    lemma_mp_str_inj(s1, s2);
    assert(r1 =~= whole.subrange(mp_str(s1).len() as int, whole.len() as int));
    assert(r2 =~= whole.subrange(mp_str(s1).len() as int, whole.len() as int));
}

/// A UTF-8 encoding takes at most four bytes per character.
pub proof fn lemma_encode_utf8_len(chars: Seq<char>)
    ensures
        encode_utf8(chars).len() <= 4 * chars.len(),
    decreases chars.len(),
{
    if chars.len() > 0 {
        lemma_encode_utf8_len(chars.drop_first());
        assert(vstd::utf8::encode_scalar(chars[0] as u32).len() <= 4);
    }
}

/// Any accepted string encoding carries a length that fits the 32-bit wire
/// length field.
pub proof fn lemma_is_str_at_fits(part: Seq<u8>, s: Seq<char>)
    requires
        is_str_at(part, s),
    ensures
        encode_utf8(s).len() < LEN32_LIMIT,
{
    let h = choose|h: Seq<u8>| part == h + encode_utf8(s) && is_str_hdr(h, encode_utf8(s).len());
    assert(is_str_hdr(h, encode_utf8(s).len()));
}

/// Any accepted binary encoding carries a length that fits the 32-bit wire
/// length field.
pub proof fn lemma_is_bin_at_fits(part: Seq<u8>, b: Seq<u8>)
    requires
        is_bin_at(part, b),
    ensures
        b.len() < LEN32_LIMIT,
{
    let h = choose|h: Seq<u8>| part == h + b && is_bin_hdr(h, b.len());
    assert(is_bin_hdr(h, b.len()));
}

pub broadcast proof fn lemma_be_bytes_len(x: nat, n: nat)
    ensures
        (#[trigger] be_bytes(x, n)).len() == n,
    decreases n,
{
    if n > 0 {
        lemma_be_bytes_len(x / 256, (n - 1) as nat);
    }
}

/// Relies on rmp::encode::write_u64: appends the marker 0xcf followed by the
/// value's eight big-endian bytes.
#[verifier::external_body]
pub(crate) fn mp_write_u64(buf: &mut Vec<u8>, v: u64)
    ensures
        final(buf)@ == old(buf)@ + mp_u64(v),
{
    let _ = rmp::encode::write_u64(buf, v);
}

/// Relies on rmp::encode::write_i64: appends the marker 0xd3 followed by the
/// value's eight big-endian two's-complement bytes.
#[verifier::external_body]
pub(crate) fn mp_write_i64(buf: &mut Vec<u8>, v: i64)
    ensures
        final(buf)@ == old(buf)@ + mp_i64(v),
{
    let _ = rmp::encode::write_i64(buf, v);
}

/// Relies on rmp::encode::write_str: appends the most compact string header
/// for the UTF-8 byte length, then the UTF-8 bytes themselves.
#[verifier::external_body]
pub(crate) fn mp_write_str(buf: &mut Vec<u8>, s: &str)
    requires
        encode_utf8(s@).len() < LEN32_LIMIT,
    ensures
        final(buf)@ == old(buf)@ + mp_str(s@),
{
    let _ = rmp::encode::write_str(buf, s);
}

/// Relies on rmp::encode::write_bin: appends the most compact binary header
/// for the length, then the raw bytes.
#[verifier::external_body]
pub(crate) fn mp_write_bin(buf: &mut Vec<u8>, b: &Vec<u8>)
    requires
        b@.len() < LEN32_LIMIT,
    ensures
        final(buf)@ == old(buf)@ + mp_bin(b@),
{
    let _ = rmp::encode::write_bin(buf, b);
}

/// Relies on rmp::encode::write_array_len: appends the most compact array
/// header for the given element count.
#[verifier::external_body]
pub(crate) fn mp_write_array_len(buf: &mut Vec<u8>, n: u32)
    ensures
        final(buf)@ == old(buf)@ + mp_arr_hdr(n as nat),
{
    let _ = rmp::encode::write_array_len(buf, n);
}

/// Relies on rmp::decode::read_u64: succeeds exactly when the byte at `pos` is
/// the 0xcf marker with eight data bytes after it, and returns their
/// big-endian value.
#[verifier::external_body]
pub(crate) fn mp_read_u64(bytes: &Vec<u8>, pos: usize) -> (r: Option<u64>)
    requires
        pos <= bytes@.len(),
    ensures
        match r {
            Some(v) => pos + 9 <= bytes@.len() && bytes@.subrange(pos as int, pos + 9) == mp_u64(
                v,
            ),
            None => !(pos + 9 <= bytes@.len() && bytes@[pos as int] == 0xcf),
        },
        forall|v: u64|
            pos + 9 <= bytes@.len() && bytes@.subrange(pos as int, pos + 9) == #[trigger] mp_u64(v)
                ==> r == Some(v),
{
    let mut rd = &bytes[pos..];
    rmp::decode::read_u64(&mut rd).ok()
}

/// Relies on rmp::decode::read_i64: succeeds exactly when the byte at `pos` is
/// the 0xd3 marker with eight data bytes after it, and returns their value.
#[verifier::external_body]
pub(crate) fn mp_read_i64(bytes: &Vec<u8>, pos: usize) -> (r: Option<i64>)
    requires
        pos <= bytes@.len(),
    ensures
        match r {
            Some(v) => pos + 9 <= bytes@.len() && bytes@.subrange(pos as int, pos + 9) == mp_i64(
                v,
            ),
            None => !(pos + 9 <= bytes@.len() && bytes@[pos as int] == 0xd3),
        },
        forall|v: i64|
            pos + 9 <= bytes@.len() && bytes@.subrange(pos as int, pos + 9) == #[trigger] mp_i64(v)
                ==> r == Some(v),
{
    let mut rd = &bytes[pos..];
    rmp::decode::read_i64(&mut rd).ok()
}

/// Relies on rmp::decode::read_array_len: reads a fixarray, array16 or
/// array32 header and returns the element count, together with how many bytes
/// of `bytes` remain after the header.
#[verifier::external_body]
pub(crate) fn mp_read_array_len(bytes: &Vec<u8>, pos: usize) -> (r: Option<(u32, usize)>)
    requires
        pos <= bytes@.len(),
    ensures
        match r {
            Some(p) => pos + 1 <= bytes@.len() - p.1 && is_arr_hdr(
                bytes@.subrange(pos as int, bytes@.len() - p.1),
                p.0 as nat,
            ),
            None => true,
        },
        forall|n: u32|
            pos + (#[trigger] mp_arr_hdr(n as nat)).len() <= bytes@.len() && bytes@.subrange(
                pos as int,
                pos + mp_arr_hdr(n as nat).len(),
            ) == mp_arr_hdr(n as nat) ==> match r {
                Some(p) => p.0 == n && p.1 == bytes@.len() - pos - mp_arr_hdr(n as nat).len(),
                None => false,
            },
{
    let mut rd = &bytes[pos..];
    match rmp::decode::read_array_len(&mut rd) {
        Ok(n) => Some((n, rd.len())),
        Err(_) => None,
    }
}

/// Relies on rmp::decode::read_str_from_slice: reads a string header and that
/// many UTF-8 bytes, and returns the string together with how many bytes of
/// `bytes` remain after it.
#[verifier::external_body]
pub(crate) fn mp_read_str(bytes: &Vec<u8>, pos: usize) -> (r: Option<(String, usize)>)
    requires
        pos <= bytes@.len(),
    ensures
        match r {
            Some(p) => pos + 1 <= bytes@.len() - p.1 && is_str_at(
                bytes@.subrange(pos as int, bytes@.len() - p.1),
                p.0@,
            ),
            None => true,
        },
        forall|s: Seq<char>|
            encode_utf8(s).len() < LEN32_LIMIT && pos + (#[trigger] mp_str(s)).len()
                <= bytes@.len() && bytes@.subrange(pos as int, pos + mp_str(s).len()) == mp_str(s)
                ==> match r {
                Some(p) => p.0@ == s && p.1 == bytes@.len() - pos - mp_str(s).len(),
                None => false,
            },
{
    match rmp::decode::read_str_from_slice(&bytes[pos..]) {
        Ok((s, tail)) => Some((s.to_owned(), tail.len())),
        Err(_) => None,
    }
}

/// Relies on rmp::decode::read_bin_len: reads a binary header; the body then
/// copies that many raw bytes and returns them together with how many bytes
/// of `bytes` remain after them.
#[verifier::external_body]
pub(crate) fn mp_read_bin(bytes: &Vec<u8>, pos: usize) -> (r: Option<(Vec<u8>, usize)>)
    requires
        pos <= bytes@.len(),
    ensures
        match r {
            Some(p) => pos + 1 <= bytes@.len() - p.1 && is_bin_at(
                bytes@.subrange(pos as int, bytes@.len() - p.1),
                p.0@,
            ),
            None => true,
        },
        forall|b: Seq<u8>|
            b.len() < LEN32_LIMIT && pos + (#[trigger] mp_bin(b)).len() <= bytes@.len()
                && bytes@.subrange(pos as int, pos + mp_bin(b).len()) == mp_bin(b) ==> match r {
                Some(p) => p.0@ == b && p.1 == bytes@.len() - pos - mp_bin(b).len(),
                None => false,
            },
{
    let mut rd = &bytes[pos..];
    match rmp::decode::read_bin_len(&mut rd) {
        Ok(n) => {
            if rd.len() < n as usize {
                return None;
            }
            let (head, tail) = rd.split_at(n as usize);
            Some((head.to_vec(), tail.len()))
        },
        Err(_) => None,
    }
}

} // verus!
