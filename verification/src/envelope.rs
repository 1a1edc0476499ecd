//! The message envelope layer.
//!
//! Every message travels as one structured binary record
//! `[ discriminant, field, ... ]`: an array whose first element is the
//! kind's unsigned discriminant, followed by the kind's fields. This module
//! defines the canonical bytes of each record shape the protocol uses, and
//! verified encoders and parsers for them; the typed message modules build
//! on these.

use vstd::prelude::*;
use vstd::utf8::encode_utf8;

use crate::wire::be_bytes;
use crate::wire::is_arr_hdr;
use crate::wire::is_bin_at;
use crate::wire::is_str_at;
use crate::wire::lemma_be_bytes_len;
use crate::wire::mp_arr_hdr;
use crate::wire::mp_bin;
use crate::wire::mp_i64;
use crate::wire::mp_read_array_len;
use crate::wire::mp_read_bin;
use crate::wire::mp_read_i64;
use crate::wire::mp_read_str;
use crate::wire::mp_read_u64;
use crate::wire::mp_str;
use crate::wire::mp_u64;
use crate::wire::mp_write_array_len;
use crate::wire::mp_write_bin;
use crate::wire::mp_write_i64;
use crate::wire::mp_write_str;
use crate::wire::mp_write_u64;
use crate::wire::LEN32_LIMIT;

verus! {

/// A string is small enough for its UTF-8 length to fit the wire's 32-bit
/// length field.
pub open spec fn str_fits(s: Seq<char>) -> bool {
    encode_utf8(s).len() < LEN32_LIMIT
}

/// Canonical bytes of a record `[tag]` with no fields.
pub open spec fn rec_tag(tag: u64) -> Seq<u8> {
    mp_arr_hdr(1) + mp_u64(tag)
}

/// `data` is some accepted encoding of the record `[tag]`.
pub open spec fn is_rec_tag_at(data: Seq<u8>, tag: u64) -> bool {
    exists|h: Seq<u8>| data == h + mp_u64(tag) && is_arr_hdr(h, 1)
}

/// Canonical bytes of a record `[tag, a]` with one integer field.
pub open spec fn rec_u64(tag: u64, a: u64) -> Seq<u8> {
    mp_arr_hdr(2) + mp_u64(tag) + mp_u64(a)
}

/// `data` is some accepted encoding of the record `[tag, a]`.
pub open spec fn is_rec_u64_at(data: Seq<u8>, tag: u64, a: u64) -> bool {
    exists|h: Seq<u8>| data == h + mp_u64(tag) + mp_u64(a) && is_arr_hdr(h, 2)
}

/// Canonical bytes of a record `[tag, s]` with one string field.
pub open spec fn rec_str(tag: u64, s: Seq<char>) -> Seq<u8> {
    mp_arr_hdr(2) + mp_u64(tag) + mp_str(s)
}

/// `data` is some accepted encoding of the record `[tag, s]`.
pub open spec fn is_rec_str_at(data: Seq<u8>, tag: u64, s: Seq<char>) -> bool {
    exists|h: Seq<u8>, sp: Seq<u8>|
        data == h + mp_u64(tag) + sp && is_arr_hdr(h, 2) && is_str_at(sp, s)
}

/// Canonical bytes of a record `[tag, s, a]` with a string and an integer
/// field.
pub open spec fn rec_str_u64(tag: u64, s: Seq<char>, a: u64) -> Seq<u8> {
    mp_arr_hdr(3) + mp_u64(tag) + mp_str(s) + mp_u64(a)
}

/// `data` is some accepted encoding of the record `[tag, s, a]`.
pub open spec fn is_rec_str_u64_at(data: Seq<u8>, tag: u64, s: Seq<char>, a: u64) -> bool {
    exists|h: Seq<u8>, sp: Seq<u8>|
        data == h + mp_u64(tag) + sp + mp_u64(a) && is_arr_hdr(h, 3) && is_str_at(sp, s)
}

/// Canonical bytes of a record `[tag, a, s]` with an integer and a string
/// field.
pub open spec fn rec_u64_str(tag: u64, a: u64, s: Seq<char>) -> Seq<u8> {
    mp_arr_hdr(3) + mp_u64(tag) + mp_u64(a) + mp_str(s)
}

/// `data` is some accepted encoding of the record `[tag, a, s]`.
pub open spec fn is_rec_u64_str_at(data: Seq<u8>, tag: u64, a: u64, s: Seq<char>) -> bool {
    exists|h: Seq<u8>, sp: Seq<u8>|
        data == h + mp_u64(tag) + mp_u64(a) + sp && is_arr_hdr(h, 3) && is_str_at(sp, s)
}

/// Where each piece of the canonical `[tag, a, s]` record lies.
pub proof fn lemma_rec_u64_str_layout(tag: u64, a: u64, s: Seq<char>)
    ensures
        rec_u64_str(tag, a, s).len() == 19 + mp_str(s).len(),
        rec_u64_str(tag, a, s).subrange(0, 1) == mp_arr_hdr(3),
        rec_u64_str(tag, a, s).subrange(1, 10) == mp_u64(tag),
        rec_u64_str(tag, a, s).subrange(10, 19) == mp_u64(a),
        rec_u64_str(tag, a, s).subrange(19, rec_u64_str(tag, a, s).len() as int) == mp_str(s),
{
    broadcast use lemma_be_bytes_len;

    assert(rec_u64_str(tag, a, s).subrange(0, 1) =~= mp_arr_hdr(3));
    assert(rec_u64_str(tag, a, s).subrange(1, 10) =~= mp_u64(tag));
    assert(rec_u64_str(tag, a, s).subrange(10, 19) =~= mp_u64(a));
    assert(rec_u64_str(tag, a, s).subrange(19, rec_u64_str(tag, a, s).len() as int) =~= mp_str(s));
}

/// Encode the record `[tag, a, s]` in its canonical form.
pub fn encode_rec_u64_str(tag: u64, a: u64, s: &str) -> (r: Vec<u8>)
    requires
        str_fits(s@),
    ensures
        r@ == rec_u64_str(tag, a, s@),
{
    let mut buf: Vec<u8> = Vec::new();
    mp_write_array_len(&mut buf, 3);
    mp_write_u64(&mut buf, tag);
    mp_write_u64(&mut buf, a);
    mp_write_str(&mut buf, s);
    proof {
        assert(buf@ =~= rec_u64_str(tag, a, s@));
    }
    buf
}

/// Parse a record `[tag, a, s]`. Returns the fields exactly when the bytes
/// are an accepted encoding of such a record with nothing after it.
pub fn parse_rec_u64_str(data: &Vec<u8>) -> (r: Option<(u64, u64, String)>)
    ensures
        match r {
            Some(p) => is_rec_u64_str_at(data@, p.0, p.1, p.2@),
            None => true,
        },
        forall|tag: u64, a: u64, s: Seq<char>|
            str_fits(s) && data@ == #[trigger] rec_u64_str(tag, a, s) ==> match r {
                Some(p) => p.0 == tag && p.1 == a && p.2@ == s,
                None => false,
            },
{
    proof {
        broadcast use lemma_be_bytes_len;

        assert forall|tag: u64, a: u64, s: Seq<char>|
            str_fits(s) && data@ == #[trigger] rec_u64_str(tag, a, s) implies {
            &&& data@.len() == 19 + mp_str(s).len()
            &&& data@.subrange(0, 1) == mp_arr_hdr(3)
            &&& data@.subrange(1, 10) == mp_u64(tag)
            &&& data@.subrange(10, 19) == mp_u64(a)
            &&& data@.subrange(19, data@.len() as int) == mp_str(s)
        } by {
            lemma_rec_u64_str_layout(tag, a, s);
        }
    }
    let n = data.len();
    let (count, rem1) = match mp_read_array_len(data, 0) {
        Some(p) => p,
        None => {
            return None;
        },
    };
    if count != 3 {
        return None;
    }
    let pos1 = n - rem1;
    let tag = match mp_read_u64(data, pos1) {
        Some(v) => v,
        None => {
            return None;
        },
    };
    let pos2 = pos1 + 9;
    let a = match mp_read_u64(data, pos2) {
        Some(v) => v,
        None => {
            return None;
        },
    };
    let pos3 = pos2 + 9;
    let (s, rem4) = match mp_read_str(data, pos3) {
        Some(p) => p,
        None => {
            return None;
        },
    };
    if rem4 != 0 {
        return None;
    }
    proof {
        let h = data@.subrange(0, pos1 as int);
        let sp = data@.subrange(pos3 as int, n as int);
        assert(data@ =~= h + mp_u64(tag) + mp_u64(a) + sp);
        assert(is_rec_u64_str_at(data@, tag, a, s@));
    }
    Some((tag, a, s))
}

/// Where each piece of the canonical `[tag]` record lies.
pub proof fn lemma_rec_tag_layout(tag: u64)
    ensures
        rec_tag(tag).len() == 10,
        rec_tag(tag).subrange(0, 1) == mp_arr_hdr(1),
        rec_tag(tag).subrange(1, 10) == mp_u64(tag),
{
    broadcast use lemma_be_bytes_len;

    assert(rec_tag(tag).subrange(0, 1) =~= mp_arr_hdr(1));
    assert(rec_tag(tag).subrange(1, 10) =~= mp_u64(tag));
}

/// Encode the record `[tag]` in its canonical form.
pub fn encode_rec_tag(tag: u64) -> (r: Vec<u8>)
    ensures
        r@ == rec_tag(tag),
{
    let mut buf: Vec<u8> = Vec::new();
    mp_write_array_len(&mut buf, 1);
    mp_write_u64(&mut buf, tag);
    proof {
        assert(buf@ =~= rec_tag(tag));
    }
    buf
}

/// Parse a record `[tag]` with no fields.
pub fn parse_rec_tag(data: &Vec<u8>) -> (r: Option<u64>)
    ensures
        match r {
            Some(tag) => is_rec_tag_at(data@, tag),
            None => true,
        },
        forall|tag: u64| data@ == #[trigger] rec_tag(tag) ==> r == Some(tag),
{
    proof {
        broadcast use lemma_be_bytes_len;

        assert forall|tag: u64| data@ == #[trigger] rec_tag(tag) implies {
            &&& data@.len() == 10
            &&& data@.subrange(0, 1) == mp_arr_hdr(1)
            &&& data@.subrange(1, 10) == mp_u64(tag)
        } by {
            lemma_rec_tag_layout(tag);
        }
    }
    let n = data.len();
    let (count, rem1) = match mp_read_array_len(data, 0) {
        Some(p) => p,
        None => {
            return None;
        },
    };
    if count != 1 {
        return None;
    }
    let pos1 = n - rem1;
    let tag = match mp_read_u64(data, pos1) {
        Some(v) => v,
        None => {
            return None;
        },
    };
    if pos1 + 9 != n {
        return None;
    }
    proof {
        let h = data@.subrange(0, pos1 as int);
        assert(data@ =~= h + mp_u64(tag));
        assert(is_rec_tag_at(data@, tag));
    }
    Some(tag)
}

/// Where each piece of the canonical `[tag, a]` record lies.
pub proof fn lemma_rec_u64_layout(tag: u64, a: u64)
    ensures
        rec_u64(tag, a).len() == 19,
        rec_u64(tag, a).subrange(0, 1) == mp_arr_hdr(2),
        rec_u64(tag, a).subrange(1, 10) == mp_u64(tag),
        rec_u64(tag, a).subrange(10, 19) == mp_u64(a),
{
    broadcast use lemma_be_bytes_len;

    assert(rec_u64(tag, a).subrange(0, 1) =~= mp_arr_hdr(2));
    assert(rec_u64(tag, a).subrange(1, 10) =~= mp_u64(tag));
    assert(rec_u64(tag, a).subrange(10, 19) =~= mp_u64(a));
}

/// Encode the record `[tag, a]` in its canonical form.
pub fn encode_rec_u64(tag: u64, a: u64) -> (r: Vec<u8>)
    ensures
        r@ == rec_u64(tag, a),
{
    let mut buf: Vec<u8> = Vec::new();
    mp_write_array_len(&mut buf, 2);
    mp_write_u64(&mut buf, tag);
    mp_write_u64(&mut buf, a);
    proof {
        assert(buf@ =~= rec_u64(tag, a));
    }
    buf
}

/// Parse a record `[tag, a]` with one integer field.
pub fn parse_rec_u64(data: &Vec<u8>) -> (r: Option<(u64, u64)>)
    ensures
        match r {
            Some(p) => is_rec_u64_at(data@, p.0, p.1),
            None => true,
        },
        forall|tag: u64, a: u64| data@ == #[trigger] rec_u64(tag, a) ==> r == Some((tag, a)),
{
    proof {
        broadcast use lemma_be_bytes_len;

        assert forall|tag: u64, a: u64| data@ == #[trigger] rec_u64(tag, a) implies {
            &&& data@.len() == 19
            &&& data@.subrange(0, 1) == mp_arr_hdr(2)
            &&& data@.subrange(1, 10) == mp_u64(tag)
            &&& data@.subrange(10, 19) == mp_u64(a)
        } by {
            lemma_rec_u64_layout(tag, a);
        }
    }
    let n = data.len();
    let (count, rem1) = match mp_read_array_len(data, 0) {
        Some(p) => p,
        None => {
            return None;
        },
    };
    if count != 2 {
        return None;
    }
    let pos1 = n - rem1;
    let tag = match mp_read_u64(data, pos1) {
        Some(v) => v,
        None => {
            return None;
        },
    };
    let pos2 = pos1 + 9;
    let a = match mp_read_u64(data, pos2) {
        Some(v) => v,
        None => {
            return None;
        },
    };
    if pos2 + 9 != n {
        return None;
    }
    proof {
        let h = data@.subrange(0, pos1 as int);
        assert(data@ =~= h + mp_u64(tag) + mp_u64(a));
        assert(is_rec_u64_at(data@, tag, a));
    }
    Some((tag, a))
}

/// Where each piece of the canonical `[tag, s]` record lies.
pub proof fn lemma_rec_str_layout(tag: u64, s: Seq<char>)
    ensures
        rec_str(tag, s).len() == 10 + mp_str(s).len(),
        rec_str(tag, s).subrange(0, 1) == mp_arr_hdr(2),
        rec_str(tag, s).subrange(1, 10) == mp_u64(tag),
        rec_str(tag, s).subrange(10, rec_str(tag, s).len() as int) == mp_str(s),
{
    broadcast use lemma_be_bytes_len;

    assert(rec_str(tag, s).subrange(0, 1) =~= mp_arr_hdr(2));
    assert(rec_str(tag, s).subrange(1, 10) =~= mp_u64(tag));
    assert(rec_str(tag, s).subrange(10, rec_str(tag, s).len() as int) =~= mp_str(s));
}

/// Encode the record `[tag, s]` in its canonical form.
pub fn encode_rec_str(tag: u64, s: &str) -> (r: Vec<u8>)
    requires
        str_fits(s@),
    ensures
        r@ == rec_str(tag, s@),
{
    let mut buf: Vec<u8> = Vec::new();
    mp_write_array_len(&mut buf, 2);
    mp_write_u64(&mut buf, tag);
    mp_write_str(&mut buf, s);
    proof {
        assert(buf@ =~= rec_str(tag, s@));
    }
    buf
}

/// Parse a record `[tag, s]` with one string field.
pub fn parse_rec_str(data: &Vec<u8>) -> (r: Option<(u64, String)>)
    ensures
        match r {
            Some(p) => is_rec_str_at(data@, p.0, p.1@),
            None => true,
        },
        forall|tag: u64, s: Seq<char>|
            str_fits(s) && data@ == #[trigger] rec_str(tag, s) ==> match r {
                Some(p) => p.0 == tag && p.1@ == s,
                None => false,
            },
{
    proof {
        broadcast use lemma_be_bytes_len;

        assert forall|tag: u64, s: Seq<char>|
            str_fits(s) && data@ == #[trigger] rec_str(tag, s) implies {
            &&& data@.len() == 10 + mp_str(s).len()
            &&& data@.subrange(0, 1) == mp_arr_hdr(2)
            &&& data@.subrange(1, 10) == mp_u64(tag)
            &&& data@.subrange(10, data@.len() as int) == mp_str(s)
        } by {
            lemma_rec_str_layout(tag, s);
        }
    }
    let n = data.len();
    let (count, rem1) = match mp_read_array_len(data, 0) {
        Some(p) => p,
        None => {
            return None;
        },
    };
    if count != 2 {
        return None;
    }
    let pos1 = n - rem1;
    let tag = match mp_read_u64(data, pos1) {
        Some(v) => v,
        None => {
            return None;
        },
    };
    let pos2 = pos1 + 9;
    let (s, rem3) = match mp_read_str(data, pos2) {
        Some(p) => p,
        None => {
            return None;
        },
    };
    if rem3 != 0 {
        return None;
    }
    proof {
        let h = data@.subrange(0, pos1 as int);
        let sp = data@.subrange(pos2 as int, n as int);
        assert(data@ =~= h + mp_u64(tag) + sp);
        assert(is_rec_str_at(data@, tag, s@));
    }
    Some((tag, s))
}

/// Where each piece of the canonical `[tag, s, a]` record lies.
pub proof fn lemma_rec_str_u64_layout(tag: u64, s: Seq<char>, a: u64)
    ensures
        rec_str_u64(tag, s, a).len() == 19 + mp_str(s).len(),
        rec_str_u64(tag, s, a).subrange(0, 1) == mp_arr_hdr(3),
        rec_str_u64(tag, s, a).subrange(1, 10) == mp_u64(tag),
        rec_str_u64(tag, s, a).subrange(10, 10 + mp_str(s).len() as int) == mp_str(s),
        rec_str_u64(tag, s, a).subrange(
            10 + mp_str(s).len() as int,
            19 + mp_str(s).len() as int,
        ) == mp_u64(a),
{
    broadcast use lemma_be_bytes_len;

    assert(rec_str_u64(tag, s, a).subrange(0, 1) =~= mp_arr_hdr(3));
    assert(rec_str_u64(tag, s, a).subrange(1, 10) =~= mp_u64(tag));
    assert(rec_str_u64(tag, s, a).subrange(10, 10 + mp_str(s).len() as int) =~= mp_str(s));
    assert(rec_str_u64(tag, s, a).subrange(10 + mp_str(s).len() as int, 19 + mp_str(s).len() as int)
        =~= mp_u64(a));
}

/// Encode the record `[tag, s, a]` in its canonical form.
pub fn encode_rec_str_u64(tag: u64, s: &str, a: u64) -> (r: Vec<u8>)
    requires
        str_fits(s@),
    ensures
        r@ == rec_str_u64(tag, s@, a),
{
    let mut buf: Vec<u8> = Vec::new();
    mp_write_array_len(&mut buf, 3);
    mp_write_u64(&mut buf, tag);
    mp_write_str(&mut buf, s);
    mp_write_u64(&mut buf, a);
    proof {
        assert(buf@ =~= rec_str_u64(tag, s@, a));
    }
    buf
}

/// Parse a record `[tag, s, a]` with a string and an integer field.
pub fn parse_rec_str_u64(data: &Vec<u8>) -> (r: Option<(u64, String, u64)>)
    ensures
        match r {
            Some(p) => is_rec_str_u64_at(data@, p.0, p.1@, p.2),
            None => true,
        },
        forall|tag: u64, s: Seq<char>, a: u64|
            str_fits(s) && data@ == #[trigger] rec_str_u64(tag, s, a) ==> match r {
                Some(p) => p.0 == tag && p.1@ == s && p.2 == a,
                None => false,
            },
{
    proof {
        broadcast use lemma_be_bytes_len;

        assert forall|tag: u64, s: Seq<char>, a: u64|
            str_fits(s) && data@ == #[trigger] rec_str_u64(tag, s, a) implies {
            &&& data@.len() == 19 + mp_str(s).len()
            &&& data@.subrange(0, 1) == mp_arr_hdr(3)
            &&& data@.subrange(1, 10) == mp_u64(tag)
            &&& data@.subrange(10, 10 + mp_str(s).len() as int) == mp_str(s)
            &&& data@.subrange(10 + mp_str(s).len() as int, 19 + mp_str(s).len() as int) == mp_u64(
                a,
            )
        } by {
            lemma_rec_str_u64_layout(tag, s, a);
        }
    }
    let n = data.len();
    let (count, rem1) = match mp_read_array_len(data, 0) {
        Some(p) => p,
        None => {
            return None;
        },
    };
    if count != 3 {
        return None;
    }
    let pos1 = n - rem1;
    let tag = match mp_read_u64(data, pos1) {
        Some(v) => v,
        None => {
            return None;
        },
    };
    let pos2 = pos1 + 9;
    let (s, rem3) = match mp_read_str(data, pos2) {
        Some(p) => p,
        None => {
            return None;
        },
    };
    if rem3 != 9 {
        return None;
    }
    let pos3 = n - 9;
    let a = match mp_read_u64(data, pos3) {
        Some(v) => v,
        None => {
            return None;
        },
    };
    proof {
        let h = data@.subrange(0, pos1 as int);
        let sp = data@.subrange(pos2 as int, pos3 as int);
        assert(data@ =~= h + mp_u64(tag) + sp + mp_u64(a));
        assert(is_rec_str_u64_at(data@, tag, s@, a));
    }
    Some((tag, s, a))
}

/// A byte string is small enough for its length to fit the wire's 32-bit
/// length field.
pub open spec fn bin_fits(b: Seq<u8>) -> bool {
    b.len() < LEN32_LIMIT
}

/// Canonical bytes of a record `[tag, b]` with one opaque byte-string field.
pub open spec fn rec_bin(tag: u64, b: Seq<u8>) -> Seq<u8> {
    mp_arr_hdr(2) + mp_u64(tag) + mp_bin(b)
}

/// `data` is some accepted encoding of the record `[tag, b]`.
pub open spec fn is_rec_bin_at(data: Seq<u8>, tag: u64, b: Seq<u8>) -> bool {
    exists|h: Seq<u8>, bp: Seq<u8>|
        data == h + mp_u64(tag) + bp && is_arr_hdr(h, 2) && is_bin_at(bp, b)
}

/// Where each piece of the canonical `[tag, b]` record lies.
pub proof fn lemma_rec_bin_layout(tag: u64, b: Seq<u8>)
    ensures
        rec_bin(tag, b).len() == 10 + mp_bin(b).len(),
        rec_bin(tag, b).subrange(0, 1) == mp_arr_hdr(2),
        rec_bin(tag, b).subrange(1, 10) == mp_u64(tag),
        rec_bin(tag, b).subrange(10, rec_bin(tag, b).len() as int) == mp_bin(b),
{
    broadcast use lemma_be_bytes_len;

    assert(rec_bin(tag, b).subrange(0, 1) =~= mp_arr_hdr(2));
    assert(rec_bin(tag, b).subrange(1, 10) =~= mp_u64(tag));
    assert(rec_bin(tag, b).subrange(10, rec_bin(tag, b).len() as int) =~= mp_bin(b));
}

/// Encode the record `[tag, b]` in its canonical form.
pub fn encode_rec_bin(tag: u64, b: &Vec<u8>) -> (r: Vec<u8>)
    requires
        bin_fits(b@),
    ensures
        r@ == rec_bin(tag, b@),
{
    let mut buf: Vec<u8> = Vec::new();
    mp_write_array_len(&mut buf, 2);
    mp_write_u64(&mut buf, tag);
    mp_write_bin(&mut buf, b);
    proof {
        assert(buf@ =~= rec_bin(tag, b@));
    }
    buf
}

/// Parse a record `[tag, b]` with one opaque byte-string field.
pub fn parse_rec_bin(data: &Vec<u8>) -> (r: Option<(u64, Vec<u8>)>)
    ensures
        match r {
            Some(p) => is_rec_bin_at(data@, p.0, p.1@),
            None => true,
        },
        forall|tag: u64, b: Seq<u8>|
            bin_fits(b) && data@ == #[trigger] rec_bin(tag, b) ==> match r {
                Some(p) => p.0 == tag && p.1@ == b,
                None => false,
            },
{
    proof {
        broadcast use lemma_be_bytes_len;

        assert forall|tag: u64, b: Seq<u8>|
            bin_fits(b) && data@ == #[trigger] rec_bin(tag, b) implies {
            &&& data@.len() == 10 + mp_bin(b).len()
            &&& data@.subrange(0, 1) == mp_arr_hdr(2)
            &&& data@.subrange(1, 10) == mp_u64(tag)
            &&& data@.subrange(10, data@.len() as int) == mp_bin(b)
        } by {
            lemma_rec_bin_layout(tag, b);
        }
    }
    let n = data.len();
    let (count, rem1) = match mp_read_array_len(data, 0) {
        Some(p) => p,
        None => {
            return None;
        },
    };
    if count != 2 {
        return None;
    }
    let pos1 = n - rem1;
    let tag = match mp_read_u64(data, pos1) {
        Some(v) => v,
        None => {
            return None;
        },
    };
    let pos2 = pos1 + 9;
    let (b, rem3) = match mp_read_bin(data, pos2) {
        Some(p) => p,
        None => {
            return None;
        },
    };
    if rem3 != 0 {
        return None;
    }
    proof {
        let h = data@.subrange(0, pos1 as int);
        let bp = data@.subrange(pos2 as int, n as int);
        assert(data@ =~= h + mp_u64(tag) + bp);
        assert(is_rec_bin_at(data@, tag, b@));
    }
    Some((tag, b))
}

/// Canonical bytes of a record `[tag, v, b1, b2]` with a signed integer and
/// two opaque byte-string fields.
pub open spec fn rec_i64_bin_bin(tag: u64, v: i64, b1: Seq<u8>, b2: Seq<u8>) -> Seq<u8> {
    mp_arr_hdr(4) + mp_u64(tag) + mp_i64(v) + mp_bin(b1) + mp_bin(b2)
}

/// `data` is some accepted encoding of the record `[tag, v, b1, b2]`.
pub open spec fn is_rec_i64_bin_bin_at(
    data: Seq<u8>,
    tag: u64,
    v: i64,
    b1: Seq<u8>,
    b2: Seq<u8>,
) -> bool {
    exists|h: Seq<u8>, p1: Seq<u8>, p2: Seq<u8>|
        data == h + mp_u64(tag) + mp_i64(v) + p1 + p2 && is_arr_hdr(h, 4) && is_bin_at(p1, b1)
            && is_bin_at(p2, b2)
}

/// Where each piece of the canonical `[tag, v, b1, b2]` record lies.
pub proof fn lemma_rec_i64_bin_bin_layout(tag: u64, v: i64, b1: Seq<u8>, b2: Seq<u8>)
    ensures
        rec_i64_bin_bin(tag, v, b1, b2).len() == 19 + mp_bin(b1).len() + mp_bin(b2).len(),
        rec_i64_bin_bin(tag, v, b1, b2).subrange(0, 1) == mp_arr_hdr(4),
        rec_i64_bin_bin(tag, v, b1, b2).subrange(1, 10) == mp_u64(tag),
        rec_i64_bin_bin(tag, v, b1, b2).subrange(10, 19) == mp_i64(v),
        rec_i64_bin_bin(tag, v, b1, b2).subrange(19, 19 + mp_bin(b1).len() as int) == mp_bin(b1),
        rec_i64_bin_bin(tag, v, b1, b2).subrange(
            19 + mp_bin(b1).len() as int,
            rec_i64_bin_bin(tag, v, b1, b2).len() as int,
        ) == mp_bin(b2),
{
    broadcast use lemma_be_bytes_len;

    let whole = rec_i64_bin_bin(tag, v, b1, b2);
    assert(whole.subrange(0, 1) =~= mp_arr_hdr(4));
    assert(whole.subrange(1, 10) =~= mp_u64(tag));
    assert(whole.subrange(10, 19) =~= mp_i64(v));
    assert(whole.subrange(19, 19 + mp_bin(b1).len() as int) =~= mp_bin(b1));
    assert(whole.subrange(19 + mp_bin(b1).len() as int, whole.len() as int) =~= mp_bin(b2));
}

/// Encode the record `[tag, v, b1, b2]` in its canonical form.
pub fn encode_rec_i64_bin_bin(tag: u64, v: i64, b1: &Vec<u8>, b2: &Vec<u8>) -> (r: Vec<u8>)
    requires
        bin_fits(b1@),
        bin_fits(b2@),
    ensures
        r@ == rec_i64_bin_bin(tag, v, b1@, b2@),
{
    let mut buf: Vec<u8> = Vec::new();
    mp_write_array_len(&mut buf, 4);
    mp_write_u64(&mut buf, tag);
    mp_write_i64(&mut buf, v);
    mp_write_bin(&mut buf, b1);
    mp_write_bin(&mut buf, b2);
    proof {
        assert(buf@ =~= rec_i64_bin_bin(tag, v, b1@, b2@));
    }
    buf
}

/// Parse a record `[tag, v, b1, b2]`.
#[verifier::rlimit(100)]
pub fn parse_rec_i64_bin_bin(data: &Vec<u8>) -> (r: Option<(u64, i64, Vec<u8>, Vec<u8>)>)
    ensures
        match r {
            Some(p) => is_rec_i64_bin_bin_at(data@, p.0, p.1, p.2@, p.3@),
            None => true,
        },
        forall|tag: u64, v: i64, b1: Seq<u8>, b2: Seq<u8>|
            bin_fits(b1) && bin_fits(b2) && data@ == #[trigger] rec_i64_bin_bin(tag, v, b1, b2)
                ==> match r {
                Some(p) => p.0 == tag && p.1 == v && p.2@ == b1 && p.3@ == b2,
                None => false,
            },
{
    proof {
        broadcast use lemma_be_bytes_len;

        assert forall|tag: u64, v: i64, b1: Seq<u8>, b2: Seq<u8>|
            bin_fits(b1) && bin_fits(b2) && data@ == #[trigger] rec_i64_bin_bin(
                tag,
                v,
                b1,
                b2,
            ) implies {
            &&& data@.len() == 19 + mp_bin(b1).len() + mp_bin(b2).len()
            &&& data@.subrange(0, 1) == mp_arr_hdr(4)
            &&& data@.subrange(1, 10) == mp_u64(tag)
            &&& data@.subrange(10, 19) == mp_i64(v)
            &&& data@.subrange(19, 19 + mp_bin(b1).len() as int) == mp_bin(b1)
            &&& data@.subrange(19 + mp_bin(b1).len() as int, data@.len() as int) == mp_bin(b2)
        } by {
            lemma_rec_i64_bin_bin_layout(tag, v, b1, b2);
        }
    }
    let n = data.len();
    let (count, rem1) = match mp_read_array_len(data, 0) {
        Some(p) => p,
        None => {
            return None;
        },
    };
    if count != 4 {
        return None;
    }
    let pos1 = n - rem1;
    let tag = match mp_read_u64(data, pos1) {
        Some(v) => v,
        None => {
            return None;
        },
    };
    let pos2 = pos1 + 9;
    let v = match mp_read_i64(data, pos2) {
        Some(v) => v,
        None => {
            return None;
        },
    };
    let pos3 = pos2 + 9;
    let (b1, rem4) = match mp_read_bin(data, pos3) {
        Some(p) => p,
        None => {
            return None;
        },
    };
    let pos4 = n - rem4;
    let (b2, rem5) = match mp_read_bin(data, pos4) {
        Some(p) => p,
        None => {
            return None;
        },
    };
    if rem5 != 0 {
        return None;
    }
    proof {
        let h = data@.subrange(0, pos1 as int);
        let p1 = data@.subrange(pos3 as int, pos4 as int);
        let p2 = data@.subrange(pos4 as int, n as int);
        assert(data@ =~= h + mp_u64(tag) + mp_i64(v) + p1 + p2);
        assert(is_rec_i64_bin_bin_at(data@, tag, v, b1@, b2@));
    }
    Some((tag, v, b1, b2))
}

/// Canonical bytes of the strings of `l`, one after the other.
pub open spec fn strs_bytes(l: Seq<Seq<char>>) -> Seq<u8>
    decreases l.len(),
{
    if l.len() == 0 {
        Seq::<u8>::empty()
    } else {
        mp_str(l[0]) + strs_bytes(l.drop_first())
    }
}

/// Every string of the list, and the list itself, fits the wire's 32-bit
/// length fields.
pub open spec fn strs_fit(l: Seq<Seq<char>>) -> bool {
    &&& l.len() < LEN32_LIMIT
    &&& forall|i: int| 0 <= i < l.len() ==> str_fits(#[trigger] l[i])
}

/// Canonical bytes of a record `[tag, s, [x, x, ...]]` with a string field
/// and a list-of-strings field.
pub open spec fn rec_str_strlist(tag: u64, s: Seq<char>, l: Seq<Seq<char>>) -> Seq<u8> {
    mp_arr_hdr(3) + mp_u64(tag) + mp_str(s) + mp_arr_hdr(l.len()) + strs_bytes(l)
}

/// `part` is some accepted encoding of the strings of `l`, one after the
/// other.
pub open spec fn is_strs_at(part: Seq<u8>, l: Seq<Seq<char>>) -> bool
    decreases l.len(),
{
    if l.len() == 0 {
        part == Seq::<u8>::empty()
    } else {
        exists|sp: Seq<u8>, rest: Seq<u8>|
            part == sp + rest && is_str_at(sp, l[0]) && is_strs_at(rest, l.drop_first())
    }
}

/// `data` is some accepted encoding of the record `[tag, s, [x, x, ...]]`.
pub open spec fn is_rec_str_strlist_at(
    data: Seq<u8>,
    tag: u64,
    s: Seq<char>,
    l: Seq<Seq<char>>,
) -> bool {
    exists|h: Seq<u8>, sp: Seq<u8>, h2: Seq<u8>, lp: Seq<u8>|
        data == h + mp_u64(tag) + sp + h2 + lp && is_arr_hdr(h, 3) && is_str_at(sp, s)
            && is_arr_hdr(h2, l.len()) && is_strs_at(lp, l)
}

/// Appending one more string to an encoded list.
pub proof fn lemma_strs_bytes_push(l: Seq<Seq<char>>, x: Seq<char>)
    ensures
        strs_bytes(l.push(x)) == strs_bytes(l) + mp_str(x),
    decreases l.len(),
{
    let lp = l.push(x);
    assert(strs_bytes(lp) == mp_str(lp[0]) + strs_bytes(lp.drop_first()));
    if l.len() == 0 {
        assert(lp[0] == x);
        assert(lp.drop_first() =~= Seq::<Seq<char>>::empty());
        assert(strs_bytes(lp.drop_first()) == Seq::<u8>::empty());
        assert(strs_bytes(l) == Seq::<u8>::empty());
        assert(strs_bytes(lp) =~= strs_bytes(l) + mp_str(x));
    } else {
        assert(lp[0] == l[0]);
        assert(lp.drop_first() =~= l.drop_first().push(x));
        lemma_strs_bytes_push(l.drop_first(), x);
        assert(strs_bytes(l) == mp_str(l[0]) + strs_bytes(l.drop_first()));
        assert(strs_bytes(lp) == mp_str(l[0]) + (strs_bytes(l.drop_first()) + mp_str(x)));
        assert(strs_bytes(lp) =~= strs_bytes(l) + mp_str(x));
    }
}

/// The same, for the loose forms a reader accepts.
pub proof fn lemma_is_strs_at_push(part: Seq<u8>, l: Seq<Seq<char>>, sp: Seq<u8>, x: Seq<char>)
    requires
        is_strs_at(part, l),
        is_str_at(sp, x),
    ensures
        is_strs_at(part + sp, l.push(x)),
    decreases l.len(),
{
    if l.len() == 0 {
        assert(l.push(x)[0] == x);
        assert(l.push(x).drop_first() =~= Seq::<Seq<char>>::empty());
        assert(part + sp =~= sp + Seq::<u8>::empty());
        assert(is_strs_at(Seq::<u8>::empty(), l.push(x).drop_first()));
    } else {
        let (sp0, rest0) = choose|sp0: Seq<u8>, rest0: Seq<u8>|
            part == sp0 + rest0 && is_str_at(sp0, l[0]) && is_strs_at(rest0, l.drop_first());
        lemma_is_strs_at_push(rest0, l.drop_first(), sp, x);
        assert(l.push(x)[0] == l[0]);
        assert(l.push(x).drop_first() =~= l.drop_first().push(x));
        assert(part + sp =~= sp0 + (rest0 + sp));
    }
}

/// Every string of an accepted list encoding fits the wire's length field.
pub proof fn lemma_is_strs_at_fits(part: Seq<u8>, l: Seq<Seq<char>>)
    requires
        is_strs_at(part, l),
    ensures
        forall|i: int| 0 <= i < l.len() ==> str_fits(#[trigger] l[i]),
    decreases l.len(),
{
    if l.len() > 0 {
        let (sp, rest) = choose|sp: Seq<u8>, rest: Seq<u8>|
            part == sp + rest && is_str_at(sp, l[0]) && is_strs_at(rest, l.drop_first());
        crate::wire::lemma_is_str_at_fits(sp, l[0]);
        lemma_is_strs_at_fits(rest, l.drop_first());
        assert forall|i: int| 0 <= i < l.len() implies str_fits(#[trigger] l[i]) by {
            if i > 0 {
                assert(l[i] == l.drop_first()[i - 1]);
            }
        }
    }
}

/// Peeling the next string off an encoded list.
pub proof fn lemma_strs_bytes_skip(l: Seq<Seq<char>>, k: int)
    requires
        0 <= k < l.len(),
    ensures
        strs_bytes(l.skip(k)) == mp_str(l[k]) + strs_bytes(l.skip(k + 1)),
{
    assert(l.skip(k)[0] == l[k]);
    assert(l.skip(k).drop_first() =~= l.skip(k + 1));
}

/// One step through an encoded list: at position `pos` of a canonical
/// record, the next string is the `k`-th of the list.
proof fn lemma_strlist_step(data: Seq<u8>, pos: int, k: int, l0: Seq<Seq<char>>)
    requires
        0 <= pos <= data.len(),
        0 <= k < l0.len(),
        strs_fit(l0),
        data.subrange(pos, data.len() as int) == strs_bytes(l0.skip(k)),
    ensures
        pos + mp_str(l0[k]).len() <= data.len(),
        data.subrange(pos, pos + mp_str(l0[k]).len() as int) == mp_str(l0[k]),
        data.subrange(pos + mp_str(l0[k]).len() as int, data.len() as int) == strs_bytes(
            l0.skip(k + 1),
        ),
        str_fits(l0[k]),
{
    lemma_strs_bytes_skip(l0, k);
    let elem = mp_str(l0[k]);
    let rest = strs_bytes(l0.skip(k + 1));
    let whole = data.subrange(pos, data.len() as int);
    assert(whole.len() == elem.len() + rest.len());
    assert(data.subrange(pos, pos + elem.len() as int) =~= elem);
    let tail = data.subrange(pos + elem.len() as int, data.len() as int);
    assert(tail.len() == rest.len());
    assert forall|i: int| 0 <= i < rest.len() implies tail[i] == rest[i] by {
        assert(tail[i] == data[pos + elem.len() + i]);
        assert(whole[elem.len() + i] == data[pos + elem.len() + i]);
        assert((elem + rest)[elem.len() + i] == rest[i]);
    }
    assert(tail =~= rest);
}

/// Where each piece of the canonical `[tag, s, [x, x, ...]]` record lies.
pub proof fn lemma_rec_str_strlist_layout(tag: u64, s: Seq<char>, l: Seq<Seq<char>>)
    ensures
        rec_str_strlist(tag, s, l).len() == 10 + mp_str(s).len() + mp_arr_hdr(l.len()).len()
            + strs_bytes(l).len(),
        rec_str_strlist(tag, s, l).subrange(0, 1) == mp_arr_hdr(3),
        rec_str_strlist(tag, s, l).subrange(1, 10) == mp_u64(tag),
        rec_str_strlist(tag, s, l).subrange(10, 10 + mp_str(s).len() as int) == mp_str(s),
        rec_str_strlist(tag, s, l).subrange(
            10 + mp_str(s).len() as int,
            10 + mp_str(s).len() + mp_arr_hdr(l.len()).len() as int,
        ) == mp_arr_hdr(l.len()),
        rec_str_strlist(tag, s, l).subrange(
            10 + mp_str(s).len() + mp_arr_hdr(l.len()).len() as int,
            rec_str_strlist(tag, s, l).len() as int,
        ) == strs_bytes(l),
{
    broadcast use lemma_be_bytes_len;

    let whole = rec_str_strlist(tag, s, l);
    assert(whole.subrange(0, 1) =~= mp_arr_hdr(3));
    assert(whole.subrange(1, 10) =~= mp_u64(tag));
    assert(whole.subrange(10, 10 + mp_str(s).len() as int) =~= mp_str(s));
    assert(whole.subrange(
        10 + mp_str(s).len() as int,
        10 + mp_str(s).len() + mp_arr_hdr(l.len()).len() as int,
    ) =~= mp_arr_hdr(l.len()));
    assert(whole.subrange(
        10 + mp_str(s).len() + mp_arr_hdr(l.len()).len() as int,
        whole.len() as int,
    ) =~= strs_bytes(l));
}

/// Encode the record `[tag, s, [x, x, ...]]` in its canonical form.
pub fn encode_rec_str_strlist(tag: u64, s: &str, l: &Vec<String>) -> (r: Vec<u8>)
    requires
        str_fits(s@),
        strs_fit(l.deep_view()),
    ensures
        r@ == rec_str_strlist(tag, s@, l.deep_view()),
{
    let ghost dv = l.deep_view();
    proof {
        assert(dv.len() == l@.len());
    }
    let mut buf: Vec<u8> = Vec::new();
    mp_write_array_len(&mut buf, 3);
    mp_write_u64(&mut buf, tag);
    mp_write_str(&mut buf, s);
    let m = l.len() as u32;
    proof {
        assert(m as nat == dv.len());
    }
    mp_write_array_len(&mut buf, m);
    proof {
        assert(dv.take(0) =~= Seq::<Seq<char>>::empty());
        assert(buf@ =~= mp_arr_hdr(3) + mp_u64(tag) + mp_str(s@) + mp_arr_hdr(dv.len())
            + strs_bytes(dv.take(0)));
    }
    let mut i: usize = 0;
    while i < l.len()
        invariant
            i <= l@.len(),
            dv == l.deep_view(),
            dv.len() == l@.len(),
            str_fits(s@),
            strs_fit(dv),
            buf@ == mp_arr_hdr(3) + mp_u64(tag) + mp_str(s@) + mp_arr_hdr(dv.len()) + strs_bytes(
                dv.take(i as int),
            ),
        decreases l@.len() - i,
    {
        proof {
            assert(dv[i as int] == l@[i as int]@);
        }
        mp_write_str(&mut buf, l[i].as_str());
        proof {
            assert(dv.take(i + 1) =~= dv.take(i as int).push(dv[i as int]));
            lemma_strs_bytes_push(dv.take(i as int), dv[i as int]);
        }
        i = i + 1;
    }
    proof {
        assert(dv.take(dv.len() as int) =~= dv);
        assert(buf@ =~= rec_str_strlist(tag, s@, dv));
    }
    buf
}

/// Parse a record `[tag, s, [x, x, ...]]`.
#[verifier::rlimit(100)]
pub fn parse_rec_str_strlist(data: &Vec<u8>) -> (r: Option<(u64, String, Vec<String>)>)
    ensures
        match r {
            Some(p) => is_rec_str_strlist_at(data@, p.0, p.1@, p.2.deep_view())
                && p.2.deep_view().len() < LEN32_LIMIT,
            None => true,
        },
        forall|tag: u64, s: Seq<char>, l: Seq<Seq<char>>|
            str_fits(s) && strs_fit(l) && data@ == #[trigger] rec_str_strlist(tag, s, l)
                ==> match r {
                Some(p) => p.0 == tag && p.1@ == s && p.2.deep_view() == l,
                None => false,
            },
{
    proof {
        broadcast use lemma_be_bytes_len;

        assert forall|tag: u64, s: Seq<char>, l: Seq<Seq<char>>|
            str_fits(s) && strs_fit(l) && data@ == #[trigger] rec_str_strlist(tag, s, l) implies {
            &&& data@.len() == 10 + mp_str(s).len() + mp_arr_hdr(l.len()).len() + strs_bytes(
                l,
            ).len()
            &&& data@.subrange(0, 1) == mp_arr_hdr(3)
            &&& data@.subrange(1, 10) == mp_u64(tag)
            &&& data@.subrange(10, 10 + mp_str(s).len() as int) == mp_str(s)
            &&& data@.subrange(
                10 + mp_str(s).len() as int,
                10 + mp_str(s).len() + mp_arr_hdr(l.len()).len() as int,
            ) == mp_arr_hdr(l.len())
            &&& data@.subrange(
                10 + mp_str(s).len() + mp_arr_hdr(l.len()).len() as int,
                data@.len() as int,
            ) == strs_bytes(l)
            &&& mp_arr_hdr((l.len() as u32) as nat) == mp_arr_hdr(l.len())
        } by {
            lemma_rec_str_strlist_layout(tag, s, l);
            assert((l.len() as u32) as nat == l.len());
        }
    }
    let n = data.len();
    let (count, rem1) = match mp_read_array_len(data, 0) {
        Some(p) => p,
        None => {
            return None;
        },
    };
    if count != 3 {
        return None;
    }
    let pos1 = n - rem1;
    let tag = match mp_read_u64(data, pos1) {
        Some(v) => v,
        None => {
            return None;
        },
    };
    let pos2 = pos1 + 9;
    let (s, rem3) = match mp_read_str(data, pos2) {
        Some(p) => p,
        None => {
            return None;
        },
    };
    let pos3 = n - rem3;
    let (m, rem4) = match mp_read_array_len(data, pos3) {
        Some(p) => p,
        None => {
            return None;
        },
    };
    let pos4 = n - rem4;
    let mut acc: Vec<String> = Vec::new();
    let mut pos = pos4;
    let mut k: u32 = 0;
    proof {
        assert(acc.deep_view() =~= Seq::<Seq<char>>::empty());
        assert(data@.subrange(pos4 as int, pos as int) =~= Seq::<u8>::empty());
        assert forall|tag0: u64, s0: Seq<char>, l0: Seq<Seq<char>>|
            str_fits(s0) && strs_fit(l0) && data@ == #[trigger] rec_str_strlist(
                tag0,
                s0,
                l0,
            ) implies {
            &&& tag == tag0
            &&& s@ == s0
            &&& m as nat == l0.len()
            &&& acc.deep_view() == l0.take(k as int)
            &&& data@.subrange(pos as int, n as int) == strs_bytes(l0.skip(k as int))
        } by {
            assert(l0.skip(0) =~= l0);
            assert(l0.take(0) =~= Seq::<Seq<char>>::empty());
        }
    }
    while k < m
        invariant
            n == data@.len(),
            pos1 as int + 9 == pos2,
            pos2 <= pos3 <= pos4 <= pos && pos <= n,
            k <= m,
            acc@.len() == k as nat,
            acc.deep_view().len() == k as nat,
            data@.subrange(pos1 as int, pos2 as int) == mp_u64(tag),
            is_str_at(data@.subrange(pos2 as int, pos3 as int), s@),
            is_arr_hdr(data@.subrange(0, pos1 as int), 3),
            is_arr_hdr(data@.subrange(pos3 as int, pos4 as int), m as nat),
            is_strs_at(data@.subrange(pos4 as int, pos as int), acc.deep_view()),
            forall|tag0: u64, s0: Seq<char>, l0: Seq<Seq<char>>|
                str_fits(s0) && strs_fit(l0) && data@ == #[trigger] rec_str_strlist(
                    tag0,
                    s0,
                    l0,
                ) ==> {
                    &&& tag == tag0
                    &&& s@ == s0
                    &&& m as nat == l0.len()
                    &&& acc.deep_view() == l0.take(k as int)
                    &&& data@.subrange(pos as int, n as int) == strs_bytes(l0.skip(k as int))
                },
        decreases m - k,
    {
        let ghost old_acc_dv = acc.deep_view();
        let ghost old_pos = pos;
        let sk = match mp_read_str(data, pos) {
            Some(p) => p,
            None => {
                proof {
                    assert forall|tag0: u64, s0: Seq<char>, l0: Seq<Seq<char>>|
                        str_fits(s0) && strs_fit(l0) && data@ == #[trigger] rec_str_strlist(
                            tag0,
                            s0,
                            l0,
                        ) implies false by {
                        lemma_strlist_step(data@, pos as int, k as int, l0);
                    }
                }
                return None;
            },
        };
        let remk = sk.1;
        let sk = sk.0;
        let newpos = n - remk;
        proof {
            lemma_is_strs_at_push(
                data@.subrange(pos4 as int, pos as int),
                acc.deep_view(),
                data@.subrange(pos as int, newpos as int),
                sk@,
            );
            assert(data@.subrange(pos4 as int, newpos as int) =~= data@.subrange(
                pos4 as int,
                pos as int,
            ) + data@.subrange(pos as int, newpos as int));
            assert forall|tag0: u64, s0: Seq<char>, l0: Seq<Seq<char>>|
                str_fits(s0) && strs_fit(l0) && data@ == #[trigger] rec_str_strlist(
                    tag0,
                    s0,
                    l0,
                ) implies {
                &&& sk@ == l0[k as int]
                &&& newpos == pos + mp_str(l0[k as int]).len()
                &&& old_acc_dv.push(sk@) == l0.take(k + 1)
                &&& data@.subrange(newpos as int, n as int) == strs_bytes(l0.skip(k + 1))
            } by {
                lemma_strlist_step(data@, pos as int, k as int, l0);
                assert(old_acc_dv.push(sk@) =~= l0.take(k + 1));
            }
        }
        acc.push(sk);
        pos = newpos;
        k = k + 1;
        proof {
            assert(acc.deep_view() =~= old_acc_dv.push(acc@[acc@.len() - 1]@));
        }
    }
    if pos != n {
        return None;
    }
    proof {
        let h = data@.subrange(0, pos1 as int);
        let sp = data@.subrange(pos2 as int, pos3 as int);
        let h2 = data@.subrange(pos3 as int, pos4 as int);
        let lp = data@.subrange(pos4 as int, n as int);
        assert(data@ =~= h + mp_u64(tag) + sp + h2 + lp);
        assert(is_rec_str_strlist_at(data@, tag, s@, acc.deep_view()));
        assert forall|tag0: u64, s0: Seq<char>, l0: Seq<Seq<char>>|
            str_fits(s0) && strs_fit(l0) && data@ == #[trigger] rec_str_strlist(
                tag0,
                s0,
                l0,
            ) implies acc.deep_view() == l0 by {
            assert(l0.take(k as int) =~= l0);
        }
    }
    Some((tag, s, acc))
}

/// Canonical bytes of a record `[tag, s1, s2, a, b, c]` with two string and
/// three integer fields.
pub open spec fn rec_record(
    tag: u64,
    s1: Seq<char>,
    s2: Seq<char>,
    a: u64,
    b: u64,
    c: u64,
) -> Seq<u8> {
    mp_arr_hdr(6) + mp_u64(tag) + mp_str(s1) + mp_str(s2) + mp_u64(a) + mp_u64(b) + mp_u64(c)
}

/// `data` is some accepted encoding of the record `[tag, s1, s2, a, b, c]`.
pub open spec fn is_rec_record_at(
    data: Seq<u8>,
    tag: u64,
    s1: Seq<char>,
    s2: Seq<char>,
    a: u64,
    b: u64,
    c: u64,
) -> bool {
    exists|h: Seq<u8>, p1: Seq<u8>, p2: Seq<u8>|
        data == h + mp_u64(tag) + p1 + p2 + mp_u64(a) + mp_u64(b) + mp_u64(c) && is_arr_hdr(h, 6)
            && is_str_at(p1, s1) && is_str_at(p2, s2)
}

/// Where each piece of the canonical `[tag, s1, s2, a, b, c]` record lies.
pub proof fn lemma_rec_record_layout(tag: u64, s1: Seq<char>, s2: Seq<char>, a: u64, b: u64, c: u64)
    ensures
        rec_record(tag, s1, s2, a, b, c).len() == 37 + mp_str(s1).len() + mp_str(s2).len(),
        rec_record(tag, s1, s2, a, b, c).subrange(0, 1) == mp_arr_hdr(6),
        rec_record(tag, s1, s2, a, b, c).subrange(1, 10) == mp_u64(tag),
        rec_record(tag, s1, s2, a, b, c).subrange(10, 10 + mp_str(s1).len() as int) == mp_str(s1),
        rec_record(tag, s1, s2, a, b, c).subrange(
            10 + mp_str(s1).len() as int,
            10 + mp_str(s1).len() + mp_str(s2).len() as int,
        ) == mp_str(s2),
        rec_record(tag, s1, s2, a, b, c).subrange(
            10 + mp_str(s1).len() + mp_str(s2).len() as int,
            19 + mp_str(s1).len() + mp_str(s2).len() as int,
        ) == mp_u64(a),
        rec_record(tag, s1, s2, a, b, c).subrange(
            19 + mp_str(s1).len() + mp_str(s2).len() as int,
            28 + mp_str(s1).len() + mp_str(s2).len() as int,
        ) == mp_u64(b),
        rec_record(tag, s1, s2, a, b, c).subrange(
            28 + mp_str(s1).len() + mp_str(s2).len() as int,
            37 + mp_str(s1).len() + mp_str(s2).len() as int,
        ) == mp_u64(c),
{
    broadcast use lemma_be_bytes_len;

    let whole = rec_record(tag, s1, s2, a, b, c);
    let l1 = mp_str(s1).len() as int;
    let l2 = mp_str(s2).len() as int;
    assert(whole.subrange(0, 1) =~= mp_arr_hdr(6));
    assert(whole.subrange(1, 10) =~= mp_u64(tag));
    assert(whole.subrange(10, 10 + l1) =~= mp_str(s1));
    assert(whole.subrange(10 + l1, 10 + l1 + l2) =~= mp_str(s2));
    assert(whole.subrange(10 + l1 + l2, 19 + l1 + l2) =~= mp_u64(a));
    assert(whole.subrange(19 + l1 + l2, 28 + l1 + l2) =~= mp_u64(b));
    assert(whole.subrange(28 + l1 + l2, 37 + l1 + l2) =~= mp_u64(c));
}

/// Encode the record `[tag, s1, s2, a, b, c]` in its canonical form.
pub fn encode_rec_record(tag: u64, s1: &str, s2: &str, a: u64, b: u64, c: u64) -> (r: Vec<u8>)
    requires
        str_fits(s1@),
        str_fits(s2@),
    ensures
        r@ == rec_record(tag, s1@, s2@, a, b, c),
{
    let mut buf: Vec<u8> = Vec::new();
    mp_write_array_len(&mut buf, 6);
    mp_write_u64(&mut buf, tag);
    mp_write_str(&mut buf, s1);
    mp_write_str(&mut buf, s2);
    mp_write_u64(&mut buf, a);
    mp_write_u64(&mut buf, b);
    mp_write_u64(&mut buf, c);
    proof {
        assert(buf@ =~= rec_record(tag, s1@, s2@, a, b, c));
    }
    buf
}

/// Parse a record `[tag, s1, s2, a, b, c]`.
#[verifier::rlimit(100)]
pub fn parse_rec_record(data: &Vec<u8>) -> (r: Option<(u64, String, String, u64, u64, u64)>)
    ensures
        match r {
            Some(p) => is_rec_record_at(data@, p.0, p.1@, p.2@, p.3, p.4, p.5),
            None => true,
        },
        forall|tag: u64, s1: Seq<char>, s2: Seq<char>, a: u64, b: u64, c: u64|
            str_fits(s1) && str_fits(s2) && data@ == #[trigger] rec_record(tag, s1, s2, a, b, c)
                ==> match r {
                Some(p) => p.0 == tag && p.1@ == s1 && p.2@ == s2 && p.3 == a && p.4 == b && p.5
                    == c,
                None => false,
            },
{
    proof {
        broadcast use lemma_be_bytes_len;

        assert forall|tag: u64, s1: Seq<char>, s2: Seq<char>, a: u64, b: u64, c: u64|
            str_fits(s1) && str_fits(s2) && data@ == #[trigger] rec_record(
                tag,
                s1,
                s2,
                a,
                b,
                c,
            ) implies {
            &&& data@.len() == 37 + mp_str(s1).len() + mp_str(s2).len()
            &&& data@.subrange(0, 1) == mp_arr_hdr(6)
            &&& data@.subrange(1, 10) == mp_u64(tag)
            &&& data@.subrange(10, 10 + mp_str(s1).len() as int) == mp_str(s1)
            &&& data@.subrange(
                10 + mp_str(s1).len() as int,
                10 + mp_str(s1).len() + mp_str(s2).len() as int,
            ) == mp_str(s2)
            &&& data@.subrange(
                10 + mp_str(s1).len() + mp_str(s2).len() as int,
                19 + mp_str(s1).len() + mp_str(s2).len() as int,
            ) == mp_u64(a)
            &&& data@.subrange(
                19 + mp_str(s1).len() + mp_str(s2).len() as int,
                28 + mp_str(s1).len() + mp_str(s2).len() as int,
            ) == mp_u64(b)
            &&& data@.subrange(
                28 + mp_str(s1).len() + mp_str(s2).len() as int,
                37 + mp_str(s1).len() + mp_str(s2).len() as int,
            ) == mp_u64(c)
        } by {
            lemma_rec_record_layout(tag, s1, s2, a, b, c);
        }
    }
    let n = data.len();
    let (count, rem1) = match mp_read_array_len(data, 0) {
        Some(p) => p,
        None => {
            return None;
        },
    };
    if count != 6 {
        return None;
    }
    let pos1 = n - rem1;
    let tag = match mp_read_u64(data, pos1) {
        Some(v) => v,
        None => {
            return None;
        },
    };
    let pos2 = pos1 + 9;
    let (s1, rem3) = match mp_read_str(data, pos2) {
        Some(p) => p,
        None => {
            return None;
        },
    };
    let pos3 = n - rem3;
    let (s2, rem4) = match mp_read_str(data, pos3) {
        Some(p) => p,
        None => {
            return None;
        },
    };
    if rem4 != 27 {
        return None;
    }
    let pos4 = n - 27;
    let a = match mp_read_u64(data, pos4) {
        Some(v) => v,
        None => {
            return None;
        },
    };
    let pos5 = pos4 + 9;
    let b = match mp_read_u64(data, pos5) {
        Some(v) => v,
        None => {
            return None;
        },
    };
    let pos6 = pos5 + 9;
    let c = match mp_read_u64(data, pos6) {
        Some(v) => v,
        None => {
            return None;
        },
    };
    proof {
        let h = data@.subrange(0, pos1 as int);
        let p1 = data@.subrange(pos2 as int, pos3 as int);
        let p2 = data@.subrange(pos3 as int, pos4 as int);
        assert(data@ =~= h + mp_u64(tag) + p1 + p2 + mp_u64(a) + mp_u64(b) + mp_u64(c));
        assert(is_rec_record_at(data@, tag, s1@, s2@, a, b, c));
    }
    Some((tag, s1, s2, a, b, c))
}

/// Law: the canonical `[tag]` record pins its discriminant down.
pub proof fn lemma_rec_tag_inj(t1: u64, t2: u64)
    requires
        rec_tag(t1) == rec_tag(t2),
    ensures
        t1 == t2,
{
    lemma_rec_tag_layout(t1);
    lemma_rec_tag_layout(t2);
    crate::wire::lemma_mp_u64_inj(t1, t2);
}

/// Law: the canonical `[tag, a]` record pins both fields down.
pub proof fn lemma_rec_u64_inj(t1: u64, a1: u64, t2: u64, a2: u64)
    requires
        rec_u64(t1, a1) == rec_u64(t2, a2),
    ensures
        t1 == t2,
        a1 == a2,
{
    lemma_rec_u64_layout(t1, a1);
    lemma_rec_u64_layout(t2, a2);
    crate::wire::lemma_mp_u64_inj(t1, t2);
    crate::wire::lemma_mp_u64_inj(a1, a2);
}

/// Law: the canonical `[tag, s]` record pins both fields down. Together
/// with the encoders' and parsers' contracts this is the round trip:
/// decoding an encoded record yields the record that was encoded, and
/// nothing else encodes to the same bytes.
pub proof fn lemma_rec_str_inj(t1: u64, s1: Seq<char>, t2: u64, s2: Seq<char>)
    requires
        str_fits(s1),
        str_fits(s2),
        rec_str(t1, s1) == rec_str(t2, s2),
    ensures
        t1 == t2,
        s1 == s2,
{
    lemma_rec_str_layout(t1, s1);
    lemma_rec_str_layout(t2, s2);
    crate::wire::lemma_mp_u64_inj(t1, t2);
    assert(mp_str(s1).len() == mp_str(s2).len());
    crate::wire::lemma_mp_str_inj(s1, s2);
}

/// Law: the canonical `[tag, a, s]` record pins all three fields down.
pub proof fn lemma_rec_u64_str_inj(t1: u64, a1: u64, s1: Seq<char>, t2: u64, a2: u64, s2: Seq<char>)
    requires
        str_fits(s1),
        str_fits(s2),
        rec_u64_str(t1, a1, s1) == rec_u64_str(t2, a2, s2),
    ensures
        t1 == t2,
        a1 == a2,
        s1 == s2,
{
    lemma_rec_u64_str_layout(t1, a1, s1);
    lemma_rec_u64_str_layout(t2, a2, s2);
    crate::wire::lemma_mp_u64_inj(t1, t2);
    crate::wire::lemma_mp_u64_inj(a1, a2);
    assert(mp_str(s1).len() == mp_str(s2).len());
    crate::wire::lemma_mp_str_inj(s1, s2);
}

/// Law: the canonical `[tag, s, a]` record pins all three fields down.
pub proof fn lemma_rec_str_u64_inj(t1: u64, s1: Seq<char>, a1: u64, t2: u64, s2: Seq<char>, a2: u64)
    requires
        str_fits(s1),
        str_fits(s2),
        rec_str_u64(t1, s1, a1) == rec_str_u64(t2, s2, a2),
    ensures
        t1 == t2,
        s1 == s2,
        a1 == a2,
{
    lemma_rec_str_u64_layout(t1, s1, a1);
    lemma_rec_str_u64_layout(t2, s2, a2);
    crate::wire::lemma_mp_u64_inj(t1, t2);
    assert(mp_str(s1).len() == mp_str(s2).len());
    assert(mp_str(s1) == rec_str_u64(t1, s1, a1).subrange(10, 10 + mp_str(s1).len() as int));
    crate::wire::lemma_mp_str_inj(s1, s2);
    assert(mp_u64(a1) == rec_str_u64(t1, s1, a1).subrange(
        10 + mp_str(s1).len() as int,
        19 + mp_str(s1).len() as int,
    ));
    crate::wire::lemma_mp_u64_inj(a1, a2);
}

/// Law: the canonical `[tag, b]` record pins both fields down.
pub proof fn lemma_rec_bin_inj(t1: u64, b1: Seq<u8>, t2: u64, b2: Seq<u8>)
    requires
        bin_fits(b1),
        bin_fits(b2),
        rec_bin(t1, b1) == rec_bin(t2, b2),
    ensures
        t1 == t2,
        b1 == b2,
{
    lemma_rec_bin_layout(t1, b1);
    lemma_rec_bin_layout(t2, b2);
    crate::wire::lemma_mp_u64_inj(t1, t2);
    assert(mp_bin(b1).len() == mp_bin(b2).len());
    crate::wire::lemma_mp_bin_inj(b1, b2);
}

/// Law: the canonical `[tag, v, b1, b2]` record pins all four fields down.
pub proof fn lemma_rec_i64_bin_bin_inj(
    t1: u64,
    v1: i64,
    c1: Seq<u8>,
    d1: Seq<u8>,
    t2: u64,
    v2: i64,
    c2: Seq<u8>,
    d2: Seq<u8>,
)
    requires
        bin_fits(c1),
        bin_fits(c2),
        bin_fits(d1),
        bin_fits(d2),
        rec_i64_bin_bin(t1, v1, c1, d1) == rec_i64_bin_bin(t2, v2, c2, d2),
    ensures
        t1 == t2,
        v1 == v2,
        c1 == c2,
        d1 == d2,
{
    broadcast use lemma_be_bytes_len;

    let whole = rec_i64_bin_bin(t1, v1, c1, d1);
    lemma_rec_i64_bin_bin_layout(t1, v1, c1, d1);
    lemma_rec_i64_bin_bin_layout(t2, v2, c2, d2);
    crate::wire::lemma_mp_u64_inj(t1, t2);
    crate::wire::lemma_mp_i64_inj(v1, v2);
    let n1 = c1.len();
    let n2 = c2.len();
    let b0 = whole[19];
    assert(whole[19] == mp_bin(c1)[0]);
    assert(whole[19] == mp_bin(c2)[0]);
    assert(mp_bin(c1)[0] == crate::wire::mp_bin_hdr(n1)[0]);
    assert(mp_bin(c2)[0] == crate::wire::mp_bin_hdr(n2)[0]);
    if n1 < 256 {
        assert(b0 == 0xc4);
        assert(n2 < 256);
        assert(whole[20] == mp_bin(c1)[1]);
        assert(whole[20] == mp_bin(c2)[1]);
        assert(n1 == n2);
    } else if n1 < 0x1_0000 {
        assert(b0 == 0xc5);
        assert(256 <= n2 < 0x1_0000);
        crate::wire::lemma_pow256_values();
        assert(be_bytes(n1, 2) =~= whole.subrange(20, 22));
        assert(be_bytes(n2, 2) =~= whole.subrange(20, 22));
        crate::wire::lemma_be_bytes_inj(n1, n2, 2);
    } else {
        assert(b0 == 0xc6);
        assert(0x1_0000 <= n2);
        crate::wire::lemma_pow256_values();
        assert(be_bytes(n1, 4) =~= whole.subrange(20, 24));
        assert(be_bytes(n2, 4) =~= whole.subrange(20, 24));
        crate::wire::lemma_be_bytes_inj(n1, n2, 4);
    }
    assert(mp_bin(c1).len() == mp_bin(c2).len());
    assert(mp_bin(c2) == whole.subrange(19, 19 + mp_bin(c2).len() as int));
    crate::wire::lemma_mp_bin_inj(c1, c2);
    assert(mp_bin(d2) == whole.subrange(19 + mp_bin(c2).len() as int, whole.len() as int));
    crate::wire::lemma_mp_bin_inj(d1, d2);
}

/// Law: two encoded lists of the same count and the same bytes hold the
/// same strings.
pub proof fn lemma_strs_bytes_inj(l1: Seq<Seq<char>>, l2: Seq<Seq<char>>)
    requires
        strs_fit(l1),
        strs_fit(l2),
        l1.len() == l2.len(),
        strs_bytes(l1) == strs_bytes(l2),
    ensures
        l1 == l2,
    decreases l1.len(),
{
    if l1.len() > 0 {
        assert(str_fits(l1[0]));
        assert(str_fits(l2[0]));
        crate::wire::lemma_mp_str_prefix_inj(
            l1[0],
            l2[0],
            strs_bytes(l1.drop_first()),
            strs_bytes(l2.drop_first()),
        );
        assert(strs_fit(l1.drop_first())) by {
            assert(forall|i: int|
                0 <= i < l1.drop_first().len() ==> #[trigger] l1.drop_first()[i] == l1[i + 1]);
        }
        assert(strs_fit(l2.drop_first())) by {
            assert(forall|i: int|
                0 <= i < l2.drop_first().len() ==> #[trigger] l2.drop_first()[i] == l2[i + 1]);
        }
        lemma_strs_bytes_inj(l1.drop_first(), l2.drop_first());
        assert forall|i: int| 0 <= i < l1.len() implies l1[i] == l2[i] by {
            if i > 0 {
                assert(l1[i] == l1.drop_first()[i - 1]);
                assert(l2[i] == l2.drop_first()[i - 1]);
            }
        }
        assert(l1 =~= l2);
    } else {
        assert(l1 =~= l2);
    }
}

/// Law: the canonical `[tag, s, [x, x, ...]]` record pins all its fields
/// down.
pub proof fn lemma_rec_str_strlist_inj(
    t1: u64,
    s1: Seq<char>,
    l1: Seq<Seq<char>>,
    t2: u64,
    s2: Seq<char>,
    l2: Seq<Seq<char>>,
)
    requires
        str_fits(s1),
        str_fits(s2),
        strs_fit(l1),
        strs_fit(l2),
        rec_str_strlist(t1, s1, l1) == rec_str_strlist(t2, s2, l2),
    ensures
        t1 == t2,
        s1 == s2,
        l1 == l2,
{
    broadcast use lemma_be_bytes_len;

    let whole = rec_str_strlist(t1, s1, l1);
    lemma_rec_str_strlist_layout(t1, s1, l1);
    lemma_rec_str_strlist_layout(t2, s2, l2);
    crate::wire::lemma_mp_u64_inj(t1, t2);
    assert(whole.subrange(10, whole.len() as int) =~= mp_str(s1) + (mp_arr_hdr(l1.len())
        + strs_bytes(l1)));
    assert(whole.subrange(10, whole.len() as int) =~= mp_str(s2) + (mp_arr_hdr(l2.len())
        + strs_bytes(l2)));
    crate::wire::lemma_mp_str_prefix_inj(
        s1,
        s2,
        mp_arr_hdr(l1.len()) + strs_bytes(l1),
        mp_arr_hdr(l2.len()) + strs_bytes(l2),
    );
    let tail = mp_arr_hdr(l1.len()) + strs_bytes(l1);
    let n1 = l1.len();
    let n2 = l2.len();
    let b0 = tail[0];
    assert(tail[0] == mp_arr_hdr(n1)[0]);
    assert(tail[0] == mp_arr_hdr(n2)[0]);
    if n1 < 16 {
        assert(b0 == (0x90 + n1) as u8);
        assert(n2 < 16);
        assert((0x90 + n1) as u8 == (0x90 + n2) as u8);
        assert(n1 == n2);
    } else if n1 < 0x1_0000 {
        assert(b0 == 0xdc);
        assert(16 <= n2 < 0x1_0000);
        crate::wire::lemma_pow256_values();
        assert(be_bytes(n1, 2) =~= tail.subrange(1, 3));
        assert(be_bytes(n2, 2) =~= tail.subrange(1, 3));
        crate::wire::lemma_be_bytes_inj(n1, n2, 2);
    } else {
        assert(b0 == 0xdd);
        assert(0x1_0000 <= n2);
        crate::wire::lemma_pow256_values();
        assert(be_bytes(n1, 4) =~= tail.subrange(1, 5));
        assert(be_bytes(n2, 4) =~= tail.subrange(1, 5));
        crate::wire::lemma_be_bytes_inj(n1, n2, 4);
    }
    assert(strs_bytes(l1) =~= tail.subrange(mp_arr_hdr(n1).len() as int, tail.len() as int));
    assert(strs_bytes(l2) =~= tail.subrange(mp_arr_hdr(n1).len() as int, tail.len() as int));
    lemma_strs_bytes_inj(l1, l2);
}

/// Read the discriminant off the front of a record without decoding its
/// fields: the front door every receiver goes through before it trusts the
/// body.
pub fn peek_tag(data: &Vec<u8>) -> (r: Option<u64>)
    ensures
        match r {
            Some(tag) => exists|h: Seq<u8>, c: nat, rest: Seq<u8>|
                data@ == h + mp_u64(tag) + rest && is_arr_hdr(h, c) && c >= 1,
            None => true,
        },
        forall|c: u32, tag: u64, rest: Seq<u8>|
            #![trigger mp_arr_hdr(c as nat), mp_u64(tag), rest.len()]
            c >= 1 && data@ == mp_arr_hdr(c as nat) + mp_u64(tag) + rest ==> r == Some(tag),
{
    proof {
        broadcast use lemma_be_bytes_len;

        assert forall|c: u32, tag: u64, rest: Seq<u8>|
            #![trigger mp_arr_hdr(c as nat), mp_u64(tag), rest.len()]
            c >= 1 && data@ == mp_arr_hdr(c as nat) + mp_u64(tag) + rest implies {
            &&& data@.len() >= mp_arr_hdr(c as nat).len() + 9
            &&& data@.subrange(0, mp_arr_hdr(c as nat).len() as int) == mp_arr_hdr(c as nat)
            &&& data@.subrange(
                mp_arr_hdr(c as nat).len() as int,
                mp_arr_hdr(c as nat).len() as int + 9,
            ) == mp_u64(tag)
        } by {
            assert(data@.subrange(0, mp_arr_hdr(c as nat).len() as int) =~= mp_arr_hdr(c as nat));
            assert(data@.subrange(mp_arr_hdr(c as nat).len() as int, mp_arr_hdr(c as nat).len() as int + 9)
                =~= mp_u64(tag));
        }
    }
    let n = data.len();
    let (count, rem1) = match mp_read_array_len(data, 0) {
        Some(p) => p,
        None => {
            return None;
        },
    };
    if count == 0 {
        return None;
    }
    let pos1 = n - rem1;
    let tag = match mp_read_u64(data, pos1) {
        Some(v) => v,
        None => {
            return None;
        },
    };
    proof {
        let h = data@.subrange(0, pos1 as int);
        let rest = data@.subrange(pos1 + 9, n as int);
        assert(data@ =~= h + mp_u64(tag) + rest);
    }
    Some(tag)
}

} // verus!
