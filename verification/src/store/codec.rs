//! The document format that records are persisted in: a two-element
//! document holding the string fields `url` and `key`, in that order. The
//! field names are part of the persisted schema and must be kept exactly
//! for compatibility with stored data.
//!
//! Layout, as in a BSON document: a little-endian `int32` with the total
//! byte length of the document, one string element per field (a `0x02` tag,
//! the NUL-terminated field name, a little-endian `int32` holding the
//! field's byte length plus one, the field's UTF-8 bytes, a NUL), and a
//! final NUL.

use vstd::prelude::*;
use vstd::slice::{slice_subrange, slice_to_vec};
use vstd::string::StrSliceExecFns;
use vstd::utf8::{
    decode_utf8, encode_utf8, encode_utf8_decode_utf8, encode_utf8_valid_utf8, valid_utf8,
};

use crate::model;
use crate::model::url::UrlView;
use crate::text::bytes_to_string;

verus! {

/// The largest combined byte length of the two fields that a document may
/// hold: the format's length prefix is a signed 32-bit count.
pub const MAX_FIELD_BYTES: usize = 0x7fffff00;

/// The four bytes of `n` in little-endian order.
pub open spec fn le32(n: int) -> Seq<u8>
    recommends
        0 <= n < 0x100000000,
{
    seq![
        (n % 256) as u8,
        ((n / 256) % 256) as u8,
        ((n / 65536) % 256) as u8,
        ((n / 16777216) % 256) as u8,
    ]
}

/// The number held by the four bytes at `i` in little-endian order.
pub open spec fn read_le32(b: Seq<u8>, i: int) -> int
    recommends
        0 <= i,
        i + 4 <= b.len(),
{
    b[i] + 256 * (b[i + 1] + 256 * (b[i + 2] + 256 * b[i + 3]))
}

/// Reading back the four little-endian bytes of `n` yields `n`.
proof fn lemma_le32_read(n: int)
    requires
        0 <= n < 0x100000000,
    ensures
        n % 256 + 256 * ((n / 256) % 256 + 256 * ((n / 65536) % 256 + 256 * ((n / 16777216)
            % 256))) == n,
{
    assert(n % 256 + 256 * ((n / 256) % 256 + 256 * ((n / 65536) % 256 + 256 * ((n / 16777216)
        % 256))) == n) by (nonlinear_arith)
        requires
            0 <= n < 0x100000000,
    ;
}

/// The document holding the byte sequences `ub` and `kb` as its `url` and
/// `key` fields.
pub open spec fn spec_doc(ub: Seq<u8>, kb: Seq<u8>) -> Seq<u8> {
    le32(25 + ub.len() + kb.len() as int) + seq![2u8, 117u8, 114u8, 108u8, 0u8] + le32(
        ub.len() + 1 as int,
    ) + ub
        + seq![0u8] + seq![2u8, 107u8, 101u8, 121u8, 0u8] + le32(kb.len() + 1 as int) + kb + seq![
        0u8,
        0u8,
    ]
}

/// The document a record is persisted as: both fields encoded as UTF-8.
pub open spec fn spec_encode_record(v: UrlView) -> Seq<u8> {
    spec_doc(encode_utf8(v.url), encode_utf8(v.key))
}

/// The two byte fields of a well-formed document, or nothing when any part
/// of the layout is off.
pub open spec fn spec_parse_doc(b: Seq<u8>) -> Option<(Seq<u8>, Seq<u8>)> {
    if b.len() < 25 {
        None
    } else if read_le32(b, 0) != b.len() {
        None
    } else if !(b[4] == 2 && b[5] == 117 && b[6] == 114 && b[7] == 108 && b[8] == 0) {
        None
    } else if read_le32(b, 9) < 1 || read_le32(b, 9) - 1 > b.len() - 25 {
        None
    } else {
        let ulen = read_le32(b, 9) - 1;
        let q = 14 + ulen;
        if b[13 + ulen] != 0 {
            None
        } else if !(b[q] == 2 && b[q + 1] == 107 && b[q + 2] == 101 && b[q + 3] == 121 && b[q + 4]
            == 0) {
            None
        } else if read_le32(b, q + 5) < 1 || q + 10 + read_le32(b, q + 5) != b.len() {
            None
        } else {
            let klen = read_le32(b, q + 5) - 1;
            if b[q + 9 + klen] != 0 || b[q + 10 + klen] != 0 {
                None
            } else {
                Some((b.subrange(13, 13 + ulen), b.subrange(q + 9, q + 9 + klen)))
            }
        }
    }
}

/// The record fields a document decodes to: the two byte fields of a
/// well-formed document, each read back from UTF-8; nothing otherwise.
pub open spec fn spec_decode_record(b: Seq<u8>) -> Option<(Seq<char>, Seq<char>)> {
    match spec_parse_doc(b) {
        Some(p) => if valid_utf8(p.0) && valid_utf8(p.1) {
            Some((decode_utf8(p.0), decode_utf8(p.1)))
        } else {
            None
        },
        None => None,
    }
}

/// Appends the four bytes of `n` in little-endian order.
fn push_le32(out: &mut Vec<u8>, n: u32)
    ensures
        final(out)@ == old(out)@ + le32(n as int),
{
    out.push((n % 256) as u8);
    out.push(((n / 256) % 256) as u8);
    out.push(((n / 65536) % 256) as u8);
    out.push(((n / 16777216) % 256) as u8);
    proof {
        assert(out@ =~= old(out)@ + le32(n as int));
    }
}

/// Reads the four bytes at `i` back as a little-endian number.
fn read_le32_at(b: &Vec<u8>, i: usize) -> (r: u32)
    requires
        i + 4 <= b.len(),
    ensures
        r == read_le32(b@, i as int),
{
    b[i] as u32 + 256 * (b[i + 1] as u32) + 65536 * (b[i + 2] as u32) + 16777216 * (b[i + 3]
        as u32)
}

/// Serializes a record into the persistence format.
#[verifier::rlimit(50)]
pub fn encode_record(r: &model::url::Url) -> (out: Vec<u8>)
    requires
        encode_utf8(r@.url).len() + encode_utf8(r@.key).len() <= MAX_FIELD_BYTES,
    ensures
        out@ == spec_encode_record(r@),
{
    let mut ub = r.url().as_bytes_vec();
    let mut kb = r.key().as_bytes_vec();
    let ulen = ub.len();
    let klen = kb.len();
    let mut out: Vec<u8> = Vec::new();
    push_le32(&mut out, (25 + ulen + klen) as u32);
    out.push(2u8);
    out.push(117u8);
    out.push(114u8);
    out.push(108u8);
    out.push(0u8);
    push_le32(&mut out, (ulen + 1) as u32);
    out.append(&mut ub);
    out.push(0u8);
    out.push(2u8);
    out.push(107u8);
    out.push(101u8);
    out.push(121u8);
    out.push(0u8);
    push_le32(&mut out, (klen + 1) as u32);
    out.append(&mut kb);
    out.push(0u8);
    out.push(0u8);
    proof {
        assert(out@ =~= spec_encode_record(r@));
    }
    out
}

/// Deserializes a record from the persistence format: the stored record
/// when the bytes are a well-formed document whose fields are valid UTF-8,
/// nothing otherwise.
pub fn decode_record(bytes: &Vec<u8>) -> (r: Option<model::url::Url>)
    ensures
        spec_decode_record(bytes@) matches Some(v) ==> (r matches Some(rec) && rec@.url == v.0
            && rec@.key == v.1),
        spec_decode_record(bytes@) is None ==> r is None,
{
    let n = bytes.len();
    if n < 25 {
        return None;
    }
    let total = read_le32_at(bytes, 0);
    if total as usize != n {
        return None;
    }
    if !(bytes[4] == 2 && bytes[5] == 117 && bytes[6] == 114 && bytes[7] == 108 && bytes[8] == 0) {
        return None;
    }
    let slen_u = read_le32_at(bytes, 9);
    if slen_u < 1 || slen_u as usize - 1 > n - 25 {
        return None;
    }
    let ulen = slen_u as usize - 1;
    let q = 14 + ulen;
    if bytes[13 + ulen] != 0 {
        return None;
    }
    if !(bytes[q] == 2 && bytes[q + 1] == 107 && bytes[q + 2] == 101 && bytes[q + 3] == 121
        && bytes[q + 4] == 0) {
        return None;
    }
    let slen_k = read_le32_at(bytes, q + 5);
    if slen_k < 1 || slen_k as usize != n - q - 10 {
        return None;
    }
    let klen = slen_k as usize - 1;
    if bytes[q + 9 + klen] != 0 || bytes[q + 10 + klen] != 0 {
        return None;
    }
    let ubytes = slice_to_vec(slice_subrange(bytes.as_slice(), 13, 13 + ulen));
    let kbytes = slice_to_vec(slice_subrange(bytes.as_slice(), q + 9, q + 9 + klen));
    let url = match bytes_to_string(ubytes) {
        Some(s) => s,
        None => {
            return None;
        },
    };
    let key = match bytes_to_string(kbytes) {
        Some(s) => s,
        None => {
            return None;
        },
    };
    Some(model::url::Url::new(url.as_str(), key.as_str()))
}

/// Law: the persistence format round-trips. Parsing the document built from
/// any two byte fields gives those fields back.
#[verifier::rlimit(100)]
pub proof fn lemma_parse_of_doc(ub: Seq<u8>, kb: Seq<u8>)
    requires
        ub.len() + kb.len() <= MAX_FIELD_BYTES,
    ensures
        spec_parse_doc(spec_doc(ub, kb)) == Some((ub, kb)),
{
    let b = spec_doc(ub, kb);
    let total = 25 + ub.len() + kb.len();
    let ulen = ub.len() as int;
    let klen = kb.len() as int;
    let q = 14 + ulen;
    assert(b.len() == total);
    assert(b[0] == (total as int % 256) as u8);
    assert(b[1] == ((total as int / 256) % 256) as u8);
    assert(b[2] == ((total as int / 65536) % 256) as u8);
    assert(b[3] == ((total as int / 16777216) % 256) as u8);
    lemma_le32_read(total as int);
    assert(read_le32(b, 0) == total);
    assert(b[4] == 2 && b[5] == 117 && b[6] == 114 && b[7] == 108 && b[8] == 0);
    lemma_le32_read(ulen + 1);
    assert(read_le32(b, 9) == ulen + 1);
    assert(b[13 + ulen] == 0);
    assert(b[q] == 2 && b[q + 1] == 107 && b[q + 2] == 101 && b[q + 3] == 121 && b[q + 4] == 0);
    lemma_le32_read(klen + 1);
    assert(read_le32(b, q + 5) == klen + 1);
    assert(b[q + 9 + klen] == 0 && b[q + 10 + klen] == 0);
    assert(b.subrange(13, 13 + ulen) =~= ub);
    assert(b.subrange(q + 9, q + 9 + klen) =~= kb);
}

/// Law: a record round-trips through the persistence format. Serializing
/// any record and deserializing the result yields a record equal to it in
/// both fields.
pub proof fn lemma_record_round_trip(v: UrlView)
    requires
        encode_utf8(v.url).len() + encode_utf8(v.key).len() <= MAX_FIELD_BYTES,
    ensures
        spec_decode_record(spec_encode_record(v)) == Some((v.url, v.key)),
{
    lemma_parse_of_doc(encode_utf8(v.url), encode_utf8(v.key));
    encode_utf8_valid_utf8(v.url);
    encode_utf8_valid_utf8(v.key);
    encode_utf8_decode_utf8(v.url);
    encode_utf8_decode_utf8(v.key);
}

} // verus!
