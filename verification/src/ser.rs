//! Primitive layer of the wire format: big-endian integers, variable-length
//! size prefixes, raw byte runs and length-prefixed UTF-8 strings.
//!
//! Every primitive has a specification-level encoder returning the exact byte
//! sequence, a specification-level parser returning the value and the number
//! of bytes consumed, and lemmas showing that parsing an encoding (followed by
//! arbitrary further bytes) yields the original value.

use vstd::prelude::*;
use vstd::slice::{slice_subrange, slice_to_vec};
use vstd::string::StrSliceExecFns;
use vstd::utf8::{decode_utf8, encode_utf8, encode_utf8_decode_utf8, encode_utf8_valid_utf8,
    valid_utf8};

verus! {

// ---------------------------------------------------------------------------
// Specification encoders
// ---------------------------------------------------------------------------

/// Big-endian encoding of a `u16`: two bytes, most significant first.
pub open spec fn enc_be_u16(n: u16) -> Seq<u8> {
    seq![(n / 0x100) as u8, (n % 0x100) as u8]
}

/// Big-endian encoding of a `u32` as its two big-endian `u16` halves.
pub open spec fn enc_be_u32(n: u32) -> Seq<u8> {
    enc_be_u16((n / 0x10000) as u16) + enc_be_u16((n % 0x10000) as u16)
}

/// Big-endian encoding of a `u64` as its two big-endian `u32` halves.
pub open spec fn enc_be_u64(n: u64) -> Seq<u8> {
    enc_be_u32((n / 0x100000000) as u32) + enc_be_u32((n % 0x100000000) as u32)
}

/// The canonical variable-length size encoding: one byte below 0xFD,
/// otherwise a one-byte marker followed by the smallest big-endian integer
/// that holds the value.
pub open spec fn enc_bigsize(n: u64) -> Seq<u8> {
    if n < 0xFD {
        seq![n as u8]
    } else if n <= 0xFFFF {
        seq![0xFDu8] + enc_be_u16(n as u16)
    } else if n <= 0xFFFFFFFF {
        seq![0xFEu8] + enc_be_u32(n as u32)
    } else {
        seq![0xFFu8] + enc_be_u64(n)
    }
}

// ---------------------------------------------------------------------------
// Specification parsers
//
// A parser takes the remaining input and returns the parsed value together
// with the number of bytes consumed, or `None` if the input does not begin
// with a valid encoding.
// ---------------------------------------------------------------------------

/// Parse one byte.
pub open spec fn parse_u8(s: Seq<u8>) -> Option<(u8, int)> {
    if s.len() >= 1 {
        Some((s[0], 1int))
    } else {
        None
    }
}

/// Parse a big-endian `u16`.
pub open spec fn parse_be_u16(s: Seq<u8>) -> Option<(u16, int)> {
    if s.len() >= 2 {
        Some(((s[0] as u16 * 0x100 + s[1] as u16) as u16, 2int))
    } else {
        None
    }
}

/// Parse a big-endian `u32`.
pub open spec fn parse_be_u32(s: Seq<u8>) -> Option<(u32, int)> {
    match parse_be_u16(s) {
        Some((hi, _)) => match parse_be_u16(s.skip(2)) {
            Some((lo, _)) => Some(((hi as u32 * 0x10000 + lo as u32) as u32, 4int)),
            None => None,
        },
        None => None,
    }
}

/// Parse a big-endian `u64`.
pub open spec fn parse_be_u64(s: Seq<u8>) -> Option<(u64, int)> {
    match parse_be_u32(s) {
        Some((hi, _)) => match parse_be_u32(s.skip(4)) {
            Some((lo, _)) => Some(((hi as u64 * 0x100000000 + lo as u64) as u64, 8int)),
            None => None,
        },
        None => None,
    }
}

/// Parse a variable-length size prefix, rejecting non-canonical encodings.
pub open spec fn parse_bigsize(s: Seq<u8>) -> Option<(u64, int)> {
    if s.len() < 1 {
        None
    } else if s[0] < 0xFD {
        Some((s[0] as u64, 1int))
    } else if s[0] == 0xFD {
        match parse_be_u16(s.skip(1)) {
            Some((v, _)) => if v >= 0xFD {
                Some((v as u64, 3int))
            } else {
                None
            },
            None => None,
        }
    } else if s[0] == 0xFE {
        match parse_be_u32(s.skip(1)) {
            Some((v, _)) => if v >= 0x10000 {
                Some((v as u64, 5int))
            } else {
                None
            },
            None => None,
        }
    } else {
        match parse_be_u64(s.skip(1)) {
            Some((v, _)) => if v >= 0x100000000 {
                Some((v, 9int))
            } else {
                None
            },
            None => None,
        }
    }
}

// ---------------------------------------------------------------------------
// Round-trip lemmas: parsing an encoding followed by anything yields the
// encoded value and consumes exactly the encoding.
// ---------------------------------------------------------------------------

pub proof fn lemma_parse_be_u16(n: u16, rest: Seq<u8>)
    ensures
        parse_be_u16(enc_be_u16(n) + rest) == Some((n, 2int)),
{
    let s = enc_be_u16(n) + rest;
    assert(s[0] == (n / 0x100) as u8);
    assert(s[1] == (n % 0x100) as u8);
    assert(n / 0x100 <= 0xFF);
    assert(s[0] as u16 * 0x100 + s[1] as u16 == n);
}

pub proof fn lemma_parse_be_u32(n: u32, rest: Seq<u8>)
    ensures
        parse_be_u32(enc_be_u32(n) + rest) == Some((n, 4int)),
{
    let s = enc_be_u32(n) + rest;
    let hi = (n / 0x10000) as u16;
    let lo = (n % 0x10000) as u16;
    assert(s =~= enc_be_u16(hi) + (enc_be_u16(lo) + rest));
    lemma_parse_be_u16(hi, enc_be_u16(lo) + rest);
    assert(s.skip(2) =~= enc_be_u16(lo) + rest);
    lemma_parse_be_u16(lo, rest);
    assert(hi as u32 * 0x10000 + lo as u32 == n);
}

pub proof fn lemma_parse_be_u64(n: u64, rest: Seq<u8>)
    ensures
        parse_be_u64(enc_be_u64(n) + rest) == Some((n, 8int)),
{
    let s = enc_be_u64(n) + rest;
    let hi = (n / 0x100000000) as u32;
    let lo = (n % 0x100000000) as u32;
    assert(s =~= enc_be_u32(hi) + (enc_be_u32(lo) + rest));
    lemma_parse_be_u32(hi, enc_be_u32(lo) + rest);
    assert(s.skip(4) =~= enc_be_u32(lo) + rest);
    lemma_parse_be_u32(lo, rest);
    assert(hi as u64 * 0x100000000 + lo as u64 == n);
}

pub proof fn lemma_parse_bigsize(n: u64, rest: Seq<u8>)
    ensures
        parse_bigsize(enc_bigsize(n) + rest) == Some((n, enc_bigsize(n).len() as int)),
{
    let s = enc_bigsize(n) + rest;
    if n < 0xFD {
        assert(s[0] == n as u8);
    } else if n <= 0xFFFF {
        assert(s[0] == 0xFDu8);
        assert(s.skip(1) =~= enc_be_u16(n as u16) + rest);
        lemma_parse_be_u16(n as u16, rest);
    } else if n <= 0xFFFFFFFF {
        assert(s[0] == 0xFEu8);
        assert(s.skip(1) =~= enc_be_u32(n as u32) + rest);
        lemma_parse_be_u32(n as u32, rest);
    } else {
        assert(s[0] == 0xFFu8);
        assert(s.skip(1) =~= enc_be_u64(n) + rest);
        lemma_parse_be_u64(n, rest);
    }
}

// ---------------------------------------------------------------------------
// Executable writers: append an encoding to an output buffer.
// ---------------------------------------------------------------------------

pub fn write_be_u16(out: &mut Vec<u8>, n: u16)
    ensures
        final(out)@ == old(out)@ + enc_be_u16(n),
{
    out.push((n / 0x100) as u8);
    out.push((n % 0x100) as u8);
    assert(final(out)@ =~= old(out)@ + enc_be_u16(n));
}

pub fn write_be_u32(out: &mut Vec<u8>, n: u32)
    ensures
        final(out)@ == old(out)@ + enc_be_u32(n),
{
    write_be_u16(out, (n / 0x10000) as u16);
    write_be_u16(out, (n % 0x10000) as u16);
    assert(final(out)@ =~= old(out)@ + enc_be_u32(n));
}

pub fn write_be_u64(out: &mut Vec<u8>, n: u64)
    ensures
        final(out)@ == old(out)@ + enc_be_u64(n),
{
    write_be_u32(out, (n / 0x100000000) as u32);
    write_be_u32(out, (n % 0x100000000) as u32);
    assert(final(out)@ =~= old(out)@ + enc_be_u64(n));
}

pub fn write_bigsize(out: &mut Vec<u8>, n: u64)
    ensures
        final(out)@ == old(out)@ + enc_bigsize(n),
{
    if n < 0xFD {
        out.push(n as u8);
        assert(final(out)@ =~= old(out)@ + enc_bigsize(n));
    } else if n <= 0xFFFF {
        out.push(0xFD);
        write_be_u16(out, n as u16);
        assert(final(out)@ =~= old(out)@ + enc_bigsize(n));
    } else if n <= 0xFFFFFFFF {
        out.push(0xFE);
        write_be_u32(out, n as u32);
        assert(final(out)@ =~= old(out)@ + enc_bigsize(n));
    } else {
        out.push(0xFF);
        write_be_u64(out, n);
        assert(final(out)@ =~= old(out)@ + enc_bigsize(n));
    }
}

// ---------------------------------------------------------------------------
// Executable readers: read at a position, returning the value and the
// position after it. Each reader agrees exactly with its spec parser applied
// to the input from that position on.
// ---------------------------------------------------------------------------

pub fn read_u8(buf: &Vec<u8>, pos: usize) -> (r: Option<(u8, usize)>)
    requires
        pos <= buf@.len(),
    ensures
        r is Some <==> parse_u8(buf@.skip(pos as int)) is Some,
        r matches Some((v, q)) ==> parse_u8(buf@.skip(pos as int)) == Some((v, q - pos)),
{
    if pos < buf.len() {
        let v = buf[pos];
        assert(buf@.skip(pos as int)[0] == buf@[pos as int]);
        Some((v, pos + 1))
    } else {
        None
    }
}

pub fn read_be_u16(buf: &Vec<u8>, pos: usize) -> (r: Option<(u16, usize)>)
    requires
        pos <= buf@.len(),
    ensures
        r is Some <==> parse_be_u16(buf@.skip(pos as int)) is Some,
        r matches Some((v, q)) ==> parse_be_u16(buf@.skip(pos as int)) == Some((v, q - pos)),
{
    let s = Ghost(buf@.skip(pos as int));
    if buf.len() >= 2 && pos <= buf.len() - 2 {
        let b0 = buf[pos];
        let b1 = buf[pos + 1];
        assert(s@[0] == buf@[pos as int] && s@[1] == buf@[pos as int + 1]);
        let v: u16 = b0 as u16 * 0x100 + b1 as u16;
        Some((v, pos + 2))
    } else {
        None
    }
}

pub fn read_be_u32(buf: &Vec<u8>, pos: usize) -> (r: Option<(u32, usize)>)
    requires
        pos <= buf@.len(),
    ensures
        r is Some <==> parse_be_u32(buf@.skip(pos as int)) is Some,
        r matches Some((v, q)) ==> parse_be_u32(buf@.skip(pos as int)) == Some((v, q - pos)),
{
    let s = Ghost(buf@.skip(pos as int));
    match read_be_u16(buf, pos) {
        None => None,
        Some((hi, p1)) => match read_be_u16(buf, p1) {
            None => {
                assert(s@.skip(2) =~= buf@.skip(p1 as int));
                None
            },
            Some((lo, p2)) => {
                assert(s@.skip(2) =~= buf@.skip(p1 as int));
                let v: u32 = hi as u32 * 0x10000 + lo as u32;
                Some((v, p2))
            },
        },
    }
}

pub fn read_be_u64(buf: &Vec<u8>, pos: usize) -> (r: Option<(u64, usize)>)
    requires
        pos <= buf@.len(),
    ensures
        r is Some <==> parse_be_u64(buf@.skip(pos as int)) is Some,
        r matches Some((v, q)) ==> parse_be_u64(buf@.skip(pos as int)) == Some((v, q - pos)),
{
    let s = Ghost(buf@.skip(pos as int));
    match read_be_u32(buf, pos) {
        None => None,
        Some((hi, p1)) => match read_be_u32(buf, p1) {
            None => {
                assert(s@.skip(4) =~= buf@.skip(p1 as int));
                None
            },
            Some((lo, p2)) => {
                assert(s@.skip(4) =~= buf@.skip(p1 as int));
                let v: u64 = hi as u64 * 0x100000000 + lo as u64;
                Some((v, p2))
            },
        },
    }
}

pub fn read_bigsize(buf: &Vec<u8>, pos: usize) -> (r: Option<(u64, usize)>)
    requires
        pos <= buf@.len(),
    ensures
        r is Some <==> parse_bigsize(buf@.skip(pos as int)) is Some,
        r matches Some((v, q)) ==> parse_bigsize(buf@.skip(pos as int)) == Some((v, q - pos)),
{
    let s = Ghost(buf@.skip(pos as int));
    match read_u8(buf, pos) {
        None => None,
        Some((tag, p1)) => {
            assert(s@[0] == tag);
            if tag < 0xFD {
                Some((tag as u64, p1))
            } else if tag == 0xFD {
                match read_be_u16(buf, p1) {
                    None => {
                        assert(s@.skip(1) =~= buf@.skip(p1 as int));
                        None
                    },
                    Some((v, p2)) => {
                        assert(s@.skip(1) =~= buf@.skip(p1 as int));
                        if v >= 0xFD {
                            Some((v as u64, p2))
                        } else {
                            None
                        }
                    },
                }
            } else if tag == 0xFE {
                match read_be_u32(buf, p1) {
                    None => {
                        assert(s@.skip(1) =~= buf@.skip(p1 as int));
                        None
                    },
                    Some((v, p2)) => {
                        assert(s@.skip(1) =~= buf@.skip(p1 as int));
                        if v >= 0x10000 {
                            Some((v as u64, p2))
                        } else {
                            None
                        }
                    },
                }
            } else {
                match read_be_u64(buf, p1) {
                    None => {
                        assert(s@.skip(1) =~= buf@.skip(p1 as int));
                        None
                    },
                    Some((v, p2)) => {
                        assert(s@.skip(1) =~= buf@.skip(p1 as int));
                        if v >= 0x100000000 {
                            Some((v, p2))
                        } else {
                            None
                        }
                    },
                }
            }
        },
    }
}

/// Splitting a concatenation at the boundary recovers both halves.
pub proof fn lemma_split_concat<T>(a: Seq<T>, b: Seq<T>)
    ensures
        (a + b).skip(a.len() as int) == b,
        (a + b).subrange(0, a.len() as int) == a,
{
    assert((a + b).skip(a.len() as int) =~= b);
    assert((a + b).subrange(0, a.len() as int) =~= a);
}

// ---------------------------------------------------------------------------
// Byte runs and length-prefixed UTF-8 strings
// ---------------------------------------------------------------------------

/// Parse a run of exactly `n` raw bytes.
pub open spec fn parse_bytes(s: Seq<u8>, n: int) -> Option<(Seq<u8>, int)> {
    if 0 <= n <= s.len() {
        Some((s.subrange(0, n), n))
    } else {
        None
    }
}

/// A string on the wire: its UTF-8 byte length as a size prefix, then the
/// UTF-8 bytes.
pub open spec fn enc_str(t: Seq<char>) -> Seq<u8> {
    enc_bigsize(encode_utf8(t).len() as u64) + encode_utf8(t)
}

/// Parse a length-prefixed UTF-8 string. Strings longer than the wire
/// format's strings can be are rejected.
pub open spec fn parse_str(s: Seq<u8>) -> Option<(Seq<char>, int)> {
    match parse_bigsize(s) {
        Some((len, k)) => if len <= 0xFFFFFFFF && k + len <= s.len() {
            let bytes = s.subrange(k, k + len as int);
            if valid_utf8(bytes) {
                Some((decode_utf8(bytes), k + len as int))
            } else {
                None
            }
        } else {
            None
        },
        None => None,
    }
}

pub proof fn lemma_parse_str(t: Seq<char>, rest: Seq<u8>)
    requires
        encode_utf8(t).len() <= 0xFFFFFFFF,
    ensures
        parse_str(enc_str(t) + rest) == Some((t, enc_str(t).len() as int)),
{
    let bytes = encode_utf8(t);
    let len = bytes.len() as u64;
    let s = enc_str(t) + rest;
    assert(s =~= enc_bigsize(len) + (bytes + rest));
    lemma_parse_bigsize(len, bytes + rest);
    let k = enc_bigsize(len).len() as int;
    assert(s.subrange(k, k + len as int) =~= bytes);
    encode_utf8_valid_utf8(t);
    encode_utf8_decode_utf8(t);
}

pub fn read_bytes(buf: &Vec<u8>, pos: usize, n: usize) -> (r: Option<(Vec<u8>, usize)>)
    requires
        pos <= buf@.len(),
    ensures
        r is Some <==> parse_bytes(buf@.skip(pos as int), n as int) is Some,
        r matches Some((v, q)) ==> v@ == buf@.subrange(pos as int, pos + n) && q == pos + n,
{
    if n <= buf.len() - pos {
        let sl = slice_subrange(buf.as_slice(), pos, pos + n);
        let v = slice_to_vec(sl);
        assert(v@ =~= buf@.skip(pos as int).subrange(0, n as int));
        Some((v, pos + n))
    } else {
        None
    }
}

/// Relies on `String::from_utf8`: it succeeds exactly on valid UTF-8 input
/// and decodes it to the string of the corresponding characters.
#[verifier::external_body]
pub(crate) fn string_from_utf8(bytes: Vec<u8>) -> (r: Option<String>)
    ensures
        r is Some <==> valid_utf8(bytes@),
        r matches Some(t) ==> t@ == decode_utf8(bytes@),
{
    String::from_utf8(bytes).ok()
}

pub fn write_str(out: &mut Vec<u8>, t: &String)
    ensures
        final(out)@ == old(out)@ + enc_str(t@),
{
    let mut bytes = t.as_str().as_bytes_vec();
    write_bigsize(out, bytes.len() as u64);
    out.append(&mut bytes);
    assert(final(out)@ =~= old(out)@ + enc_str(t@));
}

/// Parsing success means the parsed string is itself encodable: its UTF-8
/// form is what was consumed.
pub proof fn lemma_parse_str_wf(s: Seq<u8>)
    ensures
        parse_str(s) matches Some((t, k)) ==> encode_utf8(t).len() <= 0xFFFFFFFF && 0 < k
            <= s.len(),
{
    if parse_str(s) is Some {
        let (len, k) = parse_bigsize(s)->0;
        let bytes = s.subrange(k, k + len as int);
        vstd::utf8::decode_utf8_encode_utf8(bytes);
    }
}

pub fn read_str(buf: &Vec<u8>, pos: usize) -> (r: Option<(String, usize)>)
    requires
        pos <= buf@.len(),
    ensures
        r is Some <==> parse_str(buf@.skip(pos as int)) is Some,
        r matches Some((v, q)) ==> parse_str(buf@.skip(pos as int)) == Some((v@, q - pos)),
{
    let s = Ghost(buf@.skip(pos as int));
    match read_bigsize(buf, pos) {
        None => None,
        Some((len, p1)) => {
            let remaining = buf.len() - p1;
            if len > 0xFFFFFFFF || len > remaining as u64 {
                None
            } else {
                let n = len as usize;
                match read_bytes(buf, p1, n) {
                    None => None,
                    Some((bytes, p2)) => {
                        let ghost k = p1 - pos;
                        assert(bytes@ =~= s@.subrange(k as int, k + len as int));
                        match string_from_utf8(bytes) {
                            None => None,
                            Some(t) => Some((t, p2)),
                        }
                    },
                }
            }
        },
    }
}

} // verus!
