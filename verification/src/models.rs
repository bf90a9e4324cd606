//! Hex-string views of announcements, attestations and stored events, as
//! handed over language boundaries, and the request bodies of the oracle's
//! callers.

use vstd::prelude::*;
use vstd::string::{StrSliceExecFns, StringExecFns};
use vstd::utf8::{encode_utf8, valid_utf8};
use crate::error::{Error, JsError};
use crate::messages::{wf_str, EventDescriptor, EventDescriptorView, OracleAnnouncement,
    OracleAttestation, OracleAnnouncementView, OracleAttestationView};
use crate::storage::{OracleEventData, OracleEventDataView};
use crate::wire::{decode_announcement, decode_attestation, enc_announcement, enc_attestation,
    encode_announcement, encode_attestation, parse_announcement, parse_attestation};

verus! {

// ---------------------------------------------------------------------------
// Hex strings
// ---------------------------------------------------------------------------

/// The lowercase hex digit for a value below 16.
pub open spec fn hex_digit_char(n: u8) -> char {
    if n < 10 {
        ((0x30 + n) as u8) as char
    } else {
        ((0x57 + n) as u8) as char
    }
}

/// The lowercase hex rendering of a byte sequence, two digits per byte.
pub open spec fn hex_of(b: Seq<u8>) -> Seq<char>
    decreases b.len(),
{
    if b.len() == 0 {
        Seq::empty()
    } else {
        seq![hex_digit_char(b[0] / 16), hex_digit_char(b[0] % 16)] + hex_of(b.drop_first())
    }
}

/// The value of a hex digit character, lower or upper case; -1 when the
/// character is not a hex digit.
pub open spec fn hex_digit_val(c: char) -> int {
    if 0x30 <= c as u32 <= 0x39 {
        c as u32 - 0x30
    } else if 0x61 <= c as u32 <= 0x66 {
        c as u32 - 0x57
    } else if 0x41 <= c as u32 <= 0x46 {
        c as u32 - 0x37
    } else {
        -1
    }
}

/// Whether a string is a well-formed hex rendering: even length, hex digits
/// only.
pub open spec fn is_hex_str(s: Seq<char>) -> bool {
    &&& s.len() % 2 == 0
    &&& forall|i: int| 0 <= i < s.len() ==> hex_digit_val(#[trigger] s[i]) >= 0
}

/// The bytes a hex string stands for.
pub open spec fn hex_val_of(s: Seq<char>) -> Seq<u8>
    decreases s.len(),
{
    if s.len() < 2 {
        Seq::empty()
    } else {
        seq![(hex_digit_val(s[0]) * 16 + hex_digit_val(s[1])) as u8] + hex_val_of(s.skip(2))
    }
}

/// Relies on `hex::encode`: two lowercase hex digits per byte, in order.
#[verifier::external_body]
pub fn hex_encode(b: &Vec<u8>) -> (r: String)
    ensures
        r@ == hex_of(b@),
{
    hex::encode(b.as_slice())
}

/// Relies on `hex::decode`: succeeds exactly on even-length strings of hex
/// digits (either case) and returns the bytes they stand for.
#[verifier::external_body]
pub fn hex_decode(s: &String) -> (r: Option<Vec<u8>>)
    ensures
        r is Some <==> is_hex_str(s@),
        r matches Some(b) ==> b@ == hex_val_of(s@),
{
    hex::decode(s.as_str()).ok()
}

// ---------------------------------------------------------------------------
// Decimal rendering and binary parsing of numeric outcomes
// ---------------------------------------------------------------------------

/// The ASCII decimal digits of a nonnegative value.
pub open spec fn dec_bytes(n: int) -> Seq<u8>
    recommends
        n >= 0,
    decreases n,
{
    if n < 10 {
        seq![(0x30 + n) as u8]
    } else {
        dec_bytes(n / 10) + seq![(0x30 + n % 10) as u8]
    }
}

/// The ASCII decimal rendering of a signed value: a minus sign, then the
/// digits of its magnitude.
pub open spec fn dec_bytes_signed(v: int) -> Seq<u8> {
    if v < 0 {
        seq![0x2Du8] + dec_bytes(-v)
    } else {
        dec_bytes(v)
    }
}

/// ASCII bytes are valid UTF-8.
pub proof fn lemma_ascii_valid_utf8(bytes: Seq<u8>)
    requires
        forall|i: int| 0 <= i < bytes.len() ==> bytes[i] < 0x80,
    ensures
        valid_utf8(bytes),
    decreases bytes.len(),
{
    if bytes.len() > 0 {
        assert(vstd::utf8::is_leading_byte_width_1(bytes[0]));
        assert(vstd::utf8::pop_first_scalar(bytes) =~= bytes.subrange(1, bytes.len() as int));
        lemma_ascii_valid_utf8(bytes.subrange(1, bytes.len() as int));
    }
}

proof fn lemma_dec_bytes_ascii(n: int)
    requires
        n >= 0,
    ensures
        forall|i: int| 0 <= i < dec_bytes(n).len() ==> #[trigger] dec_bytes(n)[i] < 0x80,
    decreases n,
{
    if n >= 10 {
        lemma_dec_bytes_ascii(n / 10);
        assert forall|i: int| 0 <= i < dec_bytes(n).len() implies #[trigger] dec_bytes(n)[i]
            < 0x80 by {
            if i < dec_bytes(n / 10).len() {
                assert(dec_bytes(n)[i] == dec_bytes(n / 10)[i]);
            } else {
                assert(dec_bytes(n)[i] == (0x30 + n % 10) as u8);
            }
        }
    }
}

/// Render a signed value as its decimal string.
pub fn i64_to_dec_string(v: i64) -> (r: String)
    ensures
        encode_utf8(r@) == dec_bytes_signed(v as int),
{
    let mut mag: u64 = if v >= 0 {
        v as u64
    } else {
        (-(v as i128)) as u64
    };
    let ghost mag0 = mag;
    let mut digits: Vec<u8> = Vec::new();
    loop
        invariant_except_break
            dec_bytes(mag0 as int) =~= (if digits@.len() == 0 {
                dec_bytes(mag as int)
            } else {
                dec_bytes(mag as int) + digits@
            }),
        invariant
            forall|i: int| 0 <= i < digits@.len() ==> digits@[i] < 0x80,
        ensures
            digits@ == dec_bytes(mag0 as int),
        decreases mag,
    {
        let d: u8 = (mag % 10) as u8;
        digits.insert(0, 0x30 + d);
        mag = mag / 10;
        if mag == 0 {
            proof {
                assert(dec_bytes(mag0 as int) =~= digits@);
            }
            break ;
        }
        proof {
            assert(dec_bytes(mag0 as int) =~= dec_bytes(mag as int) + digits@);
        }
    }
    let mut bytes: Vec<u8> = Vec::new();
    if v < 0 {
        bytes.push(0x2D);
    }
    bytes.append(&mut digits);
    proof {
        assert(bytes@ =~= dec_bytes_signed(v as int));
        lemma_dec_bytes_ascii(mag0 as int);
        lemma_ascii_valid_utf8(bytes@);
    }
    match crate::ser::string_from_utf8(bytes) {
        Some(s) => {
            proof {
                vstd::utf8::decode_utf8_encode_utf8(dec_bytes_signed(v as int));
            }
            s
        },
        None => {
            assert(false);
            String::new()
        },
    }
}

/// Whether every character is a binary digit.
pub open spec fn is_binary_str(s: Seq<char>) -> bool {
    forall|i: int| 0 <= i < s.len() ==> s[i] == '0' || #[trigger] s[i] == '1'
}

/// The value of a string of binary digits, most significant first.
pub open spec fn binary_val(s: Seq<char>) -> int
    decreases s.len(),
{
    if s.len() == 0 {
        0
    } else {
        2 * binary_val(s.drop_last()) + (if s.last() == '1' {
            1int
        } else {
            0int
        })
    }
}

/// The signed value a numeric outcome string stands for: an optional sign,
/// then at least one binary digit.
pub open spec fn signed_binary_val(s: Seq<char>) -> Option<int> {
    if s.len() == 0 {
        None
    } else if s[0] == '+' {
        if s.len() > 1 && is_binary_str(s.skip(1)) {
            Some(binary_val(s.skip(1)))
        } else {
            None
        }
    } else if s[0] == '-' {
        if s.len() > 1 && is_binary_str(s.skip(1)) {
            Some(-binary_val(s.skip(1)))
        } else {
            None
        }
    } else if is_binary_str(s) {
        Some(binary_val(s))
    } else {
        None
    }
}

pub proof fn lemma_binary_val_nonneg(s: Seq<char>)
    ensures
        binary_val(s) >= 0,
    decreases s.len(),
{
    if s.len() > 0 {
        lemma_binary_val_nonneg(s.drop_last());
    }
}

/// A binary string's value is at least its prefix's value, and at least
/// twice it when the prefix is proper.
pub proof fn lemma_binary_val_take(s: Seq<char>, k: int)
    requires
        0 <= k <= s.len(),
    ensures
        binary_val(s) >= binary_val(s.take(k)),
        k < s.len() ==> binary_val(s) >= 2 * binary_val(s.take(k)),
    decreases s.len(),
{
    if k == s.len() {
        assert(s.take(k) =~= s);
    } else {
        assert(s.drop_last().take(k) =~= s.take(k));
        lemma_binary_val_nonneg(s.drop_last());
        lemma_binary_val_take(s.drop_last(), k);
        lemma_binary_val_nonneg(s.take(k));
    }
}

/// Parse a signed binary outcome string, rejecting values that do not fit a
/// 64-bit signed integer.
pub fn parse_signed_binary(s: &String) -> (r: Option<i64>)
    ensures
        r matches Some(v) ==> signed_binary_val(s@) == Some(v as int),
        r is None ==> (signed_binary_val(s@) is None || (signed_binary_val(s@) matches Some(n)
            && (n < -0x8000000000000000 || n > 0x7FFFFFFFFFFFFFFF))),
{
    let n = s.as_str().unicode_len();
    if n == 0 {
        return None;
    }
    let first = s.as_str().get_char(0);
    let negative = first == '-';
    let start: usize = if first == '+' || first == '-' {
        1
    } else {
        0
    };
    if n == start {
        return None;
    }
    let mut mag: u64 = 0;
    let mut i: usize = start;
    let ghost digits = s@.skip(start as int);
    proof {
        if start == 0 {
            assert(digits =~= s@);
        }
    }
    while i < n
        invariant
            start <= i <= n,
            n == s@.len(),
            start == 0 || start == 1,
            start == 1 ==> (s@[0] == '+' || s@[0] == '-') && n > 1,
            start == 0 ==> s@[0] != '+' && s@[0] != '-',
            negative == (s@[0] == '-'),
            digits == s@.skip(start as int),
            is_binary_str(digits.take(i - start)),
            mag == binary_val(digits.take(i - start)),
            mag <= 0x8000000000000000u64,
        decreases n - i,
    {
        let c = s.as_str().get_char(i);
        let ghost k = i - start;
        if c != '0' && c != '1' {
            proof {
                assert(digits[k] == c);
                assert(!is_binary_str(digits));
            }
            return None;
        }
        let bit: u64 = if c == '1' {
            1
        } else {
            0
        };
        proof {
            assert(digits.take(k + 1).drop_last() =~= digits.take(k));
            assert(digits.take(k + 1).last() == c);
            assert(binary_val(digits.take(k + 1)) == 2 * mag + bit);
        }
        if mag > 0x4000000000000000u64 || (mag == 0x4000000000000000u64 && (bit == 1 || i + 1
            < n)) {
            proof {
                if start == 0 {
                    assert(digits =~= s@);
                }
                if signed_binary_val(s@) is Some {
                    assert(is_binary_str(digits));
                    assert(digits.take(digits.len() as int) =~= digits);
                    if mag > 0x4000000000000000u64 {
                        lemma_binary_val_take(digits, k);
                        assert(binary_val(digits) >= 2 * mag);
                    } else if bit == 1 {
                        lemma_binary_val_take(digits, k + 1);
                        assert(binary_val(digits) >= 2 * mag + 1);
                    } else {
                        lemma_binary_val_take(digits, k + 1);
                        assert(binary_val(digits) >= 2 * (2 * mag));
                    }
                    assert(binary_val(digits) > 0x8000000000000000);
                    if start == 1 && s@[0] == '+' {
                        assert(signed_binary_val(s@) == Some(binary_val(digits)));
                    } else if start == 1 {
                        assert(signed_binary_val(s@) == Some(-binary_val(digits)));
                    } else {
                        assert(signed_binary_val(s@) == Some(binary_val(digits)));
                    }
                }
            }
            return None;
        }
        mag = mag * 2 + bit;
        i += 1;
    }
    proof {
        assert(digits.take(n - start) =~= digits);
    }
    if negative {
        assert(signed_binary_val(s@) == Some(-(mag as int)));
        Some((-(mag as i128)) as i64)
    } else {
        if mag > 0x7FFFFFFFFFFFFFFFu64 {
            return None;
        }
        Some(mag as i64)
    }
}

// ---------------------------------------------------------------------------
// Joining outcome strings
// ---------------------------------------------------------------------------

/// The concatenation of a sequence of strings.
pub open spec fn concat_strs(xs: Seq<Seq<char>>) -> Seq<char>
    decreases xs.len(),
{
    if xs.len() == 0 {
        Seq::empty()
    } else {
        xs[0] + concat_strs(xs.drop_first())
    }
}

pub proof fn lemma_concat_strs_push(xs: Seq<Seq<char>>, x: Seq<char>)
    ensures
        concat_strs(xs.push(x)) == concat_strs(xs) + x,
    decreases xs.len(),
{
    if xs.len() == 0 {
        assert(xs.push(x).drop_first() =~= Seq::<Seq<char>>::empty());
        assert(xs.push(x)[0] == x);
        assert(concat_strs(Seq::<Seq<char>>::empty()) =~= Seq::<char>::empty());
        assert(concat_strs(xs.push(x)) =~= concat_strs(xs) + x);
    } else {
        assert(xs.push(x).drop_first() =~= xs.drop_first().push(x));
        lemma_concat_strs_push(xs.drop_first(), x);
        assert(concat_strs(xs.push(x)) =~= concat_strs(xs) + x);
    }
}

/// Join a list of strings into one, in order, with nothing between.
pub fn concat_strings(xs: &Vec<String>) -> (r: String)
    ensures
        r@ == concat_strs(xs.deep_view()),
{
    let mut out = String::new();
    let mut i: usize = 0;
    assert(concat_strs(xs.deep_view().take(0)) =~= Seq::<char>::empty());
    while i < xs.len()
        invariant
            i <= xs.len(),
            out@ == concat_strs(xs.deep_view().take(i as int)),
        decreases xs.len() - i,
    {
        out.append(xs[i].as_str());
        proof {
            let s = xs.deep_view();
            assert(s[i as int] == xs@[i as int]@);
            lemma_concat_strs_push(s.take(i as int), s[i as int]);
            assert(s.take(i as int).push(s[i as int]) =~= s.take(i as int + 1));
        }
        i += 1;
    }
    proof {
        assert(xs.deep_view().take(xs@.len() as int) =~= xs.deep_view());
    }
    out
}

// ---------------------------------------------------------------------------
// Request bodies
// ---------------------------------------------------------------------------

/// Body of a request to announce an enumerated event.
#[derive(Debug, Clone)]
pub struct CreateEnumEvent {
    /// The user-chosen event name, unique within the store.
    pub event_id: String,
    /// The possible outcomes.
    pub outcomes: Vec<String>,
    /// The expected maturity, as a unix epoch.
    pub event_maturity_epoch: u32,
}

/// Body of a request to attest to an enumerated event.
#[derive(Debug, Clone)]
pub struct SignEnumEvent {
    /// The store-assigned event id.
    pub id: u32,
    /// The outcome to attest to.
    pub outcome: String,
}

/// The schema checks a create request must pass before it reaches the
/// oracle: at least one outcome, and a maturity not in the past.
pub fn validate_create_request(body: &CreateEnumEvent, current_epoch: u32) -> (r: bool)
    ensures
        r == (body.outcomes@.len() > 0 && body.event_maturity_epoch >= current_epoch),
{
    body.outcomes.len() > 0 && body.event_maturity_epoch >= current_epoch
}

// ---------------------------------------------------------------------------
// Hex-string models
// ---------------------------------------------------------------------------

/// An announcement rendered as hex strings.
#[derive(Debug, Clone)]
pub struct Announcement {
    /// Hex of the announcement signature.
    pub announcement_signature: String,
    /// Hex of the oracle's X-only public key.
    pub oracle_public_key: String,
    /// Hex of each nonce point.
    pub oracle_nonces: Vec<String>,
    /// The expected maturity, as a unix epoch.
    pub event_maturity_epoch: u32,
    /// The announced outcomes.
    pub outcomes: Vec<String>,
    /// The event's name.
    pub event_id: String,
}

/// Hex renderings of a list of byte vectors.
fn hex_encode_all(v: &Vec<Vec<u8>>) -> (r: Vec<String>)
    ensures
        r.deep_view().len() == v.deep_view().len(),
        forall|i: int|
            0 <= i < v.deep_view().len() ==> r.deep_view()[i] == hex_of(
                #[trigger] v.deep_view()[i],
            ),
{
    let mut out: Vec<String> = Vec::new();
    let mut i: usize = 0;
    while i < v.len()
        invariant
            i <= v.len(),
            out.deep_view().len() == i,
            forall|k: int|
                0 <= k < i ==> out.deep_view()[k] == hex_of(#[trigger] v.deep_view()[k]),
        decreases v.len() - i,
    {
        let ghost out0 = out.deep_view();
        out.push(hex_encode(&v[i]));
        proof {
            assert(v.deep_view()[i as int] == v@[i as int]@);
            assert(out.deep_view() =~~= out0.push(hex_of(v.deep_view()[i as int])));
        }
        i += 1;
    }
    out
}

impl Announcement {
    /// Render an enumerated announcement as hex strings; fails on a numeric
    /// announcement, which this rendering does not cover.
    pub fn from_announcement(value: &OracleAnnouncement) -> (r: Result<Announcement, Error>)
        ensures
            r is Ok <==> value@.oracle_event.event_descriptor is EnumEvent,
            r matches Ok(a) ==> ({
                &&& value@.oracle_event.event_descriptor matches EventDescriptorView::EnumEvent(
                    e,
                ) && a.outcomes.deep_view() == e.outcomes
                &&& a.announcement_signature@ == hex_of(value@.announcement_signature)
                &&& a.oracle_public_key@ == hex_of(value@.oracle_public_key)
                &&& a.oracle_nonces.deep_view().len() == value@.oracle_event.oracle_nonces.len()
                &&& forall|i: int|
                    0 <= i < value@.oracle_event.oracle_nonces.len()
                        ==> a.oracle_nonces.deep_view()[i] == hex_of(
                        #[trigger] value@.oracle_event.oracle_nonces[i],
                    )
                &&& a.event_maturity_epoch == value@.oracle_event.event_maturity_epoch
                &&& a.event_id@ == value@.oracle_event.event_id
            }),
    {
        let outcomes = match &value.oracle_event.event_descriptor {
            EventDescriptor::EnumEvent(e) => crate::messages::copy_strings(&e.outcomes),
            EventDescriptor::DigitDecompositionEvent(_) => {
                return Err(Error::InvalidArgument);
            },
        };
        Ok(
            Announcement {
                announcement_signature: hex_encode(&value.announcement_signature),
                oracle_public_key: hex_encode(&value.oracle_public_key),
                oracle_nonces: hex_encode_all(&value.oracle_event.oracle_nonces),
                event_maturity_epoch: value.oracle_event.event_maturity_epoch,
                outcomes,
                event_id: value.oracle_event.event_id.clone(),
            },
        )
    }

    /// Hex of the announcement signature.
    pub fn announcement_signature(&self) -> (r: String)
        ensures
            r@ == self.announcement_signature@,
    {
        self.announcement_signature.clone()
    }

    /// Hex of the oracle's X-only public key.
    pub fn oracle_public_key(&self) -> (r: String)
        ensures
            r@ == self.oracle_public_key@,
    {
        self.oracle_public_key.clone()
    }

    /// Hex of each nonce point.
    pub fn oracle_nonces(&self) -> (r: Vec<String>)
        ensures
            r.deep_view() == self.oracle_nonces.deep_view(),
    {
        crate::messages::copy_strings(&self.oracle_nonces)
    }

    /// The announced outcomes.
    pub fn outcomes(&self) -> (r: Vec<String>)
        ensures
            r.deep_view() == self.outcomes.deep_view(),
    {
        crate::messages::copy_strings(&self.outcomes)
    }

    /// The event's name.
    pub fn event_id(&self) -> (r: String)
        ensures
            r@ == self.event_id@,
    {
        self.event_id.clone()
    }
}

/// An attestation rendered as hex strings.
#[derive(Debug, Clone)]
pub struct Attestation {
    /// Hex of the oracle's X-only public key.
    pub oracle_public_key: String,
    /// The attested outcomes.
    pub outcomes: Vec<String>,
    /// Hex of each signature.
    pub signatures: Vec<String>,
}

impl Attestation {
    /// Render an attestation as hex strings.
    pub fn from_attestation(value: &OracleAttestation) -> (r: Attestation)
        ensures
            r.oracle_public_key@ == hex_of(value@.oracle_public_key),
            r.outcomes.deep_view() == value@.outcomes,
            r.signatures.deep_view().len() == value@.signatures.len(),
            forall|i: int|
                0 <= i < value@.signatures.len() ==> r.signatures.deep_view()[i] == hex_of(
                    #[trigger] value@.signatures[i],
                ),
    {
        Attestation {
            oracle_public_key: hex_encode(&value.oracle_public_key),
            outcomes: crate::messages::copy_strings(&value.outcomes),
            signatures: hex_encode_all(&value.signatures),
        }
    }

    /// Hex of the oracle's X-only public key.
    pub fn oracle_public_key(&self) -> (r: String)
        ensures
            r@ == self.oracle_public_key@,
    {
        self.oracle_public_key.clone()
    }

    /// The attested outcomes.
    pub fn outcomes(&self) -> (r: Vec<String>)
        ensures
            r.deep_view() == self.outcomes.deep_view(),
    {
        crate::messages::copy_strings(&self.outcomes)
    }

    /// Hex of each signature.
    pub fn signatures(&self) -> (r: Vec<String>)
        ensures
            r.deep_view() == self.signatures.deep_view(),
    {
        crate::messages::copy_strings(&self.signatures)
    }
}

/// The attestation a stored event's signatures stand for: the stored
/// public key, with signatures and outcomes laid out positionally.
pub open spec fn attestation_of_stored(v: OracleEventDataView) -> OracleAttestationView {
    OracleAttestationView {
        oracle_public_key: v.announcement.oracle_public_key,
        signatures: Seq::new(v.signatures.len(), |i: int| v.signatures[i].1),
        outcomes: Seq::new(v.signatures.len(), |i: int| v.signatures[i].0),
    }
}

/// Assemble the attestation recorded on a stored event; fails when the
/// event has not been attested.
pub fn attestation_from_stored(value: &OracleEventData) -> (r: Result<OracleAttestation, Error>)
    ensures
        r matches Ok(att) ==> att@ == attestation_of_stored(value@) && value@.signatures.len()
            > 0,
        r is Err <==> value@.signatures.len() == 0,
{
    if value.signatures.len() == 0 {
        return Err(Error::NotFound);
    }
    let mut outcomes: Vec<String> = Vec::new();
    let mut signatures: Vec<Vec<u8>> = Vec::new();
    let mut i: usize = 0;
    while i < value.signatures.len()
        invariant
            i <= value.signatures@.len(),
            outcomes.deep_view() =~= Seq::new(i as nat, |k: int| value@.signatures[k].0),
            signatures.deep_view() =~= Seq::new(i as nat, |k: int| value@.signatures[k].1),
        decreases value.signatures@.len() - i,
    {
        let ghost out0 = outcomes.deep_view();
        let ghost sig0 = signatures.deep_view();
        outcomes.push(value.signatures[i].0.clone());
        signatures.push(crate::messages::copy_bytes(&value.signatures[i].1));
        proof {
            assert(outcomes.deep_view() =~~= out0.push(value@.signatures[i as int].0));
            assert(signatures.deep_view() =~~= sig0.push(value@.signatures[i as int].1));
            assert(outcomes.deep_view() =~= Seq::new((i + 1) as nat, |k: int| value@.signatures[k].0));
            assert(signatures.deep_view() =~= Seq::new(
                (i + 1) as nat,
                |k: int| value@.signatures[k].1,
            ));
        }
        i += 1;
    }
    let att = OracleAttestation {
        oracle_public_key: crate::messages::copy_bytes(&value.announcement.oracle_public_key),
        signatures,
        outcomes,
    };
    assert(att@ =~~= attestation_of_stored(value@));
    Ok(att)
}

/// When a stored event can be rendered for display: the announcement is
/// within the wire format's bounds; once attested, so is the assembled
/// attestation, and a numeric event's outcome digits parse to a value that
/// fits a 64-bit signed integer.
pub open spec fn renderable_stored(v: OracleEventDataView) -> bool {
    &&& v.announcement.wf()
    &&& v.signatures.len() > 0 ==> attestation_of_stored(v).wf()
    &&& (v.signatures.len() > 0 && v.announcement.oracle_event.event_descriptor
        is DigitDecompositionEvent) ==> (signed_binary_val(
        concat_strs(attestation_of_stored(v).outcomes),
    ) matches Some(n) && -0x8000000000000000 <= n <= 0x7FFFFFFFFFFFFFFF)
}

/// A stored event rendered for display: hex forms of the announcement and
/// attestation, the outcome set, and the observed outcome once attested.
#[derive(Debug, Clone)]
pub struct EventData {
    /// The key the event is stored under.
    pub event_id: String,
    /// Hex of the serialized announcement.
    pub announcement: String,
    /// Hex of the serialized attestation, once attested.
    pub attestation: Option<String>,
    /// The expected maturity, as a unix epoch.
    pub event_maturity_epoch: u32,
    /// The announced outcomes; empty for numeric events.
    pub outcomes: Vec<String>,
    /// The event's name.
    pub event_name: String,
    /// Identifier of the published announcement event, if published.
    pub announcement_event_id: Option<String>,
    /// Identifier of the published attestation event, if published.
    pub attestation_event_id: Option<String>,
    /// The attested outcome: the outcome string for enumerated events, the
    /// signed decimal value for numeric events.
    pub observed_outcome: Option<String>,
}

impl EventData {
    /// Render a stored event for display. Succeeds exactly on renderable
    /// stored data; anything else indicates a corrupted store and fails
    /// with `Internal`.
    pub fn from_stored(event_id: String, value: &OracleEventData) -> (r: Result<EventData, Error>)
        ensures
            r is Ok <==> renderable_stored(value@),
            r is Err ==> r == Err::<EventData, Error>(Error::Internal),
            r matches Ok(ed) ==> ({
                &&& value@.announcement.wf()
                &&& ed.event_id@ == event_id@
                &&& ed.announcement@ == hex_of(enc_announcement(value@.announcement))
                &&& ed.event_maturity_epoch
                    == value@.announcement.oracle_event.event_maturity_epoch
                &&& ed.event_name@ == value@.announcement.oracle_event.event_id
                &&& ed.announcement_event_id.deep_view() == value@.announcement_event_id
                &&& ed.attestation_event_id.deep_view() == value@.attestation_event_id
                &&& (value@.announcement.oracle_event.event_descriptor matches
                    EventDescriptorView::EnumEvent(e) ==> ed.outcomes.deep_view() == e.outcomes)
                &&& (value@.announcement.oracle_event.event_descriptor
                    is DigitDecompositionEvent ==> ed.outcomes.deep_view()
                    == Seq::<Seq<char>>::empty())
                &&& (value@.signatures.len() == 0 ==> ed.attestation is None
                    && ed.observed_outcome is None)
                &&& (value@.signatures.len() > 0 ==> ({
                    &&& attestation_of_stored(value@).wf()
                    &&& ed.attestation matches Some(h) && h@ == hex_of(
                        enc_attestation(attestation_of_stored(value@)),
                    )
                    &&& (value@.announcement.oracle_event.event_descriptor is EnumEvent ==> (
                    ed.observed_outcome matches Some(o) && o@ == value@.signatures[0].0))
                    &&& (value@.announcement.oracle_event.event_descriptor
                        is DigitDecompositionEvent ==> (ed.observed_outcome matches Some(o) && ({
                        let joined = concat_strs(attestation_of_stored(value@).outcomes);
                        &&& signed_binary_val(joined) is Some
                        &&& encode_utf8(o@) == dec_bytes_signed(signed_binary_val(joined)->0)
                    })))
                }))
            }),
    {
        if !value.announcement.check_wf() {
            return Err(Error::Internal);
        }
        let announcement_hex = hex_encode(&encode_announcement(&value.announcement));
        let outcomes = match &value.announcement.oracle_event.event_descriptor {
            EventDescriptor::EnumEvent(e) => crate::messages::copy_strings(&e.outcomes),
            EventDescriptor::DigitDecompositionEvent(_) => Vec::new(),
        };
        assert(value@.announcement.oracle_event.event_descriptor is DigitDecompositionEvent
            ==> outcomes.deep_view() =~= Seq::<Seq<char>>::empty());

        let mut attestation: Option<String> = None;
        let mut observed_outcome: Option<String> = None;
        if value.signatures.len() > 0 {
            let att = match attestation_from_stored(value) {
                Ok(a) => a,
                Err(_) => {
                    return Err(Error::Internal);
                },
            };
            if !att.check_wf() {
                return Err(Error::Internal);
            }
            attestation = Some(hex_encode(&encode_attestation(&att)));
            observed_outcome = match &value.announcement.oracle_event.event_descriptor {
                EventDescriptor::EnumEvent(_) => Some(value.signatures[0].0.clone()),
                EventDescriptor::DigitDecompositionEvent(_) => {
                    let joined = concat_strings(&att.outcomes);
                    match parse_signed_binary(&joined) {
                        Some(v) => Some(i64_to_dec_string(v)),
                        None => {
                            return Err(Error::Internal);
                        },
                    }
                },
            };
        }

        Ok(
            EventData {
                event_id,
                announcement: announcement_hex,
                attestation,
                event_maturity_epoch: value.announcement.oracle_event.event_maturity_epoch,
                outcomes,
                event_name: value.announcement.oracle_event.event_id.clone(),
                announcement_event_id: match &value.announcement_event_id {
                    Some(s) => Some(s.clone()),
                    None => None,
                },
                attestation_event_id: match &value.attestation_event_id {
                    Some(s) => Some(s.clone()),
                    None => None,
                },
                observed_outcome,
            },
        )
    }

    /// Hex of the serialized announcement.
    pub fn announcement(&self) -> (r: String)
        ensures
            r@ == self.announcement@,
    {
        self.announcement.clone()
    }

    /// Hex of the serialized attestation, once attested.
    pub fn attestation(&self) -> (r: Option<String>)
        ensures
            r.deep_view() == self.attestation.deep_view(),
    {
        match &self.attestation {
            Some(s) => Some(s.clone()),
            None => None,
        }
    }

    /// The announced outcomes.
    pub fn outcomes(&self) -> (r: Vec<String>)
        ensures
            r.deep_view() == self.outcomes.deep_view(),
    {
        crate::messages::copy_strings(&self.outcomes)
    }

    /// The event's name.
    pub fn event_name(&self) -> (r: String)
        ensures
            r@ == self.event_name@,
    {
        self.event_name.clone()
    }

    /// The attested outcome, once attested.
    pub fn observed_outcome(&self) -> (r: Option<String>)
        ensures
            r.deep_view() == self.observed_outcome.deep_view(),
    {
        match &self.observed_outcome {
            Some(s) => Some(s.clone()),
            None => None,
        }
    }

    /// Identifier of the published announcement event, if published.
    pub fn announcement_event_id(&self) -> (r: Option<String>)
        ensures
            r.deep_view() == self.announcement_event_id.deep_view(),
    {
        match &self.announcement_event_id {
            Some(s) => Some(s.clone()),
            None => None,
        }
    }

    /// Identifier of the published attestation event, if published.
    pub fn attestation_event_id(&self) -> (r: Option<String>)
        ensures
            r.deep_view() == self.attestation_event_id.deep_view(),
    {
        match &self.attestation_event_id {
            Some(s) => Some(s.clone()),
            None => None,
        }
    }
}

/// Decode an announcement from its hex rendering: succeeds exactly when the
/// string is hex whose bytes are a complete announcement encoding; every
/// failure is `InvalidArgument`.
pub fn decode_announcement_hex(s: &String) -> (r: Result<OracleAnnouncement, JsError>)
    ensures
        r is Ok <==> (is_hex_str(s@) && (parse_announcement(hex_val_of(s@)) matches Some(
            (v, k),
        ) && k == hex_val_of(s@).len())),
        r matches Ok(a) ==> parse_announcement(hex_val_of(s@)) == Some(
            (a@, hex_val_of(s@).len() as int),
        ) && a@.wf(),
        r is Err ==> r == Err::<OracleAnnouncement, JsError>(JsError::InvalidArgument),
{
    let bytes = match hex_decode(s) {
        Some(b) => b,
        None => {
            return Err(JsError::InvalidArgument);
        },
    };
    match decode_announcement(&bytes) {
        Some(a) => Ok(a),
        None => Err(JsError::InvalidArgument),
    }
}

/// Decode an attestation from its hex rendering: succeeds exactly when the
/// string is hex whose bytes are a complete attestation encoding; every
/// failure is `InvalidArgument`.
pub fn decode_attestation_hex(s: &String) -> (r: Result<OracleAttestation, JsError>)
    ensures
        r is Ok <==> (is_hex_str(s@) && (parse_attestation(hex_val_of(s@)) matches Some(
            (v, k),
        ) && k == hex_val_of(s@).len())),
        r matches Ok(a) ==> parse_attestation(hex_val_of(s@)) == Some(
            (a@, hex_val_of(s@).len() as int),
        ) && a@.wf(),
        r is Err ==> r == Err::<OracleAttestation, JsError>(JsError::InvalidArgument),
{
    let bytes = match hex_decode(s) {
        Some(b) => b,
        None => {
            return Err(JsError::InvalidArgument);
        },
    };
    match decode_attestation(&bytes) {
        Some(a) => Ok(a),
        None => Err(JsError::InvalidArgument),
    }
}

} // verus!
