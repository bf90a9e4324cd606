//! The oracle message types: events, announcements and attestations.
//!
//! Keys, nonces and signatures are carried as plain byte vectors (32 bytes
//! for X-only public keys and nonce points, 64 bytes for Schnorr signatures);
//! their curve-level meaning lives in the `curve` module.

use vstd::prelude::*;
use vstd::utf8::encode_utf8;

verus! {

/// Byte length of a serialized X-only public key.
pub const PUBKEY_LEN: usize = 32;

/// Byte length of a serialized Schnorr signature.
pub const SIG_LEN: usize = 64;

/// A 32-byte X-only public key (or nonce point) in serialized form.
pub open spec fn wf_pubkey(b: Seq<u8>) -> bool {
    b.len() == 32
}

/// A 64-byte Schnorr signature in serialized form.
pub open spec fn wf_sig(b: Seq<u8>) -> bool {
    b.len() == 64
}

/// A string whose UTF-8 form fits under the wire format's length prefixes.
pub open spec fn wf_str(s: Seq<char>) -> bool {
    encode_utf8(s).len() <= 0xFFFFFFFF
}

/// Describes the outcomes of an event as an enumeration.
#[derive(Debug, Clone)]
pub struct EnumEventDescriptor {
    /// The possible outcomes of the event.
    pub outcomes: Vec<String>,
}

/// Describes the outcomes of a numerical event, attested digit by digit.
#[derive(Debug, Clone)]
pub struct DigitDecompositionEventDescriptor {
    /// The base in which the outcome is represented.
    pub base: u16,
    /// Whether the outcome value is signed.
    pub is_signed: bool,
    /// The unit in which the outcome is represented.
    pub unit: String,
    /// The precision used to represent the outcome.
    pub precision: i32,
    /// The number of digits used to represent the outcome.
    pub nb_digits: u16,
}

/// Description of an event.
#[derive(Debug, Clone)]
pub enum EventDescriptor {
    /// An event with enumerated outcomes.
    EnumEvent(EnumEventDescriptor),
    /// An event with a numerical outcome.
    DigitDecompositionEvent(DigitDecompositionEventDescriptor),
}

/// An event and the way the oracle will attest to it.
#[derive(Debug, Clone)]
pub struct OracleEvent {
    /// The nonce points the oracle will use to attest, serialized.
    pub oracle_nonces: Vec<Vec<u8>>,
    /// The expected maturity of the event, as a unix epoch.
    pub event_maturity_epoch: u32,
    /// The description of the event.
    pub event_descriptor: EventDescriptor,
    /// The name of the event, unique within a store.
    pub event_id: String,
}

/// A signed commitment by the oracle to an event and its nonce points.
#[derive(Debug, Clone)]
pub struct OracleAnnouncement {
    /// Schnorr signature by `oracle_public_key` over the hash of the
    /// serialized `oracle_event`.
    pub announcement_signature: Vec<u8>,
    /// The oracle's X-only public key, serialized.
    pub oracle_public_key: Vec<u8>,
    /// The announced event.
    pub oracle_event: OracleEvent,
}

/// Schnorr signatures revealing an event's outcome; each signature's first
/// 32 bytes equal the corresponding pre-committed nonce point.
#[derive(Debug, Clone)]
pub struct OracleAttestation {
    /// The oracle's X-only public key, serialized.
    pub oracle_public_key: Vec<u8>,
    /// The signatures over the outcome strings.
    pub signatures: Vec<Vec<u8>>,
    /// The outcome strings, one per signature.
    pub outcomes: Vec<String>,
}

// ---------------------------------------------------------------------------
// Mathematical views
// ---------------------------------------------------------------------------

#[verifier::ext_equal]
pub ghost struct EnumEventDescriptorView {
    pub outcomes: Seq<Seq<char>>,
}

#[verifier::ext_equal]
pub ghost struct DigitDecompositionEventDescriptorView {
    pub base: u16,
    pub is_signed: bool,
    pub unit: Seq<char>,
    pub precision: i32,
    pub nb_digits: u16,
}

#[verifier::ext_equal]
pub ghost enum EventDescriptorView {
    EnumEvent(EnumEventDescriptorView),
    DigitDecompositionEvent(DigitDecompositionEventDescriptorView),
}

#[verifier::ext_equal]
pub ghost struct OracleEventView {
    pub oracle_nonces: Seq<Seq<u8>>,
    pub event_maturity_epoch: u32,
    pub event_descriptor: EventDescriptorView,
    pub event_id: Seq<char>,
}

#[verifier::ext_equal]
pub ghost struct OracleAnnouncementView {
    pub announcement_signature: Seq<u8>,
    pub oracle_public_key: Seq<u8>,
    pub oracle_event: OracleEventView,
}

#[verifier::ext_equal]
pub ghost struct OracleAttestationView {
    pub oracle_public_key: Seq<u8>,
    pub signatures: Seq<Seq<u8>>,
    pub outcomes: Seq<Seq<char>>,
}

impl View for EnumEventDescriptor {
    type V = EnumEventDescriptorView;

    open spec fn view(&self) -> EnumEventDescriptorView {
        EnumEventDescriptorView { outcomes: self.outcomes.deep_view() }
    }
}

impl View for DigitDecompositionEventDescriptor {
    type V = DigitDecompositionEventDescriptorView;

    open spec fn view(&self) -> DigitDecompositionEventDescriptorView {
        DigitDecompositionEventDescriptorView {
            base: self.base,
            is_signed: self.is_signed,
            unit: self.unit@,
            precision: self.precision,
            nb_digits: self.nb_digits,
        }
    }
}

impl View for EventDescriptor {
    type V = EventDescriptorView;

    open spec fn view(&self) -> EventDescriptorView {
        match self {
            EventDescriptor::EnumEvent(e) => EventDescriptorView::EnumEvent(e@),
            EventDescriptor::DigitDecompositionEvent(d) => {
                EventDescriptorView::DigitDecompositionEvent(d@)
            },
        }
    }
}

impl View for OracleEvent {
    type V = OracleEventView;

    open spec fn view(&self) -> OracleEventView {
        OracleEventView {
            oracle_nonces: self.oracle_nonces.deep_view(),
            event_maturity_epoch: self.event_maturity_epoch,
            event_descriptor: self.event_descriptor@,
            event_id: self.event_id@,
        }
    }
}

impl View for OracleAnnouncement {
    type V = OracleAnnouncementView;

    open spec fn view(&self) -> OracleAnnouncementView {
        OracleAnnouncementView {
            announcement_signature: self.announcement_signature@,
            oracle_public_key: self.oracle_public_key@,
            oracle_event: self.oracle_event@,
        }
    }
}

impl View for OracleAttestation {
    type V = OracleAttestationView;

    open spec fn view(&self) -> OracleAttestationView {
        OracleAttestationView {
            oracle_public_key: self.oracle_public_key@,
            signatures: self.signatures.deep_view(),
            outcomes: self.outcomes.deep_view(),
        }
    }
}

// ---------------------------------------------------------------------------
// Well-formedness: the structural bounds under which a message has exactly
// one wire encoding.
// ---------------------------------------------------------------------------

impl EventDescriptorView {
    pub open spec fn wf(&self) -> bool {
        match self {
            EventDescriptorView::EnumEvent(e) => {
                &&& e.outcomes.len() <= 0xFFFF
                &&& forall|i: int| 0 <= i < e.outcomes.len() ==> wf_str(#[trigger] e.outcomes[i])
            },
            EventDescriptorView::DigitDecompositionEvent(d) => wf_str(d.unit),
        }
    }
}

impl OracleEventView {
    pub open spec fn wf(&self) -> bool {
        &&& self.oracle_nonces.len() <= 0xFFFF
        &&& forall|i: int|
            0 <= i < self.oracle_nonces.len() ==> wf_pubkey(#[trigger] self.oracle_nonces[i])
        &&& self.event_descriptor.wf()
        &&& wf_str(self.event_id)
    }

    /// The number of nonces the descriptor calls for: one per enumerated
    /// event, one per digit otherwise.
    pub open spec fn expected_nb_nonces(&self) -> int {
        match self.event_descriptor {
            EventDescriptorView::EnumEvent(_) => 1,
            EventDescriptorView::DigitDecompositionEvent(d) => d.nb_digits as int,
        }
    }

    /// Semantic validity: the nonce count matches the descriptor.
    pub open spec fn valid(&self) -> bool {
        self.oracle_nonces.len() == self.expected_nb_nonces()
    }
}

impl OracleAnnouncementView {
    pub open spec fn wf(&self) -> bool {
        &&& wf_sig(self.announcement_signature)
        &&& wf_pubkey(self.oracle_public_key)
        &&& self.oracle_event.wf()
    }
}

impl OracleAttestationView {
    pub open spec fn wf(&self) -> bool {
        &&& wf_pubkey(self.oracle_public_key)
        &&& self.signatures.len() <= 0xFFFF
        &&& forall|i: int| 0 <= i < self.signatures.len() ==> wf_sig(#[trigger] self.signatures[i])
        &&& self.outcomes.len() <= 0xFFFF
        &&& forall|i: int| 0 <= i < self.outcomes.len() ==> wf_str(#[trigger] self.outcomes[i])
    }
}

/// A fresh byte vector with the same contents.
pub fn copy_bytes(v: &Vec<u8>) -> (r: Vec<u8>)
    ensures
        r@ == v@,
{
    let mut out: Vec<u8> = Vec::new();
    out.extend_from_slice(v.as_slice());
    assert(out@ =~= v@);
    out
}

/// A fresh vector of indexes with the same contents.
pub fn copy_u32s(v: &Vec<u32>) -> (r: Vec<u32>)
    ensures
        r@ == v@,
{
    let mut out: Vec<u32> = Vec::new();
    out.extend_from_slice(v.as_slice());
    assert(out@ =~= v@);
    out
}

/// Fresh byte vectors with the same contents, one per item.
pub fn copy_byte_seqs(v: &Vec<Vec<u8>>) -> (r: Vec<Vec<u8>>)
    ensures
        r.deep_view() == v.deep_view(),
{
    let mut out: Vec<Vec<u8>> = Vec::new();
    let mut i: usize = 0;
    while i < v.len()
        invariant
            i <= v.len(),
            out.deep_view() =~= v.deep_view().take(i as int),
        decreases v.len() - i,
    {
        let ghost out0 = out.deep_view();
        out.push(copy_bytes(&v[i]));
        proof {
            assert(out.deep_view() =~~= out0.push(v@[i as int]@));
            assert(v.deep_view().take(i + 1) =~= v.deep_view().take(i as int).push(
                v.deep_view()[i as int],
            ));
        }
        i += 1;
    }
    proof {
        assert(v.deep_view().take(v@.len() as int) =~= v.deep_view());
    }
    out
}

/// Fresh strings with the same contents, one per item.
pub fn copy_strings(v: &Vec<String>) -> (r: Vec<String>)
    ensures
        r.deep_view() == v.deep_view(),
{
    let mut out: Vec<String> = Vec::new();
    let mut i: usize = 0;
    while i < v.len()
        invariant
            i <= v.len(),
            out.deep_view() =~= v.deep_view().take(i as int),
        decreases v.len() - i,
    {
        let ghost out0 = out.deep_view();
        out.push(v[i].clone());
        proof {
            assert(out.deep_view() =~~= out0.push(v@[i as int]@));
            assert(v.deep_view().take(i + 1) =~= v.deep_view().take(i as int).push(
                v.deep_view()[i as int],
            ));
        }
        i += 1;
    }
    proof {
        assert(v.deep_view().take(v@.len() as int) =~= v.deep_view());
    }
    out
}

impl EventDescriptor {
    /// A fresh descriptor with the same contents.
    pub fn duplicate(&self) -> (r: EventDescriptor)
        ensures
            r@ == self@,
    {
        match self {
            EventDescriptor::EnumEvent(e) => {
                let r = EventDescriptor::EnumEvent(
                    EnumEventDescriptor { outcomes: copy_strings(&e.outcomes) },
                );
                assert(r@ =~~= self@);
                r
            },
            EventDescriptor::DigitDecompositionEvent(d) => {
                let r = EventDescriptor::DigitDecompositionEvent(
                    DigitDecompositionEventDescriptor {
                        base: d.base,
                        is_signed: d.is_signed,
                        unit: d.unit.clone(),
                        precision: d.precision,
                        nb_digits: d.nb_digits,
                    },
                );
                assert(r@ =~~= self@);
                r
            },
        }
    }
}

impl OracleEvent {
    /// A fresh event with the same contents.
    pub fn duplicate(&self) -> (r: OracleEvent)
        ensures
            r@ == self@,
    {
        let r = OracleEvent {
            oracle_nonces: copy_byte_seqs(&self.oracle_nonces),
            event_maturity_epoch: self.event_maturity_epoch,
            event_descriptor: self.event_descriptor.duplicate(),
            event_id: self.event_id.clone(),
        };
        assert(r@ =~~= self@);
        r
    }
}

impl OracleAnnouncement {
    /// A fresh announcement with the same contents.
    pub fn duplicate(&self) -> (r: OracleAnnouncement)
        ensures
            r@ == self@,
    {
        let r = OracleAnnouncement {
            announcement_signature: copy_bytes(&self.announcement_signature),
            oracle_public_key: copy_bytes(&self.oracle_public_key),
            oracle_event: self.oracle_event.duplicate(),
        };
        assert(r@ =~~= self@);
        r
    }
}

/// Whether every item is a byte vector of the given length.
fn check_widths(v: &Vec<Vec<u8>>, width: usize) -> (r: bool)
    ensures
        r == forall|i: int|
            0 <= i < v.deep_view().len() ==> (#[trigger] v.deep_view()[i]).len() == width,
{
    let mut i: usize = 0;
    while i < v.len()
        invariant
            i <= v.len(),
            forall|k: int| 0 <= k < i ==> (#[trigger] v.deep_view()[k]).len() == width,
        decreases v.len() - i,
    {
        if v[i].len() != width {
            assert(v.deep_view()[i as int].len() != width);
            return false;
        }
        assert(v.deep_view()[i as int].len() == width);
        i += 1;
    }
    true
}

/// Whether every string fits under the wire format's length prefixes.
fn check_strs(v: &Vec<String>) -> (r: bool)
    ensures
        r == forall|i: int| 0 <= i < v.deep_view().len() ==> wf_str(#[trigger] v.deep_view()[i]),
{
    let mut i: usize = 0;
    while i < v.len()
        invariant
            i <= v.len(),
            forall|k: int| 0 <= k < i ==> wf_str(#[trigger] v.deep_view()[k]),
        decreases v.len() - i,
    {
        assert(v.deep_view()[i as int] == v@[i as int]@);
        if v[i].as_str().as_bytes_vec().len() as u64 > 0xFFFFFFFF {
            assert(!wf_str(v.deep_view()[i as int]));
            return false;
        }
        i += 1;
    }
    true
}

/// Whether one string fits under the wire format's length prefixes.
fn check_str(s: &String) -> (r: bool)
    ensures
        r == wf_str(s@),
{
    s.as_str().as_bytes_vec().len() as u64 <= 0xFFFFFFFF
}

impl EventDescriptor {
    /// Check that the descriptor is within the wire format's bounds.
    pub fn check_wf(&self) -> (r: bool)
        ensures
            r == self@.wf(),
    {
        match self {
            EventDescriptor::EnumEvent(e) => e.outcomes.len() <= 0xFFFF && check_strs(
                &e.outcomes,
            ),
            EventDescriptor::DigitDecompositionEvent(d) => check_str(&d.unit),
        }
    }
}

impl OracleAnnouncement {
    /// Check that the announcement is within the wire format's bounds, so
    /// that it has exactly one serialized form.
    pub fn check_wf(&self) -> (r: bool)
        ensures
            r == self@.wf(),
    {
        self.announcement_signature.len() == SIG_LEN && self.oracle_public_key.len() == PUBKEY_LEN
            && self.oracle_event.oracle_nonces.len() <= 0xFFFF && check_widths(
            &self.oracle_event.oracle_nonces,
            PUBKEY_LEN,
        ) && self.oracle_event.event_descriptor.check_wf() && check_str(&self.oracle_event.event_id)
    }
}

impl OracleAttestation {
    /// Check that the attestation is within the wire format's bounds, so
    /// that it has exactly one serialized form.
    pub fn check_wf(&self) -> (r: bool)
        ensures
            r == self@.wf(),
    {
        self.oracle_public_key.len() == PUBKEY_LEN && self.signatures.len() <= 0xFFFF
            && check_widths(&self.signatures, SIG_LEN) && self.outcomes.len() <= 0xFFFF
            && check_strs(&self.outcomes)
    }
}

impl OracleEvent {
    /// Checks that the event is well shaped: the number of nonce points
    /// equals what the descriptor calls for.
    pub fn validate(&self) -> (r: bool)
        ensures
            r == self@.valid(),
    {
        let expected: usize = match &self.event_descriptor {
            EventDescriptor::EnumEvent(_) => 1,
            EventDescriptor::DigitDecompositionEvent(d) => d.nb_digits as usize,
        };
        self.oracle_nonces.len() == expected
    }
}

} // verus!
