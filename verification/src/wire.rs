//! Wire format of the oracle messages: the TLV-style byte encoding that
//! third-party verifiers parse, together with its parser and the proof that
//! parsing inverts encoding.

use vstd::prelude::*;
use crate::messages::{wf_str, DigitDecompositionEventDescriptor, EnumEventDescriptor,
    EventDescriptor, OracleAnnouncement, OracleAttestation,
    OracleEvent, DigitDecompositionEventDescriptorView, EnumEventDescriptorView,
    EventDescriptorView, OracleAnnouncementView, OracleAttestationView, OracleEventView};
use crate::ser::{enc_be_u16, enc_be_u32, enc_bigsize, enc_str, lemma_parse_bigsize,
    lemma_parse_be_u16, lemma_parse_be_u32, lemma_parse_str, lemma_parse_str_wf,
    lemma_split_concat, read_be_u16, read_be_u32, read_bigsize, read_bytes, read_str, read_u8,
    parse_be_u16,
    write_be_u16, write_be_u32, write_bigsize, write_str,
    parse_be_u32, parse_bigsize, parse_bytes, parse_str, parse_u8};
use vstd::seq_lib::lemma_concat_associative;

verus! {

/// TLV type of a serialized oracle event.
pub const EVENT_TLV_TYPE: u64 = 55330;

/// TLV type of an enumerated-outcome event descriptor.
pub const ENUM_TLV_TYPE: u64 = 55302;

/// TLV type of a digit-decomposition event descriptor.
pub const DIGIT_TLV_TYPE: u64 = 55306;

// ---------------------------------------------------------------------------
// Specification encoders and parsers for lists
// ---------------------------------------------------------------------------

/// Concatenation of fixed-width byte items (nonce points, signatures).
pub open spec fn enc_fixed_seq(xs: Seq<Seq<u8>>) -> Seq<u8>
    decreases xs.len(),
{
    if xs.len() == 0 {
        Seq::empty()
    } else {
        xs[0] + enc_fixed_seq(xs.drop_first())
    }
}

/// Concatenation of length-prefixed strings.
pub open spec fn enc_str_seq(xs: Seq<Seq<char>>) -> Seq<u8>
    decreases xs.len(),
{
    if xs.len() == 0 {
        Seq::empty()
    } else {
        enc_str(xs[0]) + enc_str_seq(xs.drop_first())
    }
}

/// Parse `count` byte items of `width` bytes each.
pub open spec fn parse_fixed_seq(s: Seq<u8>, count: int, width: int) -> Option<(Seq<Seq<u8>>, int)>
    decreases count,
{
    if count <= 0 {
        Some((Seq::empty(), 0int))
    } else {
        match parse_bytes(s, width) {
            Some((b, k)) => match parse_fixed_seq(s.skip(k), count - 1, width) {
                Some((tail, k2)) => Some((seq![b] + tail, k + k2)),
                None => None,
            },
            None => None,
        }
    }
}

/// Parse `count` length-prefixed strings.
pub open spec fn parse_str_seq(s: Seq<u8>, count: int) -> Option<(Seq<Seq<char>>, int)>
    decreases count,
{
    if count <= 0 {
        Some((Seq::empty(), 0int))
    } else {
        match parse_str(s) {
            Some((t, k)) => match parse_str_seq(s.skip(k), count - 1) {
                Some((tail, k2)) => Some((seq![t] + tail, k + k2)),
                None => None,
            },
            None => None,
        }
    }
}

pub proof fn lemma_enc_fixed_seq_push(xs: Seq<Seq<u8>>, x: Seq<u8>)
    ensures
        enc_fixed_seq(xs.push(x)) == enc_fixed_seq(xs) + x,
    decreases xs.len(),
{
    if xs.len() == 0 {
        assert(xs.push(x).drop_first() =~= Seq::<Seq<u8>>::empty());
        assert(xs.push(x)[0] == x);
        assert(enc_fixed_seq(Seq::<Seq<u8>>::empty()) =~= Seq::<u8>::empty());
        assert(enc_fixed_seq(xs.push(x)) =~= enc_fixed_seq(xs) + x);
    } else {
        assert(xs.push(x).drop_first() =~= xs.drop_first().push(x));
        lemma_enc_fixed_seq_push(xs.drop_first(), x);
        assert(enc_fixed_seq(xs.push(x)) =~= enc_fixed_seq(xs) + x);
    }
}

pub proof fn lemma_enc_str_seq_push(xs: Seq<Seq<char>>, x: Seq<char>)
    ensures
        enc_str_seq(xs.push(x)) == enc_str_seq(xs) + enc_str(x),
    decreases xs.len(),
{
    if xs.len() == 0 {
        assert(xs.push(x).drop_first() =~= Seq::<Seq<char>>::empty());
        assert(xs.push(x)[0] == x);
        assert(enc_str_seq(Seq::<Seq<char>>::empty()) =~= Seq::<u8>::empty());
        assert(enc_str_seq(xs.push(x)) =~= enc_str_seq(xs) + enc_str(x));
    } else {
        assert(xs.push(x).drop_first() =~= xs.drop_first().push(x));
        lemma_enc_str_seq_push(xs.drop_first(), x);
        assert(enc_str_seq(xs.push(x)) =~= enc_str_seq(xs) + enc_str(x));
    }
}

pub proof fn lemma_parse_fixed_seq(xs: Seq<Seq<u8>>, width: int, rest: Seq<u8>)
    requires
        forall|i: int| 0 <= i < xs.len() ==> (#[trigger] xs[i]).len() == width,
        width >= 0,
    ensures
        parse_fixed_seq(enc_fixed_seq(xs) + rest, xs.len() as int, width) == Some(
            (xs, enc_fixed_seq(xs).len() as int),
        ),
    decreases xs.len(),
{
    let s = enc_fixed_seq(xs) + rest;
    if xs.len() == 0 {
        assert(parse_fixed_seq(s, 0, width) == Some((Seq::<Seq<u8>>::empty(), 0int)));
        assert(Seq::<Seq<u8>>::empty() =~= xs);
        assert(enc_fixed_seq(xs).len() == 0);
    } else {
        let head = xs[0];
        let tail = xs.drop_first();
        assert(s =~= head + (enc_fixed_seq(tail) + rest));
        assert(s.subrange(0, width) =~= head);
        assert(s.skip(width) =~= enc_fixed_seq(tail) + rest);
        lemma_parse_fixed_seq(tail, width, rest);
        assert(seq![head] + tail =~= xs);
        assert(enc_fixed_seq(xs).len() == width + enc_fixed_seq(tail).len());
    }
}

#[verifier::rlimit(100)]
pub proof fn lemma_parse_str_seq(xs: Seq<Seq<char>>, rest: Seq<u8>)
    requires
        forall|i: int| 0 <= i < xs.len() ==> wf_str(#[trigger] xs[i]),
    ensures
        parse_str_seq(enc_str_seq(xs) + rest, xs.len() as int) == Some(
            (xs, enc_str_seq(xs).len() as int),
        ),
    decreases xs.len(),
{
    let s = enc_str_seq(xs) + rest;
    if xs.len() == 0 {
        assert(parse_str_seq(s, 0) == Some((Seq::<Seq<char>>::empty(), 0int)));
        assert(Seq::<Seq<char>>::empty() =~= xs);
        assert(enc_str_seq(xs).len() == 0);
    } else {
        let head = xs[0];
        let tail = xs.drop_first();
        assert(s =~= enc_str(head) + (enc_str_seq(tail) + rest));
        lemma_parse_str(head, enc_str_seq(tail) + rest);
        let k = enc_str(head).len() as int;
        assert(s.skip(k) =~= enc_str_seq(tail) + rest);
        lemma_parse_str_seq(tail, rest);
        assert(seq![head] + tail =~= xs);
        assert(enc_str_seq(xs).len() == k + enc_str_seq(tail).len());
    }
}

// ---------------------------------------------------------------------------
// Specification encoders for the messages
// ---------------------------------------------------------------------------

/// Payload of an enumerated-outcome descriptor: outcome count, then the
/// outcome strings.
pub open spec fn enc_enum_payload(e: EnumEventDescriptorView) -> Seq<u8> {
    enc_be_u16(e.outcomes.len() as u16) + enc_str_seq(e.outcomes)
}

/// Payload of a digit-decomposition descriptor.
pub open spec fn enc_digit_payload(d: DigitDecompositionEventDescriptorView) -> Seq<u8> {
    enc_be_u16(d.base) + seq![if d.is_signed { 1u8 } else { 0u8 }] + enc_str(d.unit) + enc_be_u32(
        d.precision as u32,
    ) + enc_be_u16(d.nb_digits)
}

/// A descriptor on the wire: its TLV type, its payload length, its payload.
pub open spec fn enc_descriptor(d: EventDescriptorView) -> Seq<u8> {
    match d {
        EventDescriptorView::EnumEvent(e) => enc_bigsize(ENUM_TLV_TYPE) + enc_bigsize(
            enc_enum_payload(e).len() as u64,
        ) + enc_enum_payload(e),
        EventDescriptorView::DigitDecompositionEvent(dd) => enc_bigsize(DIGIT_TLV_TYPE)
            + enc_bigsize(enc_digit_payload(dd).len() as u64) + enc_digit_payload(dd),
    }
}

/// An oracle event's body: nonce count, nonce points, maturity epoch,
/// descriptor TLV, event id.
pub open spec fn enc_event(ev: OracleEventView) -> Seq<u8> {
    enc_be_u16(ev.oracle_nonces.len() as u16) + enc_fixed_seq(ev.oracle_nonces) + enc_be_u32(
        ev.event_maturity_epoch,
    ) + enc_descriptor(ev.event_descriptor) + enc_str(ev.event_id)
}

/// An announcement's body: signature, public key, then the event as a TLV.
pub open spec fn enc_announcement(a: OracleAnnouncementView) -> Seq<u8> {
    a.announcement_signature + a.oracle_public_key + enc_bigsize(EVENT_TLV_TYPE) + enc_bigsize(
        enc_event(a.oracle_event).len() as u64,
    ) + enc_event(a.oracle_event)
}

/// An attestation's body: public key, signatures, outcome strings.
pub open spec fn enc_attestation(a: OracleAttestationView) -> Seq<u8> {
    a.oracle_public_key + enc_be_u16(a.signatures.len() as u16) + enc_fixed_seq(a.signatures)
        + enc_be_u16(a.outcomes.len() as u16) + enc_str_seq(a.outcomes)
}

// ---------------------------------------------------------------------------
// Specification parsers for the messages
// ---------------------------------------------------------------------------

#[verifier::opaque]
pub open spec fn parse_enum_payload(s: Seq<u8>) -> Option<(EnumEventDescriptorView, int)> {
    match parse_be_u16(s) {
        Some((count, k)) => match parse_str_seq(s.skip(k), count as int) {
            Some((outcomes, k2)) => Some((EnumEventDescriptorView { outcomes }, k + k2)),
            None => None,
        },
        None => None,
    }
}

#[verifier::opaque]
pub open spec fn parse_digit_payload(s: Seq<u8>) -> Option<
    (DigitDecompositionEventDescriptorView, int),
> {
    match parse_be_u16(s) {
        Some((base, k1)) => match parse_u8(s.skip(k1)) {
            Some((sign_byte, k2)) => if sign_byte == 0 || sign_byte == 1 {
                match parse_str(s.skip(k1 + k2)) {
                    Some((unit, k3)) => match parse_be_u32(s.skip(k1 + k2 + k3)) {
                        Some((precision, k4)) => match parse_be_u16(s.skip(k1 + k2 + k3 + k4)) {
                            Some((nb_digits, k5)) => Some(
                                (
                                    DigitDecompositionEventDescriptorView {
                                        base,
                                        is_signed: sign_byte == 1,
                                        unit,
                                        precision: precision as i32,
                                        nb_digits,
                                    },
                                    k1 + k2 + k3 + k4 + k5,
                                ),
                            ),
                            None => None,
                        },
                        None => None,
                    },
                    None => None,
                }
            } else {
                None
            },
            None => None,
        },
        None => None,
    }
}

#[verifier::opaque]
pub open spec fn parse_descriptor(s: Seq<u8>) -> Option<(EventDescriptorView, int)> {
    match parse_bigsize(s) {
        Some((ty, k1)) => match parse_bigsize(s.skip(k1)) {
            Some((plen, k2)) => if ty == ENUM_TLV_TYPE {
                match parse_enum_payload(s.skip(k1 + k2)) {
                    Some((e, k3)) => if k3 == plen {
                        Some((EventDescriptorView::EnumEvent(e), k1 + k2 + k3))
                    } else {
                        None
                    },
                    None => None,
                }
            } else if ty == DIGIT_TLV_TYPE {
                match parse_digit_payload(s.skip(k1 + k2)) {
                    Some((d, k3)) => if k3 == plen {
                        Some((EventDescriptorView::DigitDecompositionEvent(d), k1 + k2 + k3))
                    } else {
                        None
                    },
                    None => None,
                }
            } else {
                None
            },
            None => None,
        },
        None => None,
    }
}

pub open spec fn parse_event(s: Seq<u8>) -> Option<(OracleEventView, int)> {
    match parse_be_u16(s) {
        Some((count, k1)) => match parse_fixed_seq(s.skip(k1), count as int, 32) {
            Some((nonces, k2)) => match parse_be_u32(s.skip(k1 + k2)) {
                Some((maturity, k3)) => match parse_descriptor(s.skip(k1 + k2 + k3)) {
                    Some((descriptor, k4)) => match parse_str(s.skip(k1 + k2 + k3 + k4)) {
                        Some((event_id, k5)) => Some(
                            (
                                OracleEventView {
                                    oracle_nonces: nonces,
                                    event_maturity_epoch: maturity,
                                    event_descriptor: descriptor,
                                    event_id,
                                },
                                k1 + k2 + k3 + k4 + k5,
                            ),
                        ),
                        None => None,
                    },
                    None => None,
                },
                None => None,
            },
            None => None,
        },
        None => None,
    }
}

pub open spec fn parse_announcement(s: Seq<u8>) -> Option<(OracleAnnouncementView, int)> {
    match parse_bytes(s, 64) {
        Some((sig, k1)) => match parse_bytes(s.skip(k1), 32) {
            Some((pk, k2)) => match parse_bigsize(s.skip(k1 + k2)) {
                Some((ty, k3)) => if ty == EVENT_TLV_TYPE {
                    match parse_bigsize(s.skip(k1 + k2 + k3)) {
                        Some((elen, k4)) => match parse_event(s.skip(k1 + k2 + k3 + k4)) {
                            Some((ev, k5)) => if k5 == elen {
                                Some(
                                    (
                                        OracleAnnouncementView {
                                            announcement_signature: sig,
                                            oracle_public_key: pk,
                                            oracle_event: ev,
                                        },
                                        k1 + k2 + k3 + k4 + k5,
                                    ),
                                )
                            } else {
                                None
                            },
                            None => None,
                        },
                        None => None,
                    }
                } else {
                    None
                },
                None => None,
            },
            None => None,
        },
        None => None,
    }
}

pub open spec fn parse_attestation(s: Seq<u8>) -> Option<(OracleAttestationView, int)> {
    match parse_bytes(s, 32) {
        Some((pk, k1)) => match parse_be_u16(s.skip(k1)) {
            Some((nsigs, k2)) => match parse_fixed_seq(s.skip(k1 + k2), nsigs as int, 64) {
                Some((sigs, k3)) => match parse_be_u16(s.skip(k1 + k2 + k3)) {
                    Some((nouts, k4)) => match parse_str_seq(
                        s.skip(k1 + k2 + k3 + k4),
                        nouts as int,
                    ) {
                        Some((outcomes, k5)) => Some(
                            (
                                OracleAttestationView {
                                    oracle_public_key: pk,
                                    signatures: sigs,
                                    outcomes,
                                },
                                k1 + k2 + k3 + k4 + k5,
                            ),
                        ),
                        None => None,
                    },
                    None => None,
                },
                None => None,
            },
            None => None,
        },
        None => None,
    }
}

// ---------------------------------------------------------------------------
// Length bounds: a well-formed message's encoding fits under the wire
// format's 64-bit length prefixes.
// ---------------------------------------------------------------------------

pub proof fn lemma_enc_fixed_seq_len(xs: Seq<Seq<u8>>, width: int)
    requires
        forall|i: int| 0 <= i < xs.len() ==> (#[trigger] xs[i]).len() == width,
        width >= 0,
    ensures
        enc_fixed_seq(xs).len() == xs.len() * width,
    decreases xs.len(),
{
    if xs.len() == 0 {
    } else {
        lemma_enc_fixed_seq_len(xs.drop_first(), width);
        assert(xs.len() * width == (xs.len() - 1) * width + width) by (nonlinear_arith);
    }
}

pub proof fn lemma_enc_str_seq_len(xs: Seq<Seq<char>>)
    requires
        forall|i: int| 0 <= i < xs.len() ==> wf_str(#[trigger] xs[i]),
    ensures
        enc_str_seq(xs).len() <= xs.len() * 0x100000009,
    decreases xs.len(),
{
    if xs.len() == 0 {
    } else {
        lemma_enc_str_seq_len(xs.drop_first());
        assert(enc_str(xs[0]).len() <= 0x100000009);
        assert(xs.len() * 0x100000009 == (xs.len() - 1) * 0x100000009 + 0x100000009)
            by (nonlinear_arith);
    }
}

pub proof fn lemma_enc_enum_payload_len(e: EnumEventDescriptorView)
    requires
        EventDescriptorView::EnumEvent(e).wf(),
    ensures
        enc_enum_payload(e).len() <= 0xFFFF000000000000,
{
    lemma_enc_str_seq_len(e.outcomes);
    assert(e.outcomes.len() * 0x100000009 <= 0xFFFF * 0x100000009) by (nonlinear_arith)
        requires e.outcomes.len() <= 0xFFFF;
}

pub proof fn lemma_enc_digit_payload_len(d: DigitDecompositionEventDescriptorView)
    requires
        EventDescriptorView::DigitDecompositionEvent(d).wf(),
    ensures
        enc_digit_payload(d).len() <= 0xFFFF000000000000,
{
}

pub proof fn lemma_enc_descriptor_len(d: EventDescriptorView)
    requires
        d.wf(),
    ensures
        enc_descriptor(d).len() <= 0xFFFF000000000100,
{
    match d {
        EventDescriptorView::EnumEvent(e) => lemma_enc_enum_payload_len(e),
        EventDescriptorView::DigitDecompositionEvent(dd) => lemma_enc_digit_payload_len(dd),
    }
}

pub proof fn lemma_enc_event_len(ev: OracleEventView)
    requires
        ev.wf(),
    ensures
        enc_event(ev).len() <= 0xFFFFF00000000000,
{
    lemma_enc_fixed_seq_len(ev.oracle_nonces, 32);
    lemma_enc_descriptor_len(ev.event_descriptor);
}

// ---------------------------------------------------------------------------
// Round trip: parsing an encoding yields the encoded message.
// ---------------------------------------------------------------------------

pub proof fn lemma_parse_enum_payload(e: EnumEventDescriptorView, rest: Seq<u8>)
    requires
        EventDescriptorView::EnumEvent(e).wf(),
    ensures
        parse_enum_payload(enc_enum_payload(e) + rest) == Some(
            (e, enc_enum_payload(e).len() as int),
        ),
{
    reveal(parse_enum_payload);
    let count = e.outcomes.len() as u16;
    let s = enc_enum_payload(e) + rest;
    assert(s =~= enc_be_u16(count) + (enc_str_seq(e.outcomes) + rest));
    lemma_parse_be_u16(count, enc_str_seq(e.outcomes) + rest);
    assert(s.skip(2) =~= enc_str_seq(e.outcomes) + rest);
    lemma_parse_str_seq(e.outcomes, rest);
    assert(parse_enum_payload(s) matches Some((v, _)) && v =~= e);
}

#[verifier::rlimit(100)]
pub proof fn lemma_parse_digit_payload(d: DigitDecompositionEventDescriptorView, rest: Seq<u8>)
    requires
        EventDescriptorView::DigitDecompositionEvent(d).wf(),
    ensures
        parse_digit_payload(enc_digit_payload(d) + rest) == Some(
            (d, enc_digit_payload(d).len() as int),
        ),
{
    reveal(parse_digit_payload);
    let sign = seq![if d.is_signed { 1u8 } else { 0u8 }];
    let t_unit = enc_str(d.unit);
    let ul = t_unit.len() as int;
    let prec = enc_be_u32(d.precision as u32);
    let nb = enc_be_u16(d.nb_digits);
    let s = enc_digit_payload(d) + rest;
    assert(s =~= enc_be_u16(d.base) + (sign + (t_unit + (prec + (nb + rest)))));
    lemma_parse_be_u16(d.base, sign + (t_unit + (prec + (nb + rest))));
    assert(s.skip(2) =~= sign + (t_unit + (prec + (nb + rest))));
    assert(s.skip(2)[0] == (if d.is_signed { 1u8 } else { 0u8 }));
    assert(s.skip(3) =~= t_unit + (prec + (nb + rest)));
    lemma_parse_str(d.unit, prec + (nb + rest));
    assert(s.skip(3 + ul) =~= prec + (nb + rest));
    lemma_parse_be_u32(d.precision as u32, nb + rest);
    assert(s.skip(7 + ul) =~= nb + rest);
    lemma_parse_be_u16(d.nb_digits, rest);
    let p = d.precision;
    assert(((p as u32) as i32) == p) by (bit_vector);
    assert(parse_digit_payload(s) matches Some((v, k)) && v =~= d && k == 9 + ul);
    assert(enc_digit_payload(d).len() == 9 + ul);
}

#[verifier::rlimit(100)]
#[verifier::spinoff_prover]
pub proof fn lemma_parse_descriptor(d: EventDescriptorView, rest: Seq<u8>)
    requires
        d.wf(),
    ensures
        parse_descriptor(enc_descriptor(d) + rest) == Some((d, enc_descriptor(d).len() as int)),
{
    reveal(parse_descriptor);
    let s = enc_descriptor(d) + rest;
    let (payload, ty) = match d {
        EventDescriptorView::EnumEvent(e) => {
            lemma_enc_enum_payload_len(e);
            (enc_enum_payload(e), ENUM_TLV_TYPE)
        },
        EventDescriptorView::DigitDecompositionEvent(dd) => {
            lemma_enc_digit_payload_len(dd);
            (enc_digit_payload(dd), DIGIT_TLV_TYPE)
        },
    };
    let plen = payload.len() as u64;
    let f1 = enc_bigsize(ty);
    let k1 = f1.len() as int;
    let f2 = enc_bigsize(plen);
    let k2 = f2.len() as int;
    let r2 = payload + rest;
    let r1 = f2 + r2;
    lemma_concat_associative(f2, payload, rest);
    lemma_concat_associative(f1, r1, rest);
    assert(enc_descriptor(d) == (f1 + f2) + payload);
    lemma_concat_associative(f1, f2, payload);
    lemma_concat_associative(f1 + f2, payload, rest);
    lemma_concat_associative(f1, f2, r2);
    assert(s == f1 + (f2 + r2));
    lemma_parse_bigsize(ty, r1);
    lemma_split_concat(f1, r1);
    assert(s.skip(k1) == r1);
    lemma_parse_bigsize(plen, r2);
    lemma_split_concat(f2, r2);
    vstd::seq_lib::lemma_seq_skip_of_skip(s, k1, k2);
    assert(s.skip(k1 + k2) == r2);
    match d {
        EventDescriptorView::EnumEvent(e) => {
            lemma_parse_enum_payload(e, rest);
        },
        EventDescriptorView::DigitDecompositionEvent(dd) => {
            lemma_parse_digit_payload(dd, rest);
        },
    }
    assert(parse_descriptor(s) matches Some((v, k)) && v =~= d && k == k1 + k2 + payload.len());
}

#[verifier::rlimit(100)]
#[verifier::spinoff_prover]
pub proof fn lemma_parse_event(ev: OracleEventView, rest: Seq<u8>)
    requires
        ev.wf(),
    ensures
        parse_event(enc_event(ev) + rest) == Some((ev, enc_event(ev).len() as int)),
{
    let count = ev.oracle_nonces.len() as u16;
    let f1 = enc_be_u16(count);
    let f2 = enc_fixed_seq(ev.oracle_nonces);
    let nl = f2.len() as int;
    let f3 = enc_be_u32(ev.event_maturity_epoch);
    let f4 = enc_descriptor(ev.event_descriptor);
    let dl = f4.len() as int;
    let f5 = enc_str(ev.event_id);
    let s = enc_event(ev) + rest;
    let r4 = f5 + rest;
    let r3 = f4 + r4;
    let r2 = f3 + r3;
    let r1 = f2 + r2;
    assert(enc_event(ev) == (((f1 + f2) + f3) + f4) + f5);
    lemma_concat_associative((((f1 + f2) + f3) + f4), f5, rest);
    lemma_concat_associative(((f1 + f2) + f3), f4, r4);
    lemma_concat_associative((f1 + f2), f3, r3);
    lemma_concat_associative(f1, f2, r2);
    assert(s == f1 + r1);
    lemma_parse_be_u16(count, r1);
    lemma_split_concat(f1, r1);
    assert(s.skip(2) == r1);
    lemma_parse_fixed_seq(ev.oracle_nonces, 32, r2);
    lemma_split_concat(f2, r2);
    vstd::seq_lib::lemma_seq_skip_of_skip(s, 2, nl);
    assert(s.skip(2 + nl) == r2);
    lemma_parse_be_u32(ev.event_maturity_epoch, r3);
    lemma_split_concat(f3, r3);
    vstd::seq_lib::lemma_seq_skip_of_skip(s, 2 + nl, 4);
    assert(s.skip(6 + nl) == r3);
    lemma_parse_descriptor(ev.event_descriptor, r4);
    lemma_split_concat(f4, r4);
    vstd::seq_lib::lemma_seq_skip_of_skip(s, 6 + nl, dl);
    assert(s.skip(6 + nl + dl) == r4);
    lemma_parse_str(ev.event_id, rest);
    assert(parse_be_u16(s) == Some((count, 2int)));
    assert(parse_fixed_seq(s.skip(2), count as int, 32) == Some((ev.oracle_nonces, nl)));
    assert(parse_be_u32(s.skip(2 + nl)) == Some((ev.event_maturity_epoch, 4int)));
    assert(parse_descriptor(s.skip(6 + nl)) == Some((ev.event_descriptor, dl)));
    assert(parse_str(s.skip(6 + nl + dl)) == Some((ev.event_id, f5.len() as int)));
    assert(parse_event(s) matches Some((v, k)) && v =~= ev && k == enc_event(ev).len() as int);
}

#[verifier::rlimit(100)]
#[verifier::spinoff_prover]
pub proof fn lemma_parse_announcement(a: OracleAnnouncementView, rest: Seq<u8>)
    requires
        a.wf(),
    ensures
        parse_announcement(enc_announcement(a) + rest) == Some(
            (a, enc_announcement(a).len() as int),
        ),
{
    let f1 = a.announcement_signature;
    let f2 = a.oracle_public_key;
    let ev = enc_event(a.oracle_event);
    let el = ev.len() as int;
    lemma_enc_event_len(a.oracle_event);
    let elen = ev.len() as u64;
    let f3 = enc_bigsize(EVENT_TLV_TYPE);
    let tl = f3.len() as int;
    let f4 = enc_bigsize(elen);
    let ll = f4.len() as int;
    let s = enc_announcement(a) + rest;
    let r4 = ev + rest;
    let r3 = f4 + r4;
    let r2 = f3 + r3;
    let r1 = f2 + r2;
    assert(enc_announcement(a) == (((f1 + f2) + f3) + f4) + ev);
    lemma_concat_associative((((f1 + f2) + f3) + f4), ev, rest);
    lemma_concat_associative(((f1 + f2) + f3), f4, r4);
    lemma_concat_associative((f1 + f2), f3, r3);
    lemma_concat_associative(f1, f2, r2);
    assert(s == f1 + r1);
    lemma_split_concat(f1, r1);
    assert(s.subrange(0, 64) == f1);
    assert(s.skip(64) == r1);
    lemma_split_concat(f2, r2);
    assert(s.skip(64).subrange(0, 32) == f2);
    vstd::seq_lib::lemma_seq_skip_of_skip(s, 64, 32);
    assert(s.skip(96) == r2);
    lemma_parse_bigsize(EVENT_TLV_TYPE, r3);
    lemma_split_concat(f3, r3);
    vstd::seq_lib::lemma_seq_skip_of_skip(s, 96, tl);
    assert(s.skip(96 + tl) == r3);
    lemma_parse_bigsize(elen, r4);
    lemma_split_concat(f4, r4);
    vstd::seq_lib::lemma_seq_skip_of_skip(s, 96 + tl, ll);
    assert(s.skip(96 + tl + ll) == r4);
    lemma_parse_event(a.oracle_event, rest);
    assert(parse_announcement(s) matches Some((v, k)) && v =~= a && k == enc_announcement(
        a,
    ).len() as int);
}

#[verifier::rlimit(100)]
pub proof fn lemma_parse_attestation(a: OracleAttestationView, rest: Seq<u8>)
    requires
        a.wf(),
    ensures
        parse_attestation(enc_attestation(a) + rest) == Some(
            (a, enc_attestation(a).len() as int),
        ),
{
    let nsigs = a.signatures.len() as u16;
    let nouts = a.outcomes.len() as u16;
    let sigs = enc_fixed_seq(a.signatures);
    let sl = sigs.len() as int;
    let outs = enc_str_seq(a.outcomes);
    let s = enc_attestation(a) + rest;
    assert(s =~= a.oracle_public_key + (enc_be_u16(nsigs) + (sigs + (enc_be_u16(nouts) + (outs
        + rest)))));
    assert(s.subrange(0, 32) =~= a.oracle_public_key);
    assert(s.skip(32) =~= enc_be_u16(nsigs) + (sigs + (enc_be_u16(nouts) + (outs + rest))));
    lemma_parse_be_u16(nsigs, sigs + (enc_be_u16(nouts) + (outs + rest)));
    assert(s.skip(34) =~= sigs + (enc_be_u16(nouts) + (outs + rest)));
    lemma_parse_fixed_seq(a.signatures, 64, enc_be_u16(nouts) + (outs + rest));
    assert(s.skip(34 + sl) =~= enc_be_u16(nouts) + (outs + rest));
    lemma_parse_be_u16(nouts, outs + rest);
    assert(s.skip(36 + sl) =~= outs + rest);
    lemma_parse_str_seq(a.outcomes, rest);
    assert(parse_attestation(s) matches Some((v, k)) && v =~= a && k == enc_attestation(
        a,
    ).len() as int);
}

// ---------------------------------------------------------------------------
// Executable encoders
// ---------------------------------------------------------------------------

fn write_fixed_seq(out: &mut Vec<u8>, xs: &Vec<Vec<u8>>)
    ensures
        final(out)@ == old(out)@ + enc_fixed_seq(xs.deep_view()),
{
    let mut i: usize = 0;
    while i < xs.len()
        invariant
            i <= xs.len(),
            out@ == old(out)@ + enc_fixed_seq(xs.deep_view().take(i as int)),
        decreases xs.len() - i,
    {
        out.extend_from_slice(xs[i].as_slice());
        proof {
            let s = xs.deep_view();
            assert(s[i as int] == xs@[i as int]@);
            lemma_enc_fixed_seq_push(s.take(i as int), s[i as int]);
            assert(s.take(i as int).push(s[i as int]) =~= s.take(i as int + 1));
            assert(out@ =~= old(out)@ + enc_fixed_seq(s.take(i as int + 1)));
        }
        i += 1;
    }
    proof {
        assert(xs.deep_view().take(xs@.len() as int) =~= xs.deep_view());
    }
}

fn write_str_seq(out: &mut Vec<u8>, xs: &Vec<String>)
    ensures
        final(out)@ == old(out)@ + enc_str_seq(xs.deep_view()),
{
    let mut i: usize = 0;
    while i < xs.len()
        invariant
            i <= xs.len(),
            out@ == old(out)@ + enc_str_seq(xs.deep_view().take(i as int)),
        decreases xs.len() - i,
    {
        write_str(out, &xs[i]);
        proof {
            let s = xs.deep_view();
            assert(s[i as int] == xs@[i as int]@);
            lemma_enc_str_seq_push(s.take(i as int), s[i as int]);
            assert(s.take(i as int).push(s[i as int]) =~= s.take(i as int + 1));
            assert(out@ =~= old(out)@ + enc_str_seq(s.take(i as int + 1)));
        }
        i += 1;
    }
    proof {
        assert(xs.deep_view().take(xs@.len() as int) =~= xs.deep_view());
    }
}

fn write_descriptor(out: &mut Vec<u8>, d: &EventDescriptor)
    requires
        d@.wf(),
    ensures
        final(out)@ == old(out)@ + enc_descriptor(d@),
{
    match d {
        EventDescriptor::EnumEvent(e) => {
            let mut payload: Vec<u8> = Vec::new();
            write_be_u16(&mut payload, e.outcomes.len() as u16);
            write_str_seq(&mut payload, &e.outcomes);
            assert(payload@ =~= enc_enum_payload(e@));
            write_bigsize(out, ENUM_TLV_TYPE);
            write_bigsize(out, payload.len() as u64);
            out.append(&mut payload);
            assert(final(out)@ =~= old(out)@ + enc_descriptor(d@));
        },
        EventDescriptor::DigitDecompositionEvent(dd) => {
            let mut payload: Vec<u8> = Vec::new();
            write_be_u16(&mut payload, dd.base);
            payload.push(if dd.is_signed { 1u8 } else { 0u8 });
            write_str(&mut payload, &dd.unit);
            write_be_u32(&mut payload, #[verifier::truncate] (dd.precision as u32));
            write_be_u16(&mut payload, dd.nb_digits);
            assert(payload@ =~= enc_digit_payload(dd@));
            write_bigsize(out, DIGIT_TLV_TYPE);
            write_bigsize(out, payload.len() as u64);
            out.append(&mut payload);
            assert(final(out)@ =~= old(out)@ + enc_descriptor(d@));
        },
    }
}

/// Serialize an oracle event's body: the bytes whose SHA-256 the
/// announcement signature commits to.
pub fn encode_oracle_event(ev: &OracleEvent) -> (r: Vec<u8>)
    requires
        ev@.wf(),
    ensures
        r@ == enc_event(ev@),
{
    let mut out: Vec<u8> = Vec::new();
    write_be_u16(&mut out, ev.oracle_nonces.len() as u16);
    write_fixed_seq(&mut out, &ev.oracle_nonces);
    write_be_u32(&mut out, ev.event_maturity_epoch);
    write_descriptor(&mut out, &ev.event_descriptor);
    write_str(&mut out, &ev.event_id);
    assert(out@ =~= enc_event(ev@));
    out
}

/// Serialize an announcement.
pub fn encode_announcement(a: &OracleAnnouncement) -> (r: Vec<u8>)
    requires
        a@.wf(),
    ensures
        r@ == enc_announcement(a@),
{
    let mut out: Vec<u8> = Vec::new();
    out.extend_from_slice(a.announcement_signature.as_slice());
    out.extend_from_slice(a.oracle_public_key.as_slice());
    let mut ev = encode_oracle_event(&a.oracle_event);
    write_bigsize(&mut out, EVENT_TLV_TYPE);
    write_bigsize(&mut out, ev.len() as u64);
    out.append(&mut ev);
    assert(out@ =~= enc_announcement(a@));
    out
}

/// Serialize an attestation.
pub fn encode_attestation(a: &OracleAttestation) -> (r: Vec<u8>)
    requires
        a@.wf(),
    ensures
        r@ == enc_attestation(a@),
{
    let mut out: Vec<u8> = Vec::new();
    out.extend_from_slice(a.oracle_public_key.as_slice());
    write_be_u16(&mut out, a.signatures.len() as u16);
    write_fixed_seq(&mut out, &a.signatures);
    write_be_u16(&mut out, a.outcomes.len() as u16);
    write_str_seq(&mut out, &a.outcomes);
    assert(out@ =~= enc_attestation(a@));
    out
}

/// Round trip for announcements: parsing an announcement's exact encoding
/// yields the announcement, so decoding and re-encoding is byte-identical.
pub proof fn lemma_announcement_round_trip(a: OracleAnnouncementView)
    requires
        a.wf(),
    ensures
        parse_announcement(enc_announcement(a)) == Some(
            (a, enc_announcement(a).len() as int),
        ),
{
    lemma_parse_announcement(a, Seq::empty());
    assert(enc_announcement(a) + Seq::<u8>::empty() =~= enc_announcement(a));
}

/// Round trip for attestations: parsing an attestation's exact encoding
/// yields the attestation, so decoding and re-encoding is byte-identical.
pub proof fn lemma_attestation_round_trip(a: OracleAttestationView)
    requires
        a.wf(),
    ensures
        parse_attestation(enc_attestation(a)) == Some((a, enc_attestation(a).len() as int)),
{
    lemma_parse_attestation(a, Seq::empty());
    assert(enc_attestation(a) + Seq::<u8>::empty() =~= enc_attestation(a));
}

// ---------------------------------------------------------------------------
// Parser well-formedness: whatever the parsers accept is well formed.
// ---------------------------------------------------------------------------

pub proof fn lemma_parse_fixed_seq_wf(s: Seq<u8>, count: int, width: int)
    requires
        count >= 0,
        width >= 0,
    ensures
        parse_fixed_seq(s, count, width) matches Some((v, k)) ==> v.len() == count && (forall|
            i: int,
        |
            0 <= i < v.len() ==> (#[trigger] v[i]).len() == width) && 0 <= k <= s.len(),
    decreases count,
{
    if count > 0 && parse_fixed_seq(s, count, width) is Some {
        lemma_parse_fixed_seq_wf(s.skip(width), count - 1, width);
    }
}

pub proof fn lemma_parse_str_seq_wf(s: Seq<u8>, count: int)
    requires
        count >= 0,
    ensures
        parse_str_seq(s, count) matches Some((v, k)) ==> v.len() == count && (forall|i: int|
            0 <= i < v.len() ==> wf_str(#[trigger] v[i])) && 0 <= k <= s.len(),
    decreases count,
{
    if count > 0 && parse_str_seq(s, count) is Some {
        lemma_parse_str_wf(s);
        let (t, k) = parse_str(s)->0;
        lemma_parse_str_seq_wf(s.skip(k), count - 1);
    }
}

// ---------------------------------------------------------------------------
// Executable decoders
// ---------------------------------------------------------------------------

fn read_fixed_seq(buf: &Vec<u8>, pos: usize, count: u16, width: usize) -> (r: Option<
    (Vec<Vec<u8>>, usize),
>)
    requires
        pos <= buf@.len(),
    ensures
        r is Some <==> parse_fixed_seq(buf@.skip(pos as int), count as int, width as int)
            is Some,
        r matches Some((v, q)) ==> parse_fixed_seq(
            buf@.skip(pos as int),
            count as int,
            width as int,
        ) == Some((v.deep_view(), q - pos)) && pos <= q <= buf@.len(),
{
    let ghost s0 = buf@.skip(pos as int);
    let mut acc: Vec<Vec<u8>> = Vec::new();
    let mut p = pos;
    let mut remaining = count;
    assert(acc.deep_view() =~= Seq::<Seq<u8>>::empty());
    while remaining > 0
        invariant
            pos <= p <= buf@.len(),
            s0 == buf@.skip(pos as int),
            parse_fixed_seq(buf@.skip(p as int), remaining as int, width as int) matches Some(
                (tail, k),
            ) ==> parse_fixed_seq(s0, count as int, width as int) == Some(
                (acc.deep_view() + tail, p - pos + k),
            ),
            parse_fixed_seq(buf@.skip(p as int), remaining as int, width as int) is None
                ==> parse_fixed_seq(s0, count as int, width as int) is None,
        decreases remaining,
    {
        match read_bytes(buf, p, width) {
            None => {
                proof {
                    assert(parse_bytes(buf@.skip(p as int), width as int) is None);
                    assert(parse_fixed_seq(buf@.skip(p as int), remaining as int, width as int)
                        is None);
                }
                return None;
            },
            Some((chunk, p2)) => {
                let ghost acc0 = acc.deep_view();
                let ghost chv = chunk@;
                let ghost pold = p as int;
                proof {
                    assert(buf@.skip(pold).subrange(0, width as int) =~= buf@.subrange(
                        pold,
                        pold + width,
                    ));
                    vstd::seq_lib::lemma_seq_skip_of_skip(buf@, pold, width as int);
                }
                acc.push(chunk);
                p = p2;
                remaining = remaining - 1;
                proof {
                    assert(acc.deep_view() =~~= acc0.push(chv));
                    let tail_parse = parse_fixed_seq(
                        buf@.skip(p as int),
                        remaining as int,
                        width as int,
                    );
                    if tail_parse is Some {
                        let (tail, k) = tail_parse->0;
                        assert(parse_fixed_seq(buf@.skip(pold), remaining + 1, width as int)
                            == Some((seq![chv] + tail, width + k)));
                        assert(acc0.push(chv) =~= acc.deep_view());
                        assert(acc0.push(chv) + tail =~= acc0 + (seq![chv] + tail));
                    } else {
                        assert(parse_fixed_seq(buf@.skip(pold), remaining + 1, width as int)
                            is None);
                    }
                }
            },
        }
    }
    proof {
        assert(parse_fixed_seq(buf@.skip(p as int), 0, width as int) == Some(
            (Seq::<Seq<u8>>::empty(), 0int),
        ));
        assert(acc.deep_view() + Seq::<Seq<u8>>::empty() =~= acc.deep_view());
    }
    Some((acc, p))
}

fn read_str_seq(buf: &Vec<u8>, pos: usize, count: u16) -> (r: Option<(Vec<String>, usize)>)
    requires
        pos <= buf@.len(),
    ensures
        r is Some <==> parse_str_seq(buf@.skip(pos as int), count as int) is Some,
        r matches Some((v, q)) ==> parse_str_seq(buf@.skip(pos as int), count as int) == Some(
            (v.deep_view(), q - pos),
        ) && pos <= q <= buf@.len(),
{
    let ghost s0 = buf@.skip(pos as int);
    let mut acc: Vec<String> = Vec::new();
    let mut p = pos;
    let mut remaining = count;
    assert(acc.deep_view() =~= Seq::<Seq<char>>::empty());
    while remaining > 0
        invariant
            pos <= p <= buf@.len(),
            s0 == buf@.skip(pos as int),
            parse_str_seq(buf@.skip(p as int), remaining as int) matches Some((tail, k))
                ==> parse_str_seq(s0, count as int) == Some(
                (acc.deep_view() + tail, p - pos + k),
            ),
            parse_str_seq(buf@.skip(p as int), remaining as int) is None ==> parse_str_seq(
                s0,
                count as int,
            ) is None,
        decreases remaining,
    {
        match read_str(buf, p) {
            None => {
                proof {
                    assert(parse_str(buf@.skip(p as int)) is None);
                    assert(parse_str_seq(buf@.skip(p as int), remaining as int) is None);
                }
                return None;
            },
            Some((t, p2)) => {
                let ghost acc0 = acc.deep_view();
                let ghost tv = t@;
                let ghost pold = p as int;
                proof {
                    vstd::seq_lib::lemma_seq_skip_of_skip(buf@, pold, p2 - p);
                    lemma_parse_str_wf(buf@.skip(pold));
                }
                acc.push(t);
                p = p2;
                remaining = remaining - 1;
                proof {
                    assert(acc.deep_view() =~= acc0.push(tv));
                    let tail_parse = parse_str_seq(buf@.skip(p as int), remaining as int);
                    if tail_parse is Some {
                        let (tail, k) = tail_parse->0;
                        assert(parse_str_seq(buf@.skip(pold), remaining + 1) == Some(
                            (seq![tv] + tail, (p - pold) + k),
                        ));
                        assert(acc0.push(tv) + tail =~= acc0 + (seq![tv] + tail));
                    } else {
                        assert(parse_str_seq(buf@.skip(pold), remaining + 1) is None);
                    }
                }
            },
        }
    }
    proof {
        assert(parse_str_seq(buf@.skip(p as int), 0) == Some((Seq::<Seq<char>>::empty(), 0int)));
        assert(acc.deep_view() + Seq::<Seq<char>>::empty() =~= acc.deep_view());
    }
    Some((acc, p))
}

fn read_enum_payload(buf: &Vec<u8>, pos: usize) -> (r: Option<(EnumEventDescriptor, usize)>)
    requires
        pos <= buf@.len(),
    ensures
        r is Some <==> parse_enum_payload(buf@.skip(pos as int)) is Some,
        r matches Some((e, q)) ==> parse_enum_payload(buf@.skip(pos as int)) == Some(
            (e@, q - pos),
        ) && EventDescriptorView::EnumEvent(e@).wf() && pos <= q <= buf@.len(),
{
    proof {
        reveal(parse_enum_payload);
    }
    match read_be_u16(buf, pos) {
        None => None,
        Some((count, p1)) => {
            proof {
                vstd::seq_lib::lemma_seq_skip_of_skip(buf@, pos as int, 2);
            }
            match read_str_seq(buf, p1, count) {
                None => None,
                Some((outcomes, p2)) => {
                    proof {
                        lemma_parse_str_seq_wf(buf@.skip(p1 as int), count as int);
                    }
                    Some((EnumEventDescriptor { outcomes }, p2))
                },
            }
        },
    }
}

#[verifier::rlimit(100)]
fn read_digit_payload(buf: &Vec<u8>, pos: usize) -> (r: Option<
    (DigitDecompositionEventDescriptor, usize),
>)
    requires
        pos <= buf@.len(),
    ensures
        r is Some <==> parse_digit_payload(buf@.skip(pos as int)) is Some,
        r matches Some((d, q)) ==> parse_digit_payload(buf@.skip(pos as int)) == Some(
            (d@, q - pos),
        ) && EventDescriptorView::DigitDecompositionEvent(d@).wf() && pos <= q <= buf@.len(),
{
    proof {
        reveal(parse_digit_payload);
    }
    match read_be_u16(buf, pos) {
        None => None,
        Some((base, p1)) => {
            proof {
                vstd::seq_lib::lemma_seq_skip_of_skip(buf@, pos as int, 2);
            }
            match read_u8(buf, p1) {
                None => None,
                Some((sign_byte, p2)) => {
                    if sign_byte > 1 {
                        return None;
                    }
                    proof {
                        vstd::seq_lib::lemma_seq_skip_of_skip(buf@, pos as int, 3);
                    }
                    match read_str(buf, p2) {
                        None => None,
                        Some((unit, p3)) => {
                            proof {
                                vstd::seq_lib::lemma_seq_skip_of_skip(buf@, pos as int, p3 - pos);
                                lemma_parse_str_wf(buf@.skip(p2 as int));
                            }
                            match read_be_u32(buf, p3) {
                                None => None,
                                Some((precision, p4)) => {
                                    proof {
                                        vstd::seq_lib::lemma_seq_skip_of_skip(
                                            buf@,
                                            pos as int,
                                            p4 - pos,
                                        );
                                    }
                                    match read_be_u16(buf, p4) {
                                        None => None,
                                        Some((nb_digits, p5)) => {
                                            let d = DigitDecompositionEventDescriptor {
                                                base,
                                                is_signed: sign_byte == 1,
                                                unit,
                                                precision: #[verifier::truncate] (precision
                                                    as i32),
                                                nb_digits,
                                            };
                                            assert(d@ =~= (parse_digit_payload(
                                                buf@.skip(pos as int),
                                            )->0).0);
                                            Some((d, p5))
                                        },
                                    }
                                },
                            }
                        },
                    }
                },
            }
        },
    }
}

#[verifier::rlimit(100)]
fn read_descriptor(buf: &Vec<u8>, pos: usize) -> (r: Option<(EventDescriptor, usize)>)
    requires
        pos <= buf@.len(),
    ensures
        r is Some <==> parse_descriptor(buf@.skip(pos as int)) is Some,
        r matches Some((d, q)) ==> parse_descriptor(buf@.skip(pos as int)) == Some((d@, q - pos))
            && d@.wf() && pos <= q <= buf@.len(),
{
    proof {
        reveal(parse_descriptor);
    }
    match read_bigsize(buf, pos) {
        None => None,
        Some((ty, p1)) => {
            proof {
                vstd::seq_lib::lemma_seq_skip_of_skip(buf@, pos as int, p1 - pos);
            }
            match read_bigsize(buf, p1) {
                None => None,
                Some((plen, p2)) => {
                    proof {
                        vstd::seq_lib::lemma_seq_skip_of_skip(buf@, pos as int, p2 - pos);
                    }
                    if ty == ENUM_TLV_TYPE {
                        match read_enum_payload(buf, p2) {
                            None => None,
                            Some((e, p3)) => {
                                if (p3 - p2) as u64 == plen {
                                    Some((EventDescriptor::EnumEvent(e), p3))
                                } else {
                                    None
                                }
                            },
                        }
                    } else if ty == DIGIT_TLV_TYPE {
                        match read_digit_payload(buf, p2) {
                            None => None,
                            Some((d, p3)) => {
                                if (p3 - p2) as u64 == plen {
                                    Some((EventDescriptor::DigitDecompositionEvent(d), p3))
                                } else {
                                    None
                                }
                            },
                        }
                    } else {
                        None
                    }
                },
            }
        },
    }
}

#[verifier::rlimit(100)]
fn read_oracle_event(buf: &Vec<u8>, pos: usize) -> (r: Option<(OracleEvent, usize)>)
    requires
        pos <= buf@.len(),
    ensures
        r is Some <==> parse_event(buf@.skip(pos as int)) is Some,
        r matches Some((ev, q)) ==> parse_event(buf@.skip(pos as int)) == Some((ev@, q - pos))
            && ev@.wf() && pos <= q <= buf@.len(),
{
    match read_be_u16(buf, pos) {
        None => None,
        Some((count, p1)) => {
            proof {
                vstd::seq_lib::lemma_seq_skip_of_skip(buf@, pos as int, 2);
            }
            match read_fixed_seq(buf, p1, count, 32) {
                None => None,
                Some((nonces, p2)) => {
                    proof {
                        vstd::seq_lib::lemma_seq_skip_of_skip(buf@, pos as int, p2 - pos);
                        lemma_parse_fixed_seq_wf(buf@.skip(p1 as int), count as int, 32);
                    }
                    match read_be_u32(buf, p2) {
                        None => None,
                        Some((maturity, p3)) => {
                            proof {
                                vstd::seq_lib::lemma_seq_skip_of_skip(buf@, pos as int, p3 - pos);
                            }
                            match read_descriptor(buf, p3) {
                                None => None,
                                Some((descriptor, p4)) => {
                                    proof {
                                        vstd::seq_lib::lemma_seq_skip_of_skip(
                                            buf@,
                                            pos as int,
                                            p4 - pos,
                                        );
                                        lemma_parse_str_wf(buf@.skip(p4 as int));
                                    }
                                    match read_str(buf, p4) {
                                        None => None,
                                        Some((event_id, p5)) => {
                                            let ev = OracleEvent {
                                                oracle_nonces: nonces,
                                                event_maturity_epoch: maturity,
                                                event_descriptor: descriptor,
                                                event_id,
                                            };
                                            assert(ev@ =~= (parse_event(
                                                buf@.skip(pos as int),
                                            )->0).0);
                                            Some((ev, p5))
                                        },
                                    }
                                },
                            }
                        },
                    }
                },
            }
        },
    }
}

/// Decode an announcement from its exact serialized form; trailing bytes are
/// rejected.
#[verifier::rlimit(100)]
pub fn decode_announcement(buf: &Vec<u8>) -> (r: Option<OracleAnnouncement>)
    ensures
        r is Some <==> (parse_announcement(buf@) matches Some((v, k)) && k == buf@.len()),
        r matches Some(a) ==> parse_announcement(buf@) == Some((a@, buf@.len() as int))
            && a@.wf(),
{
    let n = buf.len();
    assert(buf@.skip(0) =~= buf@);
    match read_bytes(buf, 0, 64) {
        None => None,
        Some((sig, p1)) => {
            match read_bytes(buf, p1, 32) {
                None => None,
                Some((pk, p2)) => {
                    match read_bigsize(buf, p2) {
                        None => None,
                        Some((ty, p3)) => {
                            if ty != EVENT_TLV_TYPE {
                                return None;
                            }
                            match read_bigsize(buf, p3) {
                                None => None,
                                Some((elen, p4)) => {
                                    match read_oracle_event(buf, p4) {
                                        None => None,
                                        Some((ev, p5)) => {
                                            if (p5 - p4) as u64 == elen && p5 == n {
                                                let a = OracleAnnouncement {
                                                    announcement_signature: sig,
                                                    oracle_public_key: pk,
                                                    oracle_event: ev,
                                                };
                                                assert(a@ =~= (parse_announcement(buf@)->0).0);
                                                Some(a)
                                            } else {
                                                None
                                            }
                                        },
                                    }
                                },
                            }
                        },
                    }
                },
            }
        },
    }
}

/// Decode an attestation from its exact serialized form; trailing bytes are
/// rejected.
pub fn decode_attestation(buf: &Vec<u8>) -> (r: Option<OracleAttestation>)
    ensures
        r is Some <==> (parse_attestation(buf@) matches Some((v, k)) && k == buf@.len()),
        r matches Some(a) ==> parse_attestation(buf@) == Some((a@, buf@.len() as int))
            && a@.wf(),
{
    let n = buf.len();
    assert(buf@.skip(0) =~= buf@);
    match read_bytes(buf, 0, 32) {
        None => None,
        Some((pk, p1)) => {
            match read_be_u16(buf, p1) {
                None => None,
                Some((nsigs, p2)) => {
                    proof {
                        vstd::seq_lib::lemma_seq_skip_of_skip(buf@, 0, p2 as int);
                    }
                    match read_fixed_seq(buf, p2, nsigs, 64) {
                        None => None,
                        Some((signatures, p3)) => {
                            proof {
                                vstd::seq_lib::lemma_seq_skip_of_skip(buf@, 0, p3 as int);
                                lemma_parse_fixed_seq_wf(buf@.skip(p2 as int), nsigs as int, 64);
                            }
                            match read_be_u16(buf, p3) {
                                None => None,
                                Some((nouts, p4)) => {
                                    proof {
                                        vstd::seq_lib::lemma_seq_skip_of_skip(buf@, 0, p4 as int);
                                        lemma_parse_str_seq_wf(buf@.skip(p4 as int), nouts as int);
                                    }
                                    match read_str_seq(buf, p4, nouts) {
                                        None => None,
                                        Some((outcomes, p5)) => {
                                            if p5 == n {
                                                let a = OracleAttestation {
                                                    oracle_public_key: pk,
                                                    signatures,
                                                    outcomes,
                                                };
                                                assert(a@ =~= (parse_attestation(buf@)->0).0);
                                                Some(a)
                                            } else {
                                                None
                                            }
                                        },
                                    }
                                },
                            }
                        },
                    }
                },
            }
        },
    }
}

} // verus!
