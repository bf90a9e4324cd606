//! The publication layer's view of oracle messages: the event kinds and
//! base64 contents carried over the pub/sub overlay. Building and sending
//! the overlay events themselves is transport work and stays outside the
//! library; everything content-bearing is computed here.

use vstd::prelude::*;
use crate::error::Error;
use crate::messages::{OracleAnnouncement, OracleAttestation};
use crate::wire::{enc_announcement, enc_attestation, encode_announcement, encode_attestation};

verus! {

/// Kind of a published announcement event.
pub const ANNOUNCEMENT_KIND: u16 = 88;

/// Kind of a published attestation event.
pub const ATTESTATION_KIND: u16 = 89;

/// The base64 rendering of a byte sequence, a function of the bytes alone.
pub uninterp spec fn base64_of(b: Seq<u8>) -> Seq<char>;

/// Relies on `base64::encode`: the standard base64 rendering, a function of
/// the input bytes alone; empty input gives an empty string.
#[verifier::external_body]
fn base64_encode(b: &Vec<u8>) -> (r: String)
    ensures
        r@ == base64_of(b@),
        b@.len() == 0 ==> r@.len() == 0,
{
    base64::encode(b.as_slice())
}

/// The content of a published announcement event: the serialized
/// announcement, in base64. Fails when the announcement is outside the wire
/// format's bounds.
pub fn create_announcement_content(ann: &OracleAnnouncement) -> (r: Result<String, Error>)
    ensures
        r matches Ok(s) ==> ann@.wf() && s@ == base64_of(enc_announcement(ann@)),
        r is Err <==> !ann@.wf(),
{
    if !ann.check_wf() {
        return Err(Error::Internal);
    }
    let bytes = encode_announcement(ann);
    Ok(base64_encode(&bytes))
}

/// The content of a published attestation event: the serialized
/// attestation, in base64. Fails when the attestation is outside the wire
/// format's bounds.
pub fn create_attestation_content(att: &OracleAttestation) -> (r: Result<String, Error>)
    ensures
        r matches Ok(s) ==> att@.wf() && s@ == base64_of(enc_attestation(att@)),
        r is Err <==> !att@.wf(),
{
    if !att.check_wf() {
        return Err(Error::Internal);
    }
    let bytes = encode_attestation(att);
    Ok(base64_encode(&bytes))
}

} // verus!
