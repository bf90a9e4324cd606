//! Schnorr signing with an externally chosen nonce.
//!
//! Standard BIP-340 APIs derive the nonce internally; the oracle must sign
//! with the exact nonce scalar it committed to in the announcement, so the
//! final steps of signing are carried out here, over the curve module's
//! scalar operations.

use vstd::prelude::*;
use vstd::string::StrSliceExecFns;
use vstd::utf8::encode_utf8;
use crate::curve::{add_secret, mul_secret, negate_secret, norm_scalar_of, parity_odd_of,
    scalar_add_of, scalar_mul_of, secret_key_valid, sha256, sha256_of, xonly_from_secret,
    xonly_of, zero_scalar};
use crate::error::Error;
use crate::messages::copy_bytes;

verus! {

/// The 64-byte BIP-340 challenge prefix: the SHA-256 tag of the challenge
/// domain, written twice.
pub open spec fn bip340_challenge_tag() -> Seq<u8> {
    sha256_of(encode_utf8("BIP0340/challenge"@)) + sha256_of(encode_utf8("BIP0340/challenge"@))
}

/// The BIP-340 challenge scalar bytes for a message signed with the given
/// nonce and key scalars: the tagged hash of nonce point, public key and
/// message.
pub open spec fn schnorr_challenge_of(msg: Seq<u8>, nonce_key: Seq<u8>, key: Seq<u8>) -> Seq<u8> {
    sha256_of(bip340_challenge_tag() + xonly_of(nonce_key) + xonly_of(key) + msg)
}

/// The s half of a signature with chosen nonce: `k' + x' * e` over the
/// normalized scalars.
pub open spec fn schnorr_s_of(msg: Seq<u8>, key: Seq<u8>, nonce_key: Seq<u8>) -> Seq<u8> {
    scalar_add_of(
        norm_scalar_of(nonce_key),
        scalar_mul_of(norm_scalar_of(key), schnorr_challenge_of(msg, nonce_key, key)),
    )
}

/// The full 64-byte signature with chosen nonce: the nonce's X-only point,
/// then the s scalar.
pub open spec fn sig_with_nonce_of(msg: Seq<u8>, key: Seq<u8>, nonce_key: Seq<u8>) -> Seq<u8> {
    xonly_of(nonce_key) + schnorr_s_of(msg, key, nonce_key)
}

/// When signing with a chosen nonce succeeds: both scalars are valid, the
/// challenge hash happens to be a valid scalar, and the s scalar is nonzero.
/// On legitimate inputs the last two fail only with negligible probability.
pub open spec fn sign_with_nonce_ok(msg: Seq<u8>, key: Seq<u8>, nonce_key: Seq<u8>) -> bool {
    &&& secret_key_valid(key)
    &&& secret_key_valid(nonce_key)
    &&& secret_key_valid(schnorr_challenge_of(msg, nonce_key, key))
    &&& schnorr_s_of(msg, key, nonce_key) != zero_scalar()
}

/// Normalize a secret scalar for BIP-340: return its X-only public key and
/// the scalar itself, negated if its public key has odd Y parity.
fn get_schnorr_key(sk: &Vec<u8>) -> (r: Result<(Vec<u8>, Vec<u8>), Error>)
    requires
        sk@.len() == 32,
    ensures
        r matches Ok((x, k)) ==> ({
            &&& secret_key_valid(sk@)
            &&& x@ == xonly_of(sk@) && x@.len() == 32
            &&& k@ == norm_scalar_of(sk@) && k@.len() == 32
            &&& secret_key_valid(k@)
        }),
        r is Err ==> r == Err::<(Vec<u8>, Vec<u8>), Error>(Error::Internal) && !secret_key_valid(
            sk@,
        ),
{
    match xonly_from_secret(sk) {
        None => Err(Error::Internal),
        Some((x, odd)) => {
            if odd {
                let k = negate_secret(sk);
                Ok((x, k))
            } else {
                let k = copy_bytes(sk);
                Ok((x, k))
            }
        },
    }
}

/// Produce a BIP-340 signature over a 32-byte message using the given
/// signing scalar and the given nonce scalar, per the scheme's final steps:
/// normalize both scalars to even parity, hash the tagged challenge, and
/// combine. The signature's first 32 bytes are exactly the nonce's X-only
/// public key: the commitment that announcement verifiers rely on.
pub fn schnorr_sign_with_nonce(msg: &Vec<u8>, key: &Vec<u8>, nonce_key: &Vec<u8>) -> (r: Result<
    Vec<u8>,
    Error,
>)
    requires
        msg@.len() == 32,
        key@.len() == 32,
        nonce_key@.len() == 32,
    ensures
        r is Ok <==> sign_with_nonce_ok(msg@, key@, nonce_key@),
        r matches Ok(sig) ==> ({
            &&& secret_key_valid(key@) && secret_key_valid(nonce_key@)
            &&& sig@ == sig_with_nonce_of(msg@, key@, nonce_key@)
            &&& sig@.len() == 64
            &&& sig@.subrange(0, 32) == xonly_of(nonce_key@)
        }),
        r is Err ==> r == Err::<Vec<u8>, Error>(Error::Internal),
{
    let (rx, k) = get_schnorr_key(nonce_key)?;
    let (px, x) = get_schnorr_key(key)?;

    let tag_half = sha256(&"BIP0340/challenge".as_bytes_vec());
    let mut m: Vec<u8> = Vec::new();
    m.extend_from_slice(tag_half.as_slice());
    m.extend_from_slice(tag_half.as_slice());
    m.extend_from_slice(rx.as_slice());
    m.extend_from_slice(px.as_slice());
    m.extend_from_slice(msg.as_slice());
    assert(m@ =~= bip340_challenge_tag() + xonly_of(nonce_key@) + xonly_of(key@) + msg@);
    let e = sha256(&m);

    let challenge = match mul_secret(&x, &e) {
        Some(c) => c,
        None => {
            return Err(Error::Internal);
        },
    };
    let s = match add_secret(&k, &challenge) {
        Some(s) => s,
        None => {
            return Err(Error::Internal);
        },
    };

    let mut sig = rx;
    let mut s_part = s;
    sig.append(&mut s_part);
    assert(sig@ =~= sig_with_nonce_of(msg@, key@, nonce_key@));
    assert(sig@.subrange(0, 32) =~= xonly_of(nonce_key@));
    Ok(sig)
}

/// Relies on `std::time::SystemTime::now` and `duration_since` against the
/// unix epoch: the current time in seconds, truncated to 32 bits. The result
/// depends on the clock, so nothing is promised of it.
#[verifier::external_body]
pub fn now() -> u32 {
    let elapsed = std::time::SystemTime::now().duration_since(std::time::SystemTime::UNIX_EPOCH);
    match elapsed {
        Ok(d) => d.as_secs() as u32,
        Err(_) => 0,
    }
}

} // verus!
