//! Curve operations over secp256k1, as plain-byte functions.
//!
//! Secret scalars, X-only public keys and signatures all cross this boundary
//! as byte vectors (32, 32 and 64 bytes). The outside library's results are
//! named by uninterpreted functions; everything the oracle proves about
//! signatures is stated over those names.

use vstd::prelude::*;

verus! {

/// The value of a byte sequence read as a big-endian integer.
pub open spec fn be_val(s: Seq<u8>) -> int
    decreases s.len(),
{
    if s.len() == 0 {
        0
    } else {
        be_val(s.drop_last()) * 0x100 + s.last()
    }
}

/// The order of the secp256k1 group.
pub open spec fn secp_order() -> int {
    0xFFFFFFFFFFFFFFFFFFFFFFFFFFFFFFFEBAAEDCE6AF48A03BBFD25E8CD0364141int
}

/// The serialized zero scalar.
pub open spec fn zero_scalar() -> Seq<u8> {
    Seq::new(32, |i: int| 0u8)
}

/// Whether 32 bytes are a valid secret scalar: nonzero and below the group
/// order. This is the success domain of `secp256k1::SecretKey::from_slice`
/// on 32-byte input, and of `ec_seckey_verify` generally.
pub open spec fn secret_key_valid(s: Seq<u8>) -> bool {
    s.len() == 32 && 0 < be_val(s) < secp_order()
}

/// The serialized X-only public key of a secret scalar.
pub uninterp spec fn xonly_of(s: Seq<u8>) -> Seq<u8>;

/// Whether the full public key of a secret scalar has odd Y parity.
pub uninterp spec fn parity_odd_of(s: Seq<u8>) -> bool;

/// The negation of a secret scalar, modulo the group order.
pub uninterp spec fn scalar_neg_of(s: Seq<u8>) -> Seq<u8>;

/// The modular product of a secret scalar and a 32-byte scalar.
pub uninterp spec fn scalar_mul_of(s: Seq<u8>, t: Seq<u8>) -> Seq<u8>;

/// The modular sum of a secret scalar and a 32-byte scalar.
pub uninterp spec fn scalar_add_of(s: Seq<u8>, t: Seq<u8>) -> Seq<u8>;

/// The SHA-256 digest of a byte sequence.
pub uninterp spec fn sha256_of(b: Seq<u8>) -> Seq<u8>;

/// The deterministic (no auxiliary randomness) BIP-340 signature over a
/// 32-byte message by a secret scalar.
pub uninterp spec fn schnorr_sig_of(msg: Seq<u8>, key: Seq<u8>) -> Seq<u8>;

/// Whether a 64-byte signature verifies under BIP-340 for the given 32-byte
/// message and serialized X-only public key.
pub uninterp spec fn schnorr_verifies(sig: Seq<u8>, msg: Seq<u8>, pk: Seq<u8>) -> bool;

/// A secret scalar normalized to even Y parity, as BIP-340 signing requires:
/// negated when its public key has odd parity, unchanged otherwise.
pub open spec fn norm_scalar_of(s: Seq<u8>) -> Seq<u8> {
    if parity_odd_of(s) {
        scalar_neg_of(s)
    } else {
        s
    }
}

/// Relies on `bitcoin::hashes::sha256::Hash::hash`: the 32-byte SHA-256
/// digest, a function of the input bytes alone.
#[verifier::external_body]
pub fn sha256(b: &Vec<u8>) -> (r: Vec<u8>)
    ensures
        r@ == sha256_of(b@),
        r@.len() == 32,
{
    let h = <bitcoin::hashes::sha256::Hash as bitcoin::hashes::Hash>::hash(b.as_slice());
    <bitcoin::hashes::sha256::Hash as bitcoin::hashes::Hash>::into_inner(h).to_vec()
}

/// Relies on `secp256k1::SecretKey::from_slice` (succeeds exactly on valid
/// scalars) and `SecretKey::x_only_public_key` (the X-only public key and
/// its parity, functions of the scalar alone).
#[verifier::external_body]
pub fn xonly_from_secret(sk: &Vec<u8>) -> (r: Option<(Vec<u8>, bool)>)
    requires
        sk@.len() == 32,
    ensures
        r is Some <==> secret_key_valid(sk@),
        r matches Some((x, odd)) ==> x@ == xonly_of(sk@) && x@.len() == 32 && odd
            == parity_odd_of(sk@),
{
    let secp = bitcoin::secp256k1::Secp256k1::new();
    let key = bitcoin::secp256k1::SecretKey::from_slice(sk.as_slice()).ok()?;
    let (xonly, parity) = key.x_only_public_key(&secp);
    Some((xonly.serialize().to_vec(), parity == bitcoin::secp256k1::Parity::Odd))
}

/// Relies on `secp256k1::SecretKey::negate`: the negation modulo the group
/// order, itself a valid scalar, a function of the input alone.
#[verifier::external_body]
pub(crate) fn negate_secret(sk: &Vec<u8>) -> (r: Vec<u8>)
    requires
        sk@.len() == 32,
        secret_key_valid(sk@),
    ensures
        r@ == scalar_neg_of(sk@),
        r@.len() == 32,
        secret_key_valid(r@),
{
    let key = bitcoin::secp256k1::SecretKey::from_slice(sk.as_slice()).expect("valid scalar");
    key.negate().secret_bytes().to_vec()
}

/// Relies on `secp256k1::SecretKey::mul_tweak` and `Scalar::from_be_bytes`:
/// the modular product, a valid scalar, a function of the inputs alone. It
/// fails exactly when the tweak is not itself a valid secret scalar (out of
/// range, per `Scalar::from_be_bytes`, or zero, per `ec_seckey_tweak_mul`'s
/// check of the tweak against `ec_seckey_verify`).
#[verifier::external_body]
pub(crate) fn mul_secret(sk: &Vec<u8>, t: &Vec<u8>) -> (r: Option<Vec<u8>>)
    requires
        sk@.len() == 32,
        secret_key_valid(sk@),
        t@.len() == 32,
    ensures
        r is Some <==> secret_key_valid(t@),
        r matches Some(v) ==> v@ == scalar_mul_of(sk@, t@) && v@.len() == 32 && secret_key_valid(
            v@,
        ),
{
    let key = bitcoin::secp256k1::SecretKey::from_slice(sk.as_slice()).ok()?;
    let mut bytes = [0u8; 32];
    bytes.copy_from_slice(t.as_slice());
    let scalar = bitcoin::secp256k1::Scalar::from_be_bytes(bytes).ok()?;
    let out = key.mul_tweak(&scalar).ok()?;
    Some(out.secret_bytes().to_vec())
}

/// Relies on `secp256k1::SecretKey::add_tweak` and `Scalar::from_be_bytes`:
/// the modular sum, a valid scalar, a function of the inputs alone. It fails
/// exactly when the tweak is out of range (`Scalar::from_be_bytes` rejects
/// values at or above the group order; zero is a valid `Scalar`) or the sum
/// is zero (`ec_seckey_tweak_add` rejects only a zero sum, the tweak being
/// the negation of the key — a zero term is accepted).
#[verifier::external_body]
pub(crate) fn add_secret(sk: &Vec<u8>, t: &Vec<u8>) -> (r: Option<Vec<u8>>)
    requires
        sk@.len() == 32,
        secret_key_valid(sk@),
        t@.len() == 32,
    ensures
        r is Some <==> (be_val(t@) < secp_order() && scalar_add_of(sk@, t@) != zero_scalar()),
        r matches Some(v) ==> v@ == scalar_add_of(sk@, t@) && v@.len() == 32 && secret_key_valid(
            v@,
        ),
{
    let key = bitcoin::secp256k1::SecretKey::from_slice(sk.as_slice()).ok()?;
    let mut bytes = [0u8; 32];
    bytes.copy_from_slice(t.as_slice());
    let scalar = bitcoin::secp256k1::Scalar::from_be_bytes(bytes).ok()?;
    let out = key.add_tweak(&scalar).ok()?;
    Some(out.secret_bytes().to_vec())
}

/// Relies on `secp256k1::Secp256k1::sign_schnorr_no_aux_rand`: a 64-byte
/// BIP-340 signature with no auxiliary randomness, a function of the message
/// and key alone.
#[verifier::external_body]
pub fn sign_schnorr_no_aux(msg: &Vec<u8>, sk: &Vec<u8>) -> (r: Vec<u8>)
    requires
        msg@.len() == 32,
        sk@.len() == 32,
        secret_key_valid(sk@),
    ensures
        r@ == schnorr_sig_of(msg@, sk@),
        r@.len() == 64,
{
    let secp = bitcoin::secp256k1::Secp256k1::new();
    let key = bitcoin::secp256k1::SecretKey::from_slice(sk.as_slice()).expect("valid scalar");
    let keypair = bitcoin::secp256k1::KeyPair::from_secret_key(&secp, &key);
    let m = bitcoin::secp256k1::Message::from_slice(msg.as_slice()).expect("32 bytes");
    secp.sign_schnorr_no_aux_rand(&m, &keypair).as_ref().to_vec()
}

/// Relies on `secp256k1::Secp256k1::verify_schnorr`: BIP-340 verification, a
/// function of signature, message and key bytes alone. Byte vectors that are
/// not a valid signature or public key verify as false.
#[verifier::external_body]
pub fn verify_schnorr(sig: &Vec<u8>, msg: &Vec<u8>, pk: &Vec<u8>) -> (r: bool)
    requires
        sig@.len() == 64,
        msg@.len() == 32,
        pk@.len() == 32,
    ensures
        r == schnorr_verifies(sig@, msg@, pk@),
{
    let secp = bitcoin::secp256k1::Secp256k1::new();
    let signature = match bitcoin::secp256k1::schnorr::Signature::from_slice(sig.as_slice()) {
        Ok(s) => s,
        Err(_) => return false,
    };
    let m = bitcoin::secp256k1::Message::from_slice(msg.as_slice()).expect("32 bytes");
    let xonly = match bitcoin::secp256k1::XOnlyPublicKey::from_slice(pk.as_slice()) {
        Ok(x) => x,
        Err(_) => return false,
    };
    secp.verify_schnorr(&signature, &m, &xonly).is_ok()
}

} // verus!
