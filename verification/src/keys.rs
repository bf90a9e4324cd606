//! Oracle key material: the signing scalar and the hierarchical nonce tree
//! derived from it.
//!
//! The nonce master is derived from the SHA-256 of the signing scalar's
//! bytes, and each nonce scalar is the hardened child of that master at the
//! nonce's index, so re-derivation from the same signing scalar and index
//! always yields the same secret.

use core::str::FromStr;
use vstd::prelude::*;
use crate::curve::secret_key_valid;
use crate::error::Error;

verus! {

/// First hardened index: indexes at or above this cannot be hardened
/// children.
pub const HARDENED_LIMIT: u32 = 0x80000000;

/// The secret scalar of the hardened child at `index` of the key tree whose
/// master is built from the 32-byte `seed`; a function of seed and index
/// alone.
pub uninterp spec fn nonce_secret_of(seed: Seq<u8>, index: u32) -> Seq<u8>;

/// Whether a master key can be built from the 32-byte `seed`: the first half
/// of the seed's HMAC-SHA512 is a valid secret scalar. A function of the
/// seed alone; false only with negligible probability.
pub uninterp spec fn nonce_master_valid(seed: Seq<u8>) -> bool;

/// Relies on `bitcoin::util::bip32::ExtendedPrivKey::new_master` and
/// `derive_priv`: building a master key from a 32-byte seed and deriving its
/// hardened child at `index` is deterministic in `(seed, index)`, and the
/// result is a valid secret scalar. `new_master` fails exactly when the
/// seed's HMAC does not give a valid scalar, a function of the seed alone;
/// for a hardened child below the limit, `derive_priv` returns no error.
#[verifier::external_body]
pub(crate) fn derive_nonce_secret(seed: &Vec<u8>, index: u32) -> (r: Option<Vec<u8>>)
    requires
        seed@.len() == 32,
        index < 0x80000000,
    ensures
        r is Some <==> nonce_master_valid(seed@),
        r matches Some(k) ==> k@ == nonce_secret_of(seed@, index) && k@.len() == 32
            && secret_key_valid(k@),
{
    let secp = bitcoin::secp256k1::Secp256k1::new();
    let master = bitcoin::util::bip32::ExtendedPrivKey::new_master(
        bitcoin::Network::Bitcoin,
        seed.as_slice(),
    ).ok()?;
    let child = bitcoin::util::bip32::ChildNumber::from_hardened_idx(index).ok()?;
    let xpriv = master.derive_priv(&secp, &[child]).ok()?;
    Some(xpriv.private_key.secret_bytes().to_vec())
}

#[verifier::external_type_specification]
#[verifier::external_body]
pub struct ExExtendedPrivKey(bitcoin::util::bip32::ExtendedPrivKey);

/// Relies on `bitcoin::util::bip32::DerivationPath::from_str` and
/// `ExtendedPrivKey::derive_priv`: the derived child's secret is a valid
/// scalar. Fails when the path does not parse or derivation fails.
#[verifier::external_body]
fn derive_at_path(xpriv: &bitcoin::util::bip32::ExtendedPrivKey, path: &str) -> (r: Option<
    Vec<u8>,
>)
    ensures
        r matches Some(k) ==> k@.len() == 32 && secret_key_valid(k@),
{
    let secp = bitcoin::secp256k1::Secp256k1::new();
    let p = bitcoin::util::bip32::DerivationPath::from_str(path).ok()?;
    let derived = xpriv.derive_priv(&secp, &p).ok()?;
    Some(derived.private_key.secret_bytes().to_vec())
}

/// Derive the oracle's signing scalar from an extended root key, at the
/// first taproot key path of BIP-86. This is the legacy way to construct the
/// oracle; the nonce tree is still derived from the signing scalar itself.
pub fn derive_signing_key(xpriv: &bitcoin::util::bip32::ExtendedPrivKey) -> (r: Result<
    Vec<u8>,
    Error,
>)
    ensures
        r matches Ok(k) ==> k@.len() == 32 && secret_key_valid(k@),
        r is Err ==> r == Err::<Vec<u8>, Error>(Error::Internal),
{
    match derive_at_path(xpriv, "m/86'/0'/0'/0/0") {
        Some(k) => Ok(k),
        None => Err(Error::Internal),
    }
}

} // verus!
