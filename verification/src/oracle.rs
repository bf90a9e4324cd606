//! The stateful coordinator: announce an event, later attest to its outcome.
//!
//! `create_enum_event` allocates a fresh nonce index, derives the nonce
//! point, signs the event and persists the announcement. `sign_enum_event`
//! re-derives the same nonce secret from the stored index and signs the
//! outcome with exactly that nonce, once.

use vstd::prelude::*;
use vstd::string::StrSliceExecFns;
use vstd::utf8::encode_utf8;
use crate::curve::{schnorr_sig_of, schnorr_verifies, secret_key_valid, sha256, sha256_of,
    sign_schnorr_no_aux, verify_schnorr, xonly_from_secret, xonly_of};
use crate::error::Error;
use crate::keys::{derive_nonce_secret, derive_signing_key, nonce_master_valid, nonce_secret_of,
    HARDENED_LIMIT};
use crate::messages::{copy_bytes, wf_str, EnumEventDescriptor, EnumEventDescriptorView,
    EventDescriptor, EventDescriptorView, OracleAnnouncement, OracleAttestation, OracleEvent,
    OracleEventView};
use crate::storage::{is_fresh_event, sigs_view, OracleEventDataView, Storage};
use crate::utils::{schnorr_sign_with_nonce, sig_with_nonce_of, sign_with_nonce_ok};
use crate::wire::{enc_event, encode_oracle_event};

verus! {

/// Inputs an enumerated event can be announced for: a nonempty event name,
/// at least one outcome, all outcomes distinct, everything within the wire
/// format's bounds.
pub open spec fn valid_enum_params(event_id: Seq<char>, outcomes: Seq<Seq<char>>) -> bool {
    &&& event_id.len() > 0
    &&& wf_str(event_id)
    &&& 0 < outcomes.len() <= 0xFFFF
    &&& forall|i: int| 0 <= i < outcomes.len() ==> wf_str(#[trigger] outcomes[i])
    &&& forall|i: int, j: int|
        0 <= i < j < outcomes.len() ==> #[trigger] outcomes[i] != #[trigger] outcomes[j]
}

/// Whether one of the strings equals `s`.
fn contains_string(v: &Vec<String>, s: &String) -> (r: bool)
    ensures
        r == exists|j: int| 0 <= j < v.deep_view().len() && v.deep_view()[j] == s@,
{
    let mut i: usize = 0;
    while i < v.len()
        invariant
            i <= v.len(),
            forall|j: int| 0 <= j < i ==> v.deep_view()[j] != s@,
        decreases v.len() - i,
    {
        if v[i].eq(s) {
            assert(v.deep_view()[i as int] == s@);
            return true;
        }
        i += 1;
    }
    false
}

/// Whether two byte vectors hold the same bytes.
fn bytes_eq(a: &Vec<u8>, b: &Vec<u8>) -> (r: bool)
    ensures
        r <==> a@ == b@,
{
    if a.len() != b.len() {
        return false;
    }
    let mut i: usize = 0;
    while i < a.len()
        invariant
            i <= a.len(),
            a@.len() == b@.len(),
            forall|j: int| 0 <= j < i ==> a@[j] == b@[j],
        decreases a.len() - i,
    {
        if a[i] != b[i] {
            return false;
        }
        i += 1;
    }
    assert(a@ =~= b@);
    true
}

/// Check announcement inputs: nonempty distinct outcomes, nonempty event
/// name, everything within the wire format's bounds.
fn validate_enum_params(event_id: &String, outcomes: &Vec<String>) -> (r: bool)
    ensures
        r == valid_enum_params(event_id@, outcomes.deep_view()),
{
    if event_id.as_str().is_empty() {
        return false;
    }
    if event_id.as_str().as_bytes_vec().len() as u64 > 0xFFFFFFFF {
        return false;
    }
    if outcomes.len() == 0 || outcomes.len() > 0xFFFF {
        return false;
    }
    let mut i: usize = 0;
    while i < outcomes.len()
        invariant
            i <= outcomes.len(),
            forall|k: int| 0 <= k < i ==> wf_str(#[trigger] outcomes.deep_view()[k]),
            forall|k: int, l: int|
                0 <= k < l < i ==> #[trigger] outcomes.deep_view()[k] != #[trigger] outcomes.deep_view()[l],
        decreases outcomes.len() - i,
    {
        assert(outcomes.deep_view()[i as int] == outcomes@[i as int]@);
        if outcomes[i].as_str().as_bytes_vec().len() as u64 > 0xFFFFFFFF {
            assert(!wf_str(outcomes.deep_view()[i as int]));
            return false;
        }
        let mut j: usize = 0;
        while j < i
            invariant
                j <= i < outcomes.len(),
                forall|l: int|
                    0 <= l < j ==> outcomes.deep_view()[l] != outcomes.deep_view()[i as int],
            decreases i - j,
        {
            if outcomes[j].eq(&outcomes[i]) {
                assert(outcomes.deep_view()[j as int] == outcomes.deep_view()[i as int]);
                return false;
            }
            j += 1;
        }
        i += 1;
    }
    true
}

/// The oracle: a signing scalar, its X-only public key, and the seed of the
/// nonce tree (the SHA-256 of the signing scalar).
#[derive(Debug)]
pub struct Oracle<S: Storage> {
    /// The store of announced and attested events.
    pub storage: S,
    /// The oracle's secret signing scalar.
    pub signing_key: Vec<u8>,
    /// The serialized X-only public key of `signing_key`.
    pub pubkey: Vec<u8>,
    /// The seed of the nonce tree: the SHA-256 of `signing_key`.
    pub nonce_seed: Vec<u8>,
}

impl<S: Storage> Oracle<S> {
    /// The oracle's key material is internally consistent.
    pub closed spec fn wf(&self) -> bool {
        &&& self.signing_key@.len() == 32
        &&& secret_key_valid(self.signing_key@)
        &&& self.pubkey@ == xonly_of(self.signing_key@)
        &&& self.pubkey@.len() == 32
        &&& self.nonce_seed@ == sha256_of(self.signing_key@)
        &&& self.nonce_seed@.len() == 32
    }

    /// The signing scalar's bytes.
    pub closed spec fn spec_signing_key(&self) -> Seq<u8> {
        self.signing_key@
    }

    /// The oracle's serialized X-only public key.
    pub closed spec fn spec_public_key(&self) -> Seq<u8> {
        xonly_of(self.signing_key@)
    }

    /// The nonce secret the oracle derives for a given index: a function of
    /// the signing scalar and the index alone.
    pub closed spec fn spec_nonce_key(&self, index: u32) -> Seq<u8> {
        nonce_secret_of(sha256_of(self.signing_key@), index)
    }

    /// Build an oracle from a raw 32-byte signing scalar; the nonce tree is
    /// derived from the scalar's SHA-256, so the same scalar always yields
    /// the same nonce tree.
    pub fn from_signing_key(storage: S, signing_key: Vec<u8>) -> (r: Result<Self, Error>)
        ensures
            r matches Ok(o) ==> ({
                &&& o.wf()
                &&& o.spec_signing_key() == signing_key@
                &&& o.spec_public_key() == xonly_of(signing_key@)
                &&& o.storage == storage
            }),
            r is Err ==> r == Err::<Self, Error>(Error::InvalidArgument) && (signing_key@.len()
                != 32 || !secret_key_valid(signing_key@)),
    {
        if signing_key.len() != 32 {
            return Err(Error::InvalidArgument);
        }
        let (pubkey, _) = match xonly_from_secret(&signing_key) {
            Some(p) => p,
            None => {
                return Err(Error::InvalidArgument);
            },
        };
        let nonce_seed = sha256(&signing_key);
        Ok(Oracle { storage, signing_key, pubkey, nonce_seed })
    }

    /// Build an oracle from a raw 32-byte signing scalar.
    pub fn new(storage: S, signing_key: Vec<u8>) -> (r: Result<Self, Error>)
        ensures
            r matches Ok(o) ==> ({
                &&& o.wf()
                &&& o.spec_signing_key() == signing_key@
                &&& o.spec_public_key() == xonly_of(signing_key@)
                &&& o.storage == storage
            }),
            r is Err ==> signing_key@.len() != 32 || !secret_key_valid(signing_key@),
    {
        Self::from_signing_key(storage, signing_key)
    }

    /// Build an oracle from an extended root key, deriving the signing
    /// scalar at the BIP-86 first taproot key path.
    pub fn from_xpriv(storage: S, xpriv: &bitcoin::util::bip32::ExtendedPrivKey) -> (r: Result<
        Self,
        Error,
    >)
        ensures
            r matches Ok(o) ==> o.wf() && o.storage == storage,
            r is Err ==> r == Err::<Self, Error>(Error::Internal),
    {
        let signing_key = derive_signing_key(xpriv)?;
        match Self::from_signing_key(storage, signing_key) {
            Ok(o) => Ok(o),
            Err(_) => Err(Error::Internal),
        }
    }

    /// The oracle's serialized X-only public key.
    pub fn public_key(&self) -> (r: Vec<u8>)
        requires
            self.wf(),
        ensures
            r@ == self.spec_public_key(),
            r@.len() == 32,
    {
        copy_bytes(&self.pubkey)
    }

    /// Derive the nonce secret for an index; defined on every u32 index.
    /// The result is pinned to `nonce_secret_of(sha256(signing scalar),
    /// index)`, a pure function of the signing scalar and the index:
    /// re-derivation returns the same secret on every call, in every
    /// process, with no dependence on stored state. Indexes at or above the
    /// hardened limit have no hardened child and fail with `Internal`, as
    /// does a (negligible-probability) seed whose master key derivation
    /// fails.
    pub fn get_nonce_key(&self, index: u32) -> (r: Result<Vec<u8>, Error>)
        requires
            self.wf(),
        ensures
            r is Ok <==> (index < 0x80000000 && nonce_master_valid(
                sha256_of(self.spec_signing_key()),
            )),
            r matches Ok(k) ==> k@ == self.spec_nonce_key(index) && k@.len() == 32
                && secret_key_valid(k@),
            r is Err ==> r == Err::<Vec<u8>, Error>(Error::Internal),
    {
        if index >= HARDENED_LIMIT {
            return Err(Error::Internal);
        }
        match derive_nonce_secret(&self.nonce_seed, index) {
            Some(k) => Ok(k),
            None => Err(Error::Internal),
        }
    }

    /// Announce an enumerated event: allocate one nonce index, derive the
    /// nonce point, sign the serialized event, persist the announcement.
    ///
    /// On success the announcement verifies: its signature is a valid
    /// Schnorr signature by the oracle's public key over the SHA-256 of the
    /// serialized event.
    pub fn create_enum_event(
        &mut self,
        event_id: String,
        outcomes: Vec<String>,
        event_maturity_epoch: u32,
    ) -> (r: Result<(u32, OracleAnnouncement), Error>)
        requires
            old(self).wf(),
        ensures
            final(self).wf(),
            final(self).spec_signing_key() == old(self).spec_signing_key(),
            final(self).spec_public_key() == old(self).spec_public_key(),
            final(self).storage.counter() >= old(self).storage.counter(),
            !valid_enum_params(event_id@, outcomes.deep_view()) ==> r == Err::<
                (u32, OracleAnnouncement),
                Error,
            >(Error::InvalidArgument) && final(self).storage == old(self).storage,
            valid_enum_params(event_id@, outcomes.deep_view()) ==> (r is Ok || r == Err::<
                (u32, OracleAnnouncement),
                Error,
            >(Error::StorageFailure) || r == Err::<(u32, OracleAnnouncement), Error>(
                Error::Internal,
            )),
            r matches Ok((id, ann)) ==> ({
                &&& valid_enum_params(event_id@, outcomes.deep_view())
                &&& ann@.wf()
                &&& ann@.oracle_event.valid()
                &&& ann@.oracle_event.event_id == event_id@
                &&& ann@.oracle_event.event_maturity_epoch == event_maturity_epoch
                &&& ann@.oracle_event.event_descriptor == EventDescriptorView::EnumEvent(
                    EnumEventDescriptorView { outcomes: outcomes.deep_view() },
                )
                &&& ann@.oracle_event.oracle_nonces.len() == 1
                &&& ann@.oracle_event.oracle_nonces[0] == xonly_of(
                    old(self).spec_nonce_key(old(self).storage.counter()),
                )
                &&& ann@.oracle_public_key == old(self).spec_public_key()
                &&& ann@.announcement_signature == schnorr_sig_of(
                    sha256_of(enc_event(ann@.oracle_event)),
                    old(self).spec_signing_key(),
                )
                &&& schnorr_verifies(
                    ann@.announcement_signature,
                    sha256_of(enc_event(ann@.oracle_event)),
                    ann@.oracle_public_key,
                )
                &&& id == old(self).storage.events().len() as u32
                &&& final(self).storage.counter() == old(self).storage.counter() + 1
                &&& final(self).storage.events() == old(self).storage.events().push(
                    final(self).storage.events().last(),
                )
                &&& is_fresh_event(
                    final(self).storage.events().last(),
                    ann@,
                    seq![old(self).storage.counter()],
                    id,
                )
            }),
            (valid_enum_params(event_id@, outcomes.deep_view()) && old(self).storage.counter()
                >= 0x80000000) ==> r is Err,
            ({
                let sk = old(self).spec_signing_key();
                let ev = OracleEventView {
                    oracle_nonces: seq![
                        xonly_of(old(self).spec_nonce_key(old(self).storage.counter())),
                    ],
                    event_maturity_epoch: event_maturity_epoch,
                    event_descriptor: EventDescriptorView::EnumEvent(
                        EnumEventDescriptorView { outcomes: outcomes.deep_view() },
                    ),
                    event_id: event_id@,
                };
                &&& valid_enum_params(event_id@, outcomes.deep_view())
                &&& old(self).storage.counter() < 0x80000000
                &&& nonce_master_valid(sha256_of(sk))
                &&& !schnorr_verifies(
                    schnorr_sig_of(sha256_of(enc_event(ev)), sk),
                    sha256_of(enc_event(ev)),
                    old(self).spec_public_key(),
                )
            }) ==> r is Err,
            ({
                let sk = old(self).spec_signing_key();
                let ev = OracleEventView {
                    oracle_nonces: seq![
                        xonly_of(old(self).spec_nonce_key(old(self).storage.counter())),
                    ],
                    event_maturity_epoch: event_maturity_epoch,
                    event_descriptor: EventDescriptorView::EnumEvent(
                        EnumEventDescriptorView { outcomes: outcomes.deep_view() },
                    ),
                    event_id: event_id@,
                };
                &&& valid_enum_params(event_id@, outcomes.deep_view())
                &&& old(self).storage.counter() < 0x80000000
                &&& nonce_master_valid(sha256_of(sk))
                &&& schnorr_verifies(
                    schnorr_sig_of(sha256_of(enc_event(ev)), sk),
                    sha256_of(enc_event(ev)),
                    old(self).spec_public_key(),
                )
            }) ==> (r is Ok || r == Err::<(u32, OracleAnnouncement), Error>(
                Error::StorageFailure,
            )),
            r is Err ==> final(self).storage.events() == old(self).storage.events(),
    {
        if !validate_enum_params(&event_id, &outcomes) {
            return Err(Error::InvalidArgument);
        }
        let indexes = match self.storage.get_next_nonce_indexes(1) {
            Ok(v) => v,
            Err(e) => {
                return Err(e);
            },
        };
        let index = indexes[0];
        let nonce_key = match self.get_nonce_key(index) {
            Ok(k) => k,
            Err(e) => {
                return Err(e);
            },
        };
        let (nonce_point, _) = match xonly_from_secret(&nonce_key) {
            Some(p) => p,
            None => {
                return Err(Error::Internal);
            },
        };
        let mut oracle_nonces: Vec<Vec<u8>> = Vec::new();
        oracle_nonces.push(nonce_point);
        let oracle_event = OracleEvent {
            oracle_nonces,
            event_maturity_epoch,
            event_descriptor: EventDescriptor::EnumEvent(EnumEventDescriptor { outcomes }),
            event_id,
        };
        assert(oracle_event@.wf());
        proof {
            assert(oracle_event@ =~~= OracleEventView {
                oracle_nonces: seq![
                    xonly_of(old(self).spec_nonce_key(old(self).storage.counter())),
                ],
                event_maturity_epoch: event_maturity_epoch,
                event_descriptor: EventDescriptorView::EnumEvent(
                    EnumEventDescriptorView { outcomes: outcomes.deep_view() },
                ),
                event_id: event_id@,
            });
        }

        let data = encode_oracle_event(&oracle_event);
        let msg = sha256(&data);
        let sig = sign_schnorr_no_aux(&msg, &self.signing_key);
        if !verify_schnorr(&sig, &msg, &self.pubkey) {
            return Err(Error::Internal);
        }
        let ann = OracleAnnouncement {
            announcement_signature: sig,
            oracle_public_key: copy_bytes(&self.pubkey),
            oracle_event,
        };
        let stored = ann.duplicate();
        match self.storage.save_announcement(stored, indexes) {
            Ok(id) => {
                assert(seq![old(self).storage.counter()] =~= indexes@);
                Ok((id, ann))
            },
            Err(e) => Err(e),
        }
    }

    /// Attest to an announced event's outcome: re-derive the committed nonce
    /// from its stored index, sign the outcome's hash with exactly that
    /// nonce, and persist the signature. An event is signed at most once.
    ///
    /// On success the attestation verifies under the oracle's public key,
    /// and its signature's first 32 bytes equal the announcement's nonce
    /// point.
    pub fn sign_enum_event(&mut self, id: u32, outcome: String) -> (r: Result<
        OracleAttestation,
        Error,
    >)
        requires
            old(self).wf(),
        ensures
            final(self).wf(),
            final(self).spec_signing_key() == old(self).spec_signing_key(),
            final(self).spec_public_key() == old(self).spec_public_key(),
            final(self).storage.counter() == old(self).storage.counter(),
            r matches Ok(att) ==> ({
                let evs = old(self).storage.events();
                let stored = evs[id as int];
                &&& id < evs.len()
                &&& stored.signatures.len() == 0
                &&& stored.indexes.len() == 1
                &&& stored.announcement.oracle_event.event_descriptor matches
                    EventDescriptorView::EnumEvent(e) && (exists|j: int|
                    0 <= j < e.outcomes.len() && e.outcomes[j] == outcome@)
                &&& att@.oracle_public_key == old(self).spec_public_key()
                &&& att@.outcomes.len() == 1 && att@.outcomes[0] == outcome@
                &&& att@.signatures.len() == 1 && att@.signatures[0].len() == 64
                &&& att@.signatures[0].subrange(0, 32)
                    == stored.announcement.oracle_event.oracle_nonces[0]
                &&& att@.signatures[0] == sig_with_nonce_of(
                    sha256_of(encode_utf8(outcome@)),
                    old(self).spec_signing_key(),
                    old(self).spec_nonce_key(stored.indexes[0]),
                )
                &&& schnorr_verifies(
                    att@.signatures[0],
                    sha256_of(encode_utf8(outcome@)),
                    att@.oracle_public_key,
                )
                &&& final(self).storage.events() == evs.update(
                    id as int,
                    OracleEventDataView {
                        signatures: seq![(outcome@, att@.signatures[0])],
                        ..stored
                    },
                )
            }),
            r == Err::<OracleAttestation, Error>(Error::NotFound) <==> id >= old(
                self,
            ).storage.events().len(),
            r == Err::<OracleAttestation, Error>(Error::EventAlreadySigned) <==> (id < old(
                self,
            ).storage.events().len() && old(self).storage.events()[id as int].signatures.len()
                > 0),
            ({
                let evs = old(self).storage.events();
                &&& id < evs.len()
                &&& evs[id as int].signatures.len() == 0
                &&& evs[id as int].indexes.len() == 1
                &&& (evs[id as int].announcement.oracle_event.event_descriptor matches
                    EventDescriptorView::EnumEvent(e) && !(exists|j: int|
                    0 <= j < e.outcomes.len() && e.outcomes[j] == outcome@))
            }) ==> r == Err::<OracleAttestation, Error>(Error::InvalidOutcome),
            ({
                let evs = old(self).storage.events();
                &&& id < evs.len()
                &&& evs[id as int].signatures.len() == 0
                &&& (evs[id as int].indexes.len() != 1 || !(
                evs[id as int].announcement.oracle_event.event_descriptor is EnumEvent))
            }) ==> r == Err::<OracleAttestation, Error>(Error::Internal),
            ({
                let evs = old(self).storage.events();
                &&& id < evs.len()
                &&& evs[id as int].signatures.len() == 0
                &&& evs[id as int].indexes.len() == 1
                &&& (evs[id as int].announcement.oracle_event.event_descriptor matches
                    EventDescriptorView::EnumEvent(e) && (exists|j: int|
                    0 <= j < e.outcomes.len() && e.outcomes[j] == outcome@))
            }) ==> (r is Ok || r == Err::<OracleAttestation, Error>(Error::StorageFailure) || r
                == Err::<OracleAttestation, Error>(Error::Internal)),
            ({
                let evs = old(self).storage.events();
                let stored = evs[id as int];
                let msg = sha256_of(encode_utf8(outcome@));
                let nk = old(self).spec_nonce_key(stored.indexes[0]);
                &&& id < evs.len()
                &&& stored.signatures.len() == 0
                &&& stored.indexes.len() == 1
                &&& (stored.announcement.oracle_event.event_descriptor matches
                    EventDescriptorView::EnumEvent(e) && (exists|j: int|
                    0 <= j < e.outcomes.len() && e.outcomes[j] == outcome@))
                &&& stored.indexes[0] < 0x80000000
                &&& nonce_master_valid(sha256_of(old(self).spec_signing_key()))
                &&& sign_with_nonce_ok(msg, old(self).spec_signing_key(), nk)
                &&& stored.announcement.oracle_event.oracle_nonces.len() == 1
                &&& stored.announcement.oracle_event.oracle_nonces[0] == xonly_of(nk)
                &&& schnorr_verifies(
                    sig_with_nonce_of(msg, old(self).spec_signing_key(), nk),
                    msg,
                    old(self).spec_public_key(),
                )
            }) ==> (r is Ok || r == Err::<OracleAttestation, Error>(Error::StorageFailure)),
            r == Err::<OracleAttestation, Error>(Error::InvalidOutcome) ==> ({
                let stored = old(self).storage.events()[id as int];
                &&& id < old(self).storage.events().len()
                &&& stored.signatures.len() == 0
                &&& (stored.announcement.oracle_event.event_descriptor matches
                    EventDescriptorView::EnumEvent(e) && !(exists|j: int|
                    0 <= j < e.outcomes.len() && e.outcomes[j] == outcome@))
            }),
            r is Err ==> final(self).storage.events() == old(self).storage.events(),
    {
        let data = match self.storage.get_event(id) {
            Ok(d) => d,
            Err(_) => {
                return Err(Error::StorageFailure);
            },
        };
        let data = match data {
            Some(d) => d,
            None => {
                return Err(Error::NotFound);
            },
        };
        if data.signatures.len() > 0 {
            return Err(Error::EventAlreadySigned);
        }
        if data.indexes.len() != 1 {
            return Err(Error::Internal);
        }
        let in_domain = match &data.announcement.oracle_event.event_descriptor {
            EventDescriptor::EnumEvent(e) => contains_string(&e.outcomes, &outcome),
            EventDescriptor::DigitDecompositionEvent(_) => {
                return Err(Error::Internal);
            },
        };
        if !in_domain {
            return Err(Error::InvalidOutcome);
        }

        let index = data.indexes[0];
        let nonce_key = match self.get_nonce_key(index) {
            Ok(k) => k,
            Err(e) => {
                return Err(e);
            },
        };

        let outcome_bytes = outcome.as_str().as_bytes_vec();
        let msg = sha256(&outcome_bytes);
        let sig = match schnorr_sign_with_nonce(&msg, &self.signing_key, &nonce_key) {
            Ok(s) => s,
            Err(e) => {
                return Err(e);
            },
        };

        // The signature's R component must be the nonce point committed to
        // in the announcement.
        if data.announcement.oracle_event.oracle_nonces.len() != 1 {
            return Err(Error::Internal);
        }
        let expected_nonce = match xonly_from_secret(&nonce_key) {
            Some((x, _)) => x,
            None => {
                return Err(Error::Internal);
            },
        };
        proof {
            assert(data.announcement.oracle_event.oracle_nonces.deep_view()[0]
                == data.announcement.oracle_event.oracle_nonces@[0]@);
        }
        if !bytes_eq(&expected_nonce, &data.announcement.oracle_event.oracle_nonces[0]) {
            return Err(Error::Internal);
        }

        if !verify_schnorr(&sig, &msg, &self.pubkey) {
            return Err(Error::Internal);
        }

        let ghost sigv = sig@;
        let ghost outcomev = outcome@;
        let mut sigs: Vec<(String, Vec<u8>)> = Vec::new();
        sigs.push((outcome.clone(), copy_bytes(&sig)));
        let ghost sigsv = sigs@;
        proof {
            assert(sigs_view(sigs@) =~= seq![(outcomev, sigv)]);
        }
        match self.storage.save_signatures(id, sigs) {
            Ok(_) => (),
            Err(e) => {
                return Err(e);
            },
        }

        let mut att_outcomes: Vec<String> = Vec::new();
        att_outcomes.push(outcome);
        let mut att_sigs: Vec<Vec<u8>> = Vec::new();
        att_sigs.push(sig);
        let att = OracleAttestation {
            oracle_public_key: copy_bytes(&self.pubkey),
            signatures: att_sigs,
            outcomes: att_outcomes,
        };
        proof {
            let evs = old(self).storage.events();
            let stored = evs[id as int];
            assert(data@ == stored);
            assert(att@.signatures =~~= seq![sigv]);
            assert(att@.outcomes =~~= seq![outcomev]);
            assert(data.announcement.oracle_event.oracle_nonces.deep_view()[0] == expected_nonce@);
            assert(sigs_view(sigsv) =~= seq![(outcomev, sigv)]);
            assert(final(self).storage.events() == evs.update(
                id as int,
                OracleEventDataView { signatures: seq![(outcomev, sigv)], ..stored },
            )) by {
                assert(OracleEventDataView { signatures: sigs_view(sigsv), ..stored } =~~=
                    OracleEventDataView { signatures: seq![(outcomev, sigv)], ..stored });
            }
        }
        Ok(att)
    }
}

/// Nonce indexes handed out by two allocations whose ranges do not touch
/// never collide: with the counter only ever moving forward, no index is
/// ever handed out twice.
pub proof fn lemma_nonce_indexes_unique(a: Seq<u32>, ca: u32, b: Seq<u32>, cb: u32)
    requires
        forall|i: int| 0 <= i < a.len() ==> a[i] == ca + i,
        forall|i: int| 0 <= i < b.len() ==> b[i] == cb + i,
        ca + a.len() <= cb,
    ensures
        forall|i: int, j: int| 0 <= i < a.len() && 0 <= j < b.len() ==> a[i] != b[j],
{
}

/// Re-derivation is deterministic: two oracles with the same signing scalar
/// derive the same nonce secret at every index, across restarts.
pub proof fn lemma_nonce_rederivation_deterministic<S1: Storage, S2: Storage>(
    a: &Oracle<S1>,
    b: &Oracle<S2>,
    index: u32,
)
    requires
        a.spec_signing_key() == b.spec_signing_key(),
    ensures
        a.spec_nonce_key(index) == b.spec_nonce_key(index),
{
}

} // verus!
