//! End-to-end tests of the announce/attest state machine over the in-memory
//! store.

use bitcoin::secp256k1::rand::{thread_rng, Rng};
use bitcoin::util::bip32::ExtendedPrivKey;
use bitcoin::Network;
use lightning::util::ser::{Readable, Writeable};

use kormir::{Error, EventDescriptor, MemoryStorage, Oracle, Storage};

fn create_oracle() -> Oracle<MemoryStorage> {
    let mut seed: [u8; 64] = [0; 64];
    thread_rng().fill(&mut seed);
    let xpriv = ExtendedPrivKey::new_master(Network::Regtest, &seed).unwrap();
    Oracle::from_xpriv(MemoryStorage::new(), &xpriv).unwrap()
}

/// Decode our serialized announcement with the independent DLC message
/// library and run its validity check.
fn foreign_validate(bytes: &[u8]) -> dlc_messages::oracle_msgs::OracleAnnouncement {
    let mut cursor = lightning::io::Cursor::new(bytes);
    let ann = dlc_messages::oracle_msgs::OracleAnnouncement::read(&mut cursor).unwrap();
    let secp = bitcoin::secp256k1::Secp256k1::new();
    ann.validate(&secp).unwrap();
    ann
}

#[test]
fn test_create_enum_event() {
    let mut oracle = create_oracle();

    let event_id = "test".to_string();
    let outcomes = vec!["a".to_string(), "b".to_string()];
    let event_maturity_epoch = 100;
    let (_, ann) = oracle
        .create_enum_event(event_id.clone(), outcomes.clone(), event_maturity_epoch)
        .unwrap();

    let bytes = kormir::wire::encode_announcement(&ann);
    foreign_validate(&bytes);
    assert_eq!(ann.oracle_event.event_id, event_id);
    assert_eq!(ann.oracle_event.event_maturity_epoch, event_maturity_epoch);
    match &ann.oracle_event.event_descriptor {
        EventDescriptor::EnumEvent(e) => assert_eq!(e.outcomes, outcomes),
        EventDescriptor::DigitDecompositionEvent(_) => panic!("expected an enum descriptor"),
    }
}

#[test]
fn test_sign_enum_event() {
    let mut oracle = create_oracle();

    let event_id = "test".to_string();
    let outcomes = vec!["a".to_string(), "b".to_string()];
    let event_maturity_epoch = std::time::SystemTime::now()
        .duration_since(std::time::UNIX_EPOCH)
        .unwrap()
        .as_secs() as u32
        + 86400;
    let (id, ann) = oracle
        .create_enum_event(event_id, outcomes.clone(), event_maturity_epoch)
        .unwrap();

    println!("{}", hex::encode(kormir::wire::encode_announcement(&ann)));

    let attestation = oracle.sign_enum_event(id, "a".to_string()).unwrap();
    assert!(attestation.outcomes.contains(&"a".to_string()));
    assert_eq!(attestation.oracle_public_key, oracle.public_key());
    assert_eq!(attestation.signatures.len(), 1);
    assert_eq!(attestation.outcomes.len(), 1);
    let sig = attestation.signatures.first().unwrap();

    // check first 32 bytes of signature is expected nonce
    let expected_nonce = ann.oracle_event.oracle_nonces.first().unwrap();
    let (rx, _sig) = sig.split_at(32);

    println!("{}", hex::encode(kormir::wire::encode_attestation(&attestation)));

    assert_eq!(rx, expected_nonce.as_slice())
}

/// Happy path with a fixed signing key: announce, verify, attest, and check
/// the attestation's R component against the announced nonce.
#[test]
fn happy_path_enum_fixed_key() {
    let storage = MemoryStorage::new();
    let mut oracle = Oracle::from_signing_key(storage, vec![1u8; 32]).unwrap();

    let (id, ann) = oracle
        .create_enum_event("test".to_string(), vec!["a".to_string(), "b".to_string()], 100)
        .unwrap();
    assert_eq!(ann.oracle_event.oracle_nonces.len(), 1);

    let bytes = kormir::wire::encode_announcement(&ann);
    let foreign = foreign_validate(&bytes);
    // Foreign re-encode is byte-identical.
    assert_eq!(foreign.encode(), bytes);

    let att = oracle.sign_enum_event(id, "a".to_string()).unwrap();
    assert_eq!(att.outcomes, vec!["a".to_string()]);
    assert_eq!(att.signatures.len(), 1);
    assert_eq!(&att.signatures[0][..32], ann.oracle_event.oracle_nonces[0].as_slice());

    // The attestation signature verifies over sha256(outcome) under the
    // oracle's public key.
    let secp = bitcoin::secp256k1::Secp256k1::new();
    let msg = bitcoin::secp256k1::Message::from_slice(
        &<bitcoin::hashes::sha256::Hash as bitcoin::hashes::Hash>::into_inner(
            <bitcoin::hashes::sha256::Hash as bitcoin::hashes::Hash>::hash(b"a"),
        ),
    )
    .unwrap();
    let sig = bitcoin::secp256k1::schnorr::Signature::from_slice(&att.signatures[0]).unwrap();
    let pk = bitcoin::secp256k1::XOnlyPublicKey::from_slice(&oracle.public_key()).unwrap();
    secp.verify_schnorr(&sig, &msg, &pk).unwrap();
}

/// A second signing on the same event fails and leaves the store unchanged.
#[test]
fn double_sign_returns_event_already_signed() {
    let mut oracle = Oracle::from_signing_key(MemoryStorage::new(), vec![1u8; 32]).unwrap();
    let (id, _) = oracle
        .create_enum_event("test".to_string(), vec!["a".to_string(), "b".to_string()], 100)
        .unwrap();
    oracle.sign_enum_event(id, "a".to_string()).unwrap();

    let before = oracle.storage.list_events().unwrap();
    let err = oracle.sign_enum_event(id, "b".to_string()).unwrap_err();
    assert!(matches!(err, Error::EventAlreadySigned));
    let after = oracle.storage.list_events().unwrap();
    assert_eq!(before.len(), after.len());
    assert_eq!(before[0].signatures, after[0].signatures);
    assert_eq!(after[0].signatures[0].0, "a".to_string());
}

/// An outcome outside the announced set fails and stores nothing.
#[test]
fn bad_outcome_returns_invalid_outcome() {
    let mut oracle = Oracle::from_signing_key(MemoryStorage::new(), vec![1u8; 32]).unwrap();
    let (id, _) = oracle
        .create_enum_event("test".to_string(), vec!["a".to_string(), "b".to_string()], 100)
        .unwrap();

    let err = oracle.sign_enum_event(id, "c".to_string()).unwrap_err();
    assert!(matches!(err, Error::InvalidOutcome));
    let events = oracle.storage.list_events().unwrap();
    assert!(events[0].signatures.is_empty());

    // The event can still be signed with a valid outcome afterwards.
    oracle.sign_enum_event(id, "a".to_string()).unwrap();
}

#[test]
fn unknown_id_returns_not_found() {
    let mut oracle = Oracle::from_signing_key(MemoryStorage::new(), vec![1u8; 32]).unwrap();
    let err = oracle.sign_enum_event(7, "a".to_string()).unwrap_err();
    assert!(matches!(err, Error::NotFound));
}

#[test]
fn empty_outcomes_rejected() {
    let mut oracle = Oracle::from_signing_key(MemoryStorage::new(), vec![1u8; 32]).unwrap();
    let err = oracle.create_enum_event("test".to_string(), vec![], 100).unwrap_err();
    assert!(matches!(err, Error::InvalidArgument));
}

#[test]
fn duplicate_outcomes_rejected() {
    let mut oracle = Oracle::from_signing_key(MemoryStorage::new(), vec![1u8; 32]).unwrap();
    let err = oracle
        .create_enum_event("test".to_string(), vec!["a".to_string(), "a".to_string()], 100)
        .unwrap_err();
    assert!(matches!(err, Error::InvalidArgument));
}

#[test]
fn empty_event_id_rejected() {
    let mut oracle = Oracle::from_signing_key(MemoryStorage::new(), vec![1u8; 32]).unwrap();
    let err = oracle
        .create_enum_event(String::new(), vec!["a".to_string()], 100)
        .unwrap_err();
    assert!(matches!(err, Error::InvalidArgument));
}

#[test]
fn invalid_signing_key_rejected() {
    assert!(Oracle::from_signing_key(MemoryStorage::new(), vec![0u8; 32]).is_err());
    assert!(Oracle::from_signing_key(MemoryStorage::new(), vec![1u8; 31]).is_err());
}

/// Sixty-four events in a row: every nonce index is distinct, the indexes
/// form the contiguous range, and the counter ends one past the last.
#[test]
fn sixty_four_events_have_distinct_indexes() {
    let mut oracle = Oracle::from_signing_key(MemoryStorage::new(), vec![1u8; 32]).unwrap();
    for i in 0..64u32 {
        let (id, _) = oracle
            .create_enum_event(format!("event-{i}"), vec!["a".to_string(), "b".to_string()], 100)
            .unwrap();
        assert_eq!(id, i);
    }
    let events = oracle.storage.list_events().unwrap();
    let mut all_indexes: Vec<u32> = events.iter().flat_map(|e| e.indexes.clone()).collect();
    all_indexes.sort();
    let expected: Vec<u32> = (0..64).collect();
    assert_eq!(all_indexes, expected);
    assert_eq!(oracle.storage.current_counter(), 64);
}

/// Reopening a store over persisted events resumes the counter one past the
/// largest stored index.
#[test]
fn reopened_store_resumes_counter() {
    let mut oracle = Oracle::from_signing_key(MemoryStorage::new(), vec![1u8; 32]).unwrap();
    oracle
        .create_enum_event("one".to_string(), vec!["a".to_string(), "b".to_string()], 100)
        .unwrap();
    oracle
        .create_enum_event("two".to_string(), vec!["a".to_string(), "b".to_string()], 100)
        .unwrap();
    let persisted = oracle.storage.list_events().unwrap();
    drop(oracle);

    let reopened = MemoryStorage::from_events(persisted).unwrap();
    assert_eq!(reopened.current_counter(), 2);

    let empty = MemoryStorage::from_events(Vec::new()).unwrap();
    assert_eq!(empty.current_counter(), 0);
}

/// The same signing scalar re-derives the same nonce across oracle
/// instances, so both produce the same announcement nonce for index zero.
#[test]
fn rederivation_is_deterministic() {
    let mut a = Oracle::from_signing_key(MemoryStorage::new(), vec![7u8; 32]).unwrap();
    let mut b = Oracle::from_signing_key(MemoryStorage::new(), vec![7u8; 32]).unwrap();
    let (_, ann_a) = a
        .create_enum_event("test".to_string(), vec!["x".to_string(), "y".to_string()], 9)
        .unwrap();
    let (_, ann_b) = b
        .create_enum_event("test".to_string(), vec!["x".to_string(), "y".to_string()], 9)
        .unwrap();
    assert_eq!(ann_a.oracle_event.oracle_nonces, ann_b.oracle_event.oracle_nonces);
    assert_eq!(
        kormir::wire::encode_announcement(&ann_a),
        kormir::wire::encode_announcement(&ann_b)
    );
}

/// The nonce point matches an independent BIP-32 derivation from the
/// SHA-256 of the signing scalar.
#[test]
fn nonce_derivation_matches_bip32() {
    let key = vec![5u8; 32];
    let mut oracle = Oracle::from_signing_key(MemoryStorage::new(), key.clone()).unwrap();
    let (_, ann) = oracle
        .create_enum_event("test".to_string(), vec!["a".to_string(), "b".to_string()], 1)
        .unwrap();

    let secp = bitcoin::secp256k1::Secp256k1::new();
    let seed = <bitcoin::hashes::sha256::Hash as bitcoin::hashes::Hash>::into_inner(
        <bitcoin::hashes::sha256::Hash as bitcoin::hashes::Hash>::hash(&key),
    );
    let master = ExtendedPrivKey::new_master(Network::Bitcoin, &seed).unwrap();
    let child = master
        .derive_priv(
            &secp,
            &[bitcoin::util::bip32::ChildNumber::from_hardened_idx(0).unwrap()],
        )
        .unwrap();
    let (expected, _) = child.private_key.x_only_public_key(&secp);
    assert_eq!(ann.oracle_event.oracle_nonces[0], expected.serialize().to_vec());
}

/// Publication identifiers can be attached to a stored event.
#[test]
fn publication_ids_are_recorded() {
    let mut oracle = Oracle::from_signing_key(MemoryStorage::new(), vec![1u8; 32]).unwrap();
    let (id, _) = oracle
        .create_enum_event("test".to_string(), vec!["a".to_string()], 100)
        .unwrap();
    oracle.storage.add_announcement_event_id(id, "note-a".to_string()).unwrap();
    oracle.storage.add_attestation_event_id(id, "note-b".to_string()).unwrap();
    let ev = oracle.storage.get_event(id).unwrap().unwrap();
    assert_eq!(ev.announcement_event_id, Some("note-a".to_string()));
    assert_eq!(ev.attestation_event_id, Some("note-b".to_string()));

    let by_name = oracle
        .storage
        .get_event_by_event_id(&"test".to_string())
        .unwrap()
        .unwrap();
    assert_eq!(by_name.announcement_event_id, Some("note-a".to_string()));
    assert!(oracle
        .storage
        .get_event_by_event_id(&"missing".to_string())
        .unwrap()
        .is_none());
}

/// Nonce derivation is defined on every index: above the hardened bound it
/// fails with `Internal` rather than panicking.
#[test]
fn nonce_key_above_hardened_bound_is_internal() {
    let oracle = Oracle::from_signing_key(MemoryStorage::new(), vec![1u8; 32]).unwrap();
    assert!(oracle.get_nonce_key(0).is_ok());
    assert!(oracle.get_nonce_key(0x7FFFFFFF).is_ok());
    let err = oracle.get_nonce_key(0x80000000).unwrap_err();
    assert!(matches!(err, Error::Internal));
    let err = oracle.get_nonce_key(u32::MAX).unwrap_err();
    assert!(matches!(err, Error::Internal));
}

/// Reopening a store whose largest index leaves no room for the counter
/// fails with `Internal` instead of wrapping.
#[test]
fn reopened_store_rejects_exhausted_counter() {
    let mut oracle = Oracle::from_signing_key(MemoryStorage::new(), vec![1u8; 32]).unwrap();
    oracle
        .create_enum_event("one".to_string(), vec!["a".to_string()], 100)
        .unwrap();
    let mut persisted = oracle.storage.list_events().unwrap();
    persisted[0].indexes = vec![u32::MAX];
    let err = MemoryStorage::from_events(persisted).unwrap_err();
    assert!(matches!(err, Error::Internal));
}
