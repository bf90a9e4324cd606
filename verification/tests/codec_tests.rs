//! Wire-format and rendering tests: round trips, exact bytes, and agreement
//! with the independent DLC message library.

use lightning::util::ser::{Readable, Writeable};

use kormir::messages::{
    DigitDecompositionEventDescriptor, EnumEventDescriptor, EventDescriptor, OracleAttestation,
    OracleEvent,
};
use kormir::models::{
    self, decode_announcement_hex, decode_attestation_hex, hex_decode, hex_encode,
    i64_to_dec_string, parse_signed_binary, Announcement, Attestation, EventData,
};
use kormir::wire::{
    decode_announcement, decode_attestation, encode_announcement, encode_attestation,
    encode_oracle_event,
};
use kormir::{Error, JsError, MemoryStorage, Oracle, Storage};

fn sample_oracle() -> Oracle<MemoryStorage> {
    Oracle::from_signing_key(MemoryStorage::new(), vec![1u8; 32]).unwrap()
}

/// An attestation with known contents has exactly the expected bytes.
#[test]
fn attestation_exact_bytes() {
    // A 32-byte key of 2s, one 64-byte signature of 3s, one outcome "a".
    let att = OracleAttestation {
        oracle_public_key: vec![2u8; 32],
        signatures: vec![vec![3u8; 64]],
        outcomes: vec!["a".to_string()],
    };
    let mut expected: Vec<u8> = Vec::new();
    expected.extend_from_slice(&[2u8; 32]);
    expected.extend_from_slice(&[0x00, 0x01]);
    expected.extend_from_slice(&[3u8; 64]);
    expected.extend_from_slice(&[0x00, 0x01]);
    expected.extend_from_slice(&[0x01, b'a']);
    assert_eq!(encode_attestation(&att), expected);
}

/// Encoding agrees byte for byte with the independent DLC implementation,
/// for both descriptor kinds.
#[test]
fn event_encoding_matches_foreign_implementation() {
    let secp = bitcoin::secp256k1::Secp256k1::new();
    let sk = bitcoin::secp256k1::SecretKey::from_slice(&[0x11u8; 32]).unwrap();
    let nonce = sk.x_only_public_key(&secp).0;
    let nonce_bytes = nonce.serialize().to_vec();

    let enum_event = OracleEvent {
        oracle_nonces: vec![nonce_bytes.clone()],
        event_maturity_epoch: 1700000000,
        event_descriptor: EventDescriptor::EnumEvent(EnumEventDescriptor {
            outcomes: vec!["yes".to_string(), "no".to_string(), "répétition".to_string()],
        }),
        event_id: "match-1".to_string(),
    };
    let ours = encode_oracle_event(&enum_event);

    let foreign_event = dlc_messages::oracle_msgs::OracleEvent {
        oracle_nonces: vec![nonce],
        event_maturity_epoch: 1700000000,
        event_descriptor: dlc_messages::oracle_msgs::EventDescriptor::EnumEvent(
            dlc_messages::oracle_msgs::EnumEventDescriptor {
                outcomes: vec!["yes".to_string(), "no".to_string(), "répétition".to_string()],
            },
        ),
        event_id: "match-1".to_string(),
    };
    assert_eq!(ours, foreign_event.encode());

    let digit_event = OracleEvent {
        oracle_nonces: vec![nonce_bytes.clone(), nonce_bytes.clone()],
        event_maturity_epoch: 42,
        event_descriptor: EventDescriptor::DigitDecompositionEvent(
            DigitDecompositionEventDescriptor {
                base: 2,
                is_signed: true,
                unit: "sats".to_string(),
                precision: -3,
                nb_digits: 2,
            },
        ),
        event_id: "numeric".to_string(),
    };
    let ours = encode_oracle_event(&digit_event);
    let foreign_event = dlc_messages::oracle_msgs::OracleEvent {
        oracle_nonces: vec![nonce, nonce],
        event_maturity_epoch: 42,
        event_descriptor: dlc_messages::oracle_msgs::EventDescriptor::DigitDecompositionEvent(
            dlc_messages::oracle_msgs::DigitDecompositionEventDescriptor {
                base: 2,
                is_signed: true,
                unit: "sats".to_string(),
                precision: -3,
                nb_digits: 2,
            },
        ),
        event_id: "numeric".to_string(),
    };
    assert_eq!(ours, foreign_event.encode());
}

/// Decoding an encoding yields the original, and re-encoding is
/// byte-identical; trailing bytes are rejected.
#[test]
fn announcement_round_trip() {
    let mut oracle = sample_oracle();
    let (id, ann) = oracle
        .create_enum_event("rt".to_string(), vec!["a".to_string(), "b".to_string()], 100)
        .unwrap();
    let bytes = encode_announcement(&ann);
    let decoded = decode_announcement(&bytes).unwrap();
    assert_eq!(encode_announcement(&decoded), bytes);
    assert_eq!(decoded.oracle_event.event_id, "rt");

    let mut trailing = bytes.clone();
    trailing.push(0);
    assert!(decode_announcement(&trailing).is_none());
    assert!(decode_announcement(&bytes[..10].to_vec()).is_none());

    let att = oracle.sign_enum_event(id, "b".to_string()).unwrap();
    let att_bytes = encode_attestation(&att);
    let decoded = decode_attestation(&att_bytes).unwrap();
    assert_eq!(encode_attestation(&decoded), att_bytes);
    assert_eq!(decoded.outcomes, vec!["b".to_string()]);
}

/// The foreign implementation parses our attestation bytes to the same
/// contents.
#[test]
fn attestation_parses_in_foreign_implementation() {
    let mut oracle = sample_oracle();
    let (id, _) = oracle
        .create_enum_event("att".to_string(), vec!["a".to_string(), "b".to_string()], 100)
        .unwrap();
    let att = oracle.sign_enum_event(id, "a".to_string()).unwrap();
    let bytes = encode_attestation(&att);
    let mut cursor = lightning::io::Cursor::new(&bytes);
    let foreign = dlc_messages::oracle_msgs::OracleAttestation::read(&mut cursor).unwrap();
    assert_eq!(foreign.outcomes, vec!["a".to_string()]);
    assert_eq!(foreign.encode(), bytes);
}

#[test]
fn hex_round_trip_and_exact() {
    assert_eq!(hex_encode(&vec![0u8, 255, 16]), "00ff10".to_string());
    assert_eq!(hex_decode(&"00ff10".to_string()), Some(vec![0u8, 255, 16]));
    assert_eq!(hex_decode(&"00FF10".to_string()), Some(vec![0u8, 255, 16]));
    assert_eq!(hex_decode(&"0".to_string()), None);
    assert_eq!(hex_decode(&"0g".to_string()), None);
}

#[test]
fn decode_announcement_hex_round_trip() {
    let mut oracle = sample_oracle();
    let (id, ann) = oracle
        .create_enum_event("hexy".to_string(), vec!["a".to_string(), "b".to_string()], 100)
        .unwrap();
    let hex_str = hex_encode(&encode_announcement(&ann));
    let decoded = decode_announcement_hex(&hex_str).unwrap();
    assert_eq!(decoded.oracle_event.event_id, "hexy");
    assert!(decode_announcement_hex(&"zz".to_string()).is_err());

    let att = oracle.sign_enum_event(id, "a".to_string()).unwrap();
    let att_hex = hex_encode(&encode_attestation(&att));
    let decoded = decode_attestation_hex(&att_hex).unwrap();
    assert_eq!(decoded.outcomes, vec!["a".to_string()]);
}

#[test]
fn signed_binary_parsing() {
    assert_eq!(parse_signed_binary(&"0101".to_string()), Some(5));
    assert_eq!(parse_signed_binary(&"+0101".to_string()), Some(5));
    assert_eq!(parse_signed_binary(&"-101".to_string()), Some(-5));
    assert_eq!(parse_signed_binary(&"0".to_string()), Some(0));
    assert_eq!(parse_signed_binary(&"".to_string()), None);
    assert_eq!(parse_signed_binary(&"+".to_string()), None);
    assert_eq!(parse_signed_binary(&"012".to_string()), None);
    // 2^63 - 1 fits; 2^63 only fits negated.
    let max = "0".to_string() + &"1".repeat(63);
    assert_eq!(parse_signed_binary(&max), Some(i64::MAX));
    let min = "-1".to_string() + &"0".repeat(63);
    assert_eq!(parse_signed_binary(&min), Some(i64::MIN));
    let too_big = "1".repeat(64);
    assert_eq!(parse_signed_binary(&too_big), None);
}

#[test]
fn decimal_rendering() {
    assert_eq!(i64_to_dec_string(0), "0".to_string());
    assert_eq!(i64_to_dec_string(42), "42".to_string());
    assert_eq!(i64_to_dec_string(-42), "-42".to_string());
    assert_eq!(i64_to_dec_string(i64::MIN), "-9223372036854775808".to_string());
}

#[test]
fn announcement_model_fields() {
    let mut oracle = sample_oracle();
    let (id, ann) = oracle
        .create_enum_event("model".to_string(), vec!["a".to_string(), "b".to_string()], 7)
        .unwrap();
    let model = Announcement::from_announcement(&ann).unwrap();
    assert_eq!(model.event_id(), "model".to_string());
    assert_eq!(model.event_maturity_epoch, 7);
    assert_eq!(model.outcomes(), vec!["a".to_string(), "b".to_string()]);
    assert_eq!(model.oracle_public_key(), hex::encode(oracle.public_key()));
    assert_eq!(
        model.oracle_nonces(),
        vec![hex::encode(&ann.oracle_event.oracle_nonces[0])]
    );
    assert_eq!(
        model.announcement_signature(),
        hex::encode(&ann.announcement_signature)
    );

    let att = oracle.sign_enum_event(id, "a".to_string()).unwrap();
    let model = Attestation::from_attestation(&att);
    assert_eq!(model.outcomes(), vec!["a".to_string()]);
    assert_eq!(model.signatures(), vec![hex::encode(&att.signatures[0])]);
    assert_eq!(model.oracle_public_key(), hex::encode(oracle.public_key()));
}

#[test]
fn event_data_projection() {
    let mut oracle = sample_oracle();
    let (id, ann) = oracle
        .create_enum_event("data".to_string(), vec!["a".to_string(), "b".to_string()], 9)
        .unwrap();
    let stored = oracle.storage.get_event(id).unwrap().unwrap();
    let ed = EventData::from_stored("oracle_data/data".to_string(), &stored).unwrap();
    assert_eq!(ed.event_name(), "data".to_string());
    assert_eq!(ed.announcement(), hex::encode(encode_announcement(&ann)));
    assert!(ed.attestation().is_none());
    assert!(ed.observed_outcome().is_none());
    assert_eq!(ed.outcomes(), vec!["a".to_string(), "b".to_string()]);

    let att = oracle.sign_enum_event(id, "b".to_string()).unwrap();
    let stored = oracle.storage.get_event(id).unwrap().unwrap();
    let ed = EventData::from_stored("oracle_data/data".to_string(), &stored).unwrap();
    assert_eq!(ed.attestation(), Some(hex::encode(encode_attestation(&att))));
    assert_eq!(ed.observed_outcome(), Some("b".to_string()));
}

#[test]
fn nostr_content_is_base64_of_encoding() {
    let mut oracle = sample_oracle();
    let (id, ann) = oracle
        .create_enum_event("nostr".to_string(), vec!["a".to_string(), "b".to_string()], 9)
        .unwrap();
    let content = kormir::nostr_events::create_announcement_content(&ann).unwrap();
    assert_eq!(base64::decode(&content).unwrap(), encode_announcement(&ann));

    let att = oracle.sign_enum_event(id, "a".to_string()).unwrap();
    let content = kormir::nostr_events::create_attestation_content(&att).unwrap();
    assert_eq!(base64::decode(&content).unwrap(), encode_attestation(&att));
    assert_eq!(kormir::nostr_events::ANNOUNCEMENT_KIND, 88);
    assert_eq!(kormir::nostr_events::ATTESTATION_KIND, 89);
}

#[test]
fn oracle_data_key_has_prefix() {
    assert_eq!(
        kormir::storage::get_oracle_data_key("abc".to_string()),
        "oracle_data/abc".to_string()
    );
}

#[test]
fn error_conversions() {
    assert_eq!(JsError::from(Error::NotFound), JsError::NotFound);
    assert_eq!(JsError::from(Error::EventAlreadySigned), JsError::EventAlreadySigned);
    assert_eq!(Error::from(JsError::Nostr), Error::Internal);
    assert_eq!(Error::from(JsError::InvalidOutcome), Error::InvalidOutcome);
}

#[test]
fn create_request_validation() {
    let body = models::CreateEnumEvent {
        event_id: "e".to_string(),
        outcomes: vec!["a".to_string()],
        event_maturity_epoch: 100,
    };
    assert!(models::validate_create_request(&body, 100));
    assert!(!models::validate_create_request(&body, 101));
    let empty = models::CreateEnumEvent {
        event_id: "e".to_string(),
        outcomes: vec![],
        event_maturity_epoch: 100,
    };
    assert!(!models::validate_create_request(&empty, 0));
}
