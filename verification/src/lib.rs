//! A Discreet-Log-Contract oracle: it announces future events together with
//! pre-committed nonce points, and later attests to an outcome with a Schnorr
//! signature whose R component equals the pre-committed nonce.

pub mod curve;
pub mod error;
pub mod keys;
pub mod messages;
pub mod models;
pub mod nostr_events;
pub mod oracle;
pub mod utils;
pub mod ser;
pub mod storage;
pub mod wire;

pub use crate::error::{Error, JsError};
pub use crate::messages::{EnumEventDescriptor, EventDescriptor, OracleAnnouncement,
    OracleAttestation, OracleEvent};
pub use crate::oracle::Oracle;
pub use crate::storage::{MemoryStorage, OracleEventData, Storage};
