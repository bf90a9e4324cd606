//! Error taxonomy of the oracle.

use vstd::prelude::*;

verus! {

/// Errors that the oracle's operations can produce.
#[derive(Debug, Clone, Copy, PartialEq, Eq, Structural)]
pub enum Error {
    /// Caller-supplied data failed validation.
    InvalidArgument,
    /// Attempted to sign an event that was already signed.
    EventAlreadySigned,
    /// Event data was not found.
    NotFound,
    /// The storage failed to read or save the data.
    StorageFailure,
    /// The outcome is not one of the announced outcomes.
    InvalidOutcome,
    /// An invariant was violated; this indicates a bug.
    Internal,
}

/// Error type handed over a language boundary; extends [`Error`] with a
/// variant for failures of the publication layer.
#[derive(Debug, Clone, Copy, PartialEq, Eq, Structural)]
pub enum JsError {
    /// Caller-supplied data failed validation.
    InvalidArgument,
    /// Attempted to sign an event that was already signed.
    EventAlreadySigned,
    /// Event data was not found.
    NotFound,
    /// The storage failed to read or save the data.
    StorageFailure,
    /// The outcome is not one of the announced outcomes.
    InvalidOutcome,
    /// An invariant was violated; this indicates a bug.
    Internal,
    /// An error with creating or sending publication events.
    Nostr,
}

/// The boundary error corresponding to each oracle error.
pub open spec fn js_error_of(value: Error) -> JsError {
    match value {
        Error::InvalidArgument => JsError::InvalidArgument,
        Error::EventAlreadySigned => JsError::EventAlreadySigned,
        Error::NotFound => JsError::NotFound,
        Error::StorageFailure => JsError::StorageFailure,
        Error::InvalidOutcome => JsError::InvalidOutcome,
        Error::Internal => JsError::Internal,
    }
}

/// The oracle error corresponding to each boundary error; publication
/// failures fold into `Internal`.
pub open spec fn error_of_js(value: JsError) -> Error {
    match value {
        JsError::InvalidArgument => Error::InvalidArgument,
        JsError::EventAlreadySigned => Error::EventAlreadySigned,
        JsError::NotFound => Error::NotFound,
        JsError::StorageFailure => Error::StorageFailure,
        JsError::InvalidOutcome => Error::InvalidOutcome,
        JsError::Internal => Error::Internal,
        JsError::Nostr => Error::Internal,
    }
}

impl From<Error> for JsError {
    fn from(value: Error) -> (r: JsError) {
        match value {
            Error::InvalidArgument => JsError::InvalidArgument,
            Error::EventAlreadySigned => JsError::EventAlreadySigned,
            Error::NotFound => JsError::NotFound,
            Error::StorageFailure => JsError::StorageFailure,
            Error::InvalidOutcome => JsError::InvalidOutcome,
            Error::Internal => JsError::Internal,
        }
    }
}

impl vstd::std_specs::convert::FromSpecImpl<Error> for JsError {
    open spec fn obeys_from_spec() -> bool {
        true
    }

    open spec fn from_spec(value: Error) -> JsError {
        js_error_of(value)
    }
}

impl From<JsError> for Error {
    fn from(value: JsError) -> (r: Error) {
        match value {
            JsError::InvalidArgument => Error::InvalidArgument,
            JsError::EventAlreadySigned => Error::EventAlreadySigned,
            JsError::NotFound => Error::NotFound,
            JsError::StorageFailure => Error::StorageFailure,
            JsError::InvalidOutcome => Error::InvalidOutcome,
            JsError::Internal => Error::Internal,
            JsError::Nostr => Error::Internal,
        }
    }
}

impl vstd::std_specs::convert::FromSpecImpl<JsError> for Error {
    open spec fn obeys_from_spec() -> bool {
        true
    }

    open spec fn from_spec(value: JsError) -> Error {
        error_of_js(value)
    }
}

} // verus!
