//! The failures a query can end in.

use vstd::prelude::*;
use vstd::std_specs::convert::FromSpecImpl;

verus! {

/// `std::io::Error`, carried through unread.
#[verifier::external_type_specification]
#[verifier::external_body]
pub struct ExIoError(std::io::Error);

/// `serde_json::Error`, carried through unread.
#[verifier::external_type_specification]
#[verifier::external_body]
pub struct ExJsonError(serde_json::Error);

/// Why a query failed.
#[derive(Debug)]
pub enum ApiError {
    /// The server answered with a status other than success, 401 or 429, or
    /// the request never reached it.
    RequestError(),
    /// The directory of the cache could not be made.
    CacheError(std::io::Error),
    /// A text was not JSON, or a record lacked a field or held one of the
    /// wrong type.
    Deserialize(serde_json::Error),
    /// The materials were not a JSON array, or the array was empty.
    EmptyArray(),
    /// A greenhouse-gas quantity was not a magnitude, a space and a unit.
    GwpError,
    /// The body of a category query was not JSON.
    DeserializationError(serde_json::Error),
    /// Records could not be rendered as JSON.
    SerializationError,
    /// A declared unit was not a magnitude, a space and a unit.
    UnitError,
    /// The server answered 401.
    AuthError,
    /// The server answered 429 on the last attempt; holds the body it sent.
    TooManyRequest(String),
}

/// An [`ApiError`] without the outside values it carries.
pub enum ErrorKind {
    Request,
    Cache,
    Deserialize,
    EmptyArray,
    Gwp,
    Deserialization,
    Serialization,
    Unit,
    Auth,
    TooManyRequest(Seq<char>),
}

impl View for ApiError {
    type V = ErrorKind;

    open spec fn view(&self) -> ErrorKind {
        match self {
            ApiError::RequestError() => ErrorKind::Request,
            ApiError::CacheError(_) => ErrorKind::Cache,
            ApiError::Deserialize(_) => ErrorKind::Deserialize,
            ApiError::EmptyArray() => ErrorKind::EmptyArray,
            ApiError::GwpError => ErrorKind::Gwp,
            ApiError::DeserializationError(_) => ErrorKind::Deserialization,
            ApiError::SerializationError => ErrorKind::Serialization,
            ApiError::UnitError => ErrorKind::Unit,
            ApiError::AuthError => ErrorKind::Auth,
            ApiError::TooManyRequest(body) => ErrorKind::TooManyRequest(body@),
        }
    }
}

/// The sentence that describes each kind of failure.
pub open spec fn message_of(kind: ErrorKind) -> Seq<char> {
    match kind {
        ErrorKind::Request => "Request failed"@,
        ErrorKind::Cache => "Could not read cache"@,
        ErrorKind::Deserialize => "Could not deserialize"@,
        ErrorKind::EmptyArray => "Request succeded but the material list is empty"@,
        ErrorKind::Gwp => "Wrong GWP format"@,
        ErrorKind::Deserialization => "Deserialization error"@,
        ErrorKind::Serialization => "Serialization error"@,
        ErrorKind::Unit => "Wrong Unit format"@,
        ErrorKind::Auth => "Api rejected authentication"@,
        ErrorKind::TooManyRequest(_) => "Too many requests"@,
    }
}

impl ApiError {
    /// The sentence that describes this failure.
    pub fn message(&self) -> (r: String)
        ensures
            r@ == message_of(self@),
    {
        let text = match self {
            ApiError::RequestError() => "Request failed",
            ApiError::CacheError(_) => "Could not read cache",
            ApiError::Deserialize(_) => "Could not deserialize",
            ApiError::EmptyArray() => "Request succeded but the material list is empty",
            ApiError::GwpError => "Wrong GWP format",
            ApiError::DeserializationError(_) => "Deserialization error",
            ApiError::SerializationError => "Serialization error",
            ApiError::UnitError => "Wrong Unit format",
            ApiError::AuthError => "Api rejected authentication",
            ApiError::TooManyRequest(_) => "Too many requests",
        };
        text.to_owned()
    }
}

impl From<std::io::Error> for ApiError {
    fn from(e: std::io::Error) -> (r: ApiError) {
        ApiError::CacheError(e)
    }
}

impl FromSpecImpl<std::io::Error> for ApiError {
    open spec fn obeys_from_spec() -> bool {
        true
    }

    open spec fn from_spec(e: std::io::Error) -> ApiError {
        ApiError::CacheError(e)
    }
}

impl From<serde_json::Error> for ApiError {
    fn from(e: serde_json::Error) -> (r: ApiError) {
        ApiError::Deserialize(e)
    }
}

impl FromSpecImpl<serde_json::Error> for ApiError {
    open spec fn obeys_from_spec() -> bool {
        true
    }

    open spec fn from_spec(e: serde_json::Error) -> ApiError {
        ApiError::Deserialize(e)
    }
}

} // verus!
