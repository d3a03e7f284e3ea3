//! Re-parsing of string-embedded documents: a string field that holds a
//! complete serialized JSON or YAML document is decoded again, into a typed
//! value, with the inner format chosen by the caller.

use vstd::prelude::*;

use serde::de::DeserializeOwned;

verus! {

/// The inner format of a string-embedded document.
#[derive(Clone, Copy, Debug, PartialEq, Eq, Structural)]
pub enum Format {
    Json,
    Yaml,
}

#[verifier::external_type_specification]
#[verifier::external_body]
pub struct ExJsonError(serde_json::Error);

#[verifier::external_type_specification]
#[verifier::external_body]
pub struct ExYamlError(serde_yaml::Error);

/// Relies on `serde_json::from_str`: parses the string as one complete JSON
/// document into `T`; which strings parse is decided by `T`'s
/// `Deserialize` implementation.
#[verifier::external_body]
fn parse_json<T: DeserializeOwned>(s: &str) -> Result<T, serde_json::Error> {
    serde_json::from_str(s)
}

/// Relies on `serde_yaml::from_str`: parses the string as one complete YAML
/// document into `T`; which strings parse is decided by `T`'s
/// `Deserialize` implementation.
#[verifier::external_body]
fn parse_yaml<T: DeserializeOwned>(s: &str) -> Result<T, serde_yaml::Error> {
    serde_yaml::from_str(s)
}

/// Re-parses a string field as a complete document in the named inner
/// format. A failure of the inner parse is always `EmbeddedParseFailed`,
/// never an outer-document error kind.
pub fn decode_embedded<T: DeserializeOwned>(s: &str, format: Format) -> (r: Result<T, crate::error::TransformError>)
    ensures
        (match r {
            Ok(_) => true,
            Err(e) => e == crate::error::TransformError::EmbeddedParseFailed,
        }),
{
    match format {
        Format::Json => match parse_json::<T>(s) {
            Ok(v) => Ok(v),
            Err(_) => Err(crate::error::TransformError::EmbeddedParseFailed),
        },
        Format::Yaml => match parse_yaml::<T>(s) {
            Ok(v) => Ok(v),
            Err(_) => Err(crate::error::TransformError::EmbeddedParseFailed),
        },
    }
}

} // verus!
