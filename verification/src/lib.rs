//! Field-level value transformers for decoding structured data into typed
//! records: percent-decoding, phone-number normalization, email and URL
//! validation, generic scalar coercions, and re-parsing of string-embedded
//! JSON/YAML documents.

pub mod convert;
pub mod email;
pub mod embedded;
pub mod error;
pub mod ip;
pub mod parse;
pub mod percent;
pub mod phone;
pub mod text;
pub mod url;
