//! The error taxonomy shared by every transformer.

use vstd::prelude::*;

verus! {

/// Why a transformer rejected its input.
///
/// Every transformer reports the most specific applicable kind; none
/// downgrades an inner failure into a more generic one.
#[derive(Clone, Copy, Debug, PartialEq, Eq, Structural)]
pub enum TransformError {
    /// The raw value has the wrong shape for the expected intermediate type.
    TypeMismatch,
    /// The intermediate-to-target conversion rejected the value.
    ConversionFailed,
    /// The string-to-target parse rejected the value.
    ParseFailed,
    /// The normalized phone number does not match the phone grammar.
    InvalidPhoneNumber,
    /// The trimmed, lowercased string does not match the email grammar.
    InvalidEmail,
    /// The decoded string does not match the URL grammar.
    InvalidUrl,
    /// A `%` escape was cut off before its two hex digits.
    TruncatedEscape,
    /// A `%` escape held characters that are not hex digits.
    InvalidEscape,
    /// A string-embedded document failed to parse in its inner format.
    EmbeddedParseFailed,
}

} // verus!
