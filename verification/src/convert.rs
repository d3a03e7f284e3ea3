//! Generic coercion adapters: they bridge a decoded raw scalar to a
//! different target type through a conversion capability, surfacing a wrong
//! shape as `TypeMismatch`, a rejected fallible conversion as
//! `ConversionFailed`, and a rejected text parse as `ParseFailed`.
//!
//! The adapters are oblivious to the encoding format: they see only the
//! value-shape abstraction `RawScalar`. The non-`Option` variants never
//! accept an absent value; the `Option` variants are the only entry points
//! that tolerate one. A raw floating-point value has no place here: nothing
//! in this module coerces from one.

use vstd::prelude::*;

use crate::error::TransformError;
use crate::parse::ParseFromText;

verus! {

/// A decoded-but-untyped scalar, as a structured-document decoder hands it
/// over: a missing or null field, a boolean, a signed or unsigned integer,
/// or a string.
pub enum RawScalar {
    Null,
    Bool(bool),
    Int(i64),
    UInt(u64),
    Str(String),
}

/// The capability of reading `Self` out of a raw scalar of the right shape.
pub trait FromRaw: Sized {
    /// Whether the raw value has the right shape for `Self`.
    spec fn raw_ok(raw: RawScalar) -> bool;

    /// The value read from a raw value of the right shape.
    spec fn of_raw(raw: RawScalar) -> Self;

    /// Reads the value, or reports `TypeMismatch` on a wrong shape.
    fn from_raw(raw: RawScalar) -> (r: Result<Self, TransformError>)
        ensures
            (match r {
                Ok(v) => Self::raw_ok(raw) && v == Self::of_raw(raw),
                Err(e) => !Self::raw_ok(raw) && e == TransformError::TypeMismatch,
            }),
    ;
}

impl FromRaw for bool {
    open spec fn raw_ok(raw: RawScalar) -> bool {
        raw is Bool
    }

    open spec fn of_raw(raw: RawScalar) -> bool {
        raw->Bool_0
    }

    fn from_raw(raw: RawScalar) -> (r: Result<bool, TransformError>) {
        match raw {
            RawScalar::Bool(b) => Ok(b),
            _ => Err(TransformError::TypeMismatch),
        }
    }
}

impl FromRaw for i64 {
    open spec fn raw_ok(raw: RawScalar) -> bool {
        raw is Int || (raw is UInt && raw->UInt_0 <= i64::MAX)
    }

    open spec fn of_raw(raw: RawScalar) -> i64 {
        if raw is Int {
            raw->Int_0
        } else {
            raw->UInt_0 as i64
        }
    }

    fn from_raw(raw: RawScalar) -> (r: Result<i64, TransformError>) {
        match raw {
            RawScalar::Int(v) => Ok(v),
            RawScalar::UInt(u) => {
                if u <= i64::MAX as u64 {
                    Ok(u as i64)
                } else {
                    Err(TransformError::TypeMismatch)
                }
            },
            _ => Err(TransformError::TypeMismatch),
        }
    }
}

impl FromRaw for u64 {
    open spec fn raw_ok(raw: RawScalar) -> bool {
        raw is UInt || (raw is Int && raw->Int_0 >= 0)
    }

    open spec fn of_raw(raw: RawScalar) -> u64 {
        if raw is UInt {
            raw->UInt_0
        } else {
            raw->Int_0 as u64
        }
    }

    fn from_raw(raw: RawScalar) -> (r: Result<u64, TransformError>) {
        match raw {
            RawScalar::UInt(u) => Ok(u),
            RawScalar::Int(v) => {
                if v >= 0 {
                    Ok(v as u64)
                } else {
                    Err(TransformError::TypeMismatch)
                }
            },
            _ => Err(TransformError::TypeMismatch),
        }
    }
}

impl FromRaw for i8 {
    open spec fn raw_ok(raw: RawScalar) -> bool {
        ||| (raw is Int && i8::MIN <= raw->Int_0 <= i8::MAX)
        ||| (raw is UInt && raw->UInt_0 <= i8::MAX)
    }

    open spec fn of_raw(raw: RawScalar) -> i8 {
        if raw is Int {
            raw->Int_0 as i8
        } else {
            raw->UInt_0 as i8
        }
    }

    fn from_raw(raw: RawScalar) -> (r: Result<i8, TransformError>) {
        match raw {
            RawScalar::Int(v) => {
                if i8::MIN as i64 <= v && v <= i8::MAX as i64 {
                    Ok(v as i8)
                } else {
                    Err(TransformError::TypeMismatch)
                }
            },
            RawScalar::UInt(u) => {
                if u <= i8::MAX as u64 {
                    Ok(u as i8)
                } else {
                    Err(TransformError::TypeMismatch)
                }
            },
            _ => Err(TransformError::TypeMismatch),
        }
    }
}

impl FromRaw for String {
    open spec fn raw_ok(raw: RawScalar) -> bool {
        raw is Str
    }

    open spec fn of_raw(raw: RawScalar) -> String {
        raw->Str_0
    }

    fn from_raw(raw: RawScalar) -> (r: Result<String, TransformError>) {
        match raw {
            RawScalar::Str(s) => Ok(s),
            _ => Err(TransformError::TypeMismatch),
        }
    }
}

/// The capability of converting `S` into `Self` unconditionally.
pub trait CoerceFrom<S>: Sized {
    /// What the conversion yields.
    spec fn coerced(s: S) -> Self;

    /// Converts; it cannot fail.
    fn coerce(s: S) -> (r: Self)
        ensures
            r == Self::coerced(s),
    ;
}

impl CoerceFrom<bool> for u8 {
    open spec fn coerced(s: bool) -> u8 {
        if s {
            1
        } else {
            0
        }
    }

    fn coerce(s: bool) -> (r: u8) {
        if s {
            1
        } else {
            0
        }
    }
}

impl CoerceFrom<bool> for u64 {
    open spec fn coerced(s: bool) -> u64 {
        if s {
            1
        } else {
            0
        }
    }

    fn coerce(s: bool) -> (r: u64) {
        if s {
            1
        } else {
            0
        }
    }
}

impl CoerceFrom<bool> for i64 {
    open spec fn coerced(s: bool) -> i64 {
        if s {
            1
        } else {
            0
        }
    }

    fn coerce(s: bool) -> (r: i64) {
        if s {
            1
        } else {
            0
        }
    }
}

impl CoerceFrom<i8> for i64 {
    open spec fn coerced(s: i8) -> i64 {
        s as i64
    }

    fn coerce(s: i8) -> (r: i64) {
        s as i64
    }
}

/// The capability of converting `S` into `Self` where the conversion may
/// reject the value.
pub trait TryCoerceFrom<S>: Sized {
    /// Whether the conversion accepts the value.
    spec fn can_coerce(s: S) -> bool;

    /// What the conversion yields on an accepted value.
    spec fn coerced(s: S) -> Self;

    /// Converts, or reports `ConversionFailed` on a rejected value.
    fn try_coerce(s: S) -> (r: Result<Self, TransformError>)
        ensures
            (match r {
                Ok(v) => Self::can_coerce(s) && v == Self::coerced(s),
                Err(e) => !Self::can_coerce(s) && e == TransformError::ConversionFailed,
            }),
    ;
}

impl TryCoerceFrom<i8> for u8 {
    open spec fn can_coerce(s: i8) -> bool {
        s >= 0
    }

    open spec fn coerced(s: i8) -> u8 {
        s as u8
    }

    fn try_coerce(s: i8) -> (r: Result<u8, TransformError>) {
        if s >= 0 {
            Ok(s as u8)
        } else {
            Err(TransformError::ConversionFailed)
        }
    }
}

impl TryCoerceFrom<i64> for u8 {
    open spec fn can_coerce(s: i64) -> bool {
        0 <= s <= u8::MAX
    }

    open spec fn coerced(s: i64) -> u8 {
        s as u8
    }

    fn try_coerce(s: i64) -> (r: Result<u8, TransformError>) {
        if 0 <= s && s <= u8::MAX as i64 {
            Ok(s as u8)
        } else {
            Err(TransformError::ConversionFailed)
        }
    }
}

impl TryCoerceFrom<i64> for i8 {
    open spec fn can_coerce(s: i64) -> bool {
        i8::MIN <= s <= i8::MAX
    }

    open spec fn coerced(s: i64) -> i8 {
        s as i8
    }

    fn try_coerce(s: i64) -> (r: Result<i8, TransformError>) {
        if i8::MIN as i64 <= s && s <= i8::MAX as i64 {
            Ok(s as i8)
        } else {
            Err(TransformError::ConversionFailed)
        }
    }
}

impl TryCoerceFrom<i64> for u64 {
    open spec fn can_coerce(s: i64) -> bool {
        s >= 0
    }

    open spec fn coerced(s: i64) -> u64 {
        s as u64
    }

    fn try_coerce(s: i64) -> (r: Result<u64, TransformError>) {
        if s >= 0 {
            Ok(s as u64)
        } else {
            Err(TransformError::ConversionFailed)
        }
    }
}

impl TryCoerceFrom<u64> for i64 {
    open spec fn can_coerce(s: u64) -> bool {
        s <= i64::MAX
    }

    open spec fn coerced(s: u64) -> i64 {
        s as i64
    }

    fn try_coerce(s: u64) -> (r: Result<i64, TransformError>) {
        if s <= i64::MAX as u64 {
            Ok(s as i64)
        } else {
            Err(TransformError::ConversionFailed)
        }
    }
}

/// Reads the raw value as an `S` and converts it infallibly into a `T`.
/// Fails only, with `TypeMismatch`, when the raw value has the wrong shape
/// for `S`.
pub fn convert_from<S: FromRaw, T: CoerceFrom<S>>(raw: RawScalar) -> (r: Result<T, TransformError>)
    ensures
        (match r {
            Ok(t) => S::raw_ok(raw) && t == T::coerced(S::of_raw(raw)),
            Err(e) => !S::raw_ok(raw) && e == TransformError::TypeMismatch,
        }),
{
    match S::from_raw(raw) {
        Ok(s) => Ok(T::coerce(s)),
        Err(e) => Err(e),
    }
}

/// The `Option` counterpart of `convert_from`: an absent (null) raw value
/// yields `None` without any conversion attempt; any other raw value goes
/// through the same rule and wraps in `Some`.
pub fn convert_from_option<S: FromRaw, T: CoerceFrom<S>>(raw: RawScalar) -> (r: Result<
    Option<T>,
    TransformError,
>)
    ensures
        raw is Null ==> r == Ok::<Option<T>, TransformError>(None),
        !(raw is Null) ==> (match r {
            Ok(o) => S::raw_ok(raw) && o == Some(T::coerced(S::of_raw(raw))),
            Err(e) => !S::raw_ok(raw) && e == TransformError::TypeMismatch,
        }),
{
    match raw {
        RawScalar::Null => Ok(None),
        other => match convert_from::<S, T>(other) {
            Ok(t) => Ok(Some(t)),
            Err(e) => Err(e),
        },
    }
}

/// Reads the raw value as an `S` and converts it fallibly into a `T`: a
/// wrong shape is `TypeMismatch`, a rejected conversion `ConversionFailed`.
pub fn convert_try_from<S: FromRaw, T: TryCoerceFrom<S>>(raw: RawScalar) -> (r: Result<T, TransformError>)
    ensures
        (match r {
            Ok(t) => S::raw_ok(raw) && T::can_coerce(S::of_raw(raw)) && t == T::coerced(
                S::of_raw(raw),
            ),
            Err(e) => (!S::raw_ok(raw) && e == TransformError::TypeMismatch) || (S::raw_ok(raw)
                && !T::can_coerce(S::of_raw(raw)) && e == TransformError::ConversionFailed),
        }),
{
    match S::from_raw(raw) {
        Ok(s) => T::try_coerce(s),
        Err(e) => Err(e),
    }
}

/// The `Option` counterpart of `convert_try_from`.
pub fn convert_try_from_option<S: FromRaw, T: TryCoerceFrom<S>>(raw: RawScalar) -> (r: Result<
    Option<T>,
    TransformError,
>)
    ensures
        raw is Null ==> r == Ok::<Option<T>, TransformError>(None),
        !(raw is Null) ==> (match r {
            Ok(o) => S::raw_ok(raw) && T::can_coerce(S::of_raw(raw)) && o == Some(
                T::coerced(S::of_raw(raw)),
            ),
            Err(e) => (!S::raw_ok(raw) && e == TransformError::TypeMismatch) || (S::raw_ok(raw)
                && !T::can_coerce(S::of_raw(raw)) && e == TransformError::ConversionFailed),
        }),
{
    match raw {
        RawScalar::Null => Ok(None),
        other => match convert_try_from::<S, T>(other) {
            Ok(t) => Ok(Some(t)),
            Err(e) => Err(e),
        },
    }
}

/// Reads the raw value as a string and parses it into a `T`: a non-string
/// raw value is `TypeMismatch`, rejected text `ParseFailed`.
pub fn convert_from_str<T: ParseFromText>(raw: RawScalar) -> (r: Result<T, TransformError>)
    ensures
        (match r {
            Ok(t) => raw is Str && T::can_parse(raw->Str_0@) && t == T::parsed(raw->Str_0@),
            Err(e) => (!(raw is Str) && e == TransformError::TypeMismatch) || (raw is Str && !T::can_parse(
                raw->Str_0@,
            ) && e == TransformError::ParseFailed),
        }),
{
    match raw {
        RawScalar::Str(s) => T::parse_text(s.as_str()),
        _ => Err(TransformError::TypeMismatch),
    }
}

/// The `Option` counterpart of `convert_from_str`.
pub fn convert_from_str_option<T: ParseFromText>(raw: RawScalar) -> (r: Result<Option<T>, TransformError>)
    ensures
        raw is Null ==> r == Ok::<Option<T>, TransformError>(None),
        !(raw is Null) ==> (match r {
            Ok(o) => raw is Str && T::can_parse(raw->Str_0@) && o == Some(T::parsed(raw->Str_0@)),
            Err(e) => (!(raw is Str) && e == TransformError::TypeMismatch) || (raw is Str && !T::can_parse(
                raw->Str_0@,
            ) && e == TransformError::ParseFailed),
        }),
{
    match raw {
        RawScalar::Null => Ok(None),
        other => match convert_from_str::<T>(other) {
            Ok(t) => Ok(Some(t)),
            Err(e) => Err(e),
        },
    }
}

/// For every boolean raw value, the infallible coercion to a byte is owed:
/// the shape matches, and the result is `1` for `true` and `0` for `false`.
/// Together with the contract of `convert_from` this pins
/// `convert_from::<bool, u8>` down on every boolean input.
pub proof fn lemma_bool_to_byte(b: bool)
    ensures
        <bool as FromRaw>::raw_ok(RawScalar::Bool(b)),
        <u8 as CoerceFrom<bool>>::coerced(<bool as FromRaw>::of_raw(RawScalar::Bool(b))) == (
        if b {
            1u8
        } else {
            0u8
        }),
{
}

} // verus!
