use deserialize_custom_strings::convert::convert_from;
use deserialize_custom_strings::convert::convert_from_option;
use deserialize_custom_strings::convert::convert_from_str;
use deserialize_custom_strings::convert::convert_from_str_option;
use deserialize_custom_strings::convert::convert_try_from;
use deserialize_custom_strings::convert::convert_try_from_option;
use deserialize_custom_strings::convert::RawScalar;
use deserialize_custom_strings::error::TransformError;

/// The raw scalar a decoded JSON field hands to a transformer.
fn raw_of(v: &serde_json::Value) -> RawScalar {
    if v.is_null() {
        RawScalar::Null
    } else if let Some(b) = v.as_bool() {
        RawScalar::Bool(b)
    } else if let Some(u) = v.as_u64() {
        RawScalar::UInt(u)
    } else if let Some(i) = v.as_i64() {
        RawScalar::Int(i)
    } else if let Some(s) = v.as_str() {
        RawScalar::Str(s.to_owned())
    } else {
        panic!("unexpected raw value shape");
    }
}

fn field(doc: &serde_json::Value, name: &str) -> RawScalar {
    raw_of(doc.get(name).unwrap())
}

#[test]
fn foo1() {
    let json = r#"{
    "bar": true,
    "baz": 127,
    "bat": "-4"
  }"#;

    let doc: serde_json::Value = serde_json::from_str(json).unwrap();
    let bar: u8 = convert_from::<bool, u8>(field(&doc, "bar")).unwrap();
    let baz: u8 = convert_try_from::<i8, u8>(field(&doc, "baz")).unwrap();
    let bat: i32 = convert_from_str::<i32>(field(&doc, "bat")).unwrap();

    assert_eq!((bar, baz, bat), (1, 127, -4));
}

#[test]
fn foo2() {
    let json = r#"{
    "bar": false,
    "baz": 0,
    "bat": "12"
  }"#;

    let doc: serde_json::Value = serde_json::from_str(json).unwrap();
    let bar: u8 = convert_from::<bool, u8>(field(&doc, "bar")).unwrap();
    let baz: u8 = convert_try_from::<i8, u8>(field(&doc, "baz")).unwrap();
    let bat: i32 = convert_from_str::<i32>(field(&doc, "bat")).unwrap();

    assert_eq!((bar, baz, bat), (0, 0, 12));
}

#[test]
fn foo3() {
    let json = r#"{
    "bar": false,
    "baz": 0,
    "bat": "12"
  }"#;

    let doc: serde_json::Value = serde_json::from_str(json).unwrap();
    let bar: u8 = convert_from::<bool, u8>(field(&doc, "bar")).unwrap();
    let baz: u8 = convert_try_from::<i8, u8>(field(&doc, "baz")).unwrap();
    let bat: i32 = convert_from_str::<i32>(field(&doc, "bat")).unwrap();

    assert_eq!((bar, baz, bat), (0, 0, 12));
}

/// `bar` does not support being read from a string.
#[test]
fn failing_bar() {
    let json = r#"{
    "bar": "true",
    "baz": 127,
    "bat": "-4"
  }"#;

    let doc: serde_json::Value = serde_json::from_str(json).unwrap();
    assert!(convert_from::<bool, u8>(field(&doc, "bar")).is_err());
}

/// An 8-bit signed intermediate overflows at `128`.
#[test]
fn failing_baz() {
    let json = r#"{
    "bar": true,
    "baz": 128,
    "bat": "-4"
  }"#;

    let doc: serde_json::Value = serde_json::from_str(json).unwrap();
    assert!(convert_try_from::<i8, u8>(field(&doc, "baz")).is_err());
}

/// `-4` is not a string.
#[test]
fn failing_bat() {
    let json = r#"{
    "bar": true,
    "baz": 127,
    "bat": -4
  }"#;

    let doc: serde_json::Value = serde_json::from_str(json).unwrap();
    assert!(convert_from_str::<i32>(field(&doc, "bat")).is_err());
}

#[test]
fn foo_option1() {
    let json = r#"{
    "bar": true,
    "baz": 127,
    "bat": "-4"
  }"#;

    let doc: serde_json::Value = serde_json::from_str(json).unwrap();
    let bar: Option<u8> = convert_from_option::<bool, u8>(field(&doc, "bar")).unwrap();
    let baz: Option<u8> = convert_try_from_option::<i8, u8>(field(&doc, "baz")).unwrap();
    let bat: Option<i32> = convert_from_str_option::<i32>(field(&doc, "bat")).unwrap();

    assert_eq!((bar, baz, bat), (Some(1), Some(127), Some(-4)));
}

#[test]
fn foo_option2() {
    let json = r#"{
    "bar": false,
    "baz": null,
    "bat": "12"
  }"#;

    let doc: serde_json::Value = serde_json::from_str(json).unwrap();
    let bar: Option<u8> = convert_from_option::<bool, u8>(field(&doc, "bar")).unwrap();
    let baz: Option<u8> = convert_try_from_option::<i8, u8>(field(&doc, "baz")).unwrap();
    let bat: Option<i32> = convert_from_str_option::<i32>(field(&doc, "bat")).unwrap();

    assert_eq!((bar, baz, bat), (Some(0), None, Some(12)));
}

#[test]
fn foo_option3() {
    let json = r#"{
    "bar": null,
    "baz": null,
    "bat": null
  }"#;

    let doc: serde_json::Value = serde_json::from_str(json).unwrap();
    let bar: Option<u8> = convert_from_option::<bool, u8>(field(&doc, "bar")).unwrap();
    let baz: Option<u8> = convert_try_from_option::<i8, u8>(field(&doc, "baz")).unwrap();
    let bat: Option<i32> = convert_from_str_option::<i32>(field(&doc, "bat")).unwrap();

    assert_eq!((bar, baz, bat), (None, None, None));
}

#[test]
fn bool_coercion_is_one_and_zero() {
    assert_eq!(convert_from::<bool, u8>(RawScalar::Bool(true)), Ok(1));
    assert_eq!(convert_from::<bool, u8>(RawScalar::Bool(false)), Ok(0));
}

#[test]
fn wider_coercions() {
    assert_eq!(convert_from::<bool, u64>(RawScalar::Bool(true)), Ok(1));
    assert_eq!(convert_from::<bool, i64>(RawScalar::Bool(false)), Ok(0));
    assert_eq!(convert_from::<i8, i64>(RawScalar::Int(-7)), Ok(-7));
    assert_eq!(convert_try_from::<i64, i8>(RawScalar::Int(-128)), Ok(-128));
    assert_eq!(
        convert_try_from::<i64, i8>(RawScalar::Int(128)),
        Err(TransformError::ConversionFailed)
    );
    assert_eq!(convert_try_from::<i64, u64>(RawScalar::Int(5)), Ok(5));
    assert_eq!(
        convert_try_from::<i64, u64>(RawScalar::Int(-5)),
        Err(TransformError::ConversionFailed)
    );
    assert_eq!(convert_try_from::<u64, i64>(RawScalar::UInt(5)), Ok(5));
    assert_eq!(
        convert_try_from::<u64, i64>(RawScalar::UInt(u64::MAX)),
        Err(TransformError::ConversionFailed)
    );
    assert_eq!(convert_try_from::<i64, u8>(RawScalar::Int(255)), Ok(255));
    assert_eq!(
        convert_try_from::<i64, u8>(RawScalar::Int(256)),
        Err(TransformError::ConversionFailed)
    );
}

#[test]
fn try_from_kinds_are_distinct() {
    assert_eq!(convert_try_from::<i8, u8>(RawScalar::Int(127)), Ok(127));
    assert_eq!(
        convert_try_from::<i8, u8>(RawScalar::Int(-1)),
        Err(TransformError::ConversionFailed)
    );
    assert_eq!(
        convert_try_from::<i8, u8>(RawScalar::Str("1".to_owned())),
        Err(TransformError::TypeMismatch)
    );
}

#[test]
fn from_str_kinds_are_distinct() {
    assert_eq!(
        convert_from_str::<i32>(RawScalar::Str("abc".to_owned())),
        Err(TransformError::ParseFailed)
    );
    assert_eq!(
        convert_from_str::<i32>(RawScalar::Int(-4)),
        Err(TransformError::TypeMismatch)
    );
}

#[test]
fn option_variants_reject_wrong_shapes_besides_null() {
    assert_eq!(
        convert_from_option::<bool, u8>(RawScalar::Str("true".to_owned())),
        Err(TransformError::TypeMismatch)
    );
    assert_eq!(convert_from_str_option::<i32>(RawScalar::Null), Ok(None));
}

#[test]
fn parse_extreme_values() {
    assert_eq!(
        convert_from_str::<i32>(RawScalar::Str("-2147483648".to_owned())),
        Ok(i32::MIN)
    );
    assert_eq!(
        convert_from_str::<i32>(RawScalar::Str("2147483647".to_owned())),
        Ok(i32::MAX)
    );
    assert_eq!(
        convert_from_str::<i32>(RawScalar::Str("2147483648".to_owned())),
        Err(TransformError::ParseFailed)
    );
    assert_eq!(
        convert_from_str::<u64>(RawScalar::Str("18446744073709551615".to_owned())),
        Ok(u64::MAX)
    );
    assert_eq!(
        convert_from_str::<u64>(RawScalar::Str("18446744073709551616".to_owned())),
        Err(TransformError::ParseFailed)
    );
    assert_eq!(convert_from_str::<u8>(RawScalar::Str("+12".to_owned())), Ok(12));
    assert_eq!(
        convert_from_str::<bool>(RawScalar::Str("true".to_owned())),
        Ok(true)
    );
    assert_eq!(
        convert_from_str::<bool>(RawScalar::Str("false".to_owned())),
        Ok(false)
    );
}
