use deserialize_custom_strings::email;
use deserialize_custom_strings::error::TransformError;
use deserialize_custom_strings::percent;
use deserialize_custom_strings::phone;

#[test]
fn tests_phone_number1() {
    let r = phone::normalize("+49 11 231 2312 3123");
    assert_eq!(r, "+491123123123123".to_owned());
}

#[test]
fn tests_phone_number2() {
    let r = phone::normalize("+49 175/3323-6724");
    assert_eq!(r, "+4917533236724".to_owned());
}

#[test]
fn tests_phone_number3() {
    let r = phone::normalize("0175/3323+67 24");
    assert_eq!(r, "017533236724".to_owned());
}

#[test]
fn tests_phone_number4() {
    let r = phone::normalize("++49175//3323+67  24");
    assert_eq!(r, "+4917533236724".to_owned());
}

#[test]
fn email1() {
    let r = email::validate("Test@Test.De");
    assert_eq!(r, Ok("test@test.de".to_owned()));
}

#[test]
fn tests_urlencoded1() {
    let r = percent::decode("something%2F");
    assert_eq!(r, Ok("something/".to_owned()));
}

#[test]
fn tests_urlencoded2() {
    let r = percent::decode("some 端 halfway 端 decent %2F string");
    assert_eq!(r, Ok("some 端 halfway 端 decent / string".to_owned()));
}

#[test]
#[should_panic]
fn tests_wrong_urlencoded1() {
    let _ = percent::decode("no bytes %2G").unwrap();
}

#[test]
#[should_panic]
fn tests_wrong_urlencoded2() {
    let _ = percent::decode("only half a byte %2").unwrap();
}

#[test]
fn percent_decode_slash() {
    assert_eq!(percent::decode("%2F"), Ok("/".to_owned()));
}

#[test]
fn percent_decode_invalid_escape_kind() {
    assert_eq!(percent::decode("%2G"), Err(TransformError::InvalidEscape));
}

#[test]
fn percent_decode_truncated_escape_kind() {
    assert_eq!(percent::decode("abc%2"), Err(TransformError::TruncatedEscape));
}

#[test]
fn percent_decode_empty() {
    assert_eq!(percent::decode(""), Ok(String::new()));
}

#[test]
fn percent_decode_lowercase_hex() {
    assert_eq!(percent::decode("a%2fb"), Ok("a/b".to_owned()));
}

#[test]
fn percent_round_trip_encoded_percent() {
    // `%` itself must round through its own escape.
    assert_eq!(percent::decode("100%25"), Ok("100%".to_owned()));
}

#[test]
fn phone_normalize_empty() {
    assert_eq!(phone::normalize(""), String::new());
}

#[test]
fn phone_normalize_plus_not_leading() {
    assert_eq!(phone::normalize("49+49"), "4949".to_owned());
}

#[test]
fn phone_normalize_idempotent_on_noisy_input() {
    let once = phone::normalize("++49175//3323+67  24");
    let twice = phone::normalize(&once);
    assert_eq!(once, twice);
}

#[test]
fn phone_validate_accepts_clean_number() {
    assert_eq!(phone::validate("+49 221 345 46"), Ok("+4922134546".to_owned()));
}

#[test]
fn phone_validate_rejects_short_number() {
    assert_eq!(phone::validate("123"), Err(TransformError::InvalidPhoneNumber));
}

#[test]
fn phone_validate_rejects_leading_zero() {
    assert_eq!(
        phone::validate("0175/3323+67 24"),
        Err(TransformError::InvalidPhoneNumber)
    );
}
