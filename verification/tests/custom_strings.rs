use deserialize_custom_strings::email;
use deserialize_custom_strings::error::TransformError;
use deserialize_custom_strings::phone;
use deserialize_custom_strings::url;

#[test]
fn custom_strings_phone_number1() {
    let r = phone::validate("+49 1571 231 2312");
    assert_eq!(r, Ok("+4915712312312".to_owned()));
}

#[test]
fn custom_strings_phone_number2() {
    let r = phone::validate("+49 175/3323-6724");
    assert_eq!(r, Ok("+4917533236724".to_owned()));
}

#[test]
fn custom_strings_phone_number3() {
    let r = phone::validate("++49175//3323+67  24");
    assert_eq!(r, Ok("+4917533236724".to_owned()));
}

#[test]
fn custom_strings_phone_number4() {
    let r = phone::validate("+49 221 345 46");
    assert_eq!(r, Ok("+4922134546".to_owned()));
}

#[test]
fn valid_emails() {
    let valid_emails = vec![
        "email@here.com",
        "weirder-email@here.and.there.com",
        r#"!def!xyz%abc@example.com"#,
        "email@[127.0.0.1]",
        "email@[2001:dB8::1]",
        "email@[2001:dB8:0:0:0:0:0:1]",
        "email@[::fffF:127.0.0.1]",
        "example@valid-----hyphens.com",
        "example@valid-with-hyphens.com",
        "test@domain.with.idn.tld.उदाहरण.परीक्षा",
        "a@atm.aaaaaaaaaaaaaaaaaaaaaaaaaaaaaaaaaaaaaaaaaaaaaaaaaaaaaaaaaaaaaaa",
        "a@aaaaaaaaaaaaaaaaaaaaaaaaaaaaaaaaaaaaaaaaaaaaaaaaaaaaaaaaaaaaaaa.atm",
        "a@aaaaaaaaaaaaaaaaaaaaaaaaaaaaaaaaaaaaaaaaaaaaaaaaaaaaaaaaaaaaaaa.bbbbbbbbbb.atm",
        "abc@bar",
        "ABC@BAR",
        "       email@127.0.0.1     ",
        "\n\t  a@b.com\n",
        "\na@[127.0.0.1]\n",
    ];

    for e in valid_emails {
        assert!(email::validate(e).is_ok());
    }
}

#[test]
fn invalid_emails() {
    let invalid_emails = vec![
        r#""test@test"@example.com"#,
        "a@atm.aaaaaaaaaaaaaaaaaaaaaaaaaaaaaaaaaaaaaaaaaaaaaaaaaaaaaaaaaaaaaaaa",
        "",
        "abc",
        "abc@",
        "a @x.cz",
        "abc@.com",
        "something@@somewhere.com",
        "email@[127.0.0.256]",
        "email@[2001:db8::12345]",
        "email@[2001:db8:0:0:0:0:1]",
        "email@[::ffff:127.0.0.256]",
        "example@invalid-.com",
        "example@-invalid.com",
        "example@invalid.com-",
        "example@inv-.alid-.com",
        "example@inv-.-alid.com",
        r#"test@example.com\n\n<script src="x.js">"#,
        r#""\\\011"@here.com"#,
        r#""\\\012"@here.com"#,
        "trailingdot@shouldfail.com.",
        "a\n@b.com",
        r#""test@test"\n@example.com"#,
        "John.Doe@exam_ple.com",
    ];

    for e in invalid_emails {
        assert!(email::validate(e).is_err());
    }
}

#[test]
fn custom_strings_urlencoded1() {
    let r = url::validate("https://something.de%2F");
    assert_eq!(r, Ok("https://something.de/".to_owned()));
}

#[test]
fn custom_strings_urlencoded2() {
    let r = url::validate("http:/%2fsome-ü-halfway-ü-decent.com%2Fstring");
    assert_eq!(r, Ok("http://some-ü-halfway-ü-decent.com/string".to_owned()));
}

#[test]
#[should_panic]
fn custom_strings_wrong_urlencoded1() {
    let _ = url::validate("http://not-a-byte.com/%2G").unwrap();
}

#[test]
#[should_panic]
fn custom_strings_wrong_urlencoded2() {
    let _ = url::validate("http://only.half.a.byte%2").unwrap();
}

#[test]
fn url_escape_failures_keep_decoder_kinds() {
    assert_eq!(
        url::validate("http://not-a-byte.com/%2G"),
        Err(TransformError::InvalidEscape)
    );
    assert_eq!(
        url::validate("http://only.half.a.byte%2"),
        Err(TransformError::TruncatedEscape)
    );
}

#[test]
fn url_rejects_empty_authority() {
    assert_eq!(url::validate("http://"), Err(TransformError::InvalidUrl));
}

#[test]
fn url_rejects_embedded_whitespace() {
    assert_eq!(url::validate("http://a b.com"), Err(TransformError::InvalidUrl));
}

#[test]
fn url_accepts_schemeless_authority() {
    assert_eq!(url::validate("something.de/path"), Ok("something.de/path".to_owned()));
}

#[test]
fn email_validate_lowercases_and_trims() {
    assert_eq!(email::validate("  ABC@BAR  "), Ok("abc@bar".to_owned()));
}

#[test]
fn email_rejects_label_over_63_chars() {
    let long_label: String = std::iter::repeat('a').take(64).collect();
    let addr = format!("a@{}.com", long_label);
    assert!(email::validate(&addr).is_err());
}

#[test]
fn email_accepts_label_of_63_chars() {
    let label: String = std::iter::repeat('a').take(63).collect();
    let addr = format!("a@{}.com", label);
    assert!(email::validate(&addr).is_ok());
}
