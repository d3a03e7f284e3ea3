use deserialize_custom_strings::embedded::decode_embedded;
use deserialize_custom_strings::embedded::Format;
use deserialize_custom_strings::error::TransformError;

fn inner_string(doc: &serde_json::Value) -> String {
    doc.get("inner").unwrap().as_str().unwrap().to_owned()
}

fn assert_expected_record(v: &serde_json::Value) {
    assert_eq!(
        (
            v.get("bar").unwrap().as_bool().unwrap(),
            v.get("baz").unwrap().as_u64().unwrap(),
            v.get("bat").unwrap().as_str().unwrap(),
        ),
        (true, 255, "hello")
    );
}

#[test]
fn yaml_with_encoded_json() {
    let yaml = r#"
    inner: '{"bar": true, "baz": 255, "bat": "hello"}'
  "#;

    let doc: serde_json::Value = serde_yaml::from_str(yaml).unwrap();
    let inner: serde_json::Value =
        decode_embedded(&inner_string(&doc), Format::Json).unwrap();

    assert_expected_record(&inner);
}

#[test]
fn json_with_encoded_json() {
    let json = r#"{
    "inner": "{\"bar\": true, \"baz\": 255, \"bat\": \"hello\"}"
  }"#;

    let doc: serde_json::Value = serde_json::from_str(json).unwrap();
    let inner: serde_json::Value =
        decode_embedded(&inner_string(&doc), Format::Json).unwrap();

    assert_expected_record(&inner);
}

#[test]
fn yaml_with_encoded_yaml() {
    let yaml = r#"
    inner: >
      bar: true

      baz: 255

      bat: hello
  "#;

    let doc: serde_json::Value = serde_yaml::from_str(yaml).unwrap();
    let inner: serde_json::Value =
        decode_embedded(&inner_string(&doc), Format::Yaml).unwrap();

    assert_expected_record(&inner);
}

#[test]
fn json_with_encoded_yaml() {
    let json = r#"{
    "inner": "bar: true\nbaz: 255\nbat: hello"
  }"#;

    let doc: serde_json::Value = serde_json::from_str(json).unwrap();
    let inner: serde_json::Value =
        decode_embedded(&inner_string(&doc), Format::Yaml).unwrap();

    assert_expected_record(&inner);
}

#[test]
fn embedded_parse_failure_kind() {
    let r: Result<serde_json::Value, TransformError> = decode_embedded("{", Format::Json);
    assert_eq!(r, Err(TransformError::EmbeddedParseFailed));
}
