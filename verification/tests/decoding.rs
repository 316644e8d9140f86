use secret_resolution::{get_secret_value_as_map, RetrievalError};

#[test]
fn get_secret_value_should_return_secrets_as_hashmap() {
    let secret_value = r#"{
            "key1": "value1", "key2": "value2"
        }"#;

    let actual = get_secret_value_as_map(Some(secret_value.to_string())).unwrap();

    assert_eq!(actual.len(), 2);
    assert_eq!(actual.get("key1").unwrap(), &"value1");
    assert_eq!(actual.get("key2").unwrap(), &"value2");
}

#[test]
fn get_secret_value_should_return_empty_hashmap_when_no_secret_is_present() {
    let actual = get_secret_value_as_map(None).unwrap();

    assert_eq!(actual.len(), 0);
}

#[test]
fn get_secret_value_should_return_error_if_parsing_fails() {
    let secret_value = "{ invalid }";

    let actual = get_secret_value_as_map(Some(secret_value.to_string()));

    assert!(actual.is_err());
}

#[test]
fn decode_reports_json_error_for_non_object_payload() {
    let actual = get_secret_value_as_map(Some("[1,2,3]".to_string()));

    assert!(matches!(actual, Err(RetrievalError::Json)));
}

#[test]
fn decode_accepts_empty_object() {
    let actual = get_secret_value_as_map(Some("{}".to_string())).unwrap();

    assert_eq!(actual.len(), 0);
}
