use myapp::json::JsonValue;
use myapp::redact::{is_sensitive_key, is_sensitive_query_key, project_fields, redact_query_params, redact_secrets};

fn s(v: &str) -> JsonValue {
    JsonValue::Str(v.to_string())
}

fn n(v: &str) -> JsonValue {
    JsonValue::Number(v.to_string())
}

fn obj(members: Vec<(&str, JsonValue)>) -> JsonValue {
    JsonValue::Object(members.into_iter().map(|(k, v)| (k.to_string(), v)).collect())
}

fn text_of(v: Option<&JsonValue>) -> Option<&str> {
    v.and_then(|v| v.as_str())
}

#[test]
fn redacts_apikey_query_param_in_url() {
    let mut value = obj(vec![(
        "data",
        obj(vec![("downloadUrl", s("http://host:9696/2/download?apikey=deadbeefsecret&link=abc"))]),
    )]);
    redact_secrets(&mut value);
    assert_eq!(
        text_of(value.get("data").and_then(|d| d.get("downloadUrl"))),
        Some("http://host:9696/2/download?apikey=********&link=abc")
    );
}

#[test]
fn does_not_mask_substring_of_larger_param() {
    let mut value = obj(vec![("url", s("https://x/y?notapikey=keepme"))]);
    redact_secrets(&mut value);
    assert_eq!(text_of(value.get("url")), Some("https://x/y?notapikey=keepme"));
}

#[test]
fn masks_secret_named_object_keys() {
    let mut value = obj(vec![("apiKey", s("topsecret")), ("name", s("public"))]);
    redact_secrets(&mut value);
    assert_eq!(text_of(value.get("apiKey")), Some("********"));
    assert_eq!(text_of(value.get("name")), Some("public"));
}

#[test]
fn redaction_walks_arrays_and_keeps_non_strings() {
    let mut value = JsonValue::Array(vec![
        obj(vec![("password", s("hunter2")), ("token", n("5"))]),
        s("https://h/p?TOKEN=abc#frag"),
        JsonValue::Bool(true),
    ]);
    redact_secrets(&mut value);
    match &value {
        JsonValue::Array(items) => {
            assert_eq!(text_of(items[0].get("password")), Some("********"));
            assert!(matches!(items[0].get("token"), Some(JsonValue::Number(v)) if v.as_str() == "5"));
            assert_eq!(items[1].as_str(), Some("https://h/p?TOKEN=********#frag"));
            assert!(matches!(items[2], JsonValue::Bool(true)));
        },
        _ => panic!("expected an array"),
    }
}

#[test]
fn query_redaction_edge_cases() {
    let mut plain = "no query here".to_string();
    redact_query_params(&mut plain);
    assert_eq!(plain, "no query here");

    let mut several = "https://h/?a=1&api_key=x&passkey=y&flag".to_string();
    redact_query_params(&mut several);
    assert_eq!(several, "https://h/?a=1&api_key=********&passkey=********&flag");

    let mut key_only = "https://h/?token".to_string();
    redact_query_params(&mut key_only);
    assert_eq!(key_only, "https://h/?token");

    let mut twice = "https://h/?apikey=a=b".to_string();
    redact_query_params(&mut twice);
    assert_eq!(twice, "https://h/?apikey=********");
    let once = twice.clone();
    redact_query_params(&mut twice);
    assert_eq!(twice, once);
}

#[test]
fn sensitive_keys_ignore_ascii_case() {
    assert!(is_sensitive_key("ApiKey"));
    assert!(is_sensitive_key("PASSWORD"));
    assert!(!is_sensitive_key("apikeys"));
    assert!(is_sensitive_query_key("ApiToken"));
    assert!(!is_sensitive_query_key("password"));
}

#[test]
fn project_fields_whitelists_keys() {
    let value = obj(vec![
        ("id", n("1")),
        ("name", s("x")),
        ("overview", s("long...")),
        ("images", JsonValue::Array(vec![])),
    ]);
    let projected = project_fields(value, &["id", "name"]);
    match &projected {
        JsonValue::Object(members) => {
            assert_eq!(members.len(), 2);
            assert!(matches!(projected.get("id"), Some(JsonValue::Number(v)) if v.as_str() == "1"));
            assert_eq!(text_of(projected.get("name")), Some("x"));
            assert!(projected.get("overview").is_none());
        },
        _ => panic!("expected an object"),
    }
}

#[test]
fn project_fields_passes_non_objects_through() {
    let value = JsonValue::Array(vec![n("1"), n("2"), n("3")]);
    match project_fields(value, &["id"]) {
        JsonValue::Array(items) => assert_eq!(items.len(), 3),
        _ => panic!("a non-object is returned unchanged"),
    }
}

#[test]
fn project_fields_skips_missing_and_repeated_keys() {
    let value = obj(vec![("b", n("2")), ("a", n("1"))]);
    match project_fields(value, &["a", "missing", "a"]) {
        JsonValue::Object(members) => {
            assert_eq!(members.len(), 1);
            assert_eq!(members[0].0, "a");
        },
        _ => panic!("expected an object"),
    }
}

#[test]
fn redaction_twice_equals_once() {
    let mut value = obj(vec![
        ("Token", s("abc")),
        ("links", JsonValue::Array(vec![s("http://h/p?apikey=1&x=2#f"), s("plain")])),
        ("nested", obj(vec![("password", n("3"))])),
    ]);
    redact_secrets(&mut value);
    let once = format!("{value:?}");
    redact_secrets(&mut value);
    assert_eq!(format!("{value:?}"), once);
    assert_eq!(text_of(value.get("Token")), Some("********"));
}

#[test]
fn tool_schemas_are_closed() {
    let schema = obj(vec![("type", s("object")), ("properties", obj(vec![]))]);
    let closed = myapp::tools::close_schema(schema);
    assert!(matches!(closed.get("additionalProperties"), Some(JsonValue::Bool(false))));
    assert_eq!(text_of(closed.get("type")), Some("object"));
    let open = obj(vec![("additionalProperties", JsonValue::Bool(true)), ("type", s("object"))]);
    match myapp::tools::close_schema(open) {
        JsonValue::Object(members) => {
            assert_eq!(members.len(), 2);
            assert_eq!(members[0].0, "additionalProperties");
            assert!(matches!(members[0].1, JsonValue::Bool(false)));
        },
        _ => panic!("expected an object"),
    }
    assert!(matches!(myapp::tools::close_schema(JsonValue::Bool(true)), JsonValue::Bool(true)));
}
