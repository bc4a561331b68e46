use codegen_fetch::config::parse_config;
use codegen_fetch::request::{assemble_body, request_body, ArchiveError, GENERATOR_URL};

#[test]
fn assemble_places_parts() {
    assert_eq!(
        assemble_body("\"go\"", "\"client\"", "[1]"),
        "{\"lang\":\"go\",\"type\":\"client\",\"spec\":[1]}"
    );
}

#[test]
fn body_embeds_spec_as_value() {
    let c = parse_config("lang=typescript-fetch\ngen_type=client").unwrap();
    let body = request_body(&c, String::from("{\"openapi\": \"3.0.0\"}")).unwrap();
    assert_eq!(
        body,
        "{\"lang\":\"typescript-fetch\",\"type\":\"client\",\"spec\":{\"openapi\": \"3.0.0\"}}"
    );
    let v: serde_json::Value = serde_json::from_str(&body).unwrap();
    assert_eq!(v["spec"]["openapi"], "3.0.0");
}

#[test]
fn body_drops_whitespace_around_spec() {
    let c = parse_config("lang=go\ngen_type=server").unwrap();
    let body = request_body(&c, String::from("  [1, 2]\n")).unwrap();
    assert_eq!(body, "{\"lang\":\"go\",\"type\":\"server\",\"spec\":[1, 2]}");
}

#[test]
fn body_escapes_settings() {
    let c = parse_config("lang=a\"b\ngen_type=c\\d").unwrap();
    let body = request_body(&c, String::from("null")).unwrap();
    assert_eq!(body, "{\"lang\":\"a\\\"b\",\"type\":\"c\\\\d\",\"spec\":null}");
}

#[test]
fn body_escapes_control_characters() {
    let c = parse_config("lang=a\tb\u{1}c\u{1f}\ngen_type=\u{8}\u{c}\r").unwrap();
    let body = request_body(&c, String::from("1")).unwrap();
    assert_eq!(body, "{\"lang\":\"a\\tb\\u0001c\\u001f\",\"type\":\"\\b\\f\\r\",\"spec\":1}");
}

#[test]
fn spec_that_is_not_json_is_rejected() {
    let c = parse_config("lang=go").unwrap();
    let e = request_body(&c, String::from("not json")).unwrap_err();
    assert!(matches!(e, ArchiveError::InvalidSpec(_)));
    assert!(e.message().starts_with("Api info is not valid JSON. ("));
    assert!(matches!(request_body(&c, String::from("{} {}")), Err(ArchiveError::InvalidSpec(_))));
}

#[test]
fn archive_error_messages() {
    assert_eq!(
        ArchiveError::RequestFailed(String::from("timeout")).message(),
        "Can't download archive. (timeout)"
    );
    assert_eq!(
        ArchiveError::ReceiveFailed(String::from("reset")).message(),
        "Can't receive archive. (reset)"
    );
    assert_eq!(
        ArchiveError::SpecFetchFailed(String::from("dns")).message(),
        "Can't get api info. (dns)"
    );
}

#[test]
fn generator_endpoint() {
    assert_eq!(GENERATOR_URL, "https://generator3.swagger.io/api/generate");
}
