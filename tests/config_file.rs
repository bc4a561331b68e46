use codegen_fetch::config::{load_config, parse_config, ConfigError, ReadFailure};

#[test]
fn four_keys_give_values_verbatim() {
    let text = "api_url=http://x/spec.json\nlang=typescript-fetch\ngen_type=client\nfolder=out\n";
    let c = parse_config(text).unwrap();
    assert_eq!(c.api_url, "http://x/spec.json");
    assert_eq!(c.lang, "typescript-fetch");
    assert_eq!(c.gen_type, "client");
    assert_eq!(c.folder, "out");
}

#[test]
fn values_are_not_trimmed() {
    let c = parse_config("folder= my out \nlang=  go\napi_url=a=b\ngen_type=").unwrap();
    assert_eq!(c.folder, " my out ");
    assert_eq!(c.lang, "  go");
    assert_eq!(c.api_url, "a=b");
    assert_eq!(c.gen_type, "");
}

#[test]
fn order_of_lines_does_not_matter() {
    let c = parse_config("folder=f\ngen_type=g\nlang=l\napi_url=u").unwrap();
    assert_eq!(c.api_url, "u");
    assert_eq!(c.lang, "l");
    assert_eq!(c.gen_type, "g");
    assert_eq!(c.folder, "f");
}

#[test]
fn last_occurrence_wins() {
    let c = parse_config("lang=first\nlang=second\n").unwrap();
    assert_eq!(c.lang, "second");
    assert_eq!(c.api_url, "");
}

#[test]
fn empty_file_gives_empty_settings() {
    let c = parse_config("").unwrap();
    assert_eq!(c.api_url, "");
    assert_eq!(c.lang, "");
    assert_eq!(c.gen_type, "");
    assert_eq!(c.folder, "");
}

#[test]
fn blank_lines_are_skipped() {
    let c = parse_config("\n\nlang=rust\n\n").unwrap();
    assert_eq!(c.lang, "rust");
}

#[test]
fn crlf_line_endings_are_removed() {
    let c = parse_config("lang=rust\r\nfolder=out\r\n").unwrap();
    assert_eq!(c.lang, "rust");
    assert_eq!(c.folder, "out");
}

#[test]
fn unicode_values_are_kept() {
    let c = parse_config("folder=ausgabe-ü\nlang=日本").unwrap();
    assert_eq!(c.folder, "ausgabe-ü");
    assert_eq!(c.lang, "日本");
}

#[test]
fn unknown_key_is_rejected() {
    let r = parse_config("api_url=u\ncolor=blue\nlang=l\n");
    assert!(matches!(r, Err(ConfigError::UnknownKey)));
    assert_eq!(r.unwrap_err().message(), "Found unknown value in config file");
}

#[test]
fn key_case_matters() {
    assert!(matches!(parse_config("Lang=x"), Err(ConfigError::UnknownKey)));
    assert!(matches!(parse_config(" lang=x"), Err(ConfigError::UnknownKey)));
}

#[test]
fn line_without_separator_is_all_name() {
    let r = parse_config("color\n");
    assert!(matches!(r, Err(ConfigError::UnknownKey)));
    assert_eq!(r.unwrap_err().message(), "Found unknown value in config file");
    assert!(matches!(parse_config("api_url=u\nfolder"), Ok(_)));
}

#[test]
fn bare_setting_name_empties_it() {
    let c = parse_config("lang=rust\nlang\n").unwrap();
    assert_eq!(c.lang, "");
}

#[test]
fn unknown_key_after_bare_name_is_still_rejected() {
    assert!(matches!(parse_config("lang\ncolor=x"), Err(ConfigError::UnknownKey)));
    assert!(matches!(parse_config("color=x\nlang"), Err(ConfigError::UnknownKey)));
}

#[test]
fn missing_file_and_denied_file_differ() {
    let missing = load_config(Err(ReadFailure::NotFound)).unwrap_err();
    let denied = load_config(Err(ReadFailure::PermissionDenied)).unwrap_err();
    assert!(matches!(missing, ConfigError::NotFound));
    assert!(matches!(denied, ConfigError::PermissionDenied));
    assert_eq!(missing.message(), "Can't find \"codegen.config\" file");
    assert_eq!(denied.message(), "Can't read config file");
    assert_ne!(missing.message(), denied.message());
}

#[test]
fn other_read_failure_keeps_cause() {
    let e = load_config(Err(ReadFailure::Other(String::from("disk on fire")))).unwrap_err();
    assert_eq!(e.message(), "Unknown error (disk on fire)");
}

#[test]
fn load_parses_text_that_was_read() {
    let c = load_config(Ok(String::from("gen_type=server\n"))).unwrap();
    assert_eq!(c.gen_type, "server");
    assert!(matches!(load_config(Ok(String::from("x=1"))), Err(ConfigError::UnknownKey)));
}
