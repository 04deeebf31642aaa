use soliloquy_drivers::servo_embedder::{check_url, validate_url, EmbedderState};

#[test]
fn test_url_validation_valid() {
    assert!(validate_url("https://example.com").is_ok());
    assert!(validate_url("http://example.com").is_ok());
    assert!(validate_url("https://www.example.com/path").is_ok());
    assert!(validate_url("HTTP://EXAMPLE.COM").is_ok());
}

#[test]
fn test_url_validation_empty() {
    assert!(validate_url("").is_err());
    assert_eq!(validate_url("").unwrap_err(), "URL cannot be empty");
}

#[test]
fn test_url_validation_whitespace() {
    assert!(validate_url("   ").is_err());
    assert_eq!(validate_url("  ").unwrap_err(), "URL cannot be only whitespace");
}

#[test]
fn test_url_validation_invalid_scheme() {
    assert!(validate_url("ftp://example.com").is_err());
    assert!(validate_url("example.com").is_err());
    assert!(validate_url("www.example.com").is_err());
    let err = validate_url("ftp://example.com").unwrap_err();
    assert!(err.contains("http://") || err.contains("https://"));
}

#[test]
fn test_url_validation_too_short() {
    assert!(validate_url("http://a").is_err());
    assert_eq!(validate_url("http://a").unwrap_err(), "URL is too short to be valid");
}

#[test]
fn test_url_validation_edge_cases() {
    assert!(validate_url("https://").is_err());
    assert!(validate_url("https://a.b").is_ok());
    assert!(validate_url("https://example.com:8080").is_ok());
    assert!(validate_url("https://example.com/path?query=value#fragment").is_ok());
}

#[test]
fn url_scheme_check_ignores_case_but_not_padding() {
    assert!(validate_url("HtTpS://example.org").is_ok());
    assert_eq!(validate_url(" https://example.com").unwrap_err(), "URL must start with http:// or https://");
    assert_eq!(validate_url("\t\n").unwrap_err(), "URL cannot be only whitespace");
    assert!(matches!(EmbedderState::Error("x".to_string()), EmbedderState::Error(_)));
}

#[test]
fn check_url_on_given_parts() {
    assert!(check_url("HTTP://EXAMPLE.COM", false, "http://example.com").is_ok());
    assert_eq!(check_url("HTTP://EXAMPLE.COM", false, "HTTP://EXAMPLE.COM").unwrap_err(), "URL must start with http:// or https://");
    assert_eq!(check_url("  ", true, "  ").unwrap_err(), "URL cannot be only whitespace");
    assert_eq!(check_url("", true, "").unwrap_err(), "URL cannot be empty");
    assert_eq!(check_url("https://a", false, "https://a").unwrap_err(), "URL is too short to be valid");
}
