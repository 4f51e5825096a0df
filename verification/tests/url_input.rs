use safestream::url_input::{
    check_parsed_url, has_numeric_port, normalize_and_validate, url_candidate, ParsedUrl,
    UrlInputError,
};

#[test]
fn empty_input_is_rejected() {
    assert_eq!(normalize_and_validate(""), Err(UrlInputError::Empty));
    assert_eq!(normalize_and_validate("   "), Err(UrlInputError::Empty));
}

#[test]
fn bare_host_gets_https_prefix() {
    assert_eq!(
        normalize_and_validate("example.com").unwrap(),
        "https://example.com/"
    );
}

#[test]
fn surrounding_whitespace_is_trimmed() {
    assert_eq!(
        normalize_and_validate("  https://example.com  ").unwrap(),
        "https://example.com/"
    );
}

#[test]
fn http_scheme_is_allowed() {
    assert_eq!(
        normalize_and_validate("http://example.com").unwrap(),
        "http://example.com/"
    );
}

#[test]
fn file_scheme_is_rejected() {
    assert_eq!(
        normalize_and_validate("file:///etc/passwd"),
        Err(UrlInputError::UnsupportedScheme("file".to_string()))
    );
}

#[test]
fn javascript_scheme_is_rejected() {
    assert_eq!(
        normalize_and_validate("javascript:alert(1)"),
        Err(UrlInputError::UnsupportedScheme("javascript".to_string()))
    );
}

#[test]
fn ftp_scheme_is_rejected() {
    assert_eq!(
        normalize_and_validate("ftp://example.com"),
        Err(UrlInputError::UnsupportedScheme("ftp".to_string()))
    );
}

#[test]
fn malformed_url_is_rejected() {
    assert!(matches!(
        normalize_and_validate("not a url with spaces"),
        Err(UrlInputError::InvalidUrl(_))
    ));
}

#[test]
fn path_and_query_are_preserved() {
    assert_eq!(
        normalize_and_validate("example.com/path?q=1").unwrap(),
        "https://example.com/path?q=1"
    );
}

#[test]
fn host_port_form_is_treated_as_host_not_scheme() {
    assert_eq!(
        normalize_and_validate("localhost:8080").unwrap(),
        "https://localhost:8080/"
    );
    assert_eq!(
        normalize_and_validate("127.0.0.1:4455").unwrap(),
        "https://127.0.0.1:4455/"
    );
}

#[test]
fn invalid_url_error_carries_the_trimmed_input() {
    assert_eq!(
        normalize_and_validate("  not a url with spaces \t"),
        Err(UrlInputError::InvalidUrl("not a url with spaces".to_string()))
    );
}

#[test]
fn unicode_whitespace_is_trimmed_too() {
    assert_eq!(
        normalize_and_validate("\u{3000}example.com\u{a0}\n").unwrap(),
        "https://example.com/"
    );
    assert_eq!(normalize_and_validate("\u{2003}\t\u{3000}"), Err(UrlInputError::Empty));
}

#[test]
fn uppercase_scheme_is_lowered_by_the_parser() {
    assert_eq!(
        normalize_and_validate("HTTPS://Example.COM/A").unwrap(),
        "https://example.com/A"
    );
}

#[test]
fn data_scheme_is_rejected() {
    assert_eq!(
        normalize_and_validate("data:text/html,hi"),
        Err(UrlInputError::UnsupportedScheme("data".to_string()))
    );
}

#[test]
fn colon_not_followed_by_port_is_a_scheme() {
    assert_eq!(
        normalize_and_validate("mailto:someone@example.com"),
        Err(UrlInputError::UnsupportedScheme("mailto".to_string()))
    );
}

#[test]
fn host_port_with_path_gets_https() {
    assert_eq!(
        normalize_and_validate("localhost:3000/app?x=1#top").unwrap(),
        "https://localhost:3000/app?x=1#top"
    );
}

#[test]
fn numeric_port_detection() {
    assert!(has_numeric_port("localhost:8080"));
    assert!(has_numeric_port("127.0.0.1:4455/path"));
    assert!(has_numeric_port("host:1?q"));
    assert!(has_numeric_port("host:12#frag"));
    assert!(!has_numeric_port("example.com"));
    assert!(!has_numeric_port("host:"));
    assert!(!has_numeric_port("host:/path"));
    assert!(!has_numeric_port("javascript:alert(1)"));
    assert!(!has_numeric_port("file:///etc/passwd"));
    assert!(!has_numeric_port("host:80a"));
    assert!(!has_numeric_port("http://host:80"));
    assert!(!has_numeric_port("host:８０"));
}

#[test]
fn candidate_text_for_the_parser() {
    assert_eq!(url_candidate("example.com"), "https://example.com");
    assert_eq!(url_candidate("localhost:8080"), "https://localhost:8080");
    assert_eq!(url_candidate("file:///etc/passwd"), "file:///etc/passwd");
    assert_eq!(url_candidate("https://example.com"), "https://example.com");
}

fn parsed(scheme: &str, host: Option<&str>, serialization: &str) -> Option<ParsedUrl> {
    Some(ParsedUrl {
        scheme: scheme.to_string(),
        host: host.map(|h| h.to_string()),
        serialization: serialization.to_string(),
    })
}

#[test]
fn verdict_on_parser_answers() {
    assert_eq!(
        check_parsed_url("x".to_string(), None),
        Err(UrlInputError::InvalidUrl("x".to_string()))
    );
    assert_eq!(
        check_parsed_url("x".to_string(), parsed("ftp", Some("h"), "ftp://h/")),
        Err(UrlInputError::UnsupportedScheme("ftp".to_string()))
    );
    assert_eq!(
        check_parsed_url("x".to_string(), parsed("https", None, "https:nohost")),
        Err(UrlInputError::InvalidUrl("x".to_string()))
    );
    assert_eq!(
        check_parsed_url("x".to_string(), parsed("http", Some("h"), "http://h/")),
        Ok("http://h/".to_string())
    );
    assert_eq!(
        check_parsed_url("x".to_string(), parsed("javascript", None, "javascript:1")),
        Err(UrlInputError::UnsupportedScheme("javascript".to_string()))
    );
}

#[test]
fn error_messages() {
    assert_eq!(UrlInputError::Empty.message(), "URLを入力してください");
    assert_eq!(
        UrlInputError::InvalidUrl("a b".to_string()).message(),
        "URLとして解釈できません: a b"
    );
    assert_eq!(
        UrlInputError::UnsupportedScheme("file".to_string()).message(),
        "許可されていないスキームです: file（http / https のみ許可）"
    );
}

#[test]
fn accepted_urls_start_with_a_web_scheme() {
    for raw in ["example.com", "http://a.b", "  HTTPS://x.y/z ", "localhost:1", "a.b:9/c"] {
        let u = normalize_and_validate(raw).unwrap();
        assert!(u.starts_with("http:") || u.starts_with("https:"), "{u}");
    }
}

#[test]
fn surrounding_whitespace_changes_nothing() {
    for raw in ["example.com", "file:///x", "not a url", "", "localhost:8080"] {
        let padded = format!(" \t\u{3000}{raw}\n\u{a0}");
        assert_eq!(normalize_and_validate(&padded), normalize_and_validate(raw));
    }
}
