use strict_url::order_endpoints;
use strict_url::AppError;
use strict_url::Endpoint;
use strict_url::Scheme;
use strict_url::Url;

#[test]
fn scheme_tokens_match_case_sensitively() {
    assert_eq!(Scheme::parse("http"), Ok(Scheme::Http));
    assert_eq!(Scheme::parse("https"), Ok(Scheme::Https));
    assert_eq!(Scheme::parse("ws"), Ok(Scheme::Ws));
    assert_eq!(Scheme::parse("wss"), Ok(Scheme::Wss));
    assert_eq!(Scheme::parse("file"), Ok(Scheme::File));
    assert_eq!(Scheme::parse("about"), Ok(Scheme::About));
    assert_eq!(
        Scheme::parse("HTTP"),
        Err(AppError::UnsupportedScheme("HTTP".to_string()))
    );
}

#[test]
fn scheme_metadata_is_fixed() {
    assert_eq!(Scheme::Http.default_port(), Some(80));
    assert_eq!(Scheme::Ws.default_port(), Some(80));
    assert_eq!(Scheme::Https.default_port(), Some(443));
    assert_eq!(Scheme::Wss.default_port(), Some(443));
    assert_eq!(Scheme::File.default_port(), None);
    assert_eq!(Scheme::About.default_port(), None);

    assert!(Scheme::Http.is_hierarchical());
    assert!(Scheme::Https.is_hierarchical());
    assert!(Scheme::Ws.is_hierarchical());
    assert!(Scheme::Wss.is_hierarchical());
    assert!(Scheme::File.is_hierarchical());
    assert!(!Scheme::About.is_hierarchical());
}

#[test]
fn empty_scheme_token_is_unsupported() {
    assert_eq!(
        Url::parse(":blank"),
        Err(AppError::UnsupportedScheme("".to_string()))
    );
}

#[test]
fn non_numeric_port_is_rejected() {
    assert_eq!(
        Url::parse("https://example.com:abc/path"),
        Err(AppError::InvalidPort)
    );
}

#[test]
fn out_of_range_port_is_rejected() {
    assert_eq!(
        Url::parse("https://example.com:70000/path"),
        Err(AppError::InvalidPort)
    );
    assert_eq!(
        Url::parse("https://example.com:65536"),
        Err(AppError::InvalidPort)
    );
    let at_limit = Url::parse("https://example.com:65535").unwrap();
    assert_eq!(at_limit.port, Some(65535));
}

#[test]
fn empty_port_substring_is_rejected() {
    assert_eq!(
        Url::parse("https://example.com:/path"),
        Err(AppError::InvalidPort)
    );
}

#[test]
fn second_colon_in_authority_is_rejected() {
    assert_eq!(
        Url::parse("https://h:80:90/path"),
        Err(AppError::InvalidPort)
    );
}

#[test]
fn plus_signed_port_parses_as_u16_does() {
    let parsed = Url::parse("https://example.com:+8080/path").unwrap();
    assert_eq!(parsed.port, Some(8080));
}

#[test]
fn path_defaults_to_slash_when_absent() {
    let parsed = Url::parse("http://example.com").unwrap();
    assert_eq!(parsed.host, Some("example.com".to_string()));
    assert_eq!(parsed.port, Some(80));
    assert_eq!(parsed.path, "/");
    assert_eq!(parsed.query, None);
}

#[test]
fn query_splits_before_authority() {
    let parsed = Url::parse("https://h?a=1").unwrap();
    assert_eq!(parsed.host, Some("h".to_string()));
    assert_eq!(parsed.path, "/");
    assert_eq!(parsed.query, Some("a=1".to_string()));

    let parsed = Url::parse("https://h/p?q=1/2").unwrap();
    assert_eq!(parsed.path, "/p");
    assert_eq!(parsed.query, Some("q=1/2".to_string()));
}

#[test]
fn file_urls_have_host_but_no_port() {
    let parsed = Url::parse("file://localhost/etc/hosts").unwrap();
    assert_eq!(parsed.scheme, Scheme::File);
    assert_eq!(parsed.host, Some("localhost".to_string()));
    assert_eq!(parsed.port, None);
    assert_eq!(parsed.path, "/etc/hosts");
}

#[test]
fn websocket_defaults_mirror_http_family() {
    assert_eq!(Url::parse("ws://h").unwrap().port, Some(80));
    assert_eq!(Url::parse("wss://h").unwrap().port, Some(443));
}

#[test]
fn bare_opaque_url_keeps_empty_path() {
    let parsed = Url::parse("about:").unwrap();
    assert_eq!(parsed.host, None);
    assert_eq!(parsed.port, None);
    assert_eq!(parsed.path, "");
    assert_eq!(parsed.query, None);
}

#[test]
fn authority_marker_is_stripped_even_for_opaque_urls() {
    let parsed = Url::parse("about://blank").unwrap();
    assert_eq!(parsed.host, None);
    assert_eq!(parsed.path, "blank");
}

#[test]
fn opaque_urls_keep_query_split() {
    let parsed = Url::parse("about:blank?x=1").unwrap();
    assert_eq!(parsed.path, "blank");
    assert_eq!(parsed.query, Some("x=1".to_string()));
}

#[test]
fn non_ascii_urls_are_split_by_characters() {
    let parsed = Url::parse("https://exämple.com/päth?q=ü").unwrap();
    assert_eq!(parsed.host, Some("exämple.com".to_string()));
    assert_eq!(parsed.port, Some(443));
    assert_eq!(parsed.path, "/päth");
    assert_eq!(parsed.query, Some("q=ü".to_string()));
}

#[test]
fn parsing_is_deterministic() {
    let first = Url::parse("https://example.com:8080/path?query=value");
    let second = Url::parse("https://example.com:8080/path?query=value");
    assert_eq!(first, second);

    let first = Url::parse("nope");
    let second = Url::parse("nope");
    assert_eq!(first, second);
}

#[test]
fn error_messages_match_their_variants() {
    assert_eq!(
        AppError::MalformedUrl("Missing scheme".to_string()).message(),
        "Invalid URL: Missing scheme"
    );
    assert_eq!(
        AppError::UnsupportedScheme("uth".to_string()).message(),
        "Unsupported Scheme: uth"
    );
    assert_eq!(AppError::InvalidPort.message(), "Invalid Port");
    assert_eq!(AppError::MissingHost.message(), "Invalid URL: Missing host");
    assert_eq!(
        AppError::ResolutionFailed("boom".to_string()).message(),
        "DNS Error: boom"
    );
    assert_eq!(
        AppError::NoAddressesFound.message(),
        "DNS Lookup Error: No address found"
    );
}

fn v4(last_octet: u8, port: u16) -> Endpoint {
    Endpoint {
        is_ipv4: true,
        ip: vec![127, 0, 0, last_octet],
        port,
    }
}

fn v6(port: u16) -> Endpoint {
    Endpoint {
        is_ipv4: false,
        ip: vec![0, 0, 0, 0, 0, 0, 0, 0, 0, 0, 0, 0, 0, 0, 0, 1],
        port,
    }
}

#[test]
fn empty_resolution_is_rejected() {
    let found: Vec<Endpoint> = Vec::new();
    assert_eq!(order_endpoints(&found), Err(AppError::NoAddressesFound));
}

#[test]
fn ipv4_endpoints_precede_ipv6_in_original_order() {
    let found = vec![v6(1), v4(1, 2), v6(3), v4(2, 4)];
    let ordered = order_endpoints(&found).unwrap();
    assert_eq!(ordered, vec![v4(1, 2), v4(2, 4), v6(1), v6(3)]);
}

#[test]
fn single_family_resolution_keeps_its_order() {
    let found = vec![v4(9, 1), v4(8, 2)];
    let ordered = order_endpoints(&found).unwrap();
    assert_eq!(ordered, vec![v4(9, 1), v4(8, 2)]);
}
