use history_import::urlinfo::{display_title, origin_key, parse_url, reverse_host, OriginKind};

#[test]
fn parse_simple_https_url() {
    let parts = parse_url("https://example.com/").unwrap();
    assert_eq!(parts.spelling, "https://example.com/");
    assert_eq!(parts.host.as_deref(), Some("example.com"));
    match parts.origin {
        OriginKind::Tuple { scheme, host, port } => {
            assert_eq!(scheme, "https");
            assert_eq!(host, "example.com");
            assert_eq!(port, 443);
        }
        OriginKind::Opaque => panic!("expected a tuple origin"),
    }
}

#[test]
fn parse_url_with_explicit_port() {
    let parts = parse_url("https://example.com:8443/x").unwrap();
    match parts.origin {
        OriginKind::Tuple { scheme, host, port } => {
            assert_eq!(scheme, "https");
            assert_eq!(host, "example.com");
            assert_eq!(port, 8443);
        }
        OriginKind::Opaque => panic!("expected a tuple origin"),
    }
}

#[test]
fn parse_normalizes_default_port() {
    let a = parse_url("https://example.com/").unwrap();
    let b = parse_url("https://example.com:443/").unwrap();
    assert_eq!(a.spelling, b.spelling);
}

#[test]
fn parse_non_hierarchical_url() {
    let parts = parse_url("javascript:alert(1)").unwrap();
    assert!(parts.host.is_none());
    assert!(matches!(parts.origin, OriginKind::Opaque));
}

#[test]
fn parse_rejects_garbage() {
    assert!(parse_url("not a url").is_none());
    assert!(parse_url("").is_none());
}

#[test]
fn origin_key_folds_default_ports() {
    let https = String::from("https");
    let http = String::from("http");
    let ftp = String::from("ftp");
    let host = String::from("example.com");
    assert_eq!(
        origin_key(&https, &host, 443),
        ("https://".to_string(), "example.com".to_string())
    );
    assert_eq!(
        origin_key(&https, &host, 8443),
        ("https://".to_string(), "example.com:8443".to_string())
    );
    assert_eq!(
        origin_key(&http, &host, 80),
        ("http://".to_string(), "example.com".to_string())
    );
    assert_eq!(
        origin_key(&http, &host, 8080),
        ("http://".to_string(), "example.com:8080".to_string())
    );
    assert_eq!(
        origin_key(&ftp, &host, 21),
        ("ftp://".to_string(), "example.com:21".to_string())
    );
}

#[test]
fn reverse_host_appends_separator() {
    assert_eq!(reverse_host("example.com"), "moc.elpmaxe.");
    assert_eq!(reverse_host(""), ".");
    assert_eq!(reverse_host("a"), "a.");
}

#[test]
fn display_title_maps_empty_to_none() {
    assert_eq!(display_title(""), None);
    assert_eq!(display_title("A page"), Some("A page"));
}
