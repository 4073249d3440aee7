use history_import::hash::{hash, hash_simple};
use history_import::ImportError;

#[test]
fn test_hash() {
    let pairs = &[
        ("https://vault.bitwarden.com/", 47358609224710),
        ("https://search.nixos.org/", 47360563686504),
        ("https://wiki.archlinux.org/", 47356434076161),
        ("javascript:(function()%7Bwindow.location%20%3D%20%60https%3A%2F%2Felk.zone%2F%24%7Bwindow.location.toString()%7D%60%3B%7D)()%3B", 61198099442140),
        ("https://www.mozilla.org/about/", 47357608426557),
    ];
    for (url, result) in pairs {
        assert_eq!(hash(url).unwrap(), *result);
    }
}

#[test]
fn hash_reference_vector() {
    assert_eq!(hash("https://example.com/").unwrap(), 47357371248711);
}

#[test]
fn hash_repeated_calls_agree() {
    let url = "https://www.mozilla.org/about/";
    let first = hash(url).unwrap();
    for _ in 0..10 {
        assert_eq!(hash(url).unwrap(), first);
    }
    let text = "some text";
    let simple = hash_simple(text);
    for _ in 0..10 {
        assert_eq!(hash_simple(text), simple);
    }
}

#[test]
fn hash_simple_known_values() {
    assert_eq!(hash_simple(""), 0);
    assert_eq!(hash_simple("a"), 4077199129);
    assert_eq!(hash_simple("https"), 2213423890);
}

#[test]
fn hash_fails_without_protocol() {
    assert_eq!(hash("no-protocol-here"), Err(ImportError::MissingProtocol));
    assert_eq!(hash(""), Err(ImportError::MissingProtocol));
    assert_eq!(hash("slashes/but/no/colon"), Err(ImportError::MissingProtocol));
    assert!(hash(":").is_ok());
}
