use history_import::guid::{generate_guid, guid_from_bytes};

#[test]
fn guid_from_zero_bytes() {
    assert_eq!(guid_from_bytes(&[0u8; 9]), "AAAAAAAAAAAA");
}

#[test]
fn guid_from_full_bytes_uses_url_safe_alphabet() {
    assert_eq!(guid_from_bytes(&[255u8; 9]), "____________");
}

#[test]
fn guid_from_mixed_bytes() {
    assert_eq!(guid_from_bytes(&[0, 1, 2, 3, 4, 5, 6, 7, 8]), "AAECAwQFBgcI");
    assert_eq!(
        guid_from_bytes(&[0xfb, 0xef, 0xbe, 0x00, 0x01, 0x02, 0x03, 0x04, 0x05]),
        "----AAECAwQF"
    );
}

#[test]
fn generated_guid_is_twelve_chars() {
    for _ in 0..20 {
        let guid = generate_guid();
        assert_eq!(guid.chars().count(), 12);
    }
}
