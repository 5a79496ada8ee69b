use embedded_overlay::crc::{crc32, fnv1a_hash};

#[test]
fn test_crc32_standard() {
    assert_eq!(crc32(b"123456789"), 0xCBF43926);
    assert_eq!(crc32(b""), 0x00000000);
}

#[test]
fn test_fnv1a_hash() {
    assert_ne!(fnv1a_hash("compute_physics"), 0);
    assert_ne!(fnv1a_hash("compute_physics"), fnv1a_hash("render_frame"));
    // Deterministic check
    assert_eq!(fnv1a_hash("test"), 0xAFD0_71E5);
}
