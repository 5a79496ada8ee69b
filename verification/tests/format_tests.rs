use embedded_overlay::boot::vector_table_valid;
use embedded_overlay::bundle::BundleHeader;
use embedded_overlay::crc::crc32;
use embedded_overlay::error::{OverlayError, VfsError};
use embedded_overlay::header::{
    OverlayDirectory, OverlayDirectoryEntry, OverlayHeader, VfsAssetEntry, VfsSuperblock,
};
use embedded_overlay::overlay::{make_thumb_entry, validate_thumb_alignment, OverlaySlot};
use embedded_overlay::pack::{bundle_image, overlay_image, parse_hex_or_dec, vfs_image};

#[test]
fn parse_hex_or_dec_cases() {
    assert_eq!(parse_hex_or_dec("0x1A2B"), Some(0x1A2B));
    assert_eq!(parse_hex_or_dec("0X10"), Some(16));
    assert_eq!(parse_hex_or_dec("0xffffffff"), Some(u32::MAX));
    assert_eq!(parse_hex_or_dec("0x100000000"), None);
    assert_eq!(parse_hex_or_dec("0x"), None);
    assert_eq!(parse_hex_or_dec("0xG1"), None);
    assert_eq!(parse_hex_or_dec("1234"), Some(1234));
    assert_eq!(parse_hex_or_dec("+5"), Some(5));
    assert_eq!(parse_hex_or_dec("4294967295"), Some(u32::MAX));
    assert_eq!(parse_hex_or_dec("4294967296"), None);
    assert_eq!(parse_hex_or_dec(""), None);
    assert_eq!(parse_hex_or_dec("-1"), None);
    assert_eq!(parse_hex_or_dec("12a"), None);
    // Same answers as the standard parsers.
    for s in ["0x+7", "+", "0x-1", "007", "0x00ff"] {
        let expected = if s.starts_with("0x") || s.starts_with("0X") {
            u32::from_str_radix(&s[2..], 16).ok()
        } else {
            s.parse::<u32>().ok()
        };
        assert_eq!(parse_hex_or_dec(s), expected, "input {s:?}");
    }
}

#[test]
fn overlay_image_layout() {
    let payload = [1u8, 2, 3, 4, 5];
    let img = overlay_image(0xABCD, &payload);
    assert_eq!(img.len(), 32 + 5);
    assert_eq!(&img[32..], &payload);
    let h = OverlayHeader::from_bytes(&img).unwrap();
    assert_eq!(h.module_id, 0xABCD);
    assert_eq!(h.code_size, 5);
    assert_eq!(h.entry_offset, 0);
    assert_eq!(h.ram_target_addr, 0);
    assert_eq!(h.payload_crc32, crc32(&payload));
    assert_eq!(&img[0..4], b"OVL1");
}

#[test]
fn vfs_image_layout() {
    let assets = vec![vec![1u8, 2, 3], vec![4u8, 5, 6, 7, 8]];
    let img = vfs_image(&assets).unwrap();
    assert_eq!(img.entries.len(), 2);
    assert_eq!(img.entries[0], VfsAssetEntry { asset_id: 1, flash_offset: 0, length: 3, flags: 0, crc16: 0 });
    assert_eq!(img.entries[1], VfsAssetEntry { asset_id: 2, flash_offset: 4, length: 5, flags: 0, crc16: 0 });
    assert_eq!(img.bytes.len(), 32 + 32 + 12);
    let sb = VfsSuperblock::from_bytes(&img.bytes).unwrap();
    assert_eq!(sb.asset_count, 2);
    assert_eq!(sb.index_offset, 32);
    assert_eq!(sb.data_offset, 64);
    assert_eq!(sb.total_bytes, 76);
    assert_eq!(&img.bytes[32..48], &img.entries[0].to_bytes());
    assert_eq!(&img.bytes[48..64], &img.entries[1].to_bytes());
    assert_eq!(&img.bytes[64..], &[1, 2, 3, 0, 4, 5, 6, 7, 8, 0, 0, 0]);
}

#[test]
fn vfs_image_of_nothing() {
    let img = vfs_image(&[]).unwrap();
    assert!(img.entries.is_empty());
    assert_eq!(img.bytes.len(), 32);
    let sb = VfsSuperblock::from_bytes(&img.bytes).unwrap();
    assert_eq!((sb.asset_count, sb.index_offset, sb.data_offset, sb.total_bytes), (0, 32, 32, 32));
}

#[test]
fn bundle_image_layout() {
    let internal = [0x11u8; 10];
    let external = [0x22u8; 6];
    let img = bundle_image("stm32wba65", 0x0800_0000, &internal, 0x9000_0000, &external);
    assert_eq!(img.len(), 64 + 10 + 6);
    assert_eq!(&img[0..4], b"DFW1");
    assert_eq!(&img[8..18], b"stm32wba65");
    assert_eq!(&img[18..24], &[0u8; 6]);
    assert_eq!(&img[24..28], &0x0800_0000u32.to_le_bytes());
    assert_eq!(&img[28..32], &10u32.to_le_bytes());
    assert_eq!(&img[32..36], &crc32(&internal).to_le_bytes());
    assert_eq!(&img[36..40], &0x9000_0000u32.to_le_bytes());
    assert_eq!(&img[40..44], &6u32.to_le_bytes());
    assert_eq!(&img[44..48], &crc32(&external).to_le_bytes());
    assert_eq!(&img[64..74], &internal);
    assert_eq!(&img[74..], &external);
    // Reserved bytes, then the CRC of the first 60 bytes in bytes 60..64.
    assert_eq!(&img[48..60], &[0u8; 12]);
    assert_eq!(&img[60..64], &crc32(&img[0..60]).to_le_bytes());
    assert_eq!(BundleHeader::from_bytes(&img).map(|h| h.internal_size), Ok(10));
}

#[test]
fn bundle_header_new_truncates_chip_name() {
    let h = BundleHeader::new("a-very-long-chip-name", 1, 2, 3, 4, 5, 6);
    assert_eq!(&h.target_chip, b"a-very-long-chip");
    let h = BundleHeader::new("", 1, 2, 3, 4, 5, 6);
    assert_eq!(h.target_chip, [0u8; 16]);
}

#[test]
fn bundle_header_roundtrip_and_errors() {
    let h = BundleHeader::new("chip", 1, 2, 3, 4, 5, 6);
    let bytes = h.to_bytes();
    assert_eq!(h.header_crc32, crc32(&bytes[0..60]));
    assert_eq!(&bytes[60..64], &h.header_crc32.to_le_bytes());
    assert_eq!(BundleHeader::from_bytes(&bytes), Ok(h));
    assert_eq!(BundleHeader::from_bytes(&bytes[0..63]), Err(OverlayError::Storage));
    let mut bad = bytes;
    bad[0] = b'X';
    assert_eq!(BundleHeader::from_bytes(&bad), Err(OverlayError::InvalidMagic));
    let mut bad = bytes;
    bad[4] = 2;
    assert_eq!(BundleHeader::from_bytes(&bad), Err(OverlayError::UnsupportedVersion));
    let mut bad = bytes;
    bad[30] ^= 1;
    assert_eq!(BundleHeader::from_bytes(&bad), Err(OverlayError::HeaderChecksumMismatch));
    let mut bad = bytes;
    bad[62] ^= 1;
    assert_eq!(BundleHeader::from_bytes(&bad), Err(OverlayError::HeaderChecksumMismatch));
}

#[test]
fn overlay_header_roundtrip_and_errors() {
    let h = OverlayHeader::new(0x42, 100, 4, 0x2000_0000, 0xDEAD_BEEF);
    let bytes = h.to_bytes();
    assert_eq!(OverlayHeader::from_bytes(&bytes), Ok(h));
    assert_eq!(OverlayHeader::from_bytes(&bytes[..31]), Err(OverlayError::Storage));
    let mut bad = bytes;
    bad[3] = b'2';
    assert_eq!(OverlayHeader::from_bytes(&bad), Err(OverlayError::InvalidMagic));
    let mut bad = bytes;
    bad[4] = 9;
    assert_eq!(OverlayHeader::from_bytes(&bad), Err(OverlayError::UnsupportedVersion));
    let mut bad = bytes;
    bad[12] ^= 1;
    assert_eq!(OverlayHeader::from_bytes(&bad), Err(OverlayError::HeaderChecksumMismatch));
}

#[test]
fn vfs_superblock_roundtrip_and_errors() {
    let sb = VfsSuperblock::new(3, 32, 80, 400);
    let bytes = sb.to_bytes();
    assert_eq!(VfsSuperblock::from_bytes(&bytes), Ok(sb));
    assert_eq!(VfsSuperblock::from_bytes(&bytes[..20]), Err(VfsError::Storage));
    let mut bad = bytes;
    bad[0] = 0;
    assert_eq!(VfsSuperblock::from_bytes(&bad), Err(VfsError::InvalidMagic));
    let mut bad = bytes;
    bad[5] = 1;
    assert_eq!(VfsSuperblock::from_bytes(&bad), Err(VfsError::UnsupportedVersion));
    let mut bad = bytes;
    bad[16] ^= 0x80;
    assert_eq!(VfsSuperblock::from_bytes(&bad), Err(VfsError::SuperblockCrcMismatch));
}

#[test]
fn records_roundtrip() {
    let e = VfsAssetEntry { asset_id: 9, flash_offset: 0x1234, length: 77, flags: 3, crc16: 0xBEEF };
    assert_eq!(VfsAssetEntry::from_bytes(&e.to_bytes()), e);
    let d = OverlayDirectoryEntry { module_id: 5, flash_offset: 6, code_size: 7, crc32: 8 };
    assert_eq!(OverlayDirectoryEntry::from_bytes(&d.to_bytes()), d);
    let dir = OverlayDirectory::new(4, 32, 128);
    assert_eq!(OverlayDirectory::from_bytes(&dir.to_bytes()), Ok(dir));
    assert_eq!(&dir.to_bytes()[0..4], b"OVLD");
}

#[test]
fn thumb_helpers() {
    assert!(validate_thumb_alignment(0x2000_0000, 0));
    assert!(validate_thumb_alignment(0x2000_0004, 2));
    assert!(!validate_thumb_alignment(0x2000_0002, 0));
    assert!(!validate_thumb_alignment(0x2000_0000, 1));
    assert_eq!(make_thumb_entry(0x2000_0000), 0x2000_0001);
    assert_eq!(make_thumb_entry(0x2000_0001), 0x2000_0001);
}

#[test]
fn vector_table_rules() {
    assert!(vector_table_valid(0x2008_0000, 0x0801_0101));
    assert!(vector_table_valid(0x2000_0000, 0x0820_0000 - 1));
    assert!(!vector_table_valid(0x1FFF_FFFC, 0x0801_0101));
    assert!(!vector_table_valid(0x2008_0004, 0x0801_0101));
    assert!(!vector_table_valid(0x2004_0000, 0x0801_0100));
    assert!(!vector_table_valid(0x2004_0000, 0x0800_FFFF));
    assert!(!vector_table_valid(0x2004_0000, 0x0820_0001));
    // Erased flash reads as all ones.
    assert!(!vector_table_valid(0xFFFF_FFFF, 0xFFFF_FFFF));
}

#[test]
fn raw_slot_is_empty_and_unpinned() {
    let s = OverlaySlot::new_raw(0x2006_0000, 4096);
    assert_eq!((s.ram_addr, s.exec_addr, s.capacity), (0x2006_0000, 0x2006_0000, 4096));
    assert_eq!(s.resident_module, None);
    assert!(!s.is_pinned);
    assert_eq!(s.generation, 0);
}

#[test]
fn overlay_header_detects_every_single_byte_change() {
    let h = OverlayHeader::new(0x77, 64, 2, 0, 0x1234_5678);
    let bytes = h.to_bytes();
    for k in 0..32 {
        for v in 0..=255u8 {
            if v == bytes[k] {
                continue;
            }
            let mut bad = bytes;
            bad[k] = v;
            let expected = if k < 4 {
                OverlayError::InvalidMagic
            } else if k < 6 {
                OverlayError::UnsupportedVersion
            } else {
                OverlayError::HeaderChecksumMismatch
            };
            assert_eq!(OverlayHeader::from_bytes(&bad), Err(expected), "byte {k} = {v}");
        }
    }
}
