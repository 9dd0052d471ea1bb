//! The flash layout and the firmware banks.

use lsi_flash::firmware::flash_layout::{
    parse_flash_layout, verify_flash_consistency, EXT_IMAGE_TYPE_FLASH_LAYOUT, REGION_BACKUP,
    REGION_FIRMWARE,
};
use lsi_flash::firmware::inspect::{FwError, MPI2_FW_HEADER_SIGNATURE};

#[test]
fn rejects_non_firmware_blob() {
    assert!(matches!(
        parse_flash_layout(&[0u8; 0x80]),
        Err(FwError::TooShort(_))
    ));
}

#[test]
fn region_span_returns_correct_offsets() {
    let flash = build_synthetic_fixture("07.15.08.00", "20.00.07.00");
    let fl = parse_flash_layout(&flash).expect("FLASH_LAYOUT should parse");

    assert_eq!(fl.region_span(REGION_FIRMWARE), Some((0x5A0000, 0x100000)));

    assert_eq!(fl.region_span(REGION_BACKUP), Some((0x6E0000, 0x100000)));

    assert_eq!(fl.region_span(0xFF), None);
}

fn build_synthetic_fixture(fw_ver: &str, bak_ver: &str) -> Vec<u8> {
    let mut flash = vec![0u8; 0x800000];

    flash[0..4].copy_from_slice(&MPI2_FW_HEADER_SIGNATURE.to_le_bytes());
    flash[4..8].copy_from_slice(&0x5AFAA55Au32.to_le_bytes());
    flash[8..12].copy_from_slice(&0xA55AFAA5u32.to_le_bytes());
    flash[12..16].copy_from_slice(&0x5AA55AFAu32.to_le_bytes());
    flash[0x20..0x22].copy_from_slice(&0x1000u16.to_le_bytes());
    flash[0x22..0x24].copy_from_slice(&0x2713u16.to_le_bytes());

    flash[0x30..0x34].copy_from_slice(&0x100u32.to_le_bytes());

    flash[0x100] = 0x05;
    flash[0x108..0x10C].copy_from_slice(&0u32.to_le_bytes());
    flash[0x10C..0x110].copy_from_slice(&0x400u32.to_le_bytes());

    flash[0x400] = EXT_IMAGE_TYPE_FLASH_LAYOUT;

    flash[0x404..0x408].copy_from_slice(&0x100u32.to_le_bytes());

    flash[0x40C..0x410].copy_from_slice(&0u32.to_le_bytes());

    let layout_start = 0x420;
    flash[layout_start + 2] = 0x10;
    flash[layout_start + 4..layout_start + 6].copy_from_slice(&1u16.to_le_bytes());
    flash[layout_start + 6..layout_start + 8].copy_from_slice(&2u16.to_le_bytes());

    let flash_size_offset = layout_start + 0x10;
    flash[flash_size_offset..flash_size_offset+4].copy_from_slice(&(0x800000u32).to_le_bytes());

    let region_base = 0x440;

    flash[region_base] = REGION_FIRMWARE;
    flash[region_base + 4..region_base + 8].copy_from_slice(&(0x5A0000u32).to_le_bytes());
    flash[region_base + 8..region_base + 12].copy_from_slice(&(0x100000u32).to_le_bytes());

    let backup_region = region_base + 0x10;
    flash[backup_region] = REGION_BACKUP;
    flash[backup_region + 4..backup_region + 8].copy_from_slice(&(0x6E0000u32).to_le_bytes());
    flash[backup_region + 8..backup_region + 12].copy_from_slice(&(0x100000u32).to_le_bytes());

    let fw_ver_start = 0x5A0000 + 0x68;
    let bak_ver_start = 0x6E0000 + 0x68;
    let ver_bytes_fw = format!("@(#)MPTFW-{}-IE", fw_ver).into_bytes();
    let ver_bytes_bak = format!("@(#)MPTFW-{}-IE", bak_ver).into_bytes();
    flash[fw_ver_start..fw_ver_start + ver_bytes_fw.len()].copy_from_slice(&ver_bytes_fw);
    flash[bak_ver_start..bak_ver_start + ver_bytes_bak.len()].copy_from_slice(&ver_bytes_bak);

    flash
}

#[test]
fn consistent_versions_returns_consistent_true() {
    let flash = build_synthetic_fixture("07.15.08.00", "07.15.08.00");
    let result = verify_flash_consistency(&flash).expect("should parse valid fixture");
    assert!(result.consistent, "matching versions should be consistent");
    assert_eq!(result.firmware_version, "@(#)MPTFW-07.15.08.00-IE");
    assert_eq!(result.backup_version, "@(#)MPTFW-07.15.08.00-IE");
}

#[test]
fn mismatched_versions_returns_consistent_false() {
    let flash = build_synthetic_fixture("07.15.08.00", "20.00.07.00");
    let result = verify_flash_consistency(&flash).expect("should parse valid fixture");
    assert!(
        !result.consistent,
        "mismatched versions should be inconsistent (brick case)"
    );
    assert_eq!(result.firmware_version, "@(#)MPTFW-07.15.08.00-IE");
    assert_eq!(result.backup_version, "@(#)MPTFW-20.00.07.00-IE");
}

#[test]
fn missing_backup_region_returns_err() {
    let mut flash = vec![0u8; 0x800000];
    flash[0..4].copy_from_slice(&MPI2_FW_HEADER_SIGNATURE.to_le_bytes());
    flash[4..8].copy_from_slice(&0x5AFAA55Au32.to_le_bytes());
    flash[8..12].copy_from_slice(&0xA55AFAA5u32.to_le_bytes());
    flash[12..16].copy_from_slice(&0x5AA55AFAu32.to_le_bytes());
    flash[0x20..0x22].copy_from_slice(&0x1000u16.to_le_bytes());
    flash[0x22..0x24].copy_from_slice(&0x2713u16.to_le_bytes());
    flash[0x2C..0x30].copy_from_slice(&(0x100000u32).to_le_bytes());
    flash[0x30..0x34].copy_from_slice(&0x200u32.to_le_bytes());

    flash[0x200] = 0x05;
    flash[0x204..0x208].copy_from_slice(&0x100u32.to_le_bytes());
    flash[0x208..0x20C].copy_from_slice(&0x400u32.to_le_bytes());

    flash[0x400] = EXT_IMAGE_TYPE_FLASH_LAYOUT;
    flash[0x404..0x408].copy_from_slice(&0x100u32.to_le_bytes());
    flash[0x408..0x40C].copy_from_slice(&0u32.to_le_bytes());

    let layout_start = 0x500;
    flash[layout_start + 2] = 0x10;
    flash[layout_start + 4..layout_start + 6].copy_from_slice(&1u16.to_le_bytes());
    flash[layout_start + 6..layout_start + 8].copy_from_slice(&1u16.to_le_bytes());

    let region_base = layout_start + 0x10;
    flash[region_base] = REGION_FIRMWARE;
    flash[region_base + 4..region_base + 8].copy_from_slice(&(0x5A0000u32).to_le_bytes());
    flash[region_base + 8..region_base + 12].copy_from_slice(&(0x100000u32).to_le_bytes());

    let fw_ver_start = 0x5A0000 + 0x68;
    flash[fw_ver_start..fw_ver_start + 24].copy_from_slice(b"@(#)MPTFW-07.15.08.00-IE");

    match verify_flash_consistency(&flash) {
        Err(FwError::NoFlashLayout) => {}
        _ => panic!("expected NoFlashLayout error for missing BACKUP region"),
    }
}

#[test]
fn flash_too_short_returns_err() {
    let short_flash = vec![0u8; 1024];
    assert!(matches!(
        verify_flash_consistency(&short_flash),
        Err(FwError::TooShort(_))
    ));
}
