//! Firmware with another order of its ports.

use lsi_flash::firmware::synthesize::{
    find_phydata_offset, fix_file_checksum, permute_phy_mapping, synthesize_reverse_phy,
    SynthError, PHYDATA_STRIDE,
};

fn synthetic_fw_with_phydata() -> Vec<u8> {
    let mut data = vec![0u8; 0x88];
    for i in 0..8 {
        let mut struct_bytes = vec![0u8; PHYDATA_STRIDE];
        struct_bytes[0] = i as u8;
        data.extend_from_slice(&struct_bytes);
    }

    data.extend_from_slice(&[0u8; 16]);
    data
}

#[test]
fn find_phydata_offset_on_synthetic() {
    let data = synthetic_fw_with_phydata();
    let off = find_phydata_offset(&data).expect("should find PhyData");
    assert_eq!(off, 0x88);
}

#[test]
fn find_phydata_offset_returns_none_on_garbage() {
    let data = vec![0u8; 0x200];
    assert!(find_phydata_offset(&data).is_none());
}

#[test]
fn permute_phy_mapping_writes_correct_port_bytes() {
    let mut data = synthetic_fw_with_phydata();
    permute_phy_mapping(&mut data, [7, 6, 5, 4, 3, 2, 1, 0]).unwrap();
    for i in 0..8 {
        assert_eq!(data[0x88 + i * PHYDATA_STRIDE], (7 - i) as u8);
    }
}

#[test]
fn permute_phy_mapping_rejects_invalid_perm() {
    let mut data = synthetic_fw_with_phydata();

    assert!(matches!(
        permute_phy_mapping(&mut data, [0, 0, 0, 0, 0, 0, 0, 0]),
        Err(SynthError::InvalidPermutation(_))
    ));

    assert!(matches!(
        permute_phy_mapping(&mut data, [8, 0, 1, 2, 3, 4, 5, 6]),
        Err(SynthError::InvalidPermutation(_))
    ));
}

#[test]
fn fix_file_checksum_zeros_sum() {
    let mut data = synthetic_fw_with_phydata();
    fix_file_checksum(&mut data);
    let len = data.len() & !3;
    let mut sum: u32 = 0;
    for i in (0..len).step_by(4) {
        sum = sum.wrapping_add(u32::from_le_bytes(data[i..i + 4].try_into().unwrap()));
    }
    assert_eq!(sum, 0);
}

#[test]
fn synthesize_reverse_phy_roundtrip() {
    let data = synthetic_fw_with_phydata();
    let out = synthesize_reverse_phy(&data).unwrap();

    for i in 0..8 {
        assert_eq!(out[0x88 + i * PHYDATA_STRIDE], (7 - i) as u8);
    }

    let len = out.len() & !3;
    let mut sum: u32 = 0;
    for i in (0..len).step_by(4) {
        sum = sum.wrapping_add(u32::from_le_bytes(out[i..i + 4].try_into().unwrap()));
    }
    assert_eq!(sum, 0);
}
