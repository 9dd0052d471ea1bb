//! Firmware headers.

use lsi_flash::firmware::inspect::{
    parse_fw_header, FwError, FW_HEADER_SIZE, MPI2_FW_HEADER_SIGNATURE, MPI2_FW_HEADER_SIGNATURE0,
    MPI2_FW_HEADER_SIGNATURE1, MPI2_FW_HEADER_SIGNATURE2,
};

#[test]
fn test_parse_too_short() {
    let data = vec![0u8; 16];
    let result = parse_fw_header(&data);

    assert!(result.is_err());
    match result.unwrap_err() {
        FwError::TooShort(len) => assert_eq!(len, 16),
        _ => panic!("Expected TooShort error"),
    }
}

#[test]
fn test_parse_invalid_signature() {
    let mut data = vec![0u8; 32];

    data[0..4].copy_from_slice(&0x12345678u32.to_le_bytes());

    let result = parse_fw_header(&data);

    assert!(result.is_err());
    match result.unwrap_err() {
        FwError::InvalidSignature { expected, got } => {
            assert_eq!(expected, MPI2_FW_HEADER_SIGNATURE);
            assert_eq!(got, 0x12345678);
        }
        _ => panic!("Expected InvalidSignature error"),
    }
}

#[test]
fn test_parse_invalid_signature0() {
    let mut data = vec![0u8; 32];

    data[0..4].copy_from_slice(&MPI2_FW_HEADER_SIGNATURE.to_le_bytes());
    data[4..8].copy_from_slice(&0x12345678u32.to_le_bytes());

    let result = parse_fw_header(&data);

    assert!(result.is_err());
    match result.unwrap_err() {
        FwError::InvalidSignature0 { expected, got } => {
            assert_eq!(expected, MPI2_FW_HEADER_SIGNATURE0);
            assert_eq!(got, 0x12345678);
        }
        _ => panic!("Expected InvalidSignature0 error"),
    }
}

#[test]
fn test_parse_invalid_signature1() {
    let mut data = vec![0u8; 32];

    data[0..4].copy_from_slice(&MPI2_FW_HEADER_SIGNATURE.to_le_bytes());
    data[4..8].copy_from_slice(&MPI2_FW_HEADER_SIGNATURE0.to_le_bytes());
    data[8..12].copy_from_slice(&0x12345678u32.to_le_bytes());

    let result = parse_fw_header(&data);

    assert!(result.is_err());
    match result.unwrap_err() {
        FwError::InvalidSignature1 { expected, got } => {
            assert_eq!(expected, MPI2_FW_HEADER_SIGNATURE1);
            assert_eq!(got, 0x12345678);
        }
        _ => panic!("Expected InvalidSignature1 error"),
    }
}

#[test]
fn test_parse_invalid_signature2() {
    let mut data = vec![0u8; 32];

    data[0..4].copy_from_slice(&MPI2_FW_HEADER_SIGNATURE.to_le_bytes());
    data[4..8].copy_from_slice(&MPI2_FW_HEADER_SIGNATURE0.to_le_bytes());
    data[8..12].copy_from_slice(&MPI2_FW_HEADER_SIGNATURE1.to_le_bytes());
    data[12..16].copy_from_slice(&0x12345678u32.to_le_bytes());

    let result = parse_fw_header(&data);

    assert!(result.is_err());
    match result.unwrap_err() {
        FwError::InvalidSignature2 { expected, got } => {
            assert_eq!(expected, MPI2_FW_HEADER_SIGNATURE2);
            assert_eq!(got, 0x12345678);
        }
        _ => panic!("Expected InvalidSignature2 error"),
    }
}

#[test]
fn test_fw_header_size() {
    assert_eq!(FW_HEADER_SIZE, 0x100);
}
