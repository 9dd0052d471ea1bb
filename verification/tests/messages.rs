//! Requests and replies on the wire.

use lsi_flash::mpi::messages::{
    ConfigReply, ConfigRequest, FlashLayoutReply, FlashRegion, FlashRegionType, FwDownloadReply,
    FwDownloadRequest, FwUploadReply, FwUploadRequest, IeeeSgeSimple64, ImageType,
    IocFactsRequest, IocInitReply, IocInitRequest, IocStatus, MpiError, MpiFunction, ToolboxCleanFlags, ToolboxCleanRequest,
    ToolboxReply,
};

#[test]
fn mpi_function_from_u8_handles_all_codes() {
    assert_eq!(MpiFunction::from_u8(0x02).unwrap(), MpiFunction::IocInit);
    assert_eq!(MpiFunction::from_u8(0x04).unwrap(), MpiFunction::Config);
    assert_eq!(MpiFunction::from_u8(0x09).unwrap(), MpiFunction::FwDownload);
    assert_eq!(MpiFunction::from_u8(0x12).unwrap(), MpiFunction::FwUpload);
    assert_eq!(MpiFunction::from_u8(0x17).unwrap(), MpiFunction::Toolbox);
}

#[test]
fn mpi_function_from_u8_rejects_unknown() {
    assert!(MpiFunction::from_u8(0xFF).is_err());
    assert!(matches!(
        MpiFunction::from_u8(0xFF),
        Err(MpiError::UnknownFunction(_))
    ));
}

#[test]
fn mpi_function_as_u8_roundtrip() {
    for func in [
        MpiFunction::IocInit,
        MpiFunction::Config,
        MpiFunction::FwDownload,
        MpiFunction::FwUpload,
        MpiFunction::Toolbox,
    ] {
        assert_eq!(MpiFunction::from_u8(func.as_u8()).unwrap(), func);
    }
}

#[test]
fn image_type_from_u8_handles_all_codes() {
    assert_eq!(ImageType::from_u8(0x00).unwrap(), ImageType::Reserved);
    assert_eq!(ImageType::from_u8(0x01).unwrap(), ImageType::Fw);
    assert_eq!(ImageType::from_u8(0x02).unwrap(), ImageType::Bios);
    assert_eq!(ImageType::from_u8(0x03).unwrap(), ImageType::NvData);
    assert_eq!(ImageType::from_u8(0x04).unwrap(), ImageType::BootLoader);
    assert_eq!(ImageType::from_u8(0x05).unwrap(), ImageType::Initialization);
    assert_eq!(ImageType::from_u8(0x06).unwrap(), ImageType::FlashLayout);
    assert_eq!(
        ImageType::from_u8(0x07).unwrap(),
        ImageType::SupportedDevices
    );
    assert_eq!(ImageType::from_u8(0x08).unwrap(), ImageType::MegaRaid);
}

#[test]
fn image_type_from_u8_rejects_unknown() {
    assert!(ImageType::from_u8(0xFF).is_err());
    assert!(matches!(
        ImageType::from_u8(0xFF),
        Err(MpiError::UnknownImageType(_))
    ));
}

#[test]
fn iocstatus_success_is_not_hard_stop() {
    assert!(!IocStatus::Success.is_flash_hard_stop());
}

#[test]
fn messages_iocstatus_internal_error_triggers_hard_stop() {
    assert!(IocStatus::InternalError.is_flash_hard_stop());
}

#[test]
fn iocstatus_all_known_codes_not_success_are_hard_stops() {
    let all_codes = [
        IocStatus::InvalidFunction,
        IocStatus::Busy,
        IocStatus::InvalidSgl,
        IocStatus::InternalError,
        IocStatus::InvalidVpid,
        IocStatus::InsufficientResources,
        IocStatus::InvalidField,
        IocStatus::InvalidState,
        IocStatus::OpStateNotSupported,
    ];

    for status in all_codes {
        assert!(
            status.is_flash_hard_stop(),
            "{:?} should be hard stop",
            status
        );
    }
}

#[test]
fn iocstatus_from_u16_handles_known_codes() {
    assert_eq!(IocStatus::from_u16(0x0000).unwrap(), IocStatus::Success);
    assert_eq!(
        IocStatus::from_u16(0x0001).unwrap(),
        IocStatus::InvalidFunction
    );
    assert_eq!(IocStatus::from_u16(0x0002).unwrap(), IocStatus::Busy);
    assert_eq!(
        IocStatus::from_u16(0x0004).unwrap(),
        IocStatus::InternalError
    );
    assert_eq!(IocStatus::from_u16(0x0005).unwrap(), IocStatus::InvalidVpid);
    assert_eq!(
        IocStatus::from_u16(0x0020).unwrap(),
        IocStatus::ConfigInvalidAction
    );
    assert_eq!(
        IocStatus::from_u16(0x0040).unwrap(),
        IocStatus::ScsiRecoveredError
    );
}

#[test]
fn iocstatus_from_u16_handles_unknown_codes() {
    assert!(IocStatus::from_u16(0xFFFE).is_err());
    assert!(matches!(
        IocStatus::from_u16(0xFFFF),
        Err(MpiError::UnknownIocStatus(_))
    ));

    assert!(IocStatus::from_u16(0x003A).is_err());
}

#[test]
fn iocstatus_as_u16_roundtrip() {
    for status in [
        IocStatus::Success,
        IocStatus::InternalError,
        IocStatus::ConfigInvalidPage,
        IocStatus::ScsiDataOverrun,
    ] {
        assert_eq!(IocStatus::from_u16(status.as_u16()).unwrap(), status);
    }
}

#[test]
fn toolboxcleanflags_individual_bits() {
    assert!(ToolboxCleanFlags::nvram().contains(ToolboxCleanFlags::nvram()));
    assert!(!ToolboxCleanFlags::seeprom().contains(ToolboxCleanFlags::nvram()));

    let all = ToolboxCleanFlags::all();
    assert!(all.contains(ToolboxCleanFlags::nvram()));
    assert!(all.contains(ToolboxCleanFlags::flash()));
    assert!(all.contains(ToolboxCleanFlags::persist_manufact_pages()));
}

#[test]
fn toolboxcleanflags_combine_bits() {
    let flags = ToolboxCleanFlags::nvram() | ToolboxCleanFlags::seeprom();
    assert!(flags.contains(ToolboxCleanFlags::nvram()));
    assert!(flags.contains(ToolboxCleanFlags::seeprom()));
    assert!(!flags.contains(ToolboxCleanFlags::flash()));
}

#[test]
fn ieee_sge_serializes_to_16_bytes() {
    let sge = IeeeSgeSimple64::new(0xDEADBEEFCAFEBABE, 256);
    let mut buf = Vec::new();
    sge.serialize_to(&mut buf);
    assert_eq!(buf.len(), 16);
}

#[test]
fn ieee_sge_serialized_size_constant() {
    assert_eq!(IeeeSgeSimple64::serialized_size(), 16);
}

#[test]
fn ieee_sge_address_field_correct() {
    let sge = IeeeSgeSimple64::new(0x123456789ABCDEF0, 1024);
    let mut buf = Vec::new();
    sge.serialize_to(&mut buf);

    assert_eq!(&buf[0..8], &0x123456789ABCDEF0u64.to_le_bytes());
}

#[test]
fn ieee_sge_length_field_correct() {
    let sge = IeeeSgeSimple64::new(0x0, 0x1234ABCD);
    let mut buf = Vec::new();
    sge.serialize_to(&mut buf);

    assert_eq!(&buf[8..12], &0x1234ABCDu32.to_le_bytes());
}

#[test]
fn ieee_sge_end_of_list_flag() {
    let sge = IeeeSgeSimple64::new(0x0, 0);
    assert!(sge.end_of_list());

    let no_eol = IeeeSgeSimple64::with_flags(0x0, 0, 0x00);
    assert!(!no_eol.end_of_list());
}

#[test]
fn fw_download_request_serializes_to_expected_bytes() {
    let payload = vec![0xAA; 64];
    let req = FwDownloadRequest {
        image_type: ImageType::Fw,
        image_offset: 0x1000,
        image_size: 64,
        total_image_size: 32768,
        last_segment: true,
        payload: &payload,
    };

    let bytes = req.serialize_to(1, 0);

    assert_eq!(bytes[3], MpiFunction::FwDownload.as_u8());

    assert_eq!(bytes[7] & 0x01, 0x01);

    assert_eq!(bytes[12], ImageType::Fw.as_u8());

    let total_size = u32::from_le_bytes([bytes[24], bytes[25], bytes[26], bytes[27]]);
    assert_eq!(total_size, 32768);

    let sge_start = 40;
    assert_eq!(bytes[sge_start + 15], 0x40);
}

#[test]
fn fw_download_request_last_segment_flag() {
    let payload = vec![0xBB];

    let req_no_last = FwDownloadRequest {
        image_type: ImageType::Bios,
        image_offset: 0,
        image_size: 1,
        total_image_size: 1,
        last_segment: false,
        payload: &payload,
    };

    let req_last = FwDownloadRequest {
        image_type: ImageType::Bios,
        image_offset: 0,
        image_size: 1,
        total_image_size: 1,
        last_segment: true,
        payload: &payload,
    };

    let bytes_no_last = req_no_last.serialize_to(1, 0);
    let bytes_last = req_last.serialize_to(1, 0);

    assert_eq!(bytes_no_last[7] & 0x01, 0x00);
    assert_eq!(bytes_last[7] & 0x01, 0x01);
}

#[test]
fn fw_upload_request_serializes_correctly() {
    let buf = vec![0x00; 256];
    let req = FwUploadRequest {
        image_type: ImageType::Fw,
        image_offset: 0,
        image_size: 256,
        payload_buffer: buf,
    };

    let iova: u64 = 0xdead_beef_0000;
    let bytes = req.serialize_to(iova);

    assert_eq!(bytes[0], ImageType::Fw.as_u8());

    assert_eq!(bytes[3], MpiFunction::FwUpload.as_u8());

    let flags_length = u32::from_le_bytes([bytes[0x14], bytes[0x15], bytes[0x16], bytes[0x17]]);
    let flags = (flags_length >> 24) as u8;
    let length = flags_length & 0x00FF_FFFF;

    assert_eq!(
        flags, 0xD3,
        "MPI 2.0 SGE flags must be 0xD3 for FW_UPLOAD (IOC→host one-shot)"
    );
    assert_eq!(length, 256, "SGE length must be the buffer size");
    let sge_addr = u64::from_le_bytes([
        bytes[0x18],
        bytes[0x19],
        bytes[0x1a],
        bytes[0x1b],
        bytes[0x1c],
        bytes[0x1d],
        bytes[0x1e],
        bytes[0x1f],
    ]);
    assert_eq!(
        sge_addr, iova,
        "SGE address must be the iova arg (chip-readable), not a host VA"
    );
}

#[test]
fn toolboxclean_request_serializes_flags() {
    let flags = ToolboxCleanFlags::nvram() | ToolboxCleanFlags::flash();
    let req = ToolboxCleanRequest { flags };

    let bytes = req.serialize_to(1);

    assert_eq!(bytes[3], MpiFunction::Toolbox.as_u8());

    let flags_val = u32::from_le_bytes([bytes[24], bytes[25], bytes[26], bytes[27]]);
    assert_eq!(flags_val, flags.bits());

    assert_eq!(bytes.len(), 28);
}

#[test]
fn config_request_serializes_action_and_page() {
    let buf = vec![0x00; 64];
    let req = ConfigRequest {
        action: 0x01,
        sgl_flags: 0x0C,
        page_type: 0x09,
        page_number: 5,
        ext_page_type: None,
        payload_buffer: buf,
        page_address: 0x0000_0000,
    };

    let bytes = req.serialize_to(1);

    assert_eq!(bytes[0x00], 0x01);
    assert_eq!(bytes[0x03], MpiFunction::Config.as_u8());
    assert_eq!(bytes[0x16], 5);
    assert_eq!(bytes[0x17], 0x09);
    assert_eq!(bytes.len(), 0x2C);
}

#[test]
fn iocinit_request_serializes_correctly() {
    let req = IocInitRequest {
        who_init: 0x04,
        host_msix_vectors: 32,
        reply_descriptor_post_queue_depth: 16,
        system_request_frame_base_address: 0x1000_0000,
        reply_descriptor_post_queue_address: 0x2000_0000,
    };

    let bytes = req.serialize_to(1);

    assert_eq!(bytes[0], 0x04);
    assert_eq!(bytes[3], MpiFunction::IocInit.as_u8());
    let rdq_depth = u16::from_le_bytes([bytes[0x1C], bytes[0x1D]]);
    assert_eq!(rdq_depth, 16);

    assert_eq!(bytes.len(), 0x48);
}

#[test]
fn fw_download_reply_parses_success() {
    let mut bytes = vec![0x00; 24];
    bytes[0] = 0x01;

    bytes[14] = 0x00;
    bytes[15] = 0x00;

    let reply = FwDownloadReply::parse(&bytes).unwrap();
    assert_eq!(reply.image_type, 0x01);
    assert_eq!(reply.ioc_status, IocStatus::Success);
}

#[test]
fn fw_download_reply_parses_internal_error() {
    let mut bytes = vec![0x00; 24];
    bytes[0] = 0x02;

    bytes[14] = 0x04;
    bytes[15] = 0x00;

    let reply = FwDownloadReply::parse(&bytes).unwrap();
    assert_eq!(reply.image_type, 0x02);
    assert_eq!(reply.ioc_status, IocStatus::InternalError);
}

#[test]
fn fw_download_reply_malformed_too_short() {
    let bytes = vec![0x00; 10];

    match FwDownloadReply::parse(&bytes) {
        Err(MpiError::MalformedReply {
            function,
            got,
            need,
        }) => {
            assert_eq!(function, MpiFunction::FwDownload);
            assert_eq!(got, 10);
            assert_eq!(need, 18);
        }
        _ => panic!("Expected MalformedReply error"),
    }
}

#[test]
fn fw_upload_reply_parses_actual_size() {
    let mut bytes = vec![0x00; 24];
    bytes[0] = 0x00;

    bytes[14] = 0x00;
    bytes[15] = 0x00;

    bytes[20] = 0x34;
    bytes[21] = 0x12;
    bytes[22] = 0x00;
    bytes[23] = 0x00;

    let reply = FwUploadReply::parse(&bytes).unwrap();
    assert_eq!(reply.image_type, 0x00);
    assert_eq!(reply.ioc_status, IocStatus::Success);
    assert_eq!(reply.actual_image_size, 0x1234);
}

#[test]
fn toolboxclean_reply_parses_success() {
    let mut bytes = vec![0x00; 20];
    bytes[0] = 0x00;

    bytes[14] = 0x00;
    bytes[15] = 0x00;

    let reply = ToolboxReply::parse(&bytes).unwrap();
    assert_eq!(reply.tool, 0x00);
    assert_eq!(reply.ioc_status, IocStatus::Success);
}

#[test]
fn config_reply_parses_page_header() {
    let mut bytes = vec![0x00; 32];
    bytes[0] = 0x01;

    bytes[20] = 0x05;
    bytes[21] = 0x40;
    bytes[22] = 0x05;
    bytes[23] = 0x09;

    bytes[14] = 0x00;
    bytes[15] = 0x00;

    let reply = ConfigReply::parse(&bytes).unwrap();
    assert_eq!(reply.action, 0x01);
    assert_eq!(reply.page_header, [0x05, 0x40, 0x05, 0x09]);
    assert_eq!(reply.ioc_status, IocStatus::Success);
}

#[test]
fn iocinit_reply_parses_whoinit() {
    let mut bytes = vec![0x00; 20];

    bytes[0] = 0x04;

    bytes[14] = 0x00;
    bytes[15] = 0x00;

    let reply = IocInitReply::parse(&bytes).unwrap();
    assert_eq!(reply.who_init, 0x04);
    assert_eq!(reply.ioc_status, IocStatus::Success);
}

#[test]
fn all_iocstatus_codes_can_be_serialized_and_deserialized() {
    let test_codes = [
        IocStatus::Success,
        IocStatus::InternalError,
        IocStatus::ConfigInvalidPage,
        IocStatus::ScsiDataOverrun,
        IocStatus::TargetIuTooShort,
    ];

    for status in &test_codes {
        let raw = status.as_u16();
        let parsed = IocStatus::from_u16(raw).unwrap();
        assert_eq!(*status, parsed);
    }
}

#[test]
fn citation_verification() {
}

#[test]
fn flash_region_type_from_u8_handles_all_codes() {
    assert_eq!(FlashRegionType::from_u8(0x00), FlashRegionType::Unused);
    assert_eq!(FlashRegionType::from_u8(0x01), FlashRegionType::Firmware);
    assert_eq!(FlashRegionType::from_u8(0x02), FlashRegionType::Bios);
    assert_eq!(
        FlashRegionType::from_u8(0x03),
        FlashRegionType::Manufacturing
    );
    assert_eq!(FlashRegionType::from_u8(0x04), FlashRegionType::Config);
    assert_eq!(
        FlashRegionType::from_u8(0x05),
        FlashRegionType::MfgPlusConfig
    );
    assert_eq!(FlashRegionType::from_u8(0x06), FlashRegionType::BootService);
    assert_eq!(FlashRegionType::from_u8(0x07), FlashRegionType::Log);
    assert_eq!(FlashRegionType::from_u8(0xFF), FlashRegionType::Other(0xFF));
}

#[test]
fn flash_region_type_as_u8_roundtrip() {
    let variants = [
        FlashRegionType::Unused,
        FlashRegionType::Firmware,
        FlashRegionType::Bios,
        FlashRegionType::Manufacturing,
        FlashRegionType::Config,
        FlashRegionType::MfgPlusConfig,
        FlashRegionType::BootService,
        FlashRegionType::Log,
    ];

    for variant in &variants {
        let raw = variant.as_u8();
        assert_eq!(FlashRegionType::from_u8(raw), *variant);
    }
}

#[test]
fn flash_region_type_other_roundtrip() {
    let other = FlashRegionType::Other(0x42);
    assert_eq!(other.as_u8(), 0x42);
    assert_eq!(FlashRegionType::from_u8(0x42), FlashRegionType::Other(0x42));
}

#[test]
fn flash_layout_reply_parse_golden_buffer() {
    let mut bytes = vec![0x00; 48];

    bytes[0] = 0x00;
    bytes[1] = 0x00;
    bytes[2] = 0x10;
    bytes[3] = 0x00;

    bytes[0x10] = 0x01;
    bytes[0x14..0x18].copy_from_slice(&0x0001_0000u32.to_le_bytes());
    bytes[0x18..0x1C].copy_from_slice(&0x0008_0000u32.to_le_bytes());

    bytes[0x20] = 0x02;
    bytes[0x24..0x28].copy_from_slice(&0x0009_0000u32.to_le_bytes());
    bytes[0x28..0x2C].copy_from_slice(&0x0001_0000u32.to_le_bytes());

    let reply = FlashLayoutReply::parse(&bytes).unwrap();

    assert_eq!(reply.flash_size, 0x00100000);
    assert_eq!(reply.regions.len(), 2);
    assert_eq!(reply.regions[0].region_type(), FlashRegionType::Firmware);
    assert_eq!(reply.regions[0].region_offset, 0x0001_0000);
    assert_eq!(reply.regions[0].region_size, 0x0008_0000);
    assert_eq!(reply.regions[1].region_type(), FlashRegionType::Bios);
    assert_eq!(reply.regions[1].region_offset, 0x0009_0000);
    assert_eq!(reply.regions[1].region_size, 0x0001_0000);
}

#[test]
fn flash_layout_reply_region_finds_correct_type() {
    let mut bytes = vec![0x00; 48];

    bytes[0] = 0x00;
    bytes[1] = 0x00;
    bytes[2] = 0x10;
    bytes[3] = 0x00;

    bytes[0x10] = 0x01;
    bytes[0x14..0x18].copy_from_slice(&0x0001_0000u32.to_le_bytes());
    bytes[0x18..0x1C].copy_from_slice(&0x0008_0000u32.to_le_bytes());

    bytes[0x20] = 0x02;
    bytes[0x24..0x28].copy_from_slice(&0x0009_0000u32.to_le_bytes());
    bytes[0x28..0x2C].copy_from_slice(&0x0001_0000u32.to_le_bytes());

    let reply = FlashLayoutReply::parse(&bytes).unwrap();

    let fw_region = reply
        .region(FlashRegionType::Firmware)
        .expect("should find firmware");
    assert_eq!(fw_region.region_type(), FlashRegionType::Firmware);
    assert_eq!(fw_region.region_size, 0x0008_0000);

    let bios_region = reply
        .region(FlashRegionType::Bios)
        .expect("should find bios");
    assert_eq!(bios_region.region_type(), FlashRegionType::Bios);
    assert_eq!(bios_region.region_size, 0x0001_0000);

    assert!(reply.region(FlashRegionType::Log).is_none());

    assert_eq!(fw_region.reserved_1, 0x00);
    assert_eq!(fw_region.reserved_2, 0x0000);
}

#[test]
fn flash_layout_reply_parse_too_short_returns_malformed() {
    let bytes = vec![0x00; 12];

    match FlashLayoutReply::parse(&bytes) {
        Err(MpiError::MalformedReply {
            function,
            got,
            need,
        }) => {
            assert_eq!(function, MpiFunction::Config);
            assert_eq!(got, 12);
            assert_eq!(need, 16);
        }
        _ => panic!("Expected MalformedReply error"),
    }
}

#[test]
fn flash_region_struct_size_is_16_bytes() {
    assert_eq!(std::mem::size_of::<FlashRegion>(), 16);
}

#[test]
fn flash_region_type_debug_impl() {
    let fw = FlashRegionType::Firmware;
    let debug_str = format!("{:?}", fw);
    assert_eq!(debug_str, "Firmware");

    let other = FlashRegionType::Other(0x42);
    let debug_str = format!("{:?}", other);
    assert_eq!(debug_str, "Other(66)");
}

#[test]
fn facts_request_has_sixteen_bytes() {
    let bytes = IocFactsRequest::serialize_to(0x0102);
    let mut expected = vec![0u8; 16];
    expected[3] = 0x03;
    expected[4] = 0x02;
    expected[5] = 0x01;
    assert_eq!(bytes, expected);
}

#[test]
fn a_download_reply_may_cut_its_last_field_off() {
    let mut bytes = vec![0u8; 20];
    bytes[0] = 0x01;
    bytes[16..20].copy_from_slice(&0x0403_0201u32.to_le_bytes());
    for (len, log) in [(18, 0x0201), (19, 0x03_0201), (20, 0x0403_0201)] {
        let reply = FwDownloadReply::parse(&bytes[..len]).unwrap();
        assert_eq!(reply.image_type, 0x01);
        assert_eq!(reply.ioc_status, IocStatus::Success);
        assert_eq!(reply.ioc_log_info, log);
    }
    bytes[14] = 0xFE;
    bytes[15] = 0x7F;
    assert!(matches!(
        FwDownloadReply::parse(&bytes[..18]),
        Err(MpiError::UnknownIocStatus(0x7FFE))
    ));
}

#[test]
fn an_upload_reply_may_cut_its_last_field_off() {
    let mut bytes = vec![0u8; 24];
    bytes[0] = 0x02;
    bytes[20..24].copy_from_slice(&0x0403_0201u32.to_le_bytes());
    for (len, size) in [(22, 0x0201), (23, 0x03_0201), (24, 0x0403_0201)] {
        let reply = FwUploadReply::parse(&bytes[..len]).unwrap();
        assert_eq!(reply.image_type, 0x02);
        assert_eq!(reply.actual_image_size, size);
    }
    assert!(matches!(
        FwUploadReply::parse(&bytes[..21]),
        Err(MpiError::MalformedReply { got: 21, need: 22, .. })
    ));
}
