use lsi_flash::hw::{DmaBuffer, HwError};
use lsi_flash::mpi::messages::{
    ConfigRequest, FwDownloadRequest, FwUploadRequest, ImageType, IocInitRequest, IocStatus,
    MpiError, ToolboxCleanFlags, ToolboxCleanRequest,
};
use lsi_flash::mpi::real_ioc::{preferred_bar1, ready_check, RealIoc, BAR1_LEN};

const READY: u32 = 0x1000_0000;
const FAULT: u32 = 0x4000_0000;

fn config_request() -> ConfigRequest {
    ConfigRequest {
        action: 1,
        sgl_flags: 0xC0,
        page_type: 9,
        page_number: 5,
        ext_page_type: None,
        payload_buffer: vec![0u8; 256],
        page_address: 0x0000_0000,
    }
}

#[test]
fn realioc_for_tests_succeeds_against_mock_platform() {
    let realioc = RealIoc::for_tests("0000:03:00.0");
    assert_eq!(realioc.pci_bdf(), "0000:03:00.0");
    assert!(realioc.get_personality().is_none());
}

#[test]
fn realioc_destructive_ops_return_not_implemented_yet() {
    let realioc = RealIoc::for_tests("0000:03:00.0");

    let download_req = FwDownloadRequest {
        image_type: ImageType::Fw,
        image_offset: 0,
        image_size: 256,
        total_image_size: 256,
        last_segment: true,
        payload: &[0u8; 256],
    };
    let result = realioc.send_fw_download(&download_req);
    assert!(
        matches!(result, Err(MpiError::NotImplementedYet { .. })),
        "send_fw_download must be brick-gated (NotImplementedYet), got: {result:?}"
    );

    let clean_req = ToolboxCleanRequest {
        flags: ToolboxCleanFlags::flash(),
    };
    let result = realioc.send_toolbox_clean(&clean_req);
    assert!(
        matches!(result, Err(MpiError::NotImplementedYet { .. })),
        "send_toolbox_clean must be brick-gated (NotImplementedYet), got: {result:?}"
    );
}

#[test]
fn realioc_bar1_path_is_canonical_sysfs() {
    let realioc = RealIoc::for_tests("0000:03:00.0");
    let expected = "/sys/bus/pci/devices/0000:03:00.0/resource1";
    assert_eq!(realioc.bar1_path(), expected);
    assert!(BAR1_LEN >= 0x100);
}

#[test]
fn realioc_open_nonexistent_bdf_returns_io_error() {
    let result = RealIoc::open("ffff:ff:ff.f", Err("No such file or directory".to_string()));
    assert!(
        matches!(result, Err(MpiError::Io(_))),
        "open() against nonexistent BDF should return MpiError::Io"
    );
    assert!(RealIoc::open("0000:03:00.0", Ok(())).is_ok());
}

#[test]
fn send_fw_upload_respects_buffer_size() {
    let realioc = RealIoc::for_tests("0000:03:00.0");

    let req = FwUploadRequest {
        image_type: ImageType::Fw,
        image_offset: 0,
        image_size: 65536,
        payload_buffer: vec![0u8; 64],
    };

    let result = realioc.send_fw_upload(&req, 0, None);

    assert!(
        result.is_err(),
        "send_fw_upload should reject oversized requests"
    );
    if let Err(MpiError::Io(msg)) = result {
        assert!(
            msg.contains("buffer too small"),
            "Error message should mention buffer size: {}",
            msg
        );
    } else {
        panic!("Expected MpiError::Io, got {:?}", result);
    }
}

#[test]
fn send_config_returns_io_error_when_bar1_not_mapped() {
    let realioc = RealIoc::for_tests("0000:03:00.0");

    let result = realioc.send_config(&config_request(), None);

    assert!(
        matches!(result, Err(MpiError::Io(_))),
        "send_config should return MpiError::Io when BAR1 not mapped"
    );
}

#[test]
fn send_config_handles_ioc_state_validation() {
    let realioc = RealIoc::for_tests("0000:03:00.0");

    let result = realioc.send_config(&config_request(), None);

    assert!(
        matches!(result, Err(MpiError::Io(_))),
        "send_config should return MpiError::Io when BAR1 not mapped"
    );

    let result = realioc.send_config(&config_request(), Some(FAULT));
    assert!(matches!(
        result,
        Err(MpiError::IocStatus(IocStatus::InvalidState))
    ));
}

#[test]
fn send_config_page_address_zero() {
    let realioc = RealIoc::for_tests("0000:03:00.0");

    let result = realioc.send_config(&config_request(), None);
    assert!(matches!(result, Err(MpiError::Io(_))));

    let wire = realioc.send_config(&config_request(), Some(READY)).unwrap();
    assert_eq!(wire[0x17], 9);
    assert_eq!(&wire[0x18..0x1C], &[0, 0, 0, 0]);
}

#[test]
fn a_controller_must_be_ready() {
    assert!(ready_check(Some(READY)).is_ok());
    assert!(ready_check(Some(0x2000_0000)).is_ok());
    assert!(ready_check(Some(0)).is_err());
    assert!(matches!(ready_check(None), Err(MpiError::Io(t)) if t == "BAR1 not mapped"));
}

#[test]
fn memory_is_passed_on() {
    let ioc = RealIoc::from_backend("b");
    let e = ioc.alloc_dma(None).unwrap_err();
    assert!(e.text().contains("alloc_dma requires HwBackend"));
    let granted = DmaBuffer {
        iova: 0x1000,
        len: 4096,
        handle: 1,
    };
    assert_eq!(ioc.alloc_dma(Some(Ok(granted))).unwrap().iova, 0x1000);
    assert!(ioc.alloc_dma(Some(Err(HwError::DmaAlloc("x".to_string())))).is_err());
    assert!(ioc.free_dma(Some(Ok(()))).is_ok());
    assert!(ioc.free_dma(None).is_err());
}

#[test]
fn requests_and_replies_of_the_queues() {
    let ioc = RealIoc::from_backend("b");
    let init = IocInitRequest {
        who_init: 4,
        host_msix_vectors: 0,
        reply_descriptor_post_queue_depth: 16,
        system_request_frame_base_address: 0,
        reply_descriptor_post_queue_address: 0,
    };
    assert!(ioc.send_ioc_init(&init, false).is_err());
    assert!(ioc.send_ioc_init(&init, true).is_ok());
    assert!(ioc.send_ioc_facts(None).is_err());
    assert!(ioc.send_ioc_facts(Some(READY)).is_ok());
    let e = ioc
        .finish_ioc_facts(Err("timeout".to_string()), Ok(Vec::new()))
        .unwrap_err();
    assert!(e.text().contains("IOC_FACTS send: timeout"));
    let e = ioc
        .finish_config(Ok(()), Err("timeout".to_string()))
        .unwrap_err();
    assert!(e.text().contains("CONFIG recv: timeout"));
    let e = ioc
        .finish_ioc_init(Ok(()), Err("timeout".to_string()))
        .unwrap_err();
    assert!(e.text().contains("IOC_INIT recv: timeout"));
    assert!(ioc.finish_fw_upload(Err("x".to_string())).is_err());
    assert!(ioc.finish_fw_upload(Ok(vec![0; 4])).is_err());
}

#[test]
fn the_way_to_the_device_is_preferred() {
    let (backend, mapped) = ([1u8, 2], [3u8]);
    assert_eq!(preferred_bar1(Some(&backend), Some(&mapped)), Some(&backend[..]));
    assert_eq!(preferred_bar1(None, Some(&mapped)), Some(&mapped[..]));
    assert_eq!(preferred_bar1(Some(&backend), None), Some(&backend[..]));
    assert_eq!(preferred_bar1(None, None), None);
}

#[test]
fn a_question_for_facts_is_sent_whole() {
    let ioc = RealIoc::for_tests("0000:03:00.0");
    let bytes = ioc.send_ioc_facts(Some(READY)).unwrap();
    assert_eq!(bytes.len(), 16);
    assert_eq!(bytes[3], 0x03);
}
