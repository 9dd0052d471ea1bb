//! The controller that stands in for hardware.

use lsi_flash::mpi::messages::{
    ConfigRequest, FwDownloadRequest, FwUploadRequest, ImageType, IocInitRequest, IocStatus,
    MpiError, ToolboxCleanFlags, ToolboxCleanRequest,
};
use lsi_flash::mpi::mock_ioc::MockIoc;
use lsi_flash::mpi::session::{IocBackend, Personality, PersonalityMatched, Session};

#[test]
fn mock_ioc_create_with_initial_personality() {
    let mock = MockIoc::new(Personality::It);
    assert_eq!(mock.get_personality(), Personality::It);
    assert!(!mock.is_initialized());
}

#[test]
fn mock_ioc_init_then_ready_for_ops() {
    let mut mock = MockIoc::new(Personality::Ir);

    assert!(!mock.is_initialized());

    let init_req = IocInitRequest {
        who_init: 0x04,
        host_msix_vectors: 0,
        reply_descriptor_post_queue_depth: 16,
        system_request_frame_base_address: 0,
        reply_descriptor_post_queue_address: 0,
    };

    let _ = mock.send_ioc_init(&init_req);
    assert!(mock.is_initialized());
}

#[test]
fn mock_ioc_download_requires_init() {
    let mut mock = MockIoc::new(Personality::It);

    let req = FwDownloadRequest {
        image_type: ImageType::Fw,
        image_offset: 0,
        image_size: 128,
        total_image_size: 128,
        last_segment: true,
        payload: &[0u8; 128],
    };

    let reply = mock.send_fw_download(&req).unwrap();
    assert_eq!(reply.ioc_status, IocStatus::InvalidState);
}

#[test]
fn mock_ioc_upload_after_init_returns_empty() {
    let mut mock = MockIoc::new(Personality::It);

    let init_req = IocInitRequest {
        who_init: 0x04,
        host_msix_vectors: 0,
        reply_descriptor_post_queue_depth: 16,
        system_request_frame_base_address: 0,
        reply_descriptor_post_queue_address: 0,
    };
    let _ = mock.send_ioc_init(&init_req);

    let buf = vec![0u8; 128];
    let mut req = FwUploadRequest {
        image_type: ImageType::Bios,
        image_offset: 0,
        image_size: 128,
        payload_buffer: buf,
    };

    let reply = mock.send_fw_upload(&mut req).unwrap();
    assert_eq!(reply.ioc_status, IocStatus::Success);
    assert_eq!(reply.actual_image_size, 0);
}

#[test]
fn mock_ioc_download_then_upload_roundtrip() {
    let mut mock = MockIoc::new(Personality::It);

    let init_req = IocInitRequest {
        who_init: 0x04,
        host_msix_vectors: 0,
        reply_descriptor_post_queue_depth: 16,
        system_request_frame_base_address: 0,
        reply_descriptor_post_queue_address: 0,
    };
    let _ = mock.send_ioc_init(&init_req);

    let test_data = vec![0xAA, 0xBB, 0xCC, 0xDD];
    let req = FwDownloadRequest {
        image_type: ImageType::Fw,
        image_offset: 16,
        image_size: 4,
        total_image_size: 256,
        last_segment: true,
        payload: &test_data,
    };

    let _ = mock.send_fw_download(&req).unwrap();

    let buf = vec![0u8; 256];
    let mut req = FwUploadRequest {
        image_type: ImageType::Fw,
        image_offset: 16,
        image_size: 4,
        payload_buffer: buf,
    };

    let reply = mock.send_fw_upload(&mut req).unwrap();
    assert_eq!(reply.ioc_status, IocStatus::Success);

    assert_eq!(&req.payload_buffer[16..20], &test_data[..]);
}

#[test]
fn mock_ioc_toolbox_clean_removes_partitions() {
    let mut mock = MockIoc::new(Personality::It);

    let init_req = IocInitRequest {
        who_init: 0x04,
        host_msix_vectors: 0,
        reply_descriptor_post_queue_depth: 16,
        system_request_frame_base_address: 0,
        reply_descriptor_post_queue_address: 0,
    };
    let _ = mock.send_ioc_init(&init_req);

    mock.preload_partition(ImageType::Fw, vec![0xAA; 256]);
    mock.preload_partition(ImageType::Bios, vec![0xBB; 128]);

    let req = ToolboxCleanRequest {
        flags: ToolboxCleanFlags::fw_current(),
    };

    let _ = mock.send_toolbox_clean(&req).unwrap();

    assert!(!mock.has_partition(ImageType::Fw));
    assert!(mock.has_partition(ImageType::Bios));

    let req = ToolboxCleanRequest {
        flags: ToolboxCleanFlags::flash(),
    };

    let _ = mock.send_toolbox_clean(&req).unwrap();

    assert!(mock.is_blank());
}

#[test]
fn mock_ioc_injection_fw_download_error() {
    let mut mock = MockIoc::new(Personality::It);

    let init_req = IocInitRequest {
        who_init: 0x04,
        host_msix_vectors: 0,
        reply_descriptor_post_queue_depth: 16,
        system_request_frame_base_address: 0,
        reply_descriptor_post_queue_address: 0,
    };
    let _ = mock.send_ioc_init(&init_req);

    mock.inject_fw_download_error(IocStatus::InternalError);

    let req = FwDownloadRequest {
        image_type: ImageType::Fw,
        image_offset: 0,
        image_size: 128,
        total_image_size: 128,
        last_segment: true,
        payload: &[0u8; 128],
    };

    let reply = mock.send_fw_download(&req).unwrap();
    assert_eq!(reply.ioc_status, IocStatus::InternalError);

    let req2 = FwDownloadRequest {
        image_type: ImageType::Fw,
        image_offset: 0,
        image_size: 64,
        total_image_size: 64,
        last_segment: true,
        payload: &[0u8; 64],
    };

    let reply2 = mock.send_fw_download(&req2).unwrap();
    assert_eq!(reply2.ioc_status, IocStatus::Success);
}

#[test]
fn personality_matched_token_type_level_enforcement() {
    let result = PersonalityMatched::verify_match(Personality::It, Personality::It);
    assert!(result.is_ok(), "Same personalities should match");

    if let Ok(proof) = result {
        assert_eq!(proof.running(), Personality::It);
        assert_eq!(proof.target(), Personality::It);
    }

    let result = PersonalityMatched::verify_match(Personality::Ir, Personality::Imr);
    assert!(result.is_err(), "Different personalities should not match");

    if let Err(MpiError::PersonalityMismatch { running, target }) = result {
        assert_eq!(running, Personality::Ir);
        assert_eq!(target, Personality::Imr);
    }
}

#[test]
fn session_fw_download_verified_enforces_personality_match() {
    let mock = MockIoc::new(Personality::It);
    let mut session = Session::new(mock);

    let init_req = IocInitRequest {
        who_init: 0x04,
        host_msix_vectors: 0,
        reply_descriptor_post_queue_depth: 16,
        system_request_frame_base_address: 0,
        reply_descriptor_post_queue_address: 0,
    };
    let _ = session.raw_ioc_init(&init_req);

    let result = session.fw_download_verified(ImageType::Fw, Personality::Ir, &[0u8; 100]);

    assert!(matches!(result, Err(MpiError::PersonalityMismatch { .. })));

    if let Err(MpiError::PersonalityMismatch { running, target }) = result {
        assert_eq!(running, Personality::It);
        assert_eq!(target, Personality::Ir);
    }
}

#[test]
fn session_fw_download_verified_with_matching_personality() {
    let mock = MockIoc::new(Personality::It);
    let mut session = Session::new(mock);

    let init_req = IocInitRequest {
        who_init: 0x04,
        host_msix_vectors: 0,
        reply_descriptor_post_queue_depth: 16,
        system_request_frame_base_address: 0,
        reply_descriptor_post_queue_address: 0,
    };
    let _ = session.raw_ioc_init(&init_req);

    let test_data = vec![0xAA; 256];
    let result = session.fw_download_verified(ImageType::Fw, Personality::It, &test_data);

    assert!(!matches!(result, Err(MpiError::PersonalityMismatch { .. })));
}

#[test]
fn iocstatus_internal_error_during_download_hard_stops() {
    let mut mock = MockIoc::new(Personality::It);
    mock.inject_fw_download_error(IocStatus::InternalError);

    let mut session = Session::new(mock);

    let init_req = IocInitRequest {
        who_init: 0x04,
        host_msix_vectors: 0,
        reply_descriptor_post_queue_depth: 16,
        system_request_frame_base_address: 0,
        reply_descriptor_post_queue_address: 0,
    };
    let _ = session.raw_ioc_init(&init_req);

    let result = session.fw_download_verified(ImageType::Fw, Personality::It, &[0u8; 100]);

    assert!(matches!(
        result,
        Err(MpiError::IocStatus(IocStatus::InternalError))
    ));
}

#[test]
fn fw_upload_injection_error() {
    let mut mock = MockIoc::new(Personality::It);

    let init_req = IocInitRequest {
        who_init: 0x04,
        host_msix_vectors: 0,
        reply_descriptor_post_queue_depth: 16,
        system_request_frame_base_address: 0,
        reply_descriptor_post_queue_address: 0,
    };
    let _ = mock.send_ioc_init(&init_req);

    mock.preload_partition(ImageType::Fw, vec![0xAA; 256]);

    mock.inject_fw_upload_error(IocStatus::Busy);

    let buf = vec![0u8; 256];
    let mut req = FwUploadRequest {
        image_type: ImageType::Fw,
        image_offset: 0,
        image_size: 256,
        payload_buffer: buf,
    };

    let reply = mock.send_fw_upload(&mut req).unwrap();
    assert_eq!(reply.ioc_status, IocStatus::Busy);
}

#[test]
fn toolbox_clean_with_injected_error() {
    let mut mock = MockIoc::new(Personality::It);

    let init_req = IocInitRequest {
        who_init: 0x04,
        host_msix_vectors: 0,
        reply_descriptor_post_queue_depth: 16,
        system_request_frame_base_address: 0,
        reply_descriptor_post_queue_address: 0,
    };
    let _ = mock.send_ioc_init(&init_req);

    mock.inject.next_toolbox_error = Some(IocStatus::InvalidState);

    let req = ToolboxCleanRequest {
        flags: ToolboxCleanFlags::nvram(),
    };

    let reply = mock.send_toolbox_clean(&req).unwrap();
    assert_eq!(reply.ioc_status, IocStatus::InvalidState);
}

#[test]
fn config_request_returns_success() {
    let mut mock = MockIoc::new(Personality::It);

    let init_req = IocInitRequest {
        who_init: 0x04,
        host_msix_vectors: 0,
        reply_descriptor_post_queue_depth: 16,
        system_request_frame_base_address: 0,
        reply_descriptor_post_queue_address: 0,
    };
    let _ = mock.send_ioc_init(&init_req);

    let buf = vec![0u8; 256];
    let req = ConfigRequest {
        action: 0x01,
        sgl_flags: 0xC0,
        page_type: 0x40,
        page_number: 5,
        ext_page_type: None,
        payload_buffer: buf,
        page_address: 0,
    };

    let reply = mock.send_config(&req).unwrap();
    assert_eq!(reply.ioc_status, IocStatus::Success);
}
