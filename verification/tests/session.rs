//! Sessions with a controller.

use lsi_flash::mpi::messages::{
    FwDownloadRequest, ImageType, IocInitRequest, IocStatus, MpiError,
};
use lsi_flash::mpi::mock_ioc::MockIoc;
use lsi_flash::mpi::session::{Personality, PersonalityMatched, Session};

#[test]
fn session_new_creates_with_smid_1() {
    let mock = MockIoc::new(Personality::It);
    let session = Session::new(mock);

    assert_eq!(session.current_personality().unwrap(), Personality::It);
}

#[test]
fn personality_matched_verify_match_allows_same() {
    let result = PersonalityMatched::verify_match(Personality::It, Personality::It);
    assert!(result.is_ok());

    let proof = result.unwrap();
    assert_eq!(proof.running(), Personality::It);
    assert_eq!(proof.target(), Personality::It);
}

#[test]
fn personality_matched_verify_match_rejects_different() {
    let result = PersonalityMatched::verify_match(Personality::It, Personality::Ir);
    assert!(matches!(result, Err(MpiError::PersonalityMismatch { .. })));

    if let Err(MpiError::PersonalityMismatch { running, target }) = result {
        assert_eq!(running, Personality::It);
        assert_eq!(target, Personality::Ir);
    }
}

#[test]
fn personality_from_product_id_byte() {
    assert_eq!(
        Personality::from_product_id_low_byte(0x13),
        Some(Personality::It)
    );
    assert_eq!(
        Personality::from_product_id_low_byte(0x17),
        Some(Personality::Ir)
    );
    assert_eq!(Personality::from_product_id_low_byte(0xFF), None);
}

#[test]
fn fw_download_verified_enforces_personality_match() {
    let mock = MockIoc::new(Personality::It);
    let mut session = Session::new(mock);

    let init_req = IocInitRequest {
        who_init: 0x04,
        host_msix_vectors: 0,
        reply_descriptor_post_queue_depth: 16,
        system_request_frame_base_address: 0,
        reply_descriptor_post_queue_address: 0,
    };
    let _ = session.raw_ioc_init(&init_req);

    let result = session.fw_download_verified(ImageType::Fw, Personality::Ir, &[0u8; 100]);
    assert!(matches!(result, Err(MpiError::PersonalityMismatch { .. })));
}

#[test]
fn fw_download_verified_personality_match_succeeds() {
    let mock = MockIoc::new(Personality::It);
    let mut session = Session::new(mock);

    let init_req = IocInitRequest {
        who_init: 0x04,
        host_msix_vectors: 0,
        reply_descriptor_post_queue_depth: 16,
        system_request_frame_base_address: 0,
        reply_descriptor_post_queue_address: 0,
    };
    let _ = session.raw_ioc_init(&init_req);

    let test_data = vec![0xAA; 256];
    let result = session.fw_download_verified(ImageType::Fw, Personality::It, &test_data);

    if let Err(MpiError::PersonalityMismatch { .. }) = result {
        panic!("Should not have personality mismatch error");
    }
}

#[test]
fn session_iocstatus_internal_error_triggers_hard_stop() {
    let mut mock = MockIoc::new(Personality::It);
    mock.inject.next_fw_download_error = Some(IocStatus::InternalError);

    let mut session = Session::new(mock);

    let init_req = IocInitRequest {
        who_init: 0x04,
        host_msix_vectors: 0,
        reply_descriptor_post_queue_depth: 16,
        system_request_frame_base_address: 0,
        reply_descriptor_post_queue_address: 0,
    };
    let _ = session.raw_ioc_init(&init_req);

    let result = session.fw_download_verified(ImageType::Fw, Personality::It, &[0u8; 100]);
    assert!(matches!(
        result,
        Err(MpiError::IocStatus(IocStatus::InternalError))
    ));
}

#[test]
fn raw_methods_passthrough_to_backend() {
    let mock = MockIoc::new(Personality::It);
    let mut session = Session::new(mock);

    let init_req = IocInitRequest {
        who_init: 0x04,
        host_msix_vectors: 0,
        reply_descriptor_post_queue_depth: 16,
        system_request_frame_base_address: 0,
        reply_descriptor_post_queue_address: 0,
    };
    let _ = session.raw_ioc_init(&init_req);

    let download_reply = session
        .raw_fw_download(&FwDownloadRequest {
            image_type: ImageType::Bios,
            image_offset: 0,
            image_size: 128,
            total_image_size: 128,
            last_segment: true,
            payload: &[0u8; 128],
        })
        .unwrap();

    assert_eq!(download_reply.ioc_status, IocStatus::Success);
}
