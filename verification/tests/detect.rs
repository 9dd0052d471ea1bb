use lsi_flash::card::PciDevice;
use lsi_flash::cli::detect::{
    describe_device, describe_facts, parse_mfg_page_0, try_fetch_mpi_fields, try_fetch_via_mpt3ctl,
    FetchAction, FetchEvent, FetchState,
};
use lsi_flash::error::Error;
use lsi_flash::mpi::messages::{IocInitRequest, IocStatus, MpiError, MpiFunction};
use lsi_flash::mpi::mock_ioc::MockIoc;
use lsi_flash::mpi::session::{IocBackend, Personality};
use lsi_flash::card::{chip_family_from_pci, ChipFamily};

fn is_sas2008_family(vid: u16, did: u16) -> bool {
    did == 0x0072 && chip_family_from_pci(vid, did) == ChipFamily::Sas2008
}

fn init_request() -> IocInitRequest {
    IocInitRequest {
        who_init: 0x04,
        host_msix_vectors: 0,
        reply_descriptor_post_queue_depth: 16,
        system_request_frame_base_address: 0,
        reply_descriptor_post_queue_address: 0,
    }
}

#[test]
fn sas2008_family_recognizes_known_dids() {
    assert!(is_sas2008_family(0x1000, 0x0072));

    let test_cases = vec![
        (0x1000, 0x0072, 0x1000, 0x3020),
        (0x1000, 0x0072, 0x1028, 0x1f1c),
        (0x1000, 0x0072, 0x1028, 0x1f1d),
        (0x1000, 0x0072, 0x1734, 0x1177),
    ];

    for (vid, did, _ssvid, _ssdid) in test_cases {
        assert!(
            is_sas2008_family(vid, did),
            "Expected DID 0x{:04x} to be SAS2008 family",
            did
        );
    }
}

#[test]
fn sas2008_family_rejects_unrelated_dids() {
    assert!(
        !is_sas2008_family(0x1000, 0x0087),
        "SAS2308 should NOT be SAS2008 family"
    );

    assert!(
        !is_sas2008_family(0x1000, 0x00c0),
        "SAS3008 should NOT be SAS2008 family"
    );

    assert!(
        !is_sas2008_family(0x8086, 0x1234),
        "Intel device should NOT be SAS2008 family"
    );
}

#[test]
fn test_mock_ioc_ioc_facts_roundtrip() {
    let mut mock = MockIoc::new(Personality::It);

    let _ = mock.send_ioc_init(&init_request());

    let facts = mock.send_ioc_facts().unwrap();

    assert_eq!(facts.function, MpiFunction::IocFacts.as_u8());
    assert_eq!(facts.ioc_status, IocStatus::Success);
    assert_eq!(facts.board_name.as_deref(), Some("Dell H200"));
    assert_eq!(facts.board_tracer.as_deref(), Some("00000001"));
    assert_eq!(facts.nvdata_vendor_id, Some(0x1000));
    assert_eq!(facts.nvdata_product_id, Some("LSI2008".to_string()));

    let (major, minor, unit, _dev) = facts.fw_version_components();
    assert_eq!(major, 7);
    assert_eq!(minor, 15);
    assert_eq!(unit, 8);

    let nv_ver = facts.nvdata_version.unwrap();
    assert_eq!(nv_ver, 0x00041003);

    assert_eq!(
        facts.firmware_product_id,
        Some("InternalTapeAdp".to_string())
    );
}

#[test]
fn test_detect_graceful_skip_on_mpi_failure() {
    let mut mock = MockIoc::new(Personality::It);

    let facts_result = mock.send_ioc_facts();
    assert!(facts_result.is_ok());

    let facts = facts_result.unwrap();
    assert_eq!(facts.ioc_status, IocStatus::InvalidState);

    let lines = describe_facts(&Err(Error::Other("no driver".to_string())));
    assert_eq!(
        lines,
        vec!["  MPI extended fields unavailable: Unexpected error: no driver"]
    );
}

#[test]
fn facts_through_the_kernel_are_judged() {
    let e = try_fetch_via_mpt3ctl(Err("no device".to_string()), Ok(0), &[]).unwrap_err();
    assert_eq!(e.text(), "Unexpected error: mpt3ctl open: no device");
    let e = try_fetch_via_mpt3ctl(Ok(()), Err("ioctl".to_string()), &[]).unwrap_err();
    assert_eq!(e.text(), "Unexpected error: mpt3ctl IOC_FACTS: ioctl");
    assert!(try_fetch_via_mpt3ctl(Ok(()), Ok(4), &[0; 64]).is_err());
}

#[test]
fn a_bound_adapter_is_not_mapped() {
    let (s, a) = try_fetch_mpi_fields(
        "0000:03:00.0",
        FetchState::Kernel,
        FetchEvent::Kernel(Err(Error::Other("x".to_string()))),
    );
    assert!(matches!(a, FetchAction::ReadDriver));
    let (_, a) = try_fetch_mpi_fields(
        "0000:03:00.0",
        s,
        FetchEvent::Driver(Some("/sys/bus/pci/drivers/mpt3sas".to_string())),
    );
    assert!(matches!(a, FetchAction::Finish(Err(_))));
}

#[test]
fn an_unbound_adapter_is_asked_itself() {
    let b = "0000:03:00.0";
    let (s, a) = try_fetch_mpi_fields(b, FetchState::Driver, FetchEvent::Driver(None));
    assert!(matches!(a, FetchAction::Open));
    let (s, a) = try_fetch_mpi_fields(b, s, FetchEvent::Opened(Ok(())));
    assert!(matches!(a, FetchAction::AskFacts));
    let mut mock = MockIoc::new(Personality::It);
    let _ = mock.send_ioc_init(&init_request());
    let facts = mock.send_ioc_facts().unwrap();
    let (s, a) = try_fetch_mpi_fields(b, s, FetchEvent::Facts(Ok(facts)));
    assert!(matches!(a, FetchAction::AskPage(_)));
    let (_, a) = try_fetch_mpi_fields(
        b,
        s,
        FetchEvent::Page {
            reply: Err(MpiError::Io("x".to_string())),
            page: vec![0; 256],
        },
    );
    assert!(matches!(a, FetchAction::Finish(Ok(_))));
}

#[test]
fn the_page_of_the_manufacturer_names_the_board() {
    let mut mock = MockIoc::new(Personality::It);
    let _ = mock.send_ioc_init(&init_request());
    let mut facts = mock.send_ioc_facts().unwrap();
    let before = facts.board_name.clone();
    parse_mfg_page_0(&[0; 16], &mut facts);
    assert_eq!(facts.board_name, before);
}

#[test]
fn a_device_is_described() {
    let dev = PciDevice {
        bdf: "0000:03:00.0".to_string(),
        vendor_id: 0x1000,
        device_id: 0x0072,
        subsystem_vendor_id: 0x1028,
        subsystem_device_id: 0x1f1d,
    };
    let lines = describe_device(1, "Dell PERC H200 Adapter", &dev, true, true);
    assert!(lines.iter().any(|l| l.contains("0000:03:00.0")));
    assert!(lines.iter().any(|l| l.contains("Dell PERC H200 Adapter")));
    let plain = describe_device(1, "x", &dev, true, false);
    assert_eq!(plain.len() < lines.len(), true);
}
