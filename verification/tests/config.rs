use lsi_flash::cli::config::{
    ext_page_type_from_str, format_hexdump, page_type_from_str, page_type_name, read_begin,
    read_config_page, run, ConfigDumpArgs, ConfigPageRead, ConfigReadArgs, ConfigSubCommand,
    PageHeader, PageQuery, PageReadAction, PageReply,
};
use lsi_flash::mpi::messages::ConfigRequest;

fn canned(page_type: u8, page_number: u8, version: u8, length: u8) -> Vec<u8> {
    let mut buf = vec![0u8; 256];
    buf[3] = 0x04;
    buf[20] = version;
    buf[21] = length;
    buf[22] = page_number;
    buf[23] = page_type;
    buf
}

fn read_page(q: &PageQuery, reply: &[u8]) -> Result<ConfigPageRead, String> {
    let (mut state, mut action) = read_begin(q);
    loop {
        let buffer = match action {
            PageReadAction::Finish(r) => return r,
            PageReadAction::Send {
                buffer, sge_words, ..
            } => {
                assert_eq!(sge_words, 7);
                buffer
            }
        };
        let event = PageReply {
            sent: Ok(()),
            reply: reply.to_vec(),
            page: vec![0xAA; buffer],
        };
        let next = read_config_page(q, state, event);
        state = next.0;
        action = next.1;
    }
}

fn query(page_type: u8, page_number: u8) -> PageQuery {
    PageQuery {
        page_type,
        page_number,
        ext_page_type: None,
        page_address: 0,
    }
}

fn args(page_type: &str, page_address: &str) -> ConfigSubCommand {
    ConfigSubCommand::Read(ConfigReadArgs {
        page_type: page_type.to_string(),
        page_number: 5,
        ext_page_type: None,
        page_address: page_address.to_string(),
        json: false,
    })
}

#[test]
fn test_page_type_from_str() {
    assert_eq!(page_type_from_str("manufacturing").unwrap(), 0x09);
    assert_eq!(page_type_from_str("io-unit").unwrap(), 0x00);
    assert_eq!(page_type_from_str("ioc").unwrap(), 0x01);
    assert_eq!(page_type_from_str("bios").unwrap(), 0x02);
    assert_eq!(page_type_from_str("raid-volume").unwrap(), 0x08);
    assert_eq!(page_type_from_str("raid-phys-disk").unwrap(), 0x0A);
    assert_eq!(page_type_from_str("extended").unwrap(), 0x0F);

    assert_eq!(page_type_from_str("0x09").unwrap(), 0x09);
    assert_eq!(page_type_from_str("0x0A").unwrap(), 0x0A);

    assert!(page_type_from_str("invalid").is_err());
}

#[test]
fn test_ext_page_type_from_str() {
    assert_eq!(ext_page_type_from_str("sas-io-unit").unwrap(), 0x10);
    assert_eq!(ext_page_type_from_str("sas-device").unwrap(), 0x12);
    assert_eq!(ext_page_type_from_str("sas-phy").unwrap(), 0x13);
    assert_eq!(ext_page_type_from_str("flash-layout").unwrap(), 0x14);

    assert_eq!(ext_page_type_from_str("0x10").unwrap(), 0x10);

    assert!(ext_page_type_from_str("invalid").is_err());
}

#[test]
fn test_page_header_parse() {
    let bytes = [0x03, 0x10, 0x05, 0x09];
    let hdr = PageHeader::parse(&bytes);
    assert_eq!(hdr.version, 0x03);
    assert_eq!(hdr.length, 0x10);
    assert_eq!(hdr.number, 0x05);
    assert_eq!(hdr.type_, 0x09);
}

#[test]
fn test_mock_read_config_page() {
    let result = read_page(&query(0x09, 0x05), &canned(0x09, 0x05, 0x03, 0x10)).unwrap();

    assert_eq!(result.page_type, 0x09);
    assert_eq!(result.page_number, 0x05);
    assert_eq!(result.page_version, Some(0x03));
    assert_eq!(result.page_length, Some(0x10));

    let expected_len = 0x10 * 4;
    assert_eq!(result.bytes_hex.len(), expected_len * 2);
    assert_eq!(result.bytes_hex, "aa".repeat(64));
}

#[test]
fn test_mock_read_invalid_page() {
    let mut reply = canned(0x09, 0xFF, 0x00, 0x00);
    reply[14] = 0x22;
    reply[15] = 0x00;

    let result = read_page(&query(0x09, 0xFF), &reply);

    assert!(result.is_err());
    assert!(result.unwrap_err().contains("IOCStatus"));
}

#[test]
fn a_page_that_cannot_be_sent_for_is_an_error() {
    let q = query(0x09, 0);
    let (state, _) = read_begin(&q);
    let (_, action) = read_config_page(
        &q,
        state,
        PageReply {
            sent: Err("timeout".to_string()),
            reply: Vec::new(),
            page: Vec::new(),
        },
    );
    match action {
        PageReadAction::Finish(Err(e)) => assert_eq!(e, "send PAGE_HEADER failed: timeout"),
        _ => panic!("expected an error"),
    }
    let e = read_page(&q, &canned(0x09, 0, 1, 0)).unwrap_err();
    assert_eq!(e, "PageLength=0 from firmware");
}

#[test]
fn the_arguments_name_a_page() {
    let q = run(&args("Manufacturing", "0x10001234")).unwrap();
    assert_eq!(q.page_type, 0x09);
    assert_eq!(q.page_number, 5);
    assert_eq!(q.page_address, 0x1000_1234);
    assert!(run(&args("nothing", "0")).is_err());
    assert!(run(&args("ioc", "0xzz")).is_err());
    let e = run(&ConfigSubCommand::Dump(ConfigDumpArgs { json: false })).unwrap_err();
    assert_eq!(e.text(), "Unexpected error: config dump not yet implemented");
    assert_eq!(page_type_name(0x09), "Manufacturing");
    assert_eq!(page_type_name(0x55), "Unknown");
}

#[test]
fn a_page_is_shown_in_rows() {
    let page = ConfigPageRead {
        page_type: 0x09,
        page_number: 0,
        page_version: Some(1),
        page_length: Some(5),
        ext_page_type: None,
        bytes_hex: "41".repeat(20),
    };
    let row = "41".repeat(16);
    assert_eq!(
        format_hexdump(&page),
        format!(
            "Page Manufacturing#0 v=1 len=5 words (20 bytes)\n  0000: {}\n  0010: 41414141\n",
            row
        )
    );
    let bare = ConfigPageRead {
        page_type: 0x01,
        page_number: 2,
        page_version: None,
        page_length: None,
        ext_page_type: None,
        bytes_hex: "not hexadecimal".to_string(),
    };
    assert_eq!(format_hexdump(&bare), "Page IOC#2\n");
}

#[test]
fn test_config_request_page_address_zero() {
    let req = ConfigRequest {
        action: 0x01,
        sgl_flags: 0xC0,
        page_type: 0x09,
        page_number: 0x00,
        ext_page_type: None,
        payload_buffer: vec![0u8; 256],
        page_address: 0x0000_0000,
    };

    let wire = req.serialize_to(1);

    assert_eq!(wire[0x17], 0x09, "PageType should be manufacturing (0x09)");

    let page_addr = u32::from_le_bytes([wire[0x18], wire[0x19], wire[0x1A], wire[0x1B]]);
    assert_eq!(page_addr, 0x0000_0000, "PageAddress must be 0 for plain pages");
}

#[test]
fn test_config_request_page_address_nonzero() {
    let handle = 0x1234;
    let page_address = 0x1000_0000 | (handle & 0xFFFF);

    let req = ConfigRequest {
        action: 0x01,
        sgl_flags: 0xC0,
        page_type: 0x08,
        page_number: 0x00,
        ext_page_type: None,
        payload_buffer: vec![0u8; 256],
        page_address,
    };

    let wire = req.serialize_to(1);

    let page_addr = u32::from_le_bytes([wire[0x18], wire[0x19], wire[0x1A], wire[0x1B]]);

    assert_eq!(page_addr, 0x1000_1234, "PageAddress should encode HANDLE form");
}
