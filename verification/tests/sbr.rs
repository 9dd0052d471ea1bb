use lsi_flash::card_database::{CardEntry, CardInfo, ChipFamily, Personality};
use lsi_flash::cli::sbr::{
    admit_write, print_sbr_summary, read_line, run_build, run_selftest, run_show, run_verify,
    run_write, SbrVerdict, SbrWriting,
};
use lsi_flash::digest::sha256_hex;
use lsi_flash::sbr::{parse_sbr, SbrError};

fn seal(b: &mut [u8; 256]) {
    let sum: u16 = b[0..75].iter().map(|&x| x as u16).sum();
    b[75] = (0x5b_u16.wrapping_sub(sum) & 0xff) as u8;
    let mid_point = 0x4c;
    for i in 0..mid_point {
        b[mid_point + i] = b[i];
    }
    let wwid_sum: u16 = b[216..239].iter().map(|&x| x as u16).sum();
    b[239] = (0x5b_u16.wrapping_sub(wwid_sum) & 0xff) as u8;
}

fn sound() -> [u8; 256] {
    let mut b = [0u8; 256];
    b[12..14].copy_from_slice(&0x1000u16.to_le_bytes());
    b[14..16].copy_from_slice(&0x0072u16.to_le_bytes());
    b[20..22].copy_from_slice(&0x1028u16.to_le_bytes());
    b[22..24].copy_from_slice(&0x1f1du16.to_le_bytes());
    b[216..224].copy_from_slice(&0x500605b0_01234567u64.to_be_bytes());
    seal(&mut b);
    b
}

fn board() -> CardInfo {
    CardEntry {
        display: "Dell PERC H200 Adapter".to_string(),
        vid: 0x1000,
        did: 0x0072,
        subsys_vid: 0x1028,
        subsys_pid: 0x1f1d,
        chip_family: ChipFamily::Sas2008,
        default_personality: Personality::IR,
        sas_oui: 0x500605,
        interface_byte: 0,
        factory_firmware: None,
        compatible_firmware: Vec::new(),
        quirks: vec!["dell-tamper-check".to_string()],
        form_factor: None,
        confirmed_via: Some("lspci".to_string()),
        notes: None,
    }
    .into_card_info("dell-h200-adapter".to_string())
}

#[test]
fn test_read_sbr_canned_bytes_write_to_file() {
    let mut canned_sbr = [0u8; 256];

    canned_sbr[0..4].copy_from_slice(&0x6122f661u32.to_le_bytes());
    canned_sbr[4..8].copy_from_slice(&0xb34f36f7u32.to_le_bytes());
    canned_sbr[8..12].copy_from_slice(&0x91d700f8u32.to_le_bytes());

    canned_sbr[12..14].copy_from_slice(&0x1000u16.to_le_bytes());
    canned_sbr[14..16].copy_from_slice(&0x0072u16.to_le_bytes());

    let mut mfg_sum: u16 = 0;
    for &b in &canned_sbr[0..75] {
        mfg_sum += b as u16;
    }
    let checksum = 0x5b_u16.wrapping_sub(mfg_sum) & 0xff;
    canned_sbr[75] = checksum as u8;

    let mid_point = 0x4c;
    for i in 0..mid_point {
        canned_sbr[mid_point + i] = canned_sbr[i];
    }

    let dup_sum: u16 = canned_sbr[mid_point..mid_point + 75]
        .iter()
        .map(|&b| b as u16)
        .sum();
    canned_sbr[mid_point + 75] = (0x5b_u16.wrapping_sub(dup_sum) & 0xff) as u8;

    let parsed = parse_sbr(&canned_sbr).unwrap();

    assert_eq!(parsed.mfg.pcivid, 0x1000);
    assert_eq!(parsed.mfg.pcipid, 0x0072);
    assert!(parsed.checksum_valid);

    let sha256_hex = sha256_hex(&canned_sbr);
    assert_eq!(sha256_hex.len(), 64);
}

#[test]
fn test_read_sbr_json_output_decodes_correctly() {
    let mut canned_sbr = [0u8; 256];

    canned_sbr[0..4].copy_from_slice(&0x6122f661u32.to_le_bytes());
    canned_sbr[4..8].copy_from_slice(&0xb34f36f7u32.to_le_bytes());
    canned_sbr[8..12].copy_from_slice(&0x91d700f8u32.to_le_bytes());
    canned_sbr[12..14].copy_from_slice(&0x1000u16.to_le_bytes());
    canned_sbr[14..16].copy_from_slice(&0x0072u16.to_le_bytes());

    canned_sbr[20..22].copy_from_slice(&0x1028u16.to_le_bytes());
    canned_sbr[22..24].copy_from_slice(&0x1f1cu16.to_le_bytes());

    canned_sbr[64] = 0x00;
    canned_sbr[65] = 0x0c;

    let mut mfg_sum: u16 = 0;
    for &b in &canned_sbr[0..75] {
        mfg_sum += b as u16;
    }
    canned_sbr[75] = (0x5b_u16.wrapping_sub(mfg_sum) & 0xff) as u8;

    let mid_point = 0x4c;
    for i in 0..mid_point {
        canned_sbr[mid_point + i] = canned_sbr[i];
    }
    let dup_sum: u16 = canned_sbr[mid_point..mid_point + 75]
        .iter()
        .map(|&b| b as u16)
        .sum();
    canned_sbr[mid_point + 75] = (0x5b_u16.wrapping_sub(dup_sum) & 0xff) as u8;

    let sas_addr: u64 = 0x0014380b00000001;
    canned_sbr[216..224].copy_from_slice(&sas_addr.to_be_bytes());

    let wwid_sum: u16 = canned_sbr[216..239].iter().map(|&b| b as u16).sum();
    canned_sbr[239] = (0x5b_u16.wrapping_sub(wwid_sum) & 0xff) as u8;

    let parsed = parse_sbr(&canned_sbr).unwrap();

    assert_eq!(parsed.mfg.pcivid, 0x1000);
    assert_eq!(parsed.mfg.subsys_vid, 0x1028);
    assert_eq!(parsed.sas_addr, Some(sas_addr));
    assert!(parsed.checksum_valid);
    assert!(parsed.mfg_duplicate_valid);
    assert!(parsed.wwid_checksum_valid);
}

#[test]
fn a_record_has_256_bytes() {
    assert_eq!(parse_sbr(&[0; 255]), Err(SbrError::Length(255)));
    assert_eq!(
        SbrError::Length(255).text(),
        "SBR must be 256 bytes, got 255"
    );
    assert!(run_show(&[0; 1], &[]).is_err());
    assert_eq!(parse_sbr(&[0; 256]).unwrap().sas_addr, None);
}

#[test]
fn the_summary_names_the_board() {
    let b = sound();
    let cards = vec![board()];
    let (s, card) = run_show(&b, &cards).unwrap();
    let lines = print_sbr_summary("x.sbr", &s, card, "[DellTamperCheck]");
    assert_eq!(
        lines,
        vec![
            "SBR file:    x.sbr",
            "Size:        256 bytes",
            "",
            "PCI VID:DID       0x1000:0x0072",
            "Subsystem ID      0x1028:0x1f1d",
            "Identity          Dell PERC H200 Adapter [dell-h200-adapter]",
            "Quirks            [DellTamperCheck]",
            "Confirmed via     lspci",
            "Interface byte    0x00 (IT/IR (host bus adapter))",
            "SAS WWN           0x500605b001234567",
            "",
            "Checksums:",
            "  MFG block       OK",
            "  MFG duplicate   OK",
            "  WWID            OK",
        ]
    );
    let (s, none) = run_show(&[0; 256], &cards).unwrap();
    let lines = print_sbr_summary("x.sbr", &s, none, "");
    assert_eq!(
        lines[5],
        "Identity          <unknown — not in embedded strict database>"
    );
    assert_eq!(lines[7], "SAS WWN           <all zeros — uninitialized>");
    assert_eq!(lines[10], "  MFG block       INVALID");
}

#[test]
fn a_sound_record_passes_and_faults_are_listed() {
    match run_verify("x", &sound()) {
        SbrVerdict::Sound(t) => {
            assert_eq!(t, "OK: x passes all structural and checksum checks")
        }
        _ => panic!("expected a sound record"),
    }
    match run_verify("x", &[0; 256]) {
        SbrVerdict::Faulty { lines, status } => {
            assert_eq!(status, 1);
            assert_eq!(lines.len(), 6);
            assert_eq!(
                lines[3],
                "FAIL: PCI VendorID is 0x0000, expected 0x1000 (LSI)"
            );
            assert_eq!(lines[5], "\n5 check(s) failed");
        }
        _ => panic!("expected faults"),
    }
    match run_verify("x", &[0; 3]) {
        SbrVerdict::Faulty { lines, status } => {
            assert_eq!(status, 2);
            assert_eq!(lines, vec!["FAIL: x is 3 bytes (expected 256)"]);
        }
        _ => panic!("expected faults"),
    }
}

#[test]
fn a_record_is_written_only_with_consent() {
    let b = sound();
    assert!(admit_write(&b, true).is_ok());
    let e = admit_write(&b, false).unwrap_err();
    assert!(e.text().contains(&sha256_hex(&b)));
    let e = admit_write(&b[1..], true).unwrap_err();
    assert_eq!(
        e.text(),
        "Unexpected error: SBR file must be exactly 256 bytes, got 255"
    );
    let t = run_write("b", &b, &SbrWriting::Written).unwrap();
    assert!(t.starts_with("SBR written (256 bytes, SHA256="));
    let e = run_write("b", &b, &SbrWriting::Failed("x".to_string())).unwrap_err();
    assert_eq!(e.text(), "Unexpected error: card.sbr_write: x");
    let e = run_write("b", &b, &SbrWriting::NotFound("x".to_string())).unwrap_err();
    assert_eq!(e.text(), "Unexpected error: discover_one(b): x");
    assert_eq!(read_line(&b), format!("SBR SHA256: {}", sha256_hex(&b)));
}

#[test]
fn the_selftest_compares() {
    assert!(run_selftest(&[1, 2], &[1, 2]).is_ok());
    let e = run_selftest(&[1, 2], &[1, 3]).unwrap_err();
    assert_eq!(
        e.text(),
        "Unexpected error: FAIL: SBR changed across idempotent write! Restore from backup."
    );
}

#[test]
fn a_board_is_found_by_its_key() {
    let cards = vec![board()];
    let t = run_build(&cards, "dell-h200-adapter").unwrap();
    assert!(t.contains("Found identity: Dell PERC H200 Adapter (dell-h200-adapter)\nPCI:            0x1000:0x0072\nSubsystem:      0x1028:0x1f1d\nPersonality:    IR\nInterface byte: 0x00\n"));
    let lines = run_build(&cards, "none").unwrap_err();
    assert_eq!(
        lines,
        vec![
            "Unknown identity slug: none",
            "\nKnown identities:",
            "  dell-h200-adapter               Dell PERC H200 Adapter",
        ]
    );
}
