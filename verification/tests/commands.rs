use lsi_flash::cli::erase::{
    admit_erase, announce, clean_flags, read_report, EraseOutcome, EraseReport,
};
use lsi_flash::cli::fw::{
    fw_banner, judge_image, run_read, run_write, FwReadAction, FwReadEvent, FwReadState,
    FwWriteAction, FwWriteEvent, FwWriteState,
};
use lsi_flash::cli::region::{
    judge_readback, RegionAction, RegionCommand, RegionEvent, RegionReadArgs, RegionReading,
    RegionWriteArgs, RegionWriteState,
};
use lsi_flash::cli::sbr::SbrCommand;
use lsi_flash::cli::{
    chip_read_line, chip_scan_line, chip_word_line, chip_write_line, dcr_line, dcr_scan_line, run,
    synthesized_line, ChipSource, Cli, Command, DebugCommand, FirmwareCommand, FwCommand,
    FwReadArgs, Job, Mode,
};
use lsi_flash::cli::{erase, region};
use lsi_flash::error::Error;
use lsi_flash::mpi::messages::ImageType;

const SHA_ABC: &str = "ba7816bf8f01cfea414140de5dae2223b00361a396177a9cb410ff61f20015ad";

fn cli(command: Command) -> Cli {
    Cli {
        command,
        json: false,
        pci: Some("0000:03:00.0".to_string()),
    }
}

fn here() -> Result<String, String> {
    Ok("0000:03:00.0".to_string())
}

fn nowhere() -> Result<String, String> {
    Err("no card".to_string())
}

fn other(r: Result<Job, Error>) -> String {
    match r {
        Err(Error::Other(t)) => t,
        _ => panic!("expected an error with words of its own"),
    }
}

fn chip_write(value: Option<&str>, input: Option<&str>, yes: bool) -> Cli {
    cli(Command::Debug {
        sub: DebugCommand::ChipWrite {
            addr: "0xFC200000".to_string(),
            value: value.map(|v| v.to_string()),
            input: input.map(|v| v.to_string()),
            yes,
        },
    })
}

#[test]
fn commands_without_an_adapter_need_none() {
    let j = run(cli(Command::Detect { bdf_only: true }), nowhere()).unwrap();
    assert!(matches!(j, Job::Detect { json: false, bdf_only: true }));
    let j = run(cli(Command::Backup { out: None }), nowhere()).unwrap();
    assert!(matches!(j, Job::Backup { pci: Some(_), .. }));
    let j = run(
        cli(Command::Firmware {
            sub: FirmwareCommand::ReversePhy {
                input: "a".to_string(),
                output: "b".to_string(),
            },
        }),
        nowhere(),
    )
    .unwrap();
    assert!(matches!(j, Job::ReversePhy { explain: true, .. }));
    let j = run(
        cli(Command::Sbr {
            sub: SbrCommand::Show {
                file: "f".to_string(),
            },
        }),
        nowhere(),
    )
    .unwrap();
    assert!(matches!(j, Job::Sbr { sub: SbrCommand::Show { .. } }));
    let j = run(
        cli(Command::Flash {
            mode: Mode::HBA,
            identity: None,
            dry_run: true,
            yes: false,
            keep_sas_address: true,
            firmware: None,
            no_bios: false,
            backup_dir: None,
            wipe_mfg_pages: false,
        }),
        nowhere(),
    )
    .unwrap();
    assert!(matches!(
        j,
        Job::Flash { mode: Mode::HBA, dry_run: true, .. }
    ));
    let j = run(
        cli(Command::Restore {
            backup_dir: "d".to_string(),
            yes: true,
            dry_run: false,
        }),
        nowhere(),
    )
    .unwrap();
    assert!(matches!(j, Job::Restore { yes: true, .. }));
}

#[test]
fn commands_on_an_adapter_need_one() {
    let read = || Command::Fw {
        sub: FwCommand::Read(FwReadArgs {
            out: None,
            running: true,
        }),
    };
    assert_eq!(other(run(cli(read()), nowhere())), "no card");
    let j = run(cli(read()), here()).unwrap();
    assert!(matches!(j, Job::FwRead { bdf, running: true, .. } if bdf == "0000:03:00.0"));
    let bios = Command::Bios {
        sub: RegionCommand::Read(RegionReadArgs { out: None }),
    };
    assert!(matches!(
        run(cli(bios), here()),
        Ok(Job::RegionRead { image_type: ImageType::Bios, .. })
    ));
    let nvdata = Command::Nvdata {
        sub: RegionCommand::Write(RegionWriteArgs {
            from_file: "f".to_string(),
            yes: false,
        }),
    };
    assert!(matches!(
        run(cli(nvdata), here()),
        Ok(Job::RegionWrite { image_type: ImageType::FlashLayout, yes: false, .. })
    ));
}

#[test]
fn chip_addresses_are_hexadecimal() {
    let read = |addr: &str| {
        run(
            cli(Command::Debug {
                sub: DebugCommand::ChipRead {
                    addr: addr.to_string(),
                    len: 4,
                    out: None,
                },
            }),
            here(),
        )
    };
    assert!(matches!(read("0xC2100000"), Ok(Job::ChipRead { addr: 0xC210_0000, .. })));
    assert!(matches!(read("0x0x10"), Ok(Job::ChipRead { addr: 0x10, .. })));
    assert!(matches!(read("10"), Ok(Job::ChipRead { addr: 0x10, .. })));
    assert_eq!(
        other(read("0x")),
        "bad --addr 0x: cannot parse integer from empty string"
    );
    assert_eq!(
        other(read("zz")),
        "bad --addr zz: invalid digit found in string"
    );
    assert_eq!(
        other(read("0x100000000")),
        "bad --addr 0x100000000: number too large to fit in target type"
    );
}

#[test]
fn scans_take_decimal_numbers_too() {
    let scan = |addr: &str, stride: &str| {
        run(
            cli(Command::Debug {
                sub: DebugCommand::ChipScan {
                    addr: addr.to_string(),
                    stride: stride.to_string(),
                    count: 2,
                },
            }),
            here(),
        )
    };
    assert!(matches!(
        scan("0xC2000000", "0x10000"),
        Ok(Job::ChipScan { base: 0xC200_0000, stride: 0x10000, count: 2, .. })
    ));
    assert_eq!(other(scan("", "1")), "bad --addr: cannot parse integer from empty string");
    assert_eq!(other(scan("1", "g")), "bad --stride: invalid digit found in string");
    let dcr = run(
        cli(Command::Debug {
            sub: DebugCommand::DcrScan {
                addr: "0x300".to_string(),
                count: 1,
            },
        }),
        here(),
    );
    assert!(matches!(dcr, Ok(Job::DcrScan { base: 0x300, count: 1, .. })));
}

#[test]
fn a_chip_is_written_only_with_consent_and_one_source() {
    assert_eq!(
        other(run(chip_write(Some("0x12345678"), None, false), here())),
        "refusing chip write without --yes (DESTRUCTIVE)"
    );
    assert_eq!(
        other(run(chip_write(None, None, true), here())),
        "specify exactly one of --value or --in"
    );
    assert_eq!(
        other(run(chip_write(Some("1"), Some("f"), true), here())),
        "specify exactly one of --value or --in"
    );
    assert_eq!(
        other(run(chip_write(Some("x"), None, true), here())),
        "bad --value x: invalid digit found in string"
    );
    assert_eq!(other(run(chip_write(Some("1"), None, true), nowhere())), "no card");
    match run(chip_write(Some("0x12345678"), None, true), here()) {
        Ok(Job::ChipWrite {
            addr,
            source: ChipSource::Bytes(b),
            ..
        }) => {
            assert_eq!(addr, 0xFC20_0000);
            assert_eq!(b, vec![0x78, 0x56, 0x34, 0x12]);
        }
        _ => panic!("expected a write of one word"),
    }
    assert!(matches!(
        run(chip_write(None, Some("f"), true), here()),
        Ok(Job::ChipWrite { source: ChipSource::File(_), .. })
    ));
}

#[test]
fn lines_of_the_debug_commands() {
    assert_eq!(
        chip_read_line(0xC2100000, b"abc"),
        format!("chipread @0xc2100000: 3 bytes, sha256={}", SHA_ABC)
    );
    assert_eq!(
        chip_scan_line(0x10, 0x10000, 256),
        "chip-scan base=0x00000010 stride=0x10000 count=256 (last printed addr = any hang)"
    );
    assert_eq!(chip_word_line(1, 2), "0x00000001 : 0x00000002");
    assert_eq!(chip_write_line(0xABC, 4), "chip-write @0x00000abc: 4 bytes written");
    assert_eq!(dcr_scan_line(0x300, 3), "dcr-scan base=0x300 count=3");
    assert_eq!(dcr_line(0x307, 0xFF), "DCR 0x0307 : 0x000000ff");
    assert_eq!(synthesized_line(12, "out", false), "synthesized 12 bytes → out");
    assert_eq!(
        synthesized_line(12, "out", true),
        "synthesized 12 bytes → out (PhyData permuted, file checksum recomputed)"
    );
}

#[test]
fn an_erase_reply_is_read_whatever_its_status() {
    assert_eq!(clean_flags(false).bits(), 0x0000_0004);
    assert_eq!(clean_flags(true).bits(), 0x4000_0004);
    let mut reply = vec![0u8; 0x14];
    reply[0x0E] = 0x04;
    reply[0x10] = 0x21;
    reply[0x13] = 0x31;
    let p = read_report(4, &reply).unwrap();
    assert_eq!(p.flags_sent, 4);
    assert_eq!(p.ioc_status, 4);
    assert!(!p.success);
    assert_eq!(p.ioc_log_info, 0x3100_0021);
    assert_eq!(p.raw_reply_hex, "0000000000000000000000000000040021000031");
    assert!(read_report(4, &vec![0u8; 0x14]).unwrap().success);
    assert!(read_report(4, &vec![0u8; 0x13]).is_none());
}

#[test]
fn an_erase_needs_consent_and_is_reported() {
    assert!(admit_erase(true).is_ok());
    assert!(matches!(admit_erase(false), Err(Error::Other(t)) if t.starts_with("Refusing to send TOOLBOX_CLEAN")));
    assert_eq!(
        announce(true, "b"),
        "Sending raw TOOLBOX_CLEAN (CLEAN_FLASH | PERSIST_MANUFACT_PAGES) to b — capturing firmware reply…"
    );
    let report = EraseReport {
        flags_sent: 4,
        ioc_status: 0x8003,
        success: false,
        ioc_log_info: 0x31,
        raw_reply_hex: "00ff".to_string(),
    };
    let json = erase::run("b", true, &EraseOutcome::Answered(report.clone())).unwrap();
    assert_eq!(
        json,
        vec!["{\"flags_sent\":\"0x00000004\",\"ioc_status\":\"0x8003\",\"success\":false,\"ioc_log_info\":\"0x00000031\",\"raw_reply_hex\":\"00ff\"}"]
    );
    let lines = erase::run("b", false, &EraseOutcome::Answered(report)).unwrap();
    assert_eq!(lines.len(), 6);
    assert_eq!(lines[2], "  IOCStatus:    0x8003");
    assert!(lines[5].starts_with("  => REJECTED"));
    let e = erase::run("b", false, &EraseOutcome::NotFound("x".to_string())).unwrap_err();
    assert_eq!(e.text(), "Unexpected error: discover_one(b): x");
    let e = erase::run("b", false, &EraseOutcome::Failed("x".to_string())).unwrap_err();
    assert_eq!(e.text(), "Unexpected error: erase_flash: x");
}

#[test]
fn the_banner_ends_at_a_zero_or_a_space() {
    assert_eq!(
        fw_banner(b"..MPTFW-20.00.07.00-IE\0rest").as_deref(),
        Some("MPTFW-20.00.07.00-IE")
    );
    assert_eq!(fw_banner(b"MPTFW-1 MPTFW-2").as_deref(), Some("MPTFW-1"));
    assert_eq!(fw_banner(b"xMPTFW-").as_deref(), Some("MPTFW-"));
    assert_eq!(fw_banner(b"MPTFW"), None);
    assert_eq!(fw_banner(b""), None);
    assert_eq!(fw_banner(b"MPTFW-\xFF\xFE MPTFW-2"), None);
    assert_eq!(fw_banner("MPTFW-é".as_bytes()).as_deref(), Some("MPTFW-é"));
}

#[test]
fn reading_firmware_falls_back_to_the_flash() {
    let (s, a) = run_read(FwReadState::Finding, true, FwReadEvent::Found(Ok(())));
    assert!(matches!(a, FwReadAction::Upload(0x00)));
    let (t, b) = run_read(s, true, FwReadEvent::Uploaded(Err("busy".to_string())));
    assert_eq!(t, FwReadState::ReadingBackdoor);
    assert!(matches!(b, FwReadAction::ReadBackdoor(t) if t.contains("IOC path failed (busy)")));
    let (t, a) = run_read(s, true, FwReadEvent::Uploaded(Ok(b"abc".to_vec())));
    assert_eq!(t, FwReadState::Ended);
    match a {
        FwReadAction::Deliver { report, data } => {
            assert_eq!(data, b"abc");
            assert_eq!(
                report,
                format!(
                    "fw read [running (FW_CURRENT 0x00)]: 3 bytes, sha256={}, banner=?, path=IOC (FW_UPLOAD)",
                    SHA_ABC
                )
            );
        }
        _ => panic!("expected data"),
    }
    let (s, a) = run_read(
        FwReadState::Finding,
        false,
        FwReadEvent::Found(Err("faulted".to_string())),
    );
    match a {
        FwReadAction::ReadBackdoor(t) => assert_eq!(
            t,
            "fw read [flash (FW_FLASH 0x01)]: IOC path failed (faulted), falling back to diag back-door"
        ),
        _ => panic!("expected the back door"),
    }
    let (_, a) = run_read(s, false, FwReadEvent::Read(Ok(b"MPTFW-1".to_vec())));
    match a {
        FwReadAction::Deliver { report, .. } => {
            assert!(report.ends_with("banner=MPTFW-1, path=diag back-door"))
        }
        _ => panic!("expected data"),
    }
    let (_, a) = run_read(s, false, FwReadEvent::Read(Err(Error::Other("x".to_string()))));
    assert!(matches!(a, FwReadAction::Fail(Error::Other(_))));
}

#[test]
fn firmware_that_fails_its_checks_is_not_written() {
    let step = |s: FwWriteState, e: FwWriteEvent| run_write(s, "f.bin", "b", true, e);
    let (_, a) = step(FwWriteState::Loading, FwWriteEvent::Loaded(Ok(Vec::new())));
    match a {
        FwWriteAction::Fail { error, .. } => {
            assert_eq!(error.text(), "Unexpected error: f.bin is empty")
        }
        _ => panic!("expected an error"),
    }
    let (_, a) = step(
        FwWriteState::Loading,
        FwWriteEvent::Loaded(Err("gone".to_string())),
    );
    match a {
        FwWriteAction::Fail { error, .. } => {
            assert_eq!(error.text(), "Unexpected error: read f.bin: gone")
        }
        _ => panic!("expected an error"),
    }
    let (s, a) = step(FwWriteState::Loading, FwWriteEvent::Loaded(Ok(vec![0; 64])));
    assert!(matches!(a, FwWriteAction::Discover));
    let (s, a) = step(s, FwWriteEvent::Found(Ok(())));
    assert!(matches!(a, FwWriteAction::ReadCurrent));
    let (s, a) = step(s, FwWriteEvent::Measured(Ok(vec![0; 64])));
    assert!(matches!(s, FwWriteState::Ended));
    match a {
        FwWriteAction::Fail { lines, error } => {
            assert_eq!(lines[1], "fw write — pre-flight validation");
            assert_eq!(lines[2], "  image: f.bin (64 bytes)");
            assert!(lines[4].starts_with("  [FAIL] well-formed  "));
            assert_eq!(lines.len(), 8);
            assert!(error
                .text()
                .starts_with("Unexpected error: refusing to flash — validation failed at 'well-formed': "));
        }
        _ => panic!("expected an error"),
    }
    let (lines, verdict) = judge_image("f.bin", "b", &[0; 64], &[0; 64]);
    assert_eq!(lines.len(), 8);
    assert!(verdict.is_err());
}

#[test]
fn the_user_is_asked_before_a_write() {
    let asked = || FwWriteState::Asking { image: vec![1, 2, 3] };
    for yes in ["y\n", "Y", " yes ", "YES\n"] {
        let (s, a) = run_write(
            asked(),
            "f",
            "b",
            false,
            FwWriteEvent::Answered(yes.to_string()),
        );
        assert!(matches!(s, FwWriteState::Writing { .. }));
        match a {
            FwWriteAction::Commit { intent, .. } => {
                assert_eq!(intent.bytes, vec![1, 2, 3]);
                assert_eq!(intent.label, "firmware");
            }
            _ => panic!("expected a write"),
        }
    }
    for no in ["", "n", "Yes", "yy"] {
        let (_, a) = run_write(
            asked(),
            "f",
            "b",
            false,
            FwWriteEvent::Answered(no.to_string()),
        );
        match a {
            FwWriteAction::Fail { error, .. } => {
                assert_eq!(error.text(), "Unexpected error: aborted by user")
            }
            _ => panic!("expected an error"),
        }
    }
    let (_, a) = run_write(
        FwWriteState::Writing { image: vec![1, 2, 3] },
        "f",
        "b",
        false,
        FwWriteEvent::Written(Ok(())),
    );
    match a {
        FwWriteAction::Finish(t) => assert_eq!(
            t,
            "fw write: OK (3 bytes) — guarded transaction verified ✓"
        ),
        _ => panic!("expected success"),
    }
    let (_, a) = run_write(
        FwWriteState::Measuring { image: vec![1] },
        "f",
        "b",
        false,
        FwWriteEvent::Measured(Err("x".to_string())),
    );
    match a {
        FwWriteAction::Fail { error, .. } => assert_eq!(
            error.text(),
            "Unexpected error: FW_UPLOAD (for fit check): x"
        ),
        _ => panic!("expected an error"),
    }
}

#[test]
fn reading_an_image_is_reported() {
    let t = region::run_read("b", "bios", &RegionReading::Data(b"abc".to_vec())).unwrap();
    assert_eq!(t, format!("bios read: 3 bytes, sha256={}", SHA_ABC));
    let e = region::run_read("b", "bios", &RegionReading::Failed("x".to_string())).unwrap_err();
    assert_eq!(e.text(), "Unexpected error: bios read: x");
    let e = region::run_read("b", "bios", &RegionReading::NotFound("x".to_string())).unwrap_err();
    assert_eq!(e.text(), "Unexpected error: discover_one(b): x");
}

#[test]
fn writing_an_image_goes_step_by_step() {
    let step = |s: RegionWriteState, yes: bool, e: RegionEvent| {
        region::run_write(s, "b", "nvdata", "f", yes, e)
    };
    let fails = |a: RegionAction| match a {
        RegionAction::Fail(t) => t,
        _ => panic!("expected an error"),
    };
    let loaded = || RegionEvent::Loaded(Ok(b"abc".to_vec()));
    let (_, a) = step(RegionWriteState::Loading, false, loaded());
    assert_eq!(
        fails(a),
        format!("Refusing destructive nvdata write without --yes (3 bytes, sha256={}).", SHA_ABC)
    );
    let (_, a) = step(RegionWriteState::Loading, true, RegionEvent::Loaded(Ok(Vec::new())));
    assert_eq!(fails(a), "f is empty");
    let (s, a) = step(RegionWriteState::Loading, true, loaded());
    assert!(matches!(a, RegionAction::Discover));
    let (s, a) = step(s, true, RegionEvent::Found(Ok(())));
    assert!(matches!(a, RegionAction::Send(d) if d == b"abc"));
    let (s, a) = step(s, true, RegionEvent::Sent(Ok(())));
    assert!(matches!(a, RegionAction::ReadBack));
    let (_, a) = step(s, true, RegionEvent::ReadBack(Ok(b"abcd".to_vec())));
    assert!(
        matches!(a, RegionAction::Finish(t) if t == "nvdata write: OK (3 bytes), read-back verified ✓")
    );
    let (_, a) = step(
        RegionWriteState::Sending { data: vec![1] },
        true,
        RegionEvent::Sent(Err("x".to_string())),
    );
    assert_eq!(fails(a), "nvdata write: x");
}

#[test]
fn a_read_back_that_differs_is_an_error() {
    match judge_readback("bios", b"abc", &Ok(b"abd".to_vec())) {
        RegionAction::Fail(t) => {
            assert!(t.starts_with(&format!("bios write: read-back MISMATCH (wrote {} got ", SHA_ABC)));
            assert!(t.ends_with(") — investigate before trusting"));
        }
        _ => panic!("expected an error"),
    }
    match judge_readback("bios", b"abc", &Err("x".to_string())) {
        RegionAction::Finish(t) => assert_eq!(
            t,
            "bios write: OK (3 bytes), but read-back verify failed: x (verify manually)"
        ),
        _ => panic!("expected a notice"),
    }
}

#[test]
fn a_faithful_read_back_passes_whatever_follows() {
    for back in [b"abc".to_vec(), b"abc\xFF\xFF".to_vec()] {
        match judge_readback("bios", b"abc", &Ok(back)) {
            RegionAction::Finish(t) => {
                assert_eq!(t, "bios write: OK (3 bytes), read-back verified ✓")
            }
            _ => panic!("expected success"),
        }
    }
}
