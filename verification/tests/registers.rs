use lsi_flash::bytes::{count_differing, push_u32, read_u16, read_u32};
use lsi_flash::hcb::{
    check_hugepages, enable_bus_mastering, hostboot, pagemap_offset, place_firmware,
    resolve_physical_address, setup_hcdw, show_window, verify_boot, BootAction, BootEvent, BootStage, HcbError,
    HCDW_SIZE,
};
use lsi_flash::hw::vfio::VfioBackend;
use lsi_flash::hw::{auto_detect, pci_sysfs_dir, HwError};
use lsi_flash::mpi::diag::{
    diag_read_chip, diag_write_chip, halt, halt_register, poll, reset, HaltStage, MpiError,
    ResetStage,
};
use lsi_flash::mpi::doorbell::{
    doorbell_handshake_send, get_ioc_state, lsi_unlock, wait_doorbell_consumed, wait_doorbell_int,
    IocState, MpiRegisterContext, PollVerdict, RegisterOp, ReplyReader,
};
use lsi_flash::text::{
    chars_of, dec_text, line_list, read_number, split_words, string_of, trimmed,
    NumberFault,
};

fn write(offset: u32, value: u32) -> RegisterOp {
    RegisterOp::Write { offset, value }
}

fn registers(a: BootAction) -> Vec<RegisterOp> {
    match a {
        BootAction::Registers(ops) => ops,
        _ => panic!("expected register accesses"),
    }
}

#[test]
fn a_request_goes_word_by_word() {
    let request = [1, 0, 0, 0, 2, 0, 0, 0, 3, 0, 0, 0];
    let ops = doorbell_handshake_send(0x42, &request, 0x1000_0000).unwrap();
    assert_eq!(
        ops,
        vec![
            write(0x30, 0),
            write(0x00, 0x4201_0000),
            RegisterOp::AwaitPosted,
            write(0x30, 0),
            RegisterOp::AwaitTaken,
            write(0x00, 1),
            RegisterOp::AwaitTaken,
            write(0x00, 2),
            RegisterOp::AwaitTaken,
            write(0x00, 3),
            RegisterOp::AwaitTaken,
        ]
    );
}

#[test]
fn a_request_that_cannot_be_sent_is_refused() {
    let send = |len: usize, db: u32| doorbell_handshake_send(0x42, &vec![0; len], db).unwrap_err();
    assert_eq!(send(9, 0), "doorbell_handshake_send: request not dword-aligned");
    assert_eq!(
        send(4, 0),
        "doorbell_handshake_send: request too small (< 2 dwords)"
    );
    assert_eq!(
        send(8, 0x0800_0000),
        "doorbell_handshake_send: doorbell already in use"
    );
    assert_eq!(
        send(8, 0x4000_0000),
        "doorbell_handshake_send: IOC fault before send"
    );
}

#[test]
fn a_reply_is_read_as_long_as_it_says() {
    let mut r = ReplyReader::new(64);
    let words: [u16; 6] = [0x1122, 0x0003, 0x5566, 0x7788, 0x99AA, 0xBBCC];
    let mut taken = 0;
    while r.wants_word() {
        r.accept(words[taken]).unwrap();
        taken += 1;
    }
    assert_eq!(taken, 6);
    let bytes = r.finish();
    assert_eq!(bytes[0..4], [0x22, 0x11, 0x03, 0x00]);
    assert_eq!(bytes.len(), 12);
}

#[test]
fn polls_end_with_a_word_or_a_fault() {
    assert_eq!(wait_doorbell_int(1, 0), PollVerdict::Done);
    assert_eq!(wait_doorbell_int(0, 0x4000_0000), PollVerdict::Fault);
    assert_eq!(wait_doorbell_int(0, 0), PollVerdict::Again);
    assert_eq!(wait_doorbell_consumed(0, 0), PollVerdict::Done);
    assert_eq!(
        wait_doorbell_consumed(0x8000_0000, 0x4000_0000),
        PollVerdict::Fault
    );
    assert_eq!(wait_doorbell_consumed(0x8000_0000, 0), PollVerdict::Again);
}

#[test]
fn the_doorbell_shows_the_state() {
    assert_eq!(get_ioc_state(0), IocState::Reset);
    assert_eq!(get_ioc_state(0x1000_0000), IocState::Ready);
    assert_eq!(get_ioc_state(0x2000_0000), IocState::Operational);
    assert_eq!(get_ioc_state(0x4000_0000), IocState::Fault);
    assert_eq!(get_ioc_state(0x5000_0000), IocState::Fault);
    assert_eq!(get_ioc_state(0x8000_0000), IocState::Reset);
}

#[test]
fn the_diagnostic_register_is_unlocked_by_a_sequence() {
    let values: Vec<RegisterOp> = [0x00, 0x04, 0x0b, 0x02, 0x07, 0x0d]
        .iter()
        .map(|&v| write(0x04, v))
        .collect();
    assert_eq!(lsi_unlock(0x04), values);
}

#[test]
fn a_halt_is_checked() {
    let ctx = MpiRegisterContext::mpt_mode();
    assert_eq!(halt_register(HaltStage::Start, &ctx), 0x08);
    assert_eq!(halt_register(HaltStage::Verify, &ctx), 0x00);
    let (ops, next) = halt(HaltStage::Start, &ctx, 0x80);
    assert_eq!(
        ops,
        vec![
            write(0x08, 0x280),
            write(0x08, 0x284),
            RegisterOp::Sleep { millis: 1000 },
        ]
    );
    assert!(matches!(next, Ok(Some(HaltStage::AfterReset))));
    let (ops, _) = halt(HaltStage::AfterReset, &ctx, 0x280);
    assert_eq!(ops, vec![write(0x08, 0x80)]);
    assert!(matches!(halt(HaltStage::Verify, &ctx, 0).1, Ok(None)));
    assert!(matches!(
        halt(HaltStage::Verify, &ctx, 0x1000_0000).1,
        Err(MpiError::IocNotHalted {
            doorbell: 0x1000_0000
        })
    ));
}

#[test]
fn a_reset_ends() {
    let ctx = MpiRegisterContext::mpt_mode();
    let mut stage = ResetStage::Start;
    let mut turns = 0;
    loop {
        turns += 1;
        assert!(turns < 300);
        match reset(stage, &ctx, 0).1 {
            Ok(Some(next)) => stage = next,
            Ok(None) => panic!("a controller that is not ready has not been reset"),
            Err(_) => break,
        }
    }
    assert!(turns > 200);
    let (ops, left) = poll(5, 0);
    assert_eq!(ops, vec![RegisterOp::Sleep { millis: 10 }]);
    assert_eq!(left, Some(4));
    assert_eq!(poll(5, 0x1000_0000).1, None);
}

#[test]
fn registers_inside_the_chip_need_the_unlocked_register() {
    let ctx = MpiRegisterContext::mpt_mode();
    assert!(matches!(
        diag_read_chip(&ctx, 0, 0x1234),
        Err(MpiError::DeviceNotWritable)
    ));
    assert_eq!(
        diag_read_chip(&ctx, 0x80, 0x1234).unwrap(),
        vec![write(0x18, 0), write(0x14, 0x1234)]
    );
    assert_eq!(
        diag_write_chip(&ctx, 0x80, 0x1234, 7).unwrap(),
        vec![write(0x18, 0), write(0x14, 0x1234), write(0x10, 7)]
    );
    let mr = MpiRegisterContext::megaraid_mode();
    assert_eq!(mr.diag_offset, 0xf8);
}

#[test]
fn firmware_stands_at_the_end_of_the_window() {
    let firmware = [1u8, 2, 3, 4];
    let w = place_firmware(&firmware);
    assert_eq!(w.len(), HCDW_SIZE);
    assert_eq!(w[HCDW_SIZE - 4..], firmware);
    assert_eq!(w[0..4], firmware);
    assert_eq!(w[4], 0x42);
    assert_eq!(pagemap_offset(0x7000), 7 * 8);
    assert_eq!(resolve_physical_address(0x8100_0000_0000_1234), 0x123_4000);
    assert_eq!(
        show_window(0x1_2345_6000),
        vec![
            write(0x78, 0x2345_6000),
            write(0x7c, 1),
            write(0x74, 0xffe0_0001),
        ]
    );
}

#[test]
fn a_boot_goes_step_by_step() {
    let ctx = MpiRegisterContext::mpt_mode();
    let (a, next) = hostboot(BootStage::Prepare, &ctx, BootEvent::Register(0x1A20));
    assert_eq!(registers(a), vec![write(0x08, 0x0400)]);
    assert_eq!(next, Some(BootStage::Load));
    let (a, next) = hostboot(
        BootStage::Load,
        &ctx,
        BootEvent::Firmware(Ok(vec![9; 16])),
    );
    assert!(matches!(a, BootAction::Fill(w) if w.len() == HCDW_SIZE && w[HCDW_SIZE - 1] == 9));
    assert_eq!(next, Some(BootStage::Expose));
    let (a, next) = hostboot(BootStage::Expose, &ctx, BootEvent::Filled);
    assert!(matches!(
        a,
        BootAction::Fail(HcbError::BusMasteringNotImplemented)
    ));
    assert_eq!(next, None);
}

#[test]
fn a_controller_that_sees_its_window_is_let_go() {
    let ctx = MpiRegisterContext::mpt_mode();
    let (a, next) = hostboot(BootStage::Resolve, &ctx, BootEvent::Window(Ok(0x1000)));
    assert_eq!(registers(a), show_window(0x1000));
    assert_eq!(next, Some(BootStage::Release));
    let (a, next) = hostboot(BootStage::Release, &ctx, BootEvent::Register(0x0002));
    assert_eq!(registers(a), vec![write(0x08, 0x0802), write(0x08, 0x0800)]);
    assert_eq!(next, Some(BootStage::Poll { left: 200 }));
    let (_, next) = hostboot(
        BootStage::Poll { left: 200 },
        &ctx,
        BootEvent::Register(0x1000_0000),
    );
    assert_eq!(next, Some(BootStage::Verify));
    let (a, next) = hostboot(BootStage::Verify, &ctx, BootEvent::Register(0x1000_0000));
    assert_eq!(registers(a), vec![RegisterOp::Sleep { millis: 500 }]);
    assert_eq!(next, None);
}

#[test]
fn a_boot_that_fails_says_why() {
    let ctx = MpiRegisterContext::mpt_mode();
    assert!(matches!(
        setup_hcdw(),
        Err(HcbError::BusMasteringNotImplemented)
    ));
    let (a, next) = hostboot(
        BootStage::Load,
        &ctx,
        BootEvent::Firmware(Err("gone".to_string())),
    );
    assert!(matches!(a, BootAction::Fail(HcbError::Io(t)) if t == "gone"));
    assert_eq!(next, None);
    let (a, next) = hostboot(
        BootStage::Resolve,
        &ctx,
        BootEvent::Window(Err(HcbError::PagemapReadFailed)),
    );
    assert!(matches!(a, BootAction::Fail(HcbError::PagemapReadFailed)));
    assert_eq!(next, None);
    let (a, _) = hostboot(BootStage::Verify, &ctx, BootEvent::Register(0x77));
    match a {
        BootAction::Fail(e) => assert_eq!(
            e.text(),
            "IOC did not become ready after boot (doorbell=0x00000077)"
        ),
        _ => panic!("expected an error"),
    }
    assert!(verify_boot(0x1000_0000).is_ok());
    assert!(enable_bus_mastering().is_err());
}

#[test]
fn large_pages_are_counted() {
    assert!(check_hugepages("16\n").is_ok());
    let e = check_hugepages(" 15 ").unwrap_err();
    assert_eq!(e.text(), "Insufficient hugepages (need 16, have 15)");
    let e = check_hugepages("x").unwrap_err();
    assert!(matches!(e, HcbError::Parse(NumberFault::Digit)));
}

#[test]
fn there_is_no_way_to_the_hardware_yet() {
    assert!(matches!(
        VfioBackend::open("b"),
        Err(HwError::NoBackend { .. })
    ));
    match auto_detect("b") {
        Err(HwError::NoBackend { tried }) => assert!(tried.contains("(open 'b')")),
        _ => panic!("expected an error"),
    }
    assert_eq!(pci_sysfs_dir("b"), "/sys/bus/pci/devices/b");
}

#[test]
fn words_lines_and_numbers() {
    let cs = chars_of(" a\u{a0}bc\td\n");
    let words: Vec<String> = split_words(&cs).iter().map(|w| string_of(w)).collect();
    assert_eq!(words, vec!["a", "bc", "d"]);
    let lines: Vec<String> = line_list(&chars_of("x\r\ny\n\nz\r"))
        .iter()
        .map(|w| string_of(w))
        .collect();
    assert_eq!(lines, vec!["x", "y", "", "z\r"]);
    assert_eq!(string_of(trimmed(&chars_of("\t q r \n"))), "q r");
    assert_eq!(dec_text(18446744073709551615), "18446744073709551615");
    assert_eq!(read_number(&chars_of("+12"), 10, 255), Ok(12));
    assert_eq!(read_number(&chars_of("-1"), 10, 255), Err(NumberFault::Digit));
    assert_eq!(read_number(&chars_of("+"), 10, 255), Err(NumberFault::Digit));
    assert_eq!(read_number(&chars_of(""), 10, 255), Err(NumberFault::Empty));
    assert_eq!(
        read_number(&chars_of("256"), 10, 255),
        Err(NumberFault::Overflow)
    );
    assert_eq!(read_number(&chars_of("fF"), 16, 255), Ok(255));
}

#[test]
fn numbers_in_bytes() {
    let mut v = Vec::new();
    push_u32(&mut v, 0x1234_5678);
    assert_eq!(v, vec![0x78, 0x56, 0x34, 0x12]);
    assert_eq!(read_u32(&v, 0), 0x1234_5678);
    assert_eq!(read_u16(&v, 1), 0x3456);
    assert_eq!(count_differing(&[1, 2, 3], &[1, 0, 0], 3), 2);
}
