//! The transaction around a write to the flash.

use lsi_flash::firmware::flash_layout::{
    read_firmware_backdoor, EXT_IMAGE_TYPE_FLASH_LAYOUT, REGION_BACKUP, REGION_FIRMWARE,
};
use lsi_flash::firmware::guard::{
    CommitAction, CommitEvent, CommitState, FlashImage, GuardError, GuardedFlash, Severity,
    WriteIntent, FLASH_SIZE,
};
use lsi_flash::firmware::synthesize::fix_file_checksum;
use lsi_flash::firmware::validate::{check_fit, validate_image};
use lsi_flash::mpi::messages::ImageType;

fn put(b: &mut [u8], at: usize, v: u32) {
    b[at..at + 4].copy_from_slice(&v.to_le_bytes());
}

fn layout(b: &mut [u8]) {
    put(b, 0x00, 0xEA00_0000);
    put(b, 0x04, 0x5AFA_A55A);
    put(b, 0x08, 0xA55A_FAA5);
    put(b, 0x0C, 0x5AA5_5AFA);
    put(b, 0x20, 0x2713_1000);
    put(b, 0x30, 0x100);
    b[0x100] = 0x05;
    put(b, 0x10C, 0x400);
    b[0x400] = EXT_IMAGE_TYPE_FLASH_LAYOUT;
    put(b, 0x404, 0x100);
    b[0x422] = 0x10;
    put(b, 0x424, 0x0002_0001);
    put(b, 0x430, 0x80_0000);
    b[0x440] = REGION_FIRMWARE;
    put(b, 0x444, 0x5A_0000);
    put(b, 0x448, 0x10_0000);
    b[0x450] = REGION_BACKUP;
    put(b, 0x454, 0x6E_0000);
    put(b, 0x458, 0x10_0000);
}

fn snapshot() -> Vec<u8> {
    let mut flash = vec![0u8; FLASH_SIZE];
    layout(&mut flash);
    for at in [0x5A_0000, 0x6E_0000] {
        let v = b"@(#)MPTFW-07.15.08.00-IE";
        flash[at + 0x68..at + 0x68 + v.len()].copy_from_slice(v);
    }
    flash
}

fn image() -> Vec<u8> {
    let mut b = vec![0u8; 0x1000];
    layout(&mut b);
    let v = b"@(#)MPTFW-07.15.08.00-IE";
    b[0x68..0x68 + v.len()].copy_from_slice(v);
    fix_file_checksum(&mut b);
    b
}

fn begun() -> GuardedFlash {
    let pending = GuardedFlash::begin("0000:03:00.0", "/tmp", Ok(snapshot())).unwrap();
    assert_eq!(pending.snapshot_path(), "/tmp/pre-write-snapshot-0000_03_00_0.bin");
    assert_eq!(pending.snapshot().len(), FLASH_SIZE);
    pending.saved(Ok(())).unwrap()
}

fn firmware(bytes: Vec<u8>) -> WriteIntent {
    WriteIntent { region: ImageType::Fw, bytes, label: "firmware".to_string() }
}

fn ended(a: CommitAction) -> Result<(), GuardError> {
    match a {
        CommitAction::Finish(r) => r,
        _ => panic!("the commit goes on"),
    }
}

fn checking(g: &GuardedFlash, intent: &WriteIntent) -> CommitState {
    let (s, a) = g.commit(intent, CommitState::Ready, CommitEvent::Start);
    match a {
        CommitAction::Write { region, bytes } => {
            assert_eq!(region, intent.region);
            assert_eq!(bytes, intent.bytes);
        }
        _ => panic!("nothing is written"),
    }
    let (s, a) = g.commit(intent, s, CommitEvent::Written(Ok(())));
    assert!(matches!(a, CommitAction::Read));
    s
}

#[test]
fn without_a_snapshot_there_is_no_transaction() {
    assert!(matches!(
        GuardedFlash::begin("b", "/tmp", Err("x".to_string())),
        Err(GuardError::SnapshotFailed(e)) if e == "x"
    ));
    match GuardedFlash::begin("b", "/tmp", Ok(vec![1, 2])) {
        Err(GuardError::SnapshotNotRestorable(e)) => {
            assert_eq!(e, "diag read returned 2 bytes, expected 8388608")
        }
        _ => panic!("a short snapshot is taken"),
    }
    let pending = GuardedFlash::begin("b", "/tmp", Ok(snapshot())).unwrap();
    assert!(matches!(
        pending.saved(Err("full".to_string())),
        Err(GuardError::SnapshotSaveFailed(e)) if e == "full"
    ));
}

#[test]
fn a_write_that_lands_is_accepted() {
    let g = begun();
    assert_eq!(g.bdf(), "0000:03:00.0");
    let intent = firmware(image());
    let s = checking(&g, &intent);
    let mut post = snapshot();
    post[0x5A_0000..0x5A_1000].copy_from_slice(&intent.bytes);
    let (s, a) = g.commit(&intent, s, CommitEvent::Flash(Ok(FlashImage::new(post))));
    assert!(matches!(s, CommitState::Closed));
    assert!(ended(a).is_ok());
}

#[test]
fn an_image_that_fails_its_checks_is_never_written() {
    let g = begun();
    let mut bad = image();
    bad[0x200] ^= 1;
    let (s, a) = g.commit(&firmware(bad), CommitState::Ready, CommitEvent::Start);
    assert!(matches!(s, CommitState::Closed));
    assert!(matches!(ended(a), Err(GuardError::InvalidImage(n)) if n == "checksum"));
}

#[test]
fn a_changed_boot_zone_ends_the_commit() {
    let g = begun();
    let intent = firmware(image());
    let s = checking(&g, &intent);
    let mut post = snapshot();
    post[0x5A_0000..0x5A_1000].copy_from_slice(&intent.bytes);
    post[0x54_0000] ^= 0xFF;
    let (_, a) = g.commit(&intent, s, CommitEvent::Flash(Ok(FlashImage::new(post))));
    match ended(a) {
        Err(GuardError::PostflightFailed { violations, worst, rolled_back, .. }) => {
            assert_eq!(violations[0].invariant, "BootCriticalUnchanged");
            assert_eq!(worst, Severity::Critical);
            assert!(!rolled_back);
        }
        _ => panic!("a changed boot zone passes"),
    }
}

#[test]
fn a_write_that_does_not_land_is_taken_back() {
    let g = begun();
    let intent = firmware(image());
    let s = checking(&g, &intent);
    let (s, a) = g.commit(&intent, s, CommitEvent::Flash(Ok(FlashImage::new(snapshot()))));
    match a {
        CommitAction::Write { region, bytes } => {
            assert_eq!(region, ImageType::Fw);
            assert_eq!(bytes, snapshot()[0x5A_0000..0x6A_0000].to_vec());
        }
        _ => panic!("nothing is taken back"),
    }
    let (s, a) = g.commit(&intent, s, CommitEvent::Written(Ok(())));
    assert!(matches!(a, CommitAction::Read));
    let (_, a) = g.commit(&intent, s, CommitEvent::Flash(Ok(FlashImage::new(snapshot()))));
    match ended(a) {
        Err(GuardError::PostflightFailed { violations, worst, rolled_back, .. }) => {
            assert_eq!(violations.len(), 1);
            assert_eq!(violations[0].invariant, "TargetReadbackMatches");
            assert_eq!(worst, Severity::Error);
            assert!(rolled_back);
        }
        _ => panic!("a write that did not land passes"),
    }
}

#[test]
fn a_failed_write_and_a_failed_read_end_the_commit() {
    let g = begun();
    let intent = firmware(image());
    let (s, _) = g.commit(&intent, CommitState::Ready, CommitEvent::Start);
    let (_, a) = g.commit(&intent, s, CommitEvent::Written(Err("w".to_string())));
    assert!(matches!(ended(a), Err(GuardError::WriteFailed(e)) if e == "w"));
    let s = checking(&g, &intent);
    let (_, a) = g.commit(&intent, s, CommitEvent::Flash(Err("r".to_string())));
    assert!(matches!(ended(a), Err(GuardError::PostReadFailed(e)) if e == "r"));
}

#[test]
fn a_write_without_a_single_region_is_judged_by_boot_zone_and_banks() {
    let g = begun();
    assert!(matches!(g.commit_with(CommitEvent::Written(Ok(()))), CommitAction::Read));
    assert!(matches!(
        ended(g.commit_with(CommitEvent::Written(Err("w".to_string())))),
        Err(GuardError::WriteFailed(_))
    ));
    let same = FlashImage::new(snapshot());
    assert!(ended(g.commit_with(CommitEvent::Flash(Ok(same)))).is_ok());
    let mut post = snapshot();
    post[0x6E_0000 + 0x72] = b'9';
    match ended(g.commit_with(CommitEvent::Flash(Ok(FlashImage::new(post))))) {
        Err(GuardError::PostflightFailed { violations, worst, rolled_back, .. }) => {
            assert_eq!(violations[0].invariant, "BanksConsistent");
            assert_eq!(worst, Severity::Critical);
            assert!(!rolled_back);
        }
        _ => panic!("copies that differ pass"),
    }
}

#[test]
fn the_firmware_is_found_past_the_adapter() {
    let data = read_firmware_backdoor(&snapshot()).unwrap();
    assert_eq!(data.len(), 0x10_0000);
    assert_eq!(&data[0x68..0x72], b"@(#)MPTFW-");
    let e = read_firmware_backdoor(&[0u8; 64]).unwrap_err();
    assert!(e.text().contains("backdoor parse_flash_layout: "));
}

#[test]
fn a_good_image_passes_every_check() {
    let b = image();
    let mut v = validate_image(&b);
    assert!(v.ok());
    check_fit(&mut v, &b, &b);
    assert_eq!(v.checks.len(), 4);
    assert!(v.ok());
}
