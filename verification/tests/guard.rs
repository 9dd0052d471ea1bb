//! The guarded write.

use lsi_flash::firmware::guard::{
    check_boot_critical_unchanged, postflight, preflight, worst_severity, FlashImage, GuardError,
    Severity, Violation, WriteIntent, FLASH_SIZE,
};
use lsi_flash::mpi::messages::ImageType;

fn synthetic_flash() -> Vec<u8> {
    let mut flash = vec![0xAAu8; FLASH_SIZE];

    for (i, b) in flash[0x54_0000..0x5A_0000].iter_mut().enumerate() {
        *b = (i % 251) as u8;
    }
    flash
}

fn intent(region: ImageType, bytes: Vec<u8>) -> WriteIntent {
    WriteIntent {
        region,
        bytes,
        label: "test".into(),
    }
}

#[test]
fn boot_critical_unchanged_passes_when_identical() {
    let img = FlashImage::new(synthetic_flash());
    assert!(check_boot_critical_unchanged(&img, &img.clone()).is_none());
}

#[test]
fn boot_critical_unchanged_flags_any_change_in_zone() {
    let pre = FlashImage::new(synthetic_flash());
    let mut after = synthetic_flash();

    after[0x54_0010] ^= 0xFF;
    let post = FlashImage::new(after);
    let v = check_boot_critical_unchanged(&pre, &post).expect("must flag boot-critical change");
    assert_eq!(v.invariant, "BootCriticalUnchanged");
    assert_eq!(v.severity, Severity::Critical);
}

#[test]
fn boot_critical_simulates_the_05_20_brick() {
    let pre = FlashImage::new(synthetic_flash());
    let mut after = synthetic_flash();
    for b in after[0x54_0000..0x5A_0000].iter_mut() {
        *b = 0xFF;
    }
    let post = FlashImage::new(after);
    let v = check_boot_critical_unchanged(&pre, &post).expect("erased boot-input must trip");
    assert_eq!(v.severity, Severity::Critical);
}

#[test]
fn changes_outside_boot_critical_are_ignored_by_that_check() {
    let pre = FlashImage::new(synthetic_flash());
    let mut after = synthetic_flash();
    after[0x10_0000] ^= 0xFF;
    let post = FlashImage::new(after);
    assert!(check_boot_critical_unchanged(&pre, &post).is_none());
}

#[test]
fn preflight_rejects_empty_image() {
    let snap = FlashImage::new(synthetic_flash());
    let err = preflight(&snap, &intent(ImageType::Bios, vec![])).unwrap_err();
    assert!(matches!(err, GuardError::EmptyImage));
}

#[test]
fn preflight_rejects_blank_snapshot() {
    let snap = FlashImage::new(vec![0xFF; FLASH_SIZE]);
    let err = preflight(&snap, &intent(ImageType::Bios, vec![1, 2, 3])).unwrap_err();
    assert!(matches!(err, GuardError::SnapshotNotRestorable(_)));
}

#[test]
fn preflight_rejects_wrong_size_snapshot() {
    let snap = FlashImage::new(vec![0xAB; 1024]);
    let err = preflight(&snap, &intent(ImageType::Bios, vec![1, 2, 3])).unwrap_err();
    assert!(matches!(err, GuardError::SnapshotNotRestorable(_)));
}

#[test]
fn worst_severity_picks_critical_over_error() {
    let vs = vec![
        Violation {
            invariant: "a",
            severity: Severity::Error,
            detail: String::new(),
        },
        Violation {
            invariant: "b",
            severity: Severity::Critical,
            detail: String::new(),
        },
    ];
    assert_eq!(worst_severity(&vs), Some(Severity::Critical));
}

#[test]
fn worst_severity_none_when_clean() {
    assert_eq!(worst_severity(&[]), None);
}

#[test]
fn postflight_aggregator_surfaces_boot_critical_as_worst() {
    let pre = FlashImage::new(synthetic_flash());
    let mut after = synthetic_flash();
    for b in after[0x54_0000..0x5A_0000].iter_mut() {
        *b = 0xFF;
    }
    let post = FlashImage::new(after);
    let intent = intent(ImageType::Bios, vec![0u8; 64]);
    let violations = postflight(&pre, &post, &intent);
    assert!(
        violations.iter().any(|v| v.invariant == "BootCriticalUnchanged"),
        "boot-critical violation must be present"
    );
    assert_eq!(worst_severity(&violations), Some(Severity::Critical));
}

#[test]
fn postflight_clean_when_only_safe_region_changed() {
    let pre = FlashImage::new(synthetic_flash());
    let mut after = synthetic_flash();
    after[0x10_0000] ^= 0xFF;
    let post = FlashImage::new(after);
    let intent = intent(ImageType::Bios, vec![0u8; 8]);
    assert!(postflight(&pre, &post, &intent).is_empty());
}

#[test]
fn region_clamps_on_short_image() {
    let img = FlashImage::new(vec![0u8; 100]);
    assert_eq!(img.region(50, 200).len(), 50);
    assert_eq!(img.region(200, 300).len(), 0);
}
