//! The transaction that every flash write goes through.
//!
//! A write can leave an adapter beyond recovery in two ways: it touches the
//! zone that the mask ROM reads at the earliest boot stage, or it leaves the
//! two firmware banks with different versions. The transaction takes a snapshot
//! of the whole flash first, refuses what it can tell to be wrong, and judges
//! the flash after the write against the snapshot.

use crate::bytes::{clamped, clamped_slice, count_differing, differing, differing_zero};
use crate::bytes::{same_bytes, to_vec};
use crate::firmware::flash_layout::{
    all_regions, bank_versions, first_region, first_region_is_first, image_layout,
    layout_searchable, no_region_no_first, parse_flash_layout, parsed_layout, verify_flash_consistency, FlashRegion,
    LayoutModel, REGION_FIRMWARE,
};
use crate::firmware::inspect::FwError;
use crate::firmware::validate::{
    check_models, checksum_check, image_checks, right_chip_check, validate_image,
    well_formed_check,
};
use crate::mpi::messages::ImageType;
use crate::text::{alphanumeric, chars_of, dec, hex_pad, is_alphanumeric, push_dec, push_hex_pad};
use vstd::prelude::*;

verus! {

/// Where the diagnostic window shows the flash.
pub const FLASH_WINDOW_ADDR: u32 = 0xFC00_0000;

/// Size of the flash.
pub const FLASH_SIZE: usize = 0x80_0000;

/// Start of the zone that the mask ROM reads.
pub const BOOT_CRITICAL_START: usize = 0x54_0000;

/// End of that zone.
pub const BOOT_CRITICAL_END: usize = 0x5A_0000;

/// A zone of the flash that must never change.
#[derive(Debug, Clone, Copy)]
pub struct BootCriticalRegion {
    /// What it holds.
    pub name: &'static str,
    /// Where it starts.
    pub start: usize,
    /// Where it ends.
    pub end: usize,
}

/// The zone that the mask ROM reads at the earliest boot stage.
pub fn boot_critical() -> (r: BootCriticalRegion)
    ensures
        r.name@ == "silicon-bootloader-input / BIOS-config"@,
        r.start == BOOT_CRITICAL_START,
        r.end == BOOT_CRITICAL_END,
{
    BootCriticalRegion {
        name: "silicon-bootloader-input / BIOS-config",
        start: BOOT_CRITICAL_START,
        end: BOOT_CRITICAL_END,
    }
}

/// How bad a violation is.
#[derive(Debug, Clone, Copy, PartialEq, Eq, Structural, PartialOrd, Ord)]
pub enum Severity {
    /// The adapter still boots; one rollback is worth trying.
    Error,
    /// Further writes could make it worse.
    Critical,
}

impl Severity {
    /// The name of this severity.
    pub open spec fn spec_name(self) -> Seq<char> {
        match self {
            Severity::Error => "Error"@,
            Severity::Critical => "Critical"@,
        }
    }

    /// The name of this severity.
    pub fn name(self) -> (r: &'static str)
        ensures
            r@ == self.spec_name(),
    {
        match self {
            Severity::Error => "Error",
            Severity::Critical => "Critical",
        }
    }
}

/// An invariant that does not hold.
#[derive(Debug, Clone)]
pub struct Violation {
    /// Which invariant.
    pub invariant: &'static str,
    /// How bad it is.
    pub severity: Severity,
    /// What was found.
    pub detail: String,
}

/// What a violation stands for.
pub struct ViolationModel {
    pub invariant: Seq<char>,
    pub severity: Severity,
    pub detail: Seq<char>,
}

impl View for Violation {
    type V = ViolationModel;

    open spec fn view(&self) -> ViolationModel {
        ViolationModel {
            invariant: self.invariant@,
            severity: self.severity,
            detail: self.detail@,
        }
    }
}

/// What a list of violations stands for.
pub open spec fn violation_models(v: Seq<Violation>) -> Seq<ViolationModel> {
    v.map_values(|x: Violation| x@)
}

impl ViolationModel {
    /// The violation in words.
    pub open spec fn text(self) -> Seq<char> {
        "["@ + self.severity.spec_name() + "] "@ + self.invariant + ": "@ + self.detail
    }
}

impl Violation {
    /// The violation in words.
    pub fn text(&self) -> (r: String)
        ensures
            r@ == self@.text(),
    {
        let mut t = "[".to_owned();
        t.append(self.severity.name());
        t.append("] ");
        t.append(self.invariant);
        t.append(": ");
        t.append(self.detail.as_str());
        t
    }
}

/// Errors of the transaction.
#[derive(Debug)]
pub enum GuardError {
    /// The snapshot could not be taken.
    SnapshotFailed(String),
    /// The snapshot could not be saved.
    SnapshotSaveFailed(String),
    /// The snapshot cannot serve to restore the adapter.
    SnapshotNotRestorable(String),
    /// There is nothing to write.
    EmptyImage,
    /// The image is not valid.
    InvalidImage(String),
    /// The flash layout of the adapter has no such region.
    UnknownTargetRegion(ImageType),
    /// The write failed.
    WriteFailed(String),
    /// The flash could not be read after the write.
    PostReadFailed(String),
    /// An invariant does not hold after the write.
    PostflightFailed {
        violations: Vec<Violation>,
        snapshot_path: String,
        worst: Severity,
        rolled_back: bool,
    },
}

/// The violations in words, one per line.
pub open spec fn violation_lines(v: Seq<ViolationModel>) -> Seq<char>
    decreases v.len(),
{
    if v.len() == 0 {
        Seq::empty()
    } else {
        violation_lines(v.drop_last()) + "  - "@ + v.last().text() + "\n"@
    }
}

impl GuardError {
    /// The error in words.
    pub open spec fn spec_text(&self) -> Seq<char> {
        match self {
            GuardError::SnapshotFailed(e) => "pre-write snapshot failed ("@ + e@
                + "); refusing to write without a recovery image"@,
            GuardError::SnapshotSaveFailed(e) => "could not save snapshot recovery image: "@ + e@,
            GuardError::SnapshotNotRestorable(e) => "snapshot is not a restorable image: "@ + e@
                + "; refusing to write"@,
            GuardError::EmptyImage => "image to write is empty"@,
            GuardError::InvalidImage(e) => "image failed validity gate: "@ + e@,
            GuardError::UnknownTargetRegion(t) => "target region "@ + t.spec_name()
                + " not found in the card's FLASH_LAYOUT — wrong image or layout mismatch"@,
            GuardError::WriteFailed(e) => "FW_DOWNLOAD failed: "@ + e@,
            GuardError::PostReadFailed(e) => "post-write read-back failed ("@ + e@
                + ") — CANNOT confirm the write was safe; treat the card as suspect and verify with a saved snapshot"@,
            GuardError::PostflightFailed { violations, snapshot_path, worst, rolled_back } => {
                "POST-WRITE SAFETY CHECK FAILED ("@ + worst.spec_name() + "):\n"@ + violation_lines(
                    violation_models(violations@),
                ) + match worst {
                    Severity::Critical => {
                        "  BOOT-CRITICAL corruption — do NOT issue further writes. Recovery image: "@
                            + snapshot_path@
                            + "\n  (PCIe recovery may be impossible; this is the CH341A SPI-clip case.)"@
                    },
                    Severity::Error => {
                        "  Rollback attempted: "@ + if *rolled_back {
                            "yes"@
                        } else {
                            "FAILED"@
                        } + ". Recovery image: "@ + snapshot_path@
                    },
                }
            },
        }
    }

    /// The error in words.
    pub fn text(&self) -> (r: String)
        ensures
            r@ == self.spec_text(),
    {
        match self {
            GuardError::SnapshotFailed(e) => {
                let mut t = "pre-write snapshot failed (".to_owned();
                t.append(e.as_str());
                t.append("); refusing to write without a recovery image");
                t
            },
            GuardError::SnapshotSaveFailed(e) => {
                let mut t = "could not save snapshot recovery image: ".to_owned();
                t.append(e.as_str());
                t
            },
            GuardError::SnapshotNotRestorable(e) => {
                let mut t = "snapshot is not a restorable image: ".to_owned();
                t.append(e.as_str());
                t.append("; refusing to write");
                t
            },
            GuardError::EmptyImage => "image to write is empty".to_owned(),
            GuardError::InvalidImage(e) => {
                let mut t = "image failed validity gate: ".to_owned();
                t.append(e.as_str());
                t
            },
            GuardError::UnknownTargetRegion(region) => {
                let mut t = "target region ".to_owned();
                t.append(region.name());
                t.append(" not found in the card's FLASH_LAYOUT — wrong image or layout mismatch");
                t
            },
            GuardError::WriteFailed(e) => {
                let mut t = "FW_DOWNLOAD failed: ".to_owned();
                t.append(e.as_str());
                t
            },
            GuardError::PostReadFailed(e) => {
                let mut t = "post-write read-back failed (".to_owned();
                t.append(e.as_str());
                t.append(
                    ") — CANNOT confirm the write was safe; treat the card as suspect and verify with a saved snapshot",
                );
                t
            },
            GuardError::PostflightFailed { violations, snapshot_path, worst, rolled_back } => {
                let mut t = "POST-WRITE SAFETY CHECK FAILED (".to_owned();
                t.append(worst.name());
                t.append("):\n");
                push_violation_lines(&mut t, violations);
                match worst {
                    Severity::Critical => {
                        t.append(
                            "  BOOT-CRITICAL corruption — do NOT issue further writes. Recovery image: ",
                        );
                        t.append(snapshot_path.as_str());
                        t.append(
                            "\n  (PCIe recovery may be impossible; this is the CH341A SPI-clip case.)",
                        );
                    },
                    Severity::Error => {
                        t.append("  Rollback attempted: ");
                        if *rolled_back {
                            t.append("yes");
                        } else {
                            t.append("FAILED");
                        }
                        t.append(". Recovery image: ");
                        t.append(snapshot_path.as_str());
                    },
                }
                assert(t@ =~= self.spec_text());
                t
            },
        }
    }
}

fn push_violation_lines(out: &mut String, v: &Vec<Violation>)
    ensures
        final(out)@ == old(out)@ + violation_lines(violation_models(v@)),
{
    let ghost all = violation_models(v@);
    let ghost start = out@;
    let mut i: usize = 0;
    assert(all.take(0) =~= Seq::empty());
    while i < v.len()
        invariant
            i <= v@.len(),
            all == violation_models(v@),
            all.len() == v@.len(),
            out@ == start + violation_lines(all.take(i as int)),
        decreases v@.len() - i,
    {
        assert(all.take(i + 1).drop_last() =~= all.take(i as int));
        assert(all.take(i + 1).last() == v@[i as int]@);
        out.append("  - ");
        out.append(v[i].text().as_str());
        out.append("\n");
        i += 1;
        assert(out@ =~= start + violation_lines(all.take(i as int)));
    }
    assert(all.take(i as int) =~= all);
}

/// The contents of a whole flash.
pub struct FlashImage {
    bytes: Vec<u8>,
}

impl View for FlashImage {
    type V = Seq<u8>;

    closed spec fn view(&self) -> Seq<u8> {
        self.bytes@
    }
}

impl Clone for FlashImage {
    fn clone(&self) -> (r: Self)
        ensures
            r@ == self@,
    {
        FlashImage { bytes: to_vec(self.bytes.as_slice()) }
    }
}

impl FlashImage {
    /// An image of the given bytes.
    pub fn new(bytes: Vec<u8>) -> (r: Self)
        ensures
            r@ == bytes@,
    {
        FlashImage { bytes }
    }

    /// What reading the flash through the diagnostic window gives.
    pub fn from_card_diag(read: Result<Vec<u8>, String>) -> (r: Result<Self, GuardError>)
        ensures
            match read {
                Ok(b) => r matches Ok(f) && f@ == b@,
                Err(e) => r == Err::<FlashImage, GuardError>(GuardError::SnapshotFailed(e)),
            },
    {
        match read {
            Ok(bytes) => Ok(FlashImage { bytes }),
            Err(e) => Err(GuardError::SnapshotFailed(e)),
        }
    }

    /// The bytes.
    pub fn bytes(&self) -> (r: &[u8])
        ensures
            r@ == self@,
    {
        self.bytes.as_slice()
    }

    /// How many bytes there are.
    pub fn len(&self) -> (r: usize)
        ensures
            r == self@.len(),
    {
        self.bytes.len()
    }

    /// Whether there are none.
    pub fn is_empty(&self) -> (r: bool)
        ensures
            r == (self@.len() == 0),
    {
        self.bytes.len() == 0
    }

    /// The bytes from `start` up to `end`, cut back to the image.
    pub fn region(&self, start: usize, end: usize) -> (r: &[u8])
        ensures
            r@ == clamped(self@, start as int, end as int),
    {
        clamped_slice(self.bytes.as_slice(), start, end)
    }
}

/// A write to be made.
pub struct WriteIntent {
    /// Which image of the flash.
    pub region: ImageType,
    /// What to write.
    pub bytes: Vec<u8>,
    /// What to call it.
    pub label: String,
}

/// The region type of an image in the flash layout, where it is known.
pub open spec fn spec_region_code(t: ImageType) -> Option<u8> {
    match t {
        ImageType::Fw => Some(REGION_FIRMWARE),
        _ => None,
    }
}

/// The region type of an image in the flash layout, where it is known.
pub fn region_code(t: ImageType) -> (r: Option<u8>)
    ensures
        r == spec_region_code(t),
{
    match t {
        ImageType::Fw => Some(REGION_FIRMWARE),
        _ => None,
    }
}

// -------------------------------------------------------------- preflight

/// What an error of the transaction stands for.
pub enum GuardFailure {
    SnapshotFailed(Seq<char>),
    SnapshotSaveFailed(Seq<char>),
    NotRestorable(Seq<char>),
    EmptyImage,
    Invalid(Seq<char>),
    UnknownTarget(ImageType),
    WriteFailed(Seq<char>),
    PostReadFailed(Seq<char>),
    Postflight {
        violations: Seq<ViolationModel>,
        snapshot_path: Seq<char>,
        worst: Severity,
        rolled_back: bool,
    },
}

impl View for GuardError {
    type V = GuardFailure;

    open spec fn view(&self) -> GuardFailure {
        match self {
            GuardError::SnapshotFailed(e) => GuardFailure::SnapshotFailed(e@),
            GuardError::SnapshotSaveFailed(e) => GuardFailure::SnapshotSaveFailed(e@),
            GuardError::SnapshotNotRestorable(e) => GuardFailure::NotRestorable(e@),
            GuardError::EmptyImage => GuardFailure::EmptyImage,
            GuardError::InvalidImage(e) => GuardFailure::Invalid(e@),
            GuardError::UnknownTargetRegion(t) => GuardFailure::UnknownTarget(*t),
            GuardError::WriteFailed(e) => GuardFailure::WriteFailed(e@),
            GuardError::PostReadFailed(e) => GuardFailure::PostReadFailed(e@),
            GuardError::PostflightFailed { violations, snapshot_path, worst, rolled_back } => {
                GuardFailure::Postflight {
                    violations: violation_models(violations@),
                    snapshot_path: snapshot_path@,
                    worst: *worst,
                    rolled_back: *rolled_back,
                }
            },
        }
    }
}

/// Whether every byte is `v`.
pub open spec fn all_bytes(b: Seq<u8>, v: u8) -> bool {
    forall|i: int| 0 <= i < b.len() ==> b[i] == v
}

/// The reason in words why no flash layout can be read, where none can.
pub open spec fn layout_error(b: Seq<u8>) -> Option<Seq<char>> {
    if !layout_searchable(b) {
        Some(FwError::TooShort(b.len() as usize).spec_text())
    } else if parsed_layout(b) is None {
        Some(FwError::NoFlashLayout.spec_text())
    } else {
        None
    }
}

/// The name of the first check on an image that fails, where one fails.
pub open spec fn failed_check(b: Seq<u8>) -> Option<Seq<char>> {
    if !well_formed_check(b).pass {
        Some("well-formed"@)
    } else if !checksum_check(b).pass {
        Some("checksum"@)
    } else if !right_chip_check(b).pass {
        Some("right-chip"@)
    } else {
        None
    }
}

/// The refusal for a region type that has to be in the layout of the snapshot.
pub open spec fn layout_refusal(snapshot: Seq<u8>, region: ImageType) -> Option<GuardFailure> {
    match spec_region_code(region) {
        None => None,
        Some(code) => match layout_error(snapshot) {
            Some(e) => Some(GuardFailure::NotRestorable("snapshot layout parse: "@ + e)),
            None => if first_region(all_regions(parsed_layout(snapshot)->0), code) is None {
                Some(GuardFailure::UnknownTarget(region))
            } else {
                None
            },
        },
    }
}

/// Why writing `bytes` to `region` is refused, given the snapshot; the first
/// reason counts.
pub open spec fn preflight_refusal(
    snapshot: Seq<u8>,
    region: ImageType,
    bytes: Seq<u8>,
) -> Option<GuardFailure> {
    if bytes.len() == 0 {
        Some(GuardFailure::EmptyImage)
    } else if snapshot.len() != FLASH_SIZE {
        Some(
            GuardFailure::NotRestorable(
                "snapshot is "@ + dec(snapshot.len()) + " bytes, expected "@ + dec(
                    FLASH_SIZE as nat,
                ),
            ),
        )
    } else if all_bytes(snapshot, 0xFF) || all_bytes(snapshot, 0x00) {
        Some(
            GuardFailure::NotRestorable(
                "snapshot is blank (all 0xFF or all 0x00) — not a usable recovery image"@,
            ),
        )
    } else {
        match layout_refusal(snapshot, region) {
            Some(x) => Some(x),
            None => if region == ImageType::Fw {
                match failed_check(bytes) {
                    Some(name) => Some(GuardFailure::Invalid(name)),
                    None => None,
                }
            } else {
                None
            },
        }
    }
}

fn only_bytes(b: &[u8], v: u8) -> (r: bool)
    ensures
        r == all_bytes(b@, v),
{
    let mut i: usize = 0;
    while i < b.len()
        invariant
            i <= b@.len(),
            forall|k: int| 0 <= k < i ==> b@[k] == v,
        decreases b@.len() - i,
    {
        if b[i] != v {
            return false;
        }
        i += 1;
    }
    true
}

fn length_error(label: &str, got: usize) -> (r: String)
    ensures
        r@ == label@ + dec(got as nat) + " bytes, expected "@ + dec(FLASH_SIZE as nat),
{
    let mut t = label.to_owned();
    push_dec(&mut t, got as u64);
    t.append(" bytes, expected ");
    push_dec(&mut t, FLASH_SIZE as u64);
    t
}

/// Decides whether a write may be made: there must be something to write, a
/// snapshot to go back to, a region in the adapter's own layout, and a valid
/// image where it is firmware.
pub fn preflight(snapshot: &FlashImage, intent: &WriteIntent) -> (r: Result<(), GuardError>)
    ensures
        match preflight_refusal(snapshot@, intent.region, intent.bytes@) {
            None => r == Ok::<(), GuardError>(()),
            Some(x) => r matches Err(e) && e@ == x,
        },
{
    if intent.bytes.len() == 0 {
        return Err(GuardError::EmptyImage);
    }
    if snapshot.len() != FLASH_SIZE {
        return Err(
            GuardError::SnapshotNotRestorable(length_error("snapshot is ", snapshot.len())),
        );
    }
    if only_bytes(snapshot.bytes(), 0xFF) || only_bytes(snapshot.bytes(), 0x00) {
        return Err(
            GuardError::SnapshotNotRestorable(
                "snapshot is blank (all 0xFF or all 0x00) — not a usable recovery image".to_owned(),
            ),
        );
    }
    if let Some(code) = region_code(intent.region) {
        match parse_flash_layout(snapshot.bytes()) {
            Err(e) => {
                let mut t = "snapshot layout parse: ".to_owned();
                t.append(e.text().as_str());
                return Err(GuardError::SnapshotNotRestorable(t));
            },
            Ok(layout) => {
                if layout.region_span(code).is_none() {
                    return Err(GuardError::UnknownTargetRegion(intent.region));
                }
            },
        }
    }
    if intent.region == ImageType::Fw {
        let val = validate_image(intent.bytes.as_slice());
        let ghost m = check_models(val.checks@);
        let ghost b = intent.bytes@;
        assert(m == image_checks(b) && m.len() == val.checks@.len() && m.len() == 3);
        assert(m[0] == val.checks@[0]@ && m[1] == val.checks@[1]@ && m[2] == val.checks@[2]@);
        assert(m[0] == well_formed_check(b) && m[1] == checksum_check(b) && m[2]
            == right_chip_check(b));
        match val.first_failure() {
            Some(c) => {
                assert(failed_check(b) == Some(c.name@));
                return Err(GuardError::InvalidImage(c.name.to_owned()));
            },
            None => {
                assert(failed_check(b) is None);
            },
        }
    }
    Ok(())
}

// ------------------------------------------------------------- postflight

/// The zone that must not change.
pub open spec fn boot_zone(b: Seq<u8>) -> Seq<u8> {
    clamped(b, BOOT_CRITICAL_START as int, BOOT_CRITICAL_END as int)
}

/// How far apart two lengths are.
pub open spec fn distance(a: nat, b: nat) -> nat {
    if a < b {
        (b - a) as nat
    } else {
        (a - b) as nat
    }
}

/// The shorter of two lengths.
pub open spec fn shorter(a: nat, b: nat) -> nat {
    if a < b {
        a
    } else {
        b
    }
}

/// No byte of the boot zone may change.
pub open spec fn boot_violation(pre: Seq<u8>, post: Seq<u8>) -> Option<ViolationModel> {
    let a = boot_zone(pre);
    let b = boot_zone(post);
    if a == b {
        None
    } else {
        Some(
            ViolationModel {
                invariant: "BootCriticalUnchanged"@,
                severity: Severity::Critical,
                detail: dec(
                    differing(a, b, shorter(a.len(), b.len()) as int) + distance(a.len(), b.len()),
                ) + " bytes changed in boot-critical region '"@
                    + "silicon-bootloader-input / BIOS-config"@ + "' (0x"@ + hex_pad(
                    BOOT_CRITICAL_START as nat,
                    6,
                    true,
                ) + "–0x"@ + hex_pad(BOOT_CRITICAL_END as nat, 6, true)
                    + ") — this zone must NEVER change on a region write"@,
            },
        )
    }
}

/// The two firmware banks must agree, as far as they can be found.
pub open spec fn bank_violation(post: Seq<u8>) -> Option<ViolationModel> {
    match bank_versions(post) {
        Ok((f, k)) => if f == k {
            None
        } else {
            Some(
                ViolationModel {
                    invariant: "BanksConsistent"@,
                    severity: Severity::Critical,
                    detail: "FIRMWARE version '"@ + f + "' != BACKUP version '"@ + k
                        + "' — dual-bank mismatch (bootloader fault)"@,
                },
            )
        },
        Err(_) => None,
    }
}

/// The region that `region` is written to, as the layout in `b` has it.
pub open spec fn target_region(b: Seq<u8>, region: ImageType) -> Option<FlashRegion> {
    match (spec_region_code(region), image_layout(b)) {
        (Some(code), Some(m)) => first_region(all_regions(m), code),
        _ => None,
    }
}

/// What was written must be in the target region, as far as it can be found.
pub open spec fn readback_violation(
    post: Seq<u8>,
    region: ImageType,
    bytes: Seq<u8>,
) -> Option<ViolationModel> {
    match target_region(post, region) {
        None => None,
        Some(f) => {
            let n = shorter(f.size as nat, bytes.len());
            let got = clamped(post, f.offset as int, f.offset + n);
            let want = bytes.take(n as int);
            if got == want {
                None
            } else {
                Some(
                    ViolationModel {
                        invariant: "TargetReadbackMatches"@,
                        severity: Severity::Error,
                        detail: dec(
                            differing(got, want, shorter(got.len(), want.len()) as int),
                        ) + " of "@ + dec(n) + " bytes in target region "@ + region.spec_name()
                            + " (0x"@ + hex_pad(f.offset as nat, 6, true)
                            + ") differ from the intended image"@,
                    },
                )
            }
        },
    }
}

/// A list of one, or none.
pub open spec fn opt_list(v: Option<ViolationModel>) -> Seq<ViolationModel> {
    match v {
        Some(x) => seq![x],
        None => Seq::empty(),
    }
}

/// Every violation after a write of `bytes` to `region`.
pub open spec fn postflight_violations(
    pre: Seq<u8>,
    post: Seq<u8>,
    region: ImageType,
    bytes: Seq<u8>,
) -> Seq<ViolationModel> {
    opt_list(boot_violation(pre, post)) + opt_list(bank_violation(post)) + opt_list(
        readback_violation(post, region, bytes),
    )
}

/// The worst severity in a list.
pub open spec fn spec_worst(v: Seq<ViolationModel>) -> Option<Severity> {
    if exists|i: int| 0 <= i < v.len() && (#[trigger] v[i]).severity == Severity::Critical {
        Some(Severity::Critical)
    } else if v.len() > 0 {
        Some(Severity::Error)
    } else {
        None
    }
}

/// Whether the result of a check is the violation `m`.
pub open spec fn is_violation(r: Option<Violation>, m: Option<ViolationModel>) -> bool {
    match m {
        Some(x) => r matches Some(v) && v@ == x,
        None => r is None,
    }
}

/// Checks that the boot zone has not changed.
pub fn check_boot_critical_unchanged(pre: &FlashImage, post: &FlashImage) -> (r: Option<Violation>)
    ensures
        is_violation(r, boot_violation(pre@, post@)),
{
    let zone = boot_critical();
    let a = pre.region(zone.start, zone.end);
    let b = post.region(zone.start, zone.end);
    if same_bytes(a, b) {
        return None;
    }
    let common: usize = if a.len() < b.len() { a.len() } else { b.len() };
    let apart: usize = if a.len() < b.len() { b.len() - a.len() } else { a.len() - b.len() };
    let changed: u64 = count_differing(a, b, common) as u64;
    proof {
        differing_zero(a@, b@, common as int);
        assert(a@.len() <= 0x60000 && b@.len() <= 0x60000);
    }
    let mut t = String::new();
    push_dec(&mut t, changed + apart as u64);
    t.append(" bytes changed in boot-critical region '");
    t.append(zone.name);
    t.append("' (0x");
    push_hex_pad(&mut t, zone.start as u64, 6, true);
    t.append("–0x");
    push_hex_pad(&mut t, zone.end as u64, 6, true);
    t.append(") — this zone must NEVER change on a region write");
    assert(t@ =~= boot_violation(pre@, post@)->0.detail);
    Some(
        Violation {
            invariant: "BootCriticalUnchanged",
            severity: Severity::Critical,
            detail: t,
        },
    )
}

/// Checks that the firmware banks agree.
pub fn check_banks_consistent(post: &FlashImage) -> (r: Option<Violation>)
    ensures
        is_violation(r, bank_violation(post@)),
{
    match verify_flash_consistency(post.bytes()) {
        Err(_) => None,
        Ok(c) => {
            if c.consistent {
                return None;
            }
            let mut t = "FIRMWARE version '".to_owned();
            t.append(c.firmware_version.as_str());
            t.append("' != BACKUP version '");
            t.append(c.backup_version.as_str());
            t.append("' — dual-bank mismatch (bootloader fault)");
            Some(
                Violation {
                    invariant: "BanksConsistent",
                    severity: Severity::Critical,
                    detail: t,
                },
            )
        },
    }
}

/// Checks that the target region holds what was written.
pub fn check_target_readback(post: &FlashImage, intent: &WriteIntent) -> (r: Option<Violation>)
    ensures
        is_violation(r, readback_violation(post@, intent.region, intent.bytes@)),
{
    let code: u8 = match region_code(intent.region) {
        Some(c) => c,
        None => {
            return None;
        },
    };
    let layout = match parse_flash_layout(post.bytes()) {
        Ok(l) => l,
        Err(_) => {
            return None;
        },
    };
    let (offset, size): (u32, u32) = match layout.region_span(code) {
        Some(s) => s,
        None => {
            return None;
        },
    };
    let off: usize = offset as usize;
    let n: usize = if (size as usize) < intent.bytes.len() {
        size as usize
    } else {
        intent.bytes.len()
    };
    let end: usize = if n > usize::MAX - off { usize::MAX } else { off + n };
    let len: usize = post.len();
    let got = post.region(off, end);
    let want = clamped_slice(intent.bytes.as_slice(), 0, n);
    assert(got@ == clamped(post@, off as int, off + n));
    assert(want@ =~= intent.bytes@.take(n as int));
    if same_bytes(got, want) {
        return None;
    }
    let common: usize = if got.len() < want.len() { got.len() } else { want.len() };
    let mismatches: usize = count_differing(got, want, common);
    let mut t = String::new();
    push_dec(&mut t, mismatches as u64);
    t.append(" of ");
    push_dec(&mut t, n as u64);
    t.append(" bytes in target region ");
    t.append(intent.region.name());
    t.append(" (0x");
    push_hex_pad(&mut t, off as u64, 6, true);
    t.append(") differ from the intended image");
    assert(t@ =~= readback_violation(post@, intent.region, intent.bytes@)->0.detail);
    Some(Violation { invariant: "TargetReadbackMatches", severity: Severity::Error, detail: t })
}

fn push_violation(out: &mut Vec<Violation>, v: Option<Violation>, Ghost(m): Ghost<Option<ViolationModel>>)
    requires
        is_violation(v, m),
    ensures
        violation_models(final(out)@) == violation_models(old(out)@) + opt_list(m),
{
    let ghost before = out@;
    if let Some(x) = v {
        out.push(x);
        assert(violation_models(out@) =~= violation_models(before) + opt_list(m));
    } else {
        assert(violation_models(out@) =~= violation_models(before) + opt_list(m));
    }
}

/// Evaluates every invariant after a write.
pub fn postflight(pre: &FlashImage, post: &FlashImage, intent: &WriteIntent) -> (r: Vec<Violation>)
    ensures
        violation_models(r@) == postflight_violations(pre@, post@, intent.region, intent.bytes@),
{
    let mut v = boot_and_bank_violations(pre, post);
    push_violation(
        &mut v,
        check_target_readback(post, intent),
        Ghost(readback_violation(post@, intent.region, intent.bytes@)),
    );
    v
}

/// Evaluates the invariants that need no single target region.
pub fn boot_and_bank_violations(pre: &FlashImage, post: &FlashImage) -> (r: Vec<Violation>)
    ensures
        violation_models(r@) == opt_list(boot_violation(pre@, post@)) + opt_list(
            bank_violation(post@),
        ),
{
    let mut v: Vec<Violation> = Vec::new();
    push_violation(
        &mut v,
        check_boot_critical_unchanged(pre, post),
        Ghost(boot_violation(pre@, post@)),
    );
    push_violation(&mut v, check_banks_consistent(post), Ghost(bank_violation(post@)));
    assert(violation_models(v@) =~= opt_list(boot_violation(pre@, post@)) + opt_list(
        bank_violation(post@),
    ));
    v
}

/// The worst severity in a list.
pub fn worst_severity(violations: &[Violation]) -> (r: Option<Severity>)
    ensures
        r == spec_worst(violation_models(violations@)),
{
    let ghost m = violation_models(violations@);
    let mut i: usize = 0;
    while i < violations.len()
        invariant
            i <= violations@.len(),
            m == violation_models(violations@),
            forall|k: int| 0 <= k < i ==> (#[trigger] m[k]).severity == Severity::Error,
        decreases violations@.len() - i,
    {
        assert(m[i as int] == violations@[i as int]@);
        if violations[i].severity == Severity::Critical {
            assert(m[i as int].severity == Severity::Critical);
            return Some(Severity::Critical);
        }
        i += 1;
    }
    if violations.len() > 0 {
        Some(Severity::Error)
    } else {
        None
    }
}

/// A change in the boot zone is always the worst that can be found.
pub proof fn boot_change_is_critical(
    pre: Seq<u8>,
    post: Seq<u8>,
    region: ImageType,
    bytes: Seq<u8>,
)
    requires
        boot_zone(pre) != boot_zone(post),
    ensures
        spec_worst(postflight_violations(pre, post, region, bytes)) == Some(Severity::Critical),
{
    let v = postflight_violations(pre, post, region, bytes);
    assert(v[0] == boot_violation(pre, post)->0);
}

/// A write is clean exactly where the boot zone is unchanged, the banks do not
/// disagree and the target region holds what was written.
pub proof fn clean_is_exact(pre: Seq<u8>, post: Seq<u8>, region: ImageType, bytes: Seq<u8>)
    ensures
        spec_worst(postflight_violations(pre, post, region, bytes)) is None <==> boot_zone(pre)
            == boot_zone(post) && bank_violation(post) is None && readback_violation(
            post,
            region,
            bytes,
        ) is None,
{
    let v = postflight_violations(pre, post, region, bytes);
    assert(v.len() == 0 <==> boot_violation(pre, post) is None && bank_violation(post) is None
        && readback_violation(post, region, bytes) is None);
}

// ------------------------------------------------------------ transaction

/// `bdf` with every character but letters and digits replaced.
pub open spec fn sanitized(bdf: Seq<char>) -> Seq<char> {
    bdf.map_values(
        |c: char|
            if is_alphanumeric(c) {
                c
            } else {
                '_'
            },
    )
}

/// Makes a name for a file out of a bus address.
pub fn sanitize_bdf(bdf: &str) -> (r: String)
    ensures
        r@ == sanitized(bdf@),
{
    let chars = chars_of(bdf);
    let mut out = String::new();
    let mut i: usize = 0;
    while i < chars.len()
        invariant
            i <= chars@.len(),
            chars@ == bdf@,
            out@ == sanitized(bdf@).take(i as int),
        decreases chars@.len() - i,
    {
        let c: char = chars[i];
        out.push(if alphanumeric(c) { c } else { '_' });
        i += 1;
        assert(out@ =~= sanitized(bdf@).take(i as int));
    }
    assert(sanitized(bdf@).take(i as int) =~= sanitized(bdf@));
    out
}

/// The path of the file `name` in the directory `dir`.
pub open spec fn joined(dir: Seq<char>, name: Seq<char>) -> Seq<char> {
    if dir.len() == 0 || dir.last() == '/' {
        dir + name
    } else {
        dir + "/"@ + name
    }
}

/// The path of the file `name` in the directory `dir`.
pub fn join_path(dir: &str, name: &str) -> (r: String)
    ensures
        r@ == joined(dir@, name@),
{
    let chars = chars_of(dir);
    let mut out = dir.to_owned();
    if chars.len() > 0 && chars[chars.len() - 1] != '/' {
        out.append("/");
    }
    out.append(name);
    out
}

/// Where the snapshot of `bdf` is saved.
pub open spec fn snapshot_file(dir: Seq<char>, bdf: Seq<char>) -> Seq<char> {
    joined(dir, "pre-write-snapshot-"@ + sanitized(bdf) + ".bin"@)
}

/// A transaction whose snapshot has been taken and is still to be saved.
pub struct PendingFlash {
    bdf: String,
    snapshot: FlashImage,
    snapshot_path: String,
}

impl PendingFlash {
    /// The adapter.
    pub closed spec fn spec_bdf(&self) -> Seq<char> {
        self.bdf@
    }

    /// The snapshot.
    pub closed spec fn spec_snapshot(&self) -> Seq<u8> {
        self.snapshot@
    }

    /// Where it has to be saved.
    pub closed spec fn spec_path(&self) -> Seq<char> {
        self.snapshot_path@
    }

    /// The snapshot.
    pub fn snapshot(&self) -> (r: &FlashImage)
        ensures
            r@ == self.spec_snapshot(),
    {
        &self.snapshot
    }

    /// Where it has to be saved.
    pub fn snapshot_path(&self) -> (r: &str)
        ensures
            r@ == self.spec_path(),
    {
        self.snapshot_path.as_str()
    }

    /// Opens the transaction once the snapshot has been saved.
    pub fn saved(self, outcome: Result<(), String>) -> (r: Result<GuardedFlash, GuardError>)
        ensures
            match outcome {
                Ok(_) => r matches Ok(g) && g.spec_bdf() == self.spec_bdf() && g.spec_snapshot()
                    == self.spec_snapshot() && g.spec_path() == self.spec_path(),
                Err(e) => r == Err::<GuardedFlash, GuardError>(GuardError::SnapshotSaveFailed(e)),
            },
    {
        match outcome {
            Ok(_) => Ok(
                GuardedFlash {
                    bdf: self.bdf,
                    snapshot: self.snapshot,
                    snapshot_path: self.snapshot_path,
                },
            ),
            Err(e) => Err(GuardError::SnapshotSaveFailed(e)),
        }
    }
}

/// A transaction: the only way to write the flash. The snapshot has been taken
/// and saved.
pub struct GuardedFlash {
    bdf: String,
    snapshot: FlashImage,
    snapshot_path: String,
}

/// Where a commit stands.
pub enum CommitState {
    /// Nothing has been done.
    Ready,
    /// The region is being written.
    Writing,
    /// The flash is being read after the write.
    Checking,
    /// The region is being written back.
    RollingBack(Vec<Violation>),
    /// The flash is being read after the write back.
    CheckingRollback(Vec<Violation>),
    /// The commit is over.
    Closed,
}

/// What happens to a commit.
pub enum CommitEvent {
    /// It starts.
    Start,
    /// A write has ended.
    Written(Result<(), String>),
    /// The flash has been read.
    Flash(Result<FlashImage, String>),
}

/// What a commit asks for.
pub enum CommitAction {
    /// Write `bytes` to `region`.
    Write { region: ImageType, bytes: Vec<u8> },
    /// Read the whole flash.
    Read,
    /// The commit is over.
    Finish(Result<(), GuardError>),
}

/// What the state of a commit stands for.
pub enum Stage {
    Ready,
    Writing,
    Checking,
    RollingBack(Seq<ViolationModel>),
    CheckingRollback(Seq<ViolationModel>),
    Closed,
}

/// What an event stands for.
pub enum Happening {
    Start,
    Written(Result<(), Seq<char>>),
    Flash(Result<Seq<u8>, Seq<char>>),
}

/// What an action stands for.
pub enum Demand {
    Write { region: ImageType, bytes: Seq<u8> },
    Read,
    Finish(Result<(), GuardFailure>),
}

impl View for CommitState {
    type V = Stage;

    open spec fn view(&self) -> Stage {
        match self {
            CommitState::Ready => Stage::Ready,
            CommitState::Writing => Stage::Writing,
            CommitState::Checking => Stage::Checking,
            CommitState::RollingBack(v) => Stage::RollingBack(violation_models(v@)),
            CommitState::CheckingRollback(v) => Stage::CheckingRollback(violation_models(v@)),
            CommitState::Closed => Stage::Closed,
        }
    }
}

impl View for CommitEvent {
    type V = Happening;

    open spec fn view(&self) -> Happening {
        match self {
            CommitEvent::Start => Happening::Start,
            CommitEvent::Written(Ok(_)) => Happening::Written(Ok(())),
            CommitEvent::Written(Err(e)) => Happening::Written(Err(e@)),
            CommitEvent::Flash(Ok(f)) => Happening::Flash(Ok(f@)),
            CommitEvent::Flash(Err(e)) => Happening::Flash(Err(e@)),
        }
    }
}

impl View for CommitAction {
    type V = Demand;

    open spec fn view(&self) -> Demand {
        match self {
            CommitAction::Write { region, bytes } => Demand::Write {
                region: *region,
                bytes: bytes@,
            },
            CommitAction::Read => Demand::Read,
            CommitAction::Finish(Ok(_)) => Demand::Finish(Ok(())),
            CommitAction::Finish(Err(e)) => Demand::Finish(Err(e@)),
        }
    }
}

/// Whether an event is one that the commit waits for.
pub open spec fn awaited(s: Stage, e: Happening) -> bool {
    match s {
        Stage::Ready => e is Start,
        Stage::Writing | Stage::RollingBack(_) => e is Written,
        Stage::Checking | Stage::CheckingRollback(_) => e is Flash,
        Stage::Closed => false,
    }
}

/// What the snapshot holds in the target region, where it can be found there.
pub open spec fn rollback_bytes(snapshot: Seq<u8>, region: ImageType) -> Option<Seq<u8>> {
    match target_region(snapshot, region) {
        Some(f) => Some(clamped(snapshot, f.offset as int, f.offset + f.size)),
        None => None,
    }
}

/// The end of a commit that violates an invariant.
pub open spec fn postflight_failure(
    violations: Seq<ViolationModel>,
    path: Seq<char>,
    worst: Severity,
    rolled_back: bool,
) -> Demand {
    Demand::Finish(
        Err(GuardFailure::Postflight { violations, snapshot_path: path, worst, rolled_back }),
    )
}

/// The response to the flash as it is after the write.
pub open spec fn judged(
    snapshot: Seq<u8>,
    path: Seq<char>,
    region: ImageType,
    bytes: Seq<u8>,
    post: Seq<u8>,
) -> (Stage, Demand) {
    let v = postflight_violations(snapshot, post, region, bytes);
    match spec_worst(v) {
        None => (Stage::Closed, Demand::Finish(Ok(()))),
        Some(Severity::Critical) => (
            Stage::Closed,
            postflight_failure(v, path, Severity::Critical, false),
        ),
        Some(Severity::Error) => match rollback_bytes(snapshot, region) {
            Some(b) => (Stage::RollingBack(v), Demand::Write { region, bytes: b }),
            None => (Stage::Closed, postflight_failure(v, path, Severity::Error, false)),
        },
    }
}

/// The next state of a commit and what it asks for.
pub open spec fn commit_next(
    snapshot: Seq<u8>,
    path: Seq<char>,
    region: ImageType,
    bytes: Seq<u8>,
    s: Stage,
    e: Happening,
) -> (Stage, Demand) {
    match (s, e) {
        (Stage::Ready, _) => match preflight_refusal(snapshot, region, bytes) {
            Some(x) => (Stage::Closed, Demand::Finish(Err(x))),
            None => (Stage::Writing, Demand::Write { region, bytes }),
        },
        (Stage::Writing, Happening::Written(Ok(_))) => (Stage::Checking, Demand::Read),
        (Stage::Writing, Happening::Written(Err(x))) => (
            Stage::Closed,
            Demand::Finish(Err(GuardFailure::WriteFailed(x))),
        ),
        (Stage::Checking, Happening::Flash(Ok(post))) => judged(
            snapshot,
            path,
            region,
            bytes,
            post,
        ),
        (Stage::Checking, Happening::Flash(Err(x))) => (
            Stage::Closed,
            Demand::Finish(Err(GuardFailure::PostReadFailed(x))),
        ),
        (Stage::RollingBack(v), Happening::Written(Ok(_))) => (
            Stage::CheckingRollback(v),
            Demand::Read,
        ),
        (Stage::RollingBack(v), _) => (
            Stage::Closed,
            postflight_failure(v, path, Severity::Error, false),
        ),
        (Stage::CheckingRollback(v), Happening::Flash(Ok(post))) => (
            Stage::Closed,
            postflight_failure(
                v,
                path,
                Severity::Error,
                boot_zone(snapshot) == boot_zone(post),
            ),
        ),
        (Stage::CheckingRollback(v), _) => (
            Stage::Closed,
            postflight_failure(v, path, Severity::Error, false),
        ),
        _ => (Stage::Closed, Demand::Read),
    }
}

/// What a write that names no single region asks for next.
pub open spec fn opaque_next(snapshot: Seq<u8>, path: Seq<char>, e: Happening) -> Demand {
    match e {
        Happening::Start | Happening::Written(Ok(_)) => Demand::Read,
        Happening::Written(Err(x)) => Demand::Finish(Err(GuardFailure::WriteFailed(x))),
        Happening::Flash(Err(x)) => Demand::Finish(Err(GuardFailure::PostReadFailed(x))),
        Happening::Flash(Ok(post)) => {
            let v = opt_list(boot_violation(snapshot, post)) + opt_list(bank_violation(post));
            match spec_worst(v) {
                None => Demand::Finish(Ok(())),
                Some(worst) => postflight_failure(v, path, worst, false),
            }
        },
    }
}

impl GuardedFlash {
    /// The adapter.
    pub closed spec fn spec_bdf(&self) -> Seq<char> {
        self.bdf@
    }

    /// The snapshot.
    pub closed spec fn spec_snapshot(&self) -> Seq<u8> {
        self.snapshot@
    }

    /// Where the snapshot was saved.
    pub closed spec fn spec_path(&self) -> Seq<char> {
        self.snapshot_path@
    }

    /// Begins a transaction with what reading the whole flash of `bdf` gave:
    /// without a snapshot of the right size there is no transaction.
    pub fn begin(bdf: &str, save_dir: &str, read: Result<Vec<u8>, String>) -> (r: Result<
        PendingFlash,
        GuardError,
    >)
        ensures
            match read {
                Err(e) => r == Err::<PendingFlash, GuardError>(GuardError::SnapshotFailed(e)),
                Ok(b) => if b@.len() == FLASH_SIZE {
                    r matches Ok(p) && p.spec_bdf() == bdf@ && p.spec_snapshot() == b@
                        && p.spec_path() == snapshot_file(save_dir@, bdf@)
                } else {
                    r matches Err(e) && e@ == GuardFailure::NotRestorable(
                        "diag read returned "@ + dec(b@.len()) + " bytes, expected "@ + dec(
                            FLASH_SIZE as nat,
                        ),
                    )
                },
            },
    {
        let snapshot = match FlashImage::from_card_diag(read) {
            Ok(s) => s,
            Err(e) => {
                return Err(e);
            },
        };
        if snapshot.len() != FLASH_SIZE {
            return Err(
                GuardError::SnapshotNotRestorable(
                    length_error("diag read returned ", snapshot.len()),
                ),
            );
        }
        let mut name = "pre-write-snapshot-".to_owned();
        name.append(sanitize_bdf(bdf).as_str());
        name.append(".bin");
        let snapshot_path = join_path(save_dir, name.as_str());
        Ok(PendingFlash { bdf: bdf.to_owned(), snapshot, snapshot_path })
    }

    /// The adapter.
    pub fn bdf(&self) -> (r: &str)
        ensures
            r@ == self.spec_bdf(),
    {
        self.bdf.as_str()
    }

    /// Where the snapshot was saved.
    pub fn snapshot_path(&self) -> (r: &str)
        ensures
            r@ == self.spec_path(),
    {
        self.snapshot_path.as_str()
    }

    fn failure(&self, violations: Vec<Violation>, worst: Severity, rolled_back: bool) -> (r: (
        CommitState,
        CommitAction,
    ))
        ensures
            r.0@ == Stage::Closed,
            r.1@ == postflight_failure(
                violation_models(violations@),
                self.spec_path(),
                worst,
                rolled_back,
            ),
    {
        (
            CommitState::Closed,
            CommitAction::Finish(
                Err(
                    GuardError::PostflightFailed {
                        violations,
                        snapshot_path: self.snapshot_path.clone(),
                        worst,
                        rolled_back,
                    },
                ),
            ),
        )
    }

    /// What to write back where a write has to be undone.
    pub fn try_rollback(&self, region: ImageType) -> (r: Option<Vec<u8>>)
        ensures
            match rollback_bytes(self.spec_snapshot(), region) {
                Some(b) => r matches Some(v) && v@ == b,
                None => r is None,
            },
    {
        let code: u8 = match region_code(region) {
            Some(c) => c,
            None => {
                return None;
            },
        };
        let layout = match parse_flash_layout(self.snapshot.bytes()) {
            Ok(l) => l,
            Err(_) => {
                return None;
            },
        };
        match layout.region_span(code) {
            None => None,
            Some((offset, size)) => {
                let off: usize = offset as usize;
                let n: usize = size as usize;
                let end: usize = if n > usize::MAX - off { usize::MAX } else { off + n };
                let len: usize = self.snapshot.len();
                let bytes = to_vec(self.snapshot.region(off, end));
                assert(bytes@ == clamped(self.spec_snapshot(), off as int, off + n));
                Some(bytes)
            },
        }
    }

    /// One step of writing `intent`: the check before, the write, the judgement
    /// after, and at most one write back.
    pub fn commit(&self, intent: &WriteIntent, state: CommitState, event: CommitEvent) -> (r: (
        CommitState,
        CommitAction,
    ))
        requires
            awaited(state@, event@),
        ensures
            (r.0@, r.1@) == commit_next(
                self.spec_snapshot(),
                self.spec_path(),
                intent.region,
                intent.bytes@,
                state@,
                event@,
            ),
    {
        match state {
            CommitState::Ready => match preflight(&self.snapshot, intent) {
                Err(e) => (CommitState::Closed, CommitAction::Finish(Err(e))),
                Ok(_) => (
                    CommitState::Writing,
                    CommitAction::Write {
                        region: intent.region,
                        bytes: to_vec(intent.bytes.as_slice()),
                    },
                ),
            },
            CommitState::Writing => match event {
                CommitEvent::Written(Err(e)) => (
                    CommitState::Closed,
                    CommitAction::Finish(Err(GuardError::WriteFailed(e))),
                ),
                _ => (CommitState::Checking, CommitAction::Read),
            },
            CommitState::Checking => match event {
                CommitEvent::Flash(Ok(post)) => self.judge(intent, &post),
                CommitEvent::Flash(Err(e)) => (
                    CommitState::Closed,
                    CommitAction::Finish(Err(GuardError::PostReadFailed(e))),
                ),
                _ => (CommitState::Closed, CommitAction::Read),
            },
            CommitState::RollingBack(v) => match event {
                CommitEvent::Written(Ok(_)) => (
                    CommitState::CheckingRollback(v),
                    CommitAction::Read,
                ),
                _ => self.failure(v, Severity::Error, false),
            },
            CommitState::CheckingRollback(v) => match event {
                CommitEvent::Flash(Ok(post)) => {
                    let untouched = check_boot_critical_unchanged(
                        &self.snapshot,
                        &post,
                    ).is_none();
                    self.failure(v, Severity::Error, untouched)
                },
                _ => self.failure(v, Severity::Error, false),
            },
            CommitState::Closed => (CommitState::Closed, CommitAction::Read),
        }
    }

    fn judge(&self, intent: &WriteIntent, post: &FlashImage) -> (r: (CommitState, CommitAction))
        ensures
            (r.0@, r.1@) == judged(
                self.spec_snapshot(),
                self.spec_path(),
                intent.region,
                intent.bytes@,
                post@,
            ),
    {
        let violations = postflight(&self.snapshot, post, intent);
        match worst_severity(violations.as_slice()) {
            None => (CommitState::Closed, CommitAction::Finish(Ok(()))),
            Some(Severity::Critical) => self.failure(violations, Severity::Critical, false),
            Some(Severity::Error) => match self.try_rollback(intent.region) {
                Some(bytes) => (
                    CommitState::RollingBack(violations),
                    CommitAction::Write { region: intent.region, bytes },
                ),
                None => self.failure(violations, Severity::Error, false),
            },
        }
    }

    /// One step of guarding a write that names no single region and that the caller has
    /// made: it is judged by the invariants that need none, and never written back.
    pub fn commit_with(&self, event: CommitEvent) -> (r: CommitAction)
        requires
            !(event is Start),
        ensures
            r@ == opaque_next(self.spec_snapshot(), self.spec_path(), event@),
    {
        match event {
            CommitEvent::Start | CommitEvent::Written(Ok(_)) => CommitAction::Read,
            CommitEvent::Written(Err(e)) => CommitAction::Finish(Err(GuardError::WriteFailed(e))),
            CommitEvent::Flash(Err(e)) => CommitAction::Finish(Err(GuardError::PostReadFailed(e))),
            CommitEvent::Flash(Ok(post)) => {
                let violations = boot_and_bank_violations(&self.snapshot, &post);
                match worst_severity(violations.as_slice()) {
                    None => CommitAction::Finish(Ok(())),
                    Some(worst) => self.failure(violations, worst, false).1,
                }
            },
        }
    }
}

/// How many steps a commit can still take.
pub open spec fn steps_left(s: Stage) -> nat {
    match s {
        Stage::Ready => 5,
        Stage::Writing => 4,
        Stage::Checking => 3,
        Stage::RollingBack(_) => 2,
        Stage::CheckingRollback(_) => 1,
        Stage::Closed => 0,
    }
}

/// Every step brings a commit nearer to its end, and it ends exactly where it
/// says what came of it.
pub proof fn commit_ends(
    snapshot: Seq<u8>,
    path: Seq<char>,
    region: ImageType,
    bytes: Seq<u8>,
    s: Stage,
    e: Happening,
)
    requires
        awaited(s, e),
    ensures
        steps_left(commit_next(snapshot, path, region, bytes, s, e).0) < steps_left(s),
        commit_next(snapshot, path, region, bytes, s, e).0 is Closed <==> commit_next(
            snapshot,
            path,
            region,
            bytes,
            s,
            e,
        ).1 is Finish,
{
}

/// A commit writes in two places only: first what was asked for, where the
/// checks before the write let it pass; then what the snapshot holds in the same
/// region, after a violation that is not critical.
pub proof fn writes_are_guarded(
    snapshot: Seq<u8>,
    path: Seq<char>,
    region: ImageType,
    bytes: Seq<u8>,
    s: Stage,
    e: Happening,
)
    requires
        awaited(s, e),
    ensures
        commit_next(snapshot, path, region, bytes, s, e).1 matches Demand::Write {
            region: to,
            bytes: what,
        } ==> to == region && match s {
            Stage::Ready => what == bytes && preflight_refusal(snapshot, region, bytes) is None,
            Stage::Checking => Some(what) == rollback_bytes(snapshot, region) && (e matches
                Happening::Flash(Ok(post)) && spec_worst(
                postflight_violations(snapshot, post, region, bytes),
            ) == Some(Severity::Error)),
            _ => false,
        },
{
}

/// Where the flash after the write differs from the snapshot in the boot zone,
/// the commit ends there, with no further write.
pub proof fn boot_change_ends_commit(
    snapshot: Seq<u8>,
    path: Seq<char>,
    region: ImageType,
    bytes: Seq<u8>,
    post: Seq<u8>,
)
    requires
        boot_zone(snapshot) != boot_zone(post),
    ensures
        commit_next(
            snapshot,
            path,
            region,
            bytes,
            Stage::Checking,
            Happening::Flash(Ok(post)),
        ) == (
            Stage::Closed,
            postflight_failure(
                postflight_violations(snapshot, post, region, bytes),
                path,
                Severity::Critical,
                false,
            ),
        ),
{
    boot_change_is_critical(snapshot, post, region, bytes);
}

/// A commit that succeeds leaves the boot zone as it was, and never follows a
/// write back.
pub proof fn success_is_clean(
    snapshot: Seq<u8>,
    path: Seq<char>,
    region: ImageType,
    bytes: Seq<u8>,
    s: Stage,
    e: Happening,
)
    requires
        awaited(s, e),
        commit_next(snapshot, path, region, bytes, s, e).1 == Demand::Finish(Ok(())),
    ensures
        s is Checking && (e matches Happening::Flash(Ok(post)) && boot_zone(snapshot) == boot_zone(
            post,
        ) && bank_violation(post) is None && readback_violation(post, region, bytes) is None),
{
    if let Happening::Flash(Ok(post)) = e {
        clean_is_exact(snapshot, post, region, bytes);
    }
}

/// A write that names no single region passes exactly where the flash was read after it
/// with the boot zone as it was and the two copies of the firmware in agreement; it is
/// never written again.
pub proof fn opaque_success_is_clean(snapshot: Seq<u8>, path: Seq<char>, e: Happening)
    ensures
        !(opaque_next(snapshot, path, e) is Write),
        opaque_next(snapshot, path, e) == Demand::Finish(Ok(())) <==> (e matches Happening::Flash(
            Ok(post),
        ) && boot_zone(snapshot) == boot_zone(post) && bank_violation(post) is None),
{
    if let Happening::Flash(Ok(post)) = e {
        assert(boot_violation(snapshot, post) is None <==> boot_zone(snapshot) == boot_zone(post));
    }
}

/// What was written is there: where a commit of firmware succeeds and the flash after the
/// write names a firmware region, every byte of the image, as far as the first such region
/// reaches, stands in the flash at the offset of that region.
pub proof fn success_is_written(
    snapshot: Seq<u8>,
    path: Seq<char>,
    bytes: Seq<u8>,
    post: Seq<u8>,
    m: Seq<LayoutModel>,
    k: int,
)
    requires
        commit_next(
            snapshot,
            path,
            ImageType::Fw,
            bytes,
            Stage::Checking,
            Happening::Flash(Ok(post)),
        ).1 == Demand::Finish(Ok(())),
        image_layout(post) == Some(m),
        0 <= k < all_regions(m).len(),
        all_regions(m)[k].region_type == 0x01,
        forall|j: int| 0 <= j < k ==> (#[trigger] all_regions(m)[j]).region_type != 0x01,
    ensures
        forall|i: int|
            0 <= i < bytes.len() && i < all_regions(m)[k].size ==> all_regions(m)[k].offset + i
                < post.len() && post[all_regions(m)[k].offset + i] == #[trigger] bytes[i],
{
    let f = all_regions(m)[k];
    first_region_is_first(all_regions(m), 0x01, k);
    clean_is_exact(snapshot, post, ImageType::Fw, bytes);
    let n = shorter(f.size as nat, bytes.len());
    let got = clamped(post, f.offset as int, f.offset + n);
    assert forall|i: int| 0 <= i < bytes.len() && i < f.size implies f.offset + i < post.len()
        && post[f.offset + i] == #[trigger] bytes[i] by {
        assert(got == bytes.take(n as int));
        assert(got.len() == n);
        assert(got[i] == bytes.take(n as int)[i]);
    }
}

/// A single byte that changes between 0x540000 and 0x5A0000 of the flash ends a commit as
/// critical: nothing more is written, neither the image nor what the snapshot holds.
pub proof fn boot_byte_is_sacred(
    snapshot: Seq<u8>,
    path: Seq<char>,
    region: ImageType,
    bytes: Seq<u8>,
    post: Seq<u8>,
    i: int,
)
    requires
        0x54_0000 <= i < 0x5A_0000,
        i < snapshot.len(),
        i < post.len(),
        snapshot[i] != post[i],
    ensures
        ({
            let (t, d) = commit_next(
                snapshot,
                path,
                region,
                bytes,
                Stage::Checking,
                Happening::Flash(Ok(post)),
            );
            t is Closed && (d matches Demand::Finish(Err(GuardFailure::Postflight {
                worst,
                rolled_back,
                snapshot_path,
                ..
            })) && worst == Severity::Critical && !rolled_back && snapshot_path == path)
        }),
        opaque_next(snapshot, path, Happening::Flash(Ok(post))) matches Demand::Finish(
            Err(GuardFailure::Postflight { worst, .. }),
        ) && worst == Severity::Critical,
{
    assert(boot_zone(snapshot)[i - 0x54_0000] == snapshot[i]);
    assert(boot_zone(post)[i - 0x54_0000] == post[i]);
    boot_change_ends_commit(snapshot, path, region, bytes, post);
    let v = opt_list(boot_violation(snapshot, post)) + opt_list(bank_violation(post));
    assert(v[0] == boot_violation(snapshot, post)->0);
    assert(v[0].severity == Severity::Critical);
}

/// After a commit that succeeds, and after a write without a single region that passes, every
/// byte between 0x540000 and 0x5A0000 is what it was in the snapshot.
pub proof fn success_keeps_boot_bytes(
    snapshot: Seq<u8>,
    path: Seq<char>,
    region: ImageType,
    bytes: Seq<u8>,
    post: Seq<u8>,
    i: int,
)
    requires
        commit_next(
            snapshot,
            path,
            region,
            bytes,
            Stage::Checking,
            Happening::Flash(Ok(post)),
        ).1 == Demand::Finish(Ok(())) || opaque_next(snapshot, path, Happening::Flash(Ok(post)))
            == Demand::Finish(Ok(())),
        0x54_0000 <= i < 0x5A_0000,
        i < snapshot.len(),
        i < post.len(),
    ensures
        snapshot[i] == post[i],
{
    if snapshot[i] != post[i] {
        boot_byte_is_sacred(snapshot, path, region, bytes, post, i);
    }
}

/// Bytes outside of the boot zone may change: they never stand in the way of a write that
/// names no single region, as long as the two copies of the firmware agree.
pub proof fn other_bytes_may_change(snapshot: Seq<u8>, path: Seq<char>, post: Seq<u8>)
    requires
        snapshot.len() == post.len(),
        forall|i: int| 0x54_0000 <= i < 0x5A_0000 && i < post.len() ==> snapshot[i] == post[i],
        bank_versions(post) matches Ok(v) ==> v.0 == v.1,
    ensures
        opaque_next(snapshot, path, Happening::Flash(Ok(post))) == Demand::Finish(Ok(())),
{
    assert(boot_zone(snapshot) =~= boot_zone(post));
    opaque_success_is_clean(snapshot, path, Happening::Flash(Ok(post)));
}

/// Two copies of the firmware with different versions end a commit as critical, and nothing
/// more is written.
pub proof fn different_banks_are_critical(
    snapshot: Seq<u8>,
    path: Seq<char>,
    region: ImageType,
    bytes: Seq<u8>,
    post: Seq<u8>,
)
    requires
        bank_versions(post) matches Ok(v) && v.0 != v.1,
    ensures
        ({
            let (t, d) = commit_next(
                snapshot,
                path,
                region,
                bytes,
                Stage::Checking,
                Happening::Flash(Ok(post)),
            );
            t is Closed && (d matches Demand::Finish(Err(GuardFailure::Postflight { worst, .. }))
                && worst == Severity::Critical)
        }),
        opaque_next(snapshot, path, Happening::Flash(Ok(post))) matches Demand::Finish(
            Err(GuardFailure::Postflight { worst, .. }),
        ) && worst == Severity::Critical,
{
    let v = postflight_violations(snapshot, post, region, bytes);
    let k = opt_list(boot_violation(snapshot, post)).len() as int;
    assert(v[k] == bank_violation(post)->0);
    assert(v[k].severity == Severity::Critical);
    let w = opt_list(boot_violation(snapshot, post)) + opt_list(bank_violation(post));
    assert(w[k] == bank_violation(post)->0);
    assert(w[k].severity == Severity::Critical);
}

/// A commit begins to write exactly where there is something to write, the snapshot has the
/// size of the flash (0x800000 bytes) and is neither all 0xFF nor all zero, and, for firmware,
/// the snapshot names a firmware region and the image passes its three checks. What it then
/// writes is what was asked for.
pub proof fn writing_begins_exactly(
    snapshot: Seq<u8>,
    path: Seq<char>,
    region: ImageType,
    bytes: Seq<u8>,
)
    ensures
        ({
            let (t, d) = commit_next(snapshot, path, region, bytes, Stage::Ready, Happening::Start);
            &&& d is Write <==> {
                &&& bytes.len() > 0
                &&& snapshot.len() == 0x80_0000
                &&& exists|i: int| 0 <= i < snapshot.len() && #[trigger] snapshot[i] != 0xFF
                &&& exists|i: int| 0 <= i < snapshot.len() && #[trigger] snapshot[i] != 0x00
                &&& region == ImageType::Fw ==> {
                    &&& image_layout(snapshot) matches Some(m) && exists|i: int|
                        0 <= i < all_regions(m).len() && (#[trigger] all_regions(m)[i]).region_type
                            == 0x01
                    &&& well_formed_check(bytes).pass && checksum_check(bytes).pass
                        && right_chip_check(bytes).pass
                }
            }
            &&& (d is Write ==> t is Writing && d == Demand::Write { region, bytes })
            &&& (!(d is Write) ==> t is Closed && (d matches Demand::Finish(o) && o is Err))
        }),
{
    if region == ImageType::Fw {
        if let Some(m) = image_layout(snapshot) {
            let all = all_regions(m);
            if exists|i: int| 0 <= i < all.len() && (#[trigger] all[i]).region_type == 0x01 {
                let w = choose|i: int| 0 <= i < all.len() && (#[trigger] all[i]).region_type == 0x01;
                some_region_some_first(all, 0x01, w);
            } else {
                no_region_no_first(all, 0x01);
            }
        }
    }
}

proof fn some_region_some_first(s: Seq<FlashRegion>, t: u8, k: int)
    requires
        0 <= k < s.len(),
        s[k].region_type == t,
    ensures
        first_region(s, t) is Some,
    decreases s.len(),
{
    if k < s.len() - 1 {
        assert(s.drop_last()[k] == s[k]);
        some_region_some_first(s.drop_last(), t, k);
    }
}

/// What is written back is what the snapshot had: the bytes of the first firmware region of
/// the snapshot's own layout, each at its place. Nothing but firmware is ever written back.
pub proof fn write_back_restores_snapshot(
    snapshot: Seq<u8>,
    path: Seq<char>,
    region: ImageType,
    bytes: Seq<u8>,
    post: Seq<u8>,
    to: ImageType,
    what: Seq<u8>,
    m: Seq<LayoutModel>,
    k: int,
)
    requires
        commit_next(
            snapshot,
            path,
            region,
            bytes,
            Stage::Checking,
            Happening::Flash(Ok(post)),
        ).1 == (Demand::Write { region: to, bytes: what }),
        image_layout(snapshot) == Some(m),
        0 <= k < all_regions(m).len(),
        all_regions(m)[k].region_type == 0x01,
        forall|j: int| 0 <= j < k ==> (#[trigger] all_regions(m)[j]).region_type != 0x01,
    ensures
        to == region && region == ImageType::Fw,
        all_regions(m)[k].offset + all_regions(m)[k].size <= snapshot.len() ==> what.len()
            == all_regions(m)[k].size,
        forall|i: int|
            0 <= i < what.len() ==> #[trigger] what[i] == snapshot[all_regions(m)[k].offset + i],
{
    first_region_is_first(all_regions(m), 0x01, k);
}

/// A written byte that does not read back is not let pass: the commit does not succeed. As
/// long as that is all that is wrong, what the snapshot holds is written back, where it can
/// be found there, and the commit fails whatever comes of it.
pub proof fn wrong_byte_is_written_back(
    snapshot: Seq<u8>,
    path: Seq<char>,
    bytes: Seq<u8>,
    post: Seq<u8>,
    m: Seq<LayoutModel>,
    k: int,
    i: int,
)
    requires
        image_layout(post) == Some(m),
        0 <= k < all_regions(m).len(),
        all_regions(m)[k].region_type == 0x01,
        forall|j: int| 0 <= j < k ==> (#[trigger] all_regions(m)[j]).region_type != 0x01,
        0 <= i < bytes.len(),
        i < all_regions(m)[k].size,
        all_regions(m)[k].offset + i >= post.len() || post[all_regions(m)[k].offset + i]
            != bytes[i],
    ensures
        ({
            let (t, d) = commit_next(
                snapshot,
                path,
                ImageType::Fw,
                bytes,
                Stage::Checking,
                Happening::Flash(Ok(post)),
            );
            &&& d != Demand::Finish(Ok(()))
            &&& boot_zone(snapshot) == boot_zone(post) && bank_violation(post) is None
                && target_region(snapshot, ImageType::Fw) is Some ==> t is RollingBack && d is Write
        }),
{
    let d = commit_next(
        snapshot,
        path,
        ImageType::Fw,
        bytes,
        Stage::Checking,
        Happening::Flash(Ok(post)),
    ).1;
    if d == Demand::Finish(Ok(())) {
        success_is_written(snapshot, path, bytes, post, m, k);
        assert(post[all_regions(m)[k].offset + i] == bytes[i]);
    }
}

/// After a write back the commit always fails; it says that the write back worked exactly
/// where the flash could be read once more and its boot zone is that of the snapshot.
pub proof fn write_back_never_succeeds(
    snapshot: Seq<u8>,
    path: Seq<char>,
    region: ImageType,
    bytes: Seq<u8>,
    v: Seq<ViolationModel>,
    e: Happening,
)
    requires
        e is Flash,
    ensures
        commit_next(snapshot, path, region, bytes, Stage::CheckingRollback(v), e).1 matches
            Demand::Finish(Err(GuardFailure::Postflight {
            violations,
            snapshot_path,
            worst,
            rolled_back,
        })) && violations == v && snapshot_path == path && worst == Severity::Error && (rolled_back
            <==> (e matches Happening::Flash(Ok(post)) && boot_zone(snapshot) == boot_zone(post))),
{
}

/// The name of the snapshot's file has no character but letters, digits and underscores in
/// the place of the bus address, and as many of them as the address has.
pub proof fn file_name_is_plain(bdf: Seq<char>, i: int)
    requires
        0 <= i < bdf.len(),
    ensures
        sanitized(bdf).len() == bdf.len(),
        ({
            let c = bdf[i];
            let keep = '0' <= c <= '9' || 'a' <= c <= 'z' || 'A' <= c <= 'Z';
            &&& (keep ==> sanitized(bdf)[i] == c)
            &&& (!keep ==> sanitized(bdf)[i] == '_')
        }),
{
}

} // verus!
