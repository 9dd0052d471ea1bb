//! Saving the images of an adapter.

use crate::bytes::{clamped, clamped_slice, push_zeros, to_vec, zeros};
use crate::card::mpt::{
    artifact_for, backup_file, backup_image, copy_artifacts, file_of, image_of, next_artifact,
    records, BACKUP_IMAGES, UPLOAD_BUF_SIZE,
};
use crate::card::{artifact_models, is_mock_bdf, ArtifactModel, MOCK_BDF};
use crate::digest::{sha256_hex, sha256_text};
use crate::error::Error;
use crate::mpi::messages::{FwUploadReply, FwUploadRequest, ImageType, IocStatus, MpiError};
use crate::mpi::session::UploadCommand;
use crate::text::{chars_of, dec, labelled, opt_text, push_dec, string_of, strings};
use vstd::prelude::*;

pub use crate::card::{BackupArtifact, BackupManifest, SourceCardInfo};

verus! {

/// Errors of a backup.
#[derive(Debug)]
pub enum BackupError {
    /// A message failed.
    Mpi(MpiError),
    /// A file cannot be written.
    Io(String),
    /// There is something in the directory.
    OutputDirNotEmpty(String),
    /// An image could not be read.
    PartialUpload { image_type: ImageType, ioc_status: IocStatus },
    /// The manifest cannot be written as TOML.
    TomlSer(String),
    /// The manifest cannot be written as JSON.
    SerdeJson(String),
}

impl BackupError {
    /// The error in words.
    pub open spec fn spec_text(&self) -> Seq<char> {
        match self {
            BackupError::Mpi(e) => "MPI: "@ + e.spec_text(),
            BackupError::Io(e) => "io: "@ + e@,
            BackupError::OutputDirNotEmpty(p) => "output dir already exists + not empty: "@ + p@,
            BackupError::PartialUpload { image_type, ioc_status } => "partition "@
                + image_type.spec_name() + " upload returned non-Success: "@
                + ioc_status.spec_name(),
            BackupError::TomlSer(e) => "toml ser: "@ + e@,
            BackupError::SerdeJson(e) => "serde_json: "@ + e@,
        }
    }

    /// The error in words.
    pub fn text(&self) -> (r: String)
        ensures
            r@ == self.spec_text(),
    {
        match self {
            BackupError::Mpi(e) => labelled("MPI: ", e.text().as_str()),
            BackupError::Io(e) => labelled("io: ", e.as_str()),
            BackupError::OutputDirNotEmpty(p) => {
                labelled("output dir already exists + not empty: ", p.as_str())
            },
            BackupError::PartialUpload { image_type, ioc_status } => {
                let mut t = labelled("partition ", image_type.name());
                t.append(" upload returned non-Success: ");
                t.append(ioc_status.name());
                t
            },
            BackupError::TomlSer(e) => labelled("toml ser: ", e.as_str()),
            BackupError::SerdeJson(e) => labelled("serde_json: ", e.as_str()),
        }
    }
}

/// Where the whole flash shows in the memory of the chip.
pub const FLASH_CHIP_ADDR: u32 = 0xFC00_0000;

/// Size of the whole flash.
pub const FULL_FLASH_SIZE: usize = 0x80_0000;

// ------------------------------------------------------------- directory

/// Where a backup goes.
pub open spec fn out_dir_of(wanted: Option<Seq<char>>, timestamp: Seq<char>) -> Seq<char> {
    match wanted {
        Some(d) => d,
        None => "/var/lib/lsi-flash/backups/unknown-wwn/"@ + timestamp,
    }
}

/// Where a backup goes: where the user says, or under a name of its own.
pub fn resolve_out_dir(wanted: &Option<String>, timestamp: &str) -> (r: String)
    ensures
        r@ == out_dir_of(opt_text(*wanted), timestamp@),
{
    match wanted {
        Some(d) => d.clone(),
        None => labelled("/var/lib/lsi-flash/backups/unknown-wwn/", timestamp),
    }
}

/// Refuses a directory that holds something. `entries` is what counting them
/// gave, where the directory is there.
pub fn ensure_dir_empty(dir: &str, entries: Option<Result<usize, String>>) -> (r: Result<
    (),
    BackupError,
>)
    ensures
        match entries {
            None => r is Ok,
            Some(Err(e)) => r == Err::<(), BackupError>(BackupError::Io(e)),
            Some(Ok(n)) => if n > 0 {
                r matches Err(BackupError::OutputDirNotEmpty(p)) && p@ == dir@
            } else {
                r is Ok
            },
        },
{
    match entries {
        None => Ok(()),
        Some(Err(e)) => Err(BackupError::Io(e)),
        Some(Ok(n)) => {
            if n > 0 {
                Err(BackupError::OutputDirNotEmpty(dir.to_owned()))
            } else {
                Ok(())
            }
        },
    }
}

// ------------------------------------------------------------------- way

/// How the adapter is reached, or what has to be tried to find that out.
#[derive(Debug, Clone, Copy, PartialEq, Eq, Structural)]
pub enum BackupWay {
    /// The simulated adapter is backed up.
    Mock,
    /// The adapter is looked for.
    Discover,
    /// The adapter is backed up through the driver of the kernel.
    Card,
    /// A way to the registers with memory that the device can reach is looked for.
    Attach,
    /// The adapter is backed up over its doorbell, through that way.
    Backend,
    /// The adapter is backed up over its doorbell, through its mapped registers.
    Direct,
}

/// What is known of the way to an adapter.
#[derive(Debug)]
pub enum WayEvent {
    /// Nothing but the address.
    Address,
    /// The adapter was looked for: it was found, or why not.
    Discovered(Result<(), String>),
    /// A way to the registers was looked for: there is one, or why not.
    Attached(Result<(), String>),
}

/// Whether an event can come for an address: the simulated adapter is never looked for.
pub open spec fn way_awaits(bdf: Seq<char>, e: WayEvent) -> bool {
    bdf == MOCK_BDF@ ==> e is Address
}

/// The way to take.
pub open spec fn way_next(bdf: Seq<char>, e: WayEvent) -> BackupWay {
    match e {
        WayEvent::Address => if bdf == MOCK_BDF@ {
            BackupWay::Mock
        } else {
            BackupWay::Discover
        },
        WayEvent::Discovered(Ok(_)) => BackupWay::Card,
        WayEvent::Discovered(Err(_)) => BackupWay::Attach,
        WayEvent::Attached(Ok(_)) => BackupWay::Backend,
        WayEvent::Attached(Err(_)) => BackupWay::Direct,
    }
}

/// What is said about the way, if anything.
pub open spec fn way_notice(bdf: Seq<char>, e: WayEvent) -> Option<Seq<char>> {
    match e {
        WayEvent::Address => if bdf == MOCK_BDF@ {
            Some(
                "backup: ⚠ MOCK backend (sentinel "@ + MOCK_BDF@
                    + ") — artifacts are SYNTHETIC, NOT a real card."@,
            )
        } else {
            None
        },
        WayEvent::Discovered(Ok(_)) => Some(
            "backup: using MptCard via kernel-mediated transport ("@ + bdf + ")"@,
        ),
        WayEvent::Discovered(Err(why)) => Some(
            "backup: card.discover_one("@ + bdf + ") failed: "@ + why@
                + " — falling back to legacy doorbell path"@,
        ),
        WayEvent::Attached(Ok(_)) => None,
        WayEvent::Attached(Err(why)) => Some(
            "warning: HwBackend (VFIO) attach failed: "@ + why@
                + " — falling back to direct sysfs mmap (no DMA, FW_UPLOAD may return zeros)"@,
        ),
    }
}

/// Chooses the way to the adapter at `bdf`, and what to say about it.
pub fn choose_way(bdf: &str, event: &WayEvent) -> (r: (BackupWay, Option<String>))
    requires
        way_awaits(bdf@, *event),
    ensures
        r.0 == way_next(bdf@, *event),
        opt_text(r.1) == way_notice(bdf@, *event),
{
    match event {
        WayEvent::Address => {
            if is_mock_bdf(bdf) {
                let mut t = labelled("backup: ⚠ MOCK backend (sentinel ", MOCK_BDF);
                t.append(") — artifacts are SYNTHETIC, NOT a real card.");
                (BackupWay::Mock, Some(t))
            } else {
                (BackupWay::Discover, None)
            }
        },
        WayEvent::Discovered(Ok(_)) => {
            let mut t = labelled("backup: using MptCard via kernel-mediated transport (", bdf);
            t.append(")");
            (BackupWay::Card, Some(t))
        },
        WayEvent::Discovered(Err(why)) => {
            let mut t = labelled("backup: card.discover_one(", bdf);
            t.append(") failed: ");
            t.append(why.as_str());
            t.append(" — falling back to legacy doorbell path");
            (BackupWay::Attach, Some(t))
        },
        WayEvent::Attached(Ok(_)) => (BackupWay::Backend, None),
        WayEvent::Attached(Err(why)) => {
            let mut t = labelled("warning: HwBackend (VFIO) attach failed: ", why.as_str());
            t.append(" — falling back to direct sysfs mmap (no DMA, FW_UPLOAD may return zeros)");
            (BackupWay::Direct, Some(t))
        },
    }
}

/// The simulated adapter is backed up if and only if its own address was given, and never
/// without saying so.
pub proof fn mock_is_never_silent(bdf: Seq<char>, e: WayEvent)
    requires
        way_awaits(bdf, e),
    ensures
        way_next(bdf, e) is Mock <==> bdf == MOCK_BDF@,
        way_next(bdf, e) is Mock ==> way_notice(bdf, e) is Some,
{
}

/// The doorbell is used only where the adapter could not be found through the driver of the
/// kernel, and the mapped registers only where there is no better way to them.
pub proof fn doorbell_comes_last(bdf: Seq<char>, e: WayEvent)
    requires
        way_awaits(bdf, e),
    ensures
        way_next(bdf, e) is Attach <==> (e matches WayEvent::Discovered(o) && o is Err),
        way_next(bdf, e) is Direct <==> (e matches WayEvent::Attached(o) && o is Err),
{
}

// ---------------------------------------------------------------- report

/// The start of a digest, enough to tell files apart.
pub open spec fn short_digest(sha256: Seq<char>) -> Seq<char> {
    if sha256.len() >= 16 {
        sha256.take(16)
    } else {
        sha256
    }
}

/// The start of a digest.
pub fn sha_short(sha256: &str) -> (r: String)
    ensures
        r@ == short_digest(sha256@),
{
    let chars = chars_of(sha256);
    if chars.len() >= 16 {
        assert(chars@.subrange(0, 16) =~= chars@.take(16));
        string_of(&chars[0..16])
    } else {
        sha256.to_owned()
    }
}

/// The line of a report for one file.
pub open spec fn artifact_line(a: ArtifactModel) -> Seq<char> {
    "  "@ + a.path + " ("@ + dec(a.size as nat) + " bytes, sha256: "@ + short_digest(a.sha256)
        + ")"@
}

/// The line of a report for one file.
pub fn describe_artifact(a: &BackupArtifact) -> (r: String)
    ensures
        r@ == artifact_line(a@),
{
    let mut t = labelled("  ", a.path.as_str());
    t.append(" (");
    push_dec(&mut t, a.size);
    t.append(" bytes, sha256: ");
    t.append(sha_short(a.sha256.as_str()).as_str());
    t.append(")");
    t
}

/// The lines of a report on a backup.
pub open spec fn report_lines(
    dir: Seq<char>,
    artifacts: Seq<ArtifactModel>,
    counted: bool,
) -> Seq<Seq<char>> {
    seq![
        "backup written to: "@ + dir,
        if counted {
            "artifacts ("@ + dec(artifacts.len()) + ") summary:"@
        } else {
            "artifacts:"@
        },
    ] + artifacts.map_values(|a: ArtifactModel| artifact_line(a))
}

/// Reports on a backup, line by line.
pub fn report(dir: &str, artifacts: &Vec<BackupArtifact>, counted: bool) -> (r: Vec<String>)
    ensures
        strings(r@) == report_lines(dir@, artifact_models(artifacts@), counted),
{
    let ghost m = artifact_models(artifacts@);
    let ghost all = report_lines(dir@, m, counted);
    let mut v: Vec<String> = Vec::new();
    v.push(labelled("backup written to: ", dir));
    let mut head = String::new();
    if counted {
        head.append("artifacts (");
        push_dec(&mut head, artifacts.len() as u64);
        head.append(") summary:");
    } else {
        head.append("artifacts:");
    }
    proof {
        assert(head@ =~= all[1]);
    }
    v.push(head);
    assert(strings(v@) =~= all.take(2));
    let mut i: usize = 0;
    while i < artifacts.len()
        invariant
            i <= artifacts@.len(),
            m == artifact_models(artifacts@),
            all == report_lines(dir@, m, counted),
            strings(v@) == all.take(2 + i),
        decreases artifacts@.len() - i,
    {
        let ghost before = strings(v@);
        let line = describe_artifact(&artifacts[i]);
        let ghost text = line@;
        v.push(line);
        assert(strings(v@) =~= before.push(text));
        assert(all[2 + i] == artifact_line(m[i as int]));
        i += 1;
        assert(strings(v@) =~= all.take(2 + i));
    }
    assert(all.take(2 + i) =~= all);
    v
}

// --------------------------------------------------------------- capture

/// What reading an image brought, or why it failed.
pub open spec fn partition_outcome(
    t: ImageType,
    reply: Result<FwUploadReply, MpiError>,
    buffer: Seq<u8>,
) -> Result<Seq<u8>, Error> {
    match reply {
        Err(e) => Err(Error::MpiMessage(e)),
        Ok(v) => if v.ioc_status != IocStatus::Success {
            Err(
                Error::Backup(
                    BackupError::PartialUpload { image_type: t, ioc_status: v.ioc_status },
                ),
            )
        } else {
            Ok(clamped(buffer, 0, v.actual_image_size as int))
        },
    }
}

/// Judges the reply for an image: what of the buffer is the image.
pub fn judge_partition(t: ImageType, reply: Result<FwUploadReply, MpiError>, buffer: &[u8]) -> (r:
    Result<Vec<u8>, Error>)
    ensures
        match partition_outcome(t, reply, buffer@) {
            Ok(b) => r matches Ok(v) && v@ == b,
            Err(e) => r == Err::<Vec<u8>, Error>(e),
        },
{
    match reply {
        Err(e) => Err(Error::MpiMessage(e)),
        Ok(v) => {
            if v.ioc_status != IocStatus::Success {
                return Err(
                    Error::Backup(
                        BackupError::PartialUpload { image_type: t, ioc_status: v.ioc_status },
                    ),
                );
            }
            Ok(to_vec(clamped_slice(buffer, 0, v.actual_image_size as usize)))
        },
    }
}

/// What reading the whole flash past the controller gave.
pub enum FlashCapture {
    /// There is no way past the controller.
    NotOpened,
    /// It could not be read.
    Failed(String),
    /// The bytes.
    Read(Vec<u8>),
}

/// Why the manifest could not be written.
pub enum ManifestFault {
    /// It cannot be written as TOML.
    Toml(String),
    /// The file cannot be written.
    Io(String),
}

/// Where a backup over a session stands.
pub enum SessionBackup {
    /// The next image is being read.
    Uploading(Vec<BackupArtifact>),
    /// The file of an image is being written.
    Saving(Vec<BackupArtifact>, BackupArtifact),
    /// The whole flash is being read.
    ReadingFlash(Vec<BackupArtifact>),
    /// The file of the whole flash is being written.
    SavingFlash(Vec<BackupArtifact>, BackupArtifact),
    /// The manifest is being written.
    SavingManifest(Vec<BackupArtifact>),
    /// The backup is over.
    Closed,
}

/// What happens to a backup.
pub enum SessionBackupEvent {
    /// The controller has answered.
    Uploaded { reply: Result<FwUploadReply, MpiError>, buffer: Vec<u8> },
    /// A file has been written.
    Saved(Result<(), String>),
    /// The whole flash has been read, or not.
    Flash(FlashCapture),
    /// The manifest has been written.
    ManifestSaved(Result<(), ManifestFault>),
}

/// What a backup asks for.
pub enum SessionBackupAction {
    /// Send this request.
    Upload(FwUploadRequest),
    /// Write a file.
    Save { file: &'static str, data: Vec<u8> },
    /// Read the whole flash past the controller.
    ReadFlash { address: u32, size: usize },
    /// Write the manifest of these files, and say what is missing.
    SaveManifest { artifacts: Vec<BackupArtifact>, warning: Option<String> },
    /// The backup is over.
    Finish(Result<Vec<BackupArtifact>, Error>),
}

/// What the state of a backup stands for.
pub enum SessionStage {
    Uploading(Seq<ArtifactModel>),
    Saving(Seq<ArtifactModel>, ArtifactModel),
    ReadingFlash(Seq<ArtifactModel>),
    SavingFlash(Seq<ArtifactModel>, ArtifactModel),
    SavingManifest(Seq<ArtifactModel>),
    Closed,
}

/// What a backup asks for, by meaning.
pub enum SessionDemand {
    Upload(UploadCommand),
    Save { file: Seq<char>, data: Seq<u8> },
    ReadFlash { address: u32, size: usize },
    SaveManifest { artifacts: Seq<ArtifactModel>, warning: Option<Seq<char>> },
    Finish(Result<Seq<ArtifactModel>, Error>),
}

impl View for SessionBackup {
    type V = SessionStage;

    open spec fn view(&self) -> SessionStage {
        match self {
            SessionBackup::Uploading(d) => SessionStage::Uploading(artifact_models(d@)),
            SessionBackup::Saving(d, a) => SessionStage::Saving(artifact_models(d@), a@),
            SessionBackup::ReadingFlash(d) => SessionStage::ReadingFlash(artifact_models(d@)),
            SessionBackup::SavingFlash(d, a) => SessionStage::SavingFlash(artifact_models(d@), a@),
            SessionBackup::SavingManifest(d) => SessionStage::SavingManifest(artifact_models(d@)),
            SessionBackup::Closed => SessionStage::Closed,
        }
    }
}

impl View for SessionBackupAction {
    type V = SessionDemand;

    open spec fn view(&self) -> SessionDemand {
        match self {
            SessionBackupAction::Upload(req) => SessionDemand::Upload(req@),
            SessionBackupAction::Save { file, data } => SessionDemand::Save {
                file: file@,
                data: data@,
            },
            SessionBackupAction::ReadFlash { address, size } => SessionDemand::ReadFlash {
                address: *address,
                size: *size,
            },
            SessionBackupAction::SaveManifest { artifacts, warning } => {
                SessionDemand::SaveManifest {
                    artifacts: artifact_models(artifacts@),
                    warning: opt_text(*warning),
                }
            },
            SessionBackupAction::Finish(Ok(d)) => SessionDemand::Finish(Ok(artifact_models(d@))),
            SessionBackupAction::Finish(Err(e)) => SessionDemand::Finish(Err(*e)),
        }
    }
}

/// Whether a backup can be in this state and waits for this event.
pub open spec fn session_awaits(s: SessionStage, e: SessionBackupEvent) -> bool {
    match s {
        SessionStage::Uploading(d) => d.len() < BACKUP_IMAGES && e is Uploaded,
        SessionStage::Saving(d, _) => d.len() < BACKUP_IMAGES && e is Saved,
        SessionStage::ReadingFlash(d) => d.len() == BACKUP_IMAGES && e is Flash,
        SessionStage::SavingFlash(d, _) => d.len() == BACKUP_IMAGES && e is Saved,
        SessionStage::SavingManifest(d) => BACKUP_IMAGES <= d.len() <= BACKUP_IMAGES + 1
            && e is ManifestSaved,
        SessionStage::Closed => false,
    }
}

/// The request for the image after those in `done`.
pub open spec fn session_upload(done: Seq<ArtifactModel>) -> SessionDemand {
    SessionDemand::Upload(
        UploadCommand {
            image_type: backup_image(done.len() as int),
            image_offset: 0,
            image_size: UPLOAD_BUF_SIZE as u32,
            buffer: zeros(UPLOAD_BUF_SIZE as nat),
        },
    )
}

/// The entry for the whole flash.
pub open spec fn flash_artifact(data: Seq<u8>, sha256: Seq<char>) -> ArtifactModel {
    ArtifactModel {
        path: "flash-full.bin"@,
        image_type: "FullFlash"@,
        sha256,
        size: data.len() as u64,
    }
}

/// The warning when there is no way past the controller.
pub open spec fn not_opened_warning() -> Seq<char> {
    "warning: backup: could not open Bar1MmapSbrTransport for full-flash capture — continuing without flash-full.bin"@
}

/// The warning when the whole flash could not be read.
pub open spec fn unread_warning(e: Seq<char>) -> Seq<char> {
    "warning: backup: diag back-door full-flash read failed: "@ + e
        + " — continuing with partial backup"@
}

/// The next state of a backup and what it asks for. The whole flash is read only
/// where `with_flash` says that the adapter is there to be read.
pub open spec fn session_next(s: SessionStage, e: SessionBackupEvent, with_flash: bool) -> (
    SessionStage,
    SessionDemand,
) {
    match (s, e) {
        (SessionStage::Uploading(d), SessionBackupEvent::Uploaded { reply, buffer }) => {
            match partition_outcome(backup_image(d.len() as int), reply, buffer@) {
                Err(x) => (SessionStage::Closed, SessionDemand::Finish(Err(x))),
                Ok(b) => (
                    SessionStage::Saving(d, next_artifact(d, b, sha256_text(b))),
                    SessionDemand::Save { file: backup_file(d.len() as int), data: b },
                ),
            }
        },
        (SessionStage::Saving(d, a), SessionBackupEvent::Saved(Ok(_))) => if d.len() + 1
            < BACKUP_IMAGES {
            (SessionStage::Uploading(d.push(a)), session_upload(d.push(a)))
        } else if with_flash {
            (
                SessionStage::ReadingFlash(d.push(a)),
                SessionDemand::ReadFlash { address: FLASH_CHIP_ADDR, size: FULL_FLASH_SIZE },
            )
        } else {
            (
                SessionStage::SavingManifest(d.push(a)),
                SessionDemand::SaveManifest { artifacts: d.push(a), warning: None },
            )
        },
        (SessionStage::Saving(_, _), SessionBackupEvent::Saved(Err(x))) => (
            SessionStage::Closed,
            SessionDemand::Finish(Err(Error::Io(x))),
        ),
        (SessionStage::ReadingFlash(d), SessionBackupEvent::Flash(FlashCapture::Read(b))) => (
            SessionStage::SavingFlash(d, flash_artifact(b@, sha256_text(b@))),
            SessionDemand::Save { file: "flash-full.bin"@, data: b@ },
        ),
        (SessionStage::ReadingFlash(d), SessionBackupEvent::Flash(FlashCapture::Failed(x))) => (
            SessionStage::SavingManifest(d),
            SessionDemand::SaveManifest { artifacts: d, warning: Some(unread_warning(x@)) },
        ),
        (SessionStage::ReadingFlash(d), _) => (
            SessionStage::SavingManifest(d),
            SessionDemand::SaveManifest { artifacts: d, warning: Some(not_opened_warning()) },
        ),
        (SessionStage::SavingFlash(d, a), SessionBackupEvent::Saved(Ok(_))) => (
            SessionStage::SavingManifest(d.push(a)),
            SessionDemand::SaveManifest { artifacts: d.push(a), warning: None },
        ),
        (SessionStage::SavingFlash(_, _), SessionBackupEvent::Saved(Err(x))) => (
            SessionStage::Closed,
            SessionDemand::Finish(Err(Error::Io(x))),
        ),
        (SessionStage::SavingManifest(d), SessionBackupEvent::ManifestSaved(Ok(_))) => (
            SessionStage::Closed,
            SessionDemand::Finish(Ok(d)),
        ),
        (
            SessionStage::SavingManifest(_),
            SessionBackupEvent::ManifestSaved(Err(ManifestFault::Toml(x))),
        ) => (SessionStage::Closed, SessionDemand::Finish(Err(Error::TomlSer(x)))),
        (
            SessionStage::SavingManifest(_),
            SessionBackupEvent::ManifestSaved(Err(ManifestFault::Io(x))),
        ) => (SessionStage::Closed, SessionDemand::Finish(Err(Error::Io(x)))),
        _ => (SessionStage::Closed, SessionDemand::Finish(Ok(Seq::empty()))),
    }
}

fn upload_for(n: usize) -> (r: SessionBackupAction)
    ensures
        r@ == SessionDemand::Upload(
            UploadCommand {
                image_type: backup_image(n as int),
                image_offset: 0,
                image_size: UPLOAD_BUF_SIZE as u32,
                buffer: zeros(UPLOAD_BUF_SIZE as nat),
            },
        ),
{
    let mut payload_buffer: Vec<u8> = Vec::new();
    push_zeros(&mut payload_buffer, UPLOAD_BUF_SIZE);
    assert(payload_buffer@ =~= zeros(UPLOAD_BUF_SIZE as nat));
    SessionBackupAction::Upload(
        FwUploadRequest {
            image_type: image_of(n),
            image_offset: 0,
            image_size: UPLOAD_BUF_SIZE as u32,
            payload_buffer,
        },
    )
}

/// Begins a backup over a session.
pub fn session_backup_begin() -> (r: (SessionBackup, SessionBackupAction))
    ensures
        r.0@ == SessionStage::Uploading(Seq::empty()),
        r.1@ == session_upload(Seq::empty()),
{
    let done: Vec<BackupArtifact> = Vec::new();
    assert(artifact_models(done@) =~= Seq::empty());
    (SessionBackup::Uploading(done), upload_for(0))
}

fn to_manifest(done: Vec<BackupArtifact>, warning: Option<String>) -> (r: (
    SessionBackup,
    SessionBackupAction,
))
    ensures
        r.0@ == SessionStage::SavingManifest(artifact_models(done@)),
        r.1@ == (SessionDemand::SaveManifest {
            artifacts: artifact_models(done@),
            warning: opt_text(warning),
        }),
{
    let artifacts = copy_artifacts(&done);
    (
        SessionBackup::SavingManifest(done),
        SessionBackupAction::SaveManifest { artifacts, warning },
    )
}

fn grown(done: Vec<BackupArtifact>, a: BackupArtifact) -> (r: Vec<BackupArtifact>)
    ensures
        artifact_models(r@) == artifact_models(done@).push(a@),
        r@.len() == done@.len() + 1,
{
    let ghost before = artifact_models(done@);
    let ghost entry = a@;
    let mut done = done;
    done.push(a);
    assert(artifact_models(done@) =~= before.push(entry));
    done
}

fn partition_read(
    done: Vec<BackupArtifact>,
    reply: Result<FwUploadReply, MpiError>,
    buffer: Vec<u8>,
) -> (r: (SessionBackup, SessionBackupAction))
    ensures
        (r.0@, r.1@) == session_next(
            SessionStage::Uploading(artifact_models(done@)),
            SessionBackupEvent::Uploaded { reply, buffer },
            false,
        ),
{
    let n: usize = done.len();
    match judge_partition(image_of(n), reply, buffer.as_slice()) {
        Err(e) => (SessionBackup::Closed, SessionBackupAction::Finish(Err(e))),
        Ok(bytes) => {
            let sha256 = sha256_hex(bytes.as_slice());
            let a = artifact_for(n, bytes.as_slice(), sha256);
            assert(a@ == next_artifact(artifact_models(done@), bytes@, sha256_text(bytes@)));
            (
                SessionBackup::Saving(done, a),
                SessionBackupAction::Save { file: file_of(n), data: bytes },
            )
        },
    }
}

/// One step of a backup over a session.
pub fn run_backup_with_session(state: SessionBackup, event: SessionBackupEvent, with_flash: bool) -> (r: (
    SessionBackup,
    SessionBackupAction,
))
    requires
        session_awaits(state@, event),
    ensures
        (r.0@, r.1@) == session_next(state@, event, with_flash),
{
    match (state, event) {
        (SessionBackup::Uploading(done), SessionBackupEvent::Uploaded { reply, buffer }) => {
            partition_read(done, reply, buffer)
        },
        (SessionBackup::Saving(done, a), SessionBackupEvent::Saved(Ok(_))) => {
            let done = grown(done, a);
            let n: usize = done.len();
            if n < BACKUP_IMAGES {
                (SessionBackup::Uploading(done), upload_for(n))
            } else if with_flash {
                (
                    SessionBackup::ReadingFlash(done),
                    SessionBackupAction::ReadFlash {
                        address: FLASH_CHIP_ADDR,
                        size: FULL_FLASH_SIZE,
                    },
                )
            } else {
                to_manifest(done, None)
            }
        },
        (SessionBackup::Saving(_, _), SessionBackupEvent::Saved(Err(e))) => (
            SessionBackup::Closed,
            SessionBackupAction::Finish(Err(Error::Io(e))),
        ),
        (SessionBackup::ReadingFlash(done), SessionBackupEvent::Flash(FlashCapture::Read(data))) => {
            let a = BackupArtifact {
                path: "flash-full.bin".to_owned(),
                image_type: "FullFlash".to_owned(),
                sha256: sha256_hex(data.as_slice()),
                size: data.len() as u64,
            };
            (
                SessionBackup::SavingFlash(done, a),
                SessionBackupAction::Save { file: "flash-full.bin", data },
            )
        },
        (SessionBackup::ReadingFlash(done), SessionBackupEvent::Flash(FlashCapture::Failed(e))) => {
            let mut t = labelled(
                "warning: backup: diag back-door full-flash read failed: ",
                e.as_str(),
            );
            t.append(" — continuing with partial backup");
            to_manifest(done, Some(t))
        },
        (SessionBackup::ReadingFlash(done), _) => {
            let t = "warning: backup: could not open Bar1MmapSbrTransport for full-flash capture — continuing without flash-full.bin".to_owned();
            to_manifest(done, Some(t))
        },
        (SessionBackup::SavingFlash(done, a), SessionBackupEvent::Saved(Ok(_))) => {
            to_manifest(grown(done, a), None)
        },
        (SessionBackup::SavingFlash(_, _), SessionBackupEvent::Saved(Err(e))) => (
            SessionBackup::Closed,
            SessionBackupAction::Finish(Err(Error::Io(e))),
        ),
        (SessionBackup::SavingManifest(done), SessionBackupEvent::ManifestSaved(Ok(_))) => (
            SessionBackup::Closed,
            SessionBackupAction::Finish(Ok(done)),
        ),
        (
            SessionBackup::SavingManifest(_),
            SessionBackupEvent::ManifestSaved(Err(ManifestFault::Toml(e))),
        ) => (SessionBackup::Closed, SessionBackupAction::Finish(Err(Error::TomlSer(e)))),
        (
            SessionBackup::SavingManifest(_),
            SessionBackupEvent::ManifestSaved(Err(ManifestFault::Io(e))),
        ) => (SessionBackup::Closed, SessionBackupAction::Finish(Err(Error::Io(e)))),
        _ => {
            let none: Vec<BackupArtifact> = Vec::new();
            assert(artifact_models(none@) =~= Seq::empty());
            (SessionBackup::Closed, SessionBackupAction::Finish(Ok(none)))
        },
    }
}

/// How far a backup is from its end.
pub open spec fn session_steps_left(s: SessionStage) -> int {
    match s {
        SessionStage::Uploading(d) => 2 * (BACKUP_IMAGES - d.len()) + 4,
        SessionStage::Saving(d, _) => 2 * (BACKUP_IMAGES - d.len()) + 3,
        SessionStage::ReadingFlash(_) => 3,
        SessionStage::SavingFlash(_, _) => 2,
        SessionStage::SavingManifest(_) => 1,
        SessionStage::Closed => 0,
    }
}

/// A backup comes nearer to its end with every step, and one that succeeds has a
/// file for each of the images; without an adapter to be read there is no other.
pub proof fn session_backup_ends(s: SessionStage, e: SessionBackupEvent, with_flash: bool)
    requires
        session_awaits(s, e),
        !with_flash ==> !(s is ReadingFlash) && !(s is SavingFlash) && (s matches
            SessionStage::SavingManifest(d) ==> d.len() == BACKUP_IMAGES),
    ensures
        0 <= session_steps_left(session_next(s, e, with_flash).0) < session_steps_left(s),
        session_next(s, e, with_flash).0 is Closed <==> session_next(s, e, with_flash).1 is Finish,
        session_next(s, e, with_flash).1 matches SessionDemand::Finish(Ok(d)) ==> BACKUP_IMAGES
            <= d.len() <= BACKUP_IMAGES + 1 && (!with_flash ==> d.len() == BACKUP_IMAGES),
{
}

/// A backup over a session records what it saves: where it has listed the files of some
/// images, and saves another, the entry that it keeps for that file is the entry for the
/// bytes in it.
pub proof fn session_records_what_it_saves(
    d: Seq<ArtifactModel>,
    images: Seq<Seq<u8>>,
    e: SessionBackupEvent,
    with_flash: bool,
)
    requires
        session_awaits(SessionStage::Uploading(d), e),
        records(d, images),
    ensures
        session_next(SessionStage::Uploading(d), e, with_flash).1 matches SessionDemand::Save {
            file,
            data,
        } ==> {
            &&& session_next(SessionStage::Uploading(d), e, with_flash).0 matches
                SessionStage::Saving(same, a)
            &&& same == d
            &&& file == a.path
            &&& records(d.push(a), images.push(data))
        },
{
}

/// The manifest of a backup over a session.
pub fn session_manifest(timestamp: String, artifacts: Vec<BackupArtifact>) -> (r: BackupManifest)
    ensures
        r.timestamp == timestamp,
        r.sas_wwn is None,
        r.artifacts == artifacts,
        r.source_card is None,
{
    BackupManifest { timestamp, sas_wwn: None, artifacts, source_card: None }
}

// ---------------------------------------------------------------- the laws

/// A backup goes where the user says; where the user says nothing, under a directory of its own
/// that outlives a restart, by the time at which it was started.
pub proof fn backup_outlives_restart(wanted: Option<Seq<char>>, timestamp: Seq<char>)
    ensures
        wanted matches Some(d) ==> out_dir_of(wanted, timestamp) == d,
        wanted is None ==> out_dir_of(wanted, timestamp).take(8) == seq![
            '/',
            'v',
            'a',
            'r',
            '/',
            'l',
            'i',
            'b',
        ] && out_dir_of(wanted, timestamp).skip(
            out_dir_of(wanted, timestamp).len() - timestamp.len(),
        ) == timestamp,
{
    reveal_strlit("/var/lib/lsi-flash/backups/unknown-wwn/");
    if wanted is None {
        let d = out_dir_of(wanted, timestamp);
        assert(d.take(8) =~= seq!['/', 'v', 'a', 'r', '/', 'l', 'i', 'b']);
        assert(d.skip(d.len() - timestamp.len()) =~= timestamp);
    }
}

/// A backup over a session asks for the firmware, the option ROM and the manufacturing pages, in
/// this order, each from its first byte on and with room for two mebibytes.
pub proof fn session_takes_images_in_order(d: Seq<ArtifactModel>)
    requires
        d.len() < 3,
    ensures
        session_upload(d) matches SessionDemand::Upload(cmd) && cmd.image_offset == 0
            && cmd.image_size == 0x20_0000 && cmd.buffer.len() == 0x20_0000 && cmd.image_type == (
        if d.len() == 0 {
            ImageType::Fw
        } else if d.len() == 1 {
            ImageType::Bios
        } else {
            ImageType::FlashLayout
        }),
{
}

/// What is saved of an image is the start of the buffer, as many bytes as the reply says the
/// image has, in the file of that image; a reply that is no success ends the backup.
pub proof fn session_saves_the_image(
    d: Seq<ArtifactModel>,
    reply: FwUploadReply,
    buffer: Vec<u8>,
    with_flash: bool,
    i: int,
)
    requires
        d.len() < 3,
    ensures
        ({
            let (t, a) = session_next(
                SessionStage::Uploading(d),
                SessionBackupEvent::Uploaded { reply: Ok(reply), buffer },
                with_flash,
            );
            &&& reply.ioc_status != IocStatus::Success ==> t is Closed && (
            a matches SessionDemand::Finish(o) && o is Err)
            &&& reply.ioc_status == IocStatus::Success ==> (a matches SessionDemand::Save {
                file,
                data,
            } && file == (if d.len() == 0 {
                "firmware.bin"@
            } else if d.len() == 1 {
                "bios.rom"@
            } else {
                "nvdata.bin"@
            }) && data.len() == (if reply.actual_image_size < buffer@.len() {
                reply.actual_image_size as int
            } else {
                buffer@.len() as int
            }) && (0 <= i < data.len() ==> data[i] == buffer@[i]))
        }),
{
}

/// After the three images the whole flash is read where the adapter is there to be read: eight
/// mebibytes at 0xFC000000. What was read is saved as it is and listed with its digest; what
/// could not be read is left out with a warning, and the backup goes on.
pub proof fn whole_flash_comes_last(
    d: Seq<ArtifactModel>,
    a: ArtifactModel,
    bytes: Vec<u8>,
    why: String,
)
    requires
        d.len() == 2,
    ensures
        session_next(SessionStage::Saving(d, a), SessionBackupEvent::Saved(Ok(())), true) == (
            SessionStage::ReadingFlash(d.push(a)),
            SessionDemand::ReadFlash { address: 0xFC00_0000, size: 0x80_0000 },
        ),
        session_next(SessionStage::Saving(d, a), SessionBackupEvent::Saved(Ok(())), false) == (
            SessionStage::SavingManifest(d.push(a)),
            SessionDemand::SaveManifest { artifacts: d.push(a), warning: None },
        ),
        ({
            let (t, s) = session_next(
                SessionStage::ReadingFlash(d.push(a)),
                SessionBackupEvent::Flash(FlashCapture::Read(bytes)),
                true,
            );
            &&& s == (SessionDemand::Save { file: "flash-full.bin"@, data: bytes@ })
            &&& t matches SessionStage::SavingFlash(same, f) && same == d.push(a) && f.path
                == "flash-full.bin"@ && f.size == bytes@.len() as u64 && f.sha256 == sha256_text(
                bytes@,
            )
        }),
        ({
            let (t, s) = session_next(
                SessionStage::ReadingFlash(d.push(a)),
                SessionBackupEvent::Flash(FlashCapture::Failed(why)),
                true,
            );
            &&& t == SessionStage::SavingManifest(d.push(a))
            &&& s matches SessionDemand::SaveManifest { artifacts, warning } && artifacts == d.push(
                a,
            ) && warning is Some
        }),
{
}

/// A file that cannot be written ends a backup with the reason, and a manifest that was written
/// ends it with the list of files.
pub proof fn unsaved_file_ends_backup(
    d: Seq<ArtifactModel>,
    a: ArtifactModel,
    why: String,
    with_flash: bool,
)
    ensures
        session_next(
            SessionStage::Saving(d, a),
            SessionBackupEvent::Saved(Err(why)),
            with_flash,
        ).1 == SessionDemand::Finish(Err(Error::Io(why))),
        session_next(
            SessionStage::SavingFlash(d, a),
            SessionBackupEvent::Saved(Err(why)),
            with_flash,
        ).1 == SessionDemand::Finish(Err(Error::Io(why))),
        session_next(
            SessionStage::SavingManifest(d),
            SessionBackupEvent::ManifestSaved(Ok(())),
            with_flash,
        ).1 == SessionDemand::Finish(Ok(d)),
{
}

/// A backup over a session takes three images, no more and no fewer: after the first and the
/// second that were saved the next is asked for, and only after the third it goes on, with all
/// three on the list.
pub proof fn session_takes_three_images(
    d: Seq<ArtifactModel>,
    a: ArtifactModel,
    e: SessionBackupEvent,
    with_flash: bool,
)
    requires
        d.len() < 3,
        e matches SessionBackupEvent::Saved(o) && o is Ok,
    ensures
        ({
            let (t, x) = session_next(SessionStage::Saving(d, a), e, with_flash);
            &&& d.len() < 2 ==> t == SessionStage::Uploading(d.push(a)) && x is Upload
            &&& d.len() == 2 && with_flash ==> t == SessionStage::ReadingFlash(d.push(a))
                && x is ReadFlash
            &&& d.len() == 2 && !with_flash ==> t == SessionStage::SavingManifest(d.push(a))
                && x == (SessionDemand::SaveManifest { artifacts: d.push(a), warning: None })
        }),
{
}

} // verus!
