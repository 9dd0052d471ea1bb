//! Flashing an adapter: the order of the steps, and what each needs.
//!
//! The steps that talk to the adapter go through a session. What only the machine
//! around it can tell or do (the disks behind the adapter, the time, the backup) comes
//! in as the input of a step.

use crate::bytes::to_vec;
use crate::cli::backup::{out_dir_of, resolve_out_dir, BackupError};
use crate::cli::safety::{
    all_concerns, check_all, concern_models, concern_text, joined_messages, SafetyError,
    SystemState, TextSource,
};
use crate::cli::Mode;
use crate::mpi::messages::{
    ImageType, IocInitReply, IocInitRequest, IocStatus, MpiError, ToolboxCleanFlags,
    ToolboxCleanRequest, ToolboxReply,
};
use crate::mpi::mock_ioc::MockIoc;
use crate::mpi::session::{
    following_id, verified_download, IocBackend, Personality, Session,
};
use crate::text::{
    chars_of, dec, is_white, labelled, opt_text, push_dec, strings, trim, trimmed,
    trimming_is_exact,
};
use vstd::prelude::*;

verus! {

/// Why flashing was given up.
#[derive(Debug, PartialEq)]
pub enum AbortReason {
    /// The disks behind the adapter are in use.
    SafetyGuardTripped(String),
    /// The adapter runs another kind of firmware than it should.
    PersonalityMismatch { running: Personality, target: Personality },
    /// The backup failed.
    BackupFailed(String),
    /// The controller refused a request.
    IocStatusError(IocStatus),
    /// What was read back is not what was written.
    VerifyMismatch { offset: usize },
    /// The user said no.
    UserDeclined,
}

/// What a reason stands for.
#[verifier::ext_equal]
pub enum ReasonModel {
    Safety(Seq<char>),
    Mismatch { running: Personality, target: Personality },
    Backup(Seq<char>),
    Status(IocStatus),
    Verify(usize),
    Declined,
}

impl View for AbortReason {
    type V = ReasonModel;

    open spec fn view(&self) -> ReasonModel {
        match self {
            AbortReason::SafetyGuardTripped(m) => ReasonModel::Safety(m@),
            AbortReason::PersonalityMismatch { running, target } => ReasonModel::Mismatch {
                running: *running,
                target: *target,
            },
            AbortReason::BackupFailed(m) => ReasonModel::Backup(m@),
            AbortReason::IocStatusError(s) => ReasonModel::Status(*s),
            AbortReason::VerifyMismatch { offset } => ReasonModel::Verify(*offset),
            AbortReason::UserDeclined => ReasonModel::Declined,
        }
    }
}

/// Two personalities in words.
pub open spec fn mismatch_text(running: Personality, target: Personality) -> Seq<char> {
    "personality mismatch: running="@ + running.spec_name() + " target="@ + target.spec_name()
}

fn mismatch(running: Personality, target: Personality) -> (r: String)
    ensures
        r@ == mismatch_text(running, target),
{
    let mut t = labelled("personality mismatch: running=", running.name());
    t.append(" target=");
    t.append(target.name());
    t
}

impl ReasonModel {
    /// The reason in words.
    pub open spec fn words(self) -> Seq<char> {
        match self {
            ReasonModel::Safety(m) => "safety guard tripped: "@ + m,
            ReasonModel::Mismatch { running, target } => mismatch_text(running, target),
            ReasonModel::Backup(m) => "backup failed: "@ + m,
            ReasonModel::Status(s) => "IOC status error: "@ + s.spec_name(),
            ReasonModel::Verify(offset) => "verify mismatch at byte offset "@ + dec(offset as nat),
            ReasonModel::Declined => "user declined confirmation"@,
        }
    }
}

impl AbortReason {
    /// The reason in words.
    pub fn text(&self) -> (r: String)
        ensures
            r@ == self@.words(),
    {
        match self {
            AbortReason::SafetyGuardTripped(m) => labelled("safety guard tripped: ", m.as_str()),
            AbortReason::PersonalityMismatch { running, target } => mismatch(*running, *target),
            AbortReason::BackupFailed(m) => labelled("backup failed: ", m.as_str()),
            AbortReason::IocStatusError(s) => labelled("IOC status error: ", s.name()),
            AbortReason::VerifyMismatch { offset } => {
                let mut t = "verify mismatch at byte offset ".to_owned();
                push_dec(&mut t, *offset as u64);
                t
            },
            AbortReason::UserDeclined => "user declined confirmation".to_owned(),
        }
    }
}

impl Clone for AbortReason {
    fn clone(&self) -> (r: Self)
        ensures
            r@ == self@,
    {
        match self {
            AbortReason::SafetyGuardTripped(m) => AbortReason::SafetyGuardTripped(m.clone()),
            AbortReason::PersonalityMismatch { running, target } => {
                AbortReason::PersonalityMismatch { running: *running, target: *target }
            },
            AbortReason::BackupFailed(m) => AbortReason::BackupFailed(m.clone()),
            AbortReason::IocStatusError(s) => AbortReason::IocStatusError(*s),
            AbortReason::VerifyMismatch { offset } => AbortReason::VerifyMismatch {
                offset: *offset,
            },
            AbortReason::UserDeclined => AbortReason::UserDeclined,
        }
    }
}

/// Errors of flashing.
#[derive(Debug)]
pub enum FlashError {
    /// A message failed.
    Mpi(MpiError),
    /// The backup failed.
    Backup(BackupError),
    /// The disks behind the adapter are in use, or nobody knows.
    SafetyGuard(String),
    /// The adapter runs another kind of firmware than is to be written.
    PersonalityMismatch { running: Personality, target: Personality },
    /// The user said no.
    Declined,
    /// Something cannot be read.
    Io(String),
    /// Flashing was given up.
    Abort { reason: AbortReason },
    /// The backup failed.
    BackupModule(String),
}

/// What an error stands for.
#[verifier::ext_equal]
pub enum FlashFailure {
    Mpi(MpiError),
    Backup(BackupError),
    Safety(Seq<char>),
    Mismatch { running: Personality, target: Personality },
    Declined,
    Io(Seq<char>),
    Abort(ReasonModel),
    BackupModule(Seq<char>),
}

impl View for FlashError {
    type V = FlashFailure;

    open spec fn view(&self) -> FlashFailure {
        match self {
            FlashError::Mpi(e) => FlashFailure::Mpi(*e),
            FlashError::Backup(e) => FlashFailure::Backup(*e),
            FlashError::SafetyGuard(m) => FlashFailure::Safety(m@),
            FlashError::PersonalityMismatch { running, target } => FlashFailure::Mismatch {
                running: *running,
                target: *target,
            },
            FlashError::Declined => FlashFailure::Declined,
            FlashError::Io(e) => FlashFailure::Io(e@),
            FlashError::Abort { reason } => FlashFailure::Abort(reason@),
            FlashError::BackupModule(m) => FlashFailure::BackupModule(m@),
        }
    }
}

impl FlashError {
    /// The error in words.
    pub open spec fn spec_text(&self) -> Seq<char> {
        match self {
            FlashError::Mpi(e) => "MPI: "@ + e.spec_text(),
            FlashError::Backup(e) => "backup: "@ + e.spec_text(),
            FlashError::SafetyGuard(m) => "safety guard tripped: "@ + m@,
            FlashError::PersonalityMismatch { running, target } => mismatch_text(*running, *target),
            FlashError::Declined => "user declined confirmation"@,
            FlashError::Io(e) => "io: "@ + e@,
            FlashError::Abort { reason } => "abort: "@ + reason@.words(),
            FlashError::BackupModule(m) => "backup module error: "@ + m@,
        }
    }

    /// The error in words.
    pub fn text(&self) -> (r: String)
        ensures
            r@ == self.spec_text(),
    {
        match self {
            FlashError::Mpi(e) => labelled("MPI: ", e.text().as_str()),
            FlashError::Backup(e) => labelled("backup: ", e.text().as_str()),
            FlashError::SafetyGuard(m) => labelled("safety guard tripped: ", m.as_str()),
            FlashError::PersonalityMismatch { running, target } => mismatch(*running, *target),
            FlashError::Declined => "user declined confirmation".to_owned(),
            FlashError::Io(e) => labelled("io: ", e.as_str()),
            FlashError::Abort { reason } => labelled("abort: ", reason.text().as_str()),
            FlashError::BackupModule(m) => labelled("backup module error: ", m.as_str()),
        }
    }
}

// ----------------------------------------------------------------- phases

/// Where flashing stands: the step that comes next.
#[derive(Debug, PartialEq)]
pub enum Phase {
    /// Find out which firmware runs.
    Detect,
    /// Make sure that flashing is safe.
    Halt { current_personality: Personality },
    /// Back up the adapter.
    Backup { backup_dir: String },
    /// Load other firmware into the memory of the controller.
    Hostboot { target_personality: Personality },
    /// Erase the flash.
    Erase,
    /// Write the firmware.
    DownloadFw { image: Vec<u8> },
    /// Write the option ROM.
    DownloadBios { image: Vec<u8> },
    /// Write the board record.
    WriteSbr { sbr: Vec<u8> },
    /// Start the controller anew.
    Restart,
    /// See that the right firmware runs.
    Verify { expected_personality: Personality },
    /// All went well.
    Done,
    /// Flashing was given up.
    Aborted { reason: AbortReason, backup_dir: Option<String> },
}

/// What a phase stands for.
#[verifier::ext_equal]
pub enum PhaseModel {
    Detect,
    Halt(Personality),
    Backup(Seq<char>),
    Hostboot(Personality),
    Erase,
    DownloadFw(Seq<u8>),
    DownloadBios(Seq<u8>),
    WriteSbr(Seq<u8>),
    Restart,
    Verify(Personality),
    Done,
    Aborted(ReasonModel, Option<Seq<char>>),
}

impl View for Phase {
    type V = PhaseModel;

    open spec fn view(&self) -> PhaseModel {
        match self {
            Phase::Detect => PhaseModel::Detect,
            Phase::Halt { current_personality } => PhaseModel::Halt(*current_personality),
            Phase::Backup { backup_dir } => PhaseModel::Backup(backup_dir@),
            Phase::Hostboot { target_personality } => PhaseModel::Hostboot(*target_personality),
            Phase::Erase => PhaseModel::Erase,
            Phase::DownloadFw { image } => PhaseModel::DownloadFw(image@),
            Phase::DownloadBios { image } => PhaseModel::DownloadBios(image@),
            Phase::WriteSbr { sbr } => PhaseModel::WriteSbr(sbr@),
            Phase::Restart => PhaseModel::Restart,
            Phase::Verify { expected_personality } => PhaseModel::Verify(*expected_personality),
            Phase::Done => PhaseModel::Done,
            Phase::Aborted { reason, backup_dir } => PhaseModel::Aborted(
                reason@,
                opt_text(*backup_dir),
            ),
        }
    }
}

impl Default for Phase {
    fn default() -> (r: Self)
        ensures
            r@ == PhaseModel::Detect,
    {
        Phase::Detect
    }
}

impl Clone for Phase {
    fn clone(&self) -> (r: Self)
        ensures
            r@ == self@,
    {
        match self {
            Phase::Detect => Phase::Detect,
            Phase::Halt { current_personality } => Phase::Halt {
                current_personality: *current_personality,
            },
            Phase::Backup { backup_dir } => Phase::Backup { backup_dir: backup_dir.clone() },
            Phase::Hostboot { target_personality } => Phase::Hostboot {
                target_personality: *target_personality,
            },
            Phase::Erase => Phase::Erase,
            Phase::DownloadFw { image } => {
                let image = to_vec(image.as_slice());
                Phase::DownloadFw { image }
            },
            Phase::DownloadBios { image } => {
                let image = to_vec(image.as_slice());
                Phase::DownloadBios { image }
            },
            Phase::WriteSbr { sbr } => {
                let sbr = to_vec(sbr.as_slice());
                Phase::WriteSbr { sbr }
            },
            Phase::Restart => Phase::Restart,
            Phase::Verify { expected_personality } => Phase::Verify {
                expected_personality: *expected_personality,
            },
            Phase::Done => Phase::Done,
            Phase::Aborted { reason, backup_dir } => Phase::Aborted {
                reason: reason.clone(),
                backup_dir: backup_dir.clone(),
            },
        }
    }
}

/// The firmware that a mode asks for.
pub open spec fn personality_of(mode: Mode) -> Personality {
    match mode {
        Mode::HBA => Personality::It,
        Mode::RAID => Personality::Ir,
    }
}

/// The firmware that a mode asks for.
pub fn mode_to_personality(mode: Mode) -> (r: Personality)
    ensures
        r == personality_of(mode),
{
    match mode {
        Mode::HBA => Personality::It,
        Mode::RAID => Personality::Ir,
    }
}

/// What the machine around the adapter has to give for a step.
#[derive(Debug)]
pub enum StepInput {
    /// Nothing.
    Nothing,
    /// The disks behind the adapter, what the machine says about its disks, and the time.
    Surroundings {
        devices: Result<Vec<String>, SafetyError>,
        system: SystemState,
        timestamp: String,
    },
    /// The backup was made, or why not.
    BackedUp(Result<(), String>),
}

/// What a step needs from the machine around the adapter.
#[derive(Debug, Clone, Copy, PartialEq, Eq, Structural)]
pub enum StepDemand {
    /// Nothing.
    Nothing,
    /// A look at the disks and the clock.
    Surroundings,
    /// A backup.
    Backup,
}

/// What an orchestrator was told.
#[derive(Debug, Clone, Copy, PartialEq, Eq, Structural)]
pub struct Settings {
    pub mode: Mode,
    pub dry_run: bool,
}

/// What the step at a phase needs.
pub open spec fn demand(c: Settings, at: PhaseModel) -> StepDemand {
    match at {
        PhaseModel::Halt(p) if p == personality_of(c.mode) => StepDemand::Surroundings,
        PhaseModel::Backup(_) if !c.dry_run => StepDemand::Backup,
        _ => StepDemand::Nothing,
    }
}

/// Whether an input is what a step needs.
pub open spec fn answers(d: StepDemand, input: StepInput) -> bool {
    match d {
        StepDemand::Nothing => true,
        StepDemand::Surroundings => input is Surroundings,
        StepDemand::Backup => input is BackedUp,
    }
}

/// What the look at the disks behind the adapter comes to: the message of what is in the
/// way, or nothing.
pub open spec fn safety_verdict(
    dry_run: bool,
    devices: Result<Vec<String>, SafetyError>,
    system: SystemState,
) -> Option<Seq<char>> {
    match devices {
        Err(e) => Some(e.spec_text()),
        Ok(v) => if dry_run {
            None
        } else {
            match system.mounts {
                TextSource::Broken(e) => Some("io: "@ + e@),
                _ => {
                    let found = all_concerns(system, strings(v@));
                    if found.len() > 0 {
                        Some(joined_messages(found))
                    } else {
                        None
                    }
                },
            }
        },
    }
}

/// Looks at the disks behind the adapter. In a dry run it is enough that they are known.
pub fn check_safety_guards(
    dry_run: bool,
    devices: &Result<Vec<String>, SafetyError>,
    system: &SystemState,
) -> (r: Result<(), FlashError>)
    ensures
        match safety_verdict(dry_run, *devices, *system) {
            Some(m) => r is Err && r->Err_0@ == FlashFailure::Safety(m),
            None => r is Ok,
        },
{
    let list = match devices {
        Ok(v) => v,
        Err(e) => return Err(FlashError::SafetyGuard(e.text())),
    };
    if dry_run {
        return Ok(());
    }
    let concerns = match check_all(list, system) {
        Ok(v) => v,
        Err(e) => return Err(FlashError::SafetyGuard(e.text())),
    };
    assert(concern_models(concerns@).len() == concerns@.len());
    if concerns.len() > 0 {
        return Err(FlashError::SafetyGuard(concern_text(&concerns)));
    }
    Ok(())
}

/// The directory of a backup that was started at a time: where every backup goes
/// for which none was named, and so never a place that a restart clears.
pub fn compute_backup_dir(timestamp: &str) -> (r: String)
    ensures
        r@ == out_dir_of(None, timestamp@),
{
    resolve_out_dir(&None, timestamp)
}

/// The message that starts the controller.
pub open spec fn start_request() -> IocInitRequest {
    IocInitRequest {
        who_init: 0x04,
        host_msix_vectors: 0,
        reply_descriptor_post_queue_depth: 16,
        system_request_frame_base_address: 0,
        reply_descriptor_post_queue_address: 0,
    }
}

fn init_request() -> (r: IocInitRequest)
    ensures
        r == start_request(),
{
    IocInitRequest {
        who_init: 0x04,
        host_msix_vectors: 0,
        reply_descriptor_post_queue_depth: 16,
        system_request_frame_base_address: 0,
        reply_descriptor_post_queue_address: 0,
    }
}

/// The request that erases the firmware and the flash.
pub open spec fn erase_request() -> ToolboxCleanRequest {
    ToolboxCleanRequest { flags: ToolboxCleanFlags { raw: 0x10000000u32 | 0x00000004u32 } }
}

// ------------------------------------------------------------------ steps

/// Erasing takes the backend from `pre` to `post` and gives `r`: the controller is
/// started, then told to erase. Anything but a success ends it.
pub open spec fn erased<B: IocBackend>(
    pre: B,
    post: B,
    r: Result<PhaseModel, FlashFailure>,
) -> bool {
    exists|mid: B, i: Result<IocInitReply, MpiError>| #[trigger]
        B::init_step(pre, start_request(), mid, i) && match i {
            Err(e) => post == mid && r == Err::<PhaseModel, FlashFailure>(FlashFailure::Mpi(e)),
            Ok(_) => cleaned(mid, post, r),
        }
}

/// The request to erase takes the backend from `pre` to `post` and gives `r`.
pub open spec fn cleaned<B: IocBackend>(
    pre: B,
    post: B,
    r: Result<PhaseModel, FlashFailure>,
) -> bool {
    exists|t: Result<ToolboxReply, MpiError>| #[trigger]
        B::toolbox_step(pre, erase_request(), post, t) && match t {
            Err(e) => r == Err::<PhaseModel, FlashFailure>(FlashFailure::Mpi(e)),
            Ok(reply) => if reply.ioc_status != IocStatus::Success {
                r == Ok::<PhaseModel, FlashFailure>(
                    PhaseModel::Aborted(ReasonModel::Status(reply.ioc_status), None),
                )
            } else {
                r == Ok::<PhaseModel, FlashFailure>(PhaseModel::DownloadFw(Seq::empty()))
            },
        }
}

/// Writing an image takes the backend from `pre` to `post`; `next` comes after success.
pub open spec fn written<B: IocBackend>(
    pre: B,
    image_type: ImageType,
    target: Personality,
    image: Seq<u8>,
    next: PhaseModel,
    post: B,
    r: Result<PhaseModel, FlashFailure>,
) -> bool {
    exists|d: Result<(), MpiError>| #[trigger]
        verified_download(pre, image_type, target, image, post, d) && match d {
            Err(e) => r == Err::<PhaseModel, FlashFailure>(FlashFailure::Mpi(e)),
            Ok(_) => r == Ok::<PhaseModel, FlashFailure>(next),
        }
}

/// Writing an image in a session of its own takes the backend from `pre` to `post`: the
/// controller is started anew, and only then is the image written.
pub open spec fn written_anew<B: IocBackend>(
    pre: B,
    image_type: ImageType,
    target: Personality,
    image: Seq<u8>,
    next: PhaseModel,
    post: B,
    r: Result<PhaseModel, FlashFailure>,
) -> bool {
    exists|mid: B, i: Result<IocInitReply, MpiError>| #[trigger]
        B::init_step(pre, start_request(), mid, i) && match i {
            Err(e) => post == mid && r == Err::<PhaseModel, FlashFailure>(FlashFailure::Mpi(e)),
            Ok(_) => written(mid, image_type, target, image, next, post, r),
        }
}

/// Starting the controller takes the backend from `pre` to `post`; `next` comes after an
/// answer.
pub open spec fn restarted<B: IocBackend>(
    pre: B,
    next: PhaseModel,
    post: B,
    r: Result<PhaseModel, FlashFailure>,
) -> bool {
    exists|i: Result<IocInitReply, MpiError>| #[trigger]
        B::init_step(pre, start_request(), post, i) && match i {
            Err(e) => r == Err::<PhaseModel, FlashFailure>(FlashFailure::Mpi(e)),
            Ok(_) => r == Ok::<PhaseModel, FlashFailure>(next),
        }
}

/// The question which firmware runs gives `r`.
pub open spec fn detected<B: IocBackend>(pre: B, r: Result<PhaseModel, FlashFailure>) -> bool {
    exists|p: Result<Personality, MpiError>| #[trigger]
        B::personality_step(pre, p) && match p {
            Err(e) => r == Err::<PhaseModel, FlashFailure>(FlashFailure::Mpi(e)),
            Ok(running) => r == Ok::<PhaseModel, FlashFailure>(PhaseModel::Halt(running)),
        }
}

/// The question whether the right firmware runs gives `r`.
pub open spec fn verified<B: IocBackend>(
    pre: B,
    expected: Personality,
    r: Result<PhaseModel, FlashFailure>,
) -> bool {
    exists|p: Result<Personality, MpiError>| #[trigger]
        B::personality_step(pre, p) && match p {
            Err(e) => r == Err::<PhaseModel, FlashFailure>(FlashFailure::Mpi(e)),
            Ok(running) => r == Ok::<PhaseModel, FlashFailure>(
                if running == expected {
                    PhaseModel::Done
                } else {
                    PhaseModel::Aborted(
                        ReasonModel::Mismatch { running, target: expected },
                        None,
                    )
                },
            ),
        }
}

/// What comes after the phase in which safety is seen to.
pub open spec fn halted(c: Settings, running: Personality, input: StepInput) -> Result<
    PhaseModel,
    FlashFailure,
> {
    let target = personality_of(c.mode);
    if running != target {
        Ok(PhaseModel::Hostboot(target))
    } else {
        match input {
            StepInput::Surroundings { devices, system, timestamp } => match safety_verdict(
                c.dry_run,
                devices,
                system,
            ) {
                Some(m) => Err(FlashFailure::Safety(m)),
                None => Ok(PhaseModel::Backup(out_dir_of(None, timestamp@))),
            },
            _ => arbitrary(),
        }
    }
}

/// What comes after the backup.
pub open spec fn backed_up(c: Settings, input: StepInput) -> Result<PhaseModel, FlashFailure> {
    if c.dry_run {
        Ok(PhaseModel::Erase)
    } else {
        match input {
            StepInput::BackedUp(Err(e)) => Err(
                FlashFailure::BackupModule("backup module error: "@ + e@),
            ),
            StepInput::BackedUp(Ok(_)) => Ok(PhaseModel::Erase),
            _ => arbitrary(),
        }
    }
}

/// The step at a phase takes the backend from `pre` to `post` and gives `r`: the phase
/// that comes next, or an error.
pub open spec fn flash_step<B: IocBackend>(
    c: Settings,
    pre: B,
    at: PhaseModel,
    input: StepInput,
    post: B,
    r: Result<PhaseModel, FlashFailure>,
) -> bool {
    let target = personality_of(c.mode);
    match at {
        PhaseModel::Detect => post == pre && detected(pre, r),
        PhaseModel::Halt(running) => post == pre && r == halted(c, running, input),
        PhaseModel::Backup(_) => post == pre && r == backed_up(c, input),
        PhaseModel::Hostboot(p) => post == pre && r == Ok::<PhaseModel, FlashFailure>(
            PhaseModel::Halt(p),
        ),
        PhaseModel::Erase => if c.dry_run {
            post == pre && r == Ok::<PhaseModel, FlashFailure>(PhaseModel::DownloadFw(Seq::empty()))
        } else {
            erased(pre, post, r)
        },
        PhaseModel::DownloadFw(image) => if c.dry_run {
            post == pre && r == Ok::<PhaseModel, FlashFailure>(
                PhaseModel::DownloadBios(Seq::empty()),
            )
        } else {
            written(
                pre,
                ImageType::Fw,
                target,
                image,
                PhaseModel::DownloadBios(Seq::empty()),
                post,
                r,
            )
        },
        PhaseModel::DownloadBios(image) => if c.dry_run {
            post == pre && r == Ok::<PhaseModel, FlashFailure>(PhaseModel::WriteSbr(Seq::empty()))
        } else {
            written_anew(
                pre,
                ImageType::Bios,
                target,
                image,
                PhaseModel::WriteSbr(Seq::empty()),
                post,
                r,
            )
        },
        PhaseModel::WriteSbr(_) => post == pre && r == Ok::<PhaseModel, FlashFailure>(
            PhaseModel::Restart,
        ),
        PhaseModel::Restart => if c.dry_run {
            post == pre && r == Ok::<PhaseModel, FlashFailure>(PhaseModel::Verify(target))
        } else {
            restarted(pre, PhaseModel::Verify(target), post, r)
        },
        PhaseModel::Verify(expected) => post == pre && verified(pre, expected, r),
        PhaseModel::Done => post == pre && r == Ok::<PhaseModel, FlashFailure>(at),
        PhaseModel::Aborted(_, _) => post == pre && r == Ok::<PhaseModel, FlashFailure>(at),
    }
}

/// The id of the next message is `after` where it was `id` before the step at a phase. The
/// option ROM is written in a new session, which takes one id to start the controller.
pub open spec fn id_step(c: Settings, at: PhaseModel, id: u16, after: u16) -> bool {
    if c.dry_run {
        after == id
    } else {
        match at {
            PhaseModel::Erase => after == following_id(id) || after == following_id(
                following_id(id),
            ),
            PhaseModel::DownloadBios(_) => after == 2,
            PhaseModel::Restart => after == following_id(id),
            _ => after == id,
        }
    }
}

/// What a result of a step stands for.
pub open spec fn step_result(r: Result<Phase, FlashError>) -> Result<PhaseModel, FlashFailure> {
    match r {
        Ok(p) => Ok(p@),
        Err(e) => Err(e@),
    }
}

/// Flashing one adapter.
pub struct Orchestrator<B: IocBackend> {
    session: Session<B>,
    mode: Mode,
    identity: Option<String>,
    dry_run: bool,
    yes: bool,
    keep_sas_address: bool,
    state: Phase,
}

impl<B: IocBackend> Orchestrator<B> {
    /// What the orchestrator was told.
    pub closed spec fn settings(&self) -> Settings {
        Settings { mode: self.mode, dry_run: self.dry_run }
    }

    /// Whether the user has agreed beforehand.
    pub closed spec fn agreed(&self) -> bool {
        self.yes
    }

    /// The identity that the adapter is to get, and whether it keeps its address.
    pub closed spec fn wishes(&self) -> (Option<Seq<char>>, bool) {
        (opt_text(self.identity), self.keep_sas_address)
    }

    /// The adapter.
    pub closed spec fn backend(&self) -> B {
        self.session@
    }

    /// The id of the next message to the adapter.
    pub closed spec fn next_id(&self) -> u16 {
        self.session.next_id()
    }

    /// Where flashing stands.
    pub closed spec fn phase(&self) -> PhaseModel {
        self.state@
    }

    /// Gets ready to flash.
    pub fn new(
        session: Session<B>,
        mode: Mode,
        identity: Option<String>,
        dry_run: bool,
        yes: bool,
        keep_sas_address: bool,
    ) -> (r: Self)
        ensures
            r.settings() == (Settings { mode, dry_run }),
            r.agreed() == yes,
            r.wishes() == (opt_text(identity), keep_sas_address),
            r.backend() == session@,
            r.next_id() == session.next_id(),
            r.phase() == PhaseModel::Detect,
    {
        Orchestrator {
            session,
            mode,
            identity,
            dry_run,
            yes,
            keep_sas_address,
            state: Phase::Detect,
        }
    }

    /// Whether the user has to be asked.
    pub fn needs_confirmation(&self) -> (r: bool)
        ensures
            r == (!self.agreed() && !self.settings().dry_run),
    {
        !self.yes && !self.dry_run
    }

    /// Where flashing stands.
    pub fn current(&self) -> (r: &Phase)
        ensures
            r@ == self.phase(),
    {
        &self.state
    }

    /// Whether nothing is done to the adapter.
    pub fn is_dry_run(&self) -> (r: bool)
        ensures
            r == self.settings().dry_run,
    {
        self.dry_run
    }

    /// What the next step needs.
    pub fn wants(&self) -> (r: StepDemand)
        ensures
            r == demand(self.settings(), self.phase()),
    {
        match &self.state {
            Phase::Halt { current_personality } => {
                if *current_personality == mode_to_personality(self.mode) {
                    StepDemand::Surroundings
                } else {
                    StepDemand::Nothing
                }
            },
            Phase::Backup { .. } => {
                if self.dry_run {
                    StepDemand::Nothing
                } else {
                    StepDemand::Backup
                }
            },
            _ => StepDemand::Nothing,
        }
    }

    /// Takes one step. After an error flashing has to begin anew.
    pub fn transition(&mut self, input: StepInput) -> (r: Result<(), FlashError>)
        requires
            answers(demand(old(self).settings(), old(self).phase()), input),
        ensures
            final(self).settings() == old(self).settings(),
            final(self).agreed() == old(self).agreed(),
            final(self).wishes() == old(self).wishes(),
            r is Err ==> final(self).phase() == PhaseModel::Detect,
            id_step(
                old(self).settings(),
                old(self).phase(),
                old(self).next_id(),
                final(self).next_id(),
            ),
            flash_step(
                old(self).settings(),
                old(self).backend(),
                old(self).phase(),
                input,
                final(self).backend(),
                match r {
                    Ok(_) => Ok(final(self).phase()),
                    Err(e) => Err(e@),
                },
            ),
    {
        match self.step(input) {
            Ok(next) => {
                self.state = next;
                Ok(())
            },
            Err(e) => {
                self.state = Phase::Detect;
                Err(e)
            },
        }
    }

    fn step(&mut self, input: StepInput) -> (r: Result<Phase, FlashError>)
        requires
            answers(demand(old(self).settings(), old(self).phase()), input),
        ensures
            final(self).settings() == old(self).settings(),
            final(self).agreed() == old(self).agreed(),
            final(self).wishes() == old(self).wishes(),
            final(self).phase() == old(self).phase(),
            id_step(
                old(self).settings(),
                old(self).phase(),
                old(self).next_id(),
                final(self).next_id(),
            ),
            flash_step(
                old(self).settings(),
                old(self).backend(),
                old(self).phase(),
                input,
                final(self).backend(),
                step_result(r),
            ),
    {
        match &self.state {
            Phase::Detect => self.step_detect(),
            Phase::Halt { current_personality } => {
                let running = *current_personality;
                self.step_halt(running, input)
            },
            Phase::Backup { .. } => self.step_backup(input),
            Phase::Hostboot { target_personality } => Ok(
                Phase::Halt { current_personality: *target_personality },
            ),
            Phase::Erase => self.step_erase(),
            Phase::DownloadFw { image } => {
                let image = to_vec(image.as_slice());
                self.step_download_fw(image)
            },
            Phase::DownloadBios { image } => {
                let image = to_vec(image.as_slice());
                self.step_download_bios(image)
            },
            Phase::WriteSbr { .. } => Ok(Phase::Restart),
            Phase::Restart => self.step_restart(),
            Phase::Verify { expected_personality } => {
                let expected = *expected_personality;
                self.step_verify(expected)
            },
            Phase::Done => Ok(Phase::Done),
            Phase::Aborted { .. } => Ok(self.state.clone()),
        }
    }

    fn step_detect(&self) -> (r: Result<Phase, FlashError>)
        ensures
            detected(self.backend(), step_result(r)),
    {
        let p = self.session.current_personality();
        assert(B::personality_step(self.backend(), p));
        match p {
            Ok(running) => Ok(Phase::Halt { current_personality: running }),
            Err(e) => Err(FlashError::Mpi(e)),
        }
    }

    fn step_halt(&self, running: Personality, input: StepInput) -> (r: Result<Phase, FlashError>)
        requires
            running == personality_of(self.settings().mode) ==> input is Surroundings,
        ensures
            step_result(r) == halted(self.settings(), running, input),
    {
        let target = mode_to_personality(self.mode);
        if running != target {
            return Ok(Phase::Hostboot { target_personality: target });
        }
        match input {
            StepInput::Surroundings { devices, system, timestamp } => {
                match check_safety_guards(self.dry_run, &devices, &system) {
                    Ok(_) => Ok(Phase::Backup { backup_dir: compute_backup_dir(timestamp.as_str()) }),
                    Err(e) => Err(e),
                }
            },
            _ => Ok(Phase::Detect),
        }
    }

    fn step_backup(&self, input: StepInput) -> (r: Result<Phase, FlashError>)
        requires
            self.settings().dry_run || input is BackedUp,
        ensures
            step_result(r) == backed_up(self.settings(), input),
    {
        if self.dry_run {
            return Ok(Phase::Erase);
        }
        match input {
            StepInput::BackedUp(Err(e)) => Err(
                FlashError::BackupModule(labelled("backup module error: ", e.as_str())),
            ),
            _ => Ok(Phase::Erase),
        }
    }

    fn step_erase(&mut self) -> (r: Result<Phase, FlashError>)
        ensures
            final(self).settings() == old(self).settings(),
            final(self).agreed() == old(self).agreed(),
            final(self).wishes() == old(self).wishes(),
            final(self).phase() == old(self).phase(),
            id_step(
                old(self).settings(),
                PhaseModel::Erase,
                old(self).next_id(),
                final(self).next_id(),
            ),
            if old(self).settings().dry_run {
                final(self).backend() == old(self).backend() && step_result(r) == Ok::<
                    PhaseModel,
                    FlashFailure,
                >(PhaseModel::DownloadFw(Seq::empty()))
            } else {
                erased(old(self).backend(), final(self).backend(), step_result(r))
            },
    {
        let nothing: Vec<u8> = Vec::new();
        assert(nothing@ =~= Seq::empty());
        if self.dry_run {
            return Ok(Phase::DownloadFw { image: nothing });
        }
        let ghost pre = self.session@;
        let i = self.session.raw_ioc_init(&init_request());
        let ghost mid = self.session@;
        assert(B::init_step(pre, start_request(), mid, i));
        match i {
            Ok(_) => {},
            Err(e) => return Err(FlashError::Mpi(e)),
        }
        let req = ToolboxCleanRequest {
            flags: ToolboxCleanFlags::fw_current() | ToolboxCleanFlags::flash(),
        };
        assert(req == erase_request());
        let t = self.session.raw_toolbox_clean(&req);
        assert(B::toolbox_step(mid, erase_request(), self.session@, t));
        let r = match t {
            Ok(reply) => if reply.ioc_status.is_flash_hard_stop() {
                Ok(
                    Phase::Aborted {
                        reason: AbortReason::IocStatusError(reply.ioc_status),
                        backup_dir: None,
                    },
                )
            } else {
                Ok(Phase::DownloadFw { image: nothing })
            },
            Err(e) => Err(FlashError::Mpi(e)),
        };
        assert(cleaned(mid, self.session@, step_result(r)));
        r
    }

    fn step_download_fw(&mut self, image: Vec<u8>) -> (r: Result<Phase, FlashError>)
        ensures
            final(self).settings() == old(self).settings(),
            final(self).agreed() == old(self).agreed(),
            final(self).wishes() == old(self).wishes(),
            final(self).phase() == old(self).phase(),
            final(self).next_id() == old(self).next_id(),
            if old(self).settings().dry_run {
                final(self).backend() == old(self).backend() && step_result(r) == Ok::<
                    PhaseModel,
                    FlashFailure,
                >(PhaseModel::DownloadBios(Seq::empty()))
            } else {
                written(
                    old(self).backend(),
                    ImageType::Fw,
                    personality_of(old(self).settings().mode),
                    image@,
                    PhaseModel::DownloadBios(Seq::empty()),
                    final(self).backend(),
                    step_result(r),
                )
            },
    {
        let nothing: Vec<u8> = Vec::new();
        assert(nothing@ =~= Seq::empty());
        let target = mode_to_personality(self.mode);
        if !self.dry_run {
            let d = self.session.fw_download_verified(ImageType::Fw, target, image.as_slice());
            assert(verified_download(
                old(self).backend(),
                ImageType::Fw,
                target,
                image@,
                self.session@,
                d,
            ));
            if let Err(e) = d {
                return Err(FlashError::Mpi(e));
            }
        }
        Ok(Phase::DownloadBios { image: nothing })
    }

    fn step_download_bios(&mut self, image: Vec<u8>) -> (r: Result<Phase, FlashError>)
        ensures
            final(self).settings() == old(self).settings(),
            final(self).agreed() == old(self).agreed(),
            final(self).wishes() == old(self).wishes(),
            final(self).phase() == old(self).phase(),
            id_step(
                old(self).settings(),
                PhaseModel::DownloadBios(image@),
                old(self).next_id(),
                final(self).next_id(),
            ),
            if old(self).settings().dry_run {
                final(self).backend() == old(self).backend() && step_result(r) == Ok::<
                    PhaseModel,
                    FlashFailure,
                >(PhaseModel::WriteSbr(Seq::empty()))
            } else {
                written_anew(
                    old(self).backend(),
                    ImageType::Bios,
                    personality_of(old(self).settings().mode),
                    image@,
                    PhaseModel::WriteSbr(Seq::empty()),
                    final(self).backend(),
                    step_result(r),
                )
            },
    {
        let nothing: Vec<u8> = Vec::new();
        assert(nothing@ =~= Seq::empty());
        let target = mode_to_personality(self.mode);
        if !self.dry_run {
            self.session.renew();
            let i = self.session.raw_ioc_init(&init_request());
            let ghost mid = self.session@;
            assert(B::init_step(old(self).backend(), start_request(), mid, i));
            if let Err(e) = i {
                return Err(FlashError::Mpi(e));
            }
            let d = self.session.fw_download_verified(ImageType::Bios, target, image.as_slice());
            assert(verified_download(mid, ImageType::Bios, target, image@, self.session@, d));
            if let Err(e) = d {
                let r = Err(FlashError::Mpi(e));
                assert(written(
                    mid,
                    ImageType::Bios,
                    target,
                    image@,
                    PhaseModel::WriteSbr(Seq::empty()),
                    self.session@,
                    step_result(r),
                ));
                return r;
            }
            assert(written(
                mid,
                ImageType::Bios,
                target,
                image@,
                PhaseModel::WriteSbr(Seq::empty()),
                self.session@,
                Ok::<PhaseModel, FlashFailure>(PhaseModel::WriteSbr(nothing@)),
            ));
        }
        Ok(Phase::WriteSbr { sbr: nothing })
    }

    fn step_restart(&mut self) -> (r: Result<Phase, FlashError>)
        ensures
            final(self).settings() == old(self).settings(),
            final(self).agreed() == old(self).agreed(),
            final(self).wishes() == old(self).wishes(),
            final(self).phase() == old(self).phase(),
            id_step(
                old(self).settings(),
                PhaseModel::Restart,
                old(self).next_id(),
                final(self).next_id(),
            ),
            ({
                let next = PhaseModel::Verify(personality_of(old(self).settings().mode));
                if old(self).settings().dry_run {
                    final(self).backend() == old(self).backend() && step_result(r) == Ok::<
                        PhaseModel,
                        FlashFailure,
                    >(next)
                } else {
                    restarted(old(self).backend(), next, final(self).backend(), step_result(r))
                }
            }),
    {
        let expected = mode_to_personality(self.mode);
        if !self.dry_run {
            let i = self.session.raw_ioc_init(&init_request());
            assert(B::init_step(old(self).backend(), start_request(), self.session@, i));
            if let Err(e) = i {
                return Err(FlashError::Mpi(e));
            }
        }
        Ok(Phase::Verify { expected_personality: expected })
    }

    fn step_verify(&self, expected: Personality) -> (r: Result<Phase, FlashError>)
        ensures
            verified(self.backend(), expected, step_result(r)),
    {
        let p = self.session.current_personality();
        assert(B::personality_step(self.backend(), p));
        match p {
            Ok(running) => if running == expected {
                Ok(Phase::Done)
            } else {
                Ok(
                    Phase::Aborted {
                        reason: AbortReason::PersonalityMismatch { running, target: expected },
                        backup_dir: None,
                    },
                )
            },
            Err(e) => Err(FlashError::Mpi(e)),
        }
    }

    /// The verdict on flashing, once there is one.
    pub fn verdict(&self) -> (r: Option<Result<(), FlashError>>)
        ensures
            match self.phase() {
                PhaseModel::Done => r matches Some(Ok(_)),
                PhaseModel::Aborted(reason, _) => r matches Some(Err(e)) && e@
                    == FlashFailure::Abort(reason),
                _ => r is None,
            },
    {
        match &self.state {
            Phase::Done => Some(Ok(())),
            Phase::Aborted { reason, .. } => Some(
                Err(FlashError::Abort { reason: reason.clone() }),
            ),
            _ => None,
        }
    }
}

/// Whether the user agrees: the answer starts with a `y`.
pub open spec fn agrees(answer: Seq<char>) -> bool {
    let t = trim(answer);
    t.len() > 0 && (t[0] == 'y' || t[0] == 'Y')
}

/// Takes the answer of the user.
pub fn take_consent(answer: &str) -> (r: Result<(), FlashError>)
    ensures
        if agrees(answer@) {
            r is Ok
        } else {
            r is Err && r->Err_0@ == FlashFailure::Abort(ReasonModel::Declined)
        },
{
    let cs = chars_of(answer);
    let t = trimmed(cs.as_slice());
    if t.len() > 0 && (t[0] == 'y' || t[0] == 'Y') {
        Ok(())
    } else {
        Err(FlashError::Abort { reason: AbortReason::UserDeclined })
    }
}

// --------------------------------------------------------------- progress

/// What a dry run says it would have done at a phase.
pub open spec fn would(at: PhaseModel) -> Option<Seq<char>> {
    match at {
        PhaseModel::Backup(dir) => Some("[dry-run] would backup to "@ + dir),
        PhaseModel::Hostboot(p) => Some("[dry-run] would hostboot to "@ + p.spec_name()),
        PhaseModel::Erase => Some("[dry-run] would erase flash (TOOLBOX_CLEAN)"@),
        PhaseModel::DownloadFw(image) => Some(
            "[dry-run] would download "@ + dec(image.len())
                + " bytes of firmware (verify-after-write)"@,
        ),
        PhaseModel::DownloadBios(image) => Some(
            "[dry-run] would download "@ + dec(image.len()) + " bytes of BIOS"@,
        ),
        PhaseModel::WriteSbr(_) => Some("[dry-run] would write SBR via I²C"@),
        PhaseModel::Restart => Some("[dry-run] would reset adapter (IOC_INIT)"@),
        _ => None,
    }
}

/// What a dry run says it would have done at a phase.
pub fn would_do(at: &Phase) -> (r: Option<String>)
    ensures
        opt_text(r) == would(at@),
{
    match at {
        Phase::Backup { backup_dir } => Some(
            labelled("[dry-run] would backup to ", backup_dir.as_str()),
        ),
        Phase::Hostboot { target_personality } => Some(
            labelled("[dry-run] would hostboot to ", target_personality.name()),
        ),
        Phase::Erase => Some("[dry-run] would erase flash (TOOLBOX_CLEAN)".to_owned()),
        Phase::DownloadFw { image } => {
            let mut t = "[dry-run] would download ".to_owned();
            push_dec(&mut t, image.len() as u64);
            t.append(" bytes of firmware (verify-after-write)");
            Some(t)
        },
        Phase::DownloadBios { image } => {
            let mut t = "[dry-run] would download ".to_owned();
            push_dec(&mut t, image.len() as u64);
            t.append(" bytes of BIOS");
            Some(t)
        },
        Phase::WriteSbr { .. } => Some("[dry-run] would write SBR via I²C".to_owned()),
        Phase::Restart => Some("[dry-run] would reset adapter (IOC_INIT)".to_owned()),
        _ => None,
    }
}

/// What is said after a step from one phase to another.
pub open spec fn said(dry_run: bool, at: PhaseModel, next: PhaseModel) -> Option<Seq<char>> {
    match (at, next) {
        (PhaseModel::Detect, PhaseModel::Halt(p)) => Some("detected personality: "@ + p.spec_name()),
        (PhaseModel::Halt(p), PhaseModel::Hostboot(t)) => Some(
            mismatch_text(p, t) + " → transitioning to hostboot"@,
        ),
        (PhaseModel::Halt(_), PhaseModel::Backup(dir)) => Some("backup directory: "@ + dir),
        (PhaseModel::Backup(_), _) => Some("backup complete"@),
        (PhaseModel::Hostboot(p), _) => if dry_run {
            None
        } else {
            Some("hostboot: loading "@ + p.spec_name() + " firmware into chip RAM"@)
        },
        (PhaseModel::Erase, PhaseModel::DownloadFw(_)) => Some("erase complete"@),
        (PhaseModel::DownloadFw(_), _) => Some("firmware download complete"@),
        (PhaseModel::DownloadBios(_), _) => Some("BIOS download complete"@),
        (PhaseModel::WriteSbr(_), _) => Some("SBR write complete"@),
        (PhaseModel::Restart, _) => Some("adapter reset complete"@),
        (PhaseModel::Verify(p), PhaseModel::Done) => Some(
            "verify: personality "@ + p.spec_name() + " matches expected"@,
        ),
        (
            PhaseModel::Verify(_),
            PhaseModel::Aborted(ReasonModel::Mismatch { running, target }, _),
        ) => Some(
            "verify FAILED: running="@ + running.spec_name() + " expected="@ + target.spec_name(),
        ),
        _ => None,
    }
}

/// What is said after a step from one phase to another.
pub fn progress(dry_run: bool, at: &Phase, next: &Phase) -> (r: Option<String>)
    ensures
        opt_text(r) == said(dry_run, at@, next@),
{
    match (at, next) {
        (Phase::Detect, Phase::Halt { current_personality }) => Some(
            labelled("detected personality: ", current_personality.name()),
        ),
        (Phase::Halt { current_personality }, Phase::Hostboot { target_personality }) => {
            let mut t = mismatch(*current_personality, *target_personality);
            t.append(" → transitioning to hostboot");
            Some(t)
        },
        (Phase::Halt { .. }, Phase::Backup { backup_dir }) => Some(
            labelled("backup directory: ", backup_dir.as_str()),
        ),
        (Phase::Backup { .. }, _) => Some("backup complete".to_owned()),
        (Phase::Hostboot { target_personality }, _) => {
            if dry_run {
                None
            } else {
                let mut t = labelled("hostboot: loading ", target_personality.name());
                t.append(" firmware into chip RAM");
                Some(t)
            }
        },
        (Phase::Erase, Phase::DownloadFw { .. }) => Some("erase complete".to_owned()),
        (Phase::DownloadFw { .. }, _) => Some("firmware download complete".to_owned()),
        (Phase::DownloadBios { .. }, _) => Some("BIOS download complete".to_owned()),
        (Phase::WriteSbr { .. }, _) => Some("SBR write complete".to_owned()),
        (Phase::Restart, _) => Some("adapter reset complete".to_owned()),
        (Phase::Verify { expected_personality }, Phase::Done) => {
            let mut t = labelled("verify: personality ", expected_personality.name());
            t.append(" matches expected");
            Some(t)
        },
        (
            Phase::Verify { .. },
            Phase::Aborted { reason: AbortReason::PersonalityMismatch { running, target }, .. },
        ) => {
            let mut t = labelled("verify FAILED: running=", running.name());
            t.append(" expected=");
            t.append(target.name());
            Some(t)
        },
        _ => None,
    }
}

// ------------------------------------------------------------------- laws

/// How many steps are left at most.
pub open spec fn steps_left(c: Settings, at: PhaseModel) -> nat {
    match at {
        PhaseModel::Detect => 12,
        PhaseModel::Halt(p) => if p == personality_of(c.mode) {
            9
        } else {
            11
        },
        PhaseModel::Hostboot(_) => 10,
        PhaseModel::Backup(_) => 8,
        PhaseModel::Erase => 7,
        PhaseModel::DownloadFw(_) => 6,
        PhaseModel::DownloadBios(_) => 5,
        PhaseModel::WriteSbr(_) => 4,
        PhaseModel::Restart => 3,
        PhaseModel::Verify(_) => 2,
        PhaseModel::Done => 0,
        PhaseModel::Aborted(_, _) => 0,
    }
}

/// Whether flashing can stand at a phase: only the firmware that is asked for is ever
/// loaded.
pub open spec fn possible(c: Settings, at: PhaseModel) -> bool {
    at matches PhaseModel::Hostboot(p) ==> p == personality_of(c.mode)
}

/// Flashing ends: each step that has not ended it leaves fewer steps.
pub proof fn flashing_ends<B: IocBackend>(
    c: Settings,
    pre: B,
    at: PhaseModel,
    input: StepInput,
    post: B,
    next: PhaseModel,
)
    requires
        possible(c, at),
        !(at is Done) && !(at is Aborted),
        answers(demand(c, at), input),
        flash_step(c, pre, at, input, post, Ok::<PhaseModel, FlashFailure>(next)),
    ensures
        possible(c, next),
        steps_left(c, next) < steps_left(c, at),
{
}

/// A dry run leaves the adapter as it is.
pub proof fn dry_run_sends_nothing<B: IocBackend>(
    c: Settings,
    pre: B,
    at: PhaseModel,
    input: StepInput,
    post: B,
    r: Result<PhaseModel, FlashFailure>,
)
    requires
        c.dry_run,
        flash_step(c, pre, at, input, post, r),
    ensures
        post == pre,
{
}

/// The adapter is changed only in the phases that erase, write and restart it.
pub proof fn only_flashing_changes<B: IocBackend>(
    c: Settings,
    pre: B,
    at: PhaseModel,
    input: StepInput,
    post: B,
    r: Result<PhaseModel, FlashFailure>,
)
    requires
        flash_step(c, pre, at, input, post, r),
        post != pre,
    ensures
        at is Erase || at is DownloadFw || at is DownloadBios || at is Restart,
{
}

/// Nothing is erased before a backup was made.
pub proof fn backup_comes_first<B: IocBackend>(
    c: Settings,
    pre: B,
    at: PhaseModel,
    input: StepInput,
    post: B,
)
    requires
        !c.dry_run,
        answers(demand(c, at), input),
        flash_step(c, pre, at, input, post, Ok::<PhaseModel, FlashFailure>(PhaseModel::Erase)),
    ensures
        at is Backup,
        input matches StepInput::BackedUp(Ok(_)),
{
}

/// No backup is begun unless the firmware is of the right kind and no disk behind the
/// adapter is in use.
pub proof fn safety_comes_first<B: IocBackend>(
    c: Settings,
    pre: B,
    at: PhaseModel,
    input: StepInput,
    post: B,
    dir: Seq<char>,
)
    requires
        !c.dry_run,
        answers(demand(c, at), input),
        flash_step(c, pre, at, input, post, Ok::<PhaseModel, FlashFailure>(PhaseModel::Backup(dir))),
    ensures
        at == PhaseModel::Halt(personality_of(c.mode)),
        input matches StepInput::Surroundings { devices: Ok(v), system, timestamp } && all_concerns(
            system,
            strings(v@),
        ).len() == 0,
{
}

/// Flashing is refused while a disk behind the adapter is in use: the answer holds the
/// messages of all that is in the way, and the adapter is left as it is.
pub proof fn disk_in_use_is_refused<B: IocBackend>(
    c: Settings,
    pre: B,
    devices: Vec<String>,
    system: SystemState,
    timestamp: String,
    post: B,
    r: Result<PhaseModel, FlashFailure>,
)
    requires
        !c.dry_run,
        !(system.mounts is Broken),
        all_concerns(system, strings(devices@)).len() > 0,
        flash_step(
            c,
            pre,
            PhaseModel::Halt(personality_of(c.mode)),
            StepInput::Surroundings { devices: Ok(devices), system, timestamp },
            post,
            r,
        ),
    ensures
        post == pre,
        r == Err::<PhaseModel, FlashFailure>(
            FlashFailure::Safety(joined_messages(all_concerns(system, strings(devices@)))),
        ),
{
}

/// Whether an image is written at a phase.
pub open spec fn writes_image(at: PhaseModel) -> bool {
    at is DownloadFw || at is DownloadBios
}

/// No two writes follow each other in one session: where one image was written and another
/// is to be, the controller is started anew first, and the second image is written only to
/// a controller that answered the start.
pub proof fn writes_are_not_chained<B: IocBackend>(
    c: Settings,
    pre: B,
    at: PhaseModel,
    input: StepInput,
    mid: B,
    next: PhaseModel,
    later: StepInput,
    post: B,
    r: Result<PhaseModel, FlashFailure>,
)
    requires
        !c.dry_run,
        writes_image(at),
        writes_image(next),
        flash_step(c, pre, at, input, mid, Ok::<PhaseModel, FlashFailure>(next)),
        flash_step(c, mid, next, later, post, r),
    ensures
        exists|started: B, i: Result<IocInitReply, MpiError>| #[trigger]
            B::init_step(mid, start_request(), started, i) && match (next, i) {
                (_, Err(e)) => post == started && r == Err::<PhaseModel, FlashFailure>(
                    FlashFailure::Mpi(e),
                ),
                (PhaseModel::DownloadBios(image), Ok(_)) => written(
                    started,
                    ImageType::Bios,
                    personality_of(c.mode),
                    image,
                    PhaseModel::WriteSbr(Seq::empty()),
                    post,
                    r,
                ),
                _ => false,
            },
{
}

/// The firmware is written only right after the erasing, which starts the controller, and
/// the option ROM only right after the firmware: nothing else leads to a write.
pub proof fn writes_come_in_order<B: IocBackend>(
    c: Settings,
    pre: B,
    at: PhaseModel,
    input: StepInput,
    post: B,
    next: PhaseModel,
)
    requires
        answers(demand(c, at), input),
        flash_step(c, pre, at, input, post, Ok::<PhaseModel, FlashFailure>(next)),
    ensures
        next is DownloadFw ==> at is Erase,
        next is DownloadBios ==> at is DownloadFw,
{
}

/// Success means that the adapter says it runs the firmware that was asked for.
pub proof fn success_is_verified<B: IocBackend>(
    c: Settings,
    pre: B,
    expected: Personality,
    input: StepInput,
    post: B,
)
    requires
        flash_step(
            c,
            pre,
            PhaseModel::Verify(expected),
            input,
            post,
            Ok::<PhaseModel, FlashFailure>(PhaseModel::Done),
        ),
    ensures
        B::personality_step(pre, Ok::<Personality, MpiError>(expected)),
        post == pre,
{
}

/// Erasing, in a real run, comes to the firmware only through one request that the
/// controller granted. The request names two parts of the adapter, the firmware in use
/// and the flash array, and no other; the controller was started before it was sent.
pub proof fn erasing_names_firmware_and_flash<B: IocBackend>(
    c: Settings,
    pre: B,
    input: StepInput,
    post: B,
    image: Seq<u8>,
)
    requires
        !c.dry_run,
        flash_step(
            c,
            pre,
            PhaseModel::Erase,
            input,
            post,
            Ok::<PhaseModel, FlashFailure>(PhaseModel::DownloadFw(image)),
        ),
    ensures
        exists|
            start: IocInitRequest,
            mid: B,
            i: IocInitReply,
            req: ToolboxCleanRequest,
            t: ToolboxReply,
        |
            #[trigger] B::init_step(pre, start, mid, Ok::<IocInitReply, MpiError>(i))
                && #[trigger] B::toolbox_step(mid, req, post, Ok::<ToolboxReply, MpiError>(t))
                && start.who_init == 0x04 && t.ioc_status == IocStatus::Success
                && req.flags.raw & 0x1000_0000 != 0 && req.flags.raw & 0x4 != 0 && req.flags.raw
                == 0x1000_0004,
{
    let done = Ok::<PhaseModel, FlashFailure>(PhaseModel::DownloadFw(image));
    let (mid, i) = choose|mid: B, i: Result<IocInitReply, MpiError>| #[trigger]
        B::init_step(pre, start_request(), mid, i) && match i {
            Err(e) => post == mid && done == Err::<PhaseModel, FlashFailure>(FlashFailure::Mpi(e)),
            Ok(_) => cleaned(mid, post, done),
        };
    let t = choose|t: Result<ToolboxReply, MpiError>| #[trigger]
        B::toolbox_step(mid, erase_request(), post, t) && match t {
            Err(e) => done == Err::<PhaseModel, FlashFailure>(FlashFailure::Mpi(e)),
            Ok(reply) => if reply.ioc_status != IocStatus::Success {
                done == Ok::<PhaseModel, FlashFailure>(
                    PhaseModel::Aborted(ReasonModel::Status(reply.ioc_status), None),
                )
            } else {
                done == Ok::<PhaseModel, FlashFailure>(PhaseModel::DownloadFw(Seq::empty()))
            },
        };
    assert(0x1000_0000u32 | 0x4u32 == 0x1000_0004u32) by (bit_vector);
    assert(0x1000_0004u32 & 0x1000_0000u32 != 0 && 0x1000_0004u32 & 0x4u32 != 0) by (bit_vector);
    assert(B::init_step(pre, start_request(), mid, Ok::<IocInitReply, MpiError>(i->Ok_0)));
    assert(B::toolbox_step(mid, erase_request(), post, Ok::<ToolboxReply, MpiError>(t->Ok_0)));
}

/// After the erasing of a real run nothing is left in the flash of the simulated
/// controller, whatever it held.
pub proof fn erasing_leaves_no_partition(
    c: Settings,
    pre: MockIoc,
    input: StepInput,
    post: MockIoc,
    image: Seq<u8>,
    t: ImageType,
)
    requires
        !c.dry_run,
        pre@.inject.next_toolbox_error is None,
        flash_step(
            c,
            pre,
            PhaseModel::Erase,
            input,
            post,
            Ok::<PhaseModel, FlashFailure>(PhaseModel::DownloadFw(image)),
        ),
    ensures
        !post@.partitions.contains_key(t),
{
    assert(0x1000_0000u32 | 0x4u32 == 0x1000_0004u32) by (bit_vector);
    assert(0x1000_0004u32 & 0x4u32 != 0) by (bit_vector);
}

/// Which firmware is asked for, and what a step waits for, by mode: a plain adapter is to run
/// the firmware without arrays, and the disks are looked at only where that firmware runs
/// already; a backup is waited for in a real run only.
pub proof fn modes_ask_for_firmware(c: Settings, at: PhaseModel)
    ensures
        demand(c, at) == StepDemand::Surroundings <==> {
            ||| c.mode == Mode::HBA && at == PhaseModel::Halt(Personality::It)
            ||| c.mode == Mode::RAID && at == PhaseModel::Halt(Personality::Ir)
        },
        demand(c, at) == StepDemand::Backup <==> at is Backup && !c.dry_run,
        demand(c, at) == StepDemand::Nothing <==> demand(c, at) != StepDemand::Surroundings
            && demand(c, at) != StepDemand::Backup,
{
}

/// The phases follow each other in one order only: finding out, making sure, backing up,
/// erasing, firmware, option ROM, board record, restart, and a last look. Where the wrong
/// firmware runs, the right one is loaded first, and only a refused erasing or a last look at
/// the wrong firmware ends in between.
pub proof fn phases_go_in_order<B: IocBackend>(
    c: Settings,
    pre: B,
    at: PhaseModel,
    input: StepInput,
    post: B,
    next: PhaseModel,
)
    requires
        answers(demand(c, at), input),
        flash_step(c, pre, at, input, post, Ok::<PhaseModel, FlashFailure>(next)),
    ensures
        at is Detect ==> next is Halt,
        at == PhaseModel::Halt(Personality::It) ==> if c.mode == Mode::HBA {
            next is Backup
        } else {
            next == PhaseModel::Hostboot(Personality::Ir)
        },
        at == PhaseModel::Halt(Personality::Ir) ==> if c.mode == Mode::RAID {
            next is Backup
        } else {
            next == PhaseModel::Hostboot(Personality::It)
        },
        (at matches PhaseModel::Halt(p) && p != Personality::It && p != Personality::Ir)
            ==> next == PhaseModel::Hostboot(
            if c.mode == Mode::HBA {
                Personality::It
            } else {
                Personality::Ir
            },
        ),
        at matches PhaseModel::Hostboot(p) ==> next == PhaseModel::Halt(p),
        at is Backup ==> next is Erase,
        at is Erase ==> next == PhaseModel::DownloadFw(Seq::empty()) || (!c.dry_run && (
        next matches PhaseModel::Aborted(ReasonModel::Status(s), None) && s != IocStatus::Success)),
        at is DownloadFw ==> next == PhaseModel::DownloadBios(Seq::empty()),
        at is DownloadBios ==> next == PhaseModel::WriteSbr(Seq::empty()),
        at is WriteSbr ==> next is Restart,
        at is Restart ==> next == PhaseModel::Verify(
            if c.mode == Mode::HBA {
                Personality::It
            } else {
                Personality::Ir
            },
        ),
        at matches PhaseModel::Verify(e) ==> next is Done || (
        next matches PhaseModel::Aborted(ReasonModel::Mismatch { running, target }, None) && target
            == e && running != e),
        at is Done || at is Aborted ==> next == at,
{
}

/// The firmware is what the controller says it is: the first look leads to the phase that
/// names it.
pub proof fn first_look_is_kept<B: IocBackend>(
    c: Settings,
    pre: B,
    input: StepInput,
    post: B,
    running: Personality,
)
    requires
        flash_step(
            c,
            pre,
            PhaseModel::Detect,
            input,
            post,
            Ok::<PhaseModel, FlashFailure>(PhaseModel::Halt(running)),
        ),
    ensures
        B::personality_step(pre, Ok::<Personality, MpiError>(running)),
        post == pre,
{
}

/// A last look that finds other firmware is never a success, and says what it found.
pub proof fn wrong_firmware_is_no_success<B: IocBackend>(
    c: Settings,
    pre: B,
    expected: Personality,
    input: StepInput,
    post: B,
    running: Personality,
    target: Personality,
    dir: Option<Seq<char>>,
)
    requires
        flash_step(
            c,
            pre,
            PhaseModel::Verify(expected),
            input,
            post,
            Ok::<PhaseModel, FlashFailure>(
                PhaseModel::Aborted(ReasonModel::Mismatch { running, target }, dir),
            ),
        ),
    ensures
        B::personality_step(pre, Ok::<Personality, MpiError>(running)),
        running != expected && target == expected,
{
}

proof fn written_is_downloaded<B: IocBackend>(
    pre: B,
    image_type: ImageType,
    target: Personality,
    image: Seq<u8>,
    next: PhaseModel,
    post: B,
    r: Result<PhaseModel, FlashFailure>,
)
    requires
        written(pre, image_type, target, image, next, post, r),
        r is Ok,
    ensures
        verified_download(pre, image_type, target, image, post, Ok::<(), MpiError>(())),
{
    let d = choose|d: Result<(), MpiError>| #[trigger]
        verified_download(pre, image_type, target, image, post, d) && match d {
            Err(e) => r == Err::<PhaseModel, FlashFailure>(FlashFailure::Mpi(e)),
            Ok(_) => r == Ok::<PhaseModel, FlashFailure>(next),
        };
    assert(d is Ok);
    assert(d->Ok_0 == ());
    assert(d == Ok::<(), MpiError>(()));
}

/// The firmware is written as the image of firmware and of nothing else, all of it, for the
/// firmware that the mode asks for, and without a start of the controller in between.
pub proof fn firmware_is_written_as_firmware<B: IocBackend>(
    c: Settings,
    pre: B,
    image: Seq<u8>,
    input: StepInput,
    post: B,
    next: PhaseModel,
)
    requires
        !c.dry_run,
        flash_step(
            c,
            pre,
            PhaseModel::DownloadFw(image),
            input,
            post,
            Ok::<PhaseModel, FlashFailure>(next),
        ),
    ensures
        verified_download(
            pre,
            ImageType::Fw,
            if c.mode == Mode::HBA {
                Personality::It
            } else {
                Personality::Ir
            },
            image,
            post,
            Ok::<(), MpiError>(()),
        ),
{
    written_is_downloaded(
        pre,
        ImageType::Fw,
        personality_of(c.mode),
        image,
        PhaseModel::DownloadBios(Seq::empty()),
        post,
        Ok::<PhaseModel, FlashFailure>(next),
    );
}

/// The option ROM is written as the option ROM, all of it, to a controller that answered a
/// start: the start names the host as the one who starts, asks for no interrupt vectors and
/// for sixteen answers, and gives no addresses.
pub proof fn option_rom_is_written_as_option_rom<B: IocBackend>(
    c: Settings,
    pre: B,
    image: Seq<u8>,
    input: StepInput,
    post: B,
    next: PhaseModel,
)
    requires
        !c.dry_run,
        flash_step(
            c,
            pre,
            PhaseModel::DownloadBios(image),
            input,
            post,
            Ok::<PhaseModel, FlashFailure>(next),
        ),
    ensures
        exists|start: IocInitRequest, mid: B, i: IocInitReply| #[trigger]
            B::init_step(pre, start, mid, Ok::<IocInitReply, MpiError>(i)) && start.who_init == 4
                && start.host_msix_vectors == 0 && start.reply_descriptor_post_queue_depth == 16
                && start.system_request_frame_base_address == 0
                && start.reply_descriptor_post_queue_address == 0 && verified_download(
                mid,
                ImageType::Bios,
                if c.mode == Mode::HBA {
                    Personality::It
                } else {
                    Personality::Ir
                },
                image,
                post,
                Ok::<(), MpiError>(()),
            ),
{
    let done = Ok::<PhaseModel, FlashFailure>(next);
    let (mid, i) = choose|mid: B, i: Result<IocInitReply, MpiError>| #[trigger]
        B::init_step(pre, start_request(), mid, i) && match i {
            Err(e) => post == mid && done == Err::<PhaseModel, FlashFailure>(FlashFailure::Mpi(e)),
            Ok(_) => written(
                mid,
                ImageType::Bios,
                personality_of(c.mode),
                image,
                PhaseModel::WriteSbr(Seq::empty()),
                post,
                done,
            ),
        };
    written_is_downloaded(
        mid,
        ImageType::Bios,
        personality_of(c.mode),
        image,
        PhaseModel::WriteSbr(Seq::empty()),
        post,
        done,
    );
    assert(B::init_step(pre, start_request(), mid, Ok::<IocInitReply, MpiError>(i->Ok_0)));
}

/// A restart sends one message, the one that starts the controller, and goes on only where
/// the controller answered it.
pub proof fn restart_starts_controller<B: IocBackend>(
    c: Settings,
    pre: B,
    input: StepInput,
    post: B,
    next: PhaseModel,
)
    requires
        !c.dry_run,
        flash_step(
            c,
            pre,
            PhaseModel::Restart,
            input,
            post,
            Ok::<PhaseModel, FlashFailure>(next),
        ),
    ensures
        exists|start: IocInitRequest, i: IocInitReply| #[trigger]
            B::init_step(pre, start, post, Ok::<IocInitReply, MpiError>(i)) && start.who_init == 4
                && start.reply_descriptor_post_queue_depth == 16,
{
    let done = Ok::<PhaseModel, FlashFailure>(next);
    let i = choose|i: Result<IocInitReply, MpiError>| #[trigger]
        B::init_step(pre, start_request(), post, i) && match i {
            Err(e) => done == Err::<PhaseModel, FlashFailure>(FlashFailure::Mpi(e)),
            Ok(_) => done == Ok::<PhaseModel, FlashFailure>(
                PhaseModel::Verify(personality_of(c.mode)),
            ),
        };
    assert(B::init_step(pre, start_request(), post, Ok::<IocInitReply, MpiError>(i->Ok_0)));
}

/// A failed backup ends flashing before anything is erased, and so do disks that cannot be
/// told.
pub proof fn unknown_state_ends_flashing<B: IocBackend>(
    c: Settings,
    pre: B,
    at: PhaseModel,
    input: StepInput,
    post: B,
    r: Result<PhaseModel, FlashFailure>,
)
    requires
        flash_step(c, pre, at, input, post, r),
        demand(c, at) == StepDemand::Backup && (input matches StepInput::BackedUp(o) && o is Err)
            || demand(c, at) == StepDemand::Surroundings && (
        input matches StepInput::Surroundings { devices, system, timestamp } && devices is Err),
    ensures
        r is Err,
        post == pre,
{
}

/// The first letter decides: an answer is a yes exactly where the first character that is not
/// white space is a `y`, large or small.
pub proof fn first_letter_decides(a: Seq<char>, letter: char, rest: Seq<char>)
    requires
        forall|i: int| 0 <= i < a.len() ==> is_white(#[trigger] a[i]),
        !is_white(letter),
    ensures
        agrees(a.push(letter) + rest) <==> letter == 'y' || letter == 'Y',
        !agrees(a),
{
    let s = a.push(letter) + rest;
    assert(s[a.len() as int] == letter);
    trimming_is_exact(s);
    let (j, k) = choose|j: int, k: int|
        0 <= j <= k <= s.len() && trim(s) == #[trigger] s.subrange(j, k) && (forall|i: int|
            0 <= i < j || k <= i < s.len() ==> is_white(#[trigger] s[i]));
    let t = s.subrange(j, k);
    assert(j <= a.len() < k);
    assert(t[0] == s[j]);
    if j < a.len() {
        assert(s[j] == a[j]);
    }
    trimming_is_exact(a);
    let (l, m) = choose|l: int, m: int|
        0 <= l <= m <= a.len() && trim(a) == #[trigger] a.subrange(l, m) && (forall|i: int|
            0 <= i < l || m <= i < a.len() ==> is_white(#[trigger] a[i]));
    if l < m {
        assert(trim(a)[0] == a[l]);
    }
}

/// A trial run names every step that would have changed something, and no other: each line
/// says that it is one of a trial run.
pub proof fn trial_run_names_changes(at: PhaseModel)
    ensures
        would(at) is Some <==> at is Backup || at is Hostboot || at is Erase || at is DownloadFw
            || at is DownloadBios || at is WriteSbr || at is Restart,
        would(at) matches Some(t) ==> t.len() > 16 && t.take(16) == "[dry-run] would "@,
{
    reveal_strlit("[dry-run] would ");
    reveal_strlit("[dry-run] would backup to ");
    reveal_strlit("[dry-run] would hostboot to ");
    reveal_strlit("[dry-run] would erase flash (TOOLBOX_CLEAN)");
    reveal_strlit("[dry-run] would download ");
    reveal_strlit("[dry-run] would write SBR via I²C");
    reveal_strlit("[dry-run] would reset adapter (IOC_INIT)");
    if let Some(t) = would(at) {
        assert(t.take(16) =~= "[dry-run] would "@);
    }
}

/// The messages to the controller are counted: a trial run sends none, and in a real run only the
/// erasing, the option ROM and the restart change the number of the next.
pub proof fn messages_are_counted(c: Settings, at: PhaseModel, id: u16, after: u16)
    requires
        id_step(c, at, id, after),
    ensures
        c.dry_run || !(at is Erase || at is DownloadBios || at is Restart) ==> after == id,
        !c.dry_run && at is DownloadBios ==> after == 2,
        !c.dry_run && at is Restart && id < 0xFFFF ==> after == id + 1,
        !c.dry_run && at is Erase && id < 0xFFFE ==> after == id + 1 || after == id + 2,
{
}

} // verus!
