//! Restoring an adapter from a backup.

use crate::card::{artifact_models, ArtifactModel, BackupArtifact, BackupManifest, RestoreReport};
use crate::cli::backup::{sha_short, short_digest};
use crate::digest::{sha256_hex, sha256_text};
use crate::error::Error;
use crate::mpi::messages::MpiError;
use crate::text::{
    chars_of, dec, is_white, labelled, opt_text, push_dec, same_text, strings, trim, trimmed,
    trimming_is_exact,
};
use vstd::prelude::*;

verus! {

/// Errors of a recovery.
#[derive(Debug)]
pub enum RecoverError {
    /// There is no such directory.
    BackupDirNotFound(String),
    /// The directory holds no manifest.
    ManifestNotFound(String),
    /// The manifest is malformed.
    ManifestParse(String),
    /// A file is not what the manifest says.
    Sha256Mismatch { name: String, expected: String, actual: String },
    /// A file that the manifest lists is missing.
    ArtifactMissing(String),
    /// A message failed.
    Mpi(MpiError),
    /// A file cannot be read.
    Io(String),
    /// The user said no.
    Declined,
}

impl RecoverError {
    /// The error in words.
    pub open spec fn spec_text(&self) -> Seq<char> {
        match self {
            RecoverError::BackupDirNotFound(p) => "backup dir not found: "@ + p@,
            RecoverError::ManifestNotFound(p) => "manifest.toml not found in "@ + p@,
            RecoverError::ManifestParse(e) => "manifest parse: "@ + e@,
            RecoverError::Sha256Mismatch { name, expected, actual } => "artifact "@ + name@
                + " sha256 mismatch: manifest="@ + expected@ + ", actual="@ + actual@
                + "\nArtifact may have been tampered with or corrupted. Aborting to prevent writing bad data."@,
            RecoverError::ArtifactMissing(p) => "artifact "@ + p@
                + " referenced in manifest but file missing"@,
            RecoverError::Mpi(e) => "MPI: "@ + e.spec_text(),
            RecoverError::Io(e) => "io: "@ + e@,
            RecoverError::Declined => "user declined confirmation"@,
        }
    }

    /// The error in words.
    pub fn text(&self) -> (r: String)
        ensures
            r@ == self.spec_text(),
    {
        match self {
            RecoverError::BackupDirNotFound(p) => labelled("backup dir not found: ", p.as_str()),
            RecoverError::ManifestNotFound(p) => {
                labelled("manifest.toml not found in ", p.as_str())
            },
            RecoverError::ManifestParse(e) => labelled("manifest parse: ", e.as_str()),
            RecoverError::Sha256Mismatch { name, expected, actual } => {
                let mut t = labelled("artifact ", name.as_str());
                t.append(" sha256 mismatch: manifest=");
                t.append(expected.as_str());
                t.append(", actual=");
                t.append(actual.as_str());
                t.append(
                    "\nArtifact may have been tampered with or corrupted. Aborting to prevent writing bad data.",
                );
                t
            },
            RecoverError::ArtifactMissing(p) => {
                let mut t = labelled("artifact ", p.as_str());
                t.append(" referenced in manifest but file missing");
                t
            },
            RecoverError::Mpi(e) => labelled("MPI: ", e.text().as_str()),
            RecoverError::Io(e) => labelled("io: ", e.as_str()),
            RecoverError::Declined => "user declined confirmation".to_owned(),
        }
    }
}

/// What an error of a recovery stands for.
#[verifier::ext_equal]
pub enum RecoverFailure {
    DirNotFound(Seq<char>),
    ManifestNotFound(Seq<char>),
    ManifestParse(Seq<char>),
    Mismatch { name: Seq<char>, expected: Seq<char>, actual: Seq<char> },
    Missing(Seq<char>),
    Declined,
    Io(Seq<char>),
    Other(Seq<char>),
}

/// What an error stands for in a recovery.
pub open spec fn failure_of(e: Error) -> RecoverFailure {
    match e {
        Error::Recover(RecoverError::BackupDirNotFound(p)) => RecoverFailure::DirNotFound(p@),
        Error::Recover(RecoverError::ManifestNotFound(p)) => RecoverFailure::ManifestNotFound(p@),
        Error::Recover(RecoverError::ManifestParse(t)) => RecoverFailure::ManifestParse(t@),
        Error::Recover(RecoverError::Sha256Mismatch { name, expected, actual }) => {
            RecoverFailure::Mismatch { name: name@, expected: expected@, actual: actual@ }
        },
        Error::Recover(RecoverError::ArtifactMissing(p)) => RecoverFailure::Missing(p@),
        Error::Recover(RecoverError::Declined) => RecoverFailure::Declined,
        Error::Io(t) => RecoverFailure::Io(t@),
        Error::Other(t) => RecoverFailure::Other(t@),
        _ => RecoverFailure::Other(e.spec_text()),
    }
}

/// Whether `r` is a success where there is no failure, and else an error that stands for it.
pub open spec fn fails_as(r: Result<(), Error>, f: Option<RecoverFailure>) -> bool {
    match f {
        None => r is Ok,
        Some(f) => r matches Err(e) && failure_of(e) == f,
    }
}

// ------------------------------------------------------------ the backup

/// What reading a file of the backup gave.
pub enum ArtifactRead {
    /// The file is not there.
    Missing,
    /// It cannot be read.
    Failed(String),
    /// The bytes.
    Read(Vec<u8>),
}

/// What is wrong with a file with the digest `actual`, if it is not what the manifest says.
pub open spec fn digest_failure(a: ArtifactModel, actual: Seq<char>) -> Option<RecoverFailure> {
    if actual == a.sha256 {
        None
    } else {
        Some(RecoverFailure::Mismatch { name: a.path, expected: a.sha256, actual })
    }
}

/// Holds the digest of a file against the manifest.
pub fn check_digest(a: &BackupArtifact, actual: String) -> (r: Result<(), Error>)
    ensures
        fails_as(r, digest_failure(a@, actual@)),
{
    if same_text(actual.as_str(), a.sha256.as_str()) {
        Ok(())
    } else {
        Err(
            Error::Recover(
                RecoverError::Sha256Mismatch {
                    name: a.path.clone(),
                    expected: a.sha256.clone(),
                    actual,
                },
            ),
        )
    }
}

/// What is wrong with a file, if it is not what the manifest says.
pub open spec fn artifact_failure(a: ArtifactModel, read: ArtifactRead) -> Option<RecoverFailure> {
    match read {
        ArtifactRead::Missing => Some(RecoverFailure::Missing(a.path)),
        ArtifactRead::Failed(x) => Some(RecoverFailure::Io(x@)),
        ArtifactRead::Read(b) => digest_failure(a, sha256_text(b@)),
    }
}

/// Holds a file against the manifest.
pub fn check_artifact(a: &BackupArtifact, read: &ArtifactRead) -> (r: Result<(), Error>)
    ensures
        fails_as(r, artifact_failure(a@, *read)),
{
    match read {
        ArtifactRead::Missing => Err(
            Error::Recover(RecoverError::ArtifactMissing(a.path.clone())),
        ),
        ArtifactRead::Failed(e) => Err(Error::Io(e.clone())),
        ArtifactRead::Read(b) => check_digest(a, sha256_hex(b.as_slice())),
    }
}

/// What is wrong with the first file that is not what the manifest says.
pub open spec fn first_failure(artifacts: Seq<ArtifactModel>, reads: Seq<ArtifactRead>) -> Option<
    RecoverFailure,
>
    decreases artifacts.len(),
{
    if artifacts.len() == 0 {
        None
    } else {
        match first_failure(artifacts.drop_last(), reads) {
            Some(f) => Some(f),
            None => artifact_failure(artifacts.last(), reads[artifacts.len() - 1]),
        }
    }
}

proof fn failure_stays(artifacts: Seq<ArtifactModel>, reads: Seq<ArtifactRead>, i: int)
    requires
        0 <= i <= artifacts.len(),
        first_failure(artifacts.take(i), reads) is Some,
    ensures
        first_failure(artifacts, reads) == first_failure(artifacts.take(i), reads),
    decreases artifacts.len(),
{
    if i < artifacts.len() {
        assert(artifacts.drop_last().take(i) =~= artifacts.take(i));
        failure_stays(artifacts.drop_last(), reads, i);
    } else {
        assert(artifacts.take(i) =~= artifacts);
    }
}

/// Holds every file of a backup against the manifest, one after the other, and
/// stops at the first that is wrong.
pub fn verify_artifacts(artifacts: &Vec<BackupArtifact>, reads: &Vec<ArtifactRead>) -> (r: Result<
    (),
    Error,
>)
    requires
        reads@.len() == artifacts@.len(),
    ensures
        fails_as(r, first_failure(artifact_models(artifacts@), reads@)),
{
    let ghost m = artifact_models(artifacts@);
    let mut i: usize = 0;
    assert(m.take(0).len() == 0);
    while i < artifacts.len()
        invariant
            i <= artifacts@.len(),
            reads@.len() == artifacts@.len(),
            m == artifact_models(artifacts@),
            first_failure(m.take(i as int), reads@) is None,
        decreases artifacts@.len() - i,
    {
        let ghost u = m.take(i + 1);
        assert(u.drop_last() =~= m.take(i as int));
        assert(u.last() == artifacts@[i as int]@);
        match check_artifact(&artifacts[i], &reads[i]) {
            Ok(_) => {},
            Err(e) => {
                proof {
                    failure_stays(m, reads@, i + 1);
                }
                return Err(e);
            },
        }
        i += 1;
    }
    assert(m.take(i as int) =~= m);
    Ok(())
}

/// Whether every file is what the manifest says.
pub open spec fn files_are_sound(artifacts: Seq<ArtifactModel>, reads: Seq<ArtifactRead>) -> bool {
    forall|i: int|
        0 <= i < artifacts.len() ==> artifact_failure(#[trigger] artifacts[i], reads[i]) is None
}

/// A failure is found if and only if some file is not what the manifest says.
pub proof fn failure_is_exact(artifacts: Seq<ArtifactModel>, reads: Seq<ArtifactRead>)
    ensures
        first_failure(artifacts, reads) is None <==> files_are_sound(artifacts, reads),
    decreases artifacts.len(),
{
    if artifacts.len() > 0 {
        let rest = artifacts.drop_last();
        failure_is_exact(rest, reads);
        if files_are_sound(rest, reads) {
            assert forall|i: int| 0 <= i < artifacts.len() - 1 implies artifact_failure(
                #[trigger] artifacts[i],
                reads[i],
            ) is None by {
                assert(rest[i] == artifacts[i]);
            }
        }
        if files_are_sound(artifacts, reads) {
            assert(artifact_failure(artifacts[artifacts.len() - 1], reads[artifacts.len() - 1]) is None);
            assert forall|i: int| 0 <= i < rest.len() implies artifact_failure(
                #[trigger] rest[i],
                reads[i],
            ) is None by {
                assert(rest[i] == artifacts[i]);
            }
        }
    }
}

/// What reading the manifest gave.
pub enum ManifestRead {
    /// There is none.
    Missing,
    /// It cannot be read.
    Failed(String),
    /// It is malformed.
    Malformed(String),
    /// The manifest.
    Read(BackupManifest),
}

/// What is wrong with a backup, if anything.
pub open spec fn backup_failure(
    dir: Seq<char>,
    dir_exists: bool,
    manifest: ManifestRead,
    reads: Seq<ArtifactRead>,
) -> Option<RecoverFailure> {
    if !dir_exists {
        Some(RecoverFailure::DirNotFound(dir))
    } else {
        match manifest {
            ManifestRead::Missing => Some(RecoverFailure::ManifestNotFound(dir)),
            ManifestRead::Failed(x) => Some(RecoverFailure::Io(x@)),
            ManifestRead::Malformed(x) => Some(RecoverFailure::ManifestParse(x@)),
            ManifestRead::Read(m) => first_failure(artifact_models(m.artifacts@), reads),
        }
    }
}

/// Admits a backup: the directory and the manifest have to be there, and every
/// file has to be what the manifest says, before anything is written.
pub fn admit_backup(
    dir: &str,
    dir_exists: bool,
    manifest: ManifestRead,
    reads: &Vec<ArtifactRead>,
) -> (r: Result<BackupManifest, Error>)
    requires
        manifest matches ManifestRead::Read(m) ==> reads@.len() == m.artifacts@.len(),
    ensures
        match backup_failure(dir@, dir_exists, manifest, reads@) {
            None => manifest matches ManifestRead::Read(m) && r == Ok::<BackupManifest, Error>(m),
            Some(f) => r matches Err(e) && failure_of(e) == f,
        },
{
    if !dir_exists {
        return Err(Error::Recover(RecoverError::BackupDirNotFound(dir.to_owned())));
    }
    match manifest {
        ManifestRead::Missing => Err(
            Error::Recover(RecoverError::ManifestNotFound(dir.to_owned())),
        ),
        ManifestRead::Failed(e) => Err(Error::Io(e)),
        ManifestRead::Malformed(e) => Err(Error::Recover(RecoverError::ManifestParse(e))),
        ManifestRead::Read(m) => match verify_artifacts(&m.artifacts, reads) {
            Ok(_) => Ok(m),
            Err(e) => Err(e),
        },
    }
}

// ---------------------------------------------------------- confirmation

/// Whether the user has to be asked.
pub fn needs_confirmation(yes: bool, dry_run: bool) -> (r: bool)
    ensures
        r == (!yes && !dry_run),
{
    !yes && !dry_run
}

/// The question to the user.
pub fn confirmation_prompt(artifacts: usize, dir: &str) -> (r: String)
    ensures
        r@ == question(artifacts as nat, dir@),
{
    let mut t = "About to restore ".to_owned();
    push_dec(&mut t, artifacts as u64);
    t.append(" artifacts from ");
    t.append(dir);
    t.append(" — proceed? [y/N]");
    t
}

/// Whether an answer is a yes.
pub open spec fn says_yes(answer: Seq<char>) -> bool {
    trim(answer) == seq!['y'] || trim(answer) == seq!['Y']
}

/// Takes the answer of the user: anything but a yes is a no.
pub fn take_answer(answer: &str) -> (r: Result<(), Error>)
    ensures
        if says_yes(answer@) {
            r is Ok
        } else {
            r == Err::<(), Error>(Error::Recover(RecoverError::Declined))
        },
{
    let chars = chars_of(answer);
    let t = trimmed(chars.as_slice());
    if t.len() == 1 && (t[0] == 'y' || t[0] == 'Y') {
        proof {
            if t@[0] == 'y' {
                assert(t@ =~= seq!['y']);
            } else {
                assert(t@ =~= seq!['Y']);
            }
        }
        Ok(())
    } else {
        proof {
            if t@ == seq!['y'] {
                assert(t@[0] == 'y');
            }
            if t@ == seq!['Y'] {
                assert(t@[0] == 'Y');
            }
        }
        Err(Error::Recover(RecoverError::Declined))
    }
}

// --------------------------------------------------------------- adapter

/// The first adapter on the bus.
fn first_adapter(devices: Result<Vec<String>, String>) -> (r: Result<String, Error>)
    ensures
        match devices {
            Err(e) => r matches Err(x) && failure_of(x) == RecoverFailure::Other(
                "recover: failed to enumerate PCI devices: "@ + e@,
            ),
            Ok(v) => if v@.len() == 0 {
                r matches Err(x) && failure_of(x) == RecoverFailure::Other(
                    "recover: no SAS2008 card found — specify --pci"@,
                )
            } else {
                r == Ok::<String, Error>(v@[0])
            },
        },
{
    match devices {
        Err(e) => Err(
            Error::Other(labelled("recover: failed to enumerate PCI devices: ", e.as_str())),
        ),
        Ok(v) => {
            if v.len() == 0 {
                Err(Error::Other("recover: no SAS2008 card found — specify --pci".to_owned()))
            } else {
                Ok(v[0].clone())
            }
        },
    }
}

// ------------------------------------------------------------- trial run

/// Whether a file is one that is written back.
pub open spec fn is_restored(a: ArtifactModel) -> bool {
    a.path == "firmware.bin"@ || a.path == "bios.rom"@
}

/// The files that are written back, in order.
pub open spec fn planned_of(v: Seq<ArtifactModel>) -> Seq<ArtifactModel>
    decreases v.len(),
{
    if v.len() == 0 {
        Seq::empty()
    } else if is_restored(v.last()) {
        planned_of(v.drop_last()).push(v.last())
    } else {
        planned_of(v.drop_last())
    }
}

/// The files that are written back, in order.
pub fn planned(artifacts: &Vec<BackupArtifact>) -> (r: Vec<BackupArtifact>)
    ensures
        artifact_models(r@) == planned_of(artifact_models(artifacts@)),
{
    let ghost m = artifact_models(artifacts@);
    let mut out: Vec<BackupArtifact> = Vec::new();
    let mut i: usize = 0;
    assert(m.take(0).len() == 0);
    assert(artifact_models(out@) =~= Seq::empty());
    while i < artifacts.len()
        invariant
            i <= artifacts@.len(),
            m == artifact_models(artifacts@),
            artifact_models(out@) == planned_of(m.take(i as int)),
        decreases artifacts@.len() - i,
    {
        let ghost u = m.take(i + 1);
        assert(u.drop_last() =~= m.take(i as int));
        assert(u.last() == artifacts@[i as int]@);
        let a = &artifacts[i];
        if same_text(a.path.as_str(), "firmware.bin") || same_text(a.path.as_str(), "bios.rom") {
            let ghost before = artifact_models(out@);
            out.push(a.clone());
            assert(artifact_models(out@) =~= before.push(a@));
        }
        i += 1;
    }
    assert(m.take(i as int) =~= m);
    out
}

/// The line of a plan for one file.
pub open spec fn plan_line(a: ArtifactModel) -> Seq<char> {
    "  "@ + a.path + " ("@ + dec(a.size as nat) + " bytes, sha256="@ + short_digest(a.sha256)
        + ")"@
}

/// What a trial run says.
pub open spec fn plan_lines(planned: Seq<ArtifactModel>, dir: Seq<char>, bdf: Seq<char>) -> Seq<
    Seq<char>,
> {
    seq![
        "[dry-run] would restore "@ + dec(planned.len()) + " regions from "@ + dir + " to "@ + bdf
            + ":"@,
    ] + planned.map_values(|a: ArtifactModel| plan_line(a)) + seq![
        "(nvdata.bin skipped: IT asymmetry per R0 doc)"@,
    ]
}

/// Says what a restore would do, line by line.
pub fn describe_plan(planned: &Vec<BackupArtifact>, dir: &str, bdf: &str) -> (r: Vec<String>)
    ensures
        strings(r@) == plan_lines(artifact_models(planned@), dir@, bdf@),
{
    let ghost m = artifact_models(planned@);
    let ghost all = plan_lines(m, dir@, bdf@);
    let mut v: Vec<String> = Vec::new();
    let mut head = "[dry-run] would restore ".to_owned();
    push_dec(&mut head, planned.len() as u64);
    head.append(" regions from ");
    head.append(dir);
    head.append(" to ");
    head.append(bdf);
    head.append(":");
    assert(head@ =~= all[0]);
    v.push(head);
    assert(strings(v@) =~= all.take(1));
    let mut i: usize = 0;
    while i < planned.len()
        invariant
            i <= planned@.len(),
            m == artifact_models(planned@),
            all == plan_lines(m, dir@, bdf@),
            strings(v@) == all.take(1 + i),
        decreases planned@.len() - i,
    {
        let ghost before = strings(v@);
        let a = &planned[i];
        let mut t = labelled("  ", a.path.as_str());
        t.append(" (");
        push_dec(&mut t, a.size);
        t.append(" bytes, sha256=");
        t.append(sha_short(a.sha256.as_str()).as_str());
        t.append(")");
        let ghost text = t@;
        assert(text =~= plan_line(a@));
        v.push(t);
        assert(strings(v@) =~= before.push(text));
        assert(all[1 + i] == plan_line(m[i as int]));
        i += 1;
        assert(strings(v@) =~= all.take(1 + i));
    }
    let ghost before = strings(v@);
    v.push("(nvdata.bin skipped: IT asymmetry per R0 doc)".to_owned());
    assert(strings(v@) =~= before.push("(nvdata.bin skipped: IT asymmetry per R0 doc)"@));
    assert(strings(v@) =~= all);
    v
}

/// Says what a restore has done, line by line.
pub fn describe_restore(report: &RestoreReport, dir: &str) -> (r: Vec<String>)
    ensures
        strings(r@) == seq![
            "restored "@ + dec(report.regions_written as nat) + " regions from "@ + dir@,
        ] + strings(report.regions@).map_values(|s: Seq<char>| "  ✓ "@ + s),
{
    let ghost all = seq![
        "restored "@ + dec(report.regions_written as nat) + " regions from "@ + dir@,
    ] + strings(report.regions@).map_values(|s: Seq<char>| "  ✓ "@ + s);
    let mut v: Vec<String> = Vec::new();
    let mut head = "restored ".to_owned();
    push_dec(&mut head, report.regions_written as u64);
    head.append(" regions from ");
    head.append(dir);
    v.push(head);
    assert(strings(v@) =~= all.take(1));
    let mut i: usize = 0;
    while i < report.regions.len()
        invariant
            i <= report.regions@.len(),
            all == seq![
                "restored "@ + dec(report.regions_written as nat) + " regions from "@ + dir@,
            ] + strings(report.regions@).map_values(|s: Seq<char>| "  ✓ "@ + s),
            strings(v@) == all.take(1 + i),
        decreases report.regions@.len() - i,
    {
        let ghost before = strings(v@);
        let t = labelled("  ✓ ", report.regions[i].as_str());
        let ghost text = t@;
        v.push(t);
        assert(strings(v@) =~= before.push(text));
        assert(all[1 + i] == "  ✓ "@ + strings(report.regions@)[i as int]);
        i += 1;
        assert(strings(v@) =~= all.take(1 + i));
    }
    assert(all.take(1 + i) =~= all);
    v
}

// ----------------------------------------------------------- the recovery

/// Where a recovery stands.
pub enum RecoverState {
    /// The backup is being read. The adapter may have been named.
    Loading { pci: Option<String> },
    /// The user is asked.
    Asking { pci: Option<String> },
    /// The adapters on the bus are being listed.
    Listing,
    /// The adapter is looked for.
    Finding { bdf: String },
    /// The adapter is being restored.
    Restoring,
    /// The recovery is over.
    Ended,
}

/// What happens to a recovery.
pub enum RecoverEvent {
    /// The directory, the manifest and the files that it lists have been read.
    Loaded { dir_exists: bool, manifest: ManifestRead, reads: Vec<ArtifactRead> },
    /// The user has answered, or the answer cannot be read.
    Answered(Result<String, String>),
    /// The adapters on the bus, or why they cannot be listed.
    Listed(Result<Vec<String>, String>),
    /// The adapter was found, or why not.
    Found(Result<(), String>),
    /// The adapter was restored, or why not.
    Restored(Result<RestoreReport, String>),
}

/// What a recovery asks for.
pub enum RecoverAction {
    /// Ask the user this.
    Ask(String),
    /// List the adapters on the bus.
    List,
    /// Look for the adapter at this address.
    Discover(String),
    /// Restore the adapter.
    Restore,
    /// Say what would be written to the adapter at `bdf`. The recovery is over.
    Plan { regions: Vec<BackupArtifact>, bdf: String },
    /// The recovery is over.
    Finish(Result<RestoreReport, Error>),
}

/// What the state of a recovery stands for.
#[verifier::ext_equal]
pub enum RecoverStage {
    Loading(Option<Seq<char>>),
    Asking(Option<Seq<char>>),
    Listing,
    Finding(Seq<char>),
    Restoring,
    Ended,
}

/// What an action stands for.
#[verifier::ext_equal]
pub enum RecoverDemand {
    Ask(Seq<char>),
    List,
    Discover(Seq<char>),
    Restore,
    Plan { regions: Seq<ArtifactModel>, bdf: Seq<char> },
    Finish(Result<RestoreReport, RecoverFailure>),
}

impl View for RecoverState {
    type V = RecoverStage;

    open spec fn view(&self) -> RecoverStage {
        match self {
            RecoverState::Loading { pci } => RecoverStage::Loading(opt_text(*pci)),
            RecoverState::Asking { pci } => RecoverStage::Asking(opt_text(*pci)),
            RecoverState::Listing => RecoverStage::Listing,
            RecoverState::Finding { bdf } => RecoverStage::Finding(bdf@),
            RecoverState::Restoring => RecoverStage::Restoring,
            RecoverState::Ended => RecoverStage::Ended,
        }
    }
}

impl View for RecoverAction {
    type V = RecoverDemand;

    open spec fn view(&self) -> RecoverDemand {
        match self {
            RecoverAction::Ask(t) => RecoverDemand::Ask(t@),
            RecoverAction::List => RecoverDemand::List,
            RecoverAction::Discover(bdf) => RecoverDemand::Discover(bdf@),
            RecoverAction::Restore => RecoverDemand::Restore,
            RecoverAction::Plan { regions, bdf } => RecoverDemand::Plan {
                regions: artifact_models(regions@),
                bdf: bdf@,
            },
            RecoverAction::Finish(Ok(v)) => RecoverDemand::Finish(Ok(*v)),
            RecoverAction::Finish(Err(e)) => RecoverDemand::Finish(Err(failure_of(*e))),
        }
    }
}

/// Whether the event is one that the recovery waits for: what was read has as many files
/// as the manifest lists.
pub open spec fn recover_awaits(s: RecoverStage, e: RecoverEvent) -> bool {
    match s {
        RecoverStage::Loading(_) => e matches RecoverEvent::Loaded { manifest, reads, .. } && (
        manifest matches ManifestRead::Read(m) ==> reads@.len() == m.artifacts@.len()),
        RecoverStage::Asking(_) => e is Answered,
        RecoverStage::Listing => e is Listed,
        RecoverStage::Finding(_) => e is Found,
        RecoverStage::Restoring => e is Restored,
        RecoverStage::Ended => false,
    }
}

/// The recovery ends in a failure.
pub open spec fn recover_fails(f: RecoverFailure) -> (RecoverStage, RecoverDemand) {
    (RecoverStage::Ended, RecoverDemand::Finish(Err(f)))
}

/// What comes next once the user agrees: the adapter that was named is looked for, or the
/// adapters are listed.
pub open spec fn seek_adapter(pci: Option<Seq<char>>) -> (RecoverStage, RecoverDemand) {
    match pci {
        Some(bdf) => (RecoverStage::Finding(bdf), RecoverDemand::Discover(bdf)),
        None => (RecoverStage::Listing, RecoverDemand::List),
    }
}

/// The question to the user.
pub open spec fn question(artifacts: nat, dir: Seq<char>) -> Seq<char> {
    "About to restore "@ + dec(artifacts) + " artifacts from "@ + dir + " — proceed? [y/N]"@
}

/// What comes next once every file is what the manifest says.
pub open spec fn admitted_next(
    pci: Option<Seq<char>>,
    dir: Seq<char>,
    yes: bool,
    dry_run: bool,
    artifacts: Seq<ArtifactModel>,
) -> (RecoverStage, RecoverDemand) {
    if dry_run {
        (
            RecoverStage::Ended,
            RecoverDemand::Plan {
                regions: planned_of(artifacts),
                bdf: match pci {
                    Some(bdf) => bdf,
                    None => "0000:00:00.0"@,
                },
            },
        )
    } else if yes {
        seek_adapter(pci)
    } else {
        (RecoverStage::Asking(pci), RecoverDemand::Ask(question(artifacts.len(), dir)))
    }
}

/// The next state of a recovery and what it asks for.
pub open spec fn recover_next(
    s: RecoverStage,
    dir: Seq<char>,
    yes: bool,
    dry_run: bool,
    e: RecoverEvent,
) -> (RecoverStage, RecoverDemand) {
    match (s, e) {
        (RecoverStage::Loading(pci), RecoverEvent::Loaded { dir_exists, manifest, reads }) => {
            match backup_failure(dir, dir_exists, manifest, reads@) {
                Some(f) => recover_fails(f),
                None => admitted_next(
                    pci,
                    dir,
                    yes,
                    dry_run,
                    artifact_models(manifest->Read_0.artifacts@),
                ),
            }
        },
        (RecoverStage::Asking(_), RecoverEvent::Answered(Err(x))) => recover_fails(
            RecoverFailure::Io(x@),
        ),
        (RecoverStage::Asking(pci), RecoverEvent::Answered(Ok(answer))) => if says_yes(answer@) {
            seek_adapter(pci)
        } else {
            recover_fails(RecoverFailure::Declined)
        },
        (RecoverStage::Listing, RecoverEvent::Listed(Err(x))) => recover_fails(
            RecoverFailure::Other("recover: failed to enumerate PCI devices: "@ + x@),
        ),
        (RecoverStage::Listing, RecoverEvent::Listed(Ok(v))) => if v@.len() == 0 {
            recover_fails(
                RecoverFailure::Other("recover: no SAS2008 card found — specify --pci"@),
            )
        } else {
            (RecoverStage::Finding(v@[0]@), RecoverDemand::Discover(v@[0]@))
        },
        (RecoverStage::Finding(bdf), RecoverEvent::Found(Err(x))) => recover_fails(
            RecoverFailure::Other("recover: discover_one("@ + bdf + "): "@ + x@),
        ),
        (RecoverStage::Finding(_), RecoverEvent::Found(Ok(_))) => (
            RecoverStage::Restoring,
            RecoverDemand::Restore,
        ),
        (RecoverStage::Restoring, RecoverEvent::Restored(Err(x))) => recover_fails(
            RecoverFailure::Other("recover: card.restore: "@ + x@),
        ),
        (RecoverStage::Restoring, RecoverEvent::Restored(Ok(report))) => (
            RecoverStage::Ended,
            RecoverDemand::Finish(Ok(report)),
        ),
        _ => (RecoverStage::Ended, RecoverDemand::List),
    }
}

fn failed(e: Error) -> (r: (RecoverState, RecoverAction))
    ensures
        (r.0@, r.1@) == recover_fails(failure_of(e)),
{
    (RecoverState::Ended, RecoverAction::Finish(Err(e)))
}

fn seek(pci: Option<String>) -> (r: (RecoverState, RecoverAction))
    ensures
        (r.0@, r.1@) == seek_adapter(opt_text(pci)),
{
    match pci {
        Some(bdf) => {
            let copy = bdf.clone();
            (RecoverState::Finding { bdf }, RecoverAction::Discover(copy))
        },
        None => (RecoverState::Listing, RecoverAction::List),
    }
}

fn admitted(pci: Option<String>, dir: &str, yes: bool, dry_run: bool, m: BackupManifest) -> (r: (
    RecoverState,
    RecoverAction,
))
    ensures
        (r.0@, r.1@) == admitted_next(
            opt_text(pci),
            dir@,
            yes,
            dry_run,
            artifact_models(m.artifacts@),
        ),
{
    assert(artifact_models(m.artifacts@).len() == m.artifacts@.len());
    if dry_run {
        let regions = planned(&m.artifacts);
        let bdf = match pci {
            Some(bdf) => bdf,
            None => "0000:00:00.0".to_owned(),
        };
        (RecoverState::Ended, RecoverAction::Plan { regions, bdf })
    } else if needs_confirmation(yes, dry_run) {
        let prompt = confirmation_prompt(m.artifacts.len(), dir);
        (RecoverState::Asking { pci }, RecoverAction::Ask(prompt))
    } else {
        seek(pci)
    }
}

/// One step of a recovery: the backup is read and held against its manifest, the user is
/// asked, the adapter is found, and only then is it restored.
pub fn recover_step(
    state: RecoverState,
    dir: &str,
    yes: bool,
    dry_run: bool,
    event: RecoverEvent,
) -> (r: (RecoverState, RecoverAction))
    requires
        recover_awaits(state@, event),
    ensures
        (r.0@, r.1@) == recover_next(state@, dir@, yes, dry_run, event),
{
    match (state, event) {
        (RecoverState::Loading { pci }, RecoverEvent::Loaded { dir_exists, manifest, reads }) => {
            match admit_backup(dir, dir_exists, manifest, &reads) {
                Err(e) => failed(e),
                Ok(m) => admitted(pci, dir, yes, dry_run, m),
            }
        },
        (RecoverState::Asking { .. }, RecoverEvent::Answered(Err(e))) => failed(Error::Io(e)),
        (RecoverState::Asking { pci }, RecoverEvent::Answered(Ok(answer))) => {
            match take_answer(answer.as_str()) {
                Err(e) => failed(e),
                Ok(_) => seek(pci),
            }
        },
        (RecoverState::Listing, RecoverEvent::Listed(devices)) => match first_adapter(devices) {
            Err(e) => failed(e),
            Ok(bdf) => seek(Some(bdf)),
        },
        (RecoverState::Finding { bdf }, RecoverEvent::Found(Err(e))) => {
            let mut t = labelled("recover: discover_one(", bdf.as_str());
            t.append("): ");
            t.append(e.as_str());
            failed(Error::Other(t))
        },
        (RecoverState::Finding { .. }, RecoverEvent::Found(Ok(_))) => {
            (RecoverState::Restoring, RecoverAction::Restore)
        },
        (RecoverState::Restoring, RecoverEvent::Restored(Err(e))) => {
            failed(Error::Other(labelled("recover: card.restore: ", e.as_str())))
        },
        (RecoverState::Restoring, RecoverEvent::Restored(Ok(report))) => {
            (RecoverState::Ended, RecoverAction::Finish(Ok(report)))
        },
        _ => (RecoverState::Ended, RecoverAction::List),
    }
}

/// Whether something is asked of the user, the bus or the adapter.
pub open spec fn reaches_out(d: RecoverDemand) -> bool {
    d is Ask || d is List || d is Discover || d is Restore
}

/// Every file is held against the manifest before anything else happens: a recovery leaves
/// its first state, other than by ending in a failure, only where the backup is there and
/// all of its files are sound. No step leads back to that state.
pub proof fn files_are_vetted_first(
    s: RecoverStage,
    dir: Seq<char>,
    yes: bool,
    dry_run: bool,
    e: RecoverEvent,
)
    requires
        recover_awaits(s, e),
    ensures
        ({
            let (t, d) = recover_next(s, dir, yes, dry_run, e);
            &&& !(t is Loading)
            &&& s is Loading && (reaches_out(d) || d is Plan || !(t is Ended)) ==> (e matches
                RecoverEvent::Loaded { dir_exists: true, manifest: ManifestRead::Read(m), reads }
                && files_are_sound(artifact_models(m.artifacts@), reads@))
        }),
{
    if let RecoverEvent::Loaded { manifest: ManifestRead::Read(m), reads, .. } = e {
        failure_is_exact(artifact_models(m.artifacts@), reads@);
    }
}

/// The first file that is missing or altered ends a recovery with the error for it, whatever
/// else was asked for.
pub proof fn unsound_file_ends_recovery(
    pci: Option<Seq<char>>,
    dir: Seq<char>,
    yes: bool,
    dry_run: bool,
    m: BackupManifest,
    reads: Vec<ArtifactRead>,
)
    requires
        reads@.len() == m.artifacts@.len(),
        !files_are_sound(artifact_models(m.artifacts@), reads@),
    ensures
        first_failure(artifact_models(m.artifacts@), reads@) matches Some(f) && recover_next(
            RecoverStage::Loading(pci),
            dir,
            yes,
            dry_run,
            RecoverEvent::Loaded { dir_exists: true, manifest: ManifestRead::Read(m), reads },
        ) == recover_fails(f),
{
    failure_is_exact(artifact_models(m.artifacts@), reads@);
}

/// A trial run never reaches an adapter: it ends with its first step, and asks for nothing.
pub proof fn trial_run_reaches_nothing(
    pci: Option<Seq<char>>,
    dir: Seq<char>,
    yes: bool,
    e: RecoverEvent,
)
    requires
        recover_awaits(RecoverStage::Loading(pci), e),
    ensures
        ({
            let (t, d) = recover_next(RecoverStage::Loading(pci), dir, yes, true, e);
            t is Ended && !reaches_out(d)
        }),
{
}

/// Nothing is looked for or restored without consent: without `yes` the user is asked first,
/// and any answer but a yes ends the recovery.
pub proof fn recovery_needs_consent(s: RecoverStage, dir: Seq<char>, dry_run: bool, e: RecoverEvent)
    requires
        recover_awaits(s, e),
    ensures
        ({
            let (t, d) = recover_next(s, dir, false, dry_run, e);
            &&& s is Loading && reaches_out(d) ==> d is Ask && t is Asking
            &&& s is Asking && reaches_out(d) ==> (e matches RecoverEvent::Answered(Ok(a))
                && says_yes(a@))
        }),
{
}

/// How far a recovery is from its end.
pub open spec fn recover_steps_left(s: RecoverStage) -> int {
    match s {
        RecoverStage::Loading(_) => 5,
        RecoverStage::Asking(_) => 4,
        RecoverStage::Listing => 3,
        RecoverStage::Finding(_) => 2,
        RecoverStage::Restoring => 1,
        RecoverStage::Ended => 0,
    }
}

/// A recovery comes nearer to its end with every step, ends exactly where it says what came
/// of it, and succeeds only with a restored adapter.
pub proof fn recovery_ends(
    s: RecoverStage,
    dir: Seq<char>,
    yes: bool,
    dry_run: bool,
    e: RecoverEvent,
)
    requires
        recover_awaits(s, e),
    ensures
        ({
            let (t, d) = recover_next(s, dir, yes, dry_run, e);
            &&& 0 <= recover_steps_left(t) < recover_steps_left(s)
            &&& t is Ended <==> (d is Finish || d is Plan)
            &&& (d matches RecoverDemand::Finish(o) && o is Ok) ==> s is Restoring
        }),
{
}

/// Where a recovery stands after a run of events.
pub open spec fn recover_after(
    s: RecoverStage,
    dir: Seq<char>,
    yes: bool,
    dry_run: bool,
    events: Seq<RecoverEvent>,
) -> RecoverStage
    decreases events.len(),
{
    if events.len() == 0 {
        s
    } else {
        recover_next(
            recover_after(s, dir, yes, dry_run, events.drop_last()),
            dir,
            yes,
            dry_run,
            events.last(),
        ).0
    }
}

/// Whether each event of a run comes where it is waited for.
pub open spec fn recover_run(
    s: RecoverStage,
    dir: Seq<char>,
    yes: bool,
    dry_run: bool,
    events: Seq<RecoverEvent>,
) -> bool {
    forall|k: int|
        0 <= k < events.len() ==> recover_awaits(
            recover_after(s, dir, yes, dry_run, #[trigger] events.take(k)),
            events[k],
        )
}

proof fn named_adapter_stays(
    bdf: Seq<char>,
    dir: Seq<char>,
    yes: bool,
    dry_run: bool,
    events: Seq<RecoverEvent>,
)
    requires
        recover_run(RecoverStage::Loading(Some(bdf)), dir, yes, dry_run, events),
    ensures
        match recover_after(RecoverStage::Loading(Some(bdf)), dir, yes, dry_run, events) {
            RecoverStage::Loading(p) | RecoverStage::Asking(p) => p == Some(bdf),
            RecoverStage::Listing => false,
            RecoverStage::Finding(x) => x == bdf,
            RecoverStage::Restoring | RecoverStage::Ended => true,
        },
    decreases events.len(),
{
    if events.len() > 0 {
        let s = RecoverStage::Loading(Some(bdf));
        let before = events.drop_last();
        assert forall|k: int| 0 <= k < before.len() implies recover_awaits(
            recover_after(s, dir, yes, dry_run, #[trigger] before.take(k)),
            before[k],
        ) by {
            assert(before.take(k) =~= events.take(k));
        }
        assert(events.take(events.len() - 1) =~= before);
        named_adapter_stays(bdf, dir, yes, dry_run, before);
    }
}

/// A recovery for which an adapter was named keeps to it: however the run goes on, with or
/// without a question to the user, the adapters on the bus are never listed, no other
/// address is ever looked for, and what a trial run shows is meant for that address.
pub proof fn named_adapter_is_kept(
    bdf: Seq<char>,
    dir: Seq<char>,
    yes: bool,
    dry_run: bool,
    events: Seq<RecoverEvent>,
    e: RecoverEvent,
)
    requires
        recover_run(RecoverStage::Loading(Some(bdf)), dir, yes, dry_run, events),
        recover_awaits(
            recover_after(RecoverStage::Loading(Some(bdf)), dir, yes, dry_run, events),
            e,
        ),
    ensures
        ({
            let d = recover_next(
                recover_after(RecoverStage::Loading(Some(bdf)), dir, yes, dry_run, events),
                dir,
                yes,
                dry_run,
                e,
            ).1;
            &&& !(d is List)
            &&& (d matches RecoverDemand::Discover(x) ==> x == bdf)
            &&& (d matches RecoverDemand::Plan { bdf: x, .. } ==> x == bdf)
        }),
{
    named_adapter_stays(bdf, dir, yes, dry_run, events);
}

/// A recovery for which no adapter was named lists those on the bus, and looks for the first of
/// them.
pub proof fn first_adapter_is_taken(
    dir: Seq<char>,
    yes: bool,
    dry_run: bool,
    answer: String,
    found: Vec<String>,
)
    requires
        says_yes(answer@),
        found@.len() > 0,
    ensures
        recover_next(
            RecoverStage::Asking(None),
            dir,
            yes,
            dry_run,
            RecoverEvent::Answered(Ok(answer)),
        ) == (RecoverStage::Listing, RecoverDemand::List),
        recover_next(RecoverStage::Listing, dir, yes, dry_run, RecoverEvent::Listed(Ok(found))) == (
            RecoverStage::Finding(found@[0]@),
            RecoverDemand::Discover(found@[0]@),
        ),
{
}

/// A recovery that has what it needs goes on to the end: sound files and consent lead to the
/// adapter, the adapter that was found is restored, and what came of that is what is said.
pub proof fn sound_backup_is_restored(
    bdf: Seq<char>,
    dir: Seq<char>,
    m: BackupManifest,
    reads: Vec<ArtifactRead>,
    report: RestoreReport,
)
    requires
        reads@.len() == m.artifacts@.len(),
        forall|i: int|
            0 <= i < reads@.len() ==> ((#[trigger] reads@[i]) matches ArtifactRead::Read(b)
                && sha256_text(b@) == m.artifacts@[i].sha256@),
    ensures
        recover_next(
            RecoverStage::Loading(Some(bdf)),
            dir,
            true,
            false,
            RecoverEvent::Loaded { dir_exists: true, manifest: ManifestRead::Read(m), reads },
        ) == (RecoverStage::Finding(bdf), RecoverDemand::Discover(bdf)),
        recover_next(
            RecoverStage::Loading(Some(bdf)),
            dir,
            false,
            false,
            RecoverEvent::Loaded { dir_exists: true, manifest: ManifestRead::Read(m), reads },
        ).0 == RecoverStage::Asking(Some(bdf)),
        recover_next(RecoverStage::Finding(bdf), dir, true, false, RecoverEvent::Found(Ok(()))) == (
            RecoverStage::Restoring,
            RecoverDemand::Restore,
        ),
        recover_next(
            RecoverStage::Restoring,
            dir,
            true,
            false,
            RecoverEvent::Restored(Ok(report)),
        ) == (RecoverStage::Ended, RecoverDemand::Finish(Ok(report))),
{
    sound_files_have_their_digests(m, reads);
    failure_is_exact(artifact_models(m.artifacts@), reads@);
}

/// The files of a backup are sound exactly where each of them was read and has the digest that
/// the manifest gives for it.
pub proof fn sound_files_have_their_digests(m: BackupManifest, reads: Vec<ArtifactRead>)
    requires
        reads@.len() == m.artifacts@.len(),
    ensures
        files_are_sound(artifact_models(m.artifacts@), reads@) <==> forall|i: int|
            0 <= i < reads@.len() ==> ((#[trigger] reads@[i]) matches ArtifactRead::Read(b)
                && sha256_text(b@) == m.artifacts@[i].sha256@),
{
    let a = artifact_models(m.artifacts@);
    if files_are_sound(a, reads@) {
        assert forall|i: int| 0 <= i < reads@.len() implies ((#[trigger] reads@[i]) matches
            ArtifactRead::Read(b) && sha256_text(b@) == m.artifacts@[i].sha256@) by {
            assert(artifact_failure(a[i], reads@[i]) is None);
        }
    }
    if forall|i: int|
        0 <= i < reads@.len() ==> ((#[trigger] reads@[i]) matches ArtifactRead::Read(b)
            && sha256_text(b@) == m.artifacts@[i].sha256@) {
        assert forall|i: int| 0 <= i < a.len() implies artifact_failure(
            #[trigger] a[i],
            reads@[i],
        ) is None by {
            assert(reads@[i] is Read);
        }
    }
}

/// The first unsound file is the one that is reported, and by its own name and digests.
pub proof fn first_unsound_file_is_reported(
    artifacts: Seq<ArtifactModel>,
    reads: Seq<ArtifactRead>,
    k: int,
)
    requires
        reads.len() == artifacts.len(),
        0 <= k < artifacts.len(),
        forall|j: int|
            0 <= j < k ==> ((#[trigger] reads[j]) matches ArtifactRead::Read(b) && sha256_text(b@)
                == artifacts[j].sha256),
        !(reads[k] matches ArtifactRead::Read(b) && sha256_text(b@) == artifacts[k].sha256),
    ensures
        first_failure(artifacts, reads) == Some(
            match reads[k] {
                ArtifactRead::Missing => RecoverFailure::Missing(artifacts[k].path),
                ArtifactRead::Failed(x) => RecoverFailure::Io(x@),
                ArtifactRead::Read(b) => RecoverFailure::Mismatch {
                    name: artifacts[k].path,
                    expected: artifacts[k].sha256,
                    actual: sha256_text(b@),
                },
            },
        ),
{
    let head = artifacts.take(k);
    assert forall|i: int| 0 <= i < head.len() implies artifact_failure(
        #[trigger] head[i],
        reads[i],
    ) is None by {
        assert(reads[i] is Read);
    }
    failure_is_exact(head, reads);
    assert(artifacts.take(k + 1).drop_last() =~= head);
    assert(artifacts.take(k + 1).last() == artifacts[k]);
    failure_stays(artifacts, reads, k + 1);
}

/// Only a lone `y` counts as a yes, large or small, with nothing but white space around it.
pub proof fn only_y_is_a_yes(answer: Seq<char>)
    requires
        says_yes(answer),
    ensures
        exists|i: int|
            0 <= i < answer.len() && (#[trigger] answer[i] == 'y' || answer[i] == 'Y') && forall|
                j: int,
            |
                0 <= j < answer.len() && j != i ==> is_white(#[trigger] answer[j]),
{
    trimming_is_exact(answer);
    let (j, k) = choose|j: int, k: int|
        0 <= j <= k <= answer.len() && trim(answer) == #[trigger] answer.subrange(j, k) && (forall|
            i: int,
        |
            0 <= i < j || k <= i < answer.len() ==> is_white(#[trigger] answer[i]));
    let t = answer.subrange(j, k);
    assert(t.len() == 1);
    assert(t[0] == answer[j]);
    assert(answer[j] == 'y' || answer[j] == 'Y');
}

/// A trial run shows exactly the files that would be written, `firmware.bin` and `bios.rom`, in
/// the order of the manifest.
pub proof fn plan_shows_what_is_written(v: Seq<ArtifactModel>, a: ArtifactModel)
    ensures
        planned_of(v.push(a)) == if a.path == "firmware.bin"@ || a.path == "bios.rom"@ {
            planned_of(v).push(a)
        } else {
            planned_of(v)
        },
        planned_of(Seq::<ArtifactModel>::empty()) == Seq::<ArtifactModel>::empty(),
{
    assert(v.push(a).drop_last() =~= v);
}

} // verus!
