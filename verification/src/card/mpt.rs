//! Adapters with a Fusion-MPT chip: the messages that read and write their
//! flash, and what is made of the replies.

use crate::bytes::{clamped, clamped_slice, push_u32, push_zeros, read_u16, to_vec};
use crate::bytes::{le32, le32_round_trip, u16_at, u32_at, zeros};
use crate::card::{
    artifact_models, chip_family_from_pci, copy_text, family_of, ArtifactModel, BackupArtifact,
    BackupManifest, BackupReport, CardError, CardFailure, CardIdentity, DetectReport, PciDevice,
    RestoreReport, SourceCardInfo,
};
use crate::card_database::{identified, identify_card, CardInfo};
use crate::digest::{sha256_hex, sha256_text};
use crate::mpi::messages::{
    image_number, FwDownloadReply, FwUploadReply, ImageType, IocStatus, MpiFunction,
};
use crate::mpi::ioc_status::status_numbers;
use crate::mpi::replies::image_reply_fields_are_in_place;
use crate::mpi::session::Personality;
use crate::text::{dec, hex_pad, push_dec, push_hex_pad, same_text, strings};
use vstd::prelude::*;

verus! {

/// How many bytes are asked for in one upload.
pub const UPLOAD_BUF_SIZE: usize = 0x20_0000;

/// How many bytes go into one download.
pub const RESTORE_CHUNK_SIZE: usize = 0x4000;

/// Where the data element stands in a transfer request, in words.
pub const TRANSFER_SGE_WORDS: u32 = 9;

/// Where the data element stands in a request for facts, in words.
pub const FACTS_SGE_WORDS: u32 = 5;

/// An adapter with a Fusion-MPT chip.
#[derive(Debug)]
pub struct MptCard {
    identity: CardIdentity,
}

// ---------------------------------------------------------------- requests

/// The request for the facts of the controller.
pub open spec fn facts_request() -> Seq<u8> {
    zeros(3) + seq![MpiFunction::IocFacts.code()] + zeros(8)
}

/// Builds the request for the facts of the controller.
pub fn build_facts_request() -> (r: Vec<u8>)
    ensures
        r@ == facts_request(),
{
    let mut v: Vec<u8> = Vec::new();
    push_zeros(&mut v, 3);
    v.push(MpiFunction::IocFacts.as_u8());
    push_zeros(&mut v, 8);
    assert(v@ =~= facts_request());
    v
}

/// A request that moves part of an image: the header, then the element that says
/// which part.
pub open spec fn transfer_request(
    image: u8,
    function: u8,
    flags: u8,
    total: u32,
    offset: u32,
    size: u32,
) -> Seq<u8> {
    seq![image, 0u8, 0u8, function] + zeros(3) + seq![flags] + zeros(4) + le32(total) + zeros(4)
        + seq![0u8, 0u8, 12u8, 0u8] + zeros(4) + le32(offset) + le32(size)
}

fn build_transfer(image: u8, function: u8, flags: u8, total: u32, offset: u32, size: u32) -> (r: Vec<
    u8,
>)
    ensures
        r@ == transfer_request(image, function, flags, total, offset, size),
{
    let mut v: Vec<u8> = Vec::new();
    v.push(image);
    v.push(0);
    v.push(0);
    v.push(function);
    assert(v@ =~= seq![image, 0u8, 0u8, function]);
    push_zeros(&mut v, 3);
    v.push(flags);
    assert(v@ =~= seq![image, 0u8, 0u8, function] + zeros(3) + seq![flags]);
    push_zeros(&mut v, 4);
    push_u32(&mut v, total);
    push_zeros(&mut v, 4);
    let ghost head = v@;
    v.push(0);
    v.push(0);
    v.push(12);
    v.push(0);
    assert(v@ =~= head + seq![0u8, 0u8, 12u8, 0u8]);
    push_zeros(&mut v, 4);
    push_u32(&mut v, offset);
    push_u32(&mut v, size);
    v
}

/// The request that reads an image.
pub open spec fn upload_request(t: ImageType) -> Seq<u8> {
    transfer_request(t.code(), MpiFunction::FwUpload.code(), 0, 0, 0, UPLOAD_BUF_SIZE as u32)
}

/// Builds the request that reads an image.
pub fn build_upload_request(t: ImageType) -> (r: Vec<u8>)
    ensures
        r@ == upload_request(t),
{
    build_transfer(
        t.as_u8(),
        MpiFunction::FwUpload.as_u8(),
        0,
        0,
        0,
        UPLOAD_BUF_SIZE as u32,
    )
}

/// The end of the piece that starts at `offset` in an image of `len` bytes.
pub open spec fn piece_end(len: int, offset: int) -> int {
    if len - offset < RESTORE_CHUNK_SIZE {
        len
    } else {
        offset + RESTORE_CHUNK_SIZE
    }
}

/// The request that writes the piece that starts at `offset`; the last piece is
/// marked.
pub open spec fn download_request(t: ImageType, len: int, offset: int) -> Seq<u8> {
    transfer_request(
        t.code(),
        MpiFunction::FwDownload.code(),
        if piece_end(len, offset) >= len {
            1u8
        } else {
            0u8
        },
        len as u32,
        offset as u32,
        (piece_end(len, offset) - offset) as u32,
    )
}

/// Builds the request that writes the piece that starts at `offset`.
pub fn build_download_request(t: ImageType, len: usize, offset: usize) -> (r: Vec<u8>)
    requires
        offset < len,
    ensures
        r@ == download_request(t, len as int, offset as int),
{
    let end: usize = if len - offset < RESTORE_CHUNK_SIZE {
        len
    } else {
        offset + RESTORE_CHUNK_SIZE
    };
    build_transfer(
        t.as_u8(),
        MpiFunction::FwDownload.as_u8(),
        if end >= len { 1 } else { 0 },
        len as u32,
        offset as u32,
        (end - offset) as u32,
    )
}

/// The pieces follow each other without a gap, none is empty, none is larger
/// than the limit, and exactly the one that ends the image is marked.
pub proof fn pieces_cover_image(t: ImageType, len: int, offset: int)
    requires
        0 <= offset < len,
    ensures
        offset < piece_end(len, offset) <= len,
        piece_end(len, offset) - offset <= RESTORE_CHUNK_SIZE,
        download_request(t, len, offset)[7] == 1 <==> piece_end(len, offset) == len,
{
    let d = download_request(t, len, offset);
    let last = if piece_end(len, offset) >= len {
        1u8
    } else {
        0u8
    };
    let head = seq![t.code(), 0u8, 0u8, MpiFunction::FwDownload.code()] + zeros(3);
    assert(head.len() == 7);
    assert(d[7] == (head + seq![last])[7]);
    assert((head + seq![last])[7] == last);
}

// -------------------------------------------------------------- identity

/// Whether `id` is the identity of the device `d`, given the database.
pub open spec fn identifies(id: CardIdentity, d: PciDevice, cards: Seq<CardInfo>) -> bool {
    &&& id.bdf@ == d.bdf@
    &&& id.vendor_id == d.vendor_id
    &&& id.device_id == d.device_id
    &&& id.subsystem_vid == Some(d.subsystem_vendor_id)
    &&& id.subsystem_did == Some(d.subsystem_device_id)
    &&& id.chip_family == family_of(d.vendor_id, d.device_id)
    &&& match identified(
        cards,
        d.vendor_id,
        d.device_id,
        d.subsystem_vendor_id,
        d.subsystem_device_id,
    ) {
        Some(c) => id.friendly_name == Some(c.display),
        None => id.friendly_name is None,
    }
}

/// The first device at `bdf`.
pub open spec fn device_at(devices: Seq<PciDevice>, bdf: Seq<char>) -> Option<PciDevice>
    decreases devices.len(),
{
    if devices.len() == 0 {
        None
    } else if devices[0].bdf@ == bdf {
        Some(devices[0])
    } else {
        device_at(devices.skip(1), bdf)
    }
}

impl MptCard {
    /// What the adapter is.
    pub closed spec fn spec_identity(&self) -> CardIdentity {
        self.identity
    }

    /// An adapter with the given identity.
    pub fn new(identity: CardIdentity) -> (r: Self)
        ensures
            r.spec_identity() == identity,
    {
        MptCard { identity }
    }

    /// Finds the adapter at `bdf` among the devices on the bus, and its name in
    /// the database.
    pub fn discover_one(bdf: &str, devices: &[PciDevice], cards: &[CardInfo]) -> (r: Result<
        Self,
        CardError,
    >)
        ensures
            match device_at(devices@, bdf@) {
                None => r matches Err(e) && e@ == CardFailure::UnsupportedCard(0, 0),
                Some(d) => r matches Ok(c) && identifies(c.spec_identity(), d, cards@),
            },
    {
        let mut i: usize = 0;
        assert(devices@.skip(0) =~= devices@);
        while i < devices.len()
            invariant
                i <= devices@.len(),
                device_at(devices@, bdf@) == device_at(devices@.skip(i as int), bdf@),
            decreases devices@.len() - i,
        {
            assert(devices@.skip(i as int)[0] == devices@[i as int]);
            assert(devices@.skip(i as int).skip(1) =~= devices@.skip(i + 1));
            let d = &devices[i];
            if same_text(d.bdf.as_str(), bdf) {
                return Ok(MptCard { identity: Self::identify(d, cards) });
            }
            i += 1;
        }
        Err(CardError::UnsupportedCard(0, 0))
    }

    fn identify(d: &PciDevice, cards: &[CardInfo]) -> (r: CardIdentity)
        ensures
            identifies(r, *d, cards@),
    {
        let chip_family = chip_family_from_pci(d.vendor_id, d.device_id);
        let friendly_name = match identify_card(
            cards,
            d.vendor_id,
            d.device_id,
            d.subsystem_vendor_id,
            d.subsystem_device_id,
        ) {
            Some(c) => Some(c.display.clone()),
            None => None,
        };
        CardIdentity {
            bdf: d.bdf.clone(),
            vendor_id: d.vendor_id,
            device_id: d.device_id,
            subsystem_vid: Some(d.subsystem_vendor_id),
            subsystem_did: Some(d.subsystem_device_id),
            chip_family,
            friendly_name,
        }
    }

    /// What the adapter is.
    pub fn identity(&self) -> (r: &CardIdentity)
        ensures
            *r == self.spec_identity(),
    {
        &self.identity
    }

    /// Which firmware runs on the adapter: it cannot be asked.
    pub fn current_personality(&self) -> (r: Result<Personality, CardError>)
        ensures
            r matches Err(e) && e@ == CardFailure::NotImplemented("current_personality"@),
    {
        Err(CardError::NotImplemented("current_personality"))
    }

    /// Where a backup of the adapter says that it comes from.
    pub fn source_card(&self) -> (r: SourceCardInfo)
        ensures
            r.pci_vid == self.spec_identity().vendor_id,
            r.pci_did == self.spec_identity().device_id,
            r.subsystem_vid == self.spec_identity().subsystem_vid,
            r.subsystem_did == self.spec_identity().subsystem_did,
            r.friendly_name == self.spec_identity().friendly_name,
    {
        SourceCardInfo {
            pci_vid: self.identity.vendor_id,
            pci_did: self.identity.device_id,
            subsystem_vid: self.identity.subsystem_vid,
            subsystem_did: self.identity.subsystem_did,
            friendly_name: copy_text(&self.identity.friendly_name),
        }
    }

    /// Judges the answer to the request for facts: the reply buffer has the
    /// status in its second word.
    pub fn detect(&self, sent: Result<(), String>, reply: &[u8]) -> (r: Result<
        DetectReport,
        CardError,
    >)
        ensures
            match sent {
                Err(e) => r matches Err(x) && x@ == CardFailure::Transport(e@),
                Ok(_) => if reply@.len() < 4 {
                    r matches Err(x) && x@ == CardFailure::Transport("IOC_FACTS reply too short"@)
                } else if u16_at(reply@, 2) != 0 {
                    r matches Err(x) && x@ == CardFailure::Transport(
                        "IOC_FACTS returned status 0x"@ + hex_pad(
                            u16_at(reply@, 2) as nat,
                            4,
                            false,
                        ),
                    )
                } else {
                    r matches Ok(d) && d.bdf == self.spec_identity().bdf && d.chip_family
                        == self.spec_identity().chip_family
                },
            },
    {
        if let Err(e) = sent {
            return Err(CardError::Transport(e));
        }
        if reply.len() < 4 {
            return Err(CardError::Transport("IOC_FACTS reply too short".to_owned()));
        }
        let status: u16 = read_u16(reply, 2);
        if status != IocStatus::Success.as_u16() {
            let mut t = "IOC_FACTS returned status 0x".to_owned();
            push_hex_pad(&mut t, status as u64, 4, false);
            return Err(CardError::Transport(t));
        }
        Ok(DetectReport { bdf: self.identity.bdf.clone(), chip_family: self.identity.chip_family })
    }
}

// ---------------------------------------------------------------- backup

/// The images of a backup.
pub open spec fn backup_image(n: int) -> ImageType {
    if n == 0 {
        ImageType::Fw
    } else if n == 1 {
        ImageType::Bios
    } else {
        ImageType::FlashLayout
    }
}

/// The files of a backup.
pub open spec fn backup_file(n: int) -> Seq<char> {
    if n == 0 {
        "firmware.bin"@
    } else if n == 1 {
        "bios.rom"@
    } else {
        "nvdata.bin"@
    }
}

/// How many images a backup has.
pub const BACKUP_IMAGES: usize = 3;

pub(crate) fn image_of(n: usize) -> (r: ImageType)
    ensures
        r == backup_image(n as int),
{
    if n == 0 {
        ImageType::Fw
    } else if n == 1 {
        ImageType::Bios
    } else {
        ImageType::FlashLayout
    }
}

pub(crate) fn file_of(n: usize) -> (r: &'static str)
    ensures
        r@ == backup_file(n as int),
{
    if n == 0 {
        "firmware.bin"
    } else if n == 1 {
        "bios.rom"
    } else {
        "nvdata.bin"
    }
}

/// What sending a message gave: how many bytes of the reply are there, or why it
/// failed.
pub open spec fn sent_model(r: Result<usize, String>) -> Result<usize, Seq<char>> {
    match r {
        Ok(n) => Ok(n),
        Err(e) => Err(e@),
    }
}

/// What an upload brought, or why it failed.
pub open spec fn upload_outcome(
    t: ImageType,
    sent: Result<usize, Seq<char>>,
    reply: Seq<u8>,
    data: Seq<u8>,
) -> Result<Seq<u8>, CardFailure> {
    match sent {
        Err(e) => Err(
            CardFailure::Transport("FW_UPLOAD type="@ + t.spec_name() + " send: "@ + e),
        ),
        Ok(n) => match FwUploadReply::parsed(clamped(reply, 0, n as int)) {
            Err(e) => Err(
                CardFailure::Transport(
                    "FW_UPLOAD type="@ + t.spec_name() + " reply parse: "@ + e.spec_text(),
                ),
            ),
            Ok(r) => if r.ioc_status != IocStatus::Success {
                Err(
                    CardFailure::Transport(
                        "FW_UPLOAD type="@ + t.spec_name() + " returned status 0x"@ + hex_pad(
                            r.ioc_status.code() as nat,
                            4,
                            false,
                        ),
                    ),
                )
            } else {
                Ok(clamped(data, 0, r.actual_image_size as int))
            },
        },
    }
}

/// Judges an upload: what of the buffer is the image, or why there is none.
pub fn judge_upload(t: ImageType, sent: Result<usize, String>, reply: &[u8], data: &[u8]) -> (r:
    Result<Vec<u8>, CardError>)
    ensures
        match upload_outcome(t, sent_model(sent), reply@, data@) {
            Ok(b) => r matches Ok(v) && v@ == b,
            Err(f) => r matches Err(e) && e@ == f,
        },
{
    let mut text = "FW_UPLOAD type=".to_owned();
    text.append(t.name());
    let n: usize = match sent {
        Ok(n) => n,
        Err(e) => {
            text.append(" send: ");
            text.append(e.as_str());
            return Err(CardError::Transport(text));
        },
    };
    match FwUploadReply::parse(clamped_slice(reply, 0, n)) {
        Err(e) => {
            text.append(" reply parse: ");
            text.append(e.text().as_str());
            Err(CardError::Transport(text))
        },
        Ok(r) => {
            if r.ioc_status != IocStatus::Success {
                text.append(" returned status 0x");
                push_hex_pad(&mut text, r.ioc_status.as_u16() as u64, 4, false);
                return Err(CardError::Transport(text));
            }
            Ok(to_vec(clamped_slice(data, 0, r.actual_image_size as usize)))
        },
    }
}

/// Where a backup stands.
pub enum BackupState {
    /// The next image is being read.
    Uploading(Vec<BackupArtifact>),
    /// The file of an image is being written.
    Saving(Vec<BackupArtifact>, BackupArtifact),
    /// The manifest is being written.
    SavingManifest(Vec<BackupArtifact>),
    /// The backup is over.
    Closed,
}

/// Why a manifest could not be written.
pub enum ManifestSaveFault {
    /// It could not be put into words.
    Serialize(String),
    /// The file could not be written.
    Io(String),
}

/// What happens to a backup.
pub enum BackupEvent {
    /// An upload has ended.
    Uploaded { sent: Result<usize, String>, reply: Vec<u8>, data: Vec<u8> },
    /// A file has been written.
    Saved(Result<(), String>),
    /// The manifest has been written.
    ManifestSaved(Result<(), ManifestSaveFault>),
}

/// What a backup asks for.
pub enum BackupAction {
    /// Send `request`, with a buffer of `buffer` bytes for the image.
    Upload { request: Vec<u8>, sge_words: u32, buffer: usize },
    /// Write a file.
    Save { file: &'static str, data: Vec<u8> },
    /// Write the manifest of these files.
    SaveManifest(Vec<BackupArtifact>),
    /// The backup is over.
    Finish(Result<Vec<BackupArtifact>, CardError>),
}

/// What the state of a backup stands for.
pub enum BackupStage {
    Uploading(Seq<ArtifactModel>),
    Saving(Seq<ArtifactModel>, ArtifactModel),
    SavingManifest(Seq<ArtifactModel>),
    Closed,
}

/// What an event stands for.
pub enum BackupHappening {
    Uploaded { sent: Result<usize, Seq<char>>, reply: Seq<u8>, data: Seq<u8> },
    Saved(Result<(), Seq<char>>),
    ManifestSaved(Result<(), CardFailure>),
}

/// What an action stands for.
pub enum BackupDemand {
    Upload { request: Seq<u8>, sge_words: u32, buffer: usize },
    Save { file: Seq<char>, data: Seq<u8> },
    SaveManifest(Seq<ArtifactModel>),
    Finish(Result<Seq<ArtifactModel>, CardFailure>),
}

impl View for BackupState {
    type V = BackupStage;

    open spec fn view(&self) -> BackupStage {
        match self {
            BackupState::Uploading(d) => BackupStage::Uploading(artifact_models(d@)),
            BackupState::Saving(d, a) => BackupStage::Saving(artifact_models(d@), a@),
            BackupState::SavingManifest(d) => BackupStage::SavingManifest(artifact_models(d@)),
            BackupState::Closed => BackupStage::Closed,
        }
    }
}

impl ManifestSaveFault {
    /// The error that this fault comes out as.
    pub open spec fn failure(&self) -> CardFailure {
        match self {
            ManifestSaveFault::Serialize(e) => CardFailure::Transport("manifest serialize: "@ + e@),
            ManifestSaveFault::Io(e) => CardFailure::Io(e@),
        }
    }
}

impl View for BackupEvent {
    type V = BackupHappening;

    open spec fn view(&self) -> BackupHappening {
        match self {
            BackupEvent::Uploaded { sent, reply, data } => BackupHappening::Uploaded {
                sent: sent_model(*sent),
                reply: reply@,
                data: data@,
            },
            BackupEvent::Saved(Ok(_)) => BackupHappening::Saved(Ok(())),
            BackupEvent::Saved(Err(e)) => BackupHappening::Saved(Err(e@)),
            BackupEvent::ManifestSaved(Ok(_)) => BackupHappening::ManifestSaved(Ok(())),
            BackupEvent::ManifestSaved(Err(f)) => BackupHappening::ManifestSaved(Err(f.failure())),
        }
    }
}

impl View for BackupAction {
    type V = BackupDemand;

    open spec fn view(&self) -> BackupDemand {
        match self {
            BackupAction::Upload { request, sge_words, buffer } => BackupDemand::Upload {
                request: request@,
                sge_words: *sge_words,
                buffer: *buffer,
            },
            BackupAction::Save { file, data } => BackupDemand::Save { file: file@, data: data@ },
            BackupAction::SaveManifest(d) => BackupDemand::SaveManifest(artifact_models(d@)),
            BackupAction::Finish(Ok(d)) => BackupDemand::Finish(Ok(artifact_models(d@))),
            BackupAction::Finish(Err(e)) => BackupDemand::Finish(Err(e@)),
        }
    }
}

/// Whether the event is one that the backup waits for, in a state that a backup
/// can reach.
pub open spec fn backup_awaits(s: BackupStage, e: BackupHappening) -> bool {
    match s {
        BackupStage::Uploading(d) => d.len() < BACKUP_IMAGES && e is Uploaded,
        BackupStage::Saving(d, _) => d.len() < BACKUP_IMAGES && e is Saved,
        BackupStage::SavingManifest(d) => d.len() == BACKUP_IMAGES && e is ManifestSaved,
        BackupStage::Closed => false,
    }
}

/// What a backup asks for when the image after those in `done` is wanted.
pub open spec fn next_upload(done: Seq<ArtifactModel>) -> BackupDemand {
    BackupDemand::Upload {
        request: upload_request(backup_image(done.len() as int)),
        sge_words: TRANSFER_SGE_WORDS,
        buffer: UPLOAD_BUF_SIZE,
    }
}

/// The entry for the image after those in `done`.
pub open spec fn next_artifact(done: Seq<ArtifactModel>, data: Seq<u8>, sha256: Seq<char>) -> ArtifactModel {
    ArtifactModel {
        path: backup_file(done.len() as int),
        image_type: backup_image(done.len() as int).spec_name(),
        sha256,
        size: data.len() as u64,
    }
}

/// The next state of a backup and what it asks for.
pub open spec fn backup_next(s: BackupStage, e: BackupHappening) -> (BackupStage, BackupDemand) {
    match (s, e) {
        (BackupStage::Uploading(d), BackupHappening::Uploaded { sent, reply, data }) => {
            match upload_outcome(backup_image(d.len() as int), sent, reply, data) {
                Err(f) => (BackupStage::Closed, BackupDemand::Finish(Err(f))),
                Ok(b) => (
                    BackupStage::Saving(d, next_artifact(d, b, sha256_text(b))),
                    BackupDemand::Save { file: backup_file(d.len() as int), data: b },
                ),
            }
        },
        (BackupStage::Saving(d, a), BackupHappening::Saved(Ok(_))) => if d.len() + 1
            < BACKUP_IMAGES {
            (BackupStage::Uploading(d.push(a)), next_upload(d.push(a)))
        } else {
            (BackupStage::SavingManifest(d.push(a)), BackupDemand::SaveManifest(d.push(a)))
        },
        (BackupStage::Saving(d, a), BackupHappening::Saved(Err(x))) => (
            BackupStage::Closed,
            BackupDemand::Finish(Err(CardFailure::Io(x))),
        ),
        (BackupStage::SavingManifest(d), BackupHappening::ManifestSaved(Ok(_))) => (
            BackupStage::Closed,
            BackupDemand::Finish(Ok(d)),
        ),
        (BackupStage::SavingManifest(d), BackupHappening::ManifestSaved(Err(f))) => (
            BackupStage::Closed,
            BackupDemand::Finish(Err(f)),
        ),
        _ => (BackupStage::Closed, BackupDemand::SaveManifest(Seq::empty())),
    }
}

fn upload_action(n: usize) -> (r: BackupAction)
    ensures
        r@ == (BackupDemand::Upload {
            request: upload_request(backup_image(n as int)),
            sge_words: TRANSFER_SGE_WORDS,
            buffer: UPLOAD_BUF_SIZE,
        }),
{
    BackupAction::Upload {
        request: build_upload_request(image_of(n)),
        sge_words: TRANSFER_SGE_WORDS,
        buffer: UPLOAD_BUF_SIZE,
    }
}

/// Begins a backup.
pub fn backup_begin() -> (r: (BackupState, BackupAction))
    ensures
        r.0@ == BackupStage::Uploading(Seq::empty()),
        r.1@ == next_upload(Seq::empty()),
{
    let done: Vec<BackupArtifact> = Vec::new();
    assert(artifact_models(done@) =~= Seq::empty());
    (BackupState::Uploading(done), upload_action(0))
}

/// The entry for image number `n` with these bytes and this digest.
pub fn artifact_for(n: usize, data: &[u8], sha256: String) -> (r: BackupArtifact)
    ensures
        r.path@ == backup_file(n as int),
        r.image_type@ == backup_image(n as int).spec_name(),
        r.sha256 == sha256,
        r.size == data@.len(),
{
    BackupArtifact {
        path: file_of(n).to_owned(),
        image_type: image_of(n).name().to_owned(),
        sha256,
        size: data.len() as u64,
    }
}

fn manifest_save_error(f: ManifestSaveFault) -> (r: CardError)
    ensures
        r@ == f.failure(),
{
    match f {
        ManifestSaveFault::Serialize(e) => {
            let mut t = "manifest serialize: ".to_owned();
            t.append(e.as_str());
            CardError::Transport(t)
        },
        ManifestSaveFault::Io(e) => CardError::Io(e),
    }
}

fn saved_step(done: Vec<BackupArtifact>, a: BackupArtifact) -> (r: (BackupState, BackupAction))
    requires
        done@.len() < BACKUP_IMAGES,
    ensures
        (r.0@, r.1@) == backup_next(
            BackupStage::Saving(artifact_models(done@), a@),
            BackupHappening::Saved(Ok(())),
        ),
{
    let ghost before = artifact_models(done@);
    let ghost entry = a@;
    let mut done = done;
    done.push(a);
    assert(artifact_models(done@) =~= before.push(entry));
    if done.len() < BACKUP_IMAGES {
        let n: usize = done.len();
        (BackupState::Uploading(done), upload_action(n))
    } else {
        let copy = copy_artifacts(&done);
        (BackupState::SavingManifest(done), BackupAction::SaveManifest(copy))
    }
}

pub(crate) fn copy_artifacts(v: &Vec<BackupArtifact>) -> (r: Vec<BackupArtifact>)
    ensures
        r@ == v@,
{
    let mut out: Vec<BackupArtifact> = Vec::new();
    let mut i: usize = 0;
    while i < v.len()
        invariant
            i <= v@.len(),
            out@ == v@.take(i as int),
        decreases v@.len() - i,
    {
        out.push(v[i].clone());
        i += 1;
        assert(out@ =~= v@.take(i as int));
    }
    assert(v@.take(i as int) =~= v@);
    out
}

/// One step of a backup.
pub fn backup(state: BackupState, event: BackupEvent) -> (r: (BackupState, BackupAction))
    requires
        backup_awaits(state@, event@),
    ensures
        (r.0@, r.1@) == backup_next(state@, event@),
{
    match (state, event) {
        (BackupState::Uploading(done), BackupEvent::Uploaded { sent, reply, data }) => {
            let n: usize = done.len();
            match judge_upload(image_of(n), sent, reply.as_slice(), data.as_slice()) {
                Err(e) => (BackupState::Closed, BackupAction::Finish(Err(e))),
                Ok(bytes) => {
                    let sha256 = sha256_hex(bytes.as_slice());
                    let a = artifact_for(n, bytes.as_slice(), sha256);
                    assert(a@ == next_artifact(
                        artifact_models(done@),
                        bytes@,
                        sha256_text(bytes@),
                    ));
                    (
                        BackupState::Saving(done, a),
                        BackupAction::Save { file: file_of(n), data: bytes },
                    )
                },
            }
        },
        (BackupState::Saving(done, a), BackupEvent::Saved(Ok(_))) => saved_step(done, a),
        (BackupState::Saving(_, _), BackupEvent::Saved(Err(e))) => (
            BackupState::Closed,
            BackupAction::Finish(Err(CardError::Io(e))),
        ),
        (BackupState::SavingManifest(done), BackupEvent::ManifestSaved(Ok(_))) => (
            BackupState::Closed,
            BackupAction::Finish(Ok(done)),
        ),
        (BackupState::SavingManifest(_), BackupEvent::ManifestSaved(Err(f))) => (
            BackupState::Closed,
            BackupAction::Finish(Err(manifest_save_error(f))),
        ),
        _ => {
            let none: Vec<BackupArtifact> = Vec::new();
            (BackupState::Closed, BackupAction::SaveManifest(none))
        },
    }
}

/// The manifest of a backup of the adapter.
pub fn backup_manifest(card: &MptCard, timestamp: String, artifacts: Vec<BackupArtifact>) -> (r:
    BackupManifest)
    ensures
        r.timestamp == timestamp,
        r.sas_wwn is None,
        r.artifacts == artifacts,
        r.source_card matches Some(s) && s.pci_vid == card.spec_identity().vendor_id && s.pci_did
            == card.spec_identity().device_id && s.subsystem_vid
            == card.spec_identity().subsystem_vid && s.subsystem_did
            == card.spec_identity().subsystem_did && s.friendly_name
            == card.spec_identity().friendly_name,
{
    BackupManifest { timestamp, sas_wwn: None, artifacts, source_card: Some(card.source_card()) }
}

/// The report on a backup.
pub fn backup_report(timestamp: String, artifacts: Vec<BackupArtifact>) -> (r: BackupReport)
    ensures
        r.timestamp == timestamp,
        r.artifacts_count == artifacts@.len(),
        r.artifacts == artifacts,
{
    BackupReport { timestamp, artifacts_count: artifacts.len(), artifacts }
}

/// How far a backup is from its end.
pub open spec fn backup_steps_left(s: BackupStage) -> int {
    match s {
        BackupStage::Uploading(d) => 2 * (BACKUP_IMAGES - d.len()) + 2,
        BackupStage::Saving(d, _) => 2 * (BACKUP_IMAGES - d.len()) + 1,
        BackupStage::SavingManifest(_) => 1,
        BackupStage::Closed => 0,
    }
}

/// A backup only moves on in states that it can reach, comes nearer to its end
/// with every step, and ends exactly where it says what came of it.
pub proof fn backup_ends(s: BackupStage, e: BackupHappening)
    requires
        backup_awaits(s, e),
    ensures
        0 <= backup_steps_left(backup_next(s, e).0) < backup_steps_left(s),
        backup_next(s, e).0 is Closed <==> backup_next(s, e).1 is Finish,
        match backup_next(s, e).0 {
            BackupStage::Uploading(d) => d.len() < BACKUP_IMAGES,
            BackupStage::Saving(d, _) => d.len() < BACKUP_IMAGES,
            BackupStage::SavingManifest(d) => d.len() == BACKUP_IMAGES,
            BackupStage::Closed => true,
        },
{
}

/// A backup that succeeds has a file for each of the images.
pub proof fn backup_is_complete(s: BackupStage, e: BackupHappening)
    requires
        backup_awaits(s, e),
    ensures
        backup_next(s, e).1 matches BackupDemand::Finish(Ok(d)) ==> d.len() == BACKUP_IMAGES,
{
}

/// The entry for image number `n` with these bytes.
pub open spec fn entry_of(n: int, data: Seq<u8>) -> ArtifactModel {
    ArtifactModel {
        path: backup_file(n),
        image_type: backup_image(n).spec_name(),
        sha256: sha256_text(data),
        size: data.len() as u64,
    }
}

/// Whether `d` lists the files of a backup of these images.
pub open spec fn records(d: Seq<ArtifactModel>, images: Seq<Seq<u8>>) -> bool {
    &&& d.len() == images.len()
    &&& forall|i: int| 0 <= i < d.len() ==> #[trigger] d[i] == entry_of(i, images[i])
}

/// A backup records what it saves: where it has listed the files of some images, and
/// saves another, the entry that it keeps for that file is the entry for the bytes in it.
pub proof fn backup_records_what_it_saves(
    d: Seq<ArtifactModel>,
    images: Seq<Seq<u8>>,
    e: BackupHappening,
)
    requires
        backup_awaits(BackupStage::Uploading(d), e),
        records(d, images),
    ensures
        backup_next(BackupStage::Uploading(d), e).1 matches BackupDemand::Save { file, data } ==> {
            &&& backup_next(BackupStage::Uploading(d), e).0 matches BackupStage::Saving(same, a)
            &&& same == d
            &&& file == a.path
            &&& records(d.push(a), images.push(data))
        },
{
}

// --------------------------------------------------------------- restore

/// How many regions are written back. The third file of a backup is not: it is
/// read under one image type and would have to be written under another.
pub const RESTORE_REGIONS: usize = 2;

/// The first entry for the file `name`.
pub open spec fn artifact_at(v: Seq<ArtifactModel>, name: Seq<char>) -> Option<ArtifactModel>
    decreases v.len(),
{
    if v.len() == 0 {
        None
    } else if v[0].path == name {
        Some(v[0])
    } else {
        artifact_at(v.skip(1), name)
    }
}

/// Why a file of `len` bytes with the digest `sha256` is not what the manifest
/// says, where it is not.
pub open spec fn region_mismatch(
    name: Seq<char>,
    len: usize,
    sha256: Seq<char>,
    v: Seq<ArtifactModel>,
) -> Option<CardFailure> {
    match artifact_at(v, name) {
        None => Some(
            CardFailure::Transport(
                "Region "@ + name
                    + " not found in backup manifest - refusing to write unverified image"@,
            ),
        ),
        Some(a) => if a.size as usize != len {
            Some(
                CardFailure::Transport(
                    "Size mismatch for "@ + name + ": disk="@ + dec(len as nat) + " vs manifest="@
                        + dec(a.size as nat),
                ),
            )
        } else if sha256 != a.sha256 {
            Some(
                CardFailure::Transport(
                    "SHA256 mismatch for "@ + name + ": disk="@ + sha256 + " vs manifest="@
                        + a.sha256,
                ),
            )
        } else {
            None
        },
    }
}

fn find_artifact<'a>(v: &'a Vec<BackupArtifact>, name: &str) -> (r: Option<&'a BackupArtifact>)
    ensures
        match artifact_at(artifact_models(v@), name@) {
            Some(a) => r matches Some(x) && x@ == a,
            None => r is None,
        },
{
    let ghost m = artifact_models(v@);
    let mut i: usize = 0;
    assert(m.skip(0) =~= m);
    while i < v.len()
        invariant
            i <= v@.len(),
            m == artifact_models(v@),
            artifact_at(m, name@) == artifact_at(m.skip(i as int), name@),
        decreases v@.len() - i,
    {
        assert(m.skip(i as int)[0] == v@[i as int]@);
        assert(m.skip(i as int).skip(1) =~= m.skip(i + 1));
        if same_text(v[i].path.as_str(), name) {
            return Some(&v[i]);
        }
        i += 1;
    }
    None
}

/// Holds a file against the manifest.
pub fn check_region(name: &str, len: usize, sha256: &str, artifacts: &Vec<BackupArtifact>) -> (r:
    Result<(), CardError>)
    ensures
        match region_mismatch(name@, len, sha256@, artifact_models(artifacts@)) {
            None => r == Ok::<(), CardError>(()),
            Some(f) => r matches Err(e) && e@ == f,
        },
{
    match find_artifact(artifacts, name) {
        None => {
            let mut t = "Region ".to_owned();
            t.append(name);
            t.append(" not found in backup manifest - refusing to write unverified image");
            Err(CardError::Transport(t))
        },
        Some(a) => {
            if a.size as usize != len {
                let mut t = "Size mismatch for ".to_owned();
                t.append(name);
                t.append(": disk=");
                push_dec(&mut t, len as u64);
                t.append(" vs manifest=");
                push_dec(&mut t, a.size);
                Err(CardError::Transport(t))
            } else if !same_text(sha256, a.sha256.as_str()) {
                let mut t = "SHA256 mismatch for ".to_owned();
                t.append(name);
                t.append(": disk=");
                t.append(sha256);
                t.append(" vs manifest=");
                t.append(a.sha256.as_str());
                Err(CardError::Transport(t))
            } else {
                Ok(())
            }
        },
    }
}

/// Why a manifest could not be read.
pub enum ManifestReadFault {
    /// The file at `shown` cannot be read.
    Missing { shown: String, error: String },
    /// The text is malformed.
    Malformed(String),
}

impl ManifestReadFault {
    /// The error that this fault comes out as.
    pub open spec fn failure(&self) -> CardFailure {
        match self {
            ManifestReadFault::Missing { shown, error } => CardFailure::Io(
                "Backup manifest not found at "@ + shown@ + ": "@ + error@,
            ),
            ManifestReadFault::Malformed(e) => CardFailure::Transport(
                "Failed to parse backup manifest: "@ + e@,
            ),
        }
    }
}

fn manifest_read_error(f: ManifestReadFault) -> (r: CardError)
    ensures
        r@ == f.failure(),
{
    match f {
        ManifestReadFault::Missing { shown, error } => {
            let mut t = "Backup manifest not found at ".to_owned();
            t.append(shown.as_str());
            t.append(": ");
            t.append(error.as_str());
            CardError::Io(t)
        },
        ManifestReadFault::Malformed(e) => {
            let mut t = "Failed to parse backup manifest: ".to_owned();
            t.append(e.as_str());
            CardError::Transport(t)
        },
    }
}

/// Why a region is not written back, given its file and the manifest.
pub open spec fn region_refusal(
    name: Seq<char>,
    file: Result<Seq<u8>, Seq<char>>,
    manifest: Result<Seq<ArtifactModel>, CardFailure>,
) -> Option<CardFailure> {
    match file {
        Err(e) => Some(CardFailure::Io(e)),
        Ok(b) => if b.len() == 0 {
            Some(CardFailure::Transport("Region file "@ + name + " is empty"@))
        } else {
            match manifest {
                Err(f) => Some(f),
                Ok(v) => region_mismatch(name, b.len() as usize, sha256_text(b), v),
            }
        },
    }
}

/// What became of a download of the piece that starts at `offset`.
pub open spec fn download_failure(
    t: ImageType,
    len: int,
    offset: int,
    sent: Result<usize, Seq<char>>,
    reply: Seq<u8>,
) -> Option<CardFailure> {
    let head = "FW_DOWNLOAD type="@ + t.spec_name() + " offset="@ + dec(offset as nat);
    match sent {
        Err(e) => Some(
            CardFailure::Transport(
                head + " size="@ + dec((piece_end(len, offset) - offset) as nat) + " send: "@ + e,
            ),
        ),
        Ok(n) => match FwDownloadReply::parsed(clamped(reply, 0, n as int)) {
            Err(e) => Some(CardFailure::Transport(head + " reply parse: "@ + e.spec_text())),
            Ok(r) => if r.ioc_status != IocStatus::Success {
                Some(
                    CardFailure::Transport(
                        head + " returned status 0x"@ + hex_pad(
                            r.ioc_status.code() as nat,
                            4,
                            false,
                        ),
                    ),
                )
            } else {
                None
            },
        },
    }
}

/// Judges the download of the piece that starts at `offset`: any status but
/// success is a failure.
pub fn judge_download(
    t: ImageType,
    len: usize,
    offset: usize,
    sent: Result<usize, String>,
    reply: &[u8],
) -> (r: Result<(), CardError>)
    requires
        offset < len,
    ensures
        match download_failure(t, len as int, offset as int, sent_model(sent), reply@) {
            None => r == Ok::<(), CardError>(()),
            Some(f) => r matches Err(e) && e@ == f,
        },
{
    let mut text = "FW_DOWNLOAD type=".to_owned();
    text.append(t.name());
    text.append(" offset=");
    push_dec(&mut text, offset as u64);
    let n: usize = match sent {
        Ok(n) => n,
        Err(e) => {
            let end: usize = if len - offset < RESTORE_CHUNK_SIZE {
                len
            } else {
                offset + RESTORE_CHUNK_SIZE
            };
            text.append(" size=");
            push_dec(&mut text, (end - offset) as u64);
            text.append(" send: ");
            text.append(e.as_str());
            return Err(CardError::Transport(text));
        },
    };
    match FwDownloadReply::parse(clamped_slice(reply, 0, n)) {
        Err(e) => {
            text.append(" reply parse: ");
            text.append(e.text().as_str());
            Err(CardError::Transport(text))
        },
        Ok(r) => {
            if r.ioc_status != IocStatus::Success {
                text.append(" returned status 0x");
                push_hex_pad(&mut text, r.ioc_status.as_u16() as u64, 4, false);
                return Err(CardError::Transport(text));
            }
            Ok(())
        },
    }
}

/// Where a restore stands.
pub enum RestoreState {
    /// The file of region number `region` is being read.
    Reading { region: usize },
    /// The piece of region number `region` that starts at `offset` is being
    /// written.
    Writing { region: usize, bytes: Vec<u8>, offset: usize },
    /// The restore is over.
    Closed,
}

/// What happens to a restore.
pub enum RestoreEvent {
    /// A file and the manifest have been read.
    Region { file: Result<Vec<u8>, String>, manifest: Result<BackupManifest, ManifestReadFault> },
    /// A download has ended.
    Downloaded { sent: Result<usize, String>, reply: Vec<u8> },
}

/// What a restore asks for.
pub enum RestoreAction {
    /// Read this file, and the manifest.
    ReadRegion(&'static str),
    /// Send `request` with `data`.
    Download { request: Vec<u8>, sge_words: u32, data: Vec<u8> },
    /// The restore is over; these files were written.
    Finish(Result<Vec<String>, CardError>),
}

/// What the state of a restore stands for.
pub enum RestoreStage {
    Reading { region: int },
    Writing { region: int, bytes: Seq<u8>, offset: int },
    Closed,
}

/// What an event stands for.
pub enum RestoreHappening {
    Region {
        file: Result<Seq<u8>, Seq<char>>,
        manifest: Result<Seq<ArtifactModel>, CardFailure>,
    },
    Downloaded { sent: Result<usize, Seq<char>>, reply: Seq<u8> },
}

/// What an action stands for.
pub enum RestoreDemand {
    ReadRegion(Seq<char>),
    Download { request: Seq<u8>, sge_words: u32, data: Seq<u8> },
    Finish(Result<Seq<Seq<char>>, CardFailure>),
}

impl View for RestoreState {
    type V = RestoreStage;

    open spec fn view(&self) -> RestoreStage {
        match self {
            RestoreState::Reading { region } => RestoreStage::Reading { region: *region as int },
            RestoreState::Writing { region, bytes, offset } => RestoreStage::Writing {
                region: *region as int,
                bytes: bytes@,
                offset: *offset as int,
            },
            RestoreState::Closed => RestoreStage::Closed,
        }
    }
}

impl View for RestoreEvent {
    type V = RestoreHappening;

    open spec fn view(&self) -> RestoreHappening {
        match self {
            RestoreEvent::Region { file, manifest } => RestoreHappening::Region {
                file: match file {
                    Ok(b) => Ok(b@),
                    Err(e) => Err(e@),
                },
                manifest: match manifest {
                    Ok(m) => Ok(artifact_models(m.artifacts@)),
                    Err(f) => Err(f.failure()),
                },
            },
            RestoreEvent::Downloaded { sent, reply } => RestoreHappening::Downloaded {
                sent: sent_model(*sent),
                reply: reply@,
            },
        }
    }
}

impl View for RestoreAction {
    type V = RestoreDemand;

    open spec fn view(&self) -> RestoreDemand {
        match self {
            RestoreAction::ReadRegion(f) => RestoreDemand::ReadRegion(f@),
            RestoreAction::Download { request, sge_words, data } => RestoreDemand::Download {
                request: request@,
                sge_words: *sge_words,
                data: data@,
            },
            RestoreAction::Finish(Ok(v)) => RestoreDemand::Finish(Ok(strings(v@))),
            RestoreAction::Finish(Err(e)) => RestoreDemand::Finish(Err(e@)),
        }
    }
}

/// Whether a restore can be in this state.
pub open spec fn restore_reachable(s: RestoreStage) -> bool {
    match s {
        RestoreStage::Reading { region } => 0 <= region < RESTORE_REGIONS,
        RestoreStage::Writing { region, bytes, offset } => 0 <= region < RESTORE_REGIONS && 0
            <= offset < bytes.len(),
        RestoreStage::Closed => true,
    }
}

/// Whether the event is one that the restore waits for.
pub open spec fn restore_awaits(s: RestoreStage, e: RestoreHappening) -> bool {
    match s {
        RestoreStage::Reading { .. } => e is Region,
        RestoreStage::Writing { .. } => e is Downloaded,
        RestoreStage::Closed => false,
    }
}

/// What a restore asks for when the piece at `offset` is to be written.
pub open spec fn piece_demand(region: int, bytes: Seq<u8>, offset: int) -> RestoreDemand {
    RestoreDemand::Download {
        request: download_request(backup_image(region), bytes.len() as int, offset),
        sge_words: TRANSFER_SGE_WORDS,
        data: bytes.subrange(offset, piece_end(bytes.len() as int, offset)),
    }
}

/// The files of all regions.
pub open spec fn restored_files() -> Seq<Seq<char>> {
    seq![backup_file(0), backup_file(1)]
}

/// The next state of a restore and what it asks for.
pub open spec fn restore_next(s: RestoreStage, e: RestoreHappening) -> (
    RestoreStage,
    RestoreDemand,
) {
    match (s, e) {
        (RestoreStage::Reading { region }, RestoreHappening::Region { file, manifest }) => {
            match region_refusal(backup_file(region), file, manifest) {
                Some(f) => (RestoreStage::Closed, RestoreDemand::Finish(Err(f))),
                None => (
                    RestoreStage::Writing { region, bytes: file->Ok_0, offset: 0 },
                    piece_demand(region, file->Ok_0, 0),
                ),
            }
        },
        (
            RestoreStage::Writing { region, bytes, offset },
            RestoreHappening::Downloaded { sent, reply },
        ) => {
            let end = piece_end(bytes.len() as int, offset);
            match download_failure(
                backup_image(region),
                bytes.len() as int,
                offset,
                sent,
                reply,
            ) {
                Some(f) => (RestoreStage::Closed, RestoreDemand::Finish(Err(f))),
                None => if end < bytes.len() {
                    (
                        RestoreStage::Writing { region, bytes, offset: end },
                        piece_demand(region, bytes, end),
                    )
                } else if region + 1 < RESTORE_REGIONS {
                    (
                        RestoreStage::Reading { region: region + 1 },
                        RestoreDemand::ReadRegion(backup_file(region + 1)),
                    )
                } else {
                    (RestoreStage::Closed, RestoreDemand::Finish(Ok(restored_files())))
                },
            }
        },
        _ => (RestoreStage::Closed, RestoreDemand::ReadRegion(backup_file(0))),
    }
}

fn piece_action(region: usize, bytes: &Vec<u8>, offset: usize) -> (r: RestoreAction)
    requires
        offset < bytes@.len(),
    ensures
        r@ == piece_demand(region as int, bytes@, offset as int),
{
    let len: usize = bytes.len();
    let end: usize = if len - offset < RESTORE_CHUNK_SIZE {
        len
    } else {
        offset + RESTORE_CHUNK_SIZE
    };
    let data = to_vec(clamped_slice(bytes.as_slice(), offset, end));
    assert(data@ =~= bytes@.subrange(offset as int, end as int));
    RestoreAction::Download {
        request: build_download_request(image_of(region), len, offset),
        sge_words: TRANSFER_SGE_WORDS,
        data,
    }
}

/// Begins a restore.
pub fn restore_begin() -> (r: (RestoreState, RestoreAction))
    ensures
        r.0@ == (RestoreStage::Reading { region: 0 }),
        r.1@ == RestoreDemand::ReadRegion(backup_file(0)),
{
    (RestoreState::Reading { region: 0 }, RestoreAction::ReadRegion(file_of(0)))
}

fn vet_region(
    name: &str,
    file: Result<Vec<u8>, String>,
    manifest: Result<BackupManifest, ManifestReadFault>,
) -> (r: Result<Vec<u8>, CardError>)
    ensures
        ({
            let e = (RestoreEvent::Region { file, manifest })@;
            match region_refusal(name@, e->file, e->manifest) {
                None => r matches Ok(b) && file == Ok::<Vec<u8>, String>(b) && b@.len() > 0,
                Some(f) => r matches Err(x) && x@ == f,
            }
        }),
{
    let bytes = match file {
        Ok(b) => b,
        Err(e) => {
            return Err(CardError::Io(e));
        },
    };
    if bytes.len() == 0 {
        let mut t = "Region file ".to_owned();
        t.append(name);
        t.append(" is empty");
        return Err(CardError::Transport(t));
    }
    let manifest = match manifest {
        Ok(m) => m,
        Err(f) => {
            return Err(manifest_read_error(f));
        },
    };
    let sha256 = sha256_hex(bytes.as_slice());
    match check_region(name, bytes.len(), sha256.as_str(), &manifest.artifacts) {
        Ok(_) => Ok(bytes),
        Err(e) => Err(e),
    }
}

fn all_restored() -> (r: Vec<String>)
    ensures
        strings(r@) == restored_files(),
{
    let mut v: Vec<String> = Vec::new();
    v.push(file_of(0).to_owned());
    v.push(file_of(1).to_owned());
    assert(strings(v@) =~= restored_files());
    v
}

/// One step of a restore.
pub fn restore(state: RestoreState, event: RestoreEvent) -> (r: (RestoreState, RestoreAction))
    requires
        restore_reachable(state@),
        restore_awaits(state@, event@),
    ensures
        (r.0@, r.1@) == restore_next(state@, event@),
{
    match (state, event) {
        (RestoreState::Reading { region }, RestoreEvent::Region { file, manifest }) => {
            match vet_region(file_of(region), file, manifest) {
                Err(e) => (RestoreState::Closed, RestoreAction::Finish(Err(e))),
                Ok(bytes) => {
                    let action = piece_action(region, &bytes, 0);
                    (RestoreState::Writing { region, bytes, offset: 0 }, action)
                },
            }
        },
        (
            RestoreState::Writing { region, bytes, offset },
            RestoreEvent::Downloaded { sent, reply },
        ) => {
            let len: usize = bytes.len();
            match judge_download(image_of(region), len, offset, sent, reply.as_slice()) {
                Err(e) => (RestoreState::Closed, RestoreAction::Finish(Err(e))),
                Ok(_) => {
                    let end: usize = if len - offset < RESTORE_CHUNK_SIZE {
                        len
                    } else {
                        offset + RESTORE_CHUNK_SIZE
                    };
                    if end < len {
                        let action = piece_action(region, &bytes, end);
                        (RestoreState::Writing { region, bytes, offset: end }, action)
                    } else if region + 1 < RESTORE_REGIONS {
                        (
                            RestoreState::Reading { region: region + 1 },
                            RestoreAction::ReadRegion(file_of(region + 1)),
                        )
                    } else {
                        (RestoreState::Closed, RestoreAction::Finish(Ok(all_restored())))
                    }
                },
            }
        },
        _ => (RestoreState::Closed, RestoreAction::ReadRegion(file_of(0))),
    }
}

/// The report on a restore.
pub fn restore_report(timestamp: String, regions: Vec<String>) -> (r: RestoreReport)
    ensures
        r.timestamp == timestamp,
        r.regions_written == regions@.len(),
        r.regions == regions,
{
    RestoreReport { timestamp, regions_written: regions.len(), regions }
}

/// How many bytes of a region are still to be written.
pub open spec fn restore_bytes_left(s: RestoreStage) -> int {
    match s {
        RestoreStage::Writing { bytes, offset, .. } => bytes.len() - offset,
        _ => 0,
    }
}

/// A restore only moves on in states that it can reach, and ends exactly where
/// it says what came of it. Every step ends it, goes on to the next region,
/// starts on the pieces of the region whose file was read, or leaves fewer bytes
/// of the region to be written.
pub proof fn restore_moves_on(s: RestoreStage, e: RestoreHappening)
    requires
        restore_reachable(s),
        restore_awaits(s, e),
    ensures
        restore_reachable(restore_next(s, e).0),
        restore_next(s, e).0 is Closed <==> restore_next(s, e).1 is Finish,
        match (s, restore_next(s, e).0) {
            (_, RestoreStage::Closed) => true,
            (RestoreStage::Reading { region }, t) => t matches RestoreStage::Writing {
                region: to,
                ..
            } && to == region,
            (RestoreStage::Writing { region, .. }, RestoreStage::Reading { region: to }) => to
                == region + 1,
            (
                RestoreStage::Writing { region, bytes, .. },
                RestoreStage::Writing { region: to, bytes: same, .. },
            ) => to == region && same == bytes && restore_bytes_left(restore_next(s, e).0)
                < restore_bytes_left(s),
            _ => false,
        },
{
}

/// Nothing is written of a region whose file is not what the manifest says:
/// every piece that is written is a piece of the file that was held against the
/// manifest.
pub proof fn only_verified_bytes_are_written(s: RestoreStage, e: RestoreHappening)
    requires
        restore_reachable(s),
        restore_awaits(s, e),
        restore_next(s, e).1 is Download,
    ensures
        match s {
            RestoreStage::Reading { region } => e matches RestoreHappening::Region {
                file: Ok(b),
                manifest: Ok(v),
            } && region_mismatch(backup_file(region), b.len() as usize, sha256_text(b), v) is None
                && restore_next(s, e).1 == piece_demand(region, b, 0) && restore_next(s, e).0
                == (RestoreStage::Writing { region, bytes: b, offset: 0 }),
            RestoreStage::Writing { region, bytes, offset } => restore_next(s, e).1
                == piece_demand(region, bytes, piece_end(bytes.len() as int, offset)),
            RestoreStage::Closed => false,
        },
{
}

/// What a backup saved can be restored: each region that is written back is accepted, where
/// its file is that of the backup, the list of files starts with those of the backup and
/// the image is not empty.
pub proof fn backup_can_be_restored(d: Seq<ArtifactModel>, images: Seq<Seq<u8>>, region: int)
    requires
        d.len() >= BACKUP_IMAGES,
        records(d.take(BACKUP_IMAGES as int), images),
        0 <= region < RESTORE_REGIONS,
        0 < images[region].len() <= usize::MAX,
    ensures
        restore_next(
            RestoreStage::Reading { region },
            RestoreHappening::Region { file: Ok(images[region]), manifest: Ok(d) },
        ) == (
            RestoreStage::Writing { region, bytes: images[region], offset: 0 },
            piece_demand(region, images[region], 0),
        ),
{
    reveal_strlit("firmware.bin");
    reveal_strlit("bios.rom");
    assert(backup_file(0) != backup_file(1)) by {
        assert(backup_file(0).len() != backup_file(1).len());
    }
    let first = d.take(BACKUP_IMAGES as int);
    assert(first[0] == d[0] && first[1] == d[1]);
    assert(d[0] == entry_of(0, images[0]));
    assert(d[1] == entry_of(1, images[1]));
    assert(d.skip(1)[0] == d[1]);
    reveal_with_fuel(artifact_at, 3);
}

/// The bytes that the pieces from `offset` on carry, one piece after the other.
pub open spec fn pieces_from(bytes: Seq<u8>, offset: int) -> Seq<u8>
    decreases bytes.len() - offset,
{
    if 0 <= offset < bytes.len() {
        bytes.subrange(offset, piece_end(bytes.len() as int, offset)) + pieces_from(
            bytes,
            piece_end(bytes.len() as int, offset),
        )
    } else {
        Seq::empty()
    }
}

/// The pieces of a region make up its image: from any piece on, what is written is the rest
/// of the image.
pub proof fn pieces_make_up_image(bytes: Seq<u8>, offset: int)
    requires
        0 <= offset <= bytes.len(),
    ensures
        pieces_from(bytes, offset) == bytes.skip(offset),
    decreases bytes.len() - offset,
{
    if offset < bytes.len() {
        let end = piece_end(bytes.len() as int, offset);
        pieces_make_up_image(bytes, end);
        assert(bytes.subrange(offset, end) + bytes.skip(end) =~= bytes.skip(offset));
    } else {
        assert(bytes.skip(offset) =~= Seq::empty());
    }
}

/// A region is left only when its last piece has been written: a restore goes on to the
/// next region, or ends in success, after the piece that ends the image.
pub proof fn region_is_written_whole(s: RestoreStage, e: RestoreHappening)
    requires
        restore_reachable(s),
        restore_awaits(s, e),
    ensures
        restore_next(s, e).1 is ReadRegion || (restore_next(s, e).1 matches RestoreDemand::Finish(
            o,
        ) && o is Ok) ==> (s matches RestoreStage::Writing { bytes, offset, .. } && piece_end(
            bytes.len() as int,
            offset,
        ) == bytes.len()),
        restore_next(s, e).1 matches RestoreDemand::Finish(o) && o is Ok ==> (
        s matches RestoreStage::Writing { region, .. } && region + 1 == RESTORE_REGIONS),
{
}

/// After a reply with any status but success nothing more is written.
pub proof fn restore_stops_on_failure(
    region: int,
    bytes: Seq<u8>,
    offset: int,
    sent: Result<usize, Seq<char>>,
    reply: Seq<u8>,
)
    requires
        restore_reachable(RestoreStage::Writing { region, bytes, offset }),
        sent is Err || (FwDownloadReply::parsed(clamped(reply, 0, sent->Ok_0 as int)) matches Ok(r)
            ==> r.ioc_status != IocStatus::Success),
    ensures
        ({
            let (t, d) = restore_next(
                RestoreStage::Writing { region, bytes, offset },
                RestoreHappening::Downloaded { sent, reply },
            );
            t is Closed && (d matches RestoreDemand::Finish(o) && o is Err)
        }),
{
}

// ---------------------------------------------------------- one region

/// Where writing one region stands.
pub enum ImageWriteState {
    /// The piece that starts at `offset` is being written.
    Writing { image_type: ImageType, bytes: Vec<u8>, offset: usize },
    /// The write is over.
    Closed,
}

/// What writing one region asks for.
pub enum ImageWriteAction {
    /// Send `request` with `data`.
    Download { request: Vec<u8>, sge_words: u32, data: Vec<u8> },
    /// The write is over.
    Finish(Result<(), CardError>),
}

/// What the state of a write stands for.
#[verifier::ext_equal]
pub enum ImageWriteStage {
    Writing { image_type: ImageType, bytes: Seq<u8>, offset: int },
    Closed,
}

/// What an action stands for.
#[verifier::ext_equal]
pub enum ImageWriteDemand {
    Download { request: Seq<u8>, sge_words: u32, data: Seq<u8> },
    Finish(Result<(), CardFailure>),
}

impl View for ImageWriteState {
    type V = ImageWriteStage;

    open spec fn view(&self) -> ImageWriteStage {
        match self {
            ImageWriteState::Writing { image_type, bytes, offset } => ImageWriteStage::Writing {
                image_type: *image_type,
                bytes: bytes@,
                offset: *offset as int,
            },
            ImageWriteState::Closed => ImageWriteStage::Closed,
        }
    }
}

impl View for ImageWriteAction {
    type V = ImageWriteDemand;

    open spec fn view(&self) -> ImageWriteDemand {
        match self {
            ImageWriteAction::Download { request, sge_words, data } => {
                ImageWriteDemand::Download {
                    request: request@,
                    sge_words: *sge_words,
                    data: data@,
                }
            },
            ImageWriteAction::Finish(Ok(_)) => ImageWriteDemand::Finish(Ok(())),
            ImageWriteAction::Finish(Err(e)) => ImageWriteDemand::Finish(Err(e@)),
        }
    }
}

/// Whether there is a piece to be written in this state.
pub open spec fn image_write_open(s: ImageWriteStage) -> bool {
    s matches ImageWriteStage::Writing { bytes, offset, .. } && 0 <= offset < bytes.len()
}

/// What is asked for when the piece at `offset` is to be written, if there is one.
pub open spec fn image_write_from(image_type: ImageType, bytes: Seq<u8>, offset: int) -> (
    ImageWriteStage,
    ImageWriteDemand,
) {
    if offset < bytes.len() {
        (
            ImageWriteStage::Writing { image_type, bytes, offset },
            ImageWriteDemand::Download {
                request: download_request(image_type, bytes.len() as int, offset),
                sge_words: TRANSFER_SGE_WORDS,
                data: bytes.subrange(offset, piece_end(bytes.len() as int, offset)),
            },
        )
    } else {
        (ImageWriteStage::Closed, ImageWriteDemand::Finish(Ok(())))
    }
}

/// The next state of a write and what it asks for, once a piece was sent.
pub open spec fn image_write_next(
    s: ImageWriteStage,
    sent: Result<usize, Seq<char>>,
    reply: Seq<u8>,
) -> (ImageWriteStage, ImageWriteDemand) {
    match s {
        ImageWriteStage::Writing { image_type, bytes, offset } => match download_failure(
            image_type,
            bytes.len() as int,
            offset,
            sent,
            reply,
        ) {
            Some(f) => (ImageWriteStage::Closed, ImageWriteDemand::Finish(Err(f))),
            None => image_write_from(image_type, bytes, piece_end(bytes.len() as int, offset)),
        },
        ImageWriteStage::Closed => (ImageWriteStage::Closed, ImageWriteDemand::Finish(Ok(()))),
    }
}

fn image_write_at(image_type: ImageType, bytes: Vec<u8>, offset: usize) -> (r: (
    ImageWriteState,
    ImageWriteAction,
))
    ensures
        (r.0@, r.1@) == image_write_from(image_type, bytes@, offset as int),
{
    let len: usize = bytes.len();
    if offset >= len {
        return (ImageWriteState::Closed, ImageWriteAction::Finish(Ok(())));
    }
    let end: usize = if len - offset < RESTORE_CHUNK_SIZE {
        len
    } else {
        offset + RESTORE_CHUNK_SIZE
    };
    let data = to_vec(clamped_slice(bytes.as_slice(), offset, end));
    assert(data@ =~= bytes@.subrange(offset as int, end as int));
    let request = build_download_request(image_type, len, offset);
    (
        ImageWriteState::Writing { image_type, bytes, offset },
        ImageWriteAction::Download { request, sge_words: TRANSFER_SGE_WORDS, data },
    )
}

/// Begins to write one region. Of an empty image there is nothing to write.
pub fn image_write_begin(image_type: ImageType, bytes: Vec<u8>) -> (r: (
    ImageWriteState,
    ImageWriteAction,
))
    ensures
        (r.0@, r.1@) == image_write_from(image_type, bytes@, 0),
{
    image_write_at(image_type, bytes, 0)
}

/// One step in writing one region: takes what sending a piece gave, and the reply.
pub fn image_write(state: ImageWriteState, sent: Result<usize, String>, reply: &[u8]) -> (r: (
    ImageWriteState,
    ImageWriteAction,
))
    requires
        image_write_open(state@),
    ensures
        (r.0@, r.1@) == image_write_next(state@, sent_model(sent), reply@),
{
    match state {
        ImageWriteState::Writing { image_type, bytes, offset } => {
            let len: usize = bytes.len();
            match judge_download(image_type, len, offset, sent, reply) {
                Err(e) => (ImageWriteState::Closed, ImageWriteAction::Finish(Err(e))),
                Ok(_) => {
                    let end: usize = if len - offset < RESTORE_CHUNK_SIZE {
                        len
                    } else {
                        offset + RESTORE_CHUNK_SIZE
                    };
                    image_write_at(image_type, bytes, end)
                },
            }
        },
        ImageWriteState::Closed => (ImageWriteState::Closed, ImageWriteAction::Finish(Ok(()))),
    }
}

/// Writing one region moves on through one and the same image, piece by piece, until it
/// ends. It ends in success only after the piece that ends the image, and nothing more is
/// written after a piece that failed.
pub proof fn image_write_moves_on(
    s: ImageWriteStage,
    sent: Result<usize, Seq<char>>,
    reply: Seq<u8>,
)
    requires
        image_write_open(s),
    ensures
        ({
            let (t, d) = image_write_next(s, sent, reply);
            let (image_type, bytes, offset) = match s {
                ImageWriteStage::Writing { image_type, bytes, offset } => (
                    image_type,
                    bytes,
                    offset,
                ),
                ImageWriteStage::Closed => arbitrary(),
            };
            let end = piece_end(bytes.len() as int, offset);
            &&& t is Closed <==> d is Finish
            &&& t is Closed || (t == ImageWriteStage::Writing { image_type, bytes, offset: end }
                && offset < end && image_write_open(t))
            &&& d == ImageWriteDemand::Finish(Ok(())) ==> end == bytes.len()
            &&& download_failure(image_type, bytes.len() as int, offset, sent, reply) matches Some(f)
                ==> d == ImageWriteDemand::Finish(Err(f))
        }),
{
}

// --------------------------------------------------------- boot record

/// A way to the boot record.
#[derive(Debug, Clone, Copy, PartialEq, Eq, Structural)]
pub enum SbrTransportKind {
    /// Through the driver of the kernel.
    Istwi,
    /// Through a device taken over from the kernel.
    Vfio,
    /// Through the registers of the device.
    Bar1,
}

/// The way to the boot record that the environment asks for.
pub open spec fn sbr_transport_for(choice: Option<Seq<char>>) -> SbrTransportKind {
    if choice == Some("istwi"@) {
        SbrTransportKind::Istwi
    } else if choice == Some("vfio"@) {
        SbrTransportKind::Vfio
    } else {
        SbrTransportKind::Bar1
    }
}

/// Picks the way to the boot record.
pub fn sbr_transport(choice: &Option<String>) -> (r: SbrTransportKind)
    ensures
        r == sbr_transport_for(crate::text::opt_text(*choice)),
{
    match choice {
        Some(c) => {
            if same_text(c.as_str(), "istwi") {
                SbrTransportKind::Istwi
            } else if same_text(c.as_str(), "vfio") {
                SbrTransportKind::Vfio
            } else {
                SbrTransportKind::Bar1
            }
        },
        None => SbrTransportKind::Bar1,
    }
}

impl SbrTransportKind {
    /// What an error on the way in is headed with.
    pub open spec fn spec_open_label(self) -> Seq<char> {
        match self {
            SbrTransportKind::Istwi => "istwi mpt3ctl open: "@,
            SbrTransportKind::Vfio => "vfio sbr transport: "@,
            SbrTransportKind::Bar1 => "sbr transport: "@,
        }
    }

    /// The error when the way cannot be taken.
    pub fn open_error(self, e: &str) -> (r: CardError)
        ensures
            r@ == CardFailure::Transport(self.spec_open_label() + e@),
    {
        let mut t = match self {
            SbrTransportKind::Istwi => "istwi mpt3ctl open: ".to_owned(),
            SbrTransportKind::Vfio => "vfio sbr transport: ".to_owned(),
            SbrTransportKind::Bar1 => "sbr transport: ".to_owned(),
        };
        t.append(e);
        CardError::Transport(t)
    }
}

/// The error when the boot record cannot be read over the way called `name`.
pub fn sbr_read_error(name: &str, e: &str) -> (r: CardError)
    ensures
        r@ == CardFailure::Transport("sbr "@ + name@ + ": "@ + e@),
{
    let mut t = "sbr ".to_owned();
    t.append(name);
    t.append(": ");
    t.append(e);
    CardError::Transport(t)
}

// ---------------------------------------------------------------- the laws

/// A request that moves part of an image has 36 bytes: the image at 0, the function at 3, the
/// mark of the last piece at 7, the size of the image at 12, the length of the element at 22,
/// and the place and the size of the part at 28 and 32.
pub proof fn transfer_fields_are_in_place(
    image: u8,
    function: u8,
    flags: u8,
    total: u32,
    offset: u32,
    size: u32,
)
    ensures
        ({
            let b = transfer_request(image, function, flags, total, offset, size);
            &&& b.len() == 36
            &&& b[0] == image
            &&& b[3] == function
            &&& b[7] == flags
            &&& u32_at(b, 12) == total
            &&& b[22] == 12
            &&& u32_at(b, 28) == offset
            &&& u32_at(b, 32) == size
        }),
{
    let b = transfer_request(image, function, flags, total, offset, size);
    let a = seq![image, 0u8, 0u8, function] + zeros(3) + seq![flags] + zeros(4);
    let c = a + le32(total) + zeros(4) + seq![0u8, 0u8, 12u8, 0u8] + zeros(4);
    assert(a.len() == 12 && c.len() == 28);
    assert(a[0] == image && a[3] == function && a[7] == flags);
    assert(b =~= c + le32(offset) + le32(size));
    assert(b =~= a + le32(total) + b.skip(16));
    le32_round_trip(total, a, b.skip(16));
    le32_round_trip(offset, c, le32(size));
    assert(b =~= c + le32(offset) + le32(size) + Seq::empty());
    le32_round_trip(size, c + le32(offset), Seq::empty());
    assert(b[22] == c[22]);
    assert(c[22] == 12);
}

/// The request that reads an image asks for it by its number and with the function 0x12, from
/// its start, and for up to two mebibytes.
pub proof fn upload_asks_for_image(t: ImageType)
    ensures
        ({
            let b = upload_request(t);
            &&& image_number(t, b[0])
            &&& b[3] == 0x12
            &&& u32_at(b, 28) == 0
            &&& u32_at(b, 32) == 0x20_0000
        }),
{
    transfer_fields_are_in_place(t.code(), 0x12, 0, 0, 0, 0x20_0000);
}

/// The request that writes a piece names the image by its number and has the function 0x09; it
/// says how large the image is, where the piece starts, and how large it is: 0x4000 bytes, or
/// what is left of the image, in which case it is marked as the last.
pub proof fn download_announces_piece(t: ImageType, len: int, offset: int)
    requires
        0 <= offset < len <= u32::MAX,
    ensures
        ({
            let b = download_request(t, len, offset);
            &&& image_number(t, b[0])
            &&& b[3] == 0x09
            &&& b[7] == if len - offset <= 0x4000 { 1u8 } else { 0u8 }
            &&& u32_at(b, 12) == len
            &&& u32_at(b, 28) == offset
            &&& u32_at(b, 32) == if len - offset <= 0x4000 { len - offset } else { 0x4000int }
        }),
{
    transfer_fields_are_in_place(
        t.code(),
        0x09,
        if piece_end(len, offset) >= len {
            1u8
        } else {
            0u8
        },
        len as u32,
        offset as u32,
        (piece_end(len, offset) - offset) as u32,
    );
}

/// A backup reads the firmware, the option ROM and the manufacturing pages, in this order, each
/// with one request, and saves each in the file of its own name.
pub proof fn backup_takes_images_in_order(d: Seq<ArtifactModel>, e: BackupHappening, data: Seq<u8>)
    requires
        d.len() < 3,
        e matches BackupHappening::Uploaded { sent: Ok(n), reply, data: all } && FwUploadReply::parsed(
            clamped(reply, 0, n as int),
        ) matches Ok(r) && r.ioc_status == IocStatus::Success && data == clamped(
            all,
            0,
            r.actual_image_size as int,
        ),
    ensures
        next_upload(d) matches BackupDemand::Upload { request, .. } && request[0] == (if d.len()
            == 0 {
            0x01u8
        } else if d.len() == 1 {
            0x02u8
        } else {
            0x06u8
        }) && request[3] == 0x12,
        backup_next(BackupStage::Uploading(d), e).1 == (BackupDemand::Save {
            file: if d.len() == 0 {
                "firmware.bin"@
            } else if d.len() == 1 {
                "bios.rom"@
            } else {
                "nvdata.bin"@
            },
            data,
        }),
        backup_next(BackupStage::Uploading(d), e).0 matches BackupStage::Saving(same, a) && same == d
            && a.size == data.len() as u64 && a.sha256 == sha256_text(data),
{
    upload_asks_for_image(backup_image(d.len() as int));
}

/// A backup goes on to the next image with every file that was saved, writes the manifest after
/// the third, and ends at the first thing that fails.
pub proof fn backup_goes_in_order(d: Seq<ArtifactModel>, a: ArtifactModel, x: Seq<char>)
    ensures
        d.len() < 2 ==> backup_next(BackupStage::Saving(d, a), BackupHappening::Saved(Ok(()))) == (
            BackupStage::Uploading(d.push(a)),
            next_upload(d.push(a)),
        ),
        d.len() == 2 ==> backup_next(BackupStage::Saving(d, a), BackupHappening::Saved(Ok(()))) == (
            BackupStage::SavingManifest(d.push(a)),
            BackupDemand::SaveManifest(d.push(a)),
        ),
        backup_next(BackupStage::Saving(d, a), BackupHappening::Saved(Err(x))).1
            == BackupDemand::Finish(Err(CardFailure::Io(x))),
        backup_next(BackupStage::SavingManifest(d), BackupHappening::ManifestSaved(Ok(()))).1
            == BackupDemand::Finish(Ok(d)),
{
}

/// What an upload brought is the start of the buffer, as many bytes as the reply says the image
/// has; without a success in the reply there is no image.
pub proof fn upload_gives_the_image(t: ImageType, n: usize, reply: Seq<u8>, data: Seq<u8>)
    requires
        24 <= n <= reply.len(),
    ensures
        ({
            let size = reply[20] + 256 * reply[21] + 65536 * reply[22] + 16777216 * reply[23];
            let r = upload_outcome(t, Ok(n), reply, data);
            &&& r is Ok <==> reply[14] == 0 && reply[15] == 0
            &&& (r matches Ok(b) ==> b.len() == (if size < data.len() { size } else { data.len()
                as int }) && forall|i: int| 0 <= i < b.len() ==> #[trigger] b[i] == data[i])
        }),
{
    let frame = clamped(reply, 0, n as int);
    assert(frame =~= reply.take(n as int));
    assert(frame[14] == reply[14] && frame[15] == reply[15]);
    assert(frame[20] == reply[20] && frame[21] == reply[21] && frame[22] == reply[22] && frame[23]
        == reply[23]);
    status_numbers(u16_at(frame, 14));
    image_reply_fields_are_in_place(frame);
}

/// A download is a failure exactly where it could not be sent or its reply is no success: the
/// two bytes at 14 of at least 18 are zero.
pub proof fn download_succeeds_exactly(
    t: ImageType,
    len: int,
    offset: int,
    sent: Result<usize, Seq<char>>,
    reply: Seq<u8>,
)
    requires
        sent matches Ok(n) ==> n <= reply.len(),
    ensures
        download_failure(t, len, offset, sent, reply) is None <==> (sent matches Ok(n) && n >= 18
            && reply[14] == 0 && reply[15] == 0),
{
    if let Ok(n) = sent {
        let frame = clamped(reply, 0, n as int);
        assert(frame =~= reply.take(n as int));
        if n >= 18 {
            assert(frame[14] == reply[14] && frame[15] == reply[15]);
            status_numbers(u16_at(frame, 14));
        }
    }
}

/// A restore reads `firmware.bin` first and writes it as firmware, then `bios.rom` as option
/// ROM, and nothing else: the requests for the first region carry the number 0x01, those for
/// the second 0x02, and every piece has the bytes of its own place in the file.
pub proof fn restored_file_goes_to_its_image(
    region: int,
    bytes: Seq<u8>,
    offset: int,
    i: int,
)
    requires
        0 <= region < 2,
        0 <= offset < bytes.len() <= u32::MAX,
    ensures
        backup_file(0) == "firmware.bin"@,
        backup_file(1) == "bios.rom"@,
        restored_files() == seq!["firmware.bin"@, "bios.rom"@],
        piece_demand(region, bytes, offset) matches RestoreDemand::Download { request, data, .. }
            && request[0] == region + 1 && request[3] == 0x09 && u32_at(request, 12) == bytes.len()
            && u32_at(request, 28) == offset && u32_at(request, 32) == data.len() && data.len() == (
        if bytes.len() - offset < 0x4000 {
            bytes.len() - offset
        } else {
            0x4000
        }) && (0 <= i < data.len() ==> data[i] == bytes[offset + i]),
{
    download_announces_piece(backup_image(region), bytes.len() as int, offset);
}

/// A restore goes on in order: the first region, piece by piece, then the file of the second,
/// and after its last piece it is done, with both files to its name.
pub proof fn restore_goes_in_order(
    region: int,
    bytes: Seq<u8>,
    offset: int,
    n: usize,
    reply: Seq<u8>,
)
    requires
        0 <= region < 2,
        0 <= offset < bytes.len(),
        18 <= n <= reply.len(),
        reply[14] == 0,
        reply[15] == 0,
    ensures
        ({
            let (t, d) = restore_next(
                RestoreStage::Writing { region, bytes, offset },
                RestoreHappening::Downloaded { sent: Ok(n), reply },
            );
            if offset + 0x4000 < bytes.len() {
                t == (RestoreStage::Writing { region, bytes, offset: offset + 0x4000 })
            } else if region == 0 {
                t == (RestoreStage::Reading { region: 1 }) && d == RestoreDemand::ReadRegion(
                    "bios.rom"@,
                )
            } else {
                t is Closed && d == RestoreDemand::Finish(
                    Ok(seq!["firmware.bin"@, "bios.rom"@]),
                )
            }
        }),
{
    download_succeeds_exactly(
        backup_image(region),
        bytes.len() as int,
        offset,
        Ok(n),
        reply,
    );
}

proof fn artifact_at_is(v: Seq<ArtifactModel>, name: Seq<char>, k: int)
    requires
        0 <= k < v.len(),
        v[k].path == name,
        forall|j: int| 0 <= j < k ==> (#[trigger] v[j]).path != name,
    ensures
        artifact_at(v, name) == Some(v[k]),
    decreases k,
{
    if k > 0 {
        assert(v[0].path != name);
        assert forall|j: int| 0 <= j < k - 1 implies (#[trigger] v.skip(1)[j]).path != name by {
            assert(v.skip(1)[j] == v[j + 1]);
        }
        artifact_at_is(v.skip(1), name, k - 1);
    }
}

proof fn artifact_at_none(v: Seq<ArtifactModel>, name: Seq<char>)
    requires
        forall|j: int| 0 <= j < v.len() ==> (#[trigger] v[j]).path != name,
    ensures
        artifact_at(v, name) is None,
    decreases v.len(),
{
    if v.len() > 0 {
        assert(v[0].path != name);
        assert forall|j: int| 0 <= j < v.skip(1).len() implies (#[trigger] v.skip(1)[j]).path
            != name by {
            assert(v.skip(1)[j] == v[j + 1]);
        }
        artifact_at_none(v.skip(1), name);
    }
}

/// A file is written back exactly where it is not empty and the first entry of the manifest
/// with its name has its size and its digest.
pub proof fn file_is_accepted_exactly(name: Seq<char>, b: Seq<u8>, v: Seq<ArtifactModel>, k: int)
    requires
        b.len() <= usize::MAX,
        0 <= k < v.len(),
        v[k].path == name,
        v[k].size <= usize::MAX,
        forall|j: int| 0 <= j < k ==> (#[trigger] v[j]).path != name,
    ensures
        region_refusal(name, Ok(b), Ok(v)) is None <==> b.len() > 0 && v[k].size == b.len()
            && v[k].sha256 == sha256_text(b),
{
    artifact_at_is(v, name, k);
}

/// A file that the manifest does not list is not written back.
pub proof fn unlisted_file_is_refused(
    name: Seq<char>,
    file: Result<Seq<u8>, Seq<char>>,
    v: Seq<ArtifactModel>,
)
    requires
        forall|j: int| 0 <= j < v.len() ==> (#[trigger] v[j]).path != name,
    ensures
        region_refusal(name, file, Ok(v)) is Some,
{
    artifact_at_none(v, name);
}

/// Of the devices on the bus the first one at an address is taken, and its numbers are its own:
/// those of the board are not taken for those of the chip.
pub proof fn device_is_found_by_address(
    devices: Seq<PciDevice>,
    bdf: Seq<char>,
    k: int,
    id: CardIdentity,
    cards: Seq<CardInfo>,
)
    requires
        0 <= k < devices.len(),
        devices[k].bdf@ == bdf,
        forall|j: int| 0 <= j < k ==> (#[trigger] devices[j]).bdf@ != bdf,
        identifies(id, devices[k], cards),
    ensures
        device_at(devices, bdf) == Some(devices[k]),
        id.bdf@ == bdf,
        id.vendor_id == devices[k].vendor_id,
        id.device_id == devices[k].device_id,
        id.subsystem_vid == Some(devices[k].subsystem_vendor_id),
        id.subsystem_did == Some(devices[k].subsystem_device_id),
        id.chip_family is Sas2008 <==> id.vendor_id == 0x1000 && (id.device_id == 0x72
            || id.device_id == 0x73),
    decreases k,
{
    if k > 0 {
        assert(devices[0].bdf@ != bdf);
        assert(devices.skip(1)[k - 1] == devices[k]);
        assert forall|j: int| 0 <= j < k - 1 implies (#[trigger] devices.skip(1)[j]).bdf@ != bdf by {
            assert(devices.skip(1)[j] == devices[j + 1]);
        }
        device_is_found_by_address(devices.skip(1), bdf, k - 1, id, cards);
    }
}

/// Writing one region carries the image to where it was meant: each piece names that image, has
/// the bytes of its own place, and the piece after a success starts 0x4000 bytes on.
pub proof fn image_write_keeps_its_place(
    image_type: ImageType,
    bytes: Seq<u8>,
    offset: int,
    n: usize,
    reply: Seq<u8>,
    i: int,
)
    requires
        0 <= offset < bytes.len() <= u32::MAX,
        18 <= n <= reply.len(),
        reply[14] == 0,
        reply[15] == 0,
    ensures
        image_write_from(image_type, bytes, offset).1 matches ImageWriteDemand::Download {
            request,
            data,
            ..
        } && image_number(image_type, request[0]) && request[3] == 0x09 && u32_at(request, 28)
            == offset && u32_at(request, 32) == data.len() && (0 <= i < data.len() ==> data[i]
            == bytes[offset + i]),
        image_write_next(ImageWriteStage::Writing { image_type, bytes, offset }, Ok(n), reply) == if
        offset + 0x4000 < bytes.len() {
            image_write_from(image_type, bytes, offset + 0x4000)
        } else {
            (ImageWriteStage::Closed, ImageWriteDemand::Finish(Ok(())))
        },
{
    download_announces_piece(image_type, bytes.len() as int, offset);
    download_succeeds_exactly(image_type, bytes.len() as int, offset, Ok(n), reply);
}

/// The way to the boot record is the one that is asked for by name, and the registers of the
/// device where none is or the name is unknown.
pub proof fn way_to_record_is_as_asked(choice: Option<Seq<char>>)
    ensures
        sbr_transport_for(choice) is Istwi <==> choice == Some("istwi"@),
        sbr_transport_for(choice) is Vfio <==> choice == Some("vfio"@),
        choice is None ==> sbr_transport_for(choice) is Bar1,
{
    reveal_strlit("istwi");
    reveal_strlit("vfio");
    assert("istwi"@.len() != "vfio"@.len());
}

/// The question what a controller is has twelve bytes, the function three at 3 and nothing else.
pub proof fn facts_are_asked_for()
    ensures
        facts_request().len() == 12,
        facts_request()[3] == 3,
        forall|i: int| 0 <= i < 12 && i != 3 ==> #[trigger] facts_request()[i] == 0,
{
}

} // verus!
