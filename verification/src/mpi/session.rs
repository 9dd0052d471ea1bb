//! Sessions with a controller.
//!
//! A session owns the backend that carries messages to the controller. Its one
//! way to write an image, [`Session::fw_download_verified`], refuses firmware
//! of another kind than the running one, stops at the first reply that is not
//! a success, and reads the image back before it reports success.

use crate::bytes::{same_bytes, zeros};
use crate::mpi::messages::{
    ConfigReply, ConfigRequest, FwDownloadReply, FwDownloadRequest, FwUploadReply, FwUploadRequest,
    ImageType, IocFactsReply, IocInitReply, IocInitRequest, IocStatus, MpiError,
    ToolboxCleanRequest, ToolboxReply,
};
use vstd::prelude::*;

verus! {

/// What kind of firmware an adapter runs.
#[derive(Debug, Clone, Copy, PartialEq, Eq, Structural)]
pub enum Personality {
    /// Initiator/target firmware: plain pass-through of the disks.
    It,
    /// Integrated RAID firmware.
    Ir,
    /// Integrated MegaRAID firmware.
    Imr,
}

impl Personality {
    /// The name of this personality.
    pub open spec fn spec_name(self) -> Seq<char> {
        match self {
            Personality::It => "It"@,
            Personality::Ir => "Ir"@,
            Personality::Imr => "Imr"@,
        }
    }

    /// The name of this personality.
    pub fn name(self) -> (r: &'static str)
        ensures
            r@ == self.spec_name(),
    {
        match self {
            Personality::It => "It",
            Personality::Ir => "Ir",
            Personality::Imr => "Imr",
        }
    }

    /// The personality that the low byte of a firmware's product id stands for.
    pub fn from_product_id_low_byte(byte: u8) -> (r: Option<Self>)
        ensures
            r == match byte {
                0x13 => Some(Personality::It),
                0x17 => Some(Personality::Ir),
                _ => None,
            },
    {
        match byte {
            0x13 => Some(Personality::It),
            0x17 => Some(Personality::Ir),
            _ => None,
        }
    }

    /// The low byte of the product id of such firmware.
    pub fn as_product_id_byte(self) -> (r: u8)
        ensures
            r == match self {
                Personality::It => 0x13u8,
                Personality::Ir => 0x17u8,
                Personality::Imr => 0xFFu8,
            },
    {
        match self {
            Personality::It => 0x13,
            Personality::Ir => 0x17,
            Personality::Imr => 0xFF,
        }
    }
}

/// Evidence that the running firmware is of the same kind as the firmware to
/// be written. [`PersonalityMatched::verify_match`] is the only source of it.
#[derive(Debug)]
pub struct PersonalityMatched {
    running_personality: Personality,
    target_personality: Personality,
}

impl PersonalityMatched {
    /// The two personalities are the same.
    #[verifier::type_invariant]
    spec fn matched(self) -> bool {
        self.running_personality == self.target_personality
    }

    /// The personality of the running firmware.
    pub closed spec fn spec_running(&self) -> Personality {
        self.running_personality
    }

    /// The personality of the firmware to be written.
    pub closed spec fn spec_target(&self) -> Personality {
        self.target_personality
    }

    /// Evidence for two equal personalities, an error for different ones.
    pub fn verify_match(running: Personality, target: Personality) -> (r: Result<Self, MpiError>)
        ensures
            running == target ==> (r matches Ok(p) && p.spec_running() == running
                && p.spec_target() == target),
            running != target ==> r == Err::<PersonalityMatched, MpiError>(
                MpiError::PersonalityMismatch { running, target },
            ),
    {
        if running == target {
            Ok(PersonalityMatched { running_personality: running, target_personality: target })
        } else {
            Err(MpiError::PersonalityMismatch { running, target })
        }
    }

    /// The personality of the running firmware.
    pub fn running(&self) -> (r: Personality)
        ensures
            r == self.spec_running(),
            r == self.spec_target(),
    {
        proof {
            use_type_invariant(self);
        }
        self.running_personality
    }

    /// The personality of the firmware to be written.
    pub fn target(&self) -> (r: Personality)
        ensures
            r == self.spec_target(),
            r == self.spec_running(),
    {
        proof {
            use_type_invariant(self);
        }
        self.target_personality
    }
}

impl Clone for PersonalityMatched {
    fn clone(&self) -> (r: Self)
        ensures
            r == *self,
    {
        proof {
            use_type_invariant(self);
        }
        PersonalityMatched {
            running_personality: self.running_personality,
            target_personality: self.target_personality,
        }
    }
}

/// What a download asks for.
pub struct DownloadCommand {
    pub image_type: ImageType,
    pub image_offset: u32,
    pub image_size: u32,
    pub total_image_size: u32,
    pub last_segment: bool,
    pub payload: Seq<u8>,
}

impl View for FwDownloadRequest<'_> {
    type V = DownloadCommand;

    open spec fn view(&self) -> DownloadCommand {
        DownloadCommand {
            image_type: self.image_type,
            image_offset: self.image_offset,
            image_size: self.image_size,
            total_image_size: self.total_image_size,
            last_segment: self.last_segment,
            payload: self.payload@,
        }
    }
}

/// What an upload asks for, with the buffer before the transfer.
pub struct UploadCommand {
    pub image_type: ImageType,
    pub image_offset: u32,
    pub image_size: u32,
    pub buffer: Seq<u8>,
}

impl View for FwUploadRequest {
    type V = UploadCommand;

    open spec fn view(&self) -> UploadCommand {
        UploadCommand {
            image_type: self.image_type,
            image_offset: self.image_offset,
            image_size: self.image_size,
            buffer: self.payload_buffer@,
        }
    }
}

/// What carries messages to a controller. Each backend says for itself, in the
/// `_step` relations, how a message changes it and what replies it may give.
pub trait IocBackend: Sized {
    /// How a download takes `pre` to `post`, and what comes back.
    open spec fn download_step(
        pre: Self,
        cmd: DownloadCommand,
        post: Self,
        r: Result<FwDownloadReply, MpiError>,
    ) -> bool {
        true
    }

    /// How an upload takes `pre` to `post`, and what comes back: the reply, and
    /// the buffer after the transfer.
    open spec fn upload_step(
        pre: Self,
        cmd: UploadCommand,
        post: Self,
        after: Seq<u8>,
        r: Result<FwUploadReply, MpiError>,
    ) -> bool {
        true
    }

    /// How an erase request takes `pre` to `post`, and what comes back.
    open spec fn toolbox_step(
        pre: Self,
        req: ToolboxCleanRequest,
        post: Self,
        r: Result<ToolboxReply, MpiError>,
    ) -> bool {
        true
    }

    /// How a page request takes `pre` to `post`, and what comes back.
    open spec fn config_step(
        pre: Self,
        req: ConfigRequest,
        post: Self,
        r: Result<ConfigReply, MpiError>,
    ) -> bool {
        true
    }

    /// How the set-up of the queues takes `pre` to `post`, and what comes back.
    open spec fn init_step(
        pre: Self,
        req: IocInitRequest,
        post: Self,
        r: Result<IocInitReply, MpiError>,
    ) -> bool {
        true
    }

    /// How the question what the controller is takes `pre` to `post`, and what
    /// comes back.
    open spec fn facts_step(pre: Self, post: Self, r: Result<IocFactsReply, MpiError>) -> bool {
        true
    }

    /// What the backend may say about the running firmware.
    open spec fn personality_step(pre: Self, r: Result<Personality, MpiError>) -> bool {
        true
    }

    /// Writes a piece of an image.
    fn send_fw_download(&mut self, req: &FwDownloadRequest<'_>) -> (r: Result<
        FwDownloadReply,
        MpiError,
    >)
        ensures
            Self::download_step(*old(self), req@, *final(self), r),
    ;

    /// Reads an image.
    fn send_fw_upload(&mut self, req: &mut FwUploadRequest) -> (r: Result<FwUploadReply, MpiError>)
        ensures
            Self::upload_step(
                *old(self),
                old(req)@,
                *final(self),
                final(req).payload_buffer@,
                r,
            ),
            final(req).image_type == old(req).image_type,
            final(req).image_offset == old(req).image_offset,
            final(req).image_size == old(req).image_size,
    ;

    /// Erases parts of the adapter.
    fn send_toolbox_clean(&mut self, req: &ToolboxCleanRequest) -> (r: Result<
        ToolboxReply,
        MpiError,
    >)
        ensures
            Self::toolbox_step(*old(self), *req, *final(self), r),
    ;

    /// Reads or writes a configuration page.
    fn send_config(&mut self, req: &ConfigRequest) -> (r: Result<ConfigReply, MpiError>)
        ensures
            Self::config_step(*old(self), *req, *final(self), r),
    ;

    /// Sets up the message queues.
    fn send_ioc_init(&mut self, req: &IocInitRequest) -> (r: Result<IocInitReply, MpiError>)
        ensures
            Self::init_step(*old(self), *req, *final(self), r),
    ;

    /// Asks what the controller is.
    fn send_ioc_facts(&mut self) -> (r: Result<IocFactsReply, MpiError>)
        ensures
            Self::facts_step(*old(self), *final(self), r),
    ;

    /// Which firmware the controller runs.
    fn current_personality(&self) -> (r: Result<Personality, MpiError>)
        ensures
            Self::personality_step(*self, r),
    ;
}

// ------------------------------------------------- writing an image safely

/// Images are written in pieces of this many bytes.
pub const CHUNK_SIZE: usize = 4096;

/// Where the piece that starts at `start` ends.
pub open spec fn chunk_end(len: int, start: int) -> int {
    if start + CHUNK_SIZE < len {
        start + CHUNK_SIZE
    } else {
        len
    }
}

/// The command for the piece of `data` that starts at `start`.
pub open spec fn chunk_command(image_type: ImageType, data: Seq<u8>, start: int) -> DownloadCommand {
    let end = chunk_end(data.len() as int, start);
    DownloadCommand {
        image_type,
        image_offset: start as u32,
        image_size: (end - start) as u32,
        total_image_size: data.len() as u32,
        last_segment: end == data.len(),
        payload: data.subrange(start, end),
    }
}

/// The first position at which two sequences differ; zero where one is a
/// prefix of the other.
pub open spec fn is_mismatch_offset(a: Seq<u8>, b: Seq<u8>, offset: int) -> bool {
    let common = if a.len() < b.len() {
        a.len()
    } else {
        b.len()
    };
    ||| 0 <= offset < common && a[offset] != b[offset] && a.take(offset) == b.take(offset)
    ||| offset == 0 && a.take(common as int) == b.take(common as int)
}

/// The verdict on an image that was read back.
pub open spec fn readback_verdict(
    data: Seq<u8>,
    after: Seq<u8>,
    reply: Result<FwUploadReply, MpiError>,
    r: Result<(), MpiError>,
) -> bool {
    match reply {
        Err(e) => r == Err::<(), MpiError>(e),
        Ok(up) => if up.ioc_status != IocStatus::Success {
            r == Err::<(), MpiError>(MpiError::IocStatus(up.ioc_status))
        } else if after == data {
            r == Ok::<(), MpiError>(())
        } else {
            r matches Err(MpiError::VerifyMismatch { offset }) && is_mismatch_offset(
                data,
                after,
                offset as int,
            )
        },
    }
}

/// The command that reads an image of the length of `data` back.
pub open spec fn readback_command(image_type: ImageType, data: Seq<u8>) -> UploadCommand {
    UploadCommand {
        image_type,
        image_offset: 0,
        image_size: data.len() as u32,
        buffer: zeros(data.len()),
    }
}

/// Reading the image back takes the backend from `pre` to `post` and gives `r`.
pub open spec fn readback<B: IocBackend>(
    pre: B,
    image_type: ImageType,
    data: Seq<u8>,
    post: B,
    r: Result<(), MpiError>,
) -> bool {
    exists|after: Seq<u8>, reply: Result<FwUploadReply, MpiError>|
        #[trigger] B::upload_step(pre, readback_command(image_type, data), post, after, reply)
            && readback_verdict(data, after, reply, r)
}

/// How many bytes of `data` lie at or after `start`.
pub open spec fn bytes_left(data: Seq<u8>, start: int) -> int {
    if start < data.len() {
        data.len() - start
    } else {
        0
    }
}

/// Writing the pieces of `data` from `start` on, then reading the image back,
/// takes the backend from `pre` to `post` and gives `r`. The first reply that
/// is no success ends it.
pub open spec fn write_from<B: IocBackend>(
    pre: B,
    image_type: ImageType,
    data: Seq<u8>,
    start: int,
    post: B,
    r: Result<(), MpiError>,
) -> bool
    decreases bytes_left(data, start),
{
    if start >= data.len() {
        readback(pre, image_type, data, post, r)
    } else {
        exists|mid: B, reply: Result<FwDownloadReply, MpiError>|
            #[trigger] B::download_step(pre, chunk_command(image_type, data, start), mid, reply)
                && match reply {
                Err(e) => post == mid && r == Err::<(), MpiError>(e),
                Ok(down) => if down.ioc_status != IocStatus::Success {
                    post == mid && r == Err::<(), MpiError>(MpiError::IocStatus(down.ioc_status))
                } else {
                    write_from(mid, image_type, data, start + CHUNK_SIZE, post, r)
                },
            }
    }
}

/// A verified download takes the backend from `pre` to `post` and gives `r`:
/// nothing is sent unless the running firmware is of the kind of `target`.
pub open spec fn verified_download<B: IocBackend>(
    pre: B,
    image_type: ImageType,
    target: Personality,
    data: Seq<u8>,
    post: B,
    r: Result<(), MpiError>,
) -> bool {
    exists|p: Result<Personality, MpiError>| #[trigger]
        B::personality_step(pre, p) && match p {
            Err(e) => post == pre && r == Err::<(), MpiError>(e),
            Ok(running) => if running != target {
                post == pre && r == Err::<(), MpiError>(
                    MpiError::PersonalityMismatch { running, target },
                )
            } else {
                write_from(pre, image_type, data, 0, post, r)
            },
        }
}

/// Verify-after-write: where a verified download succeeds, the last thing that
/// happened was an upload of the image that brought back exactly `data`.
pub proof fn verified_means_read_back<B: IocBackend>(
    pre: B,
    image_type: ImageType,
    data: Seq<u8>,
    start: int,
    post: B,
)
    requires
        write_from(pre, image_type, data, start, post, Ok::<(), MpiError>(())),
    ensures
        exists|last: B, reply: Result<FwUploadReply, MpiError>|
            #[trigger] B::upload_step(last, readback_command(image_type, data), post, data, reply)
                && (reply matches Ok(up) && up.ioc_status == IocStatus::Success),
    decreases bytes_left(data, start),
{
    let ok = Ok::<(), MpiError>(());
    if start >= data.len() {
        let (after, reply) = choose|after: Seq<u8>, reply: Result<FwUploadReply, MpiError>|
            #[trigger] B::upload_step(pre, readback_command(image_type, data), post, after, reply)
                && readback_verdict(data, after, reply, ok);
        assert(after == data);
    } else {
        let (mid, reply) = choose|mid: B, reply: Result<FwDownloadReply, MpiError>|
            #[trigger] B::download_step(pre, chunk_command(image_type, data, start), mid, reply)
                && match reply {
                Err(e) => post == mid && ok == Err::<(), MpiError>(e),
                Ok(down) => if down.ioc_status != IocStatus::Success {
                    post == mid && ok == Err::<(), MpiError>(MpiError::IocStatus(down.ioc_status))
                } else {
                    write_from(mid, image_type, data, start + CHUNK_SIZE, post, ok)
                },
            };
        verified_means_read_back(mid, image_type, data, start + CHUNK_SIZE, post);
    }
}

/// Firmware of one kind is never written over firmware of another kind: where
/// the backend reports another personality than `target`, a verified download
/// leaves the backend as it was and fails.
pub proof fn mismatch_sends_nothing<B: IocBackend>(
    pre: B,
    image_type: ImageType,
    target: Personality,
    data: Seq<u8>,
    post: B,
    r: Result<(), MpiError>,
)
    requires
        verified_download(pre, image_type, target, data, post, r),
        forall|p: Result<Personality, MpiError>| #[trigger]
            B::personality_step(pre, p) ==> p is Err || p->Ok_0 != target,
    ensures
        post == pre,
        r is Err,
{
}

/// A session with a controller.
pub struct Session<B: IocBackend> {
    backend: B,
    smid_next: u16,
}

impl<B: IocBackend> View for Session<B> {
    type V = B;

    closed spec fn view(&self) -> B {
        self.backend
    }
}

impl<B: IocBackend> Session<B> {
    /// The id of the next message.
    pub closed spec fn next_id(&self) -> u16 {
        self.smid_next
    }

    /// Starts a session. The first message has the id 1.
    pub fn new(backend: B) -> (r: Self)
        ensures
            r@ == backend,
            r.next_id() == 1,
    {
        Session { backend, smid_next: 1 }
    }

    /// Ends the session and starts another with the same controller. The first message of
    /// it has the id 1.
    pub fn renew(&mut self)
        ensures
            final(self)@ == old(self)@,
            final(self).next_id() == 1,
    {
        self.smid_next = 1;
    }

    /// Takes the id of the next message.
    pub fn next_smid(&mut self) -> (r: u16)
        ensures
            r == old(self).next_id(),
            final(self).next_id() == following_id(old(self).next_id()),
            final(self)@ == old(self)@,
    {
        let smid: u16 = self.smid_next;
        self.smid_next = self.smid_next.wrapping_add(1);
        smid
    }

    /// Writes `data` and reads it back.
    pub fn fw_download_verified(
        &mut self,
        image_type: ImageType,
        target_personality: Personality,
        data: &[u8],
    ) -> (r: Result<(), MpiError>)
        ensures
            verified_download(old(self)@, image_type, target_personality, data@, final(self)@, r),
            final(self).next_id() == old(self).next_id(),
    {
        let ghost pre = self.backend;
        let running = match self.backend.current_personality() {
            Ok(p) => p,
            Err(e) => {
                return Err(e);
            },
        };
        assert(B::personality_step(pre, Ok(running)));
        match PersonalityMatched::verify_match(running, target_personality) {
            Ok(_) => {},
            Err(e) => {
                return Err(e);
            },
        }
        let mut start: usize = 0;
        while start < data.len()
            invariant
                start <= data@.len(),
                self.smid_next == old(self).smid_next,
                forall|post: B, r: Result<(), MpiError>| #[trigger]
                    write_from(self.backend, image_type, data@, start as int, post, r)
                        ==> write_from(pre, image_type, data@, 0, post, r),
                pre == old(self)@,
                B::personality_step(pre, Ok(running)),
                running == target_personality,
            decreases data@.len() - start,
        {
            let end: usize = if data.len() - start > CHUNK_SIZE {
                start + CHUNK_SIZE
            } else {
                data.len()
            };
            let chunk = &data[start..end];
            let req = FwDownloadRequest {
                image_type,
                image_offset: start as u32,
                image_size: chunk.len() as u32,
                total_image_size: data.len() as u32,
                last_segment: end == data.len(),
                payload: chunk,
            };
            let ghost before = self.backend;
            let reply = self.backend.send_fw_download(&req);
            assert(req@ == chunk_command(image_type, data@, start as int));
            assert(B::download_step(
                before,
                chunk_command(image_type, data@, start as int),
                self.backend,
                reply,
            ));
            match reply {
                Err(e) => {
                    assert(write_from(
                        before,
                        image_type,
                        data@,
                        start as int,
                        self.backend,
                        Err(e),
                    ));
                    return Err(e);
                },
                Ok(down) => {
                    if down.ioc_status.is_flash_hard_stop() {
                        let ghost verdict = Err::<(), MpiError>(
                            MpiError::IocStatus(down.ioc_status),
                        );
                        assert(write_from(
                            before,
                            image_type,
                            data@,
                            start as int,
                            self.backend,
                            verdict,
                        ));
                        return Err(MpiError::IocStatus(down.ioc_status));
                    }
                    proof {
                        assert forall|post: B, r: Result<(), MpiError>| #[trigger]
                            write_from(self.backend, image_type, data@, end as int, post, r) implies
                            write_from(pre, image_type, data@, 0, post, r) by {
                            if start + CHUNK_SIZE != end {
                                assert(readback(self.backend, image_type, data@, post, r));
                                assert(write_from(
                                    self.backend,
                                    image_type,
                                    data@,
                                    start + CHUNK_SIZE,
                                    post,
                                    r,
                                ));
                            }
                            assert(B::download_step(
                                before,
                                chunk_command(image_type, data@, start as int),
                                self.backend,
                                Ok(down),
                            ));
                            assert(write_from(before, image_type, data@, start as int, post, r));
                        }
                    }
                },
            }
            start = end;
        }
        let mut upload = FwUploadRequest {
            image_type,
            image_offset: 0,
            image_size: data.len() as u32,
            payload_buffer: vec![0u8; data.len()],
        };
        assert(upload.payload_buffer@ =~= zeros(data@.len()));
        let ghost cmd = upload@;
        let ghost last = self.backend;
        let reply = self.backend.send_fw_upload(&mut upload);
        assert(cmd == readback_command(image_type, data@));
        let ghost after = upload.payload_buffer@;
        let verdict = judge_readback(data, upload.payload_buffer.as_slice(), reply);
        assert(B::upload_step(
            last,
            readback_command(image_type, data@),
            self.backend,
            after,
            reply,
        ));
        assert(readback(last, image_type, data@, self.backend, verdict));
        assert(write_from(last, image_type, data@, data@.len() as int, self.backend, verdict));
        verdict
    }

    /// Sends a download.
    pub fn raw_fw_download(&mut self, req: &FwDownloadRequest<'_>) -> (r: Result<
        FwDownloadReply,
        MpiError,
    >)
        ensures
            B::download_step(old(self)@, req@, final(self)@, r),
            final(self).next_id() == following_id(old(self).next_id()),
    {
        let _ = self.next_smid();
        self.backend.send_fw_download(req)
    }

    /// Sends an upload.
    pub fn raw_fw_upload(&mut self, req: &mut FwUploadRequest) -> (r: Result<
        FwUploadReply,
        MpiError,
    >)
        ensures
            B::upload_step(old(self)@, old(req)@, final(self)@, final(req).payload_buffer@, r),
            final(req).image_type == old(req).image_type,
            final(req).image_offset == old(req).image_offset,
            final(req).image_size == old(req).image_size,
            final(self).next_id() == following_id(old(self).next_id()),
    {
        let _ = self.next_smid();
        self.backend.send_fw_upload(req)
    }

    /// Sends an erase request.
    pub fn raw_toolbox_clean(&mut self, req: &ToolboxCleanRequest) -> (r: Result<
        ToolboxReply,
        MpiError,
    >)
        ensures
            B::toolbox_step(old(self)@, *req, final(self)@, r),
            final(self).next_id() == following_id(old(self).next_id()),
    {
        let _ = self.next_smid();
        self.backend.send_toolbox_clean(req)
    }

    /// Sends a page request.
    pub fn raw_config(&mut self, req: &ConfigRequest) -> (r: Result<ConfigReply, MpiError>)
        ensures
            B::config_step(old(self)@, *req, final(self)@, r),
            final(self).next_id() == following_id(old(self).next_id()),
    {
        let _ = self.next_smid();
        self.backend.send_config(req)
    }

    /// Sets up the message queues.
    pub fn raw_ioc_init(&mut self, req: &IocInitRequest) -> (r: Result<IocInitReply, MpiError>)
        ensures
            B::init_step(old(self)@, *req, final(self)@, r),
            final(self).next_id() == following_id(old(self).next_id()),
    {
        let _ = self.next_smid();
        self.backend.send_ioc_init(req)
    }

    /// Asks what the controller is.
    pub fn raw_ioc_facts(&mut self) -> (r: Result<IocFactsReply, MpiError>)
        ensures
            B::facts_step(old(self)@, final(self)@, r),
            final(self).next_id() == following_id(old(self).next_id()),
    {
        let _ = self.next_smid();
        self.backend.send_ioc_facts()
    }

    /// Which firmware the controller runs.
    pub fn current_personality(&self) -> (r: Result<Personality, MpiError>)
        ensures
            B::personality_step(self@, r),
    {
        self.backend.current_personality()
    }
}

/// The id after `id`.
pub open spec fn following_id(id: u16) -> u16 {
    if id == 0xFFFF {
        0
    } else {
        (id + 1) as u16
    }
}

/// Judges an image that was read back.
pub fn judge_readback(
    data: &[u8],
    after: &[u8],
    reply: Result<FwUploadReply, MpiError>,
) -> (r: Result<(), MpiError>)
    ensures
        readback_verdict(data@, after@, reply, r),
{
    match reply {
        Err(e) => Err(e),
        Ok(up) => {
            if up.ioc_status.is_flash_hard_stop() {
                return Err(MpiError::IocStatus(up.ioc_status));
            }
            if same_bytes(after, data) {
                Ok(())
            } else {
                Err(MpiError::VerifyMismatch { offset: mismatch_offset(data, after) })
            }
        },
    }
}

fn mismatch_offset(a: &[u8], b: &[u8]) -> (r: usize)
    ensures
        is_mismatch_offset(a@, b@, r as int),
{
    let common: usize = if a.len() < b.len() { a.len() } else { b.len() };
    let mut i: usize = 0;
    while i < common
        invariant
            i <= common <= a@.len(),
            common <= b@.len(),
            common == a@.len() || common == b@.len(),
            forall|k: int| 0 <= k < i ==> a@[k] == b@[k],
        decreases common - i,
    {
        if a[i] != b[i] {
            assert(a@.take(i as int) =~= b@.take(i as int));
            return i;
        }
        i += 1;
    }
    assert(a@.take(common as int) =~= b@.take(common as int));
    0
}

// ---------------------------------------------------------------- the laws

/// Message ids count up by one and start over at zero.
pub proof fn ids_count_up(id: u16)
    ensures
        following_id(id) == (id + 1) % 0x1_0000,
{
}

/// Every byte of an image is in one piece of it, at its place: the piece of 4096 bytes that it
/// falls into says where it starts, how long it is and how long the image is, and only the piece
/// with the last byte is marked as the last.
pub proof fn every_byte_is_in_a_piece(image_type: ImageType, data: Seq<u8>, i: int)
    requires
        data.len() <= u32::MAX,
        0 <= i < data.len(),
    ensures
        ({
            let cmd = chunk_command(image_type, data, i / 4096 * 4096);
            &&& cmd.image_type == image_type
            &&& cmd.image_offset == i / 4096 * 4096
            &&& cmd.image_size == cmd.payload.len()
            &&& cmd.payload.len() <= 4096
            &&& i - cmd.image_offset < cmd.payload.len()
            &&& cmd.payload[i - cmd.image_offset] == data[i]
            &&& cmd.total_image_size == data.len()
            &&& cmd.last_segment <==> i / 4096 == (data.len() - 1) / 4096
        }),
{
}

/// A piece went from one state of the backend to the next and was granted.
pub open spec fn piece_granted<B: IocBackend>(pre: B, cmd: DownloadCommand, post: B) -> bool {
    exists|reply: FwDownloadReply| #[trigger]
        B::download_step(pre, cmd, post, Ok::<FwDownloadReply, MpiError>(reply)) && reply.ioc_status
            == IocStatus::Success
}

/// Whether a command is the `n`-th piece of `data`: 4096 bytes, or what is left of them, from
/// their own place.
pub open spec fn is_piece(
    cmd: DownloadCommand,
    image_type: ImageType,
    data: Seq<u8>,
    n: int,
) -> bool {
    &&& cmd.image_type == image_type
    &&& cmd.image_offset == 4096 * n
    &&& cmd.total_image_size == data.len()
    &&& cmd.image_size == cmd.payload.len()
    &&& cmd.last_segment == (n == (data.len() - 1) / 4096)
    &&& cmd.payload == data.subrange(
        4096 * n,
        if 4096 * n + 4096 < data.len() {
            4096 * n + 4096
        } else {
            data.len() as int
        },
    )
}

/// Whether the `n`-th piece of `data` was granted on the way from the state `k` to the next.
pub open spec fn granted_after<B: IocBackend>(
    states: Seq<B>,
    k: int,
    image_type: ImageType,
    data: Seq<u8>,
    n: int,
) -> bool {
    exists|cmd: DownloadCommand| #[trigger]
        piece_granted(states[k], cmd, states[k + 1]) && is_piece(cmd, image_type, data, n)
}

/// Whether `states` are the states of the backend between the pieces of `data` from the piece
/// `first` on: every piece is sent, in order, and each is granted before the next.
pub open spec fn pieces_granted<B: IocBackend>(
    states: Seq<B>,
    image_type: ImageType,
    data: Seq<u8>,
    first: int,
) -> bool {
    forall|k: int|
        0 <= k < states.len() - 1 ==> #[trigger] granted_after(
            states,
            k,
            image_type,
            data,
            first + k,
        )
}

proof fn pieces_are_granted_from<B: IocBackend>(
    pre: B,
    image_type: ImageType,
    data: Seq<u8>,
    first: int,
    post: B,
) -> (states: Seq<B>)
    requires
        data.len() <= u32::MAX,
        0 <= first,
        write_from(pre, image_type, data, 4096 * first, post, Ok::<(), MpiError>(())),
    ensures
        states.len() >= 1,
        states[0] == pre,
        4096 * first < data.len() ==> states.len() == (data.len() - 1) / 4096 - first + 2,
        4096 * first >= data.len() ==> states.len() == 1,
        pieces_granted(states, image_type, data, first),
    decreases bytes_left(data, 4096 * first),
{
    let start = 4096 * first;
    let ok = Ok::<(), MpiError>(());
    if start >= data.len() {
        seq![pre]
    } else {
        let cmd = chunk_command(image_type, data, start);
        let (mid, reply) = choose|mid: B, reply: Result<FwDownloadReply, MpiError>|
            #[trigger] B::download_step(pre, chunk_command(image_type, data, start), mid, reply)
                && match reply {
                Err(e) => post == mid && ok == Err::<(), MpiError>(e),
                Ok(down) => if down.ioc_status != IocStatus::Success {
                    post == mid && ok == Err::<(), MpiError>(MpiError::IocStatus(down.ioc_status))
                } else {
                    write_from(mid, image_type, data, start + CHUNK_SIZE, post, ok)
                },
            };
        assert(4096 * (first + 1) == start + CHUNK_SIZE);
        let rest = pieces_are_granted_from(mid, image_type, data, first + 1, post);
        let states = seq![pre] + rest;
        assert(B::download_step(pre, cmd, mid, Ok::<FwDownloadReply, MpiError>(reply->Ok_0)));
        assert(piece_granted(pre, cmd, mid));
        assert(is_piece(cmd, image_type, data, first));
        assert forall|k: int| 0 <= k < states.len() - 1 implies #[trigger] granted_after(
            states,
            k,
            image_type,
            data,
            first + k,
        ) by {
            if k == 0 {
                assert(states[k] == pre && states[k + 1] == mid);
                assert(piece_granted(states[k], cmd, states[k + 1]));
            } else {
                let j = k - 1;
                assert(granted_after(rest, j, image_type, data, first + 1 + j));
                let c = choose|cmd: DownloadCommand| #[trigger]
                    piece_granted(rest[j], cmd, rest[j + 1]) && is_piece(
                        cmd,
                        image_type,
                        data,
                        first + 1 + j,
                    );
                assert(states[k] == rest[j] && states[k + 1] == rest[j + 1]);
                assert(piece_granted(states[k], c, states[k + 1]));
            }
        }
        states
    }
}

/// A verified download that succeeds has sent every piece of the image, in order and each
/// granted before the next: one for each 4096 bytes or part of them.
pub proof fn success_sends_every_piece<B: IocBackend>(
    pre: B,
    image_type: ImageType,
    target: Personality,
    data: Seq<u8>,
    post: B,
)
    requires
        data.len() <= u32::MAX,
        verified_download(pre, image_type, target, data, post, Ok::<(), MpiError>(())),
    ensures
        exists|states: Seq<B>| #[trigger]
            pieces_granted(states, image_type, data, 0) && states.len() == (data.len() + 4095) / 4096
                + 1 && states[0] == pre,
{
    let states = pieces_are_granted_from(pre, image_type, data, 0, post);
    assert(pieces_granted(states, image_type, data, 0));
}

/// A verified download that succeeds met firmware of the kind that was asked for, and ended
/// with one upload of the whole image, from its first byte on, that brought back exactly what
/// was to be written.
pub proof fn success_is_read_back_whole<B: IocBackend>(
    pre: B,
    image_type: ImageType,
    target: Personality,
    data: Seq<u8>,
    post: B,
)
    requires
        verified_download(pre, image_type, target, data, post, Ok::<(), MpiError>(())),
    ensures
        B::personality_step(pre, Ok::<Personality, MpiError>(target)),
        exists|last: B, cmd: UploadCommand, reply: FwUploadReply|
            #[trigger] B::upload_step(
                last,
                cmd,
                post,
                data,
                Ok::<FwUploadReply, MpiError>(reply),
            ) && reply.ioc_status == IocStatus::Success && cmd.image_type == image_type
                && cmd.image_offset == 0 && cmd.image_size == data.len() as u32 && cmd.buffer.len()
                == data.len(),
{
    verified_means_read_back(pre, image_type, data, 0, post);
    let (last, reply) = choose|last: B, reply: Result<FwUploadReply, MpiError>|
        #[trigger] B::upload_step(last, readback_command(image_type, data), post, data, reply) && (
        reply matches Ok(up) && up.ioc_status == IocStatus::Success);
    assert(B::upload_step(
        last,
        readback_command(image_type, data),
        post,
        data,
        Ok::<FwUploadReply, MpiError>(reply->Ok_0),
    ));
}

/// A byte that does not read back is reported at its place: the first at which the two
/// differ.
pub proof fn first_difference_is_reported(
    data: Seq<u8>,
    after: Seq<u8>,
    up: FwUploadReply,
    r: Result<(), MpiError>,
    i: int,
)
    requires
        up.ioc_status == IocStatus::Success,
        readback_verdict(data, after, Ok(up), r),
        after.len() == data.len(),
        0 <= i < data.len(),
        data[i] != after[i],
        forall|j: int| 0 <= j < i ==> data[j] == after[j],
    ensures
        r matches Err(MpiError::VerifyMismatch { offset }) && offset == i,
{
    if let Err(MpiError::VerifyMismatch { offset }) = r {
        let o = offset as int;
        assert(data.take(data.len() as int)[i] == data[i]);
        assert(after.take(data.len() as int)[i] == after[i]);
        if o > i {
            assert(data.take(o)[i] == after.take(o)[i]);
        }
    }
}

/// A controller that refuses a piece, or the upload, is never taken for one that did its work:
/// the download fails with its status.
pub proof fn refused_piece_fails<B: IocBackend>(
    pre: B,
    image_type: ImageType,
    data: Seq<u8>,
    post: B,
    r: Result<(), MpiError>,
    status: IocStatus,
)
    requires
        data.len() > 0,
        write_from(pre, image_type, data, 0, post, r),
        status != IocStatus::Success,
        forall|mid: B, reply: Result<FwDownloadReply, MpiError>| #[trigger]
            B::download_step(pre, chunk_command(image_type, data, 0), mid, reply) ==> (reply matches Ok(
                d,
            ) && d.ioc_status == status),
    ensures
        r == Err::<(), MpiError>(MpiError::IocStatus(status)),
{
}

/// A refused piece is the last thing that is sent: the controller is left as the refusal left it.
pub proof fn refusal_ends_sending<B: IocBackend>(
    pre: B,
    image_type: ImageType,
    data: Seq<u8>,
    start: int,
    post: B,
    r: Result<(), MpiError>,
)
    requires
        0 <= start < data.len(),
        write_from(pre, image_type, data, start, post, r),
        forall|mid: B, reply: Result<FwDownloadReply, MpiError>| #[trigger]
            B::download_step(pre, chunk_command(image_type, data, start), mid, reply) ==> (
            reply matches Ok(d) ==> d.ioc_status != IocStatus::Success),
    ensures
        r is Err,
        exists|reply: Result<FwDownloadReply, MpiError>| #[trigger]
            B::download_step(pre, chunk_command(image_type, data, start), post, reply),
{
}

} // verus!
