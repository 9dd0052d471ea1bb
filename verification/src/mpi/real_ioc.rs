//! A controller that is reached through its registers.
//!
//! The messages go over the doorbell. What is decided before a message is sent
//! and after its reply has come stands here; the registers are read and written
//! elsewhere.

use crate::bytes::{push_zeros, zeros};
use crate::hw::{DmaBuffer, HwError};
use crate::mpi::doorbell::{get_ioc_state, ioc_state_of, state_is_in_high_bits, IocState};
use crate::mpi::messages::{
    ConfigRequest, FwDownloadRequest, FwUploadRequest, IocFactsRequest, IocInitRequest, IocStatus,
    MpiError, ToolboxCleanRequest,
};
use crate::mpi::replies::{
    ConfigReply, FwDownloadReply, FwUploadReply, IocFactsReply, IocInitReply, ToolboxReply,
};
use crate::mpi::session::Personality;
use crate::text::{dec, push_dec};
use vstd::prelude::*;

verus! {

/// Size of the window on the registers.
pub const BAR1_LEN: usize = 4096;

/// A controller that is reached through its registers.
#[derive(Debug)]
pub struct RealIoc {
    /// The bus address.
    pub pci_bdf: String,
    /// The file that maps the registers.
    pub bar1_path: String,
    /// The firmware that runs, once it is known.
    pub current_personality: Option<Personality>,
}

/// The file that maps the registers of the device at `bdf`.
pub open spec fn bar1_file(bdf: Seq<char>) -> Seq<char> {
    "/sys/bus/pci/devices/"@ + bdf + "/resource1"@
}

/// A message filled up to whole words.
pub open spec fn padded(b: Seq<u8>) -> Seq<u8> {
    b + zeros(((4 - b.len() % 4) % 4) as nat)
}

fn pad(b: Vec<u8>) -> (r: Vec<u8>)
    ensures
        r@ == padded(b@),
{
    let mut b = b;
    let missing: usize = (4 - b.len() % 4) % 4;
    push_zeros(&mut b, missing);
    b
}

/// Why a controller cannot be talked to, given its doorbell where the registers
/// are mapped.
pub open spec fn not_ready(doorbell: Option<u32>) -> bool {
    doorbell matches Some(db) && !(ioc_state_of(db) is Ready || ioc_state_of(db) is Operational)
}

fn io_error(label: &str, e: &str) -> (r: MpiError)
    ensures
        r matches MpiError::Io(t) && t@ == label@ + e@,
{
    let mut t = label.to_owned();
    t.append(e);
    MpiError::Io(t)
}

/// Whether `r` says that the registers are not mapped.
pub open spec fn says_unmapped<T>(r: Result<T, MpiError>) -> bool {
    r matches Err(MpiError::Io(t)) && t@ == "BAR1 not mapped"@
}

/// Whether `r` says that the controller is in a state that takes no messages.
pub open spec fn says_invalid_state<T>(r: Result<T, MpiError>) -> bool {
    r == Err::<T, MpiError>(MpiError::IocStatus(IocStatus::InvalidState))
}

/// The window on the registers: that of the way to the device, where there is one, and else
/// the file that was mapped.
pub fn preferred_bar1<'a>(backend: Option<&'a [u8]>, mapped: Option<&'a [u8]>) -> (r: Option<
    &'a [u8],
>)
    ensures
        r == (if backend is Some {
            backend
        } else {
            mapped
        }),
{
    match backend {
        Some(window) => Some(window),
        None => mapped,
    }
}

/// Decides whether a message can be sent: the registers have to be mapped and
/// the controller ready or at work.
pub fn ready_check(doorbell: Option<u32>) -> (r: Result<(), MpiError>)
    ensures
        doorbell is None ==> says_unmapped(r),
        not_ready(doorbell) ==> says_invalid_state(r),
        doorbell is Some && !not_ready(doorbell) ==> r is Ok,
{
    match doorbell {
        None => Err(MpiError::Io("BAR1 not mapped".to_owned())),
        Some(db) => match get_ioc_state(db) {
            IocState::Ready | IocState::Operational => Ok(()),
            _ => Err(MpiError::IocStatus(IocStatus::InvalidState)),
        },
    }
}

impl RealIoc {
    /// Whether this is the controller at `bdf`, of which nothing is known yet.
    pub open spec fn is_at(&self, bdf: Seq<char>) -> bool {
        self.pci_bdf@ == bdf && self.bar1_path@ == bar1_file(bdf) && self.current_personality
            is None
    }

    /// The controller at `bdf`, given what mapping its registers gave.
    pub fn open(bdf: &str, mapped: Result<(), String>) -> (r: Result<Self, MpiError>)
        ensures
            match mapped {
                Ok(_) => r matches Ok(v) && v.is_at(bdf@),
                Err(e) => r matches Err(MpiError::Io(t)) && t@ == "BAR1 mmap "@ + bar1_file(bdf@)
                    + ": "@ + e@,
            },
    {
        let ioc = RealIoc::for_tests(bdf);
        match mapped {
            Ok(_) => Ok(ioc),
            Err(e) => {
                let mut t = "BAR1 mmap ".to_owned();
                t.append(ioc.bar1_path.as_str());
                t.append(": ");
                t.append(e.as_str());
                Err(MpiError::Io(t))
            },
        }
    }

    /// The controller at `bdf`, reached over a way that has been opened.
    pub fn from_backend(bdf: &str) -> (r: Self)
        ensures
            r.is_at(bdf@),
    {
        RealIoc::for_tests(bdf)
    }

    /// The controller at `bdf`, with nothing behind it.
    pub fn for_tests(bdf: &str) -> (r: Self)
        ensures
            r.is_at(bdf@),
    {
        let mut path = "/sys/bus/pci/devices/".to_owned();
        path.append(bdf);
        path.append("/resource1");
        RealIoc { pci_bdf: bdf.to_owned(), bar1_path: path, current_personality: None }
    }

    /// The file that maps the registers.
    pub fn bar1_path(&self) -> (r: &str)
        ensures
            r@ == self.bar1_path@,
    {
        self.bar1_path.as_str()
    }

    /// The bus address.
    pub fn pci_bdf(&self) -> (r: &str)
        ensures
            r@ == self.pci_bdf@,
    {
        self.pci_bdf.as_str()
    }

    /// The firmware that runs, once it is known.
    pub fn get_personality(&self) -> (r: Option<Personality>)
        ensures
            r == self.current_personality,
    {
        self.current_personality
    }

    /// Memory that the device can reach, given what the way to it granted.
    pub fn alloc_dma(&self, granted: Option<Result<DmaBuffer, HwError>>) -> (r: Result<
        DmaBuffer,
        MpiError,
    >)
        ensures
            match granted {
                None => r matches Err(MpiError::Io(t)) && t@
                    == "alloc_dma requires HwBackend — use RealIoc::from_backend instead of ::open"@,
                Some(Ok(b)) => r == Ok::<DmaBuffer, MpiError>(b),
                Some(Err(e)) => r matches Err(MpiError::Io(t)) && t@ == "alloc_dma: "@
                    + e.spec_text(),
            },
    {
        match granted {
            None => Err(
                MpiError::Io(
                    "alloc_dma requires HwBackend — use RealIoc::from_backend instead of ::open".to_owned(),
                ),
            ),
            Some(Ok(b)) => Ok(b),
            Some(Err(e)) => Err(io_error("alloc_dma: ", e.text().as_str())),
        }
    }

    /// Gives such memory back, given what the way to the device said.
    pub fn free_dma(&self, released: Option<Result<(), HwError>>) -> (r: Result<(), MpiError>)
        ensures
            match released {
                None => r matches Err(MpiError::Io(t)) && t@ == "free_dma: no HwBackend attached"@,
                Some(Ok(_)) => r is Ok,
                Some(Err(e)) => r matches Err(MpiError::Io(t)) && t@ == "free_dma: "@
                    + e.spec_text(),
            },
    {
        match released {
            None => Err(MpiError::Io("free_dma: no HwBackend attached".to_owned())),
            Some(Ok(_)) => Ok(()),
            Some(Err(e)) => Err(io_error("free_dma: ", e.text().as_str())),
        }
    }

    // ------------------------------------------------- what is never sent

    /// Writes are not sent this way.
    pub fn send_fw_download(&self, _req: &FwDownloadRequest<'_>) -> (r: Result<
        FwDownloadReply,
        MpiError,
    >)
        ensures
            r matches Err(MpiError::NotImplementedYet { op }) && op@
                == "RealIoc::send_fw_download (destructive — brick-gated)"@,
    {
        Err(
            MpiError::NotImplementedYet {
                op: "RealIoc::send_fw_download (destructive — brick-gated)",
            },
        )
    }

    /// Erase requests are not sent this way.
    pub fn send_toolbox_clean(&self, _req: &ToolboxCleanRequest) -> (r: Result<
        ToolboxReply,
        MpiError,
    >)
        ensures
            r matches Err(MpiError::NotImplementedYet { op }) && op@
                == "RealIoc::send_toolbox_clean (destructive — brick-gated)"@,
    {
        Err(
            MpiError::NotImplementedYet {
                op: "RealIoc::send_toolbox_clean (destructive — brick-gated)",
            },
        )
    }

    // ------------------------------------------------------------- upload

    /// The message for an upload, or why it is not sent: the buffer has to hold
    /// what is asked for, and the controller has to take messages. `iova` is
    /// where the controller finds the buffer.
    pub fn send_fw_upload(&self, req: &FwUploadRequest, iova: u64, doorbell: Option<u32>) -> (r:
        Result<Vec<u8>, MpiError>)
        requires
            req.image_size as usize <= req.payload_buffer@.len() && doorbell is Some && !not_ready(
                doorbell,
            ) ==> req.transfer_len() <= 0x00FF_FFFF,
        ensures
            if req.image_size as usize > req.payload_buffer@.len() {
                r matches Err(MpiError::Io(t)) && t@ == "upload buffer too small: chip says "@
                    + dec(req.image_size as nat) + " bytes, buffer is "@ + dec(
                    req.payload_buffer@.len(),
                )
            } else if doorbell is None {
                says_unmapped(r)
            } else if not_ready(doorbell) {
                says_invalid_state(r)
            } else {
                r matches Ok(b) && b@ == padded(req.wire(iova))
            },
    {
        if req.image_size as usize > req.payload_buffer.len() {
            let mut t = "upload buffer too small: chip says ".to_owned();
            push_dec(&mut t, req.image_size as u64);
            t.append(" bytes, buffer is ");
            push_dec(&mut t, req.payload_buffer.len() as u64);
            return Err(MpiError::Io(t));
        }
        match ready_check(doorbell) {
            Err(e) => Err(e),
            Ok(_) => Ok(pad(req.serialize_to(iova))),
        }
    }

    /// Judges the reply to an upload.
    pub fn finish_fw_upload(&self, received: Result<Vec<u8>, String>) -> (r: Result<
        FwUploadReply,
        MpiError,
    >)
        ensures
            match received {
                Err(e) => r matches Err(MpiError::Io(t)) && t@ == "FW_UPLOAD: "@ + e@,
                Ok(b) => match FwUploadReply::parsed(b@) {
                    Err(e) => r == Err::<FwUploadReply, MpiError>(e),
                    Ok(v) => if v.ioc_status == IocStatus::Success {
                        r == Ok::<FwUploadReply, MpiError>(v)
                    } else {
                        r == Err::<FwUploadReply, MpiError>(MpiError::IocStatus(v.ioc_status))
                    },
                },
            },
    {
        let bytes = match received {
            Ok(b) => b,
            Err(e) => {
                return Err(io_error("FW_UPLOAD: ", e.as_str()));
            },
        };
        match FwUploadReply::parse(bytes.as_slice()) {
            Err(e) => Err(e),
            Ok(v) => {
                if v.ioc_status != IocStatus::Success {
                    return Err(MpiError::IocStatus(v.ioc_status));
                }
                Ok(v)
            },
        }
    }

    // -------------------------------------------------------------- pages

    /// The message for a page request, or why it is not sent.
    pub fn send_config(&self, req: &ConfigRequest, doorbell: Option<u32>) -> (r: Result<
        Vec<u8>,
        MpiError,
    >)
        ensures
            if doorbell is None {
                says_unmapped(r)
            } else if not_ready(doorbell) {
                says_invalid_state(r)
            } else {
                r matches Ok(b) && b@ == padded(req.wire())
            },
    {
        match ready_check(doorbell) {
            Err(e) => Err(e),
            Ok(_) => Ok(pad(req.serialize_to(2))),
        }
    }

    /// Judges the reply to a page request: how sending ended, then how receiving
    /// ended.
    pub fn finish_config(&self, sent: Result<(), String>, received: Result<Vec<u8>, String>) -> (r:
        Result<ConfigReply, MpiError>)
        ensures
            match (sent, received) {
                (Err(e), _) => r matches Err(MpiError::Io(t)) && t@ == "CONFIG send: "@ + e@,
                (Ok(_), Err(e)) => r matches Err(MpiError::Io(t)) && t@ == "CONFIG recv: "@ + e@,
                (Ok(_), Ok(b)) => match r {
                    Ok(v) => ConfigReply::parsed_from(b@, r) && v.ioc_status == IocStatus::Success,
                    Err(e) => ConfigReply::parsed_from(b@, r) || (e matches MpiError::IocStatus(s)
                        && s != IocStatus::Success && exists|v: ConfigReply|
                        #![trigger ConfigReply::parsed_from(b@, Ok(v))]
                        ConfigReply::parsed_from(b@, Ok(v)) && v.ioc_status == s),
                },
            },
    {
        if let Err(e) = sent {
            return Err(io_error("CONFIG send: ", e.as_str()));
        }
        let bytes = match received {
            Ok(b) => b,
            Err(e) => {
                return Err(io_error("CONFIG recv: ", e.as_str()));
            },
        };
        match ConfigReply::parse(bytes.as_slice()) {
            Err(e) => Err(e),
            Ok(v) => {
                if v.ioc_status != IocStatus::Success {
                    assert(ConfigReply::parsed_from(bytes@, Ok(v)));
                    return Err(MpiError::IocStatus(v.ioc_status));
                }
                Ok(v)
            },
        }
    }

    // ------------------------------------------------------------- set-up

    /// The message that sets the queues up, or why it is not sent: the state of
    /// the controller does not matter.
    pub fn send_ioc_init(&self, req: &IocInitRequest, mapped: bool) -> (r: Result<
        Vec<u8>,
        MpiError,
    >)
        ensures
            if mapped {
                r matches Ok(b) && b@ == padded(req.wire())
            } else {
                says_unmapped(r)
            },
    {
        if mapped {
            Ok(pad(req.serialize_to(1)))
        } else {
            Err(MpiError::Io("BAR1 not mapped".to_owned()))
        }
    }

    /// Judges the reply to the set-up of the queues.
    pub fn finish_ioc_init(&self, sent: Result<(), String>, received: Result<Vec<u8>, String>) -> (r:
        Result<IocInitReply, MpiError>)
        ensures
            match (sent, received) {
                (Err(e), _) => r matches Err(MpiError::Io(t)) && t@ == "IOC_INIT send: "@ + e@,
                (Ok(_), Err(e)) => r matches Err(MpiError::Io(t)) && t@ == "IOC_INIT recv: "@ + e@,
                (Ok(_), Ok(b)) => match r {
                    Ok(v) => IocInitReply::parsed_from(b@, r) && v.ioc_status == IocStatus::Success,
                    Err(e) => IocInitReply::parsed_from(b@, r) || (e matches MpiError::IocStatus(s)
                        && s != IocStatus::Success && exists|v: IocInitReply|
                        #![trigger IocInitReply::parsed_from(b@, Ok(v))]
                        IocInitReply::parsed_from(b@, Ok(v)) && v.ioc_status == s),
                },
            },
    {
        if let Err(e) = sent {
            return Err(io_error("IOC_INIT send: ", e.as_str()));
        }
        let bytes = match received {
            Ok(b) => b,
            Err(e) => {
                return Err(io_error("IOC_INIT recv: ", e.as_str()));
            },
        };
        match IocInitReply::parse(bytes.as_slice()) {
            Err(e) => Err(e),
            Ok(v) => {
                if v.ioc_status != IocStatus::Success {
                    assert(IocInitReply::parsed_from(bytes@, Ok(v)));
                    return Err(MpiError::IocStatus(v.ioc_status));
                }
                Ok(v)
            },
        }
    }

    // -------------------------------------------------------------- facts

    /// The message that asks what the controller is, or why it is not sent.
    pub fn send_ioc_facts(&self, doorbell: Option<u32>) -> (r: Result<Vec<u8>, MpiError>)
        ensures
            if doorbell is None {
                says_unmapped(r)
            } else if not_ready(doorbell) {
                says_invalid_state(r)
            } else {
                r matches Ok(b) && b@ == padded(IocFactsRequest::wire(2))
            },
    {
        match ready_check(doorbell) {
            Err(e) => Err(e),
            Ok(_) => Ok(pad(IocFactsRequest::serialize_to(2))),
        }
    }

    /// Judges the reply to the question what the controller is.
    pub fn finish_ioc_facts(&self, sent: Result<(), String>, received: Result<Vec<u8>, String>) -> (r:
        Result<IocFactsReply, MpiError>)
        ensures
            match (sent, received) {
                (Err(e), _) => r matches Err(MpiError::Io(t)) && t@ == "IOC_FACTS send: "@ + e@,
                (Ok(_), Err(e)) => r matches Err(MpiError::Io(t)) && t@ == "IOC_FACTS recv: "@ + e@,
                (Ok(_), Ok(b)) => match r {
                    Ok(v) => IocFactsReply::parsed_from(b@, r) && v.ioc_status == IocStatus::Success,
                    Err(e) => IocFactsReply::parsed_from(b@, r) || (e matches MpiError::IocStatus(s)
                        && s != IocStatus::Success && exists|v: IocFactsReply|
                        #![trigger IocFactsReply::parsed_from(b@, Ok(v))]
                        IocFactsReply::parsed_from(b@, Ok(v)) && v.ioc_status == s),
                },
            },
    {
        if let Err(e) = sent {
            return Err(io_error("IOC_FACTS send: ", e.as_str()));
        }
        let bytes = match received {
            Ok(b) => b,
            Err(e) => {
                return Err(io_error("IOC_FACTS recv: ", e.as_str()));
            },
        };
        match IocFactsReply::parse(bytes.as_slice()) {
            Err(e) => Err(e),
            Ok(v) => {
                if v.ioc_status != IocStatus::Success {
                    assert(IocFactsReply::parsed_from(bytes@, Ok(v)));
                    return Err(MpiError::IocStatus(v.ioc_status));
                }
                Ok(v)
            },
        }
    }
}

// ---------------------------------------------------------------- the laws

/// A padded message is a whole number of words: the message itself, and behind it fewer than
/// four bytes, all zero.
pub proof fn padding_is_short(b: Seq<u8>)
    ensures
        padded(b).len() % 4 == 0,
        b.len() <= padded(b).len() < b.len() + 4,
        padded(b).take(b.len() as int) == b,
        forall|i: int| b.len() <= i < padded(b).len() ==> #[trigger] padded(b)[i] == 0,
{
    assert(padded(b).take(b.len() as int) =~= b);
}

/// No message goes to a controller that has failed or has just been reset: it can be talked to
/// exactly where the highest four bits of its doorbell, without the highest of them, are 1, 2
/// or 3.
pub proof fn only_ready_controllers_are_asked(db: u32)
    ensures
        not_ready(Some(db)) <==> db / 0x1000_0000 % 8 == 0 || db / 0x1000_0000 % 8 >= 4,
        !not_ready(None),
{
    state_is_in_high_bits(db);
}

} // verus!
