//! Finding adapters and asking them what they are.

use crate::bytes::{clamped, clamped_slice, push_zeros, read_u16, read_u32, u16_at, u32_at, zeros};
use crate::card::PciDevice;
use crate::error::Error;
use crate::mpi::messages::{
    page_fields_are_in_place, ConfigReply, ConfigRequest, IocFactsReply, IocStatus, MpiError,
};
use crate::mpi::replies::{nul_text, parse_null_terminated_string};
use crate::text::{
    chars_of, dec, has_prefix, hex_pad, labelled, opt_text, push_dec, push_hex_pad, same_text,
    starts_with, strings,
};
use vstd::prelude::*;

verus! {

// --------------------------------------------------------------- the page

/// Whether a page is the first page of the manufacturer.
pub open spec fn is_mfg_page_0(page: Seq<u8>) -> bool {
    page.len() >= 64 && page[2] == 0x00 && page[3] == 0x09
}

/// Whether a page has the bytes that its header promises, as far as they are
/// looked at.
pub open spec fn mfg_page_fits(page: Seq<u8>) -> bool {
    is_mfg_page_0(page) ==> (page[1] >= 60 ==> page.len() >= 72) && (page[1] >= 72 ==> page.len()
        >= 80)
}

/// A field of the page, where it is there; else what was known before.
pub open spec fn mfg_name(
    page: Seq<u8>,
    least: int,
    from: int,
    to: int,
    before: Option<Seq<char>>,
) -> Option<Seq<char>> {
    if page[1] >= least && nul_text(page.subrange(from, to)).len() > 0 {
        Some(nul_text(page.subrange(from, to)))
    } else {
        before
    }
}

/// Whether `after` is what is known of a controller once the page has been read.
pub open spec fn with_mfg_page(before: IocFactsReply, page: Seq<u8>, after: IocFactsReply) -> bool {
    if !is_mfg_page_0(page) {
        after == before
    } else {
        &&& after == (IocFactsReply {
            nvdata_vendor_id: after.nvdata_vendor_id,
            nvdata_product_id: after.nvdata_product_id,
            nvdata_version: after.nvdata_version,
            firmware_product_id: after.firmware_product_id,
            board_name: after.board_name,
            board_tracer: after.board_tracer,
            ..before
        })
        &&& after.nvdata_vendor_id == if page[1] >= 16 {
            Some(u16_at(page, 8))
        } else {
            before.nvdata_vendor_id
        }
        &&& opt_text(after.nvdata_product_id) == if page[1] >= 20 {
            Some(nul_text(page.subrange(10, 20)))
        } else {
            opt_text(before.nvdata_product_id)
        }
        &&& after.nvdata_version == if page[1] >= 32 {
            Some(u32_at(page, 24))
        } else {
            before.nvdata_version
        }
        &&& opt_text(after.firmware_product_id) == if page[1] >= 48 {
            Some(nul_text(page.subrange(40, 56)))
        } else {
            opt_text(before.firmware_product_id)
        }
        &&& opt_text(after.board_name) == mfg_name(page, 60, 56, 72, opt_text(before.board_name))
        &&& opt_text(after.board_tracer) == mfg_name(
            page,
            72,
            72,
            80,
            opt_text(before.board_tracer),
        )
    }
}

fn same_option(a: &Option<String>, b: &String) -> (r: bool)
    ensures
        r == (opt_text(*a) == Some(b@)),
{
    match a {
        Some(s) => same_text(s.as_str(), b.as_str()),
        None => false,
    }
}

fn new_name(field: &[u8], before: &Option<String>) -> (r: Option<String>)
    ensures
        match r {
            Some(s) => s@ == nul_text(field@) && s@.len() > 0,
            None => nul_text(field@).len() == 0 || opt_text(*before) == Some(nul_text(field@)),
        },
{
    let s = parse_null_terminated_string(field);
    if !s.as_str().is_empty() && !same_option(before, &s) {
        Some(s)
    } else {
        None
    }
}

/// Adds what the first page of the manufacturer says to what is known of a
/// controller. Any other page is ignored.
pub fn parse_mfg_page_0(page: &[u8], facts: &mut IocFactsReply)
    requires
        mfg_page_fits(page@),
    ensures
        with_mfg_page(*old(facts), page@, *final(facts)),
{
    if page.len() < 64 {
        return;
    }
    let length: u8 = page[1];
    if page[2] != 0x00 || page[3] != 0x09 {
        return;
    }
    if length >= 16 {
        facts.nvdata_vendor_id = Some(read_u16(page, 8));
    }
    if length >= 20 {
        facts.nvdata_product_id = Some(parse_null_terminated_string(&page[10..20]));
    }
    if length >= 32 {
        facts.nvdata_version = Some(read_u32(page, 24));
    }
    if length >= 48 {
        facts.firmware_product_id = Some(parse_null_terminated_string(&page[40..56]));
    }
    if length >= 60 {
        if let Some(name) = new_name(&page[56..72], &facts.board_name) {
            facts.board_name = Some(name);
        }
    }
    if length >= 72 {
        if let Some(tracer) = new_name(&page[72..80], &facts.board_tracer) {
            facts.board_tracer = Some(tracer);
        }
    }
}

// ------------------------------------------------------------ the kernel's way

/// Where the data element would stand in the request, in words.
pub const KERNEL_FACTS_SGE_WORDS: u32 = 3;

/// How many bytes the reply can have.
pub const KERNEL_FACTS_REPLY: usize = 96;

/// Judges the answer over the driver of the kernel: how opening it ended, how
/// sending ended, and the reply.
pub fn try_fetch_via_mpt3ctl(
    opened: Result<(), String>,
    sent: Result<usize, String>,
    reply: &[u8],
) -> (r: Result<IocFactsReply, Error>)
    ensures
        match (opened, sent) {
            (Err(e), _) => r matches Err(Error::Other(t)) && t@ == "mpt3ctl open: "@ + e@,
            (Ok(_), Err(e)) => r matches Err(Error::Other(t)) && t@ == "mpt3ctl IOC_FACTS: "@ + e@,
            (Ok(_), Ok(n)) => match r {
                Ok(v) => v.ioc_status == IocStatus::Success && IocFactsReply::parsed_from(
                    clamped(reply@, 0, n as int),
                    Ok(v),
                ),
                Err(e) => e is Other && (kernel_parse_fault(clamped(reply@, 0, n as int), e)
                    || kernel_status_fault(clamped(reply@, 0, n as int), e)),
            },
        },
{
    if let Err(e) = opened {
        return Err(Error::Other(labelled("mpt3ctl open: ", e.as_str())));
    }
    let n: usize = match sent {
        Ok(n) => n,
        Err(e) => {
            return Err(Error::Other(labelled("mpt3ctl IOC_FACTS: ", e.as_str())));
        },
    };
    let frame = clamped_slice(reply, 0, n);
    match IocFactsReply::parse(frame) {
        Err(e) => {
            let err = Error::Other(labelled("IOC_FACTS reply parse: ", e.text().as_str()));
            assert(IocFactsReply::parsed_from(frame@, Err(e)));
            Err(err)
        },
        Ok(v) => {
            if v.ioc_status != IocStatus::Success {
                let err = Error::Other(labelled("IOC_FACTS non-Success: ", v.ioc_status.name()));
                assert(IocFactsReply::parsed_from(frame@, Ok(v)));
                return Err(err);
            }
            Ok(v)
        },
    }
}

/// Whether `e` says that the frame is malformed.
pub open spec fn kernel_parse_fault(frame: Seq<u8>, e: Error) -> bool {
    e matches Error::Other(t) && exists|x: MpiError| #[trigger]
        IocFactsReply::parsed_from(frame, Err(x)) && t@ == "IOC_FACTS reply parse: "@
            + x.spec_text()
}

/// Whether `e` says that the controller refused.
pub open spec fn kernel_status_fault(frame: Seq<u8>, e: Error) -> bool {
    e matches Error::Other(t) && exists|v: IocFactsReply| #[trigger]
        IocFactsReply::parsed_from(frame, Ok(v)) && v.ioc_status != IocStatus::Success && t@
            == "IOC_FACTS non-Success: "@ + v.ioc_status.spec_name()
}

// ------------------------------------------------------------- the search

/// The request for the first page of the manufacturer.
pub open spec fn mfg_request(req: ConfigRequest) -> bool {
    &&& req.action == 0x06
    &&& req.sgl_flags == 0xC0
    &&& req.page_type == 0x09
    &&& req.page_number == 0x00
    &&& req.ext_page_type is None
    &&& req.payload_buffer@ == zeros(256)
    &&& req.page_address == 0
}

fn build_mfg_request() -> (r: ConfigRequest)
    ensures
        mfg_request(r),
{
    let mut payload_buffer: Vec<u8> = Vec::new();
    push_zeros(&mut payload_buffer, 256);
    assert(payload_buffer@ =~= zeros(256));
    ConfigRequest {
        action: 0x06,
        sgl_flags: 0xC0,
        page_type: 0x09,
        page_number: 0x00,
        ext_page_type: None,
        payload_buffer,
        page_address: 0,
    }
}

/// Where asking an adapter stands.
pub enum FetchState {
    /// The driver of the kernel is asked.
    Kernel,
    /// The name of the driver is looked up.
    Driver,
    /// The registers are being mapped.
    Opening,
    /// The controller is asked what it is.
    Facts,
    /// The page of the manufacturer is being read.
    Page(IocFactsReply),
    /// Asking is over.
    Closed,
}

/// What happens while an adapter is asked.
pub enum FetchEvent {
    /// What the driver of the kernel gave.
    Kernel(Result<IocFactsReply, Error>),
    /// Where the link to the driver points, where there is one.
    Driver(Option<String>),
    /// How mapping the registers ended.
    Opened(Result<(), MpiError>),
    /// What the controller said.
    Facts(Result<IocFactsReply, MpiError>),
    /// What came of the page request, and the page.
    Page { reply: Result<ConfigReply, MpiError>, page: Vec<u8> },
}

/// What asking an adapter needs next.
pub enum FetchAction {
    /// Look up the name of the driver.
    ReadDriver,
    /// Map the registers.
    Open,
    /// Ask the controller what it is.
    AskFacts,
    /// Read the page.
    AskPage(ConfigRequest),
    /// Asking is over.
    Finish(Result<IocFactsReply, Error>),
}

/// Whether a text has another in it.
pub open spec fn contains_text(s: Seq<char>, t: Seq<char>) -> bool {
    exists|i: int| 0 <= i <= s.len() && #[trigger] has_prefix(s.skip(i), t)
}

fn has_text(s: &str, t: &str) -> (r: bool)
    ensures
        r == contains_text(s@, t@),
{
    let chars = chars_of(s);
    let len: usize = chars.len();
    let mut i: usize = 0;
    while i < len
        invariant
            len == chars@.len(),
            chars@ == s@,
            i <= len,
            forall|k: int| 0 <= k < i ==> !#[trigger] has_prefix(s@.skip(k), t@),
        decreases len - i,
    {
        assert(chars@.subrange(i as int, len as int) =~= s@.skip(i as int));
        if starts_with(&chars[i..len], t) {
            return true;
        }
        i += 1;
    }
    assert(chars@.subrange(len as int, len as int) =~= s@.skip(len as int));
    starts_with(&chars[len..len], t)
}

/// The error when the driver of the kernel holds the adapter but does not answer.
pub open spec fn bound_text(bdf: Seq<char>) -> Seq<char> {
    "card bound to mpt3sas and /dev/mpt2ctl ioctl path failed — `sudo sh -c 'echo "@ + bdf
        + " > /sys/bus/pci/drivers/mpt3sas/unbind'` to free BAR1 for direct doorbell"@
}

/// Whether an event is one that is waited for.
pub open spec fn fetch_awaits(s: FetchState, e: FetchEvent) -> bool {
    match s {
        FetchState::Kernel => e is Kernel,
        FetchState::Driver => e is Driver,
        FetchState::Opening => e is Opened,
        FetchState::Facts => e is Facts,
        FetchState::Page(_) => e matches FetchEvent::Page { reply, page } && mfg_page_fits(page@),
        FetchState::Closed => false,
    }
}

/// Whether a step is the right one: the driver of the kernel comes first; while
/// it holds the adapter nothing else may touch the registers; without the page
/// what the controller said still counts.
pub open spec fn fetch_step(
    bdf: Seq<char>,
    s: FetchState,
    e: FetchEvent,
    t: FetchState,
    a: FetchAction,
) -> bool {
    match (s, e) {
        (FetchState::Kernel, FetchEvent::Kernel(Ok(v))) => t is Closed && a == FetchAction::Finish(
            Ok(v),
        ),
        (FetchState::Kernel, FetchEvent::Kernel(Err(_))) => t is Driver && a is ReadDriver,
        (FetchState::Driver, FetchEvent::Driver(Some(link))) => if contains_text(
            link@,
            "mpt3sas"@,
        ) {
            t is Closed && (a matches FetchAction::Finish(Err(Error::Other(x))) && x@ == bound_text(
                bdf,
            ))
        } else {
            t is Opening && a is Open
        },
        (FetchState::Driver, FetchEvent::Driver(None)) => t is Opening && a is Open,
        (FetchState::Opening, FetchEvent::Opened(Ok(_))) => t is Facts && a is AskFacts,
        (FetchState::Opening, FetchEvent::Opened(Err(x))) => t is Closed && (a matches
            FetchAction::Finish(Err(Error::Other(y))) && y@ == "RealIoc::open failed: "@
            + x.spec_text()),
        (FetchState::Facts, FetchEvent::Facts(Ok(v))) => t == FetchState::Page(v) && (a matches
            FetchAction::AskPage(req) && mfg_request(req)),
        (FetchState::Facts, FetchEvent::Facts(Err(x))) => t is Closed && (a matches
            FetchAction::Finish(Err(Error::Other(y))) && y@ == "IOC_FACTS query failed: "@
            + x.spec_text()),
        (FetchState::Page(v), FetchEvent::Page { reply, page }) => t is Closed && if reply matches
            Ok(c) && c.ioc_status == IocStatus::Success {
            a matches FetchAction::Finish(Ok(w)) && with_mfg_page(v, page@, w)
        } else {
            a == FetchAction::Finish(Ok(v))
        },
        _ => true,
    }
}

/// One step of asking the adapter at `bdf` what it is.
pub fn try_fetch_mpi_fields(bdf: &str, state: FetchState, event: FetchEvent) -> (r: (
    FetchState,
    FetchAction,
))
    requires
        fetch_awaits(state, event),
    ensures
        fetch_step(bdf@, state, event, r.0, r.1),
{
    match (state, event) {
        (FetchState::Kernel, FetchEvent::Kernel(Ok(v))) => (
            FetchState::Closed,
            FetchAction::Finish(Ok(v)),
        ),
        (FetchState::Kernel, _) => (FetchState::Driver, FetchAction::ReadDriver),
        (FetchState::Driver, FetchEvent::Driver(Some(link))) => {
            if has_text(link.as_str(), "mpt3sas") {
                let mut t = labelled(
                    "card bound to mpt3sas and /dev/mpt2ctl ioctl path failed — `sudo sh -c 'echo ",
                    bdf,
                );
                t.append(
                    " > /sys/bus/pci/drivers/mpt3sas/unbind'` to free BAR1 for direct doorbell",
                );
                (FetchState::Closed, FetchAction::Finish(Err(Error::Other(t))))
            } else {
                (FetchState::Opening, FetchAction::Open)
            }
        },
        (FetchState::Driver, _) => (FetchState::Opening, FetchAction::Open),
        (FetchState::Opening, FetchEvent::Opened(Err(e))) => (
            FetchState::Closed,
            FetchAction::Finish(
                Err(Error::Other(labelled("RealIoc::open failed: ", e.text().as_str()))),
            ),
        ),
        (FetchState::Opening, _) => (FetchState::Facts, FetchAction::AskFacts),
        (FetchState::Facts, FetchEvent::Facts(Ok(v))) => (
            FetchState::Page(v),
            FetchAction::AskPage(build_mfg_request()),
        ),
        (FetchState::Facts, FetchEvent::Facts(Err(e))) => (
            FetchState::Closed,
            FetchAction::Finish(
                Err(Error::Other(labelled("IOC_FACTS query failed: ", e.text().as_str()))),
            ),
        ),
        (FetchState::Page(v), FetchEvent::Page { reply, page }) => {
            let mut v = v;
            if let Ok(c) = reply {
                if c.ioc_status == IocStatus::Success {
                    parse_mfg_page_0(page.as_slice(), &mut v);
                }
            }
            (FetchState::Closed, FetchAction::Finish(Ok(v)))
        },
        _ => (FetchState::Closed, FetchAction::ReadDriver),
    }
}

/// While the driver of the kernel holds an adapter whose kernel way failed,
/// neither its registers are mapped nor any message sent.
pub proof fn bound_adapter_is_left_alone(
    bdf: Seq<char>,
    link: String,
    t: FetchState,
    a: FetchAction,
)
    requires
        contains_text(link@, "mpt3sas"@),
        fetch_step(bdf, FetchState::Driver, FetchEvent::Driver(Some(link)), t, a),
    ensures
        t is Closed,
        a matches FetchAction::Finish(r) && r is Err,
{
}

/// How far asking an adapter is from its end.
pub open spec fn fetch_steps_left(s: FetchState) -> int {
    match s {
        FetchState::Kernel => 5,
        FetchState::Driver => 4,
        FetchState::Opening => 3,
        FetchState::Facts => 2,
        FetchState::Page(_) => 1,
        FetchState::Closed => 0,
    }
}

/// Asking an adapter comes nearer to its end with every step, and ends exactly where it
/// says what came of it.
pub proof fn asking_ends(
    bdf: Seq<char>,
    s: FetchState,
    e: FetchEvent,
    t: FetchState,
    a: FetchAction,
)
    requires
        fetch_awaits(s, e),
        fetch_step(bdf, s, e, t, a),
    ensures
        0 <= fetch_steps_left(t) < fetch_steps_left(s),
        t is Closed <==> a is Finish,
{
}

// ----------------------------------------------------------------- report

/// What is said of a device, apart from what the controller says.
pub open spec fn device_text(
    n: nat,
    name: Seq<char>,
    dev: PciDevice,
    sas2008: bool,
    tamper_check: bool,
) -> Seq<Seq<char>> {
    seq![
        "Device "@ + dec(n) + ": "@ + name,
        "  BDF: "@ + dev.bdf@,
        "  Vendor ID: 0x"@ + hex_pad(dev.vendor_id as nat, 4, false),
        "  Device ID: 0x"@ + hex_pad(dev.device_id as nat, 4, false),
        "  Subsystem Vendor ID: 0x"@ + hex_pad(dev.subsystem_vendor_id as nat, 4, false),
        "  Subsystem Device ID: 0x"@ + hex_pad(dev.subsystem_device_id as nat, 4, false),
        if sas2008 {
            "  Chip Family: SAS2008"@
        } else {
            "  Chip Family: Unknown"@
        },
    ] + if tamper_check {
        seq![
            "  Quirks: Dell tamper-check required (use megarec -cleanflash or lsirec HCB path)"@,
        ]
    } else {
        Seq::empty()
    }
}

fn id_line(label: &str, id: u16) -> (r: String)
    ensures
        r@ == label@ + hex_pad(id as nat, 4, false),
{
    let mut t = label.to_owned();
    push_hex_pad(&mut t, id as u64, 4, false);
    t
}

/// Says what a device is, line by line.
pub fn describe_device(
    n: usize,
    name: &str,
    dev: &PciDevice,
    sas2008: bool,
    tamper_check: bool,
) -> (r: Vec<String>)
    ensures
        strings(r@) == device_text(n as nat, name@, *dev, sas2008, tamper_check),
{
    let mut v: Vec<String> = Vec::new();
    let mut head = "Device ".to_owned();
    push_dec(&mut head, n as u64);
    head.append(": ");
    head.append(name);
    v.push(head);
    v.push(labelled("  BDF: ", dev.bdf.as_str()));
    v.push(id_line("  Vendor ID: 0x", dev.vendor_id));
    v.push(id_line("  Device ID: 0x", dev.device_id));
    v.push(id_line("  Subsystem Vendor ID: 0x", dev.subsystem_vendor_id));
    v.push(id_line("  Subsystem Device ID: 0x", dev.subsystem_device_id));
    v.push(
        if sas2008 {
            "  Chip Family: SAS2008".to_owned()
        } else {
            "  Chip Family: Unknown".to_owned()
        },
    );
    if tamper_check {
        v.push(
            "  Quirks: Dell tamper-check required (use megarec -cleanflash or lsirec HCB path)".to_owned(),
        );
    }
    assert(strings(v@) =~= device_text(n as nat, name@, *dev, sas2008, tamper_check));
    v
}

/// Says what the controller said of itself, or why it said nothing.
pub fn describe_facts(outcome: &Result<IocFactsReply, Error>) -> (r: Vec<String>)
    ensures
        match outcome {
            Ok(v) => strings(r@) == v.info_lines(),
            Err(e) => strings(r@) == seq!["  MPI extended fields unavailable: "@ + e.spec_text()],
        },
{
    match outcome {
        Ok(v) => v.to_info_lines(),
        Err(e) => {
            let mut v: Vec<String> = Vec::new();
            v.push(labelled("  MPI extended fields unavailable: ", e.text().as_str()));
            assert(strings(v@) =~= seq!["  MPI extended fields unavailable: "@ + e.spec_text()]);
            v
        },
    }
}

/// The page of the manufacturer gives each name from a place of its own. Where the length
/// in the header reaches far enough, the vendor is the 16-bit number at 8, the version the
/// 32-bit number at 24, the product the text of the bytes at 10, the firmware's product the
/// text of the bytes at 40, and the board and its serial number the texts of the bytes at
/// 0x38 and at 0x48, unless those are empty.
pub proof fn page_names_are_in_place(before: IocFactsReply, page: Seq<u8>, after: IocFactsReply)
    requires
        page.len() >= 0x50,
        page[2] == 0,
        page[3] == 9,
        with_mfg_page(before, page, after),
    ensures
        page[1] >= 16 ==> after.nvdata_vendor_id == Some((page[8] + 256 * page[9]) as u16),
        page[1] >= 20 ==> opt_text(after.nvdata_product_id) == Some(
            nul_text(Seq::new(10, |i: int| page[10 + i])),
        ),
        page[1] >= 32 ==> after.nvdata_version == Some(
            (page[24] + 256 * page[25] + 65536 * page[26] + 16777216 * page[27]) as u32,
        ),
        page[1] >= 48 ==> opt_text(after.firmware_product_id) == Some(
            nul_text(Seq::new(16, |i: int| page[40 + i])),
        ),
        page[1] >= 60 && nul_text(Seq::new(16, |i: int| page[0x38 + i])).len() > 0 ==> opt_text(
            after.board_name,
        ) == Some(nul_text(Seq::new(16, |i: int| page[0x38 + i]))),
        page[1] >= 72 && nul_text(Seq::new(8, |i: int| page[0x48 + i])).len() > 0 ==> opt_text(
            after.board_tracer,
        ) == Some(nul_text(Seq::new(8, |i: int| page[0x48 + i]))),
{
    assert(page.subrange(10, 20) =~= Seq::new(10, |i: int| page[10 + i]));
    assert(page.subrange(40, 56) =~= Seq::new(16, |i: int| page[40 + i]));
    assert(page.subrange(56, 72) =~= Seq::new(16, |i: int| page[0x38 + i]));
    assert(page.subrange(72, 80) =~= Seq::new(8, |i: int| page[0x48 + i]));
}

/// A field of the page that is empty, or that the header says is not there, leaves what was
/// known before; so does any page that is not the first of the manufacturer.
pub proof fn missing_names_are_kept(before: IocFactsReply, page: Seq<u8>, after: IocFactsReply)
    requires
        with_mfg_page(before, page, after),
    ensures
        page.len() < 64 || page[2] != 0 || page[3] != 9 ==> after == before,
        page[1] < 16 ==> after.nvdata_vendor_id == before.nvdata_vendor_id,
        page[1] < 20 ==> opt_text(after.nvdata_product_id) == opt_text(before.nvdata_product_id),
        page[1] < 32 ==> after.nvdata_version == before.nvdata_version,
        page[1] < 48 ==> opt_text(after.firmware_product_id) == opt_text(
            before.firmware_product_id,
        ),
        page[1] < 60 ==> opt_text(after.board_name) == opt_text(before.board_name),
        page[1] < 72 ==> opt_text(after.board_tracer) == opt_text(before.board_tracer),
        page.len() >= 0x48 && nul_text(Seq::new(16, |i: int| page[0x38 + i])).len() == 0
            ==> opt_text(after.board_name) == opt_text(before.board_name),
        page.len() >= 0x50 && nul_text(Seq::new(8, |i: int| page[0x48 + i])).len() == 0 ==> opt_text(
            after.board_tracer,
        ) == opt_text(before.board_tracer),
        after.fw_version == before.fw_version,
        after.product_id == before.product_id,
        after.ioc_status == before.ioc_status,
{
    if page.len() >= 0x48 {
        assert(page.subrange(56, 72) =~= Seq::new(16, |i: int| page[0x38 + i]));
    }
    if page.len() >= 0x50 {
        assert(page.subrange(72, 80) =~= Seq::new(8, |i: int| page[0x48 + i]));
    }
}

/// The name of the board rests on its own bytes alone: two pages with the same header that
/// differ only outside of 0x38 to 0x48 give the same name.
pub proof fn board_name_rests_on_its_bytes(
    before: IocFactsReply,
    page: Seq<u8>,
    after: IocFactsReply,
    other: Seq<u8>,
    other_after: IocFactsReply,
)
    requires
        page.len() >= 0x48,
        other.len() >= 0x48,
        forall|i: int| 0 <= i < 4 ==> page[i] == other[i],
        forall|i: int| 0x38 <= i < 0x48 ==> page[i] == other[i],
        with_mfg_page(before, page, after),
        with_mfg_page(before, other, other_after),
    ensures
        opt_text(after.board_name) == opt_text(other_after.board_name),
{
    assert(page.subrange(56, 72) =~= other.subrange(56, 72));
}

/// Asking an adapter goes on in one order: the driver of the kernel, the name of the driver, the
/// registers, the controller and the page. What the driver of the kernel told is the answer;
/// what the controller told stays the answer where the page is not to be had; and every other
/// failure is told.
pub proof fn asking_goes_in_order(
    bdf: Seq<char>,
    s: FetchState,
    e: FetchEvent,
    t: FetchState,
    a: FetchAction,
)
    requires
        fetch_awaits(s, e),
        fetch_step(bdf, s, e, t, a),
    ensures
        match e {
            FetchEvent::Kernel(Ok(v)) => a == FetchAction::Finish(Ok(v)),
            FetchEvent::Kernel(Err(_)) => a is ReadDriver && t is Driver,
            FetchEvent::Driver(None) => a is Open && t is Opening,
            FetchEvent::Driver(Some(_)) => a is Open && t is Opening || (a matches
                FetchAction::Finish(r) && r is Err),
            FetchEvent::Opened(Ok(_)) => a is AskFacts && t is Facts,
            FetchEvent::Opened(Err(_)) => a matches FetchAction::Finish(r) && r is Err,
            FetchEvent::Facts(Ok(v)) => a is AskPage && t == FetchState::Page(v),
            FetchEvent::Facts(Err(_)) => a matches FetchAction::Finish(r) && r is Err,
            FetchEvent::Page { reply, page } => (a matches FetchAction::Finish(r) && r is Ok) && (
            reply is Err ==> s == FetchState::Page((a->Finish_0)->Ok_0)),
        },
{
}

/// The page that is asked for is the first of the manufacturer: on the wire the request has the
/// action six at 0, the number zero at 0x16, the type nine at 0x17, and room for 256 bytes.
pub proof fn first_page_is_asked_for(req: ConfigRequest)
    requires
        mfg_request(req),
    ensures
        req.wire()[0] == 6,
        req.wire()[3] == 4,
        req.wire()[6] == 0,
        req.wire()[0x15] == 64,
        req.wire()[0x16] == 0,
        req.wire()[0x17] == 9,
        req.payload_buffer@.len() == 256,
{
    page_fields_are_in_place(req);
}

/// The driver of the kernel is known by its name wherever that stands in the link.
pub proof fn driver_is_known_by_name(a: Seq<char>, b: Seq<char>)
    ensures
        contains_text(a + seq!['m', 'p', 't', '3', 's', 'a', 's'] + b, "mpt3sas"@),
{
    reveal_strlit("mpt3sas");
    let s = a + seq!['m', 'p', 't', '3', 's', 'a', 's'] + b;
    let n = a.len() as int;
    assert(s.skip(n).take(7) =~= "mpt3sas"@);
    assert(has_prefix(s.skip(n), "mpt3sas"@));
}

/// A page of eighty bytes has all that is looked at, whatever its header says, and so has one
/// that says nothing of the names; other pages are not looked at.
pub proof fn long_page_has_its_names(page: Seq<u8>)
    ensures
        page.len() >= 80 ==> mfg_page_fits(page),
        page.len() >= 72 && page[1] < 72 ==> mfg_page_fits(page),
        page.len() >= 64 && page[1] < 60 ==> mfg_page_fits(page),
        page.len() < 64 || page[2] != 0 || page[3] != 9 ==> mfg_page_fits(page),
{
}

} // verus!
