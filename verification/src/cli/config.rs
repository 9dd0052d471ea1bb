//! Reading configuration pages.

use crate::bytes::push_zeros;
use crate::bytes::{le32_round_trip, u16_at, u32_at, zeros};
use crate::digest::{hex_bytes, hex_decode, hex_encode, hex_round_trip, hex_text};
use crate::error::Error;
use crate::mpi::ioc_status::status_numbers;
use crate::mpi::messages::{ConfigRequest, IocStatus};
use crate::mpi::replies::{reply_status, ConfigReply};
use crate::text::{
    chars_of, dec, digit, has_prefix, hex_pad, hex_pad_is_plain, hexadecimal_round_trip, labelled,
    number_result, push_dec, push_hex_pad, read_number, same_text, starts_with,
};
use vstd::prelude::*;
use vstd::utf8::encode_utf8;

verus! {

/// What to read.
#[derive(Debug)]
pub struct ConfigReadArgs {
    /// The type of the page, by name or number.
    pub page_type: String,
    /// The number of the page within its type.
    pub page_number: u8,
    /// The type of an extended page.
    pub ext_page_type: Option<String>,
    /// Selects the object that an addressed page describes.
    pub page_address: String,
    /// Whether to write JSON.
    pub json: bool,
}

/// How to list all pages.
#[derive(Debug)]
pub struct ConfigDumpArgs {
    /// Whether to write JSON.
    pub json: bool,
}

/// What to do with pages.
#[derive(Debug)]
pub enum ConfigSubCommand {
    /// Read one page.
    Read(ConfigReadArgs),
    /// List all pages.
    Dump(ConfigDumpArgs),
}

/// A page that was read.
#[derive(Debug)]
pub struct ConfigPageRead {
    /// The type of the page.
    pub page_type: u8,
    /// The number of the page.
    pub page_number: u8,
    /// The version of its layout.
    pub page_version: Option<u8>,
    /// Its length in words.
    pub page_length: Option<u8>,
    /// The type of an extended page.
    pub ext_page_type: Option<u8>,
    /// Its bytes in hexadecimal.
    pub bytes_hex: String,
}

/// An entry of the list of all pages.
#[derive(Debug)]
pub struct ConfigDumpEntry {
    pub page_type: u8,
    pub page_number: u8,
    pub length: u8,
    pub ext_page_type: Option<u8>,
    pub bytes_hex: Option<String>,
}

// ------------------------------------------------------------------ names

/// A character in lower case, as far as names can hold it. The sign for the
/// kelvin is the one character outside of ASCII that becomes an ASCII letter.
pub open spec fn lower(c: char) -> char {
    if 'A' <= c <= 'Z' {
        (c as u32 + 32) as char
    } else if c == '\u{212A}' {
        'k'
    } else {
        c
    }
}

/// A text in lower case, as far as names can hold it.
pub open spec fn lowered(s: Seq<char>) -> Seq<char> {
    s.map_values(|c: char| lower(c))
}

/// A text in lower case, as far as names can hold it.
pub fn lower_text(s: &str) -> (r: String)
    ensures
        r@ == lowered(s@),
{
    let chars = chars_of(s);
    let mut out = String::new();
    let mut i: usize = 0;
    while i < chars.len()
        invariant
            i <= chars@.len(),
            chars@ == s@,
            out@ == lowered(s@).take(i as int),
        decreases chars@.len() - i,
    {
        let c: char = chars[i];
        let l: char = if 'A' <= c && c <= 'Z' {
            (c as u8 + 32) as char
        } else if c == '\u{212A}' {
            'k'
        } else {
            c
        };
        out.push(l);
        i += 1;
        assert(out@ =~= lowered(s@).take(i as int));
    }
    assert(lowered(s@).take(i as int) =~= lowered(s@));
    out
}

/// The number behind `0x` in `s`, where it fits into a byte.
pub open spec fn hex_byte(s: Seq<char>) -> Option<u8> {
    match number_result(s.skip(2), 16, 0xFF) {
        Ok(v) => Some(v as u8),
        Err(_) => None,
    }
}

/// The type of page that `s` names, or what is wrong with it.
pub open spec fn page_type_of(s: Seq<char>) -> Result<u8, Seq<char>> {
    let l = lowered(s);
    if l == "io-unit"@ || l == "0x00"@ {
        Ok(0x00)
    } else if l == "ioc"@ || l == "0x01"@ {
        Ok(0x01)
    } else if l == "bios"@ || l == "0x02"@ {
        Ok(0x02)
    } else if l == "raid-volume"@ || l == "0x08"@ {
        Ok(0x08)
    } else if l == "manufacturing"@ || l == "mfg"@ || l == "0x09"@ {
        Ok(0x09)
    } else if l == "raid-phys-disk"@ || l == "raid-pdisk"@ {
        Ok(0x0A)
    } else if l == "extended"@ || l == "ext"@ {
        Ok(0x0F)
    } else if has_prefix(s, "0x"@) {
        match hex_byte(s) {
            Some(v) => Ok(v),
            None => Err("Invalid hex page type: "@ + s),
        }
    } else {
        Err(
            "Unknown page type '"@ + s
                + "'. Use: manufacturing(0x09), io-unit(0x00), ioc(0x01)"@,
        )
    }
}

/// The type of extended page that `s` names, or what is wrong with it.
pub open spec fn ext_page_type_of(s: Seq<char>) -> Result<u8, Seq<char>> {
    let l = lowered(s);
    if l == "sas-io-unit"@ || l == "0x10"@ {
        Ok(0x10)
    } else if l == "sas-device"@ || l == "0x12"@ {
        Ok(0x12)
    } else if l == "sas-phy"@ || l == "0x13"@ {
        Ok(0x13)
    } else if l == "flash-layout"@ || l == "log"@ || l == "0x14"@ {
        Ok(0x14)
    } else if has_prefix(s, "0x"@) {
        match hex_byte(s) {
            Some(v) => Ok(v),
            None => Err("Invalid hex ext page type: "@ + s),
        }
    } else {
        Err(
            "Unknown extended page type '"@ + s
                + "'. Use: sas-io-unit(0x10), sas-device(0x12)"@,
        )
    }
}

/// Whether `r` is the result `m`.
pub open spec fn byte_result(r: Result<u8, String>, m: Result<u8, Seq<char>>) -> bool {
    match m {
        Ok(v) => r == Ok::<u8, String>(v),
        Err(t) => r matches Err(e) && e@ == t,
    }
}

fn is_any(l: &str, a: &str, b: &str, c: &str) -> (r: bool)
    ensures
        r == (l@ == a@ || l@ == b@ || l@ == c@),
{
    same_text(l, a) || same_text(l, b) || same_text(l, c)
}

fn hex_byte_of(s: &str) -> (r: Option<u8>)
    requires
        s@.len() >= 2,
    ensures
        r == hex_byte(s@),
{
    let chars = chars_of(s);
    assert(chars@.subrange(2, chars@.len() as int) =~= chars@.skip(2));
    match read_number(&chars[2..chars.len()], 16, 0xFF) {
        Ok(v) => {
            proof {
                scan_fits(crate::text::without_plus(s@.skip(2)));
            }
            Some(v as u8)
        },
        Err(_) => None,
    }
}

proof fn scan_fits(s: Seq<char>)
    ensures
        crate::text::scanned(s, 16, 0xFF) matches Ok(v) ==> v <= 0xFF,
{
}

fn prefixed(s: &str) -> (r: bool)
    ensures
        r == has_prefix(s@, "0x"@),
        r ==> s@.len() >= 2,
{
    proof {
        reveal_strlit("0x");
    }
    let chars = chars_of(s);
    starts_with(chars.as_slice(), "0x")
}

/// The type of page that `s` names.
pub fn page_type_from_str(s: &str) -> (r: Result<u8, String>)
    ensures
        byte_result(r, page_type_of(s@)),
{
    let low = lower_text(s);
    let l = low.as_str();
    if is_any(l, "io-unit", "0x00", "0x00") {
        return Ok(0x00);
    }
    if is_any(l, "ioc", "0x01", "0x01") {
        return Ok(0x01);
    }
    if is_any(l, "bios", "0x02", "0x02") {
        return Ok(0x02);
    }
    if is_any(l, "raid-volume", "0x08", "0x08") {
        return Ok(0x08);
    }
    if is_any(l, "manufacturing", "mfg", "0x09") {
        return Ok(0x09);
    }
    if is_any(l, "raid-phys-disk", "raid-pdisk", "raid-pdisk") {
        return Ok(0x0A);
    }
    if is_any(l, "extended", "ext", "ext") {
        return Ok(0x0F);
    }
    if prefixed(s) {
        match hex_byte_of(s) {
            Some(v) => Ok(v),
            None => Err(labelled("Invalid hex page type: ", s)),
        }
    } else {
        let mut t = labelled("Unknown page type '", s);
        t.append("'. Use: manufacturing(0x09), io-unit(0x00), ioc(0x01)");
        Err(t)
    }
}

/// The type of extended page that `s` names.
pub fn ext_page_type_from_str(s: &str) -> (r: Result<u8, String>)
    ensures
        byte_result(r, ext_page_type_of(s@)),
{
    let low = lower_text(s);
    let l = low.as_str();
    if is_any(l, "sas-io-unit", "0x10", "0x10") {
        return Ok(0x10);
    }
    if is_any(l, "sas-device", "0x12", "0x12") {
        return Ok(0x12);
    }
    if is_any(l, "sas-phy", "0x13", "0x13") {
        return Ok(0x13);
    }
    if is_any(l, "flash-layout", "log", "0x14") {
        return Ok(0x14);
    }
    if prefixed(s) {
        match hex_byte_of(s) {
            Some(v) => Ok(v),
            None => Err(labelled("Invalid hex ext page type: ", s)),
        }
    } else {
        let mut t = labelled("Unknown extended page type '", s);
        t.append("'. Use: sas-io-unit(0x10), sas-device(0x12)");
        Err(t)
    }
}

/// The name of a type of page.
pub open spec fn name_of_type(pt: u8) -> Seq<char> {
    if pt == 0x00 {
        "IO Unit"@
    } else if pt == 0x01 {
        "IOC"@
    } else if pt == 0x02 {
        "BIOS"@
    } else if pt == 0x08 {
        "RAID Volume"@
    } else if pt == 0x09 {
        "Manufacturing"@
    } else if pt == 0x0A {
        "RAID PhysDisk"@
    } else if pt == 0x0F {
        "Extended"@
    } else {
        "Unknown"@
    }
}

/// The name of a type of page.
pub fn page_type_name(pt: u8) -> (r: &'static str)
    ensures
        r@ == name_of_type(pt),
{
    match pt {
        0x00 => "IO Unit",
        0x01 => "IOC",
        0x02 => "BIOS",
        0x08 => "RAID Volume",
        0x09 => "Manufacturing",
        0x0A => "RAID PhysDisk",
        0x0F => "Extended",
        _ => "Unknown",
    }
}

// ----------------------------------------------------------------- header

/// The header of a page.
#[derive(Debug)]
pub struct PageHeader {
    /// The version of the layout.
    pub version: u8,
    /// The length in words.
    pub length: u8,
    /// The number of the page.
    pub number: u8,
    /// The type of the page.
    pub type_: u8,
}

impl PageHeader {
    /// The header in four bytes.
    pub open spec fn of(b: Seq<u8>) -> PageHeader {
        PageHeader { version: b[0], length: b[1], number: b[2], type_: b[3] }
    }

    /// Reads a header.
    pub fn parse(bytes: &[u8]) -> (r: Self)
        requires
            bytes@.len() >= 4,
        ensures
            r == PageHeader::of(bytes@),
    {
        PageHeader { version: bytes[0], length: bytes[1], number: bytes[2], type_: bytes[3] }
    }
}

// ------------------------------------------------------------------- read

/// Which page to read.
#[derive(Debug, Clone, Copy)]
pub struct PageQuery {
    /// The type of the page.
    pub page_type: u8,
    /// The number of the page.
    pub page_number: u8,
    /// The type of an extended page.
    pub ext_page_type: Option<u8>,
    /// Selects the object that an addressed page describes.
    pub page_address: u32,
}

/// The message for an action on a page, with a buffer of `len` bytes.
pub open spec fn query_wire(q: PageQuery, action: u8, len: nat) -> Seq<u8> {
    seq![action, 0xC0u8, 0u8, 0x04u8, 0u8, 0u8] + seq![
        match q.ext_page_type {
            Some(t) => t,
            None => 0u8,
        },
    ] + zeros(13) + seq![0u8, (len as usize / 4) as u8, q.page_number, q.page_type]
        + crate::bytes::le32(q.page_address) + zeros(16)
}

fn build_query(q: &PageQuery, action: u8, len: usize, smid: u16) -> (r: Vec<u8>)
    ensures
        r@ == query_wire(*q, action, len as nat),
{
    let mut payload_buffer: Vec<u8> = Vec::new();
    push_zeros(&mut payload_buffer, len);
    let req = ConfigRequest {
        action,
        sgl_flags: 0xC0,
        page_type: q.page_type,
        page_number: q.page_number,
        ext_page_type: q.ext_page_type,
        payload_buffer,
        page_address: q.page_address,
    };
    req.serialize_to(smid)
}

/// What is wrong with the reply of a controller to `step`, where something is.
pub open spec fn reply_fault(
    step: Seq<char>,
    what: Seq<char>,
    sent: Result<(), Seq<char>>,
    reply: Seq<u8>,
) -> Option<Seq<char>> {
    match sent {
        Err(e) => Some("send "@ + step + " failed: "@ + e),
        Ok(_) => if reply.len() < 26 {
            Some(
                "CONFIG "@ + what + " parse failed: "@
                    + crate::mpi::messages::MpiError::MalformedReply {
                    function: crate::mpi::messages::MpiFunction::Config,
                    got: reply.len() as usize,
                    need: 26,
                }.spec_text(),
            )
        } else {
            match reply_status(reply) {
                None => Some(
                    "CONFIG "@ + what + " parse failed: "@
                        + crate::mpi::messages::MpiError::UnknownIocStatus(
                        u16_at(reply, 14),
                    ).spec_text(),
                ),
                Some(s) => if s != IocStatus::Success {
                    Some(
                        step + " failed with IOCStatus="@ + s.spec_name()
                            + " (page may not exist)"@,
                    )
                } else {
                    None
                },
            }
        },
    }
}

/// The text behind the outcome of sending.
pub open spec fn sent_text(r: Result<(), String>) -> Result<(), Seq<char>> {
    match r {
        Ok(_) => Ok(()),
        Err(e) => Err(e@),
    }
}

fn judge_reply(step: &str, what: &str, sent: Result<(), String>, reply: &[u8]) -> (r: Result<
    [u8; 4],
    String,
>)
    ensures
        match reply_fault(step@, what@, sent_text(sent), reply@) {
            Some(t) => r matches Err(e) && e@ == t,
            None => r matches Ok(h) && h@ == reply@.subrange(20, 24),
        },
{
    if let Err(e) = sent {
        let mut t = labelled("send ", step);
        t.append(" failed: ");
        t.append(e.as_str());
        return Err(t);
    }
    match ConfigReply::parse(reply) {
        Err(e) => {
            let mut t = labelled("CONFIG ", what);
            t.append(" parse failed: ");
            t.append(e.text().as_str());
            Err(t)
        },
        Ok(v) => {
            if v.ioc_status != IocStatus::Success {
                let mut t = labelled(step, " failed with IOCStatus=");
                t.append(v.ioc_status.name());
                t.append(" (page may not exist)");
                return Err(t);
            }
            Ok(v.page_header)
        },
    }
}

/// The header in the reply to the first request, or what is wrong.
pub open spec fn header_outcome(q: PageQuery, sent: Result<(), Seq<char>>, reply: Seq<u8>) -> Result<
    PageHeader,
    Seq<char>,
> {
    match reply_fault("PAGE_HEADER"@, "header"@, sent, reply) {
        Some(t) => Err(t),
        None => {
            let h = PageHeader::of(reply.subrange(20, 24));
            if h.type_ != q.page_type || h.number != q.page_number {
                Err(
                    "Page header mismatch: requested "@ + dec(q.page_type as nat) + "/"@ + dec(
                        q.page_number as nat,
                    ) + " got "@ + dec(h.type_ as nat) + "/"@ + dec(h.number as nat),
                )
            } else if h.length == 0 {
                Err("PageLength=0 from firmware"@)
            } else {
                Ok(h)
            }
        },
    }
}

/// Judges the reply to the first request: the header has to be of the page that
/// was asked for, and the page not empty.
pub fn judge_header(q: &PageQuery, sent: Result<(), String>, reply: &[u8]) -> (r: Result<
    PageHeader,
    String,
>)
    ensures
        match header_outcome(*q, sent_text(sent), reply@) {
            Ok(h) => r == Ok::<PageHeader, String>(h),
            Err(t) => r matches Err(e) && e@ == t,
        },
{
    let bytes = match judge_reply("PAGE_HEADER", "header", sent, reply) {
        Ok(h) => h,
        Err(e) => {
            return Err(e);
        },
    };
    let h = PageHeader::parse(bytes.as_slice());
    if h.type_ != q.page_type || h.number != q.page_number {
        let mut t = "Page header mismatch: requested ".to_owned();
        push_dec(&mut t, q.page_type as u64);
        t.append("/");
        push_dec(&mut t, q.page_number as u64);
        t.append(" got ");
        push_dec(&mut t, h.type_ as u64);
        t.append("/");
        push_dec(&mut t, h.number as u64);
        return Err(t);
    }
    if h.length == 0 {
        return Err("PageLength=0 from firmware".to_owned());
    }
    Ok(h)
}

/// Where reading a page stands.
#[derive(Debug)]
pub enum PageReadState {
    /// The header is being read.
    Header,
    /// The page is being read.
    Page(PageHeader),
    /// The page has been read, or not.
    Closed,
}

/// What a controller answered.
#[derive(Debug)]
pub struct PageReply {
    /// How sending ended.
    pub sent: Result<(), String>,
    /// The reply frame.
    pub reply: Vec<u8>,
    /// The buffer for the page.
    pub page: Vec<u8>,
}

/// What reading a page asks for.
#[derive(Debug)]
pub enum PageReadAction {
    /// Send `request`, with a buffer of `buffer` bytes for the page.
    Send { request: Vec<u8>, sge_words: u32, buffer: usize },
    /// Reading is over.
    Finish(Result<ConfigPageRead, String>),
}

/// What an answered request leads to.
pub enum PageReadNext {
    /// The page is read next.
    Send(Seq<u8>, u32, int),
    /// The page.
    Done(PageHeader, Seq<char>),
    /// What is wrong.
    Failed(Seq<char>),
}

/// Where the data element stands in a page request, in words: right behind the page
/// address.
pub const CONFIG_SGE_WORDS: u32 = 7;

/// What the answer leads to: first the header is read, then as much as the
/// header says.
pub open spec fn page_read_next(q: PageQuery, s: PageReadState, e: PageReply) -> PageReadNext {
    match s {
        PageReadState::Header => match header_outcome(q, sent_text(e.sent), e.reply@) {
            Err(t) => PageReadNext::Failed(t),
            Ok(h) => PageReadNext::Send(
                query_wire(q, 0x01, (h.length * 4) as nat),
                CONFIG_SGE_WORDS,
                h.length * 4,
            ),
        },
        PageReadState::Page(h) => match reply_fault(
            "READ_CURRENT"@,
            "read"@,
            sent_text(e.sent),
            e.reply@,
        ) {
            Some(t) => PageReadNext::Failed(t),
            None => PageReadNext::Done(h, hex_text(e.page@)),
        },
        PageReadState::Closed => PageReadNext::Failed(""@),
    }
}

/// Begins reading a page: the header is asked for.
pub fn read_begin(q: &PageQuery) -> (r: (PageReadState, PageReadAction))
    ensures
        r.0 is Header,
        r.1 matches PageReadAction::Send { request, sge_words, buffer } && request@ == query_wire(
            *q,
            0x00,
            4,
        ) && sge_words == CONFIG_SGE_WORDS && buffer == 0,
{
    (
        PageReadState::Header,
        PageReadAction::Send {
            request: build_query(q, 0x00, 4, 1),
            sge_words: CONFIG_SGE_WORDS,
            buffer: 0,
        },
    )
}

/// One step of reading a page.
pub fn read_config_page(q: &PageQuery, state: PageReadState, event: PageReply) -> (r: (
    PageReadState,
    PageReadAction,
))
    requires
        !(state is Closed),
    ensures
        match page_read_next(*q, state, event) {
            PageReadNext::Send(wire, words, n) => header_outcome(
                *q,
                sent_text(event.sent),
                event.reply@,
            ) == Ok::<PageHeader, Seq<char>>(r.0->Page_0) && r.0 is Page && (r.1 matches
                PageReadAction::Send { request, sge_words, buffer } && request@ == wire && sge_words
                == words && buffer == n),
            PageReadNext::Done(h, hex) => r.0 is Closed && (r.1 matches PageReadAction::Finish(
                Ok(p),
            ) && p.page_type == q.page_type && p.page_number == q.page_number && p.page_version
                == Some(h.version) && p.page_length == Some(h.length) && p.ext_page_type
                == q.ext_page_type && p.bytes_hex@ == hex),
            PageReadNext::Failed(t) => r.0 is Closed && (r.1 matches PageReadAction::Finish(Err(e))
                && e@ == t),
        },
{
    match state {
        PageReadState::Header => match judge_header(q, event.sent, event.reply.as_slice()) {
            Err(e) => (PageReadState::Closed, PageReadAction::Finish(Err(e))),
            Ok(h) => {
                let size: usize = h.length as usize * 4;
                (
                    PageReadState::Page(h),
                    PageReadAction::Send {
                        request: build_query(q, 0x01, size, 2),
                        sge_words: CONFIG_SGE_WORDS,
                        buffer: size,
                    },
                )
            },
        },
        PageReadState::Page(h) => match judge_reply(
            "READ_CURRENT",
            "read",
            event.sent,
            event.reply.as_slice(),
        ) {
            Err(e) => (PageReadState::Closed, PageReadAction::Finish(Err(e))),
            Ok(_) => (
                PageReadState::Closed,
                PageReadAction::Finish(
                    Ok(
                        ConfigPageRead {
                            page_type: q.page_type,
                            page_number: q.page_number,
                            page_version: Some(h.version),
                            page_length: Some(h.length),
                            ext_page_type: q.ext_page_type,
                            bytes_hex: hex_encode(event.page.as_slice()),
                        },
                    ),
                ),
            ),
        },
        PageReadState::Closed => (
            PageReadState::Closed,
            PageReadAction::Finish(Err("".to_owned())),
        ),
    }
}

/// A page is read only after its header, and only where the header is that of the page asked
/// for and promises some bytes; then exactly as many bytes are asked for.
pub proof fn header_comes_first(q: PageQuery, s: PageReadState, e: PageReply)
    requires
        !(s is Closed),
    ensures
        page_read_next(q, s, e) matches PageReadNext::Send(_, _, n) ==> s is Header && ({
            let h = PageHeader::of(e.reply@.subrange(20, 24));
            h.type_ == q.page_type && h.number == q.page_number && h.length > 0 && n == h.length * 4
        }),
        page_read_next(q, s, e) is Done ==> s is Page,
{
}

// ------------------------------------------------------------------- dump

/// Bytes in hexadecimal, two digits each.
pub open spec fn row_text(b: Seq<u8>) -> Seq<char>
    decreases b.len(),
{
    if b.len() == 0 {
        Seq::empty()
    } else {
        row_text(b.drop_last()) + hex_pad(b.last() as nat, 2, false)
    }
}

/// Row number `k` of a dump.
pub open spec fn dump_row(b: Seq<u8>, k: int) -> Seq<char> {
    let end = if 16 * k + 16 < b.len() {
        16 * k + 16
    } else {
        b.len() as int
    };
    "  "@ + hex_pad((16 * k) as nat, 4, false) + ": "@ + row_text(b.subrange(16 * k, end)) + "\n"@
}

/// The first `n` rows of a dump.
pub open spec fn dump_rows(b: Seq<u8>, n: nat) -> Seq<char>
    decreases n,
{
    if n == 0 {
        Seq::empty()
    } else {
        dump_rows(b, (n - 1) as nat) + dump_row(b, n - 1)
    }
}

/// The first line of a dump.
pub open spec fn dump_head(p: ConfigPageRead) -> Seq<char> {
    let name = "Page "@ + name_of_type(p.page_type) + "#"@ + dec(p.page_number as nat);
    match (p.page_version, p.page_length) {
        (Some(v), Some(l)) => name + " v="@ + dec(v as nat) + " len="@ + dec(l as nat)
            + " words ("@ + dec(encode_utf8(p.bytes_hex@).len() / 2) + " bytes)"@
            + match p.ext_page_type {
            Some(t) => " ext=0x"@ + hex_pad(t as nat, 2, true),
            None => Seq::empty(),
        } + "\n"@,
        _ => name + "\n"@,
    }
}

/// The bytes of a page; none where their text is malformed.
pub open spec fn page_bytes(p: ConfigPageRead) -> Seq<u8> {
    match hex_bytes(p.bytes_hex@) {
        Some(b) => b,
        None => Seq::empty(),
    }
}

/// Shows a page as text, sixteen bytes to a row.
pub fn format_hexdump(p: &ConfigPageRead) -> (r: String)
    ensures
        r@ == dump_head(*p) + dump_rows(page_bytes(*p), ((page_bytes(*p).len() + 15) / 16) as nat),
{
    let mut out = "Page ".to_owned();
    out.append(page_type_name(p.page_type));
    out.append("#");
    push_dec(&mut out, p.page_number as u64);
    if let (Some(v), Some(l)) = (p.page_version, p.page_length) {
        out.append(" v=");
        push_dec(&mut out, v as u64);
        out.append(" len=");
        push_dec(&mut out, l as u64);
        out.append(" words (");
        push_dec(&mut out, (p.bytes_hex.as_str().as_bytes().len() / 2) as u64);
        out.append(" bytes)");
        if let Some(t) = p.ext_page_type {
            out.append(" ext=0x");
            push_hex_pad(&mut out, t as u64, 2, true);
        }
    }
    out.append("\n");
    assert(out@ =~= dump_head(*p));
    let bytes = match hex_decode(p.bytes_hex.as_str()) {
        Some(b) => b,
        None => Vec::new(),
    };
    assert(bytes@ =~= page_bytes(*p));
    let len: usize = bytes.len();
    let mut at: usize = 0;
    let ghost head = out@;
    let ghost mut k: nat = 0;
    while at < len
        invariant
            len == bytes@.len(),
            bytes@ == page_bytes(*p),
            at == 16 * k || (at == len && k == (len + 15) / 16),
            at <= len,
            out@ == head + dump_rows(bytes@, k),
            at < len ==> 16 * k < len,
        decreases len - at,
    {
        let end: usize = if len - at > 16 { at + 16 } else { len };
        out.append("  ");
        push_hex_pad(&mut out, at as u64, 4, false);
        out.append(": ");
        push_row(&mut out, &bytes[at..end]);
        out.append("\n");
        proof {
            k = k + 1;
        }
        at = end;
        assert(out@ =~= head + dump_rows(bytes@, k));
    }
    assert(k == (len + 15) / 16);
    out
}

fn push_row(out: &mut String, b: &[u8])
    ensures
        final(out)@ == old(out)@ + row_text(b@),
{
    let ghost start = out@;
    let mut i: usize = 0;
    assert(b@.take(0).len() == 0);
    assert(out@ =~= start + row_text(b@.take(0)));
    while i < b.len()
        invariant
            i <= b@.len(),
            out@ == start + row_text(b@.take(i as int)),
        decreases b@.len() - i,
    {
        assert(b@.take(i + 1).drop_last() =~= b@.take(i as int));
        push_hex_pad(out, b[i] as u64, 2, false);
        i += 1;
        assert(out@ =~= start + row_text(b@.take(i as int)));
    }
    assert(b@.take(i as int) =~= b@);
}

// -------------------------------------------------------------- arguments

/// `s` without `0x` in front.
pub open spec fn bare_hex(s: Seq<char>) -> Seq<char> {
    if has_prefix(s, "0x"@) {
        s.skip(2)
    } else {
        s
    }
}

/// What the arguments ask for, or what is wrong with them.
pub open spec fn query_of(a: ConfigReadArgs) -> Result<PageQuery, Seq<char>> {
    match page_type_of(a.page_type@) {
        Err(t) => Err(t),
        Ok(page_type) => match (match a.ext_page_type {
            None => Ok(None),
            Some(e) => match ext_page_type_of(e@) {
                Err(t) => Err(t),
                Ok(v) => Ok(Some(v)),
            },
        }) {
            Err(t) => Err(t),
            Ok(ext_page_type) => match number_result(
                bare_hex(a.page_address@),
                16,
                0xFFFF_FFFF,
            ) {
                Err(f) => Err("Invalid page_address: "@ + f.spec_text()),
                Ok(v) => Ok(
                    PageQuery {
                        page_type,
                        page_number: a.page_number,
                        ext_page_type,
                        page_address: v as u32,
                    },
                ),
            },
        },
    }
}

/// Finds out which page the arguments ask for.
pub fn run_read(a: &ConfigReadArgs) -> (r: Result<PageQuery, Error>)
    ensures
        match query_of(*a) {
            Ok(q) => r == Ok::<PageQuery, Error>(q),
            Err(t) => r matches Err(Error::Other(e)) && e@ == t,
        },
{
    let page_type: u8 = match page_type_from_str(a.page_type.as_str()) {
        Ok(v) => v,
        Err(e) => {
            return Err(Error::Other(e));
        },
    };
    let ext_page_type: Option<u8> = match &a.ext_page_type {
        None => None,
        Some(e) => match ext_page_type_from_str(e.as_str()) {
            Ok(v) => Some(v),
            Err(e) => {
                return Err(Error::Other(e));
            },
        },
    };
    let chars = chars_of(a.page_address.as_str());
    let digits = if prefixed(a.page_address.as_str()) {
        assert(chars@.subrange(2, chars@.len() as int) =~= chars@.skip(2));
        &chars[2..chars.len()]
    } else {
        chars.as_slice()
    };
    match read_number(digits, 16, 0xFFFF_FFFF) {
        Err(f) => Err(Error::Other(labelled("Invalid page_address: ", f.text()))),
        Ok(v) => Ok(
            PageQuery {
                page_type,
                page_number: a.page_number,
                ext_page_type,
                page_address: v as u32,
            },
        ),
    }
}

/// Decides what a command on pages does: one page can be read, all cannot.
pub fn run(sub: &ConfigSubCommand) -> (r: Result<PageQuery, Error>)
    ensures
        match sub {
            ConfigSubCommand::Read(a) => match query_of(*a) {
                Ok(q) => r == Ok::<PageQuery, Error>(q),
                Err(t) => r matches Err(Error::Other(e)) && e@ == t,
            },
            ConfigSubCommand::Dump(_) => r matches Err(Error::Other(e)) && e@
                == "config dump not yet implemented"@,
        },
{
    match sub {
        ConfigSubCommand::Read(a) => run_read(a),
        ConfigSubCommand::Dump(_) => Err(
            Error::Other("config dump not yet implemented".to_owned()),
        ),
    }
}

// ---------------------------------------------------------------- the laws

/// The message for a page has 0x2C bytes: the action at 0, the direction 0xC0 at 1, the function
/// 0x04 at 3, the type of an extended page at 6, the length in words, the number and the type of
/// the page at 0x15 to 0x17, and the address of the page at 0x18.
pub proof fn query_fields_are_in_place(q: PageQuery, action: u8, len: nat)
    requires
        len < 1024,
    ensures
        ({
            let b = query_wire(q, action, len);
            &&& b.len() == 0x2C
            &&& b[0] == action
            &&& b[1] == 0xC0
            &&& b[3] == 0x04
            &&& b[6] == if q.ext_page_type is Some { q.ext_page_type->0 } else { 0u8 }
            &&& b[0x15] == len / 4
            &&& b[0x16] == q.page_number
            &&& b[0x17] == q.page_type
            &&& u32_at(b, 0x18) == q.page_address
        }),
{
    let b = query_wire(q, action, len);
    assert(b.len() == 0x2C);
    le32_round_trip(q.page_address, b.take(0x18), b.skip(0x1C));
    assert(b =~= b.take(0x18) + crate::bytes::le32(q.page_address) + b.skip(0x1C));
}

/// After its header a page is asked for with the action 0x01 and with as many words as the header
/// says at 21, exactly where the reply is a success and its header, at 20, is that of the page
/// that was asked for and promises something.
pub proof fn page_follows_its_header(q: PageQuery, e: PageReply)
    requires
        e.sent is Ok,
        e.reply@.len() >= 26,
    ensures
        ({
            let n = page_read_next(q, PageReadState::Header, e);
            &&& n is Send <==> e.reply@[14] == 0 && e.reply@[15] == 0 && e.reply@[23] == q.page_type
                && e.reply@[22] == q.page_number && e.reply@[21] > 0
            &&& !(n is Send) ==> n is Failed
            &&& (n matches PageReadNext::Send(wire, words, room) ==> wire[0] == 0x01 && wire[0x15]
                == e.reply@[21] && wire[0x16] == q.page_number && wire[0x17] == q.page_type && room
                == 4 * e.reply@[21] && words == 7)
        }),
{
    let h = e.reply@.subrange(20, 24);
    assert(h[0] == e.reply@[20] && h[1] == e.reply@[21] && h[2] == e.reply@[22] && h[3]
        == e.reply@[23]);
    status_numbers(u16_at(e.reply@, 14));
    query_fields_are_in_place(q, 0x01, (e.reply@[21] * 4) as nat);
}

/// A page that was read is kept byte for byte: its text in hexadecimal gives back what the
/// controller wrote, exactly where the reply is a success.
pub proof fn page_is_kept(q: PageQuery, h: PageHeader, e: PageReply)
    requires
        e.sent is Ok,
        e.reply@.len() >= 26,
    ensures
        ({
            let n = page_read_next(q, PageReadState::Page(h), e);
            &&& n is Done <==> e.reply@[14] == 0 && e.reply@[15] == 0
            &&& !(n is Done) ==> n is Failed
            &&& (n matches PageReadNext::Done(same, t) ==> same == h && hex_bytes(t) == Some(e.page@))
        }),
{
    status_numbers(u16_at(e.reply@, 14));
    hex_round_trip(e.page@);
}

/// A type of page can be named whatever the case of its letters, and each name stands for its
/// own number.
pub proof fn page_names_have_numbers(s: Seq<char>)
    ensures
        lowered(s) == "io-unit"@ ==> page_type_of(s) == Ok::<u8, Seq<char>>(0x00),
        lowered(s) == "ioc"@ ==> page_type_of(s) == Ok::<u8, Seq<char>>(0x01),
        lowered(s) == "bios"@ ==> page_type_of(s) == Ok::<u8, Seq<char>>(0x02),
        lowered(s) == "raid-volume"@ ==> page_type_of(s) == Ok::<u8, Seq<char>>(0x08),
        lowered(s) == "manufacturing"@ || lowered(s) == "mfg"@ ==> page_type_of(s) == Ok::<
            u8,
            Seq<char>,
        >(0x09),
        lowered(s) == "raid-phys-disk"@ || lowered(s) == "raid-pdisk"@ ==> page_type_of(s) == Ok::<
            u8,
            Seq<char>,
        >(0x0A),
        lowered(s) == "extended"@ || lowered(s) == "ext"@ ==> page_type_of(s) == Ok::<
            u8,
            Seq<char>,
        >(0x0F),
        lowered(s) == "sas-io-unit"@ ==> ext_page_type_of(s) == Ok::<u8, Seq<char>>(0x10),
        lowered(s) == "sas-device"@ ==> ext_page_type_of(s) == Ok::<u8, Seq<char>>(0x12),
        lowered(s) == "sas-phy"@ ==> ext_page_type_of(s) == Ok::<u8, Seq<char>>(0x13),
        lowered(s) == "flash-layout"@ || lowered(s) == "log"@ ==> ext_page_type_of(s) == Ok::<
            u8,
            Seq<char>,
        >(0x14),
{
    reveal_strlit("io-unit");
    reveal_strlit("0x00");
    reveal_strlit("ioc");
    reveal_strlit("0x01");
    reveal_strlit("bios");
    reveal_strlit("0x02");
    reveal_strlit("raid-volume");
    reveal_strlit("0x08");
    reveal_strlit("manufacturing");
    reveal_strlit("mfg");
    reveal_strlit("0x09");
    reveal_strlit("raid-phys-disk");
    reveal_strlit("raid-pdisk");
    reveal_strlit("extended");
    reveal_strlit("ext");
    reveal_strlit("sas-io-unit");
    reveal_strlit("0x10");
    reveal_strlit("sas-device");
    reveal_strlit("0x12");
    reveal_strlit("sas-phy");
    reveal_strlit("0x13");
    reveal_strlit("flash-layout");
    reveal_strlit("log");
    reveal_strlit("0x14");
    let l = lowered(s);
    assert(l.len() == 3 ==> l[0] == 'i' || l[0] == 'm' || l[0] == 'e' || l[0] == 'l' || (l != "ioc"@
        && l != "mfg"@ && l != "ext"@ && l != "log"@));
    assert("ioc"@[0] == 'i' && "mfg"@[0] == 'm' && "ext"@[0] == 'e' && "log"@[0] == 'l');
    assert("0x00"@[0] == '0' && "0x01"@[0] == '0' && "0x02"@[0] == '0' && "0x08"@[0] == '0'
        && "0x09"@[0] == '0' && "bios"@[0] == 'b');
    assert("raid-pdisk"@[0] == 'r' && "sas-device"@[0] == 's');
    assert("raid-volume"@[0] == 'r' && "sas-io-unit"@[0] == 's');
    assert("io-unit"@[0] == 'i' && "sas-phy"@[0] == 's');
}

/// What is asked for is what the words say: the number of the page is kept, there is the type of
/// an extended page exactly where one was named, and the address is read as hexadecimal, with
/// `0x` in front or without.
pub proof fn words_become_query(a: ConfigReadArgs, v: u32)
    requires
        a.page_address@ == hex_pad(v as nat, 8, false) || a.page_address@ == seq!['0', 'x']
            + hex_pad(v as nat, 8, false),
    ensures
        query_of(a) is Ok <==> page_type_of(a.page_type@) is Ok && (a.ext_page_type matches Some(e)
            ==> ext_page_type_of(e@) is Ok),
        query_of(a) matches Ok(q) ==> q.page_number == a.page_number && q.page_address == v && Ok::<
            u8,
            Seq<char>,
        >(q.page_type) == page_type_of(a.page_type@),
        query_of(a) matches Ok(q) ==> (a.ext_page_type is None <==> q.ext_page_type is None),
        query_of(a) matches Ok(q) ==> (a.ext_page_type matches Some(e) ==> ext_page_type_of(e@)
            == Ok::<u8, Seq<char>>(q.ext_page_type->0)),
{
    let h = hex_pad(v as nat, 8, false);
    let s = a.page_address@;
    hexadecimal_round_trip(v as nat, 8, false, 0xFFFF_FFFF);
    hex_pad_is_plain(v as nat, 8, false);
    reveal_strlit("0x");
    assert("0x"@ =~= seq!['0', 'x']);
    if s == seq!['0', 'x'] + h {
        assert(s.take(2) =~= seq!['0', 'x']);
        assert(s.skip(2) =~= h);
    } else {
        assert(h[1] != 'x');
        if h.take(2) == "0x"@ {
            assert(h.take(2)[1] == h[1]);
        }
    }
    assert(bare_hex(s) == h);
}

proof fn row_is_hex(b: Seq<u8>)
    ensures
        row_text(b) == hex_text(b),
    decreases b.len(),
{
    if b.len() > 0 {
        row_is_hex(b.drop_last());
        let x = b.last();
        let d = seq![digit((x / 16) as nat, false), digit((x % 16) as nat, false)];
        reveal_with_fuel(crate::text::hex, 2);
        assert(hex_pad(x as nat, 2, false) =~= d);
    }
}

/// A dump shows sixteen bytes in a row, each in its place and none left out: the text of a row
/// gives back the bytes from sixteen times its number on.
pub proof fn rows_show_their_bytes(b: Seq<u8>, k: int)
    requires
        0 <= 16 * k < b.len(),
    ensures
        exists|t: Seq<char>|
            #![trigger hex_bytes(t)]
            dump_row(b, k) == seq![' ', ' '] + hex_pad((16 * k) as nat, 4, false) + seq![':', ' ']
                + t + seq!['\n'] && hex_bytes(t) == Some(
                if 16 * k + 16 <= b.len() {
                    b.subrange(16 * k, 16 * k + 16)
                } else {
                    b.skip(16 * k)
                },
            ),
{
    reveal_strlit("  ");
    reveal_strlit(": ");
    reveal_strlit("\n");
    assert("  "@ =~= seq![' ', ' ']);
    assert(": "@ =~= seq![':', ' ']);
    assert("\n"@ =~= seq!['\n']);
    let part = if 16 * k + 16 <= b.len() {
        b.subrange(16 * k, 16 * k + 16)
    } else {
        b.skip(16 * k)
    };
    let end = if 16 * k + 16 < b.len() {
        16 * k + 16
    } else {
        b.len() as int
    };
    assert(b.subrange(16 * k, end) =~= part);
    row_is_hex(part);
    hex_round_trip(part);
    assert(hex_bytes(row_text(part)) == Some(part));
}

/// The types of pages are named by their numbers, each name for one number only.
pub proof fn page_types_go_by_numbers(pt: u8)
    ensures
        name_of_type(pt) == "IO Unit"@ <==> pt == 0,
        name_of_type(pt) == "IOC"@ <==> pt == 1,
        name_of_type(pt) == "BIOS"@ <==> pt == 2,
        name_of_type(pt) == "RAID Volume"@ <==> pt == 8,
        name_of_type(pt) == "Manufacturing"@ <==> pt == 9,
        name_of_type(pt) == "RAID PhysDisk"@ <==> pt == 10,
        name_of_type(pt) == "Extended"@ <==> pt == 15,
{
    reveal_strlit("IO Unit");
    reveal_strlit("IOC");
    reveal_strlit("BIOS");
    reveal_strlit("RAID Volume");
    reveal_strlit("Manufacturing");
    reveal_strlit("RAID PhysDisk");
    reveal_strlit("Extended");
    reveal_strlit("Unknown");
    let first = name_of_type(pt)[0];
    let third = name_of_type(pt)[2];
    assert(pt == 0 ==> name_of_type(pt).len() == 7 && first == 'I');
    assert(pt == 1 ==> name_of_type(pt).len() == 3 && first == 'I' && third == 'C');
    assert(pt == 2 ==> name_of_type(pt).len() == 4);
    assert(pt == 8 ==> name_of_type(pt).len() == 11);
    assert(pt == 9 ==> name_of_type(pt).len() == 13 && first == 'M');
    assert(pt == 10 ==> name_of_type(pt).len() == 13 && first == 'R');
    assert(pt == 15 ==> name_of_type(pt).len() == 8);
    assert("IO Unit"@.len() == 7 && "IO Unit"@[0] == 'I');
    assert("IOC"@.len() == 3);
    assert("Manufacturing"@.len() == 13 && "Manufacturing"@[0] == 'M');
    assert("RAID PhysDisk"@.len() == 13 && "RAID PhysDisk"@[0] == 'R');
    assert("Unknown"@.len() == 7 && "Unknown"@[0] == 'U');
}

} // verus!
