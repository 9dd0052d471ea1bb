//! Reading and writing the firmware of an adapter.
//!
//! Firmware is written only after it was checked by itself and against the adapter, and
//! only with the consent of the user.

use crate::bytes::to_vec;
use crate::digest::{sha256_hex, sha256_text};
use crate::error::Error;
use crate::firmware::guard::WriteIntent;
use crate::firmware::validate::{
    check_fit, check_models, fit_check, image_checks, validate_image, Check, CheckModel,
    FwValidation,
};
use crate::mpi::messages::ImageType;
use crate::text::{
    chars_of, dec, is_white, labelled, opt_text, pad_right, push_dec, push_pad_right, same_chars,
    string_from_utf8, strings, trim, trimmed, trimming_is_exact,
};
use vstd::prelude::*;

verus! {

/// Uploads the running firmware.
pub const FW_UPLOAD_ITYPE_FW_CURRENT: u8 = 0x00;

/// Uploads the firmware in the flash.
pub const FW_UPLOAD_ITYPE_FW_FLASH: u8 = 0x01;

// ----------------------------------------------------------------- banner

/// What the banner of firmware starts with.
pub open spec fn banner_mark() -> Seq<u8> {
    seq![0x4Du8, 0x50u8, 0x54u8, 0x46u8, 0x57u8, 0x2Du8]
}

/// Whether the mark stands at a position.
pub open spec fn mark_at(data: Seq<u8>, p: int) -> bool {
    0 <= p && p + 6 <= data.len() && data.subrange(p, p + 6) == banner_mark()
}

/// The banner that starts at a position: up to a zero or a space, or the end.
pub open spec fn banner_from(data: Seq<u8>, p: int) -> Seq<u8>
    decreases data.len() - p,
{
    if p >= data.len() || data[p] == 0 || data[p] == 0x20 {
        Seq::empty()
    } else {
        seq![data[p]] + banner_from(data, p + 1)
    }
}

/// Whether `b` is the banner of some firmware: there is none without the mark, and none
/// that is no text.
pub open spec fn is_banner(data: Seq<u8>, b: Option<Seq<char>>) -> bool {
    match b {
        Some(t) => exists|p: int| #[trigger]
            mark_at(data, p) && (forall|q: int| 0 <= q < p ==> !#[trigger] mark_at(data, q))
                && vstd::utf8::valid_utf8(banner_from(data, p)) && t == vstd::utf8::decode_utf8(
                banner_from(data, p),
            ),
        None => forall|p: int| #[trigger]
            mark_at(data, p) && (forall|q: int| 0 <= q < p ==> !#[trigger] mark_at(data, q))
                ==> !vstd::utf8::valid_utf8(banner_from(data, p)),
    }
}

fn mark_stands(data: &[u8], p: usize) -> (r: bool)
    requires
        p + 6 <= data@.len(),
    ensures
        r == mark_at(data@, p as int),
{
    let r: bool = data[p] == 0x4D && data[p + 1] == 0x50 && data[p + 2] == 0x54 && data[p + 3]
        == 0x46 && data[p + 4] == 0x57 && data[p + 5] == 0x2D;
    proof {
        let s = data@.subrange(p as int, p + 6);
        assert(s.len() == 6);
        if r {
            assert(s =~= banner_mark());
        } else {
            assert(s[0] == data@[p as int] && s[1] == data@[p + 1] && s[2] == data@[p + 2] && s[3]
                == data@[p + 3] && s[4] == data@[p + 4] && s[5] == data@[p + 5]);
        }
    }
    r
}

proof fn banner_is(data: Seq<u8>, p: int, end: int)
    requires
        0 <= p <= end <= data.len(),
        forall|k: int| p <= k < end ==> data[k] != 0 && data[k] != 0x20,
        end == data.len() || data[end] == 0 || data[end] == 0x20,
    ensures
        banner_from(data, p) == data.subrange(p, end),
    decreases end - p,
{
    if p < end {
        banner_is(data, p + 1, end);
        assert(data.subrange(p, end) =~= seq![data[p]] + data.subrange(p + 1, end));
    } else {
        assert(data.subrange(p, end) =~= Seq::<u8>::empty());
    }
}

/// The banner of some firmware: its version and its kind, such as
/// `MPTFW-20.00.07.00-IE`.
pub fn fw_banner(data: &[u8]) -> (r: Option<String>)
    ensures
        is_banner(data@, opt_text(r)),
{
    let len: usize = data.len();
    let mut p: usize = 0;
    while len >= 6 && p <= len - 6
        invariant
            len == data@.len(),
            p <= len,
            forall|q: int| 0 <= q < p ==> !#[trigger] mark_at(data@, q),
        decreases len - p,
    {
        if mark_stands(data, p) {
            let mut end: usize = p;
            while end < len && data[end] != 0 && data[end] != 0x20
                invariant
                    len == data@.len(),
                    p <= end <= len,
                    forall|k: int| p <= k < end ==> data@[k] != 0 && data@[k] != 0x20,
                decreases len - end,
            {
                end += 1;
            }
            proof {
                banner_is(data@, p as int, end as int);
            }
            let b = &data[p..end];
            let r = string_from_utf8(b);
            assert(b@ == banner_from(data@, p as int));
            assert(is_banner(data@, opt_text(r)));
            return r;
        }
        p += 1;
    }
    assert forall|q: int| !#[trigger] mark_at(data@, q) by {}
    None
}

// ---------------------------------------------------------------- reading

/// The image type to upload, and its name.
pub open spec fn read_kind(running: bool) -> (u8, Seq<char>) {
    if running {
        (FW_UPLOAD_ITYPE_FW_CURRENT, "running (FW_CURRENT 0x00)"@)
    } else {
        (FW_UPLOAD_ITYPE_FW_FLASH, "flash (FW_FLASH 0x01)"@)
    }
}

fn kind_name(running: bool) -> (r: &'static str)
    ensures
        r@ == read_kind(running).1,
{
    if running {
        "running (FW_CURRENT 0x00)"
    } else {
        "flash (FW_FLASH 0x01)"
    }
}

/// The line on firmware that was read.
pub open spec fn read_line(
    running: bool,
    data: Seq<u8>,
    banner: Option<Seq<char>>,
    path: Seq<char>,
) -> Seq<char> {
    "fw read ["@ + read_kind(running).1 + "]: "@ + dec(data.len()) + " bytes, sha256="@
        + sha256_text(data) + ", banner="@ + (match banner {
        Some(t) => t,
        None => "?"@,
    }) + ", path="@ + path
}

/// What happens while firmware is read.
#[derive(Debug)]
pub enum FwReadEvent {
    /// The adapter was found, or why not.
    Found(Result<(), String>),
    /// The adapter sent its firmware, or why not.
    Uploaded(Result<Vec<u8>, String>),
    /// The firmware was read past the adapter, or why not.
    Read(Result<Vec<u8>, Error>),
}

/// What is to be done to read firmware.
#[derive(Debug)]
pub enum FwReadAction {
    /// Upload an image of a type.
    Upload(u8),
    /// Say something, and read the flash past the firmware of the adapter.
    ReadBackdoor(String),
    /// Say something, and give out what was read.
    Deliver { report: String, data: Vec<u8> },
    /// Give up.
    Fail(Error),
}

/// Where reading firmware stands.
#[derive(Debug, Clone, Copy, PartialEq, Eq, Structural)]
pub enum FwReadState {
    /// The adapter is looked for.
    Finding,
    /// The adapter sends its firmware.
    Uploading,
    /// The flash is read past the adapter.
    ReadingBackdoor,
    /// It is over.
    Ended,
}

/// Whether an event is one that can come in a state.
pub open spec fn read_awaits(s: FwReadState, e: FwReadEvent) -> bool {
    match s {
        FwReadState::Finding => e is Found,
        FwReadState::Uploading => e is Uploaded,
        FwReadState::ReadingBackdoor => e is Read,
        FwReadState::Ended => false,
    }
}

/// The name of a way to read firmware.
pub open spec fn read_path(backdoor: bool) -> Seq<char> {
    if backdoor {
        "diag back-door"@
    } else {
        "IOC (FW_UPLOAD)"@
    }
}

/// Whether an action falls back to the back door and says why.
pub open spec fn falls_back(running: bool, why: Seq<char>, a: FwReadAction) -> bool {
    a matches FwReadAction::ReadBackdoor(t) && t@ == "fw read ["@ + read_kind(running).1
        + "]: IOC path failed ("@ + why + "), falling back to diag back-door"@
}

/// Whether an action gives out what was read on a way.
pub open spec fn delivers(running: bool, got: Seq<u8>, backdoor: bool, a: FwReadAction) -> bool {
    a matches FwReadAction::Deliver { report, data } && data@ == got && exists|
        b: Option<Seq<char>>,
    | #[trigger]
        is_banner(got, b) && report@ == read_line(running, got, b, read_path(backdoor))
}

/// Whether `n` and `a` are what comes after an event.
pub open spec fn read_next(
    s: FwReadState,
    running: bool,
    e: FwReadEvent,
    n: FwReadState,
    a: FwReadAction,
) -> bool {
    match (s, e) {
        (FwReadState::Finding, FwReadEvent::Found(Ok(_))) => n == FwReadState::Uploading && a
            == FwReadAction::Upload(read_kind(running).0),
        (FwReadState::Finding, FwReadEvent::Found(Err(why))) => n == FwReadState::ReadingBackdoor
            && falls_back(running, why@, a),
        (FwReadState::Uploading, FwReadEvent::Uploaded(Ok(got))) => n == FwReadState::Ended
            && delivers(running, got@, false, a),
        (FwReadState::Uploading, FwReadEvent::Uploaded(Err(why))) => n
            == FwReadState::ReadingBackdoor && falls_back(running, why@, a),
        (FwReadState::ReadingBackdoor, FwReadEvent::Read(Ok(got))) => n == FwReadState::Ended
            && delivers(running, got@, true, a),
        (FwReadState::ReadingBackdoor, FwReadEvent::Read(Err(why))) => n == FwReadState::Ended && a
            == FwReadAction::Fail(why),
        _ => true,
    }
}

fn fall_back(running: bool, why: &str) -> (r: FwReadAction)
    ensures
        falls_back(running, why@, r),
{
    let mut t = labelled("fw read [", kind_name(running));
    t.append("]: IOC path failed (");
    t.append(why);
    t.append("), falling back to diag back-door");
    FwReadAction::ReadBackdoor(t)
}

fn hand_out(running: bool, data: Vec<u8>, backdoor: bool) -> (r: FwReadAction)
    ensures
        delivers(running, data@, backdoor, r),
{
    let banner = fw_banner(data.as_slice());
    let ghost b = opt_text(banner);
    assert(is_banner(data@, b));
    let mut t = labelled("fw read [", kind_name(running));
    t.append("]: ");
    push_dec(&mut t, data.len() as u64);
    t.append(" bytes, sha256=");
    t.append(sha256_hex(data.as_slice()).as_str());
    t.append(", banner=");
    match banner {
        Some(s) => t.append(s.as_str()),
        None => t.append("?"),
    }
    t.append(", path=");
    t.append(if backdoor { "diag back-door" } else { "IOC (FW_UPLOAD)" });
    assert(t@ == read_line(running, data@, b, read_path(backdoor)));
    FwReadAction::Deliver { report: t, data }
}

/// Takes one step in reading firmware: through the adapter, and past it where the adapter
/// is not found or does not send its firmware.
pub fn run_read(state: FwReadState, running: bool, event: FwReadEvent) -> (r: (
    FwReadState,
    FwReadAction,
))
    requires
        read_awaits(state, event),
    ensures
        read_next(state, running, event, r.0, r.1),
{
    match event {
        FwReadEvent::Found(Ok(_)) => {
            let itype: u8 = if running {
                FW_UPLOAD_ITYPE_FW_CURRENT
            } else {
                FW_UPLOAD_ITYPE_FW_FLASH
            };
            (FwReadState::Uploading, FwReadAction::Upload(itype))
        },
        FwReadEvent::Found(Err(why)) | FwReadEvent::Uploaded(Err(why)) => (
            FwReadState::ReadingBackdoor,
            fall_back(running, why.as_str()),
        ),
        FwReadEvent::Uploaded(Ok(data)) => (FwReadState::Ended, hand_out(running, data, false)),
        FwReadEvent::Read(Ok(data)) => (FwReadState::Ended, hand_out(running, data, true)),
        FwReadEvent::Read(Err(why)) => (FwReadState::Ended, FwReadAction::Fail(why)),
    }
}

/// Reading firmware through a healthy adapter never touches its flash past it, and reading
/// fails only where neither way gave the firmware.
pub proof fn reading_fails_last(
    s: FwReadState,
    running: bool,
    e: FwReadEvent,
    n: FwReadState,
    a: FwReadAction,
)
    requires
        read_awaits(s, e),
        read_next(s, running, e, n, a),
    ensures
        a is ReadBackdoor ==> (e matches FwReadEvent::Found(r) && r is Err) || (
        e matches FwReadEvent::Uploaded(r) && r is Err),
        a is Fail ==> s == FwReadState::ReadingBackdoor,
        n == FwReadState::Ended <==> a is Deliver || a is Fail,
{
}

// ---------------------------------------------------------------- writing

/// The first of some checks that failed.
pub open spec fn first_failed(m: Seq<CheckModel>) -> Option<CheckModel>
    decreases m.len(),
{
    if m.len() == 0 {
        None
    } else {
        match first_failed(m.drop_last()) {
            Some(c) => Some(c),
            None => if m.last().pass {
                None
            } else {
                Some(m.last())
            },
        }
    }
}

proof fn none_failed(m: Seq<CheckModel>)
    requires
        forall|i: int| 0 <= i < m.len() ==> (#[trigger] m[i]).pass,
    ensures
        first_failed(m) is None,
    decreases m.len(),
{
    if m.len() > 0 {
        none_failed(m.drop_last());
    }
}

proof fn this_failed(m: Seq<CheckModel>, i: int)
    requires
        0 <= i < m.len(),
        !m[i].pass,
        forall|j: int| 0 <= j < i ==> (#[trigger] m[j]).pass,
    ensures
        first_failed(m) == Some(m[i]),
    decreases m.len(),
{
    if i < m.len() - 1 {
        assert(m.drop_last()[i] == m[i]);
        this_failed(m.drop_last(), i);
    } else {
        none_failed(m.drop_last());
    }
}

/// All checks that are made before firmware is written.
pub open spec fn all_checks(image: Seq<u8>, current: Seq<u8>) -> Seq<CheckModel> {
    image_checks(image).push(fit_check(image, current))
}

/// The line on a check.
pub open spec fn check_line(c: CheckModel) -> Seq<char> {
    "  ["@ + (if c.pass {
        "PASS"@
    } else {
        "FAIL"@
    }) + "] "@ + pad_right(c.name, 12) + " "@ + c.detail
}

/// The lines on some checks.
pub open spec fn check_lines(m: Seq<CheckModel>) -> Seq<Seq<char>> {
    m.map_values(|c: CheckModel| check_line(c))
}

/// The lines that come before a write.
pub open spec fn wizard_lines(
    path: Seq<char>,
    bdf: Seq<char>,
    image: Seq<u8>,
    m: Seq<CheckModel>,
) -> Seq<Seq<char>> {
    let head = seq![
        Seq::<char>::empty(),
        "fw write — pre-flight validation"@,
        "  image: "@ + path + " ("@ + dec(image.len()) + " bytes)"@,
        "  card:  "@ + bdf,
    ];
    let body = head + check_lines(m);
    if first_failed(m) is None {
        body.push("  [ -- ] write-integrity  verified by read-back after write"@)
    } else {
        body
    }
}

fn line_of_check(c: &Check) -> (r: String)
    ensures
        r@ == check_line(c@),
{
    let mut t = "  [".to_owned();
    t.append(if c.pass { "PASS" } else { "FAIL" });
    t.append("] ");
    push_pad_right(&mut t, c.name, 12);
    t.append(" ");
    t.append(c.detail.as_str());
    t
}

/// What an error of a write stands for.
pub enum FwWriteFailure {
    /// An error with words of its own.
    Said(Seq<char>),
    /// An error that was handed on.
    Given(Error),
}

/// What an error stands for.
pub open spec fn failing(e: Error) -> FwWriteFailure {
    match e {
        Error::Other(t) => FwWriteFailure::Said(t@),
        _ => FwWriteFailure::Given(e),
    }
}

/// Checks firmware for an adapter. Gives the lines to show, and whether it may be
/// written.
pub fn judge_image(path: &str, bdf: &str, image: &[u8], current: &[u8]) -> (r: (
    Vec<String>,
    Result<(), Error>,
))
    ensures
        strings(r.0@) == wizard_lines(path@, bdf@, image@, all_checks(image@, current@)),
        match first_failed(all_checks(image@, current@)) {
            None => r.1 is Ok,
            Some(c) => r.1 matches Err(e) && failing(e) == FwWriteFailure::Said(
                "refusing to flash — validation failed at '"@ + c.name + "': "@ + c.detail,
            ),
        },
{
    let mut val = validate_image(image);
    check_fit(&mut val, image, current);
    let ghost m = all_checks(image@, current@);
    assert(check_models(val.checks@) == m);
    assert forall|i: int| 0 <= i < m.len() implies #[trigger] m[i] == val.checks@[i]@ by {}
    let mut lines: Vec<String> = Vec::new();
    lines.push(String::new());
    assert(lines@[0]@ =~= Seq::<char>::empty());
    lines.push("fw write — pre-flight validation".to_owned());
    let mut t = labelled("  image: ", path);
    t.append(" (");
    push_dec(&mut t, image.len() as u64);
    t.append(" bytes)");
    lines.push(t);
    lines.push(labelled("  card:  ", bdf));
    let ghost head = strings(lines@);
    let mut i: usize = 0;
    assert(strings(lines@) =~= head + check_lines(m.take(0)));
    while i < val.checks.len()
        invariant
            i <= val.checks@.len(),
            val.checks@.len() == m.len(),
            forall|k: int| 0 <= k < m.len() ==> #[trigger] m[k] == val.checks@[k]@,
            strings(lines@) == head + check_lines(m.take(i as int)),
        decreases val.checks@.len() - i,
    {
        let ghost known = lines@;
        let line = line_of_check(&val.checks[i]);
        lines.push(line);
        assert(m[i as int] == val.checks@[i as int]@);
        assert(strings(lines@) =~= strings(known).push(line@));
        assert(check_lines(m.take(i + 1)) =~= check_lines(m.take(i as int)).push(
            check_line(m[i as int]),
        ));
        assert(strings(lines@) =~= head + check_lines(m.take(i + 1)));
        i += 1;
    }
    assert(m.take(i as int) =~= m);
    if let Some(f) = val.first_failure() {
        proof {
            let i = choose|i: int|
                0 <= i < val.checks@.len() && *f == #[trigger] val.checks@[i] && forall|j: int|
                    0 <= j < i ==> (#[trigger] val.checks@[j]).pass;
            assert(m[i] == f@);
            assert forall|j: int| 0 <= j < i implies (#[trigger] m[j]).pass by {
                assert(val.checks@[j].pass);
            }
            this_failed(m, i);
        }
        let mut t = labelled("refusing to flash — validation failed at '", f.name);
        t.append("': ");
        t.append(f.detail.as_str());
        return (lines, Err(Error::Other(t)));
    }
    proof {
        assert forall|j: int| 0 <= j < m.len() implies (#[trigger] m[j]).pass by {
            assert(val.checks@[j].pass);
        }
        none_failed(m);
    }
    let ghost known = lines@;
    lines.push("  [ -- ] write-integrity  verified by read-back after write".to_owned());
    assert(strings(lines@) =~= strings(known).push(
        "  [ -- ] write-integrity  verified by read-back after write"@,
    ));
    (lines, Ok(()))
}

/// Whether the user agrees to a write.
pub open spec fn consents(answer: Seq<char>) -> bool {
    let t = trim(answer);
    t == "y"@ || t == "Y"@ || t == "yes"@ || t == "YES"@
}

fn says(t: &[char], word: &str) -> (r: bool)
    ensures
        r == (t@ == word@),
{
    same_chars(t, chars_of(word).as_slice())
}

fn agrees(answer: &str) -> (r: bool)
    ensures
        r == consents(answer@),
{
    let cs = chars_of(answer);
    let t = trimmed(cs.as_slice());
    says(t, "y") || says(t, "Y") || says(t, "yes") || says(t, "YES")
}

/// Where a write stands.
#[derive(Debug)]
pub enum FwWriteState {
    /// The file is read.
    Loading,
    /// The adapter is looked for.
    Finding { image: Vec<u8> },
    /// The running firmware is read.
    Measuring { image: Vec<u8> },
    /// The user is asked.
    Asking { image: Vec<u8> },
    /// The firmware is written.
    Writing { image: Vec<u8> },
    /// It is over.
    Ended,
}

/// What a state stands for.
#[verifier::ext_equal]
pub enum FwWriteStage {
    Loading,
    Finding(Seq<u8>),
    Measuring(Seq<u8>),
    Asking(Seq<u8>),
    Writing(Seq<u8>),
    Ended,
}

impl View for FwWriteState {
    type V = FwWriteStage;

    open spec fn view(&self) -> FwWriteStage {
        match self {
            FwWriteState::Loading => FwWriteStage::Loading,
            FwWriteState::Finding { image } => FwWriteStage::Finding(image@),
            FwWriteState::Measuring { image } => FwWriteStage::Measuring(image@),
            FwWriteState::Asking { image } => FwWriteStage::Asking(image@),
            FwWriteState::Writing { image } => FwWriteStage::Writing(image@),
            FwWriteState::Ended => FwWriteStage::Ended,
        }
    }
}

/// What happens during a write.
#[derive(Debug)]
pub enum FwWriteEvent {
    /// The file was read, or why not.
    Loaded(Result<Vec<u8>, String>),
    /// The adapter was found, or why not.
    Found(Result<(), String>),
    /// The running firmware was read, or why not.
    Measured(Result<Vec<u8>, String>),
    /// The user answered.
    Answered(String),
    /// The firmware was written, or why not.
    Written(Result<(), Error>),
}

/// What is to be done for a write.
pub enum FwWriteAction {
    /// Look for the adapter.
    Discover,
    /// Read the running firmware.
    ReadCurrent,
    /// Show lines, and ask the user.
    Ask { lines: Vec<String> },
    /// Show lines, and write.
    Commit { lines: Vec<String>, intent: WriteIntent },
    /// Say that all went well.
    Finish(String),
    /// Show lines, and give up.
    Fail { lines: Vec<String>, error: Error },
}

/// What an action stands for.
#[verifier::ext_equal]
pub enum FwWriteDemand {
    Discover,
    ReadCurrent,
    Ask(Seq<Seq<char>>),
    Commit(Seq<Seq<char>>, ImageType, Seq<u8>, Seq<char>),
    Finish(Seq<char>),
    Fail(Seq<Seq<char>>, FwWriteFailure),
}

impl View for FwWriteAction {
    type V = FwWriteDemand;

    open spec fn view(&self) -> FwWriteDemand {
        match self {
            FwWriteAction::Discover => FwWriteDemand::Discover,
            FwWriteAction::ReadCurrent => FwWriteDemand::ReadCurrent,
            FwWriteAction::Ask { lines } => FwWriteDemand::Ask(strings(lines@)),
            FwWriteAction::Commit { lines, intent } => FwWriteDemand::Commit(
                strings(lines@),
                intent.region,
                intent.bytes@,
                intent.label@,
            ),
            FwWriteAction::Finish(t) => FwWriteDemand::Finish(t@),
            FwWriteAction::Fail { lines, error } => FwWriteDemand::Fail(
                strings(lines@),
                failing(*error),
            ),
        }
    }
}

/// Whether an event is one that can come at a stage.
pub open spec fn write_awaits(s: FwWriteStage, e: FwWriteEvent) -> bool {
    match s {
        FwWriteStage::Loading => e is Loaded,
        FwWriteStage::Finding(_) => e is Found,
        FwWriteStage::Measuring(_) => e is Measured,
        FwWriteStage::Asking(_) => e is Answered,
        FwWriteStage::Writing(_) => e is Written,
        FwWriteStage::Ended => false,
    }
}

/// Giving up without lines to show.
pub open spec fn write_fails(why: Seq<char>) -> (FwWriteStage, FwWriteDemand) {
    (FwWriteStage::Ended, FwWriteDemand::Fail(Seq::empty(), FwWriteFailure::Said(why)))
}

/// Writing an image.
pub open spec fn write_commits(lines: Seq<Seq<char>>, image: Seq<u8>) -> (
    FwWriteStage,
    FwWriteDemand,
) {
    (
        FwWriteStage::Writing(image),
        FwWriteDemand::Commit(lines, ImageType::Fw, image, "firmware"@),
    )
}

/// What comes after an event: the stage, and what is to be done.
pub open spec fn write_next(
    s: FwWriteStage,
    path: Seq<char>,
    bdf: Seq<char>,
    yes: bool,
    e: FwWriteEvent,
) -> (FwWriteStage, FwWriteDemand) {
    match (s, e) {
        (FwWriteStage::Loading, FwWriteEvent::Loaded(Err(why))) => write_fails(
            "read "@ + path + ": "@ + why@,
        ),
        (FwWriteStage::Loading, FwWriteEvent::Loaded(Ok(image))) => if image@.len() == 0 {
            write_fails(path + " is empty"@)
        } else {
            (FwWriteStage::Finding(image@), FwWriteDemand::Discover)
        },
        (FwWriteStage::Finding(_), FwWriteEvent::Found(Err(why))) => write_fails(
            "discover_one("@ + bdf + "): "@ + why@,
        ),
        (FwWriteStage::Finding(image), FwWriteEvent::Found(Ok(_))) => (
            FwWriteStage::Measuring(image),
            FwWriteDemand::ReadCurrent,
        ),
        (FwWriteStage::Measuring(_), FwWriteEvent::Measured(Err(why))) => write_fails(
            "FW_UPLOAD (for fit check): "@ + why@,
        ),
        (FwWriteStage::Measuring(image), FwWriteEvent::Measured(Ok(current))) => {
            let m = all_checks(image, current@);
            let lines = wizard_lines(path, bdf, image, m);
            match first_failed(m) {
                Some(c) => (
                    FwWriteStage::Ended,
                    FwWriteDemand::Fail(
                        lines,
                        FwWriteFailure::Said(
                            "refusing to flash — validation failed at '"@ + c.name + "': "@
                                + c.detail,
                        ),
                    ),
                ),
                None => if yes {
                    write_commits(lines, image)
                } else {
                    (FwWriteStage::Asking(image), FwWriteDemand::Ask(lines))
                },
            }
        },
        (FwWriteStage::Asking(image), FwWriteEvent::Answered(answer)) => if consents(answer@) {
            write_commits(Seq::empty(), image)
        } else {
            write_fails("aborted by user"@)
        },
        (FwWriteStage::Writing(image), FwWriteEvent::Written(Ok(_))) => (
            FwWriteStage::Ended,
            FwWriteDemand::Finish(
                "fw write: OK ("@ + dec(image.len()) + " bytes) — guarded transaction verified ✓"@,
            ),
        ),
        (FwWriteStage::Writing(_), FwWriteEvent::Written(Err(why))) => (
            FwWriteStage::Ended,
            FwWriteDemand::Fail(Seq::empty(), failing(why)),
        ),
        _ => (FwWriteStage::Ended, FwWriteDemand::Discover),
    }
}

fn give_up(why: String) -> (r: (FwWriteState, FwWriteAction))
    ensures
        (r.0@, r.1@) == write_fails(why@),
{
    let lines: Vec<String> = Vec::new();
    assert(strings(lines@) =~= Seq::empty());
    (FwWriteState::Ended, FwWriteAction::Fail { lines, error: Error::Other(why) })
}

fn go_on(lines: Vec<String>, image: Vec<u8>) -> (r: (FwWriteState, FwWriteAction))
    ensures
        (r.0@, r.1@) == write_commits(strings(lines@), image@),
{
    let intent = WriteIntent {
        region: ImageType::Fw,
        bytes: to_vec(image.as_slice()),
        label: "firmware".to_owned(),
    };
    (FwWriteState::Writing { image }, FwWriteAction::Commit { lines, intent })
}

/// Takes one step in writing firmware: the file is read, the adapter is found, its
/// running firmware is read, the new firmware is checked, the user is asked unless they
/// agreed beforehand, and the firmware is written.
pub fn run_write(state: FwWriteState, path: &str, bdf: &str, yes: bool, event: FwWriteEvent) -> (r:
    (FwWriteState, FwWriteAction))
    requires
        write_awaits(state@, event),
    ensures
        (r.0@, r.1@) == write_next(state@, path@, bdf@, yes, event),
{
    match (state, event) {
        (FwWriteState::Loading, FwWriteEvent::Loaded(Err(why))) => {
            let mut t = labelled("read ", path);
            t.append(": ");
            t.append(why.as_str());
            give_up(t)
        },
        (FwWriteState::Loading, FwWriteEvent::Loaded(Ok(image))) => {
            if image.len() == 0 {
                give_up(labelled(path, " is empty"))
            } else {
                (FwWriteState::Finding { image }, FwWriteAction::Discover)
            }
        },
        (FwWriteState::Finding { .. }, FwWriteEvent::Found(Err(why))) => {
            let mut t = labelled("discover_one(", bdf);
            t.append("): ");
            t.append(why.as_str());
            give_up(t)
        },
        (FwWriteState::Finding { image }, FwWriteEvent::Found(Ok(_))) => {
            (FwWriteState::Measuring { image }, FwWriteAction::ReadCurrent)
        },
        (FwWriteState::Measuring { .. }, FwWriteEvent::Measured(Err(why))) => {
            give_up(labelled("FW_UPLOAD (for fit check): ", why.as_str()))
        },
        (FwWriteState::Measuring { image }, FwWriteEvent::Measured(Ok(current))) => {
            let (lines, verdict) = judge_image(path, bdf, image.as_slice(), current.as_slice());
            match verdict {
                Err(error) => (FwWriteState::Ended, FwWriteAction::Fail { lines, error }),
                Ok(_) => {
                    if yes {
                        go_on(lines, image)
                    } else {
                        (FwWriteState::Asking { image }, FwWriteAction::Ask { lines })
                    }
                },
            }
        },
        (FwWriteState::Asking { image }, FwWriteEvent::Answered(answer)) => {
            if agrees(answer.as_str()) {
                let none: Vec<String> = Vec::new();
                assert(strings(none@) =~= Seq::empty());
                go_on(none, image)
            } else {
                give_up("aborted by user".to_owned())
            }
        },
        (FwWriteState::Writing { image }, FwWriteEvent::Written(Ok(_))) => {
            let mut t = "fw write: OK (".to_owned();
            push_dec(&mut t, image.len() as u64);
            t.append(" bytes) — guarded transaction verified ✓");
            (FwWriteState::Ended, FwWriteAction::Finish(t))
        },
        (FwWriteState::Writing { .. }, FwWriteEvent::Written(Err(error))) => {
            let lines: Vec<String> = Vec::new();
            assert(strings(lines@) =~= Seq::empty());
            (FwWriteState::Ended, FwWriteAction::Fail { lines, error })
        },
        _ => (FwWriteState::Ended, FwWriteAction::Discover),
    }
}

/// Firmware is never written without having passed all checks: from the reading of the
/// running firmware there is a way on only for an image that passed them.
pub proof fn failed_check_ends_write(
    image: Seq<u8>,
    path: Seq<char>,
    bdf: Seq<char>,
    yes: bool,
    current: Vec<u8>,
    i: int,
)
    requires
        0 <= i < all_checks(image, current@).len(),
        !all_checks(image, current@)[i].pass,
    ensures
        ({
            let (n, d) = write_next(
                FwWriteStage::Measuring(image),
                path,
                bdf,
                yes,
                FwWriteEvent::Measured(Ok(current)),
            );
            n is Ended && d is Fail
        }),
{
    some_failed(all_checks(image, current@), i);
}

proof fn some_failed(m: Seq<CheckModel>, i: int)
    requires
        0 <= i < m.len(),
        !m[i].pass,
    ensures
        first_failed(m) is Some,
    decreases m.len(),
{
    if i < m.len() - 1 {
        assert(m.drop_last()[i] == m[i]);
        some_failed(m.drop_last(), i);
    }
}

/// A write is ordered only for the image at hand, only after the checks or the question,
/// and only with the consent of the user.
pub proof fn write_needs_consent(
    s: FwWriteStage,
    path: Seq<char>,
    bdf: Seq<char>,
    yes: bool,
    e: FwWriteEvent,
)
    requires
        write_awaits(s, e),
        write_next(s, path, bdf, yes, e).1 is Commit,
    ensures
        match s {
            FwWriteStage::Measuring(image) => yes && write_next(s, path, bdf, yes, e).0
                == FwWriteStage::Writing(image) && (e matches FwWriteEvent::Measured(Ok(current))
                && first_failed(all_checks(image, current@)) is None),
            FwWriteStage::Asking(image) => write_next(s, path, bdf, yes, e).0
                == FwWriteStage::Writing(image) && (e matches FwWriteEvent::Answered(t)
                && consents(t@)),
            _ => false,
        },
{
}

/// How many steps of a write are left at most.
pub open spec fn write_left(s: FwWriteStage) -> nat {
    match s {
        FwWriteStage::Loading => 5,
        FwWriteStage::Finding(_) => 4,
        FwWriteStage::Measuring(_) => 3,
        FwWriteStage::Asking(_) => 2,
        FwWriteStage::Writing(_) => 1,
        FwWriteStage::Ended => 0,
    }
}

/// A write ends: each step leaves fewer steps.
pub proof fn write_ends(s: FwWriteStage, path: Seq<char>, bdf: Seq<char>, yes: bool, e: FwWriteEvent)
    requires
        write_awaits(s, e),
    ensures
        write_left(write_next(s, path, bdf, yes, e).0) < write_left(s),
{
}

// ------------------------------------------------------------------- laws

/// Whether the bytes `MPTFW-` stand at a position.
pub open spec fn mptfw_at(data: Seq<u8>, p: int) -> bool {
    0 <= p && p + 6 <= data.len() && data[p] == 0x4D && data[p + 1] == 0x50 && data[p + 2] == 0x54
        && data[p + 3] == 0x46 && data[p + 4] == 0x57 && data[p + 5] == 0x2D
}

proof fn mark_is_mptfw(data: Seq<u8>, p: int)
    ensures
        mark_at(data, p) == mptfw_at(data, p),
{
    if 0 <= p && p + 6 <= data.len() {
        let s = data.subrange(p, p + 6);
        assert(s[0] == data[p] && s[1] == data[p + 1] && s[2] == data[p + 2] && s[3] == data[p + 3]
            && s[4] == data[p + 4] && s[5] == data[p + 5]);
        if mptfw_at(data, p) {
            assert(s =~= banner_mark());
        }
    }
}

/// The banner is what stands from the first `MPTFW-` up to the first zero or space after it:
/// it is found wherever that is text.
pub proof fn banner_is_found(data: Seq<u8>, b: Option<Seq<char>>, p: int, end: int)
    requires
        is_banner(data, b),
        mptfw_at(data, p),
        forall|q: int| 0 <= q < p ==> !#[trigger] mptfw_at(data, q),
        p <= end <= data.len(),
        forall|k: int| p <= k < end ==> data[k] != 0 && data[k] != 0x20,
        end == data.len() || data[end] == 0 || data[end] == 0x20,
    ensures
        b is Some <==> vstd::utf8::valid_utf8(data.subrange(p, end)),
        b matches Some(t) ==> t == vstd::utf8::decode_utf8(data.subrange(p, end)),
{
    mark_is_mptfw(data, p);
    assert forall|q: int| 0 <= q < p implies !#[trigger] mark_at(data, q) by {
        mark_is_mptfw(data, q);
        assert(!mptfw_at(data, q));
    }
    banner_is(data, p, end);
}

/// Without `MPTFW-` there is no banner.
pub proof fn no_mark_no_banner(data: Seq<u8>, b: Option<Seq<char>>)
    requires
        is_banner(data, b),
        forall|q: int| !#[trigger] mptfw_at(data, q),
    ensures
        b is None,
{
    if b is Some {
        let p = choose|p: int| #[trigger]
            mark_at(data, p) && (forall|q: int| 0 <= q < p ==> !#[trigger] mark_at(data, q));
        mark_is_mptfw(data, p);
    }
}

/// Reading firmware asks a found adapter for the image of type zero, the running firmware, or
/// of type one, that in the flash; what is given out is what the adapter sent, or what was
/// read past it; and an adapter that is not found, or sends nothing, is read past.
pub proof fn reading_gives_what_came(
    s: FwReadState,
    running: bool,
    e: FwReadEvent,
    n: FwReadState,
    a: FwReadAction,
)
    requires
        read_awaits(s, e),
        read_next(s, running, e, n, a),
    ensures
        e matches FwReadEvent::Found(Ok(_)) ==> n == FwReadState::Uploading && a
            == FwReadAction::Upload(
            if running {
                0
            } else {
                1
            },
        ),
        e matches FwReadEvent::Uploaded(Ok(got)) ==> (a matches FwReadAction::Deliver {
            report,
            data,
        } && data@ == got@),
        e matches FwReadEvent::Read(Ok(got)) ==> (a matches FwReadAction::Deliver { report, data }
            && data@ == got@),
        e matches FwReadEvent::Found(Err(_)) ==> n == FwReadState::ReadingBackdoor
            && a is ReadBackdoor,
        e matches FwReadEvent::Uploaded(Err(_)) ==> n == FwReadState::ReadingBackdoor
            && a is ReadBackdoor,
        e matches FwReadEvent::Read(Err(why)) ==> n == FwReadState::Ended && a
            == FwReadAction::Fail(why),
{
}

/// The image that a write is about.
pub open spec fn image_of(s: FwWriteStage) -> Option<Seq<u8>> {
    match s {
        FwWriteStage::Finding(i) => Some(i),
        FwWriteStage::Measuring(i) => Some(i),
        FwWriteStage::Asking(i) => Some(i),
        FwWriteStage::Writing(i) => Some(i),
        _ => None,
    }
}

/// The file that was loaded is the image that is looked at, asked about and written: it is
/// never exchanged on the way, and it is written as firmware, all of it.
pub proof fn loaded_image_is_written(
    s: FwWriteStage,
    path: Seq<char>,
    bdf: Seq<char>,
    yes: bool,
    e: FwWriteEvent,
)
    requires
        write_awaits(s, e),
    ensures
        ({
            let (n, d) = write_next(s, path, bdf, yes, e);
            &&& match e {
                FwWriteEvent::Loaded(Ok(loaded)) => if loaded@.len() == 0 {
                    n is Ended
                } else {
                    image_of(n) == Some(loaded@)
                },
                _ => n is Ended || s is Loading || image_of(n) == image_of(s),
            }
            &&& match d {
                FwWriteDemand::Commit(_, region, bytes, _) => region == ImageType::Fw && Some(bytes)
                    == image_of(s) && n == FwWriteStage::Writing(bytes),
                _ => true,
            }
        }),
{
}

/// A write goes on in one order: the file, the adapter, its running firmware, the question
/// and the writing. It ends well only where the writing went well, and badly with every error
/// on the way.
pub proof fn write_goes_in_order(
    s: FwWriteStage,
    path: Seq<char>,
    bdf: Seq<char>,
    yes: bool,
    e: FwWriteEvent,
)
    requires
        write_awaits(s, e),
    ensures
        ({
            let (n, d) = write_next(s, path, bdf, yes, e);
            &&& s is Loading ==> n is Finding && d is Discover || n is Ended && d is Fail
            &&& s is Finding ==> n is Measuring && d is ReadCurrent || n is Ended && d is Fail
            &&& s is Measuring ==> n is Asking && d is Ask && !yes || n is Writing && d is Commit
                && yes || n is Ended && d is Fail
            &&& s is Asking ==> n is Writing && d is Commit || n is Ended && d is Fail
            &&& s is Writing ==> n is Ended && (d is Finish || d is Fail)
            &&& d is Finish <==> (e matches FwWriteEvent::Written(Ok(_)))
            &&& (e matches FwWriteEvent::Loaded(Err(_))) ==> d is Fail
            &&& (e matches FwWriteEvent::Found(Err(_))) ==> d is Fail
            &&& (e matches FwWriteEvent::Found(Ok(_))) ==> d !is Fail
            &&& (e matches FwWriteEvent::Measured(Err(_))) ==> d is Fail
            &&& (e matches FwWriteEvent::Written(Err(_))) ==> d is Fail
        }),
{
}

/// Firmware goes on to be written exactly where it is valid by itself and fits the adapter.
pub proof fn only_valid_firmware_goes_on(
    image: Seq<u8>,
    path: Seq<char>,
    bdf: Seq<char>,
    yes: bool,
    current: Vec<u8>,
    v: FwValidation,
)
    requires
        check_models(v.checks@) == image_checks(image),
    ensures
        write_next(
            FwWriteStage::Measuring(image),
            path,
            bdf,
            yes,
            FwWriteEvent::Measured(Ok(current)),
        ).1 !is Fail <==> {
            &&& forall|i: int| 0 <= i < v.checks@.len() ==> (#[trigger] v.checks@[i]).pass
            &&& fit_check(image, current@).pass
        },
{
    let m = all_checks(image, current@);
    let k = image_checks(image);
    assert(k.len() == v.checks@.len());
    assert forall|i: int| 0 <= i < k.len() implies #[trigger] m[i] == v.checks@[i]@ by {
        assert(check_models(v.checks@)[i] == v.checks@[i]@);
    }
    assert(m[m.len() - 1] == fit_check(image, current@));
    if first_failed(m) is None {
        assert forall|i: int| 0 <= i < v.checks@.len() implies (#[trigger] v.checks@[i]).pass by {
            if !v.checks@[i].pass {
                assert(m[i] == v.checks@[i]@);
                some_failed(m, i);
            }
        }
        if !fit_check(image, current@).pass {
            some_failed(m, m.len() - 1);
        }
    } else if (forall|i: int| 0 <= i < v.checks@.len() ==> (#[trigger] v.checks@[i]).pass)
        && fit_check(image, current@).pass {
        assert forall|i: int| 0 <= i < m.len() implies (#[trigger] m[i]).pass by {
            if i < k.len() {
                assert(m[i] == v.checks@[i]@);
            }
        }
        none_failed(m);
    }
}

/// The first check that failed is the one that is told of.
pub proof fn first_failed_check_is_named(
    image: Seq<u8>,
    path: Seq<char>,
    bdf: Seq<char>,
    yes: bool,
    current: Vec<u8>,
    i: int,
)
    requires
        0 <= i < all_checks(image, current@).len(),
        !all_checks(image, current@)[i].pass,
        forall|j: int| 0 <= j < i ==> (#[trigger] all_checks(image, current@)[j]).pass,
    ensures
        write_next(
            FwWriteStage::Measuring(image),
            path,
            bdf,
            yes,
            FwWriteEvent::Measured(Ok(current)),
        ).1 matches FwWriteDemand::Fail(lines, FwWriteFailure::Said(t)) && t
            == "refusing to flash — validation failed at '"@ + all_checks(image, current@)[i].name
            + "': "@ + all_checks(image, current@)[i].detail,
{
    this_failed(all_checks(image, current@), i);
}

/// An answer is a yes exactly where it is `y`, `Y`, `yes` or `YES`, with nothing but white
/// space around it.
pub proof fn only_these_words_agree(a: Seq<char>, w: Seq<char>, b: Seq<char>)
    requires
        forall|i: int| 0 <= i < a.len() ==> is_white(#[trigger] a[i]),
        forall|i: int| 0 <= i < b.len() ==> is_white(#[trigger] b[i]),
        w.len() > 0 && !is_white(w[0]) && !is_white(w.last()),
    ensures
        consents(a + w + b) <==> {
            ||| w == seq!['y']
            ||| w == seq!['Y']
            ||| w == seq!['y', 'e', 's']
            ||| w == seq!['Y', 'E', 'S']
        },
        !consents(a),
{
    reveal_strlit("y");
    reveal_strlit("Y");
    reveal_strlit("yes");
    reveal_strlit("YES");
    assert("y"@ =~= seq!['y']);
    assert("Y"@ =~= seq!['Y']);
    assert("yes"@ =~= seq!['y', 'e', 's']);
    assert("YES"@ =~= seq!['Y', 'E', 'S']);
    let s = a + w + b;
    let (x, y) = (a.len() as int, a.len() + w.len());
    trimming_is_exact(s);
    let (j, k) = choose|j: int, k: int|
        0 <= j <= k <= s.len() && trim(s) == #[trigger] s.subrange(j, k) && (forall|i: int|
            0 <= i < j || k <= i < s.len() ==> is_white(#[trigger] s[i]));
    let t = s.subrange(j, k);
    assert(s[x] == w[0]);
    assert(s[y - 1] == w.last());
    assert(j <= x && y <= k);
    assert(t[0] == s[j] && t.last() == s[k - 1]);
    if j < x {
        assert(s[j] == a[j]);
    }
    if k > y {
        assert(s[k - 1] == b[k - 1 - y]);
    }
    assert(t =~= w);
    trimming_is_exact(a);
    let (l, m) = choose|l: int, m: int|
        0 <= l <= m <= a.len() && trim(a) == #[trigger] a.subrange(l, m) && (forall|i: int|
            0 <= i < l || m <= i < a.len() ==> is_white(#[trigger] a[i]));
    if l < m {
        assert(trim(a)[0] == a[l]);
    }
}

} // verus!
