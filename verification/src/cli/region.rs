//! Reading and writing the other images of an adapter: the option ROM and the
//! configuration data.

use crate::bytes::to_vec;
use crate::digest::{sha256_hex, sha256_text};
use crate::error::Error;
use crate::text::{dec, labelled, push_dec, same_text};
use vstd::prelude::*;

verus! {

/// What is to be done with an image.
#[derive(Debug)]
pub enum RegionCommand {
    /// Read it.
    Read(RegionReadArgs),
    /// Write it.
    Write(RegionWriteArgs),
}

/// How an image is to be read.
#[derive(Debug)]
pub struct RegionReadArgs {
    /// Where to put it, if not on the standard output.
    pub out: Option<String>,
}

/// How an image is to be written.
#[derive(Debug)]
pub struct RegionWriteArgs {
    /// The file that holds it.
    pub from_file: String,
    /// Whether the user agrees.
    pub yes: bool,
}

/// The message on an adapter that was not found.
pub open spec fn not_found(bdf: Seq<char>, why: Seq<char>) -> Seq<char> {
    "discover_one("@ + bdf + "): "@ + why
}

/// The message on an adapter that was not found.
pub fn not_found_text(bdf: &str, why: &str) -> (r: String)
    ensures
        r@ == not_found(bdf@, why@),
{
    let mut t = labelled("discover_one(", bdf);
    t.append("): ");
    t.append(why);
    t
}

/// What came of looking for an adapter and reading an image of it.
#[derive(Debug)]
pub enum RegionReading {
    /// The adapter was not found.
    NotFound(String),
    /// The image cannot be read.
    Failed(String),
    /// The image.
    Data(Vec<u8>),
}

/// Judges the reading of an image: the line to show, or an error.
pub fn run_read(bdf: &str, region: &str, reading: &RegionReading) -> (r: Result<String, Error>)
    ensures
        match reading {
            RegionReading::NotFound(why) => r matches Err(Error::Other(t)) && t@ == not_found(
                bdf@,
                why@,
            ),
            RegionReading::Failed(why) => r matches Err(Error::Other(t)) && t@ == region@
                + " read: "@ + why@,
            RegionReading::Data(data) => r matches Ok(t) && t@ == region@ + " read: "@ + dec(
                data@.len(),
            ) + " bytes, sha256="@ + sha256_text(data@),
        },
{
    match reading {
        RegionReading::NotFound(why) => Err(Error::Other(not_found_text(bdf, why.as_str()))),
        RegionReading::Failed(why) => {
            let mut t = labelled(region, " read: ");
            t.append(why.as_str());
            Err(Error::Other(t))
        },
        RegionReading::Data(data) => {
            let mut t = labelled(region, " read: ");
            push_dec(&mut t, data.len() as u64);
            t.append(" bytes, sha256=");
            t.append(sha256_hex(data.as_slice()).as_str());
            Ok(t)
        },
    }
}

// ---------------------------------------------------------------- writing

/// Where a write stands.
#[derive(Debug)]
pub enum RegionWriteState {
    /// The file is read.
    Loading,
    /// The adapter is looked for.
    Finding { data: Vec<u8> },
    /// The image is written.
    Sending { data: Vec<u8> },
    /// The image is read back.
    Checking { data: Vec<u8> },
    /// It is over.
    Ended,
}

/// What a state stands for.
#[verifier::ext_equal]
pub enum RegionStage {
    Loading,
    Finding(Seq<u8>),
    Sending(Seq<u8>),
    Checking(Seq<u8>),
    Ended,
}

impl View for RegionWriteState {
    type V = RegionStage;

    open spec fn view(&self) -> RegionStage {
        match self {
            RegionWriteState::Loading => RegionStage::Loading,
            RegionWriteState::Finding { data } => RegionStage::Finding(data@),
            RegionWriteState::Sending { data } => RegionStage::Sending(data@),
            RegionWriteState::Checking { data } => RegionStage::Checking(data@),
            RegionWriteState::Ended => RegionStage::Ended,
        }
    }
}

/// What happens during a write.
#[derive(Debug)]
pub enum RegionEvent {
    /// The file was read, or why not.
    Loaded(Result<Vec<u8>, String>),
    /// The adapter was found, or why not.
    Found(Result<(), String>),
    /// The image was written, or why not.
    Sent(Result<(), String>),
    /// The image was read back, or why not.
    ReadBack(Result<Vec<u8>, String>),
}

/// What is to be done for a write.
#[derive(Debug)]
pub enum RegionAction {
    /// Look for the adapter.
    Discover,
    /// Write the image.
    Send(Vec<u8>),
    /// Read the image back.
    ReadBack,
    /// Say how it went.
    Finish(String),
    /// Give up, and say why.
    Fail(String),
}

/// What an action stands for.
#[verifier::ext_equal]
pub enum RegionDemand {
    Discover,
    Send(Seq<u8>),
    ReadBack,
    Finish(Seq<char>),
    Fail(Seq<char>),
}

impl View for RegionAction {
    type V = RegionDemand;

    open spec fn view(&self) -> RegionDemand {
        match self {
            RegionAction::Discover => RegionDemand::Discover,
            RegionAction::Send(data) => RegionDemand::Send(data@),
            RegionAction::ReadBack => RegionDemand::ReadBack,
            RegionAction::Finish(t) => RegionDemand::Finish(t@),
            RegionAction::Fail(t) => RegionDemand::Fail(t@),
        }
    }
}

/// Whether an event is one that can come at a stage.
pub open spec fn region_awaits(s: RegionStage, e: RegionEvent) -> bool {
    match s {
        RegionStage::Loading => e is Loaded,
        RegionStage::Finding(_) => e is Found,
        RegionStage::Sending(_) => e is Sent,
        RegionStage::Checking(_) => e is ReadBack,
        RegionStage::Ended => false,
    }
}

/// What was read back, as far as the image goes.
pub open spec fn compared_part(back: Seq<u8>, data: Seq<u8>) -> Seq<u8> {
    if back.len() < data.len() {
        back
    } else {
        back.take(data.len() as int)
    }
}

/// What the reading back of an image comes to: what to say, or what is wrong.
pub open spec fn readback_verdict(
    region: Seq<char>,
    data: Seq<u8>,
    back: Result<Vec<u8>, String>,
) -> RegionDemand {
    let head = region + " write: OK ("@ + dec(data.len()) + " bytes), "@;
    match back {
        Err(why) => RegionDemand::Finish(
            head + "but read-back verify failed: "@ + why@ + " (verify manually)"@,
        ),
        Ok(b) => {
            let want = sha256_text(data);
            let got = sha256_text(compared_part(b@, data));
            if got == want {
                RegionDemand::Finish(head + "read-back verified ✓"@)
            } else {
                RegionDemand::Fail(
                    region + " write: read-back MISMATCH (wrote "@ + want + " got "@ + got
                        + ") — investigate before trusting"@,
                )
            }
        },
    }
}

/// What comes after an event: the stage, and what is to be done.
pub open spec fn region_next(
    s: RegionStage,
    bdf: Seq<char>,
    region: Seq<char>,
    path: Seq<char>,
    yes: bool,
    e: RegionEvent,
) -> (RegionStage, RegionDemand) {
    match (s, e) {
        (RegionStage::Loading, RegionEvent::Loaded(Err(why))) => (
            RegionStage::Ended,
            RegionDemand::Fail("read "@ + path + ": "@ + why@),
        ),
        (RegionStage::Loading, RegionEvent::Loaded(Ok(data))) => if data@.len() == 0 {
            (RegionStage::Ended, RegionDemand::Fail(path + " is empty"@))
        } else if !yes {
            (
                RegionStage::Ended,
                RegionDemand::Fail(
                    "Refusing destructive "@ + region + " write without --yes ("@ + dec(data@.len())
                        + " bytes, sha256="@ + sha256_text(data@) + ")."@,
                ),
            )
        } else {
            (RegionStage::Finding(data@), RegionDemand::Discover)
        },
        (RegionStage::Finding(_), RegionEvent::Found(Err(why))) => (
            RegionStage::Ended,
            RegionDemand::Fail(not_found(bdf, why@)),
        ),
        (RegionStage::Finding(data), RegionEvent::Found(Ok(_))) => (
            RegionStage::Sending(data),
            RegionDemand::Send(data),
        ),
        (RegionStage::Sending(_), RegionEvent::Sent(Err(why))) => (
            RegionStage::Ended,
            RegionDemand::Fail(region + " write: "@ + why@),
        ),
        (RegionStage::Sending(data), RegionEvent::Sent(Ok(_))) => (
            RegionStage::Checking(data),
            RegionDemand::ReadBack,
        ),
        (RegionStage::Checking(data), RegionEvent::ReadBack(back)) => (
            RegionStage::Ended,
            readback_verdict(region, data, back),
        ),
        _ => (RegionStage::Ended, RegionDemand::Discover),
    }
}

/// Judges what was read back of an image.
pub fn judge_readback(region: &str, data: &[u8], back: &Result<Vec<u8>, String>) -> (r: RegionAction)
    ensures
        r@ == readback_verdict(region@, data@, *back),
{
    let mut head = labelled(region, " write: OK (");
    push_dec(&mut head, data.len() as u64);
    head.append(" bytes), ");
    match back {
        Err(why) => {
            head.append("but read-back verify failed: ");
            head.append(why.as_str());
            head.append(" (verify manually)");
            RegionAction::Finish(head)
        },
        Ok(b) => {
            let n: usize = if b.len() < data.len() { b.len() } else { data.len() };
            let part = &b.as_slice()[0..n];
            assert(part@ =~= compared_part(b@, data@));
            let want = sha256_hex(data);
            let got = sha256_hex(part);
            if same_text(got.as_str(), want.as_str()) {
                head.append("read-back verified ✓");
                RegionAction::Finish(head)
            } else {
                let mut t = labelled(region, " write: read-back MISMATCH (wrote ");
                t.append(want.as_str());
                t.append(" got ");
                t.append(got.as_str());
                t.append(") — investigate before trusting");
                RegionAction::Fail(t)
            }
        },
    }
}

/// Takes one step in writing an image: the file is read, the adapter is found, the image
/// is written and read back. Without consent nothing is written.
pub fn run_write(
    state: RegionWriteState,
    bdf: &str,
    region: &str,
    path: &str,
    yes: bool,
    event: RegionEvent,
) -> (r: (RegionWriteState, RegionAction))
    requires
        region_awaits(state@, event),
    ensures
        (r.0@, r.1@) == region_next(state@, bdf@, region@, path@, yes, event),
{
    match (state, event) {
        (RegionWriteState::Loading, RegionEvent::Loaded(Err(why))) => {
            let mut t = labelled("read ", path);
            t.append(": ");
            t.append(why.as_str());
            (RegionWriteState::Ended, RegionAction::Fail(t))
        },
        (RegionWriteState::Loading, RegionEvent::Loaded(Ok(data))) => {
            if data.len() == 0 {
                (RegionWriteState::Ended, RegionAction::Fail(labelled(path, " is empty")))
            } else if !yes {
                let mut t = labelled("Refusing destructive ", region);
                t.append(" write without --yes (");
                push_dec(&mut t, data.len() as u64);
                t.append(" bytes, sha256=");
                t.append(sha256_hex(data.as_slice()).as_str());
                t.append(").");
                (RegionWriteState::Ended, RegionAction::Fail(t))
            } else {
                (RegionWriteState::Finding { data }, RegionAction::Discover)
            }
        },
        (RegionWriteState::Finding { .. }, RegionEvent::Found(Err(why))) => {
            (RegionWriteState::Ended, RegionAction::Fail(not_found_text(bdf, why.as_str())))
        },
        (RegionWriteState::Finding { data }, RegionEvent::Found(Ok(_))) => {
            let copy = to_vec(data.as_slice());
            (RegionWriteState::Sending { data }, RegionAction::Send(copy))
        },
        (RegionWriteState::Sending { .. }, RegionEvent::Sent(Err(why))) => {
            let mut t = labelled(region, " write: ");
            t.append(why.as_str());
            (RegionWriteState::Ended, RegionAction::Fail(t))
        },
        (RegionWriteState::Sending { data }, RegionEvent::Sent(Ok(_))) => {
            (RegionWriteState::Checking { data }, RegionAction::ReadBack)
        },
        (RegionWriteState::Checking { data }, RegionEvent::ReadBack(back)) => {
            (RegionWriteState::Ended, judge_readback(region, data.as_slice(), &back))
        },
        _ => (RegionWriteState::Ended, RegionAction::Discover),
    }
}

/// Nothing is written without consent: without it the write ends as soon as the file was
/// read.
pub proof fn no_consent_no_write(
    bdf: Seq<char>,
    region: Seq<char>,
    path: Seq<char>,
    e: RegionEvent,
)
    requires
        region_awaits(RegionStage::Loading, e),
    ensures
        region_next(RegionStage::Loading, bdf, region, path, false, e).0 is Ended,
        region_next(RegionStage::Loading, bdf, region, path, false, e).1 is Fail,
{
}

/// What is written is what the file held: the image stays the same from step to step.
pub proof fn image_is_kept(
    s: RegionStage,
    bdf: Seq<char>,
    region: Seq<char>,
    path: Seq<char>,
    yes: bool,
    e: RegionEvent,
)
    requires
        region_awaits(s, e),
    ensures
        match region_next(s, bdf, region, path, yes, e).0 {
            RegionStage::Loading => false,
            RegionStage::Finding(data) => e matches RegionEvent::Loaded(Ok(d)) && d@ == data,
            RegionStage::Sending(data) => s == RegionStage::Finding(data) && region_next(
                s,
                bdf,
                region,
                path,
                yes,
                e,
            ).1 == RegionDemand::Send(data),
            RegionStage::Checking(data) => s == RegionStage::Sending(data),
            RegionStage::Ended => true,
        },
{
}

/// How far a write is from its end.
pub open spec fn region_steps_left(s: RegionStage) -> int {
    match s {
        RegionStage::Loading => 4,
        RegionStage::Finding(_) => 3,
        RegionStage::Sending(_) => 2,
        RegionStage::Checking(_) => 1,
        RegionStage::Ended => 0,
    }
}

/// A write comes nearer to its end with every step, and ends exactly where it says how it
/// went. It is never said to have gone well before the image was read back.
pub proof fn region_write_ends(
    s: RegionStage,
    bdf: Seq<char>,
    region: Seq<char>,
    path: Seq<char>,
    yes: bool,
    e: RegionEvent,
)
    requires
        region_awaits(s, e),
    ensures
        ({
            let (t, a) = region_next(s, bdf, region, path, yes, e);
            &&& 0 <= region_steps_left(t) < region_steps_left(s)
            &&& t is Ended <==> (a is Finish || a is Fail)
            &&& a is Finish ==> s is Checking
        }),
{
}

/// An image that is read back as it was written passes, whatever follows it.
pub proof fn faithful_image_passes(region: Seq<char>, data: Seq<u8>, back: Vec<u8>)
    requires
        back@.len() >= data.len(),
        back@.take(data.len() as int) == data,
    ensures
        readback_verdict(region, data, Ok(back)) == RegionDemand::Finish(
            region + " write: OK ("@ + dec(data.len()) + " bytes), "@ + "read-back verified ✓"@,
        ),
{
}

/// An image is said to be verified only where as many bytes as were written have, read back, the
/// digest of what was written.
pub proof fn verified_image_has_its_digest(region: Seq<char>, data: Seq<u8>, back: Vec<u8>)
    ensures
        back@.len() >= data.len() ==> (readback_verdict(region, data, Ok(back)) is Finish
            <==> sha256_text(back@.take(data.len() as int)) == sha256_text(data)),
        back@.len() < data.len() ==> (readback_verdict(region, data, Ok(back)) is Finish
            <==> sha256_text(back@) == sha256_text(data)),
        readback_verdict(region, data, Ok(back)) is Finish
            || readback_verdict(region, data, Ok(back)) is Fail,
{
}

/// With consent the image of the file is sent as it is: the file was read and is not empty, the
/// adapter is looked for, what is then sent are the bytes of the file, and they are read back.
pub proof fn consented_image_is_sent(
    bdf: Seq<char>,
    region: Seq<char>,
    path: Seq<char>,
    data: Vec<u8>,
)
    ensures
        data@.len() > 0 ==> region_next(
            RegionStage::Loading,
            bdf,
            region,
            path,
            true,
            RegionEvent::Loaded(Ok(data)),
        ) == (RegionStage::Finding(data@), RegionDemand::Discover),
        data@.len() == 0 ==> region_next(
            RegionStage::Loading,
            bdf,
            region,
            path,
            true,
            RegionEvent::Loaded(Ok(data)),
        ).1 is Fail,
        region_next(
            RegionStage::Finding(data@),
            bdf,
            region,
            path,
            true,
            RegionEvent::Found(Ok(())),
        ) == (RegionStage::Sending(data@), RegionDemand::Send(data@)),
        region_next(
            RegionStage::Sending(data@),
            bdf,
            region,
            path,
            true,
            RegionEvent::Sent(Ok(())),
        ) == (RegionStage::Checking(data@), RegionDemand::ReadBack),
{
}

} // verus!
