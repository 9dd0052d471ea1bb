//! The commands.

pub mod backup;
pub mod config;
pub mod detect;
pub mod diff;
pub mod erase;
pub mod flash;
pub mod fw;
pub mod recover;
pub mod region;
pub mod safety;
pub mod sbr;

use crate::bytes::{le32, push_u32};
use crate::cli::config::ConfigSubCommand;
use crate::cli::region::{RegionCommand, RegionWriteArgs};
use crate::cli::sbr::SbrCommand;
use crate::digest::{sha256_hex, sha256_text};
use crate::error::Error;
use crate::mpi::messages::ImageType;
use crate::text::{
    chars_of, dec, hex, hex_pad, hex_pad_is_plain, hexadecimal_round_trip, labelled,
    number_result, push_dec, push_hex, push_hex_pad, read_number, NumberFault,
};
use vstd::prelude::*;

verus! {

/// What the user asks for.
#[derive(Debug)]
pub struct Cli {
    /// The command.
    pub command: Command,
    /// Whether to answer in JSON.
    pub json: bool,
    /// Which adapter.
    pub pci: Option<String>,
}

/// The commands.
#[derive(Debug)]
pub enum Command {
    /// Say which adapters there are.
    Detect { bdf_only: bool },
    /// Back up an adapter.
    Backup { out: Option<String> },
    /// Flash an adapter in one go.
    Flash {
        mode: Mode,
        identity: Option<String>,
        dry_run: bool,
        yes: bool,
        keep_sas_address: bool,
        firmware: Option<String>,
        no_bios: bool,
        backup_dir: Option<String>,
        wipe_mfg_pages: bool,
    },
    /// Restore an adapter from a backup.
    Restore { backup_dir: String, yes: bool, dry_run: bool },
    /// Work on the firmware.
    Fw { sub: FwCommand },
    /// Work on the option ROM.
    Bios { sub: RegionCommand },
    /// Work on the configuration data.
    Nvdata { sub: RegionCommand },
    /// Work on the boot record.
    Sbr { sub: SbrCommand },
    /// Work on the configuration pages.
    Config { sub: ConfigSubCommand },
    /// Look into a controller.
    Debug { sub: DebugCommand },
    /// Work on a firmware file.
    Firmware { sub: FirmwareCommand },
}

/// How the firmware is to be read.
#[derive(Debug)]
pub struct FwReadArgs {
    /// Where to put it, if not on the standard output.
    pub out: Option<String>,
    /// Whether to read the running firmware in place of that in the flash.
    pub running: bool,
}

/// What is to be done with the firmware.
#[derive(Debug)]
pub enum FwCommand {
    /// Read it.
    Read(FwReadArgs),
    /// Write it.
    Write(RegionWriteArgs),
    /// Turn the order of the ports round in a file.
    ReversePhy { input: String, output: String },
}

/// How to look into a controller.
#[derive(Debug)]
pub enum DebugCommand {
    /// Send an erase request.
    Erase { yes: bool, wipe_mfg_pages: bool },
    /// Read memory of the chip.
    ChipRead { addr: String, len: usize, out: Option<String> },
    /// Read words of the chip at even distances.
    ChipScan { addr: String, stride: String, count: usize },
    /// Write memory of the chip.
    ChipWrite { addr: String, value: Option<String>, input: Option<String>, yes: bool },
    /// Read control registers of the processor.
    DcrScan { addr: String, count: usize },
}

/// What kind of adapter flashing is to make.
#[derive(Debug, Clone, Copy, PartialEq, Eq, Structural)]
pub enum Mode {
    /// An adapter that passes its disks through.
    HBA,
    /// An adapter that makes arrays of its disks.
    RAID,
}

/// What is to be done with a firmware file.
#[derive(Debug)]
pub enum FirmwareCommand {
    /// Turn the order of the ports round.
    ReversePhy { input: String, output: String },
}

// ---------------------------------------------------------------- numbers

/// What follows the marks of hexadecimal notation.
pub open spec fn unmarked(s: Seq<char>) -> Seq<char>
    decreases s.len(),
{
    if s.len() >= 2 && s[0] == '0' && s[1] == 'x' {
        unmarked(s.skip(2))
    } else {
        s
    }
}

/// The 32-bit number that a text gives in hexadecimal.
pub open spec fn hex_number(s: Seq<char>) -> Result<nat, NumberFault> {
    number_result(unmarked(s), 16, 0xFFFF_FFFF)
}

/// The 32-bit number that a text gives in hexadecimal or, where it cannot be that, in
/// decimal.
pub open spec fn any_number(s: Seq<char>) -> Result<nat, NumberFault> {
    match hex_number(s) {
        Ok(n) => Ok(n),
        Err(_) => number_result(s, 10, 0xFFFF_FFFF),
    }
}

/// What a 32-bit number stands for.
pub open spec fn as_nat(r: Result<u32, NumberFault>) -> Result<nat, NumberFault> {
    match r {
        Ok(n) => Ok(n as nat),
        Err(e) => Err(e),
    }
}

fn read_hex(s: &str) -> (r: Result<u32, NumberFault>)
    ensures
        as_nat(r) == hex_number(s@),
{
    let cs = chars_of(s);
    let len: usize = cs.len();
    let mut i: usize = 0;
    assert(cs@.skip(0) =~= cs@);
    while len - i >= 2 && cs[i] == '0' && cs[i + 1] == 'x'
        invariant
            len == cs@.len(),
            i <= len,
            unmarked(cs@) == unmarked(cs@.skip(i as int)),
        decreases len - i,
    {
        let ghost u = cs@.skip(i as int);
        assert(u[0] == cs@[i as int] && u[1] == cs@[i + 1]);
        assert(u.skip(2) =~= cs@.skip(i + 2));
        i += 2;
    }
    let rest = &cs.as_slice()[i..len];
    assert(rest@ =~= cs@.skip(i as int));
    assert(len - i >= 2 ==> rest@[0] == cs@[i as int] && rest@[1] == cs@[i + 1]);
    match read_number(rest, 16, 0xFFFF_FFFF) {
        Ok(n) => Ok(n as u32),
        Err(e) => Err(e),
    }
}

fn read_any(s: &str) -> (r: Result<u32, NumberFault>)
    ensures
        as_nat(r) == any_number(s@),
{
    match read_hex(s) {
        Ok(n) => Ok(n),
        Err(_) => match read_number(chars_of(s).as_slice(), 10, 0xFFFF_FFFF) {
            Ok(n) => Ok(n as u32),
            Err(e) => Err(e),
        },
    }
}

// ------------------------------------------------------------------- jobs

/// Where the bytes come from that are to be written to a chip.
#[derive(Debug)]
pub enum ChipSource {
    /// They were given.
    Bytes(Vec<u8>),
    /// They are in a file.
    File(String),
}

/// What there is to do, with all that was read from the words of the user.
#[derive(Debug)]
pub enum Job {
    Detect { json: bool, bdf_only: bool },
    Backup { out: Option<String>, json: bool, pci: Option<String> },
    Flash {
        mode: Mode,
        identity: Option<String>,
        dry_run: bool,
        yes: bool,
        keep_sas_address: bool,
        firmware: Option<String>,
        no_bios: bool,
        backup_dir: Option<String>,
        wipe_mfg_pages: bool,
        json: bool,
    },
    Restore { backup_dir: String, yes: bool, json: bool, pci: Option<String>, dry_run: bool },
    FwRead { bdf: String, running: bool, out: Option<String> },
    FwWrite { bdf: String, from_file: String, yes: bool },
    ReversePhy { input: String, output: String, explain: bool },
    RegionRead { bdf: String, image_type: ImageType, out: Option<String> },
    RegionWrite { bdf: String, image_type: ImageType, from_file: String, yes: bool },
    Sbr { sub: SbrCommand },
    Erase { pci: Option<String>, yes: bool, wipe_mfg_pages: bool, json: bool },
    ChipRead { bdf: String, addr: u32, len: usize, out: Option<String> },
    ChipScan { bdf: String, base: u32, stride: u32, count: usize },
    ChipWrite { bdf: String, addr: u32, source: ChipSource },
    DcrScan { bdf: String, base: u32, count: usize },
    Config { bdf: String, sub: ConfigSubCommand },
}

/// Whether an error has certain words of its own.
pub open spec fn says(r: Result<Job, Error>, t: Seq<char>) -> bool {
    r matches Err(Error::Other(s)) && s@ == t
}

/// Whether `r` is the plan for work on an image of an adapter.
pub open spec fn region_plan(
    sub: RegionCommand,
    image_type: ImageType,
    bdf: String,
    r: Result<Job, Error>,
) -> bool {
    match sub {
        RegionCommand::Read(a) => r == Ok::<Job, Error>(
            Job::RegionRead { bdf, image_type, out: a.out },
        ),
        RegionCommand::Write(a) => r == Ok::<Job, Error>(
            Job::RegionWrite { bdf, image_type, from_file: a.from_file, yes: a.yes },
        ),
    }
}

/// Whether `r` is the plan for a look into a controller.
pub open spec fn debug_plan(
    sub: DebugCommand,
    json: bool,
    pci: Option<String>,
    bdf: Result<String, String>,
    r: Result<Job, Error>,
) -> bool {
    match sub {
        DebugCommand::Erase { yes, wipe_mfg_pages } => r == Ok::<Job, Error>(
            Job::Erase { pci, yes, wipe_mfg_pages, json },
        ),
        DebugCommand::ChipRead { addr, len, out } => match bdf {
            Err(e) => says(r, e@),
            Ok(b) => match hex_number(addr@) {
                Err(f) => says(r, "bad --addr "@ + addr@ + ": "@ + f.spec_text()),
                Ok(n) => r == Ok::<Job, Error>(Job::ChipRead { bdf: b, addr: n as u32, len, out }),
            },
        },
        DebugCommand::ChipScan { addr, stride, count } => match bdf {
            Err(e) => says(r, e@),
            Ok(b) => match any_number(addr@) {
                Err(f) => says(r, "bad --addr: "@ + f.spec_text()),
                Ok(n) => match any_number(stride@) {
                    Err(f) => says(r, "bad --stride: "@ + f.spec_text()),
                    Ok(m) => r == Ok::<Job, Error>(
                        Job::ChipScan { bdf: b, base: n as u32, stride: m as u32, count },
                    ),
                },
            },
        },
        DebugCommand::ChipWrite { addr, value, input, yes } => if !yes {
            says(r, "refusing chip write without --yes (DESTRUCTIVE)"@)
        } else {
            match bdf {
                Err(e) => says(r, e@),
                Ok(b) => match hex_number(addr@) {
                    Err(f) => says(r, "bad --addr "@ + addr@ + ": "@ + f.spec_text()),
                    Ok(n) => match (value, input) {
                        (Some(v), None) => match hex_number(v@) {
                            Err(f) => says(r, "bad --value "@ + v@ + ": "@ + f.spec_text()),
                            Ok(w) => r matches Ok(
                                Job::ChipWrite { bdf, addr, source: ChipSource::Bytes(x) },
                            ) && bdf == b && addr == n && x@ == le32(w as u32),
                        },
                        (None, Some(p)) => r == Ok::<Job, Error>(
                            Job::ChipWrite {
                                bdf: b,
                                addr: n as u32,
                                source: ChipSource::File(p),
                            },
                        ),
                        _ => says(r, "specify exactly one of --value or --in"@),
                    },
                },
            }
        },
        DebugCommand::DcrScan { addr, count } => match bdf {
            Err(e) => says(r, e@),
            Ok(b) => match any_number(addr@) {
                Err(f) => says(r, "bad --addr: "@ + f.spec_text()),
                Ok(n) => r == Ok::<Job, Error>(Job::DcrScan { bdf: b, base: n as u32, count }),
            },
        },
    }
}

/// Whether `r` is the plan for what the user asks for. `bdf` is which adapter is meant,
/// or why none is.
pub open spec fn plan(cli: Cli, bdf: Result<String, String>, r: Result<Job, Error>) -> bool {
    match cli.command {
        Command::Detect { bdf_only } => r == Ok::<Job, Error>(
            Job::Detect { json: cli.json, bdf_only },
        ),
        Command::Backup { out } => r == Ok::<Job, Error>(
            Job::Backup { out, json: cli.json, pci: cli.pci },
        ),
        Command::Flash {
            mode,
            identity,
            dry_run,
            yes,
            keep_sas_address,
            firmware,
            no_bios,
            backup_dir,
            wipe_mfg_pages,
        } => r == Ok::<Job, Error>(
            Job::Flash {
                mode,
                identity,
                dry_run,
                yes,
                keep_sas_address,
                firmware,
                no_bios,
                backup_dir,
                wipe_mfg_pages,
                json: cli.json,
            },
        ),
        Command::Restore { backup_dir, yes, dry_run } => r == Ok::<Job, Error>(
            Job::Restore { backup_dir, yes, json: cli.json, pci: cli.pci, dry_run },
        ),
        Command::Fw { sub } => match sub {
            FwCommand::Read(a) => match bdf {
                Err(e) => says(r, e@),
                Ok(b) => r == Ok::<Job, Error>(
                    Job::FwRead { bdf: b, running: a.running, out: a.out },
                ),
            },
            FwCommand::Write(a) => match bdf {
                Err(e) => says(r, e@),
                Ok(b) => r == Ok::<Job, Error>(
                    Job::FwWrite { bdf: b, from_file: a.from_file, yes: a.yes },
                ),
            },
            FwCommand::ReversePhy { input, output } => r == Ok::<Job, Error>(
                Job::ReversePhy { input, output, explain: false },
            ),
        },
        Command::Bios { sub } => match bdf {
            Err(e) => says(r, e@),
            Ok(b) => region_plan(sub, ImageType::Bios, b, r),
        },
        Command::Nvdata { sub } => match bdf {
            Err(e) => says(r, e@),
            Ok(b) => region_plan(sub, ImageType::FlashLayout, b, r),
        },
        Command::Sbr { sub } => r == Ok::<Job, Error>(Job::Sbr { sub }),
        Command::Debug { sub } => debug_plan(sub, cli.json, cli.pci, bdf, r),
        Command::Config { sub } => match bdf {
            Err(e) => says(r, e@),
            Ok(b) => r == Ok::<Job, Error>(Job::Config { bdf: b, sub }),
        },
        Command::Firmware { sub } => match sub {
            FirmwareCommand::ReversePhy { input, output } => r == Ok::<Job, Error>(
                Job::ReversePhy { input, output, explain: true },
            ),
        },
    }
}

fn bad_number(label: &str, given: &str, f: NumberFault) -> (r: Error)
    ensures
        r matches Error::Other(t) && t@ == label@ + given@ + ": "@ + f.spec_text(),
{
    let mut t = labelled(label, given);
    t.append(": ");
    t.append(f.text());
    Error::Other(t)
}

fn plan_region(sub: RegionCommand, image_type: ImageType, bdf: String) -> (r: Result<Job, Error>)
    ensures
        region_plan(sub, image_type, bdf, r),
{
    match sub {
        RegionCommand::Read(a) => Ok(Job::RegionRead { bdf, image_type, out: a.out }),
        RegionCommand::Write(a) => Ok(
            Job::RegionWrite { bdf, image_type, from_file: a.from_file, yes: a.yes },
        ),
    }
}

fn plan_debug(
    sub: DebugCommand,
    json: bool,
    pci: Option<String>,
    bdf: Result<String, String>,
) -> (r: Result<Job, Error>)
    ensures
        debug_plan(sub, json, pci, bdf, r),
{
    match sub {
        DebugCommand::Erase { yes, wipe_mfg_pages } => Ok(
            Job::Erase { pci, yes, wipe_mfg_pages, json },
        ),
        DebugCommand::ChipRead { addr, len, out } => {
            let bdf = match bdf {
                Ok(b) => b,
                Err(e) => return Err(Error::Other(e)),
            };
            match read_hex(addr.as_str()) {
                Ok(n) => Ok(Job::ChipRead { bdf, addr: n, len, out }),
                Err(f) => Err(bad_number("bad --addr ", addr.as_str(), f)),
            }
        },
        DebugCommand::ChipScan { addr, stride, count } => {
            let bdf = match bdf {
                Ok(b) => b,
                Err(e) => return Err(Error::Other(e)),
            };
            let base: u32 = match read_any(addr.as_str()) {
                Ok(n) => n,
                Err(f) => return Err(Error::Other(labelled("bad --addr: ", f.text()))),
            };
            match read_any(stride.as_str()) {
                Ok(step) => Ok(Job::ChipScan { bdf, base, stride: step, count }),
                Err(f) => Err(Error::Other(labelled("bad --stride: ", f.text()))),
            }
        },
        DebugCommand::ChipWrite { addr, value, input, yes } => {
            if !yes {
                return Err(
                    Error::Other("refusing chip write without --yes (DESTRUCTIVE)".to_owned()),
                );
            }
            let bdf = match bdf {
                Ok(b) => b,
                Err(e) => return Err(Error::Other(e)),
            };
            let chip: u32 = match read_hex(addr.as_str()) {
                Ok(n) => n,
                Err(f) => return Err(bad_number("bad --addr ", addr.as_str(), f)),
            };
            match (value, input) {
                (Some(v), None) => match read_hex(v.as_str()) {
                    Ok(w) => {
                        let mut bytes: Vec<u8> = Vec::new();
                        push_u32(&mut bytes, w);
                        assert(bytes@ =~= le32(w));
                        Ok(Job::ChipWrite { bdf, addr: chip, source: ChipSource::Bytes(bytes) })
                    },
                    Err(f) => Err(bad_number("bad --value ", v.as_str(), f)),
                },
                (None, Some(p)) => Ok(
                    Job::ChipWrite { bdf, addr: chip, source: ChipSource::File(p) },
                ),
                _ => Err(Error::Other("specify exactly one of --value or --in".to_owned())),
            }
        },
        DebugCommand::DcrScan { addr, count } => {
            let bdf = match bdf {
                Ok(b) => b,
                Err(e) => return Err(Error::Other(e)),
            };
            match read_any(addr.as_str()) {
                Ok(base) => Ok(Job::DcrScan { bdf, base, count }),
                Err(f) => Err(Error::Other(labelled("bad --addr: ", f.text()))),
            }
        },
    }
}

/// Plans what the user asks for. `bdf` is which adapter is meant, or why none is; it
/// matters only for work on an adapter.
pub fn run(cli: Cli, bdf: Result<String, String>) -> (r: Result<Job, Error>)
    ensures
        plan(cli, bdf, r),
{
    match cli.command {
        Command::Detect { bdf_only } => Ok(Job::Detect { json: cli.json, bdf_only }),
        Command::Backup { out } => Ok(Job::Backup { out, json: cli.json, pci: cli.pci }),
        Command::Flash {
            mode,
            identity,
            dry_run,
            yes,
            keep_sas_address,
            firmware,
            no_bios,
            backup_dir,
            wipe_mfg_pages,
        } => Ok(
            Job::Flash {
                mode,
                identity,
                dry_run,
                yes,
                keep_sas_address,
                firmware,
                no_bios,
                backup_dir,
                wipe_mfg_pages,
                json: cli.json,
            },
        ),
        Command::Restore { backup_dir, yes, dry_run } => Ok(
            Job::Restore { backup_dir, yes, json: cli.json, pci: cli.pci, dry_run },
        ),
        Command::Fw { sub: FwCommand::ReversePhy { input, output } } => Ok(
            Job::ReversePhy { input, output, explain: false },
        ),
        Command::Sbr { sub } => Ok(Job::Sbr { sub }),
        Command::Debug { sub } => plan_debug(sub, cli.json, cli.pci, bdf),
        Command::Firmware { sub: FirmwareCommand::ReversePhy { input, output } } => Ok(
            Job::ReversePhy { input, output, explain: true },
        ),
        Command::Fw { sub: FwCommand::Read(a) } => match bdf {
            Ok(b) => Ok(Job::FwRead { bdf: b, running: a.running, out: a.out }),
            Err(e) => Err(Error::Other(e)),
        },
        Command::Fw { sub: FwCommand::Write(a) } => match bdf {
            Ok(b) => Ok(Job::FwWrite { bdf: b, from_file: a.from_file, yes: a.yes }),
            Err(e) => Err(Error::Other(e)),
        },
        Command::Bios { sub } => match bdf {
            Ok(b) => plan_region(sub, ImageType::Bios, b),
            Err(e) => Err(Error::Other(e)),
        },
        Command::Nvdata { sub } => match bdf {
            Ok(b) => plan_region(sub, ImageType::FlashLayout, b),
            Err(e) => Err(Error::Other(e)),
        },
        Command::Config { sub } => match bdf {
            Ok(b) => Ok(Job::Config { bdf: b, sub }),
            Err(e) => Err(Error::Other(e)),
        },
    }
}

/// A chip is never written to without consent.
pub proof fn chip_write_needs_consent(
    cli: Cli,
    bdf: Result<String, String>,
    r: Result<Job, Error>,
)
    requires
        plan(cli, bdf, r),
        r matches Ok(Job::ChipWrite { .. }),
    ensures
        cli.command matches Command::Debug { sub: DebugCommand::ChipWrite { yes, .. } } && yes,
{
}

/// Whether a job works on one adapter through its address.
pub open spec fn job_bdf(j: Job) -> Option<String> {
    match j {
        Job::FwRead { bdf, .. } => Some(bdf),
        Job::FwWrite { bdf, .. } => Some(bdf),
        Job::RegionRead { bdf, .. } => Some(bdf),
        Job::RegionWrite { bdf, .. } => Some(bdf),
        Job::ChipRead { bdf, .. } => Some(bdf),
        Job::ChipScan { bdf, .. } => Some(bdf),
        Job::ChipWrite { bdf, .. } => Some(bdf),
        Job::DcrScan { bdf, .. } => Some(bdf),
        Job::Config { bdf, .. } => Some(bdf),
        _ => None,
    }
}

/// Work on an adapter is always work on the adapter that is meant: never on one that was
/// not found.
pub proof fn only_the_adapter_meant(cli: Cli, bdf: Result<String, String>, r: Result<Job, Error>)
    requires
        plan(cli, bdf, r),
    ensures
        r matches Ok(j) ==> job_bdf(j) is None || bdf == Ok::<String, String>(job_bdf(j)->Some_0),
{
}

// ------------------------------------------------------------------ lines

/// The name of an image in messages.
pub fn region_name(t: ImageType) -> (r: &'static str)
    ensures
        r@ == (if t == ImageType::Bios {
            "bios"@
        } else {
            "nvdata"@
        }),
{
    match t {
        ImageType::Bios => "bios",
        _ => "nvdata",
    }
}

/// The line on a firmware file in which the order of the ports was turned round.
pub fn synthesized_line(len: usize, output: &str, explain: bool) -> (r: String)
    ensures
        r@ == "synthesized "@ + dec(len as nat) + " bytes → "@ + output@ + (if explain {
            " (PhyData permuted, file checksum recomputed)"@
        } else {
            ""@
        }),
{
    let mut t = "synthesized ".to_owned();
    push_dec(&mut t, len as u64);
    t.append(" bytes → ");
    t.append(output);
    t.append(if explain { " (PhyData permuted, file checksum recomputed)" } else { "" });
    t
}

/// The line on memory of a chip that was read.
pub fn chip_read_line(addr: u32, bytes: &[u8]) -> (r: String)
    ensures
        r@ == "chipread @0x"@ + hex_pad(addr as nat, 8, false) + ": "@ + dec(bytes@.len())
            + " bytes, sha256="@ + sha256_text(bytes@),
{
    let mut t = "chipread @0x".to_owned();
    push_hex_pad(&mut t, addr as u64, 8, false);
    t.append(": ");
    push_dec(&mut t, bytes.len() as u64);
    t.append(" bytes, sha256=");
    t.append(sha256_hex(bytes).as_str());
    t
}

/// The line before words of a chip are read.
pub fn chip_scan_line(base: u32, stride: u32, count: usize) -> (r: String)
    ensures
        r@ == "chip-scan base=0x"@ + hex_pad(base as nat, 8, false) + " stride=0x"@ + hex(
            stride as nat,
            false,
        ) + " count="@ + dec(count as nat) + " (last printed addr = any hang)"@,
{
    let mut t = "chip-scan base=0x".to_owned();
    push_hex_pad(&mut t, base as u64, 8, false);
    t.append(" stride=0x");
    push_hex(&mut t, stride as u64, false);
    t.append(" count=");
    push_dec(&mut t, count as u64);
    t.append(" (last printed addr = any hang)");
    t
}

/// The line on a word of a chip.
pub fn chip_word_line(addr: u32, word: u32) -> (r: String)
    ensures
        r@ == "0x"@ + hex_pad(addr as nat, 8, false) + " : 0x"@ + hex_pad(word as nat, 8, false),
{
    let mut t = "0x".to_owned();
    push_hex_pad(&mut t, addr as u64, 8, false);
    t.append(" : 0x");
    push_hex_pad(&mut t, word as u64, 8, false);
    t
}

/// The line on memory of a chip that was written.
pub fn chip_write_line(addr: u32, len: usize) -> (r: String)
    ensures
        r@ == "chip-write @0x"@ + hex_pad(addr as nat, 8, false) + ": "@ + dec(len as nat)
            + " bytes written"@,
{
    let mut t = "chip-write @0x".to_owned();
    push_hex_pad(&mut t, addr as u64, 8, false);
    t.append(": ");
    push_dec(&mut t, len as u64);
    t.append(" bytes written");
    t
}

/// The line before control registers are read.
pub fn dcr_scan_line(base: u32, count: usize) -> (r: String)
    ensures
        r@ == "dcr-scan base=0x"@ + hex(base as nat, false) + " count="@ + dec(count as nat),
{
    let mut t = "dcr-scan base=0x".to_owned();
    push_hex(&mut t, base as u64, false);
    t.append(" count=");
    push_dec(&mut t, count as u64);
    t
}

/// The line on a control register.
pub fn dcr_line(offset: u32, word: u32) -> (r: String)
    ensures
        r@ == "DCR 0x"@ + hex_pad(offset as nat, 4, false) + " : 0x"@ + hex_pad(
            word as nat,
            8,
            false,
        ),
{
    let mut t = "DCR 0x".to_owned();
    push_hex_pad(&mut t, offset as u64, 4, false);
    t.append(" : 0x");
    push_hex_pad(&mut t, word as u64, 8, false);
    t
}

// ---------------------------------------------------------------- the laws

/// A command on the option ROM works on the option ROM, and one on the configuration data on the
/// manufacturing pages; reading never turns into writing, and a write keeps its file and the
/// consent that was given for it.
pub proof fn command_keeps_its_image(
    cli: Cli,
    bdf: String,
    r: Result<Job, Error>,
)
    requires
        plan(cli, Ok(bdf), r),
    ensures
        cli.command matches Command::Bios { sub: RegionCommand::Write(a) } ==> r == Ok::<Job, Error>(
            Job::RegionWrite {
                bdf,
                image_type: ImageType::Bios,
                from_file: a.from_file,
                yes: a.yes,
            },
        ),
        cli.command matches Command::Bios { sub: RegionCommand::Read(a) } ==> r == Ok::<Job, Error>(
            Job::RegionRead { bdf, image_type: ImageType::Bios, out: a.out },
        ),
        cli.command matches Command::Nvdata { sub: RegionCommand::Write(a) } ==> r == Ok::<
            Job,
            Error,
        >(
            Job::RegionWrite {
                bdf,
                image_type: ImageType::FlashLayout,
                from_file: a.from_file,
                yes: a.yes,
            },
        ),
        cli.command matches Command::Nvdata { sub: RegionCommand::Read(a) } ==> r == Ok::<
            Job,
            Error,
        >(Job::RegionRead { bdf, image_type: ImageType::FlashLayout, out: a.out }),
        cli.command matches Command::Fw { sub: FwCommand::Write(a) } ==> r == Ok::<Job, Error>(
            Job::FwWrite { bdf, from_file: a.from_file, yes: a.yes },
        ),
{
}

/// Whether a job changes an adapter or a chip.
pub open spec fn changes_adapter(j: Job) -> bool {
    j is Flash || j is Restore || j is FwWrite || j is RegionWrite || j is Erase || j is ChipWrite
        || j is Sbr
}

/// A command that only looks never turns into a job that changes an adapter.
pub proof fn looking_changes_nothing(cli: Cli, bdf: Result<String, String>, r: Result<Job, Error>)
    requires
        plan(cli, bdf, r),
        cli.command is Detect || cli.command is Backup || cli.command is Config || cli.command is Firmware
            || (cli.command matches Command::Fw { sub } && !(sub is Write)) || (cli.command
            matches Command::Bios { sub } && sub is Read) || (cli.command matches Command::Nvdata {
            sub,
        } && sub is Read) || (cli.command matches Command::Debug { sub } && (sub is ChipRead
            || sub is ChipScan || sub is DcrScan)),
    ensures
        r matches Ok(j) ==> !changes_adapter(j),
{
}

/// What the user said of a run stays with it: whether it is a trial, whether consent was given,
/// and which adapter, directory and firmware were named.
pub proof fn choices_stay(cli: Cli, bdf: Result<String, String>, r: Result<Job, Error>)
    requires
        plan(cli, bdf, r),
    ensures
        cli.command matches Command::Flash { mode, dry_run, yes, firmware, backup_dir, .. } ==> (
        r matches Ok(Job::Flash {
            mode: m,
            dry_run: d,
            yes: y,
            firmware: f,
            backup_dir: b,
            ..
        }) && m == mode && d == dry_run && y == yes && f == firmware && b == backup_dir),
        cli.command matches Command::Restore { backup_dir, yes, dry_run } ==> (r matches Ok(
            Job::Restore { backup_dir: b, yes: y, dry_run: d, pci, .. },
        ) && b == backup_dir && y == yes && d == dry_run && pci == cli.pci),
        cli.command matches Command::Debug { sub: DebugCommand::Erase { yes, wipe_mfg_pages } } ==> (
        r matches Ok(Job::Erase { yes: y, wipe_mfg_pages: w, pci, .. }) && y == yes && w
            == wipe_mfg_pages && pci == cli.pci),
{
}

/// A number in hexadecimal is read with or without `0x` in front, and where a number can be
/// both it is taken as hexadecimal.
pub proof fn numbers_are_hexadecimal(v: u32)
    ensures
        hex_number(hex_pad(v as nat, 8, false)) == Ok::<nat, NumberFault>(v as nat),
        hex_number(seq!['0', 'x'] + hex_pad(v as nat, 8, false)) == Ok::<nat, NumberFault>(v as nat),
        any_number(hex_pad(v as nat, 8, false)) == Ok::<nat, NumberFault>(v as nat),
{
    let h = hex_pad(v as nat, 8, false);
    hexadecimal_round_trip(v as nat, 8, false, 0xFFFF_FFFF);
    hex_pad_is_plain(v as nat, 8, false);
    assert(h[1] != 'x');
    assert(unmarked(h) == h);
    let s = seq!['0', 'x'] + h;
    assert(s.skip(2) =~= h);
}

/// A look into a chip is at the address that was named, and goes on by the step that was named;
/// a number that is to be written goes out with its low byte first.
pub proof fn addresses_are_read(
    cli: Cli,
    bdf: String,
    r: Result<Job, Error>,
    sub: DebugCommand,
    at: u32,
    by: u32,
)
    requires
        cli.command == (Command::Debug { sub }),
        plan(cli, Ok(bdf), r),
    ensures
        match sub {
            DebugCommand::ChipRead { addr, len, out } => addr@ == hex_pad(at as nat, 8, false)
                ==> r == Ok::<Job, Error>(Job::ChipRead { bdf, addr: at, len, out }),
            DebugCommand::ChipScan { addr, stride, count } => addr@ == hex_pad(at as nat, 8, false)
                && stride@ == hex_pad(by as nat, 8, false) ==> r == Ok::<Job, Error>(
                Job::ChipScan { bdf, base: at, stride: by, count },
            ),
            DebugCommand::DcrScan { addr, count } => addr@ == hex_pad(at as nat, 8, false) ==> r
                == Ok::<Job, Error>(Job::DcrScan { bdf, base: at, count }),
            DebugCommand::ChipWrite { addr, value, input, yes } => match (value, input) {
                (Some(v), None) => yes && addr@ == hex_pad(at as nat, 8, false) && v@ == hex_pad(
                    by as nat,
                    8,
                    false,
                ) ==> (r matches Ok(Job::ChipWrite { bdf: b, addr: n, source: ChipSource::Bytes(x) })
                    && b == bdf && n == at && x@.len() == 4 && x@[0] == by % 256 && x@[1] == by / 256
                    % 256 && x@[2] == by / 65536 % 256 && x@[3] == by / 16777216),
                (None, Some(p)) => yes && addr@ == hex_pad(at as nat, 8, false) ==> r == Ok::<
                    Job,
                    Error,
                >(Job::ChipWrite { bdf, addr: at, source: ChipSource::File(p) }),
                _ => r is Err,
            },
            DebugCommand::Erase { .. } => r is Ok,
        },
{
    numbers_are_hexadecimal(at);
    numbers_are_hexadecimal(by);
}

} // verus!
