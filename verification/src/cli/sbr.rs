//! Commands on the boot record of a board.

use crate::bytes::same_bytes;
use crate::card_database::{identified, identify_card, CardInfo, Personality};
use crate::cli::region::{not_found, not_found_text};
use crate::digest::{sha256_hex, sha256_text};
use crate::error::Error;
use crate::sbr::{byte_sum, parse_sbr, record, Sbr, SbrError, SBR_LEN};
use crate::text::{
    dec, hex_pad, labelled, pad_right, push_dec, push_hex_pad, push_pad_right, same_text, strings,
};
use vstd::prelude::*;

verus! {

/// What is to be done with a boot record.
#[derive(Debug)]
pub enum SbrCommand {
    /// Read it from the board.
    Read { pci: Option<String>, output: Option<String>, json: bool },
    /// Show what a file holds.
    Show { file: String },
    /// Check what a file holds.
    Verify { file: String },
    /// Make one for a board of the database.
    Build { identity: String, sas_wwn: Option<String>, out: Option<String> },
    /// Write it to the board.
    Write { pci: Option<String>, from_file: String, yes: bool },
    /// Write back what the board holds.
    Selftest { pci: Option<String> },
}

// ---------------------------------------------------------------- summary

/// What an interface byte means.
pub open spec fn interface_label(b: u8) -> Seq<char> {
    if b == 0x00 {
        "IT/IR (host bus adapter)"@
    } else if b == 0x0C {
        "IT/IR (legacy)"@
    } else if b == 0x10 {
        "iMR (Integrated MegaRAID)"@
    } else {
        "unknown"@
    }
}

fn interface_name(b: u8) -> (r: &'static str)
    ensures
        r@ == interface_label(b),
{
    if b == 0x00 {
        "IT/IR (host bus adapter)"
    } else if b == 0x0C {
        "IT/IR (legacy)"
    } else if b == 0x10 {
        "iMR (Integrated MegaRAID)"
    } else {
        "unknown"
    }
}

/// A line with two numbers.
pub open spec fn pair_line(label: Seq<char>, x: u16, y: u16) -> Seq<char> {
    label + "0x"@ + hex_pad(x as nat, 4, false) + ":0x"@ + hex_pad(y as nat, 4, false)
}

fn line_of_pair(label: &str, x: u16, y: u16) -> (r: String)
    ensures
        r@ == pair_line(label@, x, y),
{
    let mut t = labelled(label, "0x");
    push_hex_pad(&mut t, x as u64, 4, false);
    t.append(":0x");
    push_hex_pad(&mut t, y as u64, 4, false);
    t
}

/// A line on a sum.
pub open spec fn sum_line(label: Seq<char>, ok: bool) -> Seq<char> {
    label + (if ok {
        "OK"@
    } else {
        "INVALID"@
    })
}

fn line_of_sum(label: &str, ok: bool) -> (r: String)
    ensures
        r@ == sum_line(label@, ok),
{
    labelled(label, if ok { "OK" } else { "INVALID" })
}

/// The lines on what board it is, with the peculiarities of the board as a text.
pub open spec fn identity_lines(card: Option<CardInfo>, quirks: Seq<char>) -> Seq<Seq<char>> {
    match card {
        None => seq!["Identity          <unknown — not in embedded strict database>"@],
        Some(c) => {
            let name = seq!["Identity          "@ + c.display@ + " ["@ + c.slug@ + "]"@];
            let more = if c.quirks@.len() > 0 {
                name.push("Quirks            "@ + quirks)
            } else {
                name
            };
            match c.confirmed_via {
                Some(v) => more.push("Confirmed via     "@ + v@),
                None => more,
            }
        },
    }
}

/// The first lines on a record.
pub open spec fn number_lines(file: Seq<char>, s: Sbr) -> Seq<Seq<char>> {
    seq![
        "SBR file:    "@ + file,
        "Size:        256 bytes"@,
        Seq::<char>::empty(),
        pair_line("PCI VID:DID       "@, s.mfg.pcivid, s.mfg.pcipid),
        pair_line("Subsystem ID      "@, s.mfg.subsys_vid, s.mfg.subsys_pid),
    ]
}

/// The line on the network address.
pub open spec fn address_line(addr: Option<u64>) -> Seq<char> {
    "SAS WWN           "@ + (match addr {
        Some(w) => "0x"@ + hex_pad(w as nat, 16, false),
        None => "<all zeros — uninitialized>"@,
    })
}

/// The last lines on a record.
pub open spec fn state_lines(s: Sbr) -> Seq<Seq<char>> {
    seq![
        "Interface byte    0x"@ + hex_pad(s.mfg.interface as nat, 2, false) + " ("@
            + interface_label(s.mfg.interface) + ")"@,
        address_line(s.sas_addr),
        Seq::<char>::empty(),
        "Checksums:"@,
        sum_line("  MFG block       "@, s.checksum_valid),
        sum_line("  MFG duplicate   "@, s.mfg_duplicate_valid),
        sum_line("  WWID            "@, s.wwid_checksum_valid),
    ]
}

/// The lines on a record.
pub open spec fn summary_lines(
    file: Seq<char>,
    s: Sbr,
    card: Option<CardInfo>,
    quirks: Seq<char>,
) -> Seq<Seq<char>> {
    number_lines(file, s) + identity_lines(card, quirks) + state_lines(s)
}

fn line_of_address(addr: Option<u64>) -> (r: String)
    ensures
        r@ == address_line(addr),
{
    match addr {
        Some(v) => {
            let mut x = "0x".to_owned();
            push_hex_pad(&mut x, v, 16, false);
            labelled("SAS WWN           ", x.as_str())
        },
        None => labelled("SAS WWN           ", "<all zeros — uninitialized>"),
    }
}

fn push_identity(lines: &mut Vec<String>, card: Option<&CardInfo>, quirks: &str)
    ensures
        strings(final(lines)@) == strings(old(lines)@) + identity_lines(
            match card {
                Some(c) => Some(*c),
                None => None,
            },
            quirks@,
        ),
{
    match card {
        None => {
            lines.push("Identity          <unknown — not in embedded strict database>".to_owned());
        },
        Some(c) => {
            let mut t = labelled("Identity          ", c.display.as_str());
            t.append(" [");
            t.append(c.slug.as_str());
            t.append("]");
            lines.push(t);
            if c.quirks.len() > 0 {
                lines.push(labelled("Quirks            ", quirks));
            }
            if let Some(v) = &c.confirmed_via {
                lines.push(labelled("Confirmed via     ", v.as_str()));
            }
        },
    }
    assert(strings(lines@) =~= strings(old(lines)@) + identity_lines(
        match card {
            Some(c) => Some(*c),
            None => None,
        },
        quirks@,
    ));
}

/// The lines on a record. The peculiarities of the board come as a text.
pub fn print_sbr_summary(file: &str, s: &Sbr, card: Option<&CardInfo>, quirks: &str) -> (r: Vec<
    String,
>)
    ensures
        strings(r@) == summary_lines(
            file@,
            *s,
            match card {
                Some(c) => Some(*c),
                None => None,
            },
            quirks@,
        ),
{
    let ghost who = match card {
        Some(c) => Some(*c),
        None => None,
    };
    let mut lines: Vec<String> = Vec::new();
    lines.push(labelled("SBR file:    ", file));
    lines.push("Size:        256 bytes".to_owned());
    lines.push(String::new());
    assert(lines@[2]@ =~= Seq::<char>::empty());
    lines.push(line_of_pair("PCI VID:DID       ", s.mfg.pcivid, s.mfg.pcipid));
    lines.push(line_of_pair("Subsystem ID      ", s.mfg.subsys_vid, s.mfg.subsys_pid));
    assert(strings(lines@) =~= number_lines(file@, *s));
    push_identity(&mut lines, card, quirks);
    let ghost body = strings(lines@);
    let ghost known = lines@.len() as int;
    let mut t = "Interface byte    0x".to_owned();
    push_hex_pad(&mut t, s.mfg.interface as u64, 2, false);
    t.append(" (");
    t.append(interface_name(s.mfg.interface));
    t.append(")");
    lines.push(t);
    lines.push(line_of_address(s.sas_addr));
    lines.push(String::new());
    assert(lines@[known + 2]@ =~= Seq::<char>::empty());
    lines.push("Checksums:".to_owned());
    lines.push(line_of_sum("  MFG block       ", s.checksum_valid));
    lines.push(line_of_sum("  MFG duplicate   ", s.mfg_duplicate_valid));
    lines.push(line_of_sum("  WWID            ", s.wwid_checksum_valid));
    assert(strings(lines@) =~= body + state_lines(*s));
    assert(body == number_lines(file@, *s) + identity_lines(who, quirks@));
    lines
}

/// Reads the record in a file, and finds its board in the database.
pub fn run_show<'a>(bytes: &[u8], cards: &'a [CardInfo]) -> (r: Result<
    (Sbr, Option<&'a CardInfo>),
    Error,
>)
    ensures
        if bytes@.len() == SBR_LEN {
            r matches Ok(p) && p.0 == record(bytes@) && (match identified(
                cards@,
                p.0.mfg.pcivid,
                p.0.mfg.pcipid,
                p.0.mfg.subsys_vid,
                p.0.mfg.subsys_pid,
            ) {
                Some(c) => p.1 == Some(&c),
                None => p.1 is None,
            })
        } else {
            r matches Err(Error::Other(t)) && t@ == "SBR parse failed: "@ + SbrError::Length(
                bytes@.len() as usize,
            ).spec_text()
        },
{
    match parse_sbr(bytes) {
        Err(e) => Err(Error::Other(labelled("SBR parse failed: ", e.text().as_str()))),
        Ok(s) => {
            let card = identify_card(
                cards,
                s.mfg.pcivid,
                s.mfg.pcipid,
                s.mfg.subsys_vid,
                s.mfg.subsys_pid,
            );
            Ok((s, card))
        },
    }
}

// ----------------------------------------------------------------- verify

/// The lines on what is wrong with a record.
pub open spec fn fault_lines(s: Sbr) -> Seq<Seq<char>> {
    let a = if s.checksum_valid {
        Seq::<Seq<char>>::empty()
    } else {
        seq!["FAIL: MFG block checksum invalid"@]
    };
    let b = if s.mfg_duplicate_valid {
        a
    } else {
        a.push("FAIL: MFG duplicate block checksum invalid"@)
    };
    let c = if s.wwid_checksum_valid {
        b
    } else {
        b.push("FAIL: WWID checksum invalid"@)
    };
    let d = if s.mfg.pcivid == 0x1000 {
        c
    } else {
        c.push(
            "FAIL: PCI VendorID is 0x"@ + hex_pad(s.mfg.pcivid as nat, 4, false)
                + ", expected 0x1000 (LSI)"@,
        )
    };
    if s.mfg.pcipid == 0x0072 || s.mfg.pcipid == 0x0073 {
        d
    } else {
        d.push(
            "FAIL: PCI DeviceID is 0x"@ + hex_pad(s.mfg.pcipid as nat, 4, false)
                + ", expected 0x0072 (IT/IR) or 0x0073 (IMR)"@,
        )
    }
}

/// The verdict on a record: what to say, or what is wrong and the status to end with.
#[derive(Debug)]
pub enum SbrVerdict {
    /// Nothing is wrong.
    Sound(String),
    /// Something is wrong.
    Faulty { lines: Vec<String>, status: i32 },
}

fn faults(s: &Sbr) -> (r: Vec<String>)
    ensures
        strings(r@) == fault_lines(*s),
        r@.len() <= 5,
{
    let mut lines: Vec<String> = Vec::new();
    if !s.checksum_valid {
        lines.push("FAIL: MFG block checksum invalid".to_owned());
    }
    if !s.mfg_duplicate_valid {
        lines.push("FAIL: MFG duplicate block checksum invalid".to_owned());
    }
    if !s.wwid_checksum_valid {
        lines.push("FAIL: WWID checksum invalid".to_owned());
    }
    if s.mfg.pcivid != 0x1000 {
        let mut t = "FAIL: PCI VendorID is 0x".to_owned();
        push_hex_pad(&mut t, s.mfg.pcivid as u64, 4, false);
        t.append(", expected 0x1000 (LSI)");
        lines.push(t);
    }
    if s.mfg.pcipid != 0x0072 && s.mfg.pcipid != 0x0073 {
        let mut t = "FAIL: PCI DeviceID is 0x".to_owned();
        push_hex_pad(&mut t, s.mfg.pcipid as u64, 4, false);
        t.append(", expected 0x0072 (IT/IR) or 0x0073 (IMR)");
        lines.push(t);
    }
    assert(strings(lines@) =~= fault_lines(*s));
    lines
}

/// Checks the record in a file. A file of the wrong length ends with status 2, a record
/// with faults with status 1.
pub fn run_verify(file: &str, bytes: &[u8]) -> (r: SbrVerdict)
    ensures
        if bytes@.len() != SBR_LEN {
            r matches SbrVerdict::Faulty { lines, status } && status == 2 && strings(lines@)
                == seq![
                "FAIL: "@ + file@ + " is "@ + dec(bytes@.len()) + " bytes (expected 256)"@,
            ]
        } else {
            let f = fault_lines(record(bytes@));
            if f.len() == 0 {
                r matches SbrVerdict::Sound(t) && t@ == "OK: "@ + file@
                    + " passes all structural and checksum checks"@
            } else {
                r matches SbrVerdict::Faulty { lines, status } && status == 1 && strings(lines@)
                    == f.push("\n"@ + dec(f.len()) + " check(s) failed"@)
            }
        },
{
    let s = match parse_sbr(bytes) {
        Ok(s) => s,
        Err(_) => {
            let mut t = labelled("FAIL: ", file);
            t.append(" is ");
            push_dec(&mut t, bytes.len() as u64);
            t.append(" bytes (expected 256)");
            let mut lines: Vec<String> = Vec::new();
            lines.push(t);
            assert(strings(lines@) =~= seq![t@]);
            return SbrVerdict::Faulty { lines, status: 2 };
        },
    };
    let mut lines = faults(&s);
    let ghost known = lines@;
    assert(strings(known).len() == known.len());
    if lines.len() == 0 {
        let mut t = labelled("OK: ", file);
        t.append(" passes all structural and checksum checks");
        SbrVerdict::Sound(t)
    } else {
        let mut t = "\n".to_owned();
        push_dec(&mut t, lines.len() as u64);
        t.append(" check(s) failed");
        lines.push(t);
        assert(strings(lines@) =~= strings(known).push(t@));
        SbrVerdict::Faulty { lines, status: 1 }
    }
}

/// A record passes if and only if its sums are right and it is one for a known chip.
pub proof fn sound_record(s: Sbr)
    ensures
        fault_lines(s).len() == 0 <==> (s.checksum_valid && s.mfg_duplicate_valid
            && s.wwid_checksum_valid && s.mfg.pcivid == 0x1000 && (s.mfg.pcipid == 0x0072
            || s.mfg.pcipid == 0x0073)),
{
}

// ------------------------------------------------------------------ write

/// Judges a file whose record is to be written: it must hold a record, and the user must
/// agree.
pub fn admit_write(bytes: &[u8], yes: bool) -> (r: Result<(), Error>)
    ensures
        if bytes@.len() != SBR_LEN {
            r matches Err(Error::Other(t)) && t@ == "SBR file must be exactly 256 bytes, got "@
                + dec(bytes@.len())
        } else if !yes {
            r matches Err(Error::Other(t)) && t@
                == "Refusing destructive SBR write without --yes. This changes PCI identity at next reset. File SHA256="@
                + sha256_text(bytes@) + ". Re-run with --yes to confirm."@
        } else {
            r is Ok
        },
{
    if bytes.len() != SBR_LEN {
        let mut t = "SBR file must be exactly 256 bytes, got ".to_owned();
        push_dec(&mut t, bytes.len() as u64);
        return Err(Error::Other(t));
    }
    if !yes {
        let mut t =
            "Refusing destructive SBR write without --yes. This changes PCI identity at next reset. File SHA256=".to_owned();
        t.append(sha256_hex(bytes).as_str());
        t.append(". Re-run with --yes to confirm.");
        return Err(Error::Other(t));
    }
    Ok(())
}

/// What came of looking for an adapter and writing its record.
#[derive(Debug)]
pub enum SbrWriting {
    /// The adapter was not found.
    NotFound(String),
    /// The record cannot be written.
    Failed(String),
    /// The record was written.
    Written,
}

/// Judges the writing of a record: the line to show, or an error.
pub fn run_write(bdf: &str, bytes: &[u8], writing: &SbrWriting) -> (r: Result<String, Error>)
    ensures
        match writing {
            SbrWriting::NotFound(why) => r matches Err(Error::Other(t)) && t@ == not_found(
                bdf@,
                why@,
            ),
            SbrWriting::Failed(why) => r matches Err(Error::Other(t)) && t@ == "card.sbr_write: "@
                + why@,
            SbrWriting::Written => r matches Ok(t) && t@ == "SBR written ("@ + dec(bytes@.len())
                + " bytes, SHA256="@ + sha256_text(bytes@)
                + "). Takes effect on next chip reset/reboot."@,
        },
{
    match writing {
        SbrWriting::NotFound(why) => Err(Error::Other(not_found_text(bdf, why.as_str()))),
        SbrWriting::Failed(why) => Err(Error::Other(labelled("card.sbr_write: ", why.as_str()))),
        SbrWriting::Written => {
            let mut t = "SBR written (".to_owned();
            push_dec(&mut t, bytes.len() as u64);
            t.append(" bytes, SHA256=");
            t.append(sha256_hex(bytes).as_str());
            t.append("). Takes effect on next chip reset/reboot.");
            Ok(t)
        },
    }
}

/// The line on a record that was read.
pub fn read_line(bytes: &[u8]) -> (r: String)
    ensures
        r@ == "SBR SHA256: "@ + sha256_text(bytes@),
{
    labelled("SBR SHA256: ", sha256_hex(bytes).as_str())
}

/// Judges the writing back of a record: what is read afterwards must be what was read
/// before.
pub fn run_selftest(first: &[u8], after: &[u8]) -> (r: Result<&'static str, Error>)
    ensures
        if first@ == after@ {
            r matches Ok(t) && t@ == "PASS: SBR write path validated, zero identity change."@
        } else {
            r matches Err(Error::Other(t)) && t@
                == "FAIL: SBR changed across idempotent write! Restore from backup."@
        },
{
    if same_bytes(first, after) {
        Ok("PASS: SBR write path validated, zero identity change.")
    } else {
        Err(
            Error::Other(
                "FAIL: SBR changed across idempotent write! Restore from backup.".to_owned(),
            ),
        )
    }
}

// ------------------------------------------------------------------ build

/// The first board with a key.
pub open spec fn with_slug(cards: Seq<CardInfo>, slug: Seq<char>) -> Option<CardInfo>
    decreases cards.len(),
{
    if cards.len() == 0 {
        None
    } else if cards[0].slug@ == slug {
        Some(cards[0])
    } else {
        with_slug(cards.skip(1), slug)
    }
}

fn find_slug<'a>(cards: &'a [CardInfo], slug: &str) -> (r: Option<&'a CardInfo>)
    ensures
        match with_slug(cards@, slug@) {
            Some(c) => r == Some(&c),
            None => r is None,
        },
{
    let mut i: usize = 0;
    assert(cards@.skip(0) =~= cards@);
    while i < cards.len()
        invariant
            i <= cards@.len(),
            with_slug(cards@, slug@) == with_slug(cards@.skip(i as int), slug@),
        decreases cards@.len() - i,
    {
        let ghost u = cards@.skip(i as int);
        assert(u[0] == cards@[i as int]);
        assert(u.skip(1) =~= cards@.skip(i + 1));
        if same_text(cards[i].slug.as_str(), slug) {
            return Some(&cards[i]);
        }
        i += 1;
    }
    None
}

/// The name of the firmware that a board is sold with.
pub open spec fn firmware_name(p: Personality) -> Seq<char> {
    match p {
        Personality::IT => "IT"@,
        Personality::IR => "IR"@,
        Personality::IMR => "IMR"@,
        Personality::IE => "IE"@,
    }
}

fn name_of_firmware(p: Personality) -> (r: &'static str)
    ensures
        r@ == firmware_name(p),
{
    match p {
        Personality::IT => "IT",
        Personality::IR => "IR",
        Personality::IMR => "IMR",
        Personality::IE => "IE",
    }
}

/// What is known of a board whose record is to be made.
pub open spec fn build_text(c: CardInfo) -> Seq<char> {
    "lsi-flash sbr build — not yet fully wired (Stage 2 follow-up).\n\nFound identity: "@
        + c.display@ + " ("@ + c.slug@ + ")\nPCI:            0x"@ + hex_pad(c.vid as nat, 4, false)
        + ":0x"@ + hex_pad(c.did as nat, 4, false) + "\nSubsystem:      0x"@ + hex_pad(
        c.subsys_vid as nat,
        4,
        false,
    ) + ":0x"@ + hex_pad(c.subsys_pid as nat, 4, false) + "\nPersonality:    "@ + firmware_name(
        c.default_personality,
    ) + "\nInterface byte: 0x"@ + hex_pad(c.interface_byte as nat, 2, false)
        + "\n\nSynthesis needs an SBR template (resources/sbr/<vendor>.sbr) to seed the\nunk* fields before identity patching. Tracking this as Stage 2 follow-up."@
}

/// The line on a board of the database.
pub open spec fn known_line(c: CardInfo) -> Seq<char> {
    "  "@ + pad_right(c.slug@, 30) + "  "@ + c.display@
}

/// The lines on a key that is not in the database.
pub open spec fn unknown_lines(cards: Seq<CardInfo>, slug: Seq<char>) -> Seq<Seq<char>> {
    seq!["Unknown identity slug: "@ + slug, "\nKnown identities:"@] + cards.map_values(
        |c: CardInfo| known_line(c),
    )
}

/// Looks for the board whose record is to be made: what is known of it, or the lines to
/// show before ending with status 2.
pub fn run_build(cards: &[CardInfo], identity: &str) -> (r: Result<String, Vec<String>>)
    ensures
        match with_slug(cards@, identity@) {
            Some(c) => r matches Ok(t) && t@ == build_text(c),
            None => r matches Err(v) && strings(v@) == unknown_lines(cards@, identity@),
        },
{
    if let Some(c) = find_slug(cards, identity) {
        let mut t = labelled(
            "lsi-flash sbr build — not yet fully wired (Stage 2 follow-up).\n\nFound identity: ",
            c.display.as_str(),
        );
        t.append(" (");
        t.append(c.slug.as_str());
        t.append(")\nPCI:            0x");
        push_hex_pad(&mut t, c.vid as u64, 4, false);
        t.append(":0x");
        push_hex_pad(&mut t, c.did as u64, 4, false);
        t.append("\nSubsystem:      0x");
        push_hex_pad(&mut t, c.subsys_vid as u64, 4, false);
        t.append(":0x");
        push_hex_pad(&mut t, c.subsys_pid as u64, 4, false);
        t.append("\nPersonality:    ");
        t.append(name_of_firmware(c.default_personality));
        t.append("\nInterface byte: 0x");
        push_hex_pad(&mut t, c.interface_byte as u64, 2, false);
        t.append(
            "\n\nSynthesis needs an SBR template (resources/sbr/<vendor>.sbr) to seed the\nunk* fields before identity patching. Tracking this as Stage 2 follow-up.",
        );
        return Ok(t);
    }
    let mut lines: Vec<String> = Vec::new();
    lines.push(labelled("Unknown identity slug: ", identity));
    lines.push("\nKnown identities:".to_owned());
    let ghost head = strings(lines@);
    let mut i: usize = 0;
    assert(strings(lines@) =~= head + cards@.take(0).map_values(|c: CardInfo| known_line(c)));
    while i < cards.len()
        invariant
            i <= cards@.len(),
            strings(lines@) == head + cards@.take(i as int).map_values(
                |c: CardInfo| known_line(c),
            ),
        decreases cards@.len() - i,
    {
        let ghost known = lines@;
        let mut t = "  ".to_owned();
        push_pad_right(&mut t, cards[i].slug.as_str(), 30);
        t.append("  ");
        t.append(cards[i].display.as_str());
        lines.push(t);
        assert(strings(lines@) =~= strings(known).push(known_line(cards@[i as int])));
        assert(strings(lines@) =~= head + cards@.take(i + 1).map_values(
            |c: CardInfo| known_line(c),
        ));
        i += 1;
    }
    assert(cards@.take(i as int) =~= cards@);
    assert(strings(lines@) =~= unknown_lines(cards@, identity@));
    Err(lines)
}

/// A board is found by its key: the first one that has it, and none where none does.
pub proof fn board_is_found_by_key(cards: Seq<CardInfo>, slug: Seq<char>, k: int)
    requires
        0 <= k < cards.len(),
        cards[k].slug@ == slug,
        forall|j: int| 0 <= j < k ==> (#[trigger] cards[j]).slug@ != slug,
    ensures
        with_slug(cards, slug) == Some(cards[k]),
    decreases k,
{
    if k > 0 {
        assert(cards[0].slug@ != slug);
        let rest = cards.skip(1);
        assert(rest[k - 1] == cards[k]);
        assert forall|j: int| 0 <= j < k - 1 implies (#[trigger] rest[j]).slug@ != slug by {
            assert(rest[j] == cards[j + 1]);
        }
        board_is_found_by_key(rest, slug, k - 1);
    }
}

/// Each thing that is wrong with a record gets a line of its own, and nothing else does.
pub proof fn faults_are_counted(s: Sbr)
    ensures
        fault_lines(s).len() == (if s.checksum_valid { 0int } else { 1 }) + (if s.mfg_duplicate_valid {
            0int
        } else {
            1
        }) + (if s.wwid_checksum_valid { 0int } else { 1 }) + (if s.mfg.pcivid == 0x1000 {
            0int
        } else {
            1
        }) + (if s.mfg.pcipid == 0x0072 || s.mfg.pcipid == 0x0073 { 0int } else { 1 }),
{
}

/// A file is found sound in so many bytes: the three sums of its blocks are 0x5B, its vendor is
/// 0x1000 and its device 0x0072 or 0x0073.
pub proof fn sound_record_in_bytes(b: Seq<u8>)
    requires
        b.len() == 256,
    ensures
        fault_lines(record(b)).len() == 0 <==> {
            &&& byte_sum(b, 0, 0x4C) % 256 == 0x5B
            &&& byte_sum(b, 0x4C, 0x98) % 256 == 0x5B
            &&& byte_sum(b, 0xD8, 0xF0) % 256 == 0x5B
            &&& b[0x0C] == 0x00 && b[0x0D] == 0x10
            &&& (b[0x0E] == 0x72 || b[0x0E] == 0x73) && b[0x0F] == 0x00
        },
{
    sound_record(record(b));
}

/// What an interface byte means goes by its number: zero, twelve and sixteen are known and mean
/// three things, and no other is known.
pub proof fn interfaces_go_by_numbers(b: u8)
    ensures
        interface_label(b) == "IT/IR (host bus adapter)"@ <==> b == 0,
        interface_label(b) == "IT/IR (legacy)"@ <==> b == 12,
        interface_label(b) == "iMR (Integrated MegaRAID)"@ <==> b == 16,
        interface_label(b) == "unknown"@ <==> b != 0 && b != 12 && b != 16,
{
    reveal_strlit("IT/IR (host bus adapter)");
    reveal_strlit("IT/IR (legacy)");
    reveal_strlit("iMR (Integrated MegaRAID)");
    reveal_strlit("unknown");
    assert("IT/IR (host bus adapter)"@.len() == 24);
    assert("IT/IR (legacy)"@.len() == 14);
    assert("iMR (Integrated MegaRAID)"@.len() == 25);
    assert("unknown"@.len() == 7);
}

} // verus!
