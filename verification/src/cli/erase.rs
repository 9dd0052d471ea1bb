//! Sending a raw erase request, to see what the firmware answers.

use crate::bytes::{read_u16, read_u32, u16_at, u32_at};
use crate::cli::region::{not_found, not_found_text};
use crate::digest::{hex_encode, hex_text};
use crate::error::Error;
use crate::mpi::messages::ToolboxCleanFlags;
use crate::text::{hex_pad, labelled, push_hex_pad, strings};
use vstd::prelude::*;

verus! {

/// What an erase request came to.
#[derive(Debug, Clone)]
pub struct EraseReport {
    /// What was asked for.
    pub flags_sent: u32,
    /// The status of the answer.
    pub ioc_status: u16,
    /// Whether the firmware accepted.
    pub success: bool,
    /// What the firmware logged.
    pub ioc_log_info: u32,
    /// The answer in hexadecimal.
    pub raw_reply_hex: String,
}

/// Takes the consent of the user.
pub fn admit_erase(yes: bool) -> (r: Result<(), Error>)
    ensures
        if yes {
            r is Ok
        } else {
            r matches Err(Error::Other(t)) && t@
                == "Refusing to send TOOLBOX_CLEAN without --yes. This is a real flash-erase command (destructive if the firmware honors it). Ensure a fresh backup exists, then re-run with --yes."@
        },
{
    if yes {
        Ok(())
    } else {
        Err(
            Error::Other(
                "Refusing to send TOOLBOX_CLEAN without --yes. This is a real flash-erase command (destructive if the firmware honors it). Ensure a fresh backup exists, then re-run with --yes.".to_owned(),
            ),
        )
    }
}

/// What is about to be sent.
pub fn announce(wipe_mfg_pages: bool, bdf: &str) -> (r: String)
    ensures
        r@ == "Sending raw TOOLBOX_CLEAN ("@ + (if wipe_mfg_pages {
            "CLEAN_FLASH | PERSIST_MANUFACT_PAGES"@
        } else {
            "CLEAN_FLASH only"@
        }) + ") to "@ + bdf@ + " — capturing firmware reply…"@,
{
    let mut t = "Sending raw TOOLBOX_CLEAN (".to_owned();
    t.append(
        if wipe_mfg_pages {
            "CLEAN_FLASH | PERSIST_MANUFACT_PAGES"
        } else {
            "CLEAN_FLASH only"
        },
    );
    t.append(") to ");
    t.append(bdf);
    t.append(" — capturing firmware reply…");
    t
}

/// What is to be erased: the flash, and where that is wanted its manufacturing pages.
pub fn clean_flags(wipe_mfg_pages: bool) -> (r: ToolboxCleanFlags)
    ensures
        r.raw == (if wipe_mfg_pages {
            0x4000_0004u32
        } else {
            0x0000_0004u32
        }),
{
    if wipe_mfg_pages {
        assert(0x0000_0004u32 | 0x4000_0000u32 == 0x4000_0004u32) by (bit_vector);
        ToolboxCleanFlags::flash() | ToolboxCleanFlags::persist_manufact_pages()
    } else {
        ToolboxCleanFlags::flash()
    }
}

/// Reads the answer to an erase request, whatever its status: the status stands at 0x0E
/// and what the firmware logged at 0x10.
pub fn read_report(flags_sent: u32, reply: &[u8]) -> (r: Option<EraseReport>)
    ensures
        r is Some == (reply@.len() >= 0x14),
        r matches Some(p) ==> p.flags_sent == flags_sent && p.ioc_status == u16_at(reply@, 0x0E)
            && p.success == (p.ioc_status == 0) && p.ioc_log_info == u32_at(reply@, 0x10)
            && p.raw_reply_hex@ == hex_text(reply@),
{
    if reply.len() < 0x14 {
        return None;
    }
    let ioc_status: u16 = read_u16(reply, 0x0E);
    Some(
        EraseReport {
            flags_sent,
            ioc_status,
            success: ioc_status == 0,
            ioc_log_info: read_u32(reply, 0x10),
            raw_reply_hex: hex_encode(reply),
        },
    )
}

/// A report as JSON.
pub open spec fn report_json(p: EraseReport) -> Seq<char> {
    "{\"flags_sent\":\"0x"@ + hex_pad(p.flags_sent as nat, 8, false) + "\",\"ioc_status\":\"0x"@
        + hex_pad(p.ioc_status as nat, 4, false) + "\",\"success\":"@ + (if p.success {
        "true"@
    } else {
        "false"@
    }) + ",\"ioc_log_info\":\"0x"@ + hex_pad(p.ioc_log_info as nat, 8, false)
        + "\",\"raw_reply_hex\":\""@ + p.raw_reply_hex@ + "\"}"@
}

/// A report in lines.
pub open spec fn report_lines(p: EraseReport) -> Seq<Seq<char>> {
    seq![
        "TOOLBOX_CLEAN reply:"@,
        "  flags sent:   0x"@ + hex_pad(p.flags_sent as nat, 8, false),
        "  IOCStatus:    0x"@ + hex_pad(p.ioc_status as nat, 4, false),
        "  IOCLogInfo:   0x"@ + hex_pad(p.ioc_log_info as nat, 8, false),
        "  raw reply:    "@ + p.raw_reply_hex@,
        if p.success {
            "  => SUCCESS: firmware ACCEPTED the clean. The flash WAS erased. Re-flash the OEM firmware now (do not reset before reflashing)."@
        } else {
            "  => REJECTED: firmware refused the clean (non-zero IOCStatus). Flash unchanged. The IOCStatus/IOCLogInfo above characterize the lock."@
        },
    ]
}

fn hex_line(label: &str, v: u64, width: usize) -> (r: String)
    ensures
        r@ == label@ + hex_pad(v as nat, width as nat, false),
{
    let mut t = label.to_owned();
    push_hex_pad(&mut t, v, width, false);
    t
}

/// What came of finding an adapter and sending the request.
#[derive(Debug)]
pub enum EraseOutcome {
    /// The adapter was not found.
    NotFound(String),
    /// The request cannot be sent.
    Failed(String),
    /// The firmware answered.
    Answered(EraseReport),
}

/// Judges what came of an erase request: the lines to show, or an error.
pub fn run(bdf: &str, json: bool, outcome: &EraseOutcome) -> (r: Result<Vec<String>, Error>)
    ensures
        match outcome {
            EraseOutcome::NotFound(why) => r matches Err(Error::Other(t)) && t@ == not_found(
                bdf@,
                why@,
            ),
            EraseOutcome::Failed(why) => r matches Err(Error::Other(t)) && t@ == "erase_flash: "@
                + why@,
            EraseOutcome::Answered(p) => r matches Ok(v) && strings(v@) == (if json {
                seq![report_json(*p)]
            } else {
                report_lines(*p)
            }),
        },
{
    let p = match outcome {
        EraseOutcome::NotFound(why) => {
            return Err(Error::Other(not_found_text(bdf, why.as_str())));
        },
        EraseOutcome::Failed(why) => {
            return Err(Error::Other(labelled("erase_flash: ", why.as_str())));
        },
        EraseOutcome::Answered(p) => p,
    };
    let mut lines: Vec<String> = Vec::new();
    if json {
        let mut t = "{\"flags_sent\":\"0x".to_owned();
        push_hex_pad(&mut t, p.flags_sent as u64, 8, false);
        t.append("\",\"ioc_status\":\"0x");
        push_hex_pad(&mut t, p.ioc_status as u64, 4, false);
        t.append("\",\"success\":");
        t.append(if p.success { "true" } else { "false" });
        t.append(",\"ioc_log_info\":\"0x");
        push_hex_pad(&mut t, p.ioc_log_info as u64, 8, false);
        t.append("\",\"raw_reply_hex\":\"");
        t.append(p.raw_reply_hex.as_str());
        t.append("\"}");
        lines.push(t);
        assert(strings(lines@) =~= seq![report_json(*p)]);
    } else {
        lines.push("TOOLBOX_CLEAN reply:".to_owned());
        lines.push(hex_line("  flags sent:   0x", p.flags_sent as u64, 8));
        lines.push(hex_line("  IOCStatus:    0x", p.ioc_status as u64, 4));
        lines.push(hex_line("  IOCLogInfo:   0x", p.ioc_log_info as u64, 8));
        lines.push(labelled("  raw reply:    ", p.raw_reply_hex.as_str()));
        if p.success {
            lines.push(
                "  => SUCCESS: firmware ACCEPTED the clean. The flash WAS erased. Re-flash the OEM firmware now (do not reset before reflashing).".to_owned(),
            );
        } else {
            lines.push(
                "  => REJECTED: firmware refused the clean (non-zero IOCStatus). Flash unchanged. The IOCStatus/IOCLogInfo above characterize the lock.".to_owned(),
            );
        }
        assert(strings(lines@) =~= report_lines(*p));
    }
    Ok(lines)
}

} // verus!
