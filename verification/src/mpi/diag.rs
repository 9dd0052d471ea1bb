//! Control of a controller through its diagnostic register.
//!
//! Each operation goes on in turns: it says which registers to write and how
//! long to wait, then which register to read; what was read decides the next
//! turn.

use crate::mpi::doorbell::{
    MpiRegisterContext, RegisterOp, MPI2_DIAG_BOOTDEVICE_MASK, MPI2_DIAG_FORCE_HCB,
    MPI2_DIAG_HCB_MODE, MPI2_DIAG_RESET_ADAPTER, MPI2_DIAG_WRITE_ENABLE, MPI2_DOORBELL,
    MPI2_DOORBELL_READY, MPI2_DOORBELL_STATE_MASK,
};
use crate::text::{hex_pad, push_hex_pad};
use vstd::prelude::*;

verus! {

/// Errors of control operations.
#[derive(Debug)]
pub enum MpiError {
    /// The registers cannot be reached.
    Io(String),
    /// The controller does not stay halted.
    IocNotHalted { doorbell: u32 },
    /// The controller does not become ready.
    IocNotReady { doorbell: u32 },
    /// The diagnostic register is locked.
    DeviceNotWritable,
}

impl MpiError {
    /// The error in words.
    pub open spec fn spec_text(&self) -> Seq<char> {
        match self {
            MpiError::Io(e) => "IO error: "@ + e@,
            MpiError::IocNotHalted { doorbell } => "IOC did not halt (doorbell=0x"@ + hex_pad(
                *doorbell as nat,
                8,
                false,
            ) + ")"@,
            MpiError::IocNotReady { doorbell } => "IOC did not become ready (doorbell=0x"@
                + hex_pad(*doorbell as nat, 8, false) + ")"@,
            MpiError::DeviceNotWritable => "Device not writable (WRITE_ENABLE bit not set)"@,
        }
    }

    /// The error in words.
    pub fn text(&self) -> (r: String)
        ensures
            r@ == self.spec_text(),
    {
        match self {
            MpiError::Io(e) => {
                let mut t = "IO error: ".to_owned();
                t.append(e.as_str());
                t
            },
            MpiError::IocNotHalted { doorbell } => {
                let mut t = "IOC did not halt (doorbell=0x".to_owned();
                push_hex_pad(&mut t, *doorbell as u64, 8, false);
                t.append(")");
                t
            },
            MpiError::IocNotReady { doorbell } => {
                let mut t = "IOC did not become ready (doorbell=0x".to_owned();
                push_hex_pad(&mut t, *doorbell as u64, 8, false);
                t.append(")");
                t
            },
            MpiError::DeviceNotWritable => {
                "Device not writable (WRITE_ENABLE bit not set)".to_owned()
            },
        }
    }
}

/// How often the doorbell is read while waiting for a controller.
pub const READY_POLLS: u32 = 200;

// ------------------------------------------------------------------- halt

/// Where halting a controller stands.
#[derive(Debug, Clone, Copy, PartialEq, Eq, Structural)]
pub enum HaltStage {
    /// The diagnostic register is read.
    Start,
    /// It is read again after the reset.
    AfterReset,
    /// The doorbell is read.
    Verify,
}

/// The register that a stage needs to know.
pub open spec fn halt_reads(s: HaltStage, ctx: MpiRegisterContext) -> u32 {
    match s {
        HaltStage::Start | HaltStage::AfterReset => ctx.diag_offset,
        HaltStage::Verify => MPI2_DOORBELL,
    }
}

/// The register that a stage needs to know.
pub fn halt_register(s: HaltStage, ctx: &MpiRegisterContext) -> (r: u32)
    ensures
        r == halt_reads(s, *ctx),
{
    match s {
        HaltStage::Start | HaltStage::AfterReset => ctx.diag_offset,
        HaltStage::Verify => MPI2_DOORBELL,
    }
}

/// What the value of that register leads to: what to do, and the next stage or
/// the end.
pub open spec fn halt_turn(s: HaltStage, ctx: MpiRegisterContext, value: u32) -> (
    Seq<RegisterOp>,
    Result<Option<HaltStage>, MpiError>,
) {
    match s {
        HaltStage::Start => (
            seq![
                RegisterOp::Write { offset: ctx.diag_offset, value: value | MPI2_DIAG_FORCE_HCB },
                RegisterOp::Write {
                    offset: ctx.diag_offset,
                    value: value | MPI2_DIAG_FORCE_HCB | MPI2_DIAG_RESET_ADAPTER,
                },
                RegisterOp::Sleep { millis: 1000 },
            ],
            Ok(Some(HaltStage::AfterReset)),
        ),
        HaltStage::AfterReset => (
            seq![
                RegisterOp::Write { offset: ctx.diag_offset, value: value & !MPI2_DIAG_FORCE_HCB },
            ],
            Ok(Some(HaltStage::Verify)),
        ),
        HaltStage::Verify => (
            Seq::empty(),
            if value & MPI2_DOORBELL_STATE_MASK != 0 {
                Err(MpiError::IocNotHalted { doorbell: value })
            } else {
                Ok(None)
            },
        ),
    }
}

/// One turn of halting a controller so that it takes its code from the host.
pub fn halt(s: HaltStage, ctx: &MpiRegisterContext, value: u32) -> (r: (
    Vec<RegisterOp>,
    Result<Option<HaltStage>, MpiError>,
))
    ensures
        (r.0@, r.1) == halt_turn(s, *ctx, value),
{
    let mut ops: Vec<RegisterOp> = Vec::new();
    match s {
        HaltStage::Start => {
            let forced: u32 = value | MPI2_DIAG_FORCE_HCB;
            ops.push(RegisterOp::Write { offset: ctx.diag_offset, value: forced });
            ops.push(
                RegisterOp::Write {
                    offset: ctx.diag_offset,
                    value: forced | MPI2_DIAG_RESET_ADAPTER,
                },
            );
            ops.push(RegisterOp::Sleep { millis: 1000 });
            assert(ops@ =~= halt_turn(s, *ctx, value).0);
            (ops, Ok(Some(HaltStage::AfterReset)))
        },
        HaltStage::AfterReset => {
            ops.push(
                RegisterOp::Write { offset: ctx.diag_offset, value: value & !MPI2_DIAG_FORCE_HCB },
            );
            assert(ops@ =~= halt_turn(s, *ctx, value).0);
            (ops, Ok(Some(HaltStage::Verify)))
        },
        HaltStage::Verify => {
            if value & MPI2_DOORBELL_STATE_MASK != 0 {
                (ops, Err(MpiError::IocNotHalted { doorbell: value }))
            } else {
                (ops, Ok(None))
            }
        },
    }
}

// ------------------------------------------------------------------ reset

/// Where resetting a controller stands.
#[derive(Debug, Clone, Copy, PartialEq, Eq, Structural)]
pub enum ResetStage {
    /// The diagnostic register is read.
    Start,
    /// It is read again with the boot bits cleared.
    Cleared,
    /// The doorbell is read, for the record.
    Observe,
    /// The doorbell is read until the controller is ready, `left` times at most.
    Poll { left: u32 },
    /// The doorbell is read for the last time.
    Verify,
}

/// The register that a stage needs to know.
pub open spec fn reset_reads(s: ResetStage, ctx: MpiRegisterContext) -> u32 {
    match s {
        ResetStage::Start | ResetStage::Cleared => ctx.diag_offset,
        _ => MPI2_DOORBELL,
    }
}

/// The register that a stage needs to know.
pub fn reset_register(s: ResetStage, ctx: &MpiRegisterContext) -> (r: u32)
    ensures
        r == reset_reads(s, *ctx),
{
    match s {
        ResetStage::Start | ResetStage::Cleared => ctx.diag_offset,
        _ => MPI2_DOORBELL,
    }
}

/// A doorbell poll: the wait before the next, and whether it was the last.
pub open spec fn poll_turn(left: u32, value: u32) -> (Seq<RegisterOp>, Option<u32>) {
    if left == 0 || value & MPI2_DOORBELL_READY != 0 {
        (Seq::empty(), None)
    } else if left == 1 {
        (seq![RegisterOp::Sleep { millis: 10 }], None)
    } else {
        (seq![RegisterOp::Sleep { millis: 10 }], Some((left - 1) as u32))
    }
}

/// Judges a doorbell poll.
pub fn poll(left: u32, value: u32) -> (r: (Vec<RegisterOp>, Option<u32>))
    ensures
        (r.0@, r.1) == poll_turn(left, value),
{
    let mut ops: Vec<RegisterOp> = Vec::new();
    if left == 0 || value & MPI2_DOORBELL_READY != 0 {
        return (ops, None);
    }
    ops.push(RegisterOp::Sleep { millis: 10 });
    assert(ops@ =~= seq![RegisterOp::Sleep { millis: 10 }]);
    if left == 1 {
        (ops, None)
    } else {
        (ops, Some(left - 1))
    }
}

/// What the value of that register leads to.
pub open spec fn reset_turn(s: ResetStage, ctx: MpiRegisterContext, value: u32) -> (
    Seq<RegisterOp>,
    Result<Option<ResetStage>, MpiError>,
) {
    match s {
        ResetStage::Start => (
            seq![
                RegisterOp::Write {
                    offset: ctx.diag_offset,
                    value: value & !MPI2_DIAG_BOOTDEVICE_MASK & !MPI2_DIAG_FORCE_HCB
                        & !MPI2_DIAG_HCB_MODE,
                },
                RegisterOp::Sleep { millis: 100 },
            ],
            Ok(Some(ResetStage::Cleared)),
        ),
        ResetStage::Cleared => (
            seq![
                RegisterOp::Write {
                    offset: ctx.diag_offset,
                    value: value | MPI2_DIAG_RESET_ADAPTER,
                },
                RegisterOp::Sleep { millis: 100 },
            ],
            Ok(Some(ResetStage::Observe)),
        ),
        ResetStage::Observe => (Seq::empty(), Ok(Some(ResetStage::Poll { left: READY_POLLS }))),
        ResetStage::Poll { left } => (
            poll_turn(left, value).0,
            match poll_turn(left, value).1 {
                Some(n) => Ok(Some(ResetStage::Poll { left: n })),
                None => Ok(Some(ResetStage::Verify)),
            },
        ),
        ResetStage::Verify => (
            Seq::empty(),
            if value & MPI2_DOORBELL_READY == 0 {
                Err(MpiError::IocNotReady { doorbell: value })
            } else {
                Ok(None)
            },
        ),
    }
}

/// One turn of resetting a controller.
pub fn reset(s: ResetStage, ctx: &MpiRegisterContext, value: u32) -> (r: (
    Vec<RegisterOp>,
    Result<Option<ResetStage>, MpiError>,
))
    ensures
        (r.0@, r.1) == reset_turn(s, *ctx, value),
{
    let mut ops: Vec<RegisterOp> = Vec::new();
    match s {
        ResetStage::Start => {
            let cleared: u32 = value & !MPI2_DIAG_BOOTDEVICE_MASK & !MPI2_DIAG_FORCE_HCB
                & !MPI2_DIAG_HCB_MODE;
            ops.push(RegisterOp::Write { offset: ctx.diag_offset, value: cleared });
            ops.push(RegisterOp::Sleep { millis: 100 });
            assert(ops@ =~= reset_turn(s, *ctx, value).0);
            (ops, Ok(Some(ResetStage::Cleared)))
        },
        ResetStage::Cleared => {
            ops.push(
                RegisterOp::Write {
                    offset: ctx.diag_offset,
                    value: value | MPI2_DIAG_RESET_ADAPTER,
                },
            );
            ops.push(RegisterOp::Sleep { millis: 100 });
            assert(ops@ =~= reset_turn(s, *ctx, value).0);
            (ops, Ok(Some(ResetStage::Observe)))
        },
        ResetStage::Observe => (ops, Ok(Some(ResetStage::Poll { left: READY_POLLS }))),
        ResetStage::Poll { left } => {
            let (wait, next) = poll(left, value);
            match next {
                Some(n) => (wait, Ok(Some(ResetStage::Poll { left: n }))),
                None => (wait, Ok(Some(ResetStage::Verify))),
            }
        },
        ResetStage::Verify => {
            if value & MPI2_DOORBELL_READY == 0 {
                (ops, Err(MpiError::IocNotReady { doorbell: value }))
            } else {
                (ops, Ok(None))
            }
        },
    }
}

/// How many turns a reset can still take.
pub open spec fn reset_turns_left(s: ResetStage) -> int {
    match s {
        ResetStage::Start => READY_POLLS + 5,
        ResetStage::Cleared => READY_POLLS + 4,
        ResetStage::Observe => READY_POLLS + 3,
        ResetStage::Poll { left } => left + 2,
        ResetStage::Verify => 1,
    }
}

/// A reset ends, whatever the registers show; it succeeds only on a doorbell
/// that shows a ready controller.
pub proof fn reset_ends(s: ResetStage, ctx: MpiRegisterContext, value: u32)
    ensures
        match reset_turn(s, ctx, value).1 {
            Ok(Some(t)) => 0 < reset_turns_left(t) < reset_turns_left(s),
            Ok(None) => s is Verify && value & MPI2_DOORBELL_READY != 0,
            Err(_) => s is Verify && value & MPI2_DOORBELL_READY == 0,
        },
{
}

/// A halt succeeds only on a doorbell without any state bit.
pub proof fn halt_is_checked(s: HaltStage, ctx: MpiRegisterContext, value: u32)
    ensures
        halt_turn(s, ctx, value).1 == Ok::<Option<HaltStage>, MpiError>(None) <==> s is Verify
            && value & MPI2_DOORBELL_STATE_MASK == 0,
{
}

// --------------------------------------------------------- indirect access

/// The writes that select a register inside the chip.
pub open spec fn select_ops(ctx: MpiRegisterContext, offset: u32) -> Seq<RegisterOp> {
    seq![
        RegisterOp::Write { offset: ctx.rw_addr_high_offset, value: 0 },
        RegisterOp::Write { offset: ctx.rw_addr_low_offset, value: offset },
    ]
}

/// Plans reading a register inside the chip, given the diagnostic register: what
/// to do before the data register is read.
pub fn diag_read_chip(ctx: &MpiRegisterContext, diag: u32, offset: u32) -> (r: Result<
    Vec<RegisterOp>,
    MpiError,
>)
    ensures
        if diag & MPI2_DIAG_WRITE_ENABLE == 0 {
            r matches Err(e) && e is DeviceNotWritable
        } else {
            r matches Ok(ops) && ops@ == select_ops(*ctx, offset)
        },
{
    if diag & MPI2_DIAG_WRITE_ENABLE == 0 {
        return Err(MpiError::DeviceNotWritable);
    }
    let mut ops: Vec<RegisterOp> = Vec::new();
    ops.push(RegisterOp::Write { offset: ctx.rw_addr_high_offset, value: 0 });
    ops.push(RegisterOp::Write { offset: ctx.rw_addr_low_offset, value: offset });
    assert(ops@ =~= select_ops(*ctx, offset));
    Ok(ops)
}

/// Plans writing a register inside the chip, given the diagnostic register.
pub fn diag_write_chip(ctx: &MpiRegisterContext, diag: u32, offset: u32, data: u32) -> (r: Result<
    Vec<RegisterOp>,
    MpiError,
>)
    ensures
        if diag & MPI2_DIAG_WRITE_ENABLE == 0 {
            r matches Err(e) && e is DeviceNotWritable
        } else {
            r matches Ok(ops) && ops@ == select_ops(*ctx, offset).push(
                RegisterOp::Write { offset: ctx.rw_data_offset, value: data },
            )
        },
{
    match diag_read_chip(ctx, diag, offset) {
        Err(e) => Err(e),
        Ok(ops) => {
            let mut ops = ops;
            ops.push(RegisterOp::Write { offset: ctx.rw_data_offset, value: data });
            Ok(ops)
        },
    }
}

// ---------------------------------------------------------------- the laws

/// Halting a controller asks it to take its code from the host (0x200), then resets it (0x4)
/// with that still set, and takes the wish back once it has been reset; no other bit of the
/// diagnostic register is touched.
pub proof fn halt_touches_its_bits(ctx: MpiRegisterContext, value: u32)
    ensures
        ({
            let ops = halt_turn(HaltStage::Start, ctx, value).0;
            &&& ops.len() == 3
            &&& ops[0] matches RegisterOp::Write { offset, value: v } && offset == ctx.diag_offset
                && v & 0x200 == 0x200 && v & !0x200u32 == value & !0x200u32
            &&& ops[1] matches RegisterOp::Write { offset, value: v } && offset == ctx.diag_offset
                && v & 0x204 == 0x204 && v & !0x204u32 == value & !0x204u32
            &&& ops[2] is Sleep
        }),
        ({
            let ops = halt_turn(HaltStage::AfterReset, ctx, value).0;
            &&& ops.len() == 1
            &&& ops[0] matches RegisterOp::Write { offset, value: v } && offset == ctx.diag_offset
                && v & 0x200 == 0 && v & !0x200u32 == value & !0x200u32
        }),
        halt_reads(HaltStage::Start, ctx) == ctx.diag_offset,
        halt_reads(HaltStage::AfterReset, ctx) == ctx.diag_offset,
        halt_reads(HaltStage::Verify, ctx) == 0x00,
{
    let x = value;
    assert((x | 0x200u32) & 0x200 == 0x200 && (x | 0x200u32) & !0x200u32 == x & !0x200u32 && (x
        | 0x200u32 | 0x4u32) & 0x204 == 0x204 && (x | 0x200u32 | 0x4u32) & !0x204u32 == x
        & !0x204u32 && (x & !0x200u32) & 0x200 == 0 && (x & !0x200u32) & !0x200u32 == x & !0x200u32)
        by (bit_vector);
}

/// Halting goes through its three stages in order, and is over with the third.
pub proof fn halt_goes_in_order(ctx: MpiRegisterContext, value: u32)
    ensures
        halt_turn(HaltStage::Start, ctx, value).1 == Ok::<Option<HaltStage>, MpiError>(
            Some(HaltStage::AfterReset),
        ),
        halt_turn(HaltStage::AfterReset, ctx, value).1 == Ok::<Option<HaltStage>, MpiError>(
            Some(HaltStage::Verify),
        ),
        value < 0x1000_0000 ==> halt_turn(HaltStage::Verify, ctx, value).1 == Ok::<
            Option<HaltStage>,
            MpiError,
        >(None),
        value >= 0x1000_0000 ==> halt_turn(HaltStage::Verify, ctx, value).1 == Err::<
            Option<HaltStage>,
            MpiError,
        >(MpiError::IocNotHalted { doorbell: value }),
{
    assert((value & 0xF000_0000u32 != 0) == (value >= 0x1000_0000)) by (bit_vector);
}

/// Resetting a controller first clears what chooses where it boots from (0x1800, 0x200 and
/// 0x100), and then resets it (0x4); no other bit of the diagnostic register is touched.
pub proof fn reset_touches_its_bits(ctx: MpiRegisterContext, value: u32)
    ensures
        ({
            let ops = reset_turn(ResetStage::Start, ctx, value).0;
            &&& ops.len() == 2
            &&& ops[0] matches RegisterOp::Write { offset, value: v } && offset == ctx.diag_offset
                && v == value & !0x1B00u32
            &&& ops[1] is Sleep
        }),
        ({
            let ops = reset_turn(ResetStage::Cleared, ctx, value).0;
            &&& ops.len() == 2
            &&& ops[0] matches RegisterOp::Write { offset, value: v } && offset == ctx.diag_offset
                && v == value | 0x4
            &&& ops[1] is Sleep
        }),
        reset_turn(ResetStage::Start, ctx, value).1 == Ok::<Option<ResetStage>, MpiError>(
            Some(ResetStage::Cleared),
        ),
        reset_turn(ResetStage::Cleared, ctx, value).1 == Ok::<Option<ResetStage>, MpiError>(
            Some(ResetStage::Observe),
        ),
        reset_reads(ResetStage::Start, ctx) == ctx.diag_offset,
        reset_reads(ResetStage::Cleared, ctx) == ctx.diag_offset,
        reset_reads(ResetStage::Observe, ctx) == 0x00,
        reset_reads(ResetStage::Verify, ctx) == 0x00,
{
    let x = value;
    assert(x & !0x1800u32 & !0x200u32 & !0x100u32 == x & !0x1B00u32) by (bit_vector);
}

/// A controller is polled up to 200 times, with a wait of ten milliseconds after each poll in
/// vain: the polling goes on exactly where the doorbell is not ready and a poll is left.
pub proof fn polling_is_bounded(left: u32, value: u32, ctx: MpiRegisterContext)
    ensures
        reset_turn(ResetStage::Observe, ctx, value).1 == Ok::<Option<ResetStage>, MpiError>(
            Some(ResetStage::Poll { left: 200 }),
        ),
        poll_turn(left, value).1 matches Some(n) ==> n == left - 1,
        poll_turn(left, value).1 is Some <==> left >= 2 && value / 0x1000_0000 % 2 == 0,
        poll_turn(left, value).0 == if left >= 1 && value / 0x1000_0000 % 2 == 0 {
            seq![RegisterOp::Sleep { millis: 10 }]
        } else {
            Seq::empty()
        },
{
    assert((value & 0x1000_0000u32 != 0) == (value / 0x1000_0000 % 2 == 1)) by (bit_vector);
}

/// A register inside the chip is selected by two writes, its high half, which is zero, before its
/// low half; a halt and a reset look at the diagnostic register before they change it and at the
/// doorbell, which stands at 0, to see how they ended.
pub proof fn registers_are_named(ctx: MpiRegisterContext, offset: u32)
    ensures
        select_ops(ctx, offset).len() == 2,
        select_ops(ctx, offset)[0] == (RegisterOp::Write {
            offset: ctx.rw_addr_high_offset,
            value: 0,
        }),
        select_ops(ctx, offset)[1] == (RegisterOp::Write {
            offset: ctx.rw_addr_low_offset,
            value: offset,
        }),
        halt_reads(HaltStage::Start, ctx) == ctx.diag_offset,
        halt_reads(HaltStage::AfterReset, ctx) == ctx.diag_offset,
        halt_reads(HaltStage::Verify, ctx) == 0,
        reset_reads(ResetStage::Start, ctx) == ctx.diag_offset,
        reset_reads(ResetStage::Cleared, ctx) == ctx.diag_offset,
        reset_reads(ResetStage::Verify, ctx) == 0,
        forall|left: u32| #[trigger] reset_reads(ResetStage::Poll { left }, ctx) == 0,
{
}

/// A controller is given time: a second after the reset of a halt, a tenth of a second after each
/// write of a reset, and nothing is written after these waits in the same turn.
pub proof fn controller_is_given_time(ctx: MpiRegisterContext, value: u32)
    ensures
        ({
            let ops = halt_turn(HaltStage::Start, ctx, value).0;
            ops.len() == 3 && ops[2] == (RegisterOp::Sleep { millis: 1000 })
        }),
        ({
            let ops = reset_turn(ResetStage::Start, ctx, value).0;
            ops.len() == 2 && ops[1] == (RegisterOp::Sleep { millis: 100 })
        }),
        ({
            let ops = reset_turn(ResetStage::Cleared, ctx, value).0;
            ops.len() == 2 && ops[1] == (RegisterOp::Sleep { millis: 100 })
        }),
        reset_turn(ResetStage::Observe, ctx, value).0.len() == 0,
        reset_turn(ResetStage::Verify, ctx, value).0.len() == 0,
{
}

} // verus!
