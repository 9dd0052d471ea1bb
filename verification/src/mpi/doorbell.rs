//! The registers of a controller and the handshake over its doorbell.
//!
//! What happens between the host and a register cannot be foreseen here. The
//! functions below say which registers to write in which order, what to wait
//! for, and what to make of the values that were read.

use crate::bytes::{le16, push_u16, read_u32, u32_at};
use vstd::prelude::*;

verus! {

pub const MPI2_DOORBELL: u32 = 0x00;

pub const MPI2_WRSEQ: u32 = 0x04;

pub const MPI2_DIAG: u32 = 0x08;

pub const MR_DIAG: u32 = 0xf8;

pub const MR_WRSEQ: u32 = 0xfc;

pub const MPI2_DOORBELL_STATE_MASK: u32 = 0xF000_0000;

pub const MPI2_DOORBELL_READY: u32 = 0x1000_0000;

pub const MPI2_DOORBELL_OPERATIONAL: u32 = 0x2000_0000;

pub const MPI2_DOORBELL_FAULT: u32 = 0x4000_0000;

pub const MPI2_DIAG_SBR_RELOAD: u32 = 0x2000;

pub const MPI2_DIAG_BOOTDEVICE_MASK: u32 = 0x1800;

pub const MPI2_DIAG_BOOTDEVICE_DEF: u32 = 0x0000;

pub const MPI2_DIAG_BOOTDEVICE_HCDW: u32 = 0x0800;

pub const MPI2_DIAG_CLR_FLASH_BAD_SIG: u32 = 0x0400;

pub const MPI2_DIAG_FORCE_HCB: u32 = 0x0200;

pub const MPI2_DIAG_HCB_MODE: u32 = 0x0100;

pub const MPI2_DIAG_WRITE_ENABLE: u32 = 0x0080;

pub const MPI2_DIAG_FLASH_BAD_SIG: u32 = 0x0040;

pub const MPI2_DIAG_RESET_HISTORY: u32 = 0x0020;

pub const MPI2_DIAG_RW_ENABLE: u32 = 0x0010;

pub const MPI2_DIAG_RESET_ADAPTER: u32 = 0x0004;

pub const MPI2_DIAG_HOLD_IOC_RESET: u32 = 0x0002;

pub const MPI2_DIAG_RW_DATA: u32 = 0x10;

pub const MPI2_DIAG_RW_ADDRESS_LOW: u32 = 0x14;

pub const MPI2_DIAG_RW_ADDRESS_HIGH: u32 = 0x18;

pub const MR_DIAG_RW_DATA: u32 = 0x24;

pub const MR_DIAG_RW_ADDRESS_LOW: u32 = 0x28;

pub const MR_DIAG_RW_ADDRESS_HIGH: u32 = 0x2c;

pub const MPI2_DCR_DATA: u32 = 0x38;

pub const MPI2_DCR_ADDRESS: u32 = 0x3c;

pub const MPI2_HISTATUS: u32 = 0x30;

/// The controller has posted a word.
pub const MPI2_HIS_IOC2SYS_DB_STATUS: u32 = 0x0000_0001;

/// The controller has not taken the last word yet.
pub const MPI2_HIS_SYS2IOC_DB_STATUS: u32 = 0x8000_0000;

/// A handshake is going on.
pub const MPI2_DOORBELL_USED: u32 = 0x0800_0000;

pub const MPI2_DOORBELL_FUNCTION_SHIFT: u32 = 24;

pub const MPI2_DOORBELL_ADD_DWORDS_SHIFT: u32 = 16;

/// One thing to do to a controller.
#[derive(Debug, Clone, Copy, PartialEq, Eq, Structural)]
pub enum RegisterOp {
    /// Write a register.
    Write { offset: u32, value: u32 },
    /// Wait until the controller has posted a word.
    AwaitPosted,
    /// Wait until the controller has taken the last word.
    AwaitTaken,
    /// Do nothing for a while.
    Sleep { millis: u32 },
}

/// What to do after reading a register while waiting.
#[derive(Debug, Clone, Copy, PartialEq, Eq, Structural)]
pub enum PollVerdict {
    /// What was waited for has come.
    Done,
    /// The controller has failed.
    Fault,
    /// Nothing has changed.
    Again,
}

/// Whether a doorbell shows a failed controller.
pub open spec fn doorbell_faulted(doorbell: u32) -> bool {
    doorbell & MPI2_DOORBELL_STATE_MASK == MPI2_DOORBELL_FAULT
}

/// What to make of the two registers while waiting for the controller to post a
/// word.
pub open spec fn posted_verdict(histatus: u32, doorbell: u32) -> PollVerdict {
    if histatus & MPI2_HIS_IOC2SYS_DB_STATUS != 0 {
        PollVerdict::Done
    } else if doorbell_faulted(doorbell) {
        PollVerdict::Fault
    } else {
        PollVerdict::Again
    }
}

/// What to make of the two registers while waiting for the controller to take a
/// word.
pub open spec fn taken_verdict(histatus: u32, doorbell: u32) -> PollVerdict {
    if histatus & MPI2_HIS_SYS2IOC_DB_STATUS == 0 {
        PollVerdict::Done
    } else if doorbell_faulted(doorbell) {
        PollVerdict::Fault
    } else {
        PollVerdict::Again
    }
}

/// Judges one poll for a posted word.
pub fn wait_doorbell_int(histatus: u32, doorbell: u32) -> (r: PollVerdict)
    ensures
        r == posted_verdict(histatus, doorbell),
{
    if histatus & MPI2_HIS_IOC2SYS_DB_STATUS != 0 {
        PollVerdict::Done
    } else if doorbell & MPI2_DOORBELL_STATE_MASK == MPI2_DOORBELL_FAULT {
        PollVerdict::Fault
    } else {
        PollVerdict::Again
    }
}

/// Judges one poll for a taken word.
pub fn wait_doorbell_consumed(histatus: u32, doorbell: u32) -> (r: PollVerdict)
    ensures
        r == taken_verdict(histatus, doorbell),
{
    if histatus & MPI2_HIS_SYS2IOC_DB_STATUS == 0 {
        PollVerdict::Done
    } else if doorbell & MPI2_DOORBELL_STATE_MASK == MPI2_DOORBELL_FAULT {
        PollVerdict::Fault
    } else {
        PollVerdict::Again
    }
}

// ------------------------------------------------------------------- send

/// The word that announces a request of `words` words.
pub open spec fn handshake_header(function: u8, words: u32) -> u32 {
    ((function as u32) << MPI2_DOORBELL_FUNCTION_SHIFT) | (((words - 2) as u32)
        << MPI2_DOORBELL_ADD_DWORDS_SHIFT)
}

/// The writes and waits that stream the first `n` words of a request.
pub open spec fn streamed(request: Seq<u8>, n: nat) -> Seq<RegisterOp>
    decreases n,
{
    if n == 0 {
        Seq::empty()
    } else {
        streamed(request, (n - 1) as nat).push(
            RegisterOp::Write {
                offset: MPI2_DOORBELL,
                value: u32_at(request, 4 * (n - 1)),
            },
        ).push(RegisterOp::AwaitTaken)
    }
}

/// Everything that sending a request takes.
pub open spec fn send_ops(function: u8, request: Seq<u8>) -> Seq<RegisterOp> {
    seq![
        RegisterOp::Write { offset: MPI2_HISTATUS, value: 0 },
        RegisterOp::Write {
            offset: MPI2_DOORBELL,
            value: handshake_header(function, (request.len() / 4) as u32),
        },
        RegisterOp::AwaitPosted,
        RegisterOp::Write { offset: MPI2_HISTATUS, value: 0 },
        RegisterOp::AwaitTaken,
    ] + streamed(request, (request.len() / 4) as nat)
}

/// Why a request cannot be sent while the doorbell reads `doorbell`.
pub open spec fn send_refusal(request: Seq<u8>, doorbell: u32) -> Option<Seq<char>> {
    if request.len() % 4 != 0 {
        Some("doorbell_handshake_send: request not dword-aligned"@)
    } else if request.len() / 4 < 2 {
        Some("doorbell_handshake_send: request too small (< 2 dwords)"@)
    } else if doorbell & MPI2_DOORBELL_USED != 0 {
        Some("doorbell_handshake_send: doorbell already in use"@)
    } else if doorbell_faulted(doorbell) {
        Some("doorbell_handshake_send: IOC fault before send"@)
    } else {
        None
    }
}

/// Plans sending a request: the words of a whole number of words go over the
/// doorbell one by one, and the controller takes each before the next.
pub fn doorbell_handshake_send(function: u8, request: &[u8], doorbell: u32) -> (r: Result<
    Vec<RegisterOp>,
    &'static str,
>)
    requires
        request@.len() <= 0xFFFF_FFFF,
    ensures
        match send_refusal(request@, doorbell) {
            Some(e) => r matches Err(x) && x@ == e,
            None => r matches Ok(ops) && ops@ == send_ops(function, request@),
        },
{
    if request.len() % 4 != 0 {
        return Err("doorbell_handshake_send: request not dword-aligned");
    }
    let words: usize = request.len() / 4;
    if words < 2 {
        return Err("doorbell_handshake_send: request too small (< 2 dwords)");
    }
    if doorbell & MPI2_DOORBELL_USED != 0 {
        return Err("doorbell_handshake_send: doorbell already in use");
    }
    if doorbell & MPI2_DOORBELL_STATE_MASK == MPI2_DOORBELL_FAULT {
        return Err("doorbell_handshake_send: IOC fault before send");
    }
    let header: u32 = ((function as u32) << MPI2_DOORBELL_FUNCTION_SHIFT) | ((words as u32 - 2)
        << MPI2_DOORBELL_ADD_DWORDS_SHIFT);
    let mut ops: Vec<RegisterOp> = Vec::new();
    ops.push(RegisterOp::Write { offset: MPI2_HISTATUS, value: 0 });
    ops.push(RegisterOp::Write { offset: MPI2_DOORBELL, value: header });
    ops.push(RegisterOp::AwaitPosted);
    ops.push(RegisterOp::Write { offset: MPI2_HISTATUS, value: 0 });
    ops.push(RegisterOp::AwaitTaken);
    let ghost head = ops@;
    let len: usize = request.len();
    let mut i: usize = 0;
    assert(ops@ =~= head + streamed(request@, 0));
    while i < words
        invariant
            len == request@.len(),
            words == len / 4,
            request@.len() % 4 == 0,
            i <= words,
            ops@ == head + streamed(request@, i as nat),
        decreases words - i,
    {
        ops.push(RegisterOp::Write { offset: MPI2_DOORBELL, value: read_u32(request, 4 * i) });
        ops.push(RegisterOp::AwaitTaken);
        i += 1;
        assert(ops@ =~= head + streamed(request@, i as nat));
    }
    assert(head =~= seq![
        RegisterOp::Write { offset: MPI2_HISTATUS, value: 0 },
        RegisterOp::Write {
            offset: MPI2_DOORBELL,
            value: handshake_header(function, (request@.len() / 4) as u32),
        },
        RegisterOp::AwaitPosted,
        RegisterOp::Write { offset: MPI2_HISTATUS, value: 0 },
        RegisterOp::AwaitTaken,
    ]);
    Ok(ops)
}

/// Every word of a request goes out exactly once and in order: the `k`-th word
/// is written at its own place in the plan, and is waited for right after.
pub proof fn every_word_is_sent(function: u8, request: Seq<u8>, k: int)
    requires
        0 <= k < request.len() / 4,
    ensures
        send_ops(function, request).len() == 5 + 2 * (request.len() / 4),
        send_ops(function, request)[5 + 2 * k] == (RegisterOp::Write {
            offset: MPI2_DOORBELL,
            value: u32_at(request, 4 * k),
        }),
        send_ops(function, request)[6 + 2 * k] == RegisterOp::AwaitTaken,
{
    streamed_at(request, (request.len() / 4) as nat, k);
}

proof fn streamed_at(request: Seq<u8>, n: nat, k: int)
    requires
        0 <= k < n,
    ensures
        streamed(request, n).len() == 2 * n,
        streamed(request, n)[2 * k] == (RegisterOp::Write {
            offset: MPI2_DOORBELL,
            value: u32_at(request, 4 * k),
        }),
        streamed(request, n)[2 * k + 1] == RegisterOp::AwaitTaken,
    decreases n,
{
    streamed_len(request, (n - 1) as nat);
    if k < n - 1 {
        streamed_at(request, (n - 1) as nat, k);
    }
}

proof fn streamed_len(request: Seq<u8>, n: nat)
    ensures
        streamed(request, n).len() == 2 * n,
    decreases n,
{
    if n > 0 {
        streamed_len(request, (n - 1) as nat);
    }
}

// ---------------------------------------------------------------- receive

/// How many words a reply has, given its first `words`: two, until the second
/// word tells.
pub open spec fn reply_words(words: Seq<u16>) -> int {
    if words.len() < 2 {
        2
    } else {
        (words[1] & 0x00ff) * 2
    }
}

/// The bytes of the first words of a reply, as far as they fit into `max`.
pub open spec fn reply_bytes(words: Seq<u16>, max: int) -> Seq<u8>
    decreases words.len(),
{
    if words.len() == 0 {
        Seq::empty()
    } else if 2 * words.len() <= max {
        reply_bytes(words.drop_last(), max) + le16(words.last())
    } else {
        reply_bytes(words.drop_last(), max)
    }
}

/// Whether the first words of a reply announce no reply at all.
pub open spec fn announces_nothing(words: Seq<u16>) -> bool {
    words.len() >= 2 && reply_words(words) == 0
}

/// A reply as it comes in, word by word.
pub struct ReplyReader {
    max: usize,
    expected: usize,
    out: Vec<u8>,
    count: usize,
    words: Ghost<Seq<u16>>,
}

impl View for ReplyReader {
    type V = Seq<u16>;

    closed spec fn view(&self) -> Seq<u16> {
        self.words@
    }
}

impl ReplyReader {
    /// How many bytes are kept.
    pub closed spec fn limit(&self) -> int {
        self.max as int
    }

    /// Whether the parts belong together.
    pub closed spec fn wf(&self) -> bool {
        &&& self.count == self.words@.len()
        &&& self.expected == reply_words(self.words@)
        &&& self.out@ == reply_bytes(self.words@, self.max as int)
        &&& self.expected <= 510
        &&& self.count <= 510
        &&& self.count <= self.expected
    }

    /// Starts on a reply of which at most `max` bytes are kept.
    pub fn new(max: usize) -> (r: Self)
        ensures
            r.wf(),
            r@ == Seq::<u16>::empty(),
            r.limit() == max,
    {
        ReplyReader { max, expected: 2, out: Vec::new(), count: 0, words: Ghost(Seq::empty()) }
    }

    /// Whether another word is due.
    pub fn wants_word(&self) -> (r: bool)
        requires
            self.wf(),
        ensures
            r == (self@.len() < reply_words(self@)),
    {
        self.count < self.expected
    }

    /// Takes a word. The second word tells how long the reply is.
    pub fn accept(&mut self, value: u16) -> (r: Result<(), &'static str>)
        requires
            old(self).wf(),
            old(self)@.len() < reply_words(old(self)@),
        ensures
            final(self).limit() == old(self).limit(),
            announces_nothing(old(self)@.push(value)) ==> (r matches Err(e) && e@
                == "doorbell_handshake_recv: chip reported zero-length reply"@),
            !announces_nothing(old(self)@.push(value)) ==> r is Ok && final(self).wf()
                && final(self)@ == old(self)@.push(value),
    {
        let ghost before = self.words@;
        let ghost after = before.push(value);
        assert(after.drop_last() =~= before);
        proof {
            assert(value & 0x00ff <= 255) by (bit_vector);
            assert(value & !0xff00u16 == value & 0x00ff) by (bit_vector);
        }
        if self.count == 1 {
            let length: usize = (value & !0xff00u16) as usize;
            if length == 0 {
                assert(announces_nothing(after));
                return Err("doorbell_handshake_recv: chip reported zero-length reply");
            }
            self.expected = length * 2;
        }
        if self.count * 2 + 2 <= self.max {
            push_u16(&mut self.out, value);
        }
        self.count = self.count + 1;
        self.words = Ghost(after);
        assert(before.len() >= 2 ==> after[1] == before[1]);
        Ok(())
    }

    /// The bytes of the reply.
    pub fn finish(self) -> (r: Vec<u8>)
        requires
            self.wf(),
        ensures
            r@ == reply_bytes(self@, self.limit()),
    {
        self.out
    }
}

/// A reply that fits is kept whole: two bytes for each word.
pub proof fn reply_is_kept(words: Seq<u16>, max: int)
    requires
        2 * words.len() <= max,
    ensures
        reply_bytes(words, max).len() == 2 * words.len(),
    decreases words.len(),
{
    if words.len() > 0 {
        reply_is_kept(words.drop_last(), max);
    }
}

// ----------------------------------------------------------------- states

/// The writes that unlock the diagnostic register.
pub open spec fn unlock_ops(offset: u32) -> Seq<RegisterOp> {
    seq![
        RegisterOp::Write { offset, value: 0x00 },
        RegisterOp::Write { offset, value: 0x04 },
        RegisterOp::Write { offset, value: 0x0b },
        RegisterOp::Write { offset, value: 0x02 },
        RegisterOp::Write { offset, value: 0x07 },
        RegisterOp::Write { offset, value: 0x0d },
    ]
}

/// Plans unlocking the diagnostic register.
pub fn lsi_unlock(wrseq_offset: u32) -> (r: Vec<RegisterOp>)
    ensures
        r@ == unlock_ops(wrseq_offset),
{
    let mut ops: Vec<RegisterOp> = Vec::new();
    ops.push(RegisterOp::Write { offset: wrseq_offset, value: 0x00 });
    ops.push(RegisterOp::Write { offset: wrseq_offset, value: 0x04 });
    ops.push(RegisterOp::Write { offset: wrseq_offset, value: 0x0b });
    ops.push(RegisterOp::Write { offset: wrseq_offset, value: 0x02 });
    ops.push(RegisterOp::Write { offset: wrseq_offset, value: 0x07 });
    ops.push(RegisterOp::Write { offset: wrseq_offset, value: 0x0d });
    assert(ops@ =~= unlock_ops(wrseq_offset));
    ops
}

/// The state of a controller.
#[derive(Debug, Clone, Copy, PartialEq, Eq, Structural)]
pub enum IocState {
    Reset,
    Ready,
    Operational,
    Fault,
}

/// The state that a doorbell shows.
pub open spec fn ioc_state_of(db: u32) -> IocState {
    if db & MPI2_DOORBELL_STATE_MASK == 0 {
        IocState::Reset
    } else if db & MPI2_DOORBELL_FAULT != 0 {
        IocState::Fault
    } else if db & MPI2_DOORBELL_OPERATIONAL != 0 {
        IocState::Operational
    } else if db & MPI2_DOORBELL_READY != 0 {
        IocState::Ready
    } else {
        IocState::Reset
    }
}

/// The state that a doorbell shows.
pub fn get_ioc_state(db: u32) -> (r: IocState)
    ensures
        r == ioc_state_of(db),
{
    if db & MPI2_DOORBELL_STATE_MASK == 0 {
        return IocState::Reset;
    }
    if db & MPI2_DOORBELL_FAULT != 0 {
        return IocState::Fault;
    }
    if db & MPI2_DOORBELL_OPERATIONAL != 0 {
        return IocState::Operational;
    }
    if db & MPI2_DOORBELL_READY != 0 {
        return IocState::Ready;
    }
    IocState::Reset
}

impl IocState {
    /// The name of the state.
    pub open spec fn spec_name(self) -> Seq<char> {
        match self {
            IocState::Reset => "Reset"@,
            IocState::Ready => "Ready"@,
            IocState::Operational => "Operational"@,
            IocState::Fault => "Fault"@,
        }
    }

    /// The name of the state.
    pub fn name(self) -> (r: &'static str)
        ensures
            r@ == self.spec_name(),
    {
        match self {
            IocState::Reset => "Reset",
            IocState::Ready => "Ready",
            IocState::Operational => "Operational",
            IocState::Fault => "Fault",
        }
    }
}

/// A controller that shows a failed state is never taken for one that can be
/// talked to.
pub proof fn fault_is_no_ready(db: u32)
    requires
        doorbell_faulted(db),
    ensures
        ioc_state_of(db) is Fault,
{
    assert(db & 0xF000_0000u32 == 0x4000_0000u32 ==> db & 0xF000_0000u32 != 0 && db & 0x4000_0000u32
        != 0) by (bit_vector);
}

/// Where the registers are; that depends on the mode of the controller.
#[derive(Debug, Clone)]
pub struct MpiRegisterContext {
    pub doorbell_offset: u32,
    pub wrseq_offset: u32,
    pub diag_offset: u32,
    pub rw_data_offset: u32,
    pub rw_addr_low_offset: u32,
    pub rw_addr_high_offset: u32,
}

impl MpiRegisterContext {
    /// The registers of a controller in its usual mode.
    pub fn mpt_mode() -> (r: Self)
        ensures
            r == (MpiRegisterContext {
                doorbell_offset: 0x00,
                wrseq_offset: 0x04,
                diag_offset: 0x08,
                rw_data_offset: 0x10,
                rw_addr_low_offset: 0x14,
                rw_addr_high_offset: 0x18,
            }),
    {
        MpiRegisterContext {
            doorbell_offset: MPI2_DOORBELL,
            wrseq_offset: MPI2_WRSEQ,
            diag_offset: MPI2_DIAG,
            rw_data_offset: MPI2_DIAG_RW_DATA,
            rw_addr_low_offset: MPI2_DIAG_RW_ADDRESS_LOW,
            rw_addr_high_offset: MPI2_DIAG_RW_ADDRESS_HIGH,
        }
    }

    /// The registers of a controller in MegaRAID mode.
    pub fn megaraid_mode() -> (r: Self)
        ensures
            r == (MpiRegisterContext {
                doorbell_offset: 0x00,
                wrseq_offset: 0xfc,
                diag_offset: 0xf8,
                rw_data_offset: 0x24,
                rw_addr_low_offset: 0x28,
                rw_addr_high_offset: 0x2c,
            }),
    {
        MpiRegisterContext {
            doorbell_offset: MPI2_DOORBELL,
            wrseq_offset: MR_WRSEQ,
            diag_offset: MR_DIAG,
            rw_data_offset: MR_DIAG_RW_DATA,
            rw_addr_low_offset: MR_DIAG_RW_ADDRESS_LOW,
            rw_addr_high_offset: MR_DIAG_RW_ADDRESS_HIGH,
        }
    }
}

/// Errors of the register layer.
#[derive(Debug)]
pub enum MpiRegisterError {
    /// The registers cannot be reached.
    Io(String),
    /// The window on the registers has the wrong size.
    InvalidBarSize,
}

impl MpiRegisterError {
    /// The error in words.
    pub open spec fn spec_text(&self) -> Seq<char> {
        match self {
            MpiRegisterError::Io(e) => "IO error: "@ + e@,
            MpiRegisterError::InvalidBarSize => {
                "Invalid BAR1 mapping size (expected 4096 bytes)"@
            },
        }
    }

    /// The error in words.
    pub fn text(&self) -> (r: String)
        ensures
            r@ == self.spec_text(),
    {
        match self {
            MpiRegisterError::Io(e) => {
                let mut t = "IO error: ".to_owned();
                t.append(e.as_str());
                t
            },
            MpiRegisterError::InvalidBarSize => {
                "Invalid BAR1 mapping size (expected 4096 bytes)".to_owned()
            },
        }
    }
}

// ---------------------------------------------------------------- the laws

/// A request is announced by its function in the high byte of one word and by the number of its
/// words, less two, in the byte below; before that and after the answer the interrupt register
/// at 0x30 is cleared, and the doorbell at 0x00 takes every word.
pub proof fn request_is_announced(function: u8, request: Seq<u8>)
    requires
        8 <= request.len() < 1032,
    ensures
        ({
            let ops = send_ops(function, request);
            &&& ops[0] == RegisterOp::Write { offset: 0x30, value: 0 }
            &&& ops[1] == RegisterOp::Write {
                offset: 0x00,
                value: (function * 0x0100_0000 + (request.len() / 4 - 2) * 0x1_0000) as u32,
            }
            &&& ops[2] == RegisterOp::AwaitPosted
            &&& ops[3] == RegisterOp::Write { offset: 0x30, value: 0 }
            &&& ops[4] == RegisterOp::AwaitTaken
        }),
{
    let f = function as u32;
    let w = (request.len() / 4 - 2) as u32;
    assert((f << 24u32) | (w << 16u32) == f * 0x0100_0000 + w * 0x1_0000) by (bit_vector)
        requires
            f <= 255,
            w <= 255,
    ;
}

/// A request is refused exactly where it is no whole number of words, where it has fewer than
/// two, where a handshake is going on, or where the controller has failed.
pub proof fn refusal_is_exact(request: Seq<u8>, doorbell: u32)
    ensures
        send_refusal(request, doorbell) is None <==> {
            &&& request.len() % 4 == 0
            &&& request.len() >= 8
            &&& doorbell / 0x0800_0000 % 2 == 0
            &&& doorbell / 0x1000_0000 != 4
        },
{
    let d = doorbell;
    assert((d & 0x0800_0000u32 != 0) == (d / 0x0800_0000 % 2 == 1)) by (bit_vector);
    assert((d & 0xF000_0000u32 == 0x4000_0000u32) == (d / 0x1000_0000 == 4)) by (bit_vector);
}

/// While waiting, the lowest bit of the interrupt register tells that a word was posted, and
/// its highest bit that the last one was not taken yet; only as long as neither has come does
/// a failed controller, with 4 in the highest four bits of its doorbell, end the wait.
pub proof fn polls_are_exact(histatus: u32, doorbell: u32)
    ensures
        posted_verdict(histatus, doorbell) is Done <==> histatus % 2 == 1,
        posted_verdict(histatus, doorbell) is Fault <==> histatus % 2 == 0 && doorbell / 0x1000_0000
            == 4,
        taken_verdict(histatus, doorbell) is Done <==> histatus < 0x8000_0000,
        taken_verdict(histatus, doorbell) is Fault <==> histatus >= 0x8000_0000 && doorbell
            / 0x1000_0000 == 4,
{
    let (h, d) = (histatus, doorbell);
    assert((h & 1u32 != 0) == (h % 2 == 1) && (h & 0x8000_0000u32 == 0) == (h < 0x8000_0000u32))
        by (bit_vector);
    assert((d & 0xF000_0000u32 == 0x4000_0000u32) == (d / 0x1000_0000 == 4)) by (bit_vector);
}

/// The state of a controller stands in the highest four bits of its doorbell: 4 means a
/// failure whatever else is set, else 2 means at work, else 1 ready; nothing means reset.
pub proof fn state_is_in_high_bits(db: u32)
    ensures
        ({
            let n = db / 0x1000_0000;
            &&& ioc_state_of(db) is Fault <==> n / 4 % 2 == 1
            &&& ioc_state_of(db) is Operational <==> n / 4 % 2 == 0 && n / 2 % 2 == 1
            &&& ioc_state_of(db) is Ready <==> n / 2 % 4 % 2 == 0 && n / 4 % 2 == 0 && n % 2 == 1
            &&& ioc_state_of(db) is Reset <==> n == 0 || n == 8
        }),
{
    assert((db & 0xF000_0000u32 == 0) == (db / 0x1000_0000 == 0) && (db & 0x4000_0000u32 != 0) == (
    db / 0x1000_0000 / 4 % 2 == 1) && (db & 0x2000_0000u32 != 0) == (db / 0x1000_0000 / 2 % 2 == 1)
        && (db & 0x1000_0000u32 != 0) == (db / 0x1000_0000 % 2 == 1)) by (bit_vector);
}

/// The second word of a reply tells its length: its low byte is half the number of words.
pub proof fn second_word_tells_length(words: Seq<u16>)
    ensures
        words.len() < 2 ==> reply_words(words) == 2,
        words.len() >= 2 ==> reply_words(words) == words[1] % 256 * 2,
{
    if words.len() >= 2 {
        let v = words[1];
        assert(v & 0x00ffu16 == v % 256) by (bit_vector);
    }
}

/// Each word of a reply that fits gives two bytes at its own place, the low byte first.
pub proof fn reply_bytes_are_in_place(words: Seq<u16>, max: int, k: int)
    requires
        2 * words.len() <= max,
        0 <= k < words.len(),
    ensures
        reply_bytes(words, max).len() == 2 * words.len(),
        reply_bytes(words, max)[2 * k] == words[k] % 256,
        reply_bytes(words, max)[2 * k + 1] == words[k] / 256,
    decreases words.len(),
{
    reply_is_kept(words.drop_last(), max);
    if k < words.len() - 1 {
        reply_bytes_are_in_place(words.drop_last(), max, k);
    }
}

/// What does not fit of a reply is dropped, and what fits is kept: no more than the limit.
pub proof fn reply_is_cut(words: Seq<u16>, max: int)
    requires
        0 <= max < 2 * words.len(),
    ensures
        reply_bytes(words, max) == reply_bytes(words.take(max / 2), max),
        reply_bytes(words, max).len() == 2 * (max / 2),
    decreases words.len(),
{
    let t = words.drop_last();
    if max < 2 * t.len() {
        reply_is_cut(t, max);
        assert(t.take(max / 2) =~= words.take(max / 2));
    } else {
        assert(words.take(max / 2) =~= t);
        reply_is_kept(t, max);
    }
}

/// The diagnostic register is unlocked by six writes to one register, of the numbers 0x00, 0x04,
/// 0x0B, 0x02, 0x07 and 0x0D.
pub proof fn unlocking_takes_six_writes(offset: u32, i: int)
    requires
        0 <= i < 6,
    ensures
        unlock_ops(offset).len() == 6,
        unlock_ops(offset)[i] matches RegisterOp::Write { offset: at, value } && at == offset
            && value == seq![0x00u32, 0x04u32, 0x0Bu32, 0x02u32, 0x07u32, 0x0Du32][i],
{
}

} // verus!
