//! The boot record of a board: 256 bytes that say what the board is.
//!
//! A block with the numbers of the board stands at the start and again behind itself.
//! The network address of the board stands near the end. Each of the three ends with a
//! byte that brings the sum of its bytes to a fixed value.

use crate::bytes::{read_u16, u16_at};
use crate::text::{dec, push_dec};
use vstd::prelude::*;

verus! {

/// How many bytes a record has.
pub const SBR_LEN: usize = 256;

/// Where the second copy of the first block starts.
pub const MFG_COPY: usize = 0x4C;

/// Where the network address stands.
pub const SAS_ADDR: usize = 0xD8;

/// What the bytes of a block with its last byte add up to, modulo 256.
pub const BLOCK_SUM: u64 = 0x5B;

/// The numbers of a board.
#[derive(Debug, Clone, Copy, PartialEq, Eq, Structural)]
pub struct SbrMfg {
    /// The PCI vendor.
    pub pcivid: u16,
    /// The PCI device.
    pub pcipid: u16,
    /// The vendor of the board.
    pub subsys_vid: u16,
    /// The number of the board.
    pub subsys_pid: u16,
    /// What the board is wired as.
    pub interface: u8,
}

/// A boot record.
#[derive(Debug, Clone, Copy, PartialEq, Eq, Structural)]
pub struct Sbr {
    /// The numbers of the board.
    pub mfg: SbrMfg,
    /// The network address, unless it is all zeros.
    pub sas_addr: Option<u64>,
    /// Whether the sum of the first block is right.
    pub checksum_valid: bool,
    /// Whether the sum of its copy is right.
    pub mfg_duplicate_valid: bool,
    /// Whether the sum of the network address is right.
    pub wwid_checksum_valid: bool,
}

/// What is wrong with the bytes of a record.
#[derive(Debug, Clone, Copy, PartialEq, Eq, Structural)]
pub enum SbrError {
    /// They are not as many as there must be.
    Length(usize),
}

impl SbrError {
    /// The error in words.
    pub open spec fn spec_text(self) -> Seq<char> {
        match self {
            SbrError::Length(n) => "SBR must be 256 bytes, got "@ + dec(n as nat),
        }
    }

    /// The error in words.
    pub fn text(self) -> (r: String)
        ensures
            r@ == self.spec_text(),
    {
        match self {
            SbrError::Length(n) => {
                let mut t = "SBR must be 256 bytes, got ".to_owned();
                push_dec(&mut t, n as u64);
                t
            },
        }
    }
}

/// The sum of the bytes from `start` to before `end`.
pub open spec fn byte_sum(b: Seq<u8>, start: int, end: int) -> nat
    decreases end - start,
{
    if start >= end {
        0
    } else {
        byte_sum(b, start, end - 1) + b[end - 1] as nat
    }
}

/// Whether the bytes of a block, its last included, add up to what they must.
pub open spec fn block_sum_ok(b: Seq<u8>, start: int, end: int) -> bool {
    byte_sum(b, start, end) % 256 == BLOCK_SUM
}

/// The 64-bit number at a position, its highest byte first.
pub open spec fn be64_at(b: Seq<u8>, o: int) -> int {
    b[o] * 0x100_0000_0000_0000 + b[o + 1] * 0x1_0000_0000_0000 + b[o + 2] * 0x100_0000_0000 + b[o
        + 3] * 0x1_0000_0000 + b[o + 4] * 0x100_0000 + b[o + 5] * 0x1_0000 + b[o + 6] * 0x100 + b[o
        + 7]
}

/// The record that the bytes hold.
pub open spec fn record(b: Seq<u8>) -> Sbr {
    Sbr {
        mfg: SbrMfg {
            pcivid: u16_at(b, 0x0C),
            pcipid: u16_at(b, 0x0E),
            subsys_vid: u16_at(b, 0x14),
            subsys_pid: u16_at(b, 0x16),
            interface: b[0x40],
        },
        sas_addr: if be64_at(b, 0xD8) == 0 {
            None
        } else {
            Some(be64_at(b, 0xD8) as u64)
        },
        checksum_valid: block_sum_ok(b, 0, 76),
        mfg_duplicate_valid: block_sum_ok(b, 0x4C, 0x98),
        wwid_checksum_valid: block_sum_ok(b, 0xD8, 0xF0),
    }
}

fn sum_ok(b: &[u8], start: usize, end: usize) -> (r: bool)
    requires
        start <= end <= b@.len(),
        end <= 256,
    ensures
        r == block_sum_ok(b@, start as int, end as int),
{
    let mut sum: u64 = 0;
    let mut i: usize = start;
    while i < end
        invariant
            start <= i <= end <= b@.len(),
            end <= 256,
            sum == byte_sum(b@, start as int, i as int),
            sum <= (i - start) * 255,
        decreases end - i,
    {
        sum += b[i] as u64;
        i += 1;
    }
    sum % 256 == BLOCK_SUM
}

/// Reads a record. Only a wrong length is an error: the sums are reported.
pub fn parse_sbr(b: &[u8]) -> (r: Result<Sbr, SbrError>)
    ensures
        r == (if b@.len() == SBR_LEN {
            Ok::<Sbr, SbrError>(record(b@))
        } else {
            Err(SbrError::Length(b@.len() as usize))
        }),
{
    if b.len() != SBR_LEN {
        return Err(SbrError::Length(b.len()));
    }
    let sas: u64 = b[0xD8] as u64 * 0x100_0000_0000_0000 + b[0xD9] as u64 * 0x1_0000_0000_0000
        + b[0xDA] as u64 * 0x100_0000_0000 + b[0xDB] as u64 * 0x1_0000_0000 + b[0xDC] as u64
        * 0x100_0000 + b[0xDD] as u64 * 0x1_0000 + b[0xDE] as u64 * 0x100 + b[0xDF] as u64;
    Ok(
        Sbr {
            mfg: SbrMfg {
                pcivid: read_u16(b, 0x0C),
                pcipid: read_u16(b, 0x0E),
                subsys_vid: read_u16(b, 0x14),
                subsys_pid: read_u16(b, 0x16),
                interface: b[0x40],
            },
            sas_addr: if sas == 0 { None } else { Some(sas) },
            checksum_valid: sum_ok(b, 0, 76),
            mfg_duplicate_valid: sum_ok(b, MFG_COPY, MFG_COPY + 76),
            wwid_checksum_valid: sum_ok(b, SAS_ADDR, SAS_ADDR + 24),
        },
    )
}

// ---------------------------------------------------------------- the laws

/// The numbers of a board stand at their own places in its record, low byte first, and the
/// network address at 0xD8, high byte first.
pub proof fn record_fields_are_in_place(b: Seq<u8>)
    requires
        b.len() == 256,
    ensures
        record(b).mfg.pcivid == b[0x0C] + 256 * b[0x0D],
        record(b).mfg.pcipid == b[0x0E] + 256 * b[0x0F],
        record(b).mfg.subsys_vid == b[0x14] + 256 * b[0x15],
        record(b).mfg.subsys_pid == b[0x16] + 256 * b[0x17],
        record(b).mfg.interface == b[0x40],
        record(b).sas_addr is None <==> forall|i: int| 0xD8 <= i < 0xE0 ==> #[trigger] b[i] == 0,
        record(b).sas_addr matches Some(w) ==> w % 256 == b[0xDF] && w / 256 % 256 == b[0xDE] && w
            / 0x1_0000 % 256 == b[0xDD] && w / 0x100_0000 % 256 == b[0xDC] && w / 0x1_0000_0000 % 256
            == b[0xDB] && w / 0x100_0000_0000 % 256 == b[0xDA] && w / 0x1_0000_0000_0000 % 256
            == b[0xD9] && w / 0x100_0000_0000_0000 == b[0xD8],
{
    let n = be64_at(b, 0xD8);
    assert(n == 0 ==> b[0xD8] == 0 && b[0xD9] == 0 && b[0xDA] == 0 && b[0xDB] == 0 && b[0xDC] == 0
        && b[0xDD] == 0 && b[0xDE] == 0 && b[0xDF] == 0);
    if n == 0 {
        assert forall|i: int| 0xD8 <= i < 0xE0 implies #[trigger] b[i] == 0 by {}
    }
    if forall|i: int| 0xD8 <= i < 0xE0 ==> #[trigger] b[i] == 0 {
        assert(b[0xD8] == 0 && b[0xD9] == 0 && b[0xDA] == 0 && b[0xDB] == 0 && b[0xDC] == 0
            && b[0xDD] == 0 && b[0xDE] == 0 && b[0xDF] == 0);
    }
    assert(0 <= n <= u64::MAX);
    digits_of_address(n, b[0xD8], b[0xD9], b[0xDA], b[0xDB], b[0xDC], b[0xDD], b[0xDE], b[0xDF]);
}

proof fn digits_of_address(
    n: int,
    b0: u8,
    b1: u8,
    b2: u8,
    b3: u8,
    b4: u8,
    b5: u8,
    b6: u8,
    b7: u8,
)
    requires
        n == b0 * 0x100_0000_0000_0000 + b1 * 0x1_0000_0000_0000 + b2 * 0x100_0000_0000 + b3
            * 0x1_0000_0000 + b4 * 0x100_0000 + b5 * 0x1_0000 + b6 * 0x100 + b7,
    ensures
        n % 256 == b7,
        n / 256 % 256 == b6,
        n / 0x1_0000 % 256 == b5,
        n / 0x100_0000 % 256 == b4,
        n / 0x1_0000_0000 % 256 == b3,
        n / 0x100_0000_0000 % 256 == b2,
        n / 0x1_0000_0000_0000 % 256 == b1,
        n / 0x100_0000_0000_0000 == b0,
{
    let n1 = b0 * 0x1_0000_0000_0000 + b1 * 0x100_0000_0000 + b2 * 0x1_0000_0000 + b3 * 0x100_0000
        + b4 * 0x1_0000 + b5 * 0x100 + b6;
    assert(n == n1 * 256 + b7);
    let n2 = b0 * 0x100_0000_0000 + b1 * 0x1_0000_0000 + b2 * 0x100_0000 + b3 * 0x1_0000 + b4 * 0x100
        + b5;
    assert(n1 == n2 * 256 + b6);
    let n3 = b0 * 0x1_0000_0000 + b1 * 0x100_0000 + b2 * 0x1_0000 + b3 * 0x100 + b4;
    assert(n2 == n3 * 256 + b5);
    let n4 = b0 * 0x100_0000 + b1 * 0x1_0000 + b2 * 0x100 + b3;
    assert(n3 == n4 * 256 + b4);
    let n5 = b0 * 0x1_0000 + b1 * 0x100 + b2;
    assert(n4 == n5 * 256 + b3);
    let n6 = b0 * 0x100 + b1;
    assert(n5 == n6 * 256 + b2);
    assert(n / 256 == n1);
    assert(n / 0x1_0000 == n2);
    assert(n / 0x100_0000 == n3);
    assert(n / 0x1_0000_0000 == n4);
    assert(n / 0x100_0000_0000 == n5);
    assert(n / 0x1_0000_0000_0000 == n6);
}

proof fn byte_sum_same(a: Seq<u8>, b: Seq<u8>, start: int, end: int)
    requires
        forall|i: int| start <= i < end ==> a[i] == b[i],
    ensures
        byte_sum(a, start, end) == byte_sum(b, start, end),
    decreases end - start,
{
    if start < end {
        byte_sum_same(a, b, start, end - 1);
    }
}

proof fn byte_sum_changes(b: Seq<u8>, start: int, end: int, p: int, v: u8)
    requires
        0 <= start <= p < end <= b.len(),
    ensures
        byte_sum(b.update(p, v), start, end) == byte_sum(b, start, end) - b[p] + v,
    decreases end - start,
{
    if p == end - 1 {
        byte_sum_same(b, b.update(p, v), start, end - 1);
    } else {
        byte_sum_changes(b, start, end - 1, p, v);
    }
}

/// A changed byte is always seen by the sum of the block that it is in, and by no other: the
/// first block has the bytes up to 0x4C, its copy those up to 0x98, and the network address
/// those from 0xD8 to 0xF0. Every other byte can change without being seen.
pub proof fn changed_byte_is_seen(b: Seq<u8>, p: int, v: u8)
    requires
        b.len() == 256,
        0 <= p < 256,
        b[p] != v,
    ensures
        p < 0x4C ==> !(record(b).checksum_valid && record(b.update(p, v)).checksum_valid),
        p >= 0x4C ==> record(b).checksum_valid == record(b.update(p, v)).checksum_valid,
        0x4C <= p < 0x98 ==> !(record(b).mfg_duplicate_valid && record(
            b.update(p, v),
        ).mfg_duplicate_valid),
        p < 0x4C || p >= 0x98 ==> record(b).mfg_duplicate_valid == record(
            b.update(p, v),
        ).mfg_duplicate_valid,
        0xD8 <= p < 0xF0 ==> !(record(b).wwid_checksum_valid && record(
            b.update(p, v),
        ).wwid_checksum_valid),
        p < 0xD8 || p >= 0xF0 ==> record(b).wwid_checksum_valid == record(
            b.update(p, v),
        ).wwid_checksum_valid,
{
    let c = b.update(p, v);
    if p < 0x4C {
        byte_sum_changes(b, 0, 76, p, v);
        sum_moves(byte_sum(b, 0, 76) as int, b[p], v);
    } else {
        byte_sum_same(b, c, 0, 76);
    }
    if 0x4C <= p < 0x98 {
        byte_sum_changes(b, 0x4C, 0x98, p, v);
        sum_moves(byte_sum(b, 0x4C, 0x98) as int, b[p], v);
    } else {
        byte_sum_same(b, c, 0x4C, 0x98);
    }
    if 0xD8 <= p < 0xF0 {
        byte_sum_changes(b, 0xD8, 0xF0, p, v);
        sum_moves(byte_sum(b, 0xD8, 0xF0) as int, b[p], v);
    } else {
        byte_sum_same(b, c, 0xD8, 0xF0);
    }
}

proof fn sum_moves(s: int, x: u8, v: u8)
    requires
        x != v,
    ensures
        s % 256 != (s - x + v) % 256,
{
    if s % 256 == (s - x + v) % 256 {
        let q = (s - x + v) / 256 - s / 256;
        assert(v - x == 256 * q);
        assert(false);
    }
}

/// A block without content needs the byte 0x5B for its sum: a block of zeros with that last byte
/// is right, and with any other it is not.
pub proof fn blank_block_needs_its_byte(b: Seq<u8>, v: u8)
    requires
        b.len() == 256,
        forall|i: int| 0 <= i < 75 ==> #[trigger] b[i] == 0,
    ensures
        record(b.update(75, v)).checksum_valid <==> v == 0x5B,
{
    let c = b.update(75, v);
    zero_sum(c, 0, 75);
    assert(byte_sum(c, 0, 76) == byte_sum(c, 0, 75) + c[75] as nat);
}

proof fn zero_sum(b: Seq<u8>, start: int, end: int)
    requires
        forall|i: int| start <= i < end ==> #[trigger] b[i] == 0,
    ensures
        byte_sum(b, start, end) == 0,
    decreases end - start,
{
    if start < end {
        zero_sum(b, start, end - 1);
        assert(b[end - 1] == 0);
    }
}

} // verus!
