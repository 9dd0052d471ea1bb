//! Little-endian integers in byte buffers.
//!
//! Every wire format of the controller is little-endian. The spec functions
//! here say what a field of a message is; the executable functions read and
//! append such fields.

use vstd::prelude::*;

verus! {

/// The two bytes of `v`, low byte first.
pub open spec fn le16(v: u16) -> Seq<u8> {
    seq![(v % 256) as u8, (v / 256) as u8]
}

/// The four bytes of `v`, low byte first.
pub open spec fn le32(v: u32) -> Seq<u8> {
    seq![
        (v % 256) as u8,
        (v / 256 % 256) as u8,
        (v / 65536 % 256) as u8,
        (v / 16777216) as u8,
    ]
}

/// The eight bytes of `v`, low byte first.
pub open spec fn le64(v: u64) -> Seq<u8> {
    le32((v % 0x1_0000_0000) as u32) + le32((v / 0x1_0000_0000) as u32)
}

/// `n` zero bytes.
pub open spec fn zeros(n: nat) -> Seq<u8> {
    Seq::new(n, |i: int| 0u8)
}

/// The 16-bit field at offset `o`.
pub open spec fn u16_at(b: Seq<u8>, o: int) -> u16 {
    (b[o] + 256 * b[o + 1]) as u16
}

/// The 32-bit field at offset `o`.
pub open spec fn u32_at(b: Seq<u8>, o: int) -> u32 {
    (b[o] + 256 * b[o + 1] + 65536 * b[o + 2] + 16777216 * b[o + 3]) as u32
}

/// The 32-bit field at offset `o`, where bytes beyond the end of `b` count as zero.
pub open spec fn u32_cut_at(b: Seq<u8>, o: int) -> u32 {
    u32_at(b + zeros(4), o)
}

/// The bytes of `b` from `start` up to `end`, both cut back to the length of `b`.
pub open spec fn clamped(b: Seq<u8>, start: int, end: int) -> Seq<u8> {
    let lo = if start < b.len() { start } else { b.len() as int };
    let hi = if end < b.len() { end } else { b.len() as int };
    if lo < hi {
        b.subrange(lo, hi)
    } else {
        Seq::empty()
    }
}

/// How many positions below `n` hold different bytes in `a` and `b`.
pub open spec fn differing(a: Seq<u8>, b: Seq<u8>, n: int) -> nat
    decreases n,
{
    if n <= 0 {
        0
    } else {
        differing(a, b, n - 1) + if a[n - 1] != b[n - 1] {
            1nat
        } else {
            0nat
        }
    }
}

/// Reading back a 16-bit field gives the value that was written.
pub proof fn le16_round_trip(v: u16, before: Seq<u8>, after: Seq<u8>)
    ensures
        u16_at(before + le16(v) + after, before.len() as int) == v,
{
    let b = before + le16(v) + after;
    let o = before.len() as int;
    assert(b[o] == le16(v)[0]);
    assert(b[o + 1] == le16(v)[1]);
}

/// Reading back a 32-bit field gives the value that was written.
pub proof fn le32_round_trip(v: u32, before: Seq<u8>, after: Seq<u8>)
    ensures
        u32_at(before + le32(v) + after, before.len() as int) == v,
{
    let b = before + le32(v) + after;
    let o = before.len() as int;
    assert(b[o] == le32(v)[0]);
    assert(b[o + 1] == le32(v)[1]);
    assert(b[o + 2] == le32(v)[2]);
    assert(b[o + 3] == le32(v)[3]);
}

/// Reads the 16-bit field at offset `o`.
pub fn read_u16(b: &[u8], o: usize) -> (v: u16)
    requires
        o + 2 <= b@.len(),
    ensures
        v == u16_at(b@, o as int),
{
    let lo: u16 = b[o] as u16;
    let hi: u16 = b[o + 1] as u16;
    lo + 256 * hi
}

/// Reads the 32-bit field at offset `o`.
pub fn read_u32(b: &[u8], o: usize) -> (v: u32)
    requires
        o + 4 <= b@.len(),
    ensures
        v == u32_at(b@, o as int),
{
    let b0: u32 = b[o] as u32;
    let b1: u32 = b[o + 1] as u32;
    let b2: u32 = b[o + 2] as u32;
    let b3: u32 = b[o + 3] as u32;
    b0 + 256 * b1 + 65536 * b2 + 16777216 * b3
}

/// Reads the 32-bit field at offset `o`; bytes beyond the end of `b` count as zero.
pub fn read_u32_cut(b: &[u8], o: usize) -> (v: u32)
    requires
        o <= b@.len(),
    ensures
        v == u32_cut_at(b@, o as int),
        o + 4 <= b@.len() ==> v == u32_at(b@, o as int),
{
    let left: usize = b.len() - o;
    let b0: u32 = if left > 0 { b[o] as u32 } else { 0 };
    let b1: u32 = if left > 1 { b[o + 1] as u32 } else { 0 };
    let b2: u32 = if left > 2 { b[o + 2] as u32 } else { 0 };
    let b3: u32 = if left > 3 { b[o + 3] as u32 } else { 0 };
    b0 + 256 * b1 + 65536 * b2 + 16777216 * b3
}

/// Appends a 16-bit field.
pub fn push_u16(out: &mut Vec<u8>, v: u16)
    ensures
        final(out)@ == old(out)@ + le16(v),
{
    out.push((v % 256) as u8);
    out.push((v / 256) as u8);
}

/// Appends a 32-bit field.
pub fn push_u32(out: &mut Vec<u8>, v: u32)
    ensures
        final(out)@ == old(out)@ + le32(v),
{
    out.push((v % 256) as u8);
    out.push((v / 256 % 256) as u8);
    out.push((v / 65536 % 256) as u8);
    out.push((v / 16777216) as u8);
}

/// Appends a 64-bit field.
pub fn push_u64(out: &mut Vec<u8>, v: u64)
    ensures
        final(out)@ == old(out)@ + le64(v),
{
    push_u32(out, (v % 0x1_0000_0000) as u32);
    push_u32(out, (v / 0x1_0000_0000) as u32);
}

/// Appends `n` zero bytes.
pub fn push_zeros(out: &mut Vec<u8>, n: usize)
    ensures
        final(out)@ == old(out)@ + zeros(n as nat),
{
    let mut i: usize = 0;
    while i < n
        invariant
            i <= n,
            out@ == old(out)@ + zeros(i as nat),
        decreases n - i,
    {
        out.push(0);
        i += 1;
    }
}

/// Appends a copy of `src`.
pub fn push_bytes(out: &mut Vec<u8>, src: &[u8])
    ensures
        final(out)@ == old(out)@ + src@,
{
    let mut i: usize = 0;
    while i < src.len()
        invariant
            i <= src@.len(),
            out@ == old(out)@ + src@.take(i as int),
        decreases src@.len() - i,
    {
        out.push(src[i]);
        i += 1;
        assert(src@.take(i as int) =~= src@.take(i - 1).push(src@[i - 1]));
    }
    assert(src@.take(i as int) =~= src@);
}

/// A copy of `b`.
pub fn to_vec(b: &[u8]) -> (v: Vec<u8>)
    ensures
        v@ == b@,
{
    let mut v: Vec<u8> = Vec::new();
    push_bytes(&mut v, b);
    assert(v@ =~= b@);
    v
}

/// The bytes from `start` up to `end`, both cut back to the length of the buffer.
pub fn clamped_slice(b: &[u8], start: usize, end: usize) -> (r: &[u8])
    ensures
        r@ == clamped(b@, start as int, end as int),
{
    let lo: usize = if start < b.len() { start } else { b.len() };
    let hi: usize = if end < b.len() { end } else { b.len() };
    if lo < hi {
        &b[lo..hi]
    } else {
        let r = &b[0..0];
        assert(r@ =~= Seq::empty());
        r
    }
}

/// Whether two buffers hold the same bytes.
pub fn same_bytes(a: &[u8], b: &[u8]) -> (r: bool)
    ensures
        r == (a@ == b@),
{
    if a.len() != b.len() {
        return false;
    }
    let mut i: usize = 0;
    while i < a.len()
        invariant
            i <= a@.len(),
            a@.len() == b@.len(),
            forall|k: int| 0 <= k < i ==> a@[k] == b@[k],
        decreases a@.len() - i,
    {
        if a[i] != b[i] {
            return false;
        }
        i += 1;
    }
    assert(a@ =~= b@);
    true
}

/// Counts the positions below `n` that hold different bytes.
pub fn count_differing(a: &[u8], b: &[u8], n: usize) -> (r: usize)
    requires
        n <= a@.len(),
        n <= b@.len(),
    ensures
        r == differing(a@, b@, n as int),
{
    let mut count: usize = 0;
    let mut i: usize = 0;
    while i < n
        invariant
            i <= n,
            n <= a@.len(),
            n <= b@.len(),
            count == differing(a@, b@, i as int),
            count <= i,
        decreases n - i,
    {
        if a[i] != b[i] {
            count += 1;
        }
        i += 1;
    }
    count
}

/// Prefixes that agree hold no differing position, and the other way round.
pub proof fn differing_zero(a: Seq<u8>, b: Seq<u8>, n: int)
    requires
        0 <= n <= a.len(),
        n <= b.len(),
    ensures
        differing(a, b, n) <= n,
        differing(a, b, n) == 0 <==> a.take(n) == b.take(n),
    decreases n,
{
    if n > 0 {
        differing_zero(a, b, n - 1);
        if differing(a, b, n) == 0 {
            assert(a.take(n) =~= a.take(n - 1).push(a[n - 1]));
            assert(b.take(n) =~= b.take(n - 1).push(b[n - 1]));
        }
        if a.take(n) == b.take(n) {
            assert(a.take(n - 1) =~= a.take(n).take(n - 1));
            assert(b.take(n - 1) =~= b.take(n).take(n - 1));
            assert(a.take(n)[n - 1] == b.take(n)[n - 1]);
        }
    } else {
        assert(a.take(n) =~= b.take(n));
    }
}

/// The count of differing positions is the number of positions at which the bytes are not the
/// same.
pub proof fn differing_counts_positions(a: Seq<u8>, b: Seq<u8>, n: int)
    requires
        0 <= n,
    ensures
        differing(a, b, n) == Seq::new(n as nat, |i: int| i).filter(|i: int| a[i] != b[i]).len(),
    decreases n,
{
    reveal(Seq::filter);
    let s = Seq::new(n as nat, |i: int| i);
    if n > 0 {
        differing_counts_positions(a, b, n - 1);
        assert(s.drop_last() =~= Seq::new((n - 1) as nat, |i: int| i));
        assert(s.last() == n - 1);
    }
}

/// Cutting a stretch out of bytes keeps each byte that is there, at its place, and gives no
/// byte that is not there.
pub proof fn cut_keeps_bytes(b: Seq<u8>, start: int, end: int)
    requires
        0 <= start <= end,
    ensures
        end <= b.len() ==> clamped(b, start, end).len() == end - start,
        start <= b.len() <= end ==> clamped(b, start, end).len() == b.len() - start,
        b.len() <= start ==> clamped(b, start, end).len() == 0,
        forall|i: int|
            0 <= i < clamped(b, start, end).len() ==> #[trigger] clamped(b, start, end)[i] == b[start
                + i],
{
}

/// A field that reaches beyond the end is read as if zeros followed.
pub proof fn missing_bytes_are_zero(b: Seq<u8>, o: int)
    requires
        0 <= o <= b.len(),
    ensures
        o + 4 <= b.len() ==> u32_cut_at(b, o) == u32_at(b, o),
        o + 3 == b.len() ==> u32_cut_at(b, o) == b[o] + 256 * b[o + 1] + 65536 * b[o + 2],
        o + 2 == b.len() ==> u32_cut_at(b, o) == b[o] + 256 * b[o + 1],
        o + 1 == b.len() ==> u32_cut_at(b, o) == b[o],
        o == b.len() ==> u32_cut_at(b, o) == 0,
{
    let z = b + zeros(4);
    assert(forall|i: int| 0 <= i < b.len() ==> #[trigger] z[i] == b[i]);
    assert(forall|i: int| b.len() <= i < b.len() + 4 ==> #[trigger] z[i] == 0);
}

} // verus!
