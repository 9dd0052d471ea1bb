//! Firmware with another order of ports.
//!
//! A firmware image holds one record per phy, 0x14 bytes apart; the first byte
//! of each is its port number. Reordering the ports means writing other numbers
//! into these eight bytes and setting the checksum right again.

use crate::bytes::{le32, to_vec, u32_at};
use crate::firmware::inspect::{checksum_ok, sum_words, word_sum};
use crate::text::{dec, dec_list, labelled, push_dec, push_dec_list};
use vstd::prelude::*;

verus! {

/// Errors of firmware synthesis.
#[derive(Debug)]
pub enum SynthError {
    /// The image is too short.
    TooShort(usize),
    /// The phy records were not found.
    PhyDataNotFound,
    /// The new order is no permutation of the eight ports.
    InvalidPermutation([u8; 8]),
    /// A file could not be read or written.
    Io(String),
}

impl SynthError {
    /// The error in words.
    pub open spec fn spec_text(&self) -> Seq<char> {
        match self {
            SynthError::TooShort(n) => "input firmware too short ("@ + dec(*n as nat)
                + " bytes; need at least header + 8 × PhyData)"@,
            SynthError::PhyDataNotFound => {
                "could not locate PhyData[] (no Port=0..7 sequence at +0x14 stride found)"@
            },
            SynthError::InvalidPermutation(p) => {
                "permutation must be a valid 0..7 reordering, got "@ + dec_list(p@)
            },
            SynthError::Io(e) => "io error: "@ + e@,
        }
    }

    /// The error in words.
    pub fn text(&self) -> (r: String)
        ensures
            r@ == self.spec_text(),
    {
        match self {
            SynthError::TooShort(n) => {
                let mut t = "input firmware too short (".to_owned();
                push_dec(&mut t, *n as u64);
                t.append(" bytes; need at least header + 8 × PhyData)");
                t
            },
            SynthError::PhyDataNotFound => {
                "could not locate PhyData[] (no Port=0..7 sequence at +0x14 stride found)".to_owned()
            },
            SynthError::InvalidPermutation(p) => {
                let mut t = "permutation must be a valid 0..7 reordering, got ".to_owned();
                push_dec_list(&mut t, p.as_slice());
                t
            },
            SynthError::Io(e) => labelled("io error: ", e.as_str()),
        }
    }
}

/// Distance between two phy records.
pub const PHYDATA_STRIDE: usize = 0x14;

/// Number of phy records.
pub const PHYDATA_COUNT: usize = 8;

/// Size of the header, which holds no phy record.
pub const PHYDATA_SEARCH_START: usize = 0x88;

/// Whether eight phy records with the ports 0 to 7 in order start at `start`.
pub open spec fn phydata_at(b: Seq<u8>, start: int) -> bool {
    forall|i: int| 0 <= i < 8 ==> #[trigger] b[start + 0x14 * i] == i
}

/// Where the search for the phy records looks: behind the header, and at least
/// eight records before the end.
pub open spec fn searched(b: Seq<u8>, start: int) -> bool {
    0x88 <= start < b.len() - 0xA0
}

/// The first place with eight phy records in order.
pub open spec fn is_phydata_offset(b: Seq<u8>, start: int) -> bool {
    &&& searched(b, start)
    &&& phydata_at(b, start)
    &&& forall|s: int| 0x88 <= s < start ==> !#[trigger] phydata_at(b, s)
}

fn phydata_found(data: &[u8], start: usize) -> (r: bool)
    requires
        start + 0xA0 < data@.len(),
    ensures
        r == phydata_at(data@, start as int),
{
    let len: usize = data.len();
    let mut i: usize = 0;
    while i < PHYDATA_COUNT
        invariant
            i <= 8,
            start + 0xA0 < len,
            len == data@.len(),
            forall|k: int| 0 <= k < i ==> #[trigger] data@[start + 0x14 * k] == k,
        decreases 8 - i,
    {
        if data[start + i * PHYDATA_STRIDE] != i as u8 {
            assert(data@[start + 0x14 * i] != i);
            return false;
        }
        i += 1;
    }
    true
}

/// Finds the phy records.
pub fn find_phydata_offset(data: &[u8]) -> (r: Option<usize>)
    ensures
        match r {
            Some(start) => is_phydata_offset(data@, start as int),
            None => forall|s: int| searched(data@, s) ==> !#[trigger] phydata_at(data@, s),
        },
{
    let need: usize = PHYDATA_COUNT * PHYDATA_STRIDE;
    if data.len() < need {
        return None;
    }
    let end: usize = data.len() - need;
    let mut start: usize = PHYDATA_SEARCH_START;
    while start < end
        invariant
            0x88 <= start,
            end == data@.len() - 0xA0,
            forall|s: int| 0x88 <= s < start && s < end ==> !#[trigger] phydata_at(data@, s),
        decreases end - start,
    {
        if phydata_found(data, start) {
            return Some(start);
        }
        start += 1;
    }
    None
}

/// Whether `perm` is a reordering of 0 to 7.
pub open spec fn valid_permutation(perm: Seq<u8>) -> bool {
    &&& forall|i: int| 0 <= i < 8 ==> #[trigger] perm[i] <= 7
    &&& forall|i: int, j: int| 0 <= i < j < 8 ==> perm[i] != perm[j]
}

/// `b` with the port numbers `perm` in the phy records at `base`.
pub open spec fn with_ports(b: Seq<u8>, base: int, perm: Seq<u8>) -> Seq<u8> {
    Seq::new(
        b.len(),
        |p: int|
            if base <= p < base + 0xA0 && (p - base) % 0x14 == 0 {
                perm[(p - base) / 0x14]
            } else {
                b[p]
            },
    )
}

fn check_permutation(perm: &[u8; 8]) -> (r: bool)
    ensures
        r == valid_permutation(perm@),
{
    let mut i: usize = 0;
    while i < 8
        invariant
            i <= 8,
            forall|k: int| 0 <= k < i ==> #[trigger] perm@[k] <= 7,
            forall|k: int, l: int| 0 <= k < l < i ==> perm@[k] != perm@[l],
        decreases 8 - i,
    {
        if perm[i] > 7 {
            return false;
        }
        let mut j: usize = 0;
        while j < i
            invariant
                j <= i < 8,
                forall|k: int| 0 <= k < j ==> perm@[k] != perm@[i as int],
            decreases i - j,
        {
            if perm[j] == perm[i] {
                return false;
            }
            j += 1;
        }
        i += 1;
    }
    true
}

/// Writes the port numbers `perm` into the phy records: the record at index
/// `i` gets `perm[i]`. Where that cannot be done, the image stays as it was.
pub fn permute_phy_mapping(data: &mut Vec<u8>, perm: [u8; 8]) -> (r: Result<(), SynthError>)
    ensures
        !valid_permutation(perm@) ==> final(data)@ == old(data)@ && r == Err::<(), SynthError>(
            SynthError::InvalidPermutation(perm),
        ),
        valid_permutation(perm@) ==> match r {
            Err(e) => e == SynthError::PhyDataNotFound && final(data)@ == old(data)@ && forall|
                s: int,
            |
                searched(old(data)@, s) ==> !#[trigger] phydata_at(old(data)@, s),
            Ok(()) => exists|base: int| #[trigger]
                is_phydata_offset(old(data)@, base) && final(data)@ == with_ports(
                    old(data)@,
                    base,
                    perm@,
                ),
        },
{
    if !check_permutation(&perm) {
        return Err(SynthError::InvalidPermutation(perm));
    }
    let base: usize = match find_phydata_offset(data.as_slice()) {
        Some(b) => b,
        None => {
            return Err(SynthError::PhyDataNotFound);
        },
    };
    let ghost before = data@;
    let len: usize = data.len();
    let mut i: usize = 0;
    while i < PHYDATA_COUNT
        invariant
            i <= 8,
            len == data@.len() == before.len(),
            base + 0xA0 < len,
            forall|p: int|
                0 <= p < before.len() ==> data@[p] == if base <= p < base + 0x14 * i && (p - base)
                    % 0x14 == 0 {
                    perm@[(p - base) / 0x14]
                } else {
                    before[p]
                },
        decreases 8 - i,
    {
        data.set(base + i * PHYDATA_STRIDE, perm[i]);
        i += 1;
    }
    assert(data@ =~= with_ports(before, base as int, perm@));
    Ok(())
}

/// Adjusts the last whole word so that the words of the image add up to zero,
/// and returns it.
pub fn fix_file_checksum(data: &mut Vec<u8>) -> (r: u32)
    requires
        old(data)@.len() >= 4,
    ensures
        (r + word_sum(old(data)@, old(data)@.len() as int / 4 - 1)) % 0x1_0000_0000 == 0,
        final(data)@.len() == old(data)@.len(),
        ({
            let last = 4 * (old(data)@.len() as int / 4 - 1);
            &&& final(data)@ == old(data)@.take(last) + le32(r) + old(data)@.skip(last + 4)
        }),
        checksum_ok(final(data)@),
{
    let words: usize = data.len() / 4;
    let ghost before = data@;
    let sum: u32 = sum_words(data.as_slice(), words - 1);
    let new_last: u32 = 0u32.wrapping_sub(sum);
    let last: usize = 4 * (words - 1);
    data.set(last, (new_last % 256) as u8);
    data.set(last + 1, (new_last / 256 % 256) as u8);
    data.set(last + 2, (new_last / 65536 % 256) as u8);
    data.set(last + 3, (new_last / 16777216) as u8);
    proof {
        assert(data@ =~= before.take(last as int) + le32(new_last) + before.skip(last + 4));
        word_sum_prefix(before, data@, words - 1);
        assert(u32_at(data@, last as int) == new_last);
    }
    new_last
}

/// The words of two images that agree up to the end of word `n` add up alike.
pub proof fn word_sum_prefix(a: Seq<u8>, b: Seq<u8>, n: int)
    requires
        0 <= n,
        4 * n <= a.len(),
        4 * n <= b.len(),
        forall|p: int| 0 <= p < 4 * n ==> a[p] == b[p],
    ensures
        word_sum(a, n) == word_sum(b, n),
    decreases n,
{
    if n > 0 {
        word_sum_prefix(a, b, n - 1);
        assert(a[4 * (n - 1)] == b[4 * (n - 1)]);
        assert(a[4 * (n - 1) + 1] == b[4 * (n - 1) + 1]);
        assert(a[4 * (n - 1) + 2] == b[4 * (n - 1) + 2]);
        assert(a[4 * (n - 1) + 3] == b[4 * (n - 1) + 3]);
    }
}

/// The ports in reverse order.
pub open spec fn reversed_ports() -> Seq<u8> {
    seq![7u8, 6u8, 5u8, 4u8, 3u8, 2u8, 1u8, 0u8]
}

/// `out` is `input` with the ports reversed and the checksum set right.
pub open spec fn is_reversed(input: Seq<u8>, base: int, out: Seq<u8>) -> bool {
    let swapped = with_ports(input, base, reversed_ports());
    let last = 4 * (input.len() as int / 4 - 1);
    &&& is_phydata_offset(input, base)
    &&& out.len() == input.len()
    &&& out.take(last) == swapped.take(last)
    &&& out.skip(last + 4) == swapped.skip(last + 4)
    &&& checksum_ok(out)
}

/// `out` is `input` with the ports of its phy records reversed.
pub open spec fn reversed_of(input: Seq<u8>, out: Seq<u8>) -> bool {
    exists|base: int| #[trigger] is_reversed(input, base, out)
}

/// Firmware with the order of its ports reversed.
pub fn synthesize_reverse_phy(input: &[u8]) -> (r: Result<Vec<u8>, SynthError>)
    ensures
        r matches Err(e) ==> e == SynthError::PhyDataNotFound && forall|s: int|
            searched(input@, s) ==> !#[trigger] phydata_at(input@, s),
        r matches Ok(v) ==> reversed_of(input@, v@),
{
    let mut out = to_vec(input);
    let perm: [u8; 8] = [7, 6, 5, 4, 3, 2, 1, 0];
    assert(perm@ =~= reversed_ports());
    assert(forall|i: int| 0 <= i < 8 ==> #[trigger] perm@[i] == 7 - i);
    match permute_phy_mapping(&mut out, perm) {
        Err(e) => {
            return Err(e);
        },
        Ok(()) => {},
    }
    let ghost swapped = out@;
    let ghost base = choose|base: int| #[trigger]
        is_phydata_offset(input@, base) && swapped == with_ports(input@, base, perm@);
    let _ = fix_file_checksum(&mut out);
    proof {
        let last = 4 * (input@.len() as int / 4 - 1);
        assert(out@.take(last) =~= swapped.take(last));
        assert(out@.skip(last + 4) =~= swapped.skip(last + 4));
    }
    let result = out;
    assert(is_reversed(input@, base, result@));
    Ok(result)
}

/// Changing one byte changes the sum of the words by the difference, weighted
/// by the place of the byte in its word.
pub proof fn word_sum_update(b: Seq<u8>, p: int, v: u8, d: int, n: int)
    requires
        d == v - b[p],
        0 <= p < 4 * n,
        4 * n <= b.len(),
    ensures
        word_sum(b.update(p, v), n) == word_sum(b, n) + d * byte_weight(p),
    decreases n,
{
    let u = b.update(p, v);
    if p < 4 * (n - 1) {
        word_sum_update(b, p, v, d, n - 1);
        assert(u32_at(u, 4 * (n - 1)) == u32_at(b, 4 * (n - 1)));
    } else {
        word_sum_prefix(b, u, n - 1);
        let o = 4 * (n - 1);
        if p == o {
            assert(byte_weight(p) == 1);
        } else if p == o + 1 {
            assert(byte_weight(p) == 256);
        } else if p == o + 2 {
            assert(byte_weight(p) == 65536);
        } else {
            assert(byte_weight(p) == 16777216);
        }
    }
}

/// The weight of the byte at offset `p` in its word.
pub open spec fn byte_weight(p: int) -> int {
    if p % 4 == 0 {
        1
    } else if p % 4 == 1 {
        256
    } else if p % 4 == 2 {
        65536
    } else {
        16777216
    }
}

proof fn reversal_keeps_sum(b: Seq<u8>, base: int, n: int)
    requires
        is_phydata_offset(b, base),
        n == b.len() as int / 4,
    ensures
        word_sum(with_ports(b, base, reversed_ports()), n) == word_sum(b, n),
{
    let s0 = b;
    let s1 = s0.update(base, 7);
    let s2 = s1.update(base + 0x14, 6);
    let s3 = s2.update(base + 0x28, 5);
    let s4 = s3.update(base + 0x3C, 4);
    let s5 = s4.update(base + 0x50, 3);
    let s6 = s5.update(base + 0x64, 2);
    let s7 = s6.update(base + 0x78, 1);
    let s8 = s7.update(base + 0x8C, 0);
    assert(b[base + 0x14 * 0] == 0);
    assert(b[base + 0x14 * 1] == 1);
    assert(b[base + 0x14 * 2] == 2);
    assert(b[base + 0x14 * 3] == 3);
    assert(b[base + 0x14 * 4] == 4);
    assert(b[base + 0x14 * 5] == 5);
    assert(b[base + 0x14 * 6] == 6);
    assert(b[base + 0x14 * 7] == 7);
    word_sum_update(s0, base, 7, 7, n);
    word_sum_update(s1, base + 0x14, 6, 5, n);
    word_sum_update(s2, base + 0x28, 5, 3, n);
    word_sum_update(s3, base + 0x3C, 4, 1, n);
    word_sum_update(s4, base + 0x50, 3, -1, n);
    word_sum_update(s5, base + 0x64, 2, -3, n);
    word_sum_update(s6, base + 0x78, 1, -5, n);
    word_sum_update(s7, base + 0x8C, 0, -7, n);
    let w = byte_weight(base);
    assert(byte_weight(base + 0x14 * 1) == w);
    assert(byte_weight(base + 0x14 * 2) == w);
    assert(byte_weight(base + 0x14 * 3) == w);
    assert(byte_weight(base + 0x14 * 4) == w);
    assert(byte_weight(base + 0x14 * 5) == w);
    assert(byte_weight(base + 0x14 * 6) == w);
    assert(byte_weight(base + 0x14 * 7) == w);
    assert(word_sum(s1, n) == word_sum(s0, n) + 7 * w);
    assert(word_sum(s2, n) == word_sum(s1, n) + 5 * w);
    assert(word_sum(s3, n) == word_sum(s2, n) + 3 * w);
    assert(word_sum(s4, n) == word_sum(s3, n) + w);
    assert(word_sum(s5, n) == word_sum(s4, n) - w);
    assert(word_sum(s6, n) == word_sum(s5, n) - 3 * w);
    assert(word_sum(s7, n) == word_sum(s6, n) - 5 * w);
    assert(word_sum(s8, n) == word_sum(s7, n) - 7 * w);
    assert(s8 =~= with_ports(b, base, reversed_ports()));
}

/// Two images that agree up to their last whole word and whose words add up
/// alike agree in that word too.
proof fn last_word_agrees(a: Seq<u8>, b: Seq<u8>, n: int)
    requires
        1 <= n,
        4 * n <= a.len(),
        4 * n <= b.len(),
        forall|p: int| 0 <= p < 4 * (n - 1) ==> a[p] == b[p],
        word_sum(a, n) % 0x1_0000_0000 == word_sum(b, n) % 0x1_0000_0000,
    ensures
        forall|p: int| 4 * (n - 1) <= p < 4 * n ==> a[p] == b[p],
{
    word_sum_prefix(a, b, n - 1);
    let o = 4 * (n - 1);
    let x = u32_at(a, o);
    let y = u32_at(b, o);
    same_residue(word_sum(a, n - 1), x as int, y as int);
    same_word(a[o], a[o + 1], a[o + 2], a[o + 3], b[o], b[o + 1], b[o + 2], b[o + 3]);
}

proof fn same_residue(s: int, x: int, y: int)
    requires
        0 <= x < 0x1_0000_0000,
        0 <= y < 0x1_0000_0000,
        (s + x) % 0x1_0000_0000 == (s + y) % 0x1_0000_0000,
    ensures
        x == y,
{
    let q = (s + x) / 0x1_0000_0000 - (s + y) / 0x1_0000_0000;
    assert(x - y == 0x1_0000_0000 * q);
}

proof fn same_word(a0: u8, a1: u8, a2: u8, a3: u8, b0: u8, b1: u8, b2: u8, b3: u8)
    requires
        a0 + 256 * a1 + 65536 * a2 + 16777216 * a3 == b0 + 256 * b1 + 65536 * b2 + 16777216 * b3,
    ensures
        a0 == b0 && a1 == b1 && a2 == b2 && a3 == b3,
{
    let x = a0 + 256 * a1 + 65536 * a2 + 16777216 * a3;
    assert(x / 16777216 == a3 && x / 16777216 == b3);
    let y = a0 + 256 * a1 + 65536 * a2;
    assert(y / 65536 == a2 && y / 65536 == b2);
    let z = a0 + 256 * a1;
    assert(z / 256 == a1 && z / 256 == b1);
}

/// Reversing the ports of an image whose checksum is right changes the eight
/// port bytes and nothing else: the checksum is right without adjustment.
pub proof fn reversal_of_good_image_is_minimal(input: Seq<u8>, base: int, out: Seq<u8>)
    requires
        checksum_ok(input),
        is_reversed(input, base, out),
    ensures
        out == with_ports(input, base, reversed_ports()),
{
    let n = input.len() as int / 4;
    let last = 4 * (n - 1);
    let swapped = with_ports(input, base, reversed_ports());
    reversal_keeps_sum(input, base, n);
    assert forall|p: int| 0 <= p < last implies out[p] == swapped[p] by {
        assert(out.take(last)[p] == swapped.take(last)[p]);
    }
    assert forall|p: int| last + 4 <= p < out.len() implies out[p] == swapped[p] by {
        assert(out.skip(last + 4)[p - last - 4] == swapped.skip(last + 4)[p - last - 4]);
    }
    last_word_agrees(out, swapped, n);
    assert(out =~= swapped);
}

/// Writing an order of ports into the records at `base` gives record `i` the number `perm[i]`,
/// 0x14 bytes after the record before, and leaves every other byte as it was.
pub proof fn ports_are_in_place(b: Seq<u8>, base: int, perm: Seq<u8>, i: int, p: int)
    requires
        0 <= base,
        base + 0xA0 <= b.len(),
        0 <= i < 8,
        0 <= p < b.len(),
        forall|k: int| 0 <= k < 8 ==> p != #[trigger] (base + 0x14 * k),
    ensures
        with_ports(b, base, perm).len() == b.len(),
        with_ports(b, base, perm)[base + 0x14 * i] == perm[i],
        with_ports(b, base, perm)[p] == b[p],
{
    let q = base + 0x14 * i;
    assert((q - base) % 0x14 == 0 && (q - base) / 0x14 == i);
    if base <= p < base + 0xA0 && (p - base) % 0x14 == 0 {
        let k = (p - base) / 0x14;
        assert(p == base + 0x14 * k);
        assert(false);
    }
}

/// Reversed firmware numbers its ports 7 down to 0 in the eight records that were numbered 0
/// up to 7, which stand behind the first 0x88 bytes; apart from them only the last whole word
/// can differ, and the words of the result add up to zero.
pub proof fn ports_are_reversed(input: Seq<u8>, base: int, out: Seq<u8>, i: int, p: int)
    requires
        is_reversed(input, base, out),
        0 <= i < 8,
        0 <= p < input.len(),
        forall|k: int| 0 <= k < 8 ==> p != #[trigger] (base + 0x14 * k),
    ensures
        base >= 0x88,
        out.len() == input.len(),
        input[base + 0x14 * i] == i,
        base + 0x14 * i < 4 * (input.len() as int / 4 - 1) ==> out[base + 0x14 * i] == 7 - i,
        !(4 * (input.len() as int / 4 - 1) <= p < 4 * (input.len() as int / 4)) ==> out[p]
            == input[p],
        word_sum(out, out.len() as int / 4) % 0x1_0000_0000 == 0,
{
    let n = input.len() as int / 4;
    let last = 4 * (n - 1);
    let swapped = with_ports(input, base, reversed_ports());
    ports_are_in_place(input, base, reversed_ports(), i, p);
    let q = base + 0x14 * i;
    if q < last {
        assert(out.take(last)[q] == swapped.take(last)[q]);
        assert(reversed_ports()[i] == 7 - i);
    }
    if p < last {
        assert(out.take(last)[p] == swapped.take(last)[p]);
    }
    if p >= last + 4 {
        assert(out.skip(last + 4)[p - last - 4] == swapped.skip(last + 4)[p - last - 4]);
    }
}

/// An order of ports is one exactly where each of the numbers 0 to 7 stands somewhere in it
/// and nothing else does.
pub proof fn order_names_every_port(perm: Seq<u8>, v: u8)
    requires
        perm.len() == 8,
        valid_permutation(perm),
    ensures
        v <= 7 <==> perm.contains(v),
{
    if v <= 7 && !perm.contains(v) {
        let s = Seq::new(8, |i: int| perm[i] as int);
        assert(s.no_duplicates()) by {
            assert forall|i: int, j: int| 0 <= i < s.len() && 0 <= j < s.len() && i != j implies s[i]
                != s[j] by {
                if i < j {
                    assert(perm[i] != perm[j]);
                } else {
                    assert(perm[j] != perm[i]);
                }
            }
        }
        s.unique_seq_to_set();
        let range = vstd::set_lib::set_int_range(0, 8).remove(v as int);
        vstd::set_lib::lemma_int_range(0, 8);
        assert forall|x: int| s.to_set().contains(x) implies range.contains(x) by {
            let i = choose|i: int| 0 <= i < s.len() && s[i] == x;
            assert(perm[i] == x);
            assert(perm[i] != v);
        }
        vstd::set_lib::lemma_len_subset(s.to_set(), range);
        assert(false);
    }
    if perm.contains(v) {
        let i = choose|i: int| 0 <= i < perm.len() && perm[i] == v;
        assert(perm[i] <= 7);
    }
}

/// The records are looked for at every place behind the header that has room for eight of them
/// and a byte behind: from 0x88 on, and 0xA0 before the last byte. Where they are found, record
/// `i` starts with `i`, 0x14 bytes after the record before, and nowhere earlier do eight records.
pub proof fn records_are_found_first(b: Seq<u8>, start: int, s: int)
    ensures
        searched(b, s) <==> 0x88 <= s && s + 0xA0 < b.len(),
        phydata_at(b, s) <==> b[s] == 0 && b[s + 0x14] == 1 && b[s + 0x28] == 2 && b[s + 0x3C] == 3
            && b[s + 0x50] == 4 && b[s + 0x64] == 5 && b[s + 0x78] == 6 && b[s + 0x8C] == 7,
        is_phydata_offset(b, start) && searched(b, s) && phydata_at(b, s) ==> start <= s,
        is_phydata_offset(b, start) ==> 0x88 <= start && start + 0xA0 < b.len() && phydata_at(
            b,
            start,
        ),
{
    if phydata_at(b, s) {
        assert(b[s + 0x14 * 0] == 0);
        assert(b[s + 0x14 * 1] == 1);
        assert(b[s + 0x14 * 2] == 2);
        assert(b[s + 0x14 * 3] == 3);
        assert(b[s + 0x14 * 4] == 4);
        assert(b[s + 0x14 * 5] == 5);
        assert(b[s + 0x14 * 6] == 6);
        assert(b[s + 0x14 * 7] == 7);
    }
}

} // verus!
