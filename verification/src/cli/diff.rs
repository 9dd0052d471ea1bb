//! Comparing two images of a flash, region by region.

use crate::bytes::{count_differing, differing, differing_counts_positions, differing_zero};
use crate::firmware::flash_layout::{
    image_layout, parse_flash_layout, FlashRegion, LayoutModel, REGION_BACKUP, REGION_FIRMWARE,
};
use crate::firmware::guard::{BOOT_CRITICAL_END, BOOT_CRITICAL_START};
use crate::text::{
    dec, dec_text, digit, hex_pad, labelled, pad_left, pad_right, push_dec, push_hex_pad,
    push_pad_left, push_pad_right, repeat, strings,
};
use vstd::prelude::*;

verus! {

/// How a region of one image differs from that of the other.
#[derive(Debug, Clone, Copy, PartialEq, Eq, Structural)]
pub enum RegionClass {
    Identical,
    Differs,
    AErased,
    BErased,
}

impl RegionClass {
    /// The class in words.
    pub open spec fn spec_text(self) -> Seq<char> {
        match self {
            RegionClass::Identical => "IDENTICAL"@,
            RegionClass::Differs => "DIFFERS"@,
            RegionClass::AErased => "A_ERASED"@,
            RegionClass::BErased => "B_ERASED"@,
        }
    }

    /// The class in words.
    pub fn text(self) -> (r: &'static str)
        ensures
            r@ == self.spec_text(),
    {
        match self {
            RegionClass::Identical => "IDENTICAL",
            RegionClass::Differs => "DIFFERS",
            RegionClass::AErased => "A_ERASED",
            RegionClass::BErased => "B_ERASED",
        }
    }
}

/// How many of the first `n` bytes are erased.
pub open spec fn erased(b: Seq<u8>, n: int) -> nat
    decreases n,
{
    if n <= 0 {
        0
    } else {
        erased(b, n - 1) + if b[n - 1] == 0xFF {
            1nat
        } else {
            0nat
        }
    }
}

/// Counts the erased bytes among the first `n`.
pub fn ff_count(b: &[u8], n: usize) -> (r: usize)
    requires
        n <= b@.len(),
    ensures
        r == erased(b@, n as int),
        r <= n,
{
    let mut i: usize = 0;
    let mut count: usize = 0;
    while i < n
        invariant
            i <= n <= b@.len(),
            count == erased(b@, i as int),
            count <= i,
        decreases n - i,
    {
        if b[i] == 0xFF {
            count += 1;
        }
        i += 1;
    }
    count
}

/// Whether more than nine tenths of `n` bytes are erased.
pub open spec fn mostly_erased(count: nat, n: nat) -> bool {
    count * 100 > 90 * n
}

/// The class of a region of `n` bytes of which `differ` differ.
pub open spec fn class_of(differ: nat, a_ff: nat, b_ff: nat, n: nat) -> RegionClass {
    if n == 0 || differ == 0 {
        RegionClass::Identical
    } else if mostly_erased(a_ff, n) && !mostly_erased(b_ff, n) {
        RegionClass::AErased
    } else if mostly_erased(b_ff, n) && !mostly_erased(a_ff, n) {
        RegionClass::BErased
    } else {
        RegionClass::Differs
    }
}

/// What comparing two regions counts.
#[derive(Debug, Clone, Copy)]
pub struct RegionCounts {
    /// How many bytes were compared.
    pub compared: usize,
    /// How many of them differ.
    pub differ: usize,
    /// How many of the first region are erased.
    pub a_ff: usize,
    /// How many of the second region are erased.
    pub b_ff: usize,
    /// What that makes of them.
    pub classification: RegionClass,
}

/// The shorter of two lengths.
pub open spec fn common_len(a: Seq<u8>, b: Seq<u8>) -> nat {
    if a.len() < b.len() {
        a.len()
    } else {
        b.len()
    }
}

/// Whether `c` counts what two regions have in common.
pub open spec fn counts(c: RegionCounts, a: Seq<u8>, b: Seq<u8>) -> bool {
    let n = common_len(a, b) as int;
    &&& c.compared == n
    &&& c.differ == differing(a, b, n)
    &&& c.a_ff == erased(a, n)
    &&& c.b_ff == erased(b, n)
    &&& c.classification == class_of(c.differ as nat, c.a_ff as nat, c.b_ff as nat, n as nat)
}

/// Compares two regions as far as both go.
pub fn analyze_region(a: &[u8], b: &[u8]) -> (r: RegionCounts)
    ensures
        counts(r, a@, b@),
{
    let n: usize = if a.len() < b.len() { a.len() } else { b.len() };
    let differ: usize = count_differing(a, b, n);
    let a_ff: usize = ff_count(a, n);
    let b_ff: usize = ff_count(b, n);
    let a_erased: bool = a_ff as u128 * 100 > 90 * n as u128;
    let b_erased: bool = b_ff as u128 * 100 > 90 * n as u128;
    let classification = if n == 0 || differ == 0 {
        RegionClass::Identical
    } else if a_erased && !b_erased {
        RegionClass::AErased
    } else if b_erased && !a_erased {
        RegionClass::BErased
    } else {
        RegionClass::Differs
    };
    RegionCounts { compared: n, differ, a_ff, b_ff, classification }
}

/// The name of a type of region.
pub open spec fn region_name(ty: u8) -> Seq<char> {
    if ty == REGION_FIRMWARE {
        "FIRMWARE"@
    } else if ty == REGION_BACKUP {
        "BACKUP"@
    } else {
        "UNKNOWN_0x"@ + hex_pad(ty as nat, 2, true)
    }
}

/// The name of a type of region.
pub fn region_type_name(ty: u8) -> (r: String)
    ensures
        r@ == region_name(ty),
{
    if ty == REGION_FIRMWARE {
        "FIRMWARE".to_owned()
    } else if ty == REGION_BACKUP {
        "BACKUP".to_owned()
    } else {
        let mut t = "UNKNOWN_0x".to_owned();
        push_hex_pad(&mut t, ty as u64, 2, true);
        t
    }
}

// ---------------------------------------------------------------- regions

/// A region that was compared.
#[derive(Debug, Clone, Copy)]
pub struct RegionDiff {
    /// What the region holds.
    pub region_type: u8,
    /// Where it starts.
    pub offset: u32,
    /// How long it is.
    pub size: u32,
    /// What was counted.
    pub counts: RegionCounts,
}

/// What comparing two images counts over all.
#[derive(Debug, Clone, Copy)]
pub struct DiffSummary {
    /// How many bytes differ.
    pub total_bytes_differ: u128,
    /// How many regions or zones there are.
    pub total_regions_or_zones: usize,
}

/// Whether a region lies inside of both images.
pub open spec fn region_inside(f: FlashRegion, a: Seq<u8>, b: Seq<u8>) -> bool {
    f.offset + f.size <= a.len() && f.offset + f.size <= b.len()
}

/// A region of an image.
pub open spec fn region_bytes(f: FlashRegion, b: Seq<u8>) -> Seq<u8> {
    b.subrange(f.offset as int, f.offset + f.size)
}

/// The regions that lie inside of both images, in order.
pub open spec fn inner_regions(v: Seq<FlashRegion>, a: Seq<u8>, b: Seq<u8>) -> Seq<FlashRegion>
    decreases v.len(),
{
    if v.len() == 0 {
        Seq::empty()
    } else if region_inside(v.last(), a, b) {
        inner_regions(v.drop_last(), a, b).push(v.last())
    } else {
        inner_regions(v.drop_last(), a, b)
    }
}

/// How many bytes differ over all of some regions.
pub open spec fn regions_differ(v: Seq<FlashRegion>, a: Seq<u8>, b: Seq<u8>) -> nat
    decreases v.len(),
{
    if v.len() == 0 {
        0
    } else {
        regions_differ(v.drop_last(), a, b) + differing(
            region_bytes(v.last(), a),
            region_bytes(v.last(), b),
            v.last().size as int,
        )
    }
}

/// Whether `d` is the comparison of the region `f`.
pub open spec fn region_compared(d: RegionDiff, f: FlashRegion, a: Seq<u8>, b: Seq<u8>) -> bool {
    &&& d.region_type == f.region_type
    &&& d.offset == f.offset
    &&& d.size == f.size
    &&& counts(d.counts, region_bytes(f, a), region_bytes(f, b))
}

/// Whether `r` holds the comparisons of the regions `v`.
pub open spec fn regions_compared(
    r: Seq<RegionDiff>,
    v: Seq<FlashRegion>,
    a: Seq<u8>,
    b: Seq<u8>,
) -> bool {
    r.len() == v.len() && forall|i: int|
        0 <= i < r.len() ==> region_compared(#[trigger] r[i], v[i], a, b)
}

/// The regions of the first geometry in the layout of an image.
pub open spec fn compared_regions(a: Seq<u8>) -> Seq<FlashRegion> {
    match image_layout(a) {
        Some(m) => if m.len() > 0 {
            m[0].regions
        } else {
            Seq::empty()
        },
        None => Seq::empty(),
    }
}

proof fn differing_bound(a: Seq<u8>, b: Seq<u8>, n: int)
    requires
        0 <= n,
    ensures
        differing(a, b, n) <= n,
    decreases n,
{
    if n > 0 {
        differing_bound(a, b, n - 1);
    }
}

/// Compares two images by the regions of the first geometry in the layout of the
/// first image. Regions that reach beyond an image are passed over.
pub fn diff_by_regions(a: &[u8], b: &[u8]) -> (r: (Vec<RegionDiff>, DiffSummary))
    ensures
        regions_compared(r.0@, inner_regions(compared_regions(a@), a@, b@), a@, b@),
        r.1.total_bytes_differ == regions_differ(
            inner_regions(compared_regions(a@), a@, b@),
            a@,
            b@,
        ),
        r.1.total_regions_or_zones == r.0@.len(),
{
    let mut regions: Vec<RegionDiff> = Vec::new();
    let mut total: u128 = 0;
    if let Ok(layout) = parse_flash_layout(a) {
        if layout.layouts.len() > 0 {
            let list = &layout.layouts[0].regions;
            let ghost v = list@;
            assert(layout@[0] == layout.layouts@[0]@);
            assert(compared_regions(a@) == v);
            let mut i: usize = 0;
            assert(v.take(0).len() == 0);
            while i < list.len()
                invariant
                    i <= list@.len(),
                    v == list@,
                    regions_compared(
                        regions@,
                        inner_regions(v.take(i as int), a@, b@),
                        a@,
                        b@,
                    ),
                    total == regions_differ(inner_regions(v.take(i as int), a@, b@), a@, b@),
                    total <= i * 0xFFFF_FFFF,
                    regions@.len() <= i,
                decreases list@.len() - i,
            {
                let ghost u = v.take(i + 1);
                let ghost before = inner_regions(v.take(i as int), a@, b@);
                assert(u.drop_last() =~= v.take(i as int));
                assert(u.last() == v[i as int]);
                let f = list[i];
                let end: u64 = f.offset as u64 + f.size as u64;
                if end <= a.len() as u64 && end <= b.len() as u64 {
                    let x = &a[f.offset as usize..end as usize];
                    let y = &b[f.offset as usize..end as usize];
                    let c = analyze_region(x, y);
                    proof {
                        assert(before.push(f).drop_last() =~= before);
                        differing_bound(x@, y@, f.size as int);
                    }
                    total += c.differ as u128;
                    let d = RegionDiff {
                        region_type: f.region_type,
                        offset: f.offset,
                        size: f.size,
                        counts: c,
                    };
                    assert(region_compared(d, f, a@, b@));
                    regions.push(d);
                }
                i += 1;
            }
            assert(v.take(i as int) =~= v);
        }
    }
    let summary = DiffSummary { total_bytes_differ: total, total_regions_or_zones: regions.len() };
    (regions, summary)
}

// ---------------------------------------------------------------- blocks

/// How many bytes a block has.
pub const BLOCK_SIZE: usize = 4096;

/// Whether two images differ at a position.
pub open spec fn differ_at(a: Seq<u8>, b: Seq<u8>, i: int) -> bool {
    a[i] != b[i]
}

/// The runs of positions below `n` at which two images differ: where each starts, and
/// where it has ended.
pub open spec fn runs(a: Seq<u8>, b: Seq<u8>, n: int) -> Seq<(int, int)>
    decreases n,
{
    if n <= 0 {
        Seq::empty()
    } else {
        let r = runs(a, b, n - 1);
        if !differ_at(a, b, n - 1) {
            r
        } else if r.len() > 0 && r.last().1 == n - 1 {
            r.drop_last().push((r.last().0, n))
        } else {
            r.push((n - 1, n))
        }
    }
}

/// Whether a run holds a position.
pub open spec fn run_holds(r: (int, int), i: int) -> bool {
    r.0 <= i < r.1
}

/// The runs are in order, none touches the next, and each holds only positions at which
/// the images differ. Every such position is held by one.
pub proof fn runs_are_exact(a: Seq<u8>, b: Seq<u8>, n: int)
    requires
        0 <= n,
    ensures
        forall|j: int|
            0 <= j < runs(a, b, n).len() ==> 0 <= (#[trigger] runs(a, b, n)[j]).0 < runs(
                a,
                b,
                n,
            )[j].1 <= n,
        forall|j: int, k: int|
            0 <= j < k < runs(a, b, n).len() ==> (#[trigger] runs(a, b, n)[j]).1 < (
            #[trigger] runs(a, b, n)[k]).0,
        forall|j: int, i: int|
            #![trigger run_holds(runs(a, b, n)[j], i)]
            0 <= j < runs(a, b, n).len() && run_holds(runs(a, b, n)[j], i) ==> differ_at(a, b, i),
        forall|i: int|
            0 <= i < n && #[trigger] differ_at(a, b, i) ==> exists|j: int|
                0 <= j < runs(a, b, n).len() && run_holds(#[trigger] runs(a, b, n)[j], i),
    decreases n,
{
    if n > 0 {
        runs_are_exact(a, b, n - 1);
        let p = runs(a, b, n - 1);
        let r = runs(a, b, n);
        assert forall|i: int| 0 <= i < n && #[trigger] differ_at(a, b, i) implies exists|j: int|
            0 <= j < r.len() && run_holds(#[trigger] r[j], i) by {
            if i < n - 1 {
                let j = choose|j: int| 0 <= j < p.len() && run_holds(#[trigger] p[j], i);
                assert(run_holds(r[j], i));
            } else {
                assert(run_holds(r[r.len() - 1], i));
            }
        }
        assert forall|j: int, i: int|
            #![trigger run_holds(r[j], i)]
            0 <= j < r.len() && run_holds(r[j], i) implies differ_at(a, b, i) by {
            if i < n - 1 {
                assert(run_holds(p[j], i));
            }
        }
    }
}

/// The runs as pairs of mathematical integers.
pub open spec fn run_models(v: Seq<(usize, usize)>) -> Seq<(int, int)> {
    v.map_values(|r: (usize, usize)| (r.0 as int, r.1 as int))
}

/// Finds the runs of positions below `n` at which two images differ.
pub fn find_runs(a: &[u8], b: &[u8], n: usize) -> (r: Vec<(usize, usize)>)
    requires
        n <= a@.len(),
        n <= b@.len(),
    ensures
        run_models(r@) == runs(a@, b@, n as int),
{
    let mut ranges: Vec<(usize, usize)> = Vec::new();
    let mut in_range: bool = false;
    let mut start: usize = 0;
    let mut i: usize = 0;
    assert(run_models(ranges@) =~= runs(a@, b@, 0));
    while i < n
        invariant
            i <= n,
            n <= a@.len(),
            n <= b@.len(),
            in_range ==> run_models(ranges@).push((start as int, i as int)) == runs(
                a@,
                b@,
                i as int,
            ),
            !in_range ==> run_models(ranges@) == runs(a@, b@, i as int),
            !in_range && i > 0 ==> (ranges@.len() == 0 || ranges@.last().1 < i),
        decreases n - i,
    {
        let ghost before = runs(a@, b@, i as int);
        let ghost known = ranges@;
        if a[i] != b[i] {
            if !in_range {
                start = i;
                in_range = true;
            } else {
                assert(before.drop_last() =~= run_models(known));
            }
        } else if in_range {
            ranges.push((start, i));
            in_range = false;
            assert(run_models(ranges@) =~= run_models(known).push((start as int, i as int)));
        }
        i += 1;
    }
    let ghost known = ranges@;
    if in_range {
        ranges.push((start, n));
        assert(run_models(ranges@) =~= run_models(known).push((start as int, n as int)));
    }
    ranges
}

/// A share of a block: of `length` bytes `differing` differ, and they stand for `weight`
/// bytes of the block.
#[derive(Debug, Clone, Copy, PartialEq, Eq, Structural)]
pub struct BlockPart {
    pub differing: usize,
    pub length: usize,
    pub weight: usize,
}

/// A stretch of whole blocks with differences.
#[derive(Debug, Clone)]
pub struct BlockDiff {
    /// Where it starts.
    pub start: u64,
    /// Where it has ended.
    pub end: u64,
    /// How many kilobytes it has, rounded down.
    pub size_kb: usize,
    /// What it was put together of. The share of bytes that differ is the mean of the
    /// shares of the parts, by weight.
    pub parts: Vec<BlockPart>,
}

/// What a block difference stands for.
#[verifier::ext_equal]
pub struct BlockModel {
    pub start: int,
    pub end: int,
    pub size_kb: int,
    pub parts: Seq<BlockPart>,
}

impl View for BlockDiff {
    type V = BlockModel;

    open spec fn view(&self) -> BlockModel {
        BlockModel {
            start: self.start as int,
            end: self.end as int,
            size_kb: self.size_kb as int,
            parts: self.parts@,
        }
    }
}

/// What block differences stand for.
pub open spec fn block_models(v: Seq<BlockDiff>) -> Seq<BlockModel> {
    v.map_values(|b: BlockDiff| b@)
}

/// Where the block of a position starts.
pub open spec fn block_start(s: int) -> int {
    (s / 4096) * 4096
}

/// Where the last block of a run has ended, cut to `n`.
pub open spec fn block_end(e: int, n: int) -> int {
    let up = ((e + 4095) / 4096) * 4096;
    if up < n {
        up
    } else {
        n
    }
}

/// How many bytes differ between two positions.
pub open spec fn differing_in(a: Seq<u8>, b: Seq<u8>, start: int, end: int) -> nat {
    differing(a.subrange(start, end), b.subrange(start, end), end - start)
}

/// The blocks of one run, in images that have `n` bytes in common.
pub open spec fn run_block(r: (int, int), a: Seq<u8>, b: Seq<u8>, n: int) -> BlockModel {
    let start = block_start(r.0);
    let end = block_end(r.1, n);
    BlockModel {
        start,
        end,
        size_kb: (end - start) / 1024,
        parts: seq![
            BlockPart {
                differing: differing_in(a, b, start, end) as usize,
                length: (end - start) as usize,
                weight: (end - start) as usize,
            },
        ],
    }
}

/// Two stretches in one. The second counts for as much as it reaches beyond the first.
pub open spec fn joined_blocks(x: BlockModel, y: BlockModel) -> BlockModel {
    BlockModel {
        start: x.start,
        end: y.end,
        size_kb: (y.end - x.start) / 1024,
        parts: x.parts.push(
            BlockPart {
                differing: y.parts[0].differing,
                length: y.parts[0].length,
                weight: (y.end - x.end) as usize,
            },
        ),
    }
}

/// The blocks of some runs. Stretches that touch or overlap are joined, unless the later
/// one has less than a kilobyte.
pub open spec fn block_list(v: Seq<(int, int)>, a: Seq<u8>, b: Seq<u8>, n: int) -> Seq<BlockModel>
    decreases v.len(),
{
    if v.len() == 0 {
        Seq::empty()
    } else {
        let m = block_list(v.drop_last(), a, b, n);
        let y = run_block(v.last(), a, b, n);
        if m.len() > 0 && y.start <= m.last().end && y.size_kb > 0 {
            m.drop_last().push(joined_blocks(m.last(), y))
        } else {
            m.push(y)
        }
    }
}

/// How many bytes differ over the blocks of each of some runs. Bytes of a block that
/// holds several runs count once for each.
pub open spec fn blocks_differ(v: Seq<(int, int)>, a: Seq<u8>, b: Seq<u8>, n: int) -> nat
    decreases v.len(),
{
    if v.len() == 0 {
        0
    } else {
        blocks_differ(v.drop_last(), a, b, n) + differing_in(
            a,
            b,
            block_start(v.last().0),
            block_end(v.last().1, n),
        )
    }
}

/// The end of the blocks of a run.
fn end_of_block(e: usize, n: usize) -> (r: usize)
    requires
        e <= n,
    ensures
        r == block_end(e as int, n as int),
        e <= r <= n,
{
    let over: usize = e % 4096;
    if over == 0 {
        e
    } else if n - e <= 4096 - over {
        n
    } else {
        e + (4096 - over)
    }
}

/// Compares two images by blocks: finds the stretches of whole blocks that hold
/// differences.
pub fn diff_by_blocks(a: &[u8], b: &[u8]) -> (r: (Vec<BlockDiff>, DiffSummary))
    ensures
        ({
            let n = common_len(a@, b@) as int;
            let v = runs(a@, b@, n);
            &&& block_models(r.0@) == block_list(v, a@, b@, n)
            &&& r.1.total_bytes_differ == blocks_differ(v, a@, b@, n)
            &&& r.1.total_regions_or_zones == r.0@.len()
        }),
{
    let n: usize = if a.len() < b.len() { a.len() } else { b.len() };
    let ranges = find_runs(a, b, n);
    let ghost v = runs(a@, b@, n as int);
    proof {
        runs_are_exact(a@, b@, n as int);
    }
    let mut blocks: Vec<BlockDiff> = Vec::new();
    let mut total: u128 = 0;
    let mut i: usize = 0;
    assert(block_models(blocks@) =~= block_list(v.take(0), a@, b@, n as int));
    while i < ranges.len()
        invariant
            i <= ranges@.len(),
            n == common_len(a@, b@),
            v == runs(a@, b@, n as int),
            v == run_models(ranges@),
            forall|j: int| 0 <= j < v.len() ==> 0 <= (#[trigger] v[j]).0 < v[j].1 <= n,
            forall|j: int, k: int|
                0 <= j < k < v.len() ==> (#[trigger] v[j]).1 < (#[trigger] v[k]).0,
            block_models(blocks@) == block_list(v.take(i as int), a@, b@, n as int),
            total == blocks_differ(v.take(i as int), a@, b@, n as int),
            total <= i * 0xFFFF_FFFF_FFFF_FFFF,
            i == 0 ==> blocks@.len() == 0,
            i > 0 ==> blocks@.len() > 0 && blocks@.last().end == block_end(
                v[i - 1].1,
                n as int,
            ) && blocks@.last().start <= blocks@.last().end,
        decreases ranges@.len() - i,
    {
        let ghost u = v.take(i + 1);
        let ghost known = blocks@;
        assert(u.drop_last() =~= v.take(i as int));
        let (s, e): (usize, usize) = ranges[i];
        assert(v[i as int] == (s as int, e as int));
        assert(u.last() == v[i as int]);
        let start: usize = (s / 4096) * 4096;
        let end: usize = end_of_block(e, n);
        let x = &a[start..end];
        let y = &b[start..end];
        let count: usize = count_differing(x, y, end - start);
        total += count as u128;
        let size_kb: usize = (end - start) / 1024;
        let weight: usize = end - start;
        let ghost whole = run_block(v[i as int], a@, b@, n as int);
        let len: usize = blocks.len();
        if len > 0 && start as u64 <= blocks[len - 1].end && size_kb > 0 {
            proof {
                let p = v[i - 1];
                assert(p.1 < v[i as int].0);
            }
            let (first, last_end): (u64, u64) = (blocks[len - 1].start, blocks[len - 1].end);
            let mut parts = match blocks.pop() {
                Some(last) => last.parts,
                None => Vec::new(),
            };
            let ghost old_parts = parts@;
            assert(old_parts == known.last().parts@);
            parts.push(
                BlockPart { differing: count, length: weight, weight: (end as u64 - last_end) as usize },
            );
            let grown = BlockDiff {
                start: first,
                end: end as u64,
                size_kb: ((end as u64 - first) / 1024) as usize,
                parts,
            };
            assert(block_models(known).last() == known.last()@);
            assert(grown@ =~= joined_blocks(known.last()@, whole));
            blocks.push(grown);
            assert(block_models(blocks@) =~= block_models(known).drop_last().push(grown@));
        } else {
            let mut parts: Vec<BlockPart> = Vec::new();
            parts.push(BlockPart { differing: count, length: weight, weight });
            let fresh = BlockDiff { start: start as u64, end: end as u64, size_kb, parts };
            assert(fresh@ =~= whole);
            assert(len > 0 ==> block_models(known).last() == known.last()@);
            blocks.push(fresh);
            assert(block_models(blocks@) =~= block_models(known).push(fresh@));
        }
        i += 1;
    }
    assert(v.take(i as int) =~= v);
    let summary = DiffSummary { total_bytes_differ: total, total_regions_or_zones: blocks.len() };
    (blocks, summary)
}

/// Whether a stretch of blocks holds a position.
pub open spec fn block_holds(m: BlockModel, i: int) -> bool {
    m.start <= i < m.end
}

/// Every position at which two images differ, as far as both go, lies in a stretch that
/// a comparison by blocks reports.
pub proof fn differences_are_covered(a: Seq<u8>, b: Seq<u8>, i: int)
    requires
        0 <= i < common_len(a, b),
        differ_at(a, b, i),
    ensures
        ({
            let n = common_len(a, b) as int;
            let m = block_list(runs(a, b, n), a, b, n);
            exists|j: int| 0 <= j < m.len() && block_holds(#[trigger] m[j], i)
        }),
{
    let n = common_len(a, b) as int;
    runs_are_exact(a, b, n);
    let v = runs(a, b, n);
    let k = choose|k: int| 0 <= k < v.len() && run_holds(#[trigger] v[k], i);
    runs_are_covered(v, a, b, n, k, i);
}

proof fn runs_are_covered(v: Seq<(int, int)>, a: Seq<u8>, b: Seq<u8>, n: int, k: int, i: int)
    requires
        forall|j: int| 0 <= j < v.len() ==> 0 <= (#[trigger] v[j]).0 < v[j].1 <= n,
        forall|j: int, l: int|
            0 <= j < l < v.len() ==> (#[trigger] v[j]).1 < (#[trigger] v[l]).0,
        0 <= k < v.len(),
        run_holds(v[k], i),
    ensures
        exists|j: int|
            0 <= j < block_list(v, a, b, n).len() && block_holds(
                #[trigger] block_list(v, a, b, n)[j],
                i,
            ),
    decreases v.len(),
{
    let u = v.drop_last();
    let m = block_list(u, a, b, n);
    let r = block_list(v, a, b, n);
    let y = run_block(v.last(), a, b, n);
    last_block(u, a, b, n);
    if k < u.len() {
        assert(u[k] == v[k]);
        assert forall|j: int| 0 <= j < u.len() implies 0 <= (#[trigger] u[j]).0 < u[j].1 <= n by {
            assert(u[j] == v[j]);
        }
        assert forall|j: int, l: int| 0 <= j < l < u.len() implies (#[trigger] u[j]).1 < (
        #[trigger] u[l]).0 by {
            assert(u[j] == v[j] && u[l] == v[l]);
        }
        runs_are_covered(u, a, b, n, k, i);
        let j = choose|j: int| 0 <= j < m.len() && block_holds(#[trigger] m[j], i);
        assert(u.last() == v[u.len() - 1]);
        assert(u.last().1 < v.last().0);
        assert(block_holds(r[j], i));
    } else {
        if u.len() > 0 {
            assert(u.last() == v[u.len() - 1]);
            assert(u.last().1 < v.last().0);
        }
        assert(block_holds(r[r.len() - 1], i));
    }
}

proof fn last_block(v: Seq<(int, int)>, a: Seq<u8>, b: Seq<u8>, n: int)
    requires
        forall|j: int| 0 <= j < v.len() ==> 0 <= (#[trigger] v[j]).0 < v[j].1 <= n,
        forall|j: int, l: int|
            0 <= j < l < v.len() ==> (#[trigger] v[j]).1 < (#[trigger] v[l]).0,
    ensures
        v.len() > 0 ==> ({
            let m = block_list(v, a, b, n);
            &&& m.len() > 0
            &&& m.last().start <= block_start(v.last().0)
            &&& m.last().end == block_end(v.last().1, n)
        }),
    decreases v.len(),
{
    if v.len() > 0 {
        let u = v.drop_last();
        assert forall|j: int| 0 <= j < u.len() implies 0 <= (#[trigger] u[j]).0 < u[j].1 <= n by {
            assert(u[j] == v[j]);
        }
        assert forall|j: int, l: int| 0 <= j < l < u.len() implies (#[trigger] u[j]).1 < (
        #[trigger] u[l]).0 by {
            assert(u[j] == v[j] && u[l] == v[l]);
        }
        last_block(u, a, b, n);
        let m = block_list(u, a, b, n);
        let y = run_block(v.last(), a, b, n);
        assert(v.last() == v[v.len() - 1]);
        if u.len() > 0 {
            assert(u.last() == v[u.len() - 1]);
            assert(u.last().1 < v.last().0);
            blocks_are_monotone(u.last(), v.last(), n);
        }
        if m.len() > 0 && y.start <= m.last().end && y.size_kb > 0 {
            assert(block_list(v, a, b, n).last() == joined_blocks(m.last(), y));
        } else {
            assert(block_list(v, a, b, n).last() == y);
        }
    }
}

// ------------------------------------------------------------------ files

/// The comparison of two files.
#[derive(Debug, Clone)]
pub struct DiffOutput {
    pub file_a: String,
    pub file_b: String,
    pub size_a: usize,
    pub size_b: usize,
    /// Whether the layout of the first file divides both.
    pub layout_parsed: bool,
    /// The regions, if there are any.
    pub regions: Option<Vec<RegionDiff>>,
    /// The blocks with differences, if there are no regions.
    pub blocks: Option<Vec<BlockDiff>>,
    pub summary: DiffSummary,
    /// Whether the files differ in the zone that must not be lost.
    pub boot_critical_differs: bool,
}

/// The regions of the first image that lie inside of both.
pub open spec fn shared_regions(a: Seq<u8>, b: Seq<u8>) -> Seq<FlashRegion> {
    inner_regions(compared_regions(a), a, b)
}

/// Whether two images differ in the zone that must not be lost, as far as both go.
pub open spec fn boot_differs(a: Seq<u8>, b: Seq<u8>) -> bool {
    exists|i: int|
        BOOT_CRITICAL_START <= i < BOOT_CRITICAL_END && i < common_len(a, b) && #[trigger] differ_at(
            a,
            b,
            i,
        )
}

/// Whether `o` compares two images.
pub open spec fn compares(o: DiffOutput, a: Seq<u8>, b: Seq<u8>) -> bool {
    let n = common_len(a, b) as int;
    let v = shared_regions(a, b);
    let m = block_list(runs(a, b, n), a, b, n);
    &&& o.size_a == a.len()
    &&& o.size_b == b.len()
    &&& o.layout_parsed == (v.len() > 0)
    &&& match o.regions {
        Some(r) => v.len() > 0 && regions_compared(r@, v, a, b),
        None => v.len() == 0,
    }
    &&& match o.blocks {
        Some(r) => v.len() == 0 && m.len() > 0 && block_models(r@) == m,
        None => v.len() > 0 || m.len() == 0,
    }
    &&& o.summary.total_bytes_differ == differing(a, b, n)
    &&& o.summary.total_regions_or_zones == (if v.len() > 0 {
        v.len()
    } else {
        m.len()
    })
    &&& o.boot_critical_differs == boot_differs(a, b)
}

/// Finds out whether two images differ in the zone that must not be lost.
pub fn boot_zone_differs(a: &[u8], b: &[u8]) -> (r: bool)
    ensures
        r == boot_differs(a@, b@),
{
    let n: usize = if a.len() < b.len() { a.len() } else { b.len() };
    let end: usize = if BOOT_CRITICAL_END < n { BOOT_CRITICAL_END } else { n };
    let mut i: usize = BOOT_CRITICAL_START;
    while i < end
        invariant
            n == common_len(a@, b@),
            end <= n,
            end <= BOOT_CRITICAL_END,
            BOOT_CRITICAL_START <= i,
            forall|j: int| BOOT_CRITICAL_START <= j < i && j < end ==> !#[trigger] differ_at(a@, b@, j),
        decreases end - i,
    {
        if a[i] != b[i] {
            assert(differ_at(a@, b@, i as int));
            return true;
        }
        i += 1;
    }
    false
}

/// Compares the contents of two files. An empty file is no image.
pub fn compare_files(path_a: &str, data_a: &[u8], path_b: &str, data_b: &[u8]) -> (r: Result<
    DiffOutput,
    String,
>)
    ensures
        match r {
            Ok(o) => data_a@.len() > 0 && data_b@.len() > 0 && o.file_a@ == path_a@ && o.file_b@
                == path_b@ && compares(o, data_a@, data_b@),
            Err(e) => if data_a@.len() == 0 {
                e@ == "File A is empty: "@ + path_a@
            } else {
                data_b@.len() == 0 && e@ == "File B is empty: "@ + path_b@
            },
        },
{
    let (size_a, size_b): (usize, usize) = (data_a.len(), data_b.len());
    if size_a == 0 {
        return Err(labelled("File A is empty: ", path_a));
    }
    if size_b == 0 {
        return Err(labelled("File B is empty: ", path_b));
    }
    let common: usize = if size_a < size_b { size_a } else { size_b };
    let exact: usize = count_differing(data_a, data_b, common);
    let boot_critical_differs: bool = boot_zone_differs(data_a, data_b);
    let (regions, _) = diff_by_regions(data_a, data_b);
    let layout_parsed: bool = regions.len() > 0;
    let (list, found): (Option<Vec<BlockDiff>>, usize) = if layout_parsed {
        (None, regions.len())
    } else {
        let (blocks, _) = diff_by_blocks(data_a, data_b);
        let len: usize = blocks.len();
        (if len == 0 { None } else { Some(blocks) }, len)
    };
    let summary = DiffSummary { total_bytes_differ: exact as u128, total_regions_or_zones: found };
    Ok(
        DiffOutput {
            file_a: path_a.to_owned(),
            file_b: path_b.to_owned(),
            size_a,
            size_b,
            layout_parsed,
            regions: if layout_parsed { Some(regions) } else { None },
            blocks: list,
            summary,
            boot_critical_differs,
        },
    )
}

/// Two images of one length are reported to differ nowhere if and only if they are equal.
pub proof fn no_difference_is_equality(a: Seq<u8>, b: Seq<u8>, o: DiffOutput)
    requires
        a.len() == b.len(),
        compares(o, a, b),
    ensures
        o.summary.total_bytes_differ == 0 <==> a == b,
{
    differing_zero(a, b, a.len() as int);
    assert(a.take(a.len() as int) =~= a);
    assert(b.take(b.len() as int) =~= b);
}

/// A reported difference in the zone that must not be lost is a reported difference.
pub proof fn boot_difference_is_counted(a: Seq<u8>, b: Seq<u8>, o: DiffOutput)
    requires
        compares(o, a, b),
        o.boot_critical_differs,
    ensures
        o.summary.total_bytes_differ > 0,
{
    let n = common_len(a, b) as int;
    let i = choose|i: int|
        BOOT_CRITICAL_START <= i < BOOT_CRITICAL_END && i < n && #[trigger] differ_at(a, b, i);
    differing_zero(a, b, n);
    assert(a.take(n)[i] != b.take(n)[i]);
}

// ------------------------------------------------------------------- text

/// `n` in decimal, with a comma between each three digits.
pub open spec fn grouped(n: nat) -> Seq<char>
    decreases n,
{
    if n < 1000 {
        dec(n)
    } else {
        grouped(n / 1000) + seq![
            ',',
            digit((n / 100) % 10, false),
            digit((n / 10) % 10, false),
            digit(n % 10, false),
        ]
    }
}

fn push_grouped(out: &mut String, n: usize)
    ensures
        final(out)@ == old(out)@ + grouped(n as nat),
    decreases n,
{
    if n < 1000 {
        push_dec(out, n as u64);
    } else {
        push_grouped(out, n / 1000);
        out.push(',');
        push_dec(out, ((n / 100) % 10) as u64);
        push_dec(out, ((n / 10) % 10) as u64);
        push_dec(out, (n % 10) as u64);
    }
    assert(out@ =~= old(out)@ + grouped(n as nat));
}

/// A count in decimal, with a comma between each three digits.
pub fn format_bytes(n: usize) -> (r: String)
    ensures
        r@ == grouped(n as nat),
{
    let mut t = String::new();
    push_grouped(&mut t, n);
    assert(t@ =~= grouped(n as nat));
    t
}

/// A line on a region, with the shares in percent as texts.
pub open spec fn region_line(
    d: RegionDiff,
    pct: Seq<char>,
    a_ff: Seq<char>,
    b_ff: Seq<char>,
) -> Seq<char> {
    pad_right(region_name(d.region_type), 12) + " @0x"@ + hex_pad(d.offset as nat, 6, true) + " "@
        + pad_left(dec((d.size / 1024) as nat), 8) + "KB  "@ + pad_left(pct, 5) + "% differ  A:"@
        + pad_left(a_ff, 5) + "%FF B:"@ + pad_left(b_ff, 5) + "%FF  "@
        + d.counts.classification.spec_text()
}

/// A line on a region. The shares in percent come as texts: that of the bytes that
/// differ with two decimals, those of the erased bytes with one.
pub fn format_region_diff(d: &RegionDiff, pct: &str, a_ff: &str, b_ff: &str) -> (r: String)
    ensures
        r@ == region_line(*d, pct@, a_ff@, b_ff@),
{
    let name = region_type_name(d.region_type);
    let size = dec_text((d.size / 1024) as u64);
    let mut t = String::new();
    push_pad_right(&mut t, name.as_str(), 12);
    assert(t@ =~= pad_right(name@, 12));
    t.append(" @0x");
    push_hex_pad(&mut t, d.offset as u64, 6, true);
    t.append(" ");
    push_pad_left(&mut t, size.as_str(), 8);
    t.append("KB  ");
    push_pad_left(&mut t, pct, 5);
    t.append("% differ  A:");
    push_pad_left(&mut t, a_ff, 5);
    t.append("%FF B:");
    push_pad_left(&mut t, b_ff, 5);
    t.append("%FF  ");
    t.append(d.counts.classification.text());
    t
}

/// A line on a stretch of blocks, with the share in percent as a text.
pub open spec fn block_line(m: BlockModel, pct: Seq<char>) -> Seq<char> {
    "0x"@ + hex_pad(m.start as nat, 8, true) + "-0x"@ + hex_pad(m.end as nat, 8, true) + " ("@
        + pad_left(dec(m.size_kb as nat), 4) + "KB) "@ + pad_left(pct, 5) + "% differ"@
}

/// A line on a stretch of blocks. The share in percent comes as a text with two
/// decimals.
pub fn format_block_diff(b: &BlockDiff, pct: &str) -> (r: String)
    ensures
        r@ == block_line(b@, pct@),
{
    let size = dec_text(b.size_kb as u64);
    let mut t = "0x".to_owned();
    push_hex_pad(&mut t, b.start, 8, true);
    t.append("-0x");
    push_hex_pad(&mut t, b.end, 8, true);
    t.append(" (");
    push_pad_left(&mut t, size.as_str(), 4);
    t.append("KB) ");
    push_pad_left(&mut t, pct, 5);
    t.append("% differ");
    t
}

/// The line that warns of a difference in the zone that must not be lost.
pub open spec fn boot_warning() -> Seq<char> {
    "\n⚠  BOOT-CRITICAL: the boot-input zone differs. If B is a live card and A is your target image, flashing would corrupt the unrecoverable zone (ADR-021) — DO NOT FLASH."@
}

/// The lines that come before the lines on regions or blocks.
pub open spec fn header_lines(o: DiffOutput) -> Seq<Seq<char>> {
    let files = seq![
        "File A: "@ + o.file_a@ + " ("@ + grouped(o.size_a as nat) + " bytes)"@,
        "File B: "@ + o.file_b@ + " ("@ + grouped(o.size_b as nat) + " bytes)\n"@,
    ];
    if o.regions is Some {
        files + seq![
            "FLASH_LAYOUT regions:"@,
            "TYPE           OFFSET SIZE(KB)   %DIFF     A-FF%     B-FF%  CLASS"@,
            repeat('-', 90),
        ]
    } else if o.blocks is Some {
        files + seq!["Block diff (no FLASH_LAYOUT):"@, Seq::<char>::empty()]
    } else {
        files
    }
}

/// The lines that come after the lines on regions or blocks.
pub open spec fn footer_lines(o: DiffOutput) -> Seq<Seq<char>> {
    let sum = seq![
        "\nSummary: "@ + grouped(o.summary.total_bytes_differ as nat) + " bytes differ, "@ + dec(
            o.summary.total_regions_or_zones as nat,
        ) + " region(s)/zone(s)"@,
    ];
    if o.boot_critical_differs {
        sum.push(boot_warning())
    } else {
        sum
    }
}

fn dashes() -> (r: String)
    ensures
        r@ == repeat('-', 90),
{
    let mut t = String::new();
    let mut i: usize = 0;
    assert(t@ =~= repeat('-', 0));
    while i < 90
        invariant
            i <= 90,
            t@ == repeat('-', i as nat),
        decreases 90 - i,
    {
        t.push('-');
        i += 1;
        assert(t@ =~= repeat('-', i as nat));
    }
    t
}

fn file_line(label: &str, name: &str, size: usize, tail: &str) -> (r: String)
    ensures
        r@ == label@ + name@ + " ("@ + grouped(size as nat) + tail@,
{
    let mut t = label.to_owned();
    t.append(name);
    t.append(" (");
    push_grouped(&mut t, size);
    t.append(tail);
    t
}

/// The lines of a comparison, around the lines `rows` on its regions or blocks.
pub fn print_text(o: &DiffOutput, rows: Vec<String>) -> (r: Vec<String>)
    requires
        o.summary.total_bytes_differ <= usize::MAX,
    ensures
        strings(r@) == header_lines(*o) + strings(rows@) + footer_lines(*o),
{
    let mut lines: Vec<String> = Vec::new();
    lines.push(file_line("File A: ", o.file_a.as_str(), o.size_a, " bytes)"));
    lines.push(file_line("File B: ", o.file_b.as_str(), o.size_b, " bytes)\n"));
    if o.regions.is_some() {
        lines.push("FLASH_LAYOUT regions:".to_owned());
        lines.push(
            "TYPE           OFFSET SIZE(KB)   %DIFF     A-FF%     B-FF%  CLASS".to_owned(),
        );
        lines.push(dashes());
    } else if o.blocks.is_some() {
        lines.push("Block diff (no FLASH_LAYOUT):".to_owned());
        lines.push(String::new());
        assert(lines@[3]@ =~= Seq::<char>::empty());
    }
    assert(strings(lines@) =~= header_lines(*o));
    let mut rows = rows;
    let ghost head = lines@;
    let ghost body = rows@;
    lines.append(&mut rows);
    assert(strings(lines@) =~= strings(head) + strings(body));
    let mut sum = "\nSummary: ".to_owned();
    push_grouped(&mut sum, o.summary.total_bytes_differ as usize);
    sum.append(" bytes differ, ");
    push_dec(&mut sum, o.summary.total_regions_or_zones as u64);
    sum.append(" region(s)/zone(s)");
    lines.push(sum);
    if o.boot_critical_differs {
        lines.push(
            "\n⚠  BOOT-CRITICAL: the boot-input zone differs. If B is a live card and A is your target image, flashing would corrupt the unrecoverable zone (ADR-021) — DO NOT FLASH.".to_owned(),
        );
    }
    assert(strings(lines@) =~= strings(head) + strings(body) + footer_lines(*o));
    lines
}

// ------------------------------------------------------------------- laws

/// The count of erased bytes is the number of bytes that are 0xFF.
pub proof fn erased_counts_bytes(b: Seq<u8>, n: int)
    requires
        0 <= n <= b.len(),
    ensures
        erased(b, n) == b.take(n).filter(|x: u8| x == 0xFF).len(),
    decreases n,
{
    reveal(Seq::filter);
    if n > 0 {
        erased_counts_bytes(b, n - 1);
        assert(b.take(n).drop_last() =~= b.take(n - 1));
        assert(b.take(n).last() == b[n - 1]);
    }
}

/// Regions count as identical exactly where they agree as far as both go; one counts as erased
/// only where more than nine tenths of its bytes are 0xFF and the same is not true of the
/// other; and all else counts as different.
pub proof fn classes_are_exact(c: RegionCounts, a: Seq<u8>, b: Seq<u8>)
    requires
        counts(c, a, b),
    ensures
        c.compared <= a.len() && c.compared <= b.len(),
        c.compared == a.len() || c.compared == b.len(),
        c.classification == RegionClass::Identical <==> forall|i: int|
            0 <= i < a.len() && i < b.len() ==> #[trigger] a[i] == #[trigger] b[i],
        c.classification == RegionClass::AErased <==> c.differ > 0 && 10 * c.a_ff > 9 * c.compared
            && 10 * c.b_ff <= 9 * c.compared,
        c.classification == RegionClass::BErased <==> c.differ > 0 && 10 * c.b_ff > 9 * c.compared
            && 10 * c.a_ff <= 9 * c.compared,
{
    let n = common_len(a, b) as int;
    differing_zero(a, b, n);
    if c.differ == 0 {
        assert forall|i: int| 0 <= i < a.len() && i < b.len() implies #[trigger] a[i]
            == #[trigger] b[i] by {
            assert(a.take(n)[i] == a[i] && b.take(n)[i] == b[i]);
        }
    } else if forall|i: int| 0 <= i < a.len() && i < b.len() ==> #[trigger] a[i] == #[trigger] b[i] {
        assert(a.take(n) =~= b.take(n));
    }
}

proof fn differing_is_symmetric(a: Seq<u8>, b: Seq<u8>, n: int)
    ensures
        differing(a, b, n) == differing(b, a, n),
    decreases n,
{
    if n > 0 {
        differing_is_symmetric(a, b, n - 1);
    }
}

/// Comparing the other way round finds the same differences and exchanges what is said of the
/// two sides.
pub proof fn comparing_is_symmetric(c: RegionCounts, d: RegionCounts, a: Seq<u8>, b: Seq<u8>)
    requires
        counts(c, a, b),
        counts(d, b, a),
    ensures
        c.compared == d.compared && c.differ == d.differ && c.a_ff == d.b_ff && c.b_ff == d.a_ff,
        c.classification == RegionClass::AErased <==> d.classification == RegionClass::BErased,
        c.classification == RegionClass::BErased <==> d.classification == RegionClass::AErased,
        c.classification == RegionClass::Differs <==> d.classification == RegionClass::Differs,
        c.classification == RegionClass::Identical <==> d.classification == RegionClass::Identical,
{
    differing_is_symmetric(a, b, common_len(a, b) as int);
}

/// The regions that are compared are those of the layout that end within both images: none of
/// these is passed over, none is compared twice, and their order is kept.
pub proof fn compared_regions_are_within(v: Seq<FlashRegion>, a: Seq<u8>, b: Seq<u8>)
    ensures
        inner_regions(v, a, b) == v.filter(
            |f: FlashRegion| f.offset + f.size <= a.len() && f.offset + f.size <= b.len(),
        ),
    decreases v.len(),
{
    reveal(Seq::filter);
    if v.len() > 0 {
        compared_regions_are_within(v.drop_last(), a, b);
    } else {
        assert(v =~= Seq::empty());
    }
}

/// A compared region keeps its type and its place, and what is said of it rests on the bytes
/// at that place: it is identical exactly where every byte from its offset on, for its size,
/// is the same in both images.
pub proof fn region_rests_on_its_bytes(d: RegionDiff, f: FlashRegion, a: Seq<u8>, b: Seq<u8>)
    requires
        region_compared(d, f, a, b),
        f.offset + f.size <= a.len(),
        f.offset + f.size <= b.len(),
    ensures
        d.region_type == f.region_type && d.offset == f.offset && d.size == f.size,
        d.counts.compared == f.size,
        d.counts.classification == RegionClass::Identical <==> forall|i: int|
            f.offset <= i < f.offset + f.size ==> #[trigger] a[i] == #[trigger] b[i],
{
    let x = region_bytes(f, a);
    let y = region_bytes(f, b);
    classes_are_exact(d.counts, x, y);
    let o = f.offset as int;
    if d.counts.classification == RegionClass::Identical {
        assert forall|i: int| f.offset <= i < f.offset + f.size implies #[trigger] a[i]
            == #[trigger] b[i] by {
            assert(x[i - o] == a[i] && y[i - o] == b[i]);
        }
    } else if forall|i: int|
        f.offset <= i < f.offset + f.size ==> #[trigger] a[i] == #[trigger] b[i] {
        assert forall|i: int| 0 <= i < x.len() && i < y.len() implies #[trigger] x[i]
            == #[trigger] y[i] by {
            assert(x[i] == a[o + i] && y[i] == b[o + i]);
        }
    }
}

/// Regions of type one are called firmware and those of type five backup; every other type is
/// called by its number.
pub proof fn region_names_are_exact(ty: u8)
    ensures
        region_name(ty) == "FIRMWARE"@ <==> ty == 1,
        region_name(ty) == "BACKUP"@ <==> ty == 5,
        ty != 1 && ty != 5 ==> region_name(ty) == "UNKNOWN_0x"@ + hex_pad(ty as nat, 2, true),
{
    reveal_strlit("FIRMWARE");
    reveal_strlit("BACKUP");
    reveal_strlit("UNKNOWN_0x");
    assert("FIRMWARE"@[0] == 'F' && "BACKUP"@[0] == 'B');
    if ty != 1 && ty != 5 {
        assert(region_name(ty)[0] == 'U');
    }
}

/// The zone that must not be lost is that from 0x540000 up to 0x5A0000: images differ there
/// exactly where some byte of it is in both and is not the same.
pub proof fn boot_zone_is_exact(a: Seq<u8>, b: Seq<u8>)
    ensures
        boot_differs(a, b) <==> exists|i: int|
            0x540000 <= i < 0x5A0000 && i < a.len() && i < b.len() && #[trigger] a[i]
                != #[trigger] b[i],
{
    if boot_differs(a, b) {
        let i = choose|i: int|
            BOOT_CRITICAL_START <= i < BOOT_CRITICAL_END && i < common_len(a, b)
                && #[trigger] differ_at(a, b, i);
        assert(a[i] != b[i]);
    }
    if exists|i: int|
        0x540000 <= i < 0x5A0000 && i < a.len() && i < b.len() && #[trigger] a[i]
            != #[trigger] b[i] {
        let i = choose|i: int|
            0x540000 <= i < 0x5A0000 && i < a.len() && i < b.len() && #[trigger] a[i]
                != #[trigger] b[i];
        assert(differ_at(a, b, i));
    }
}

/// Whether a stretch of blocks starts at a block, ends at one or at the end of what both images have,
/// tells its size in whole kilobytes, and holds a difference in its first block and its last.
pub open spec fn is_stretch(m: BlockModel, a: Seq<u8>, b: Seq<u8>, n: int) -> bool {
    &&& 0 <= m.start < m.end <= n
    &&& m.start % 4096 == 0
    &&& m.end % 4096 == 0 || m.end == n
    &&& m.size_kb * 1024 <= m.end - m.start < m.size_kb * 1024 + 1024
    &&& exists|i: int| m.start <= i < m.start + 4096 && i < m.end && #[trigger] differ_at(a, b, i)
    &&& exists|i: int| m.start <= i < m.end <= i + 4096 && #[trigger] differ_at(a, b, i)
}

proof fn run_is_stretch(r: (int, int), a: Seq<u8>, b: Seq<u8>, n: int)
    requires
        0 <= r.0 < r.1 <= n,
        differ_at(a, b, r.0),
        differ_at(a, b, r.1 - 1),
    ensures
        is_stretch(run_block(r, a, b, n), a, b, n),
{
}

proof fn joined_is_stretch(x: BlockModel, y: BlockModel, a: Seq<u8>, b: Seq<u8>, n: int)
    requires
        is_stretch(x, a, b, n),
        is_stretch(y, a, b, n),
        x.start <= y.start,
        x.end <= y.end,
    ensures
        is_stretch(joined_blocks(x, y), a, b, n),
{
    let z = joined_blocks(x, y);
    let i = choose|i: int|
        x.start <= i < x.start + 4096 && i < x.end && #[trigger] differ_at(a, b, i);
    assert(z.start <= i < z.start + 4096 && i < z.end && differ_at(a, b, i));
    let k = choose|k: int| y.start <= k < y.end <= k + 4096 && #[trigger] differ_at(a, b, k);
    assert(z.start <= k < z.end <= k + 4096 && differ_at(a, b, k));
}

proof fn blocks_are_monotone(r: (int, int), s: (int, int), n: int)
    requires
        0 <= r.0 < r.1 < s.0 < s.1 <= n,
    ensures
        block_start(r.0) <= block_start(s.0),
        block_end(r.1, n) <= block_end(s.1, n),
{
}

proof fn list_is_stretches(v: Seq<(int, int)>, a: Seq<u8>, b: Seq<u8>, n: int)
    requires
        forall|j: int| 0 <= j < v.len() ==> 0 <= (#[trigger] v[j]).0 < v[j].1 <= n,
        forall|j: int, l: int|
            0 <= j < l < v.len() ==> (#[trigger] v[j]).1 < (#[trigger] v[l]).0,
        forall|j: int|
            0 <= j < v.len() ==> differ_at(a, b, (#[trigger] v[j]).0) && differ_at(
                a,
                b,
                v[j].1 - 1,
            ),
    ensures
        forall|j: int|
            0 <= j < block_list(v, a, b, n).len() ==> is_stretch(
                #[trigger] block_list(v, a, b, n)[j],
                a,
                b,
                n,
            ),
    decreases v.len(),
{
    if v.len() > 0 {
        let u = v.drop_last();
        assert forall|j: int| 0 <= j < u.len() implies 0 <= (#[trigger] u[j]).0 < u[j].1 <= n by {
            assert(u[j] == v[j]);
        }
        assert forall|j: int, l: int| 0 <= j < l < u.len() implies (#[trigger] u[j]).1 < (
        #[trigger] u[l]).0 by {
            assert(u[j] == v[j] && u[l] == v[l]);
        }
        assert forall|j: int| 0 <= j < u.len() implies differ_at(a, b, (#[trigger] u[j]).0)
            && differ_at(a, b, u[j].1 - 1) by {
            assert(u[j] == v[j]);
        }
        list_is_stretches(u, a, b, n);
        last_block(u, a, b, n);
        let m = block_list(u, a, b, n);
        let y = run_block(v.last(), a, b, n);
        run_is_stretch(v.last(), a, b, n);
        if m.len() > 0 && y.start <= m.last().end && y.size_kb > 0 {
            assert(u.last() == v[u.len() - 1]);
            assert(u.last().1 < v.last().0);
            blocks_are_monotone(u.last(), v.last(), n);
            assert(is_stretch(m[m.len() - 1], a, b, n));
            joined_is_stretch(m.last(), y, a, b, n);
        }
        assert forall|j: int| 0 <= j < block_list(v, a, b, n).len() implies is_stretch(
            #[trigger] block_list(v, a, b, n)[j],
            a,
            b,
            n,
        ) by {
            if j < m.len() {
                assert(is_stretch(m[j], a, b, n));
            }
        }
    }
}

/// A comparison by blocks reports whole blocks and none too many: each stretch starts at a
/// multiple of 4096 and ends at one or where an image ends, and both its first block and its
/// last hold a difference.
pub proof fn stretches_are_whole_blocks(a: Seq<u8>, b: Seq<u8>, j: int)
    requires
        ({
            let n = common_len(a, b) as int;
            0 <= j < block_list(runs(a, b, n), a, b, n).len()
        }),
    ensures
        ({
            let n = common_len(a, b) as int;
            is_stretch(block_list(runs(a, b, n), a, b, n)[j], a, b, n)
        }),
{
    let n = common_len(a, b) as int;
    runs_are_exact(a, b, n);
    let v = runs(a, b, n);
    assert forall|k: int| 0 <= k < v.len() implies differ_at(a, b, (#[trigger] v[k]).0)
        && differ_at(a, b, v[k].1 - 1) by {
        assert(run_holds(v[k], v[k].0));
        assert(run_holds(v[k], v[k].1 - 1));
    }
    list_is_stretches(v, a, b, n);
}

/// Equal images have no stretches, and one difference alone makes one stretch, that of its
/// block.
pub proof fn lone_difference_is_one_block(a: Seq<u8>, b: Seq<u8>, i: int)
    requires
        0 <= i < common_len(a, b),
        a[i] != b[i],
        forall|k: int| 0 <= k < common_len(a, b) && k != i ==> #[trigger] a[k] == #[trigger] b[k],
    ensures
        ({
            let n = common_len(a, b) as int;
            let m = block_list(runs(a, b, n), a, b, n);
            &&& m.len() == 1
            &&& m[0].start <= i < m[0].end
            &&& m[0].start % 4096 == 0
            &&& m[0].end == m[0].start + 4096 || m[0].end == n < m[0].start + 4096
            &&& m[0].parts.len() == 1
            &&& m[0].parts[0].differing == differing_in(a, b, m[0].start, m[0].end) as usize
            &&& m[0].parts[0].length == (m[0].end - m[0].start) as usize
            &&& m[0].parts[0].weight == (m[0].end - m[0].start) as usize
            &&& blocks_differ(runs(a, b, n), a, b, n) == differing_in(a, b, m[0].start, m[0].end)
        }),
{
    let n = common_len(a, b) as int;
    lone_run(a, b, i, n);
    let v = runs(a, b, n);
    assert(v.drop_last() =~= Seq::empty());
    assert(v.last() == (i, i + 1));
    reveal_with_fuel(block_list, 2);
    reveal_with_fuel(blocks_differ, 2);
}

proof fn lone_run(a: Seq<u8>, b: Seq<u8>, i: int, n: int)
    requires
        0 <= i,
        forall|k: int| 0 <= k < n && k != i ==> #[trigger] a[k] == #[trigger] b[k],
        a[i] != b[i],
    ensures
        n <= i ==> runs(a, b, n) == Seq::<(int, int)>::empty(),
        i < n ==> runs(a, b, n) == seq![(i, i + 1)],
    decreases n,
{
    if n > 0 {
        lone_run(a, b, i, n - 1);
        if n - 1 != i {
            assert(a[n - 1] == b[n - 1]);
        } else {
            assert(runs(a, b, n) =~= seq![(i, i + 1)]);
        }
    }
}

proof fn small_is_plain(n: nat)
    requires
        n < 1000,
    ensures
        0 < dec(n).len() <= 3,
        forall|i: int| 0 <= i < dec(n).len() ==> #[trigger] dec(n)[i] != ',',
{
    reveal_with_fuel(dec, 4);
    if n >= 10 {
        assert(n / 10 / 10 < 10);
    }
}

proof fn three_digits(n: nat)
    requires
        n >= 1000,
    ensures
        dec(n) == dec(n / 1000) + seq![
            digit((n / 100) % 10, false),
            digit((n / 10) % 10, false),
            digit(n % 10, false),
        ],
{
    let u = seq![
        digit((n / 100) % 10, false),
        digit((n / 10) % 10, false),
        digit(n % 10, false),
    ];
    assert((n / 10) / 10 == n / 100 && (n / 100) / 10 == n / 1000);
    assert(dec(n) == dec(n / 10).push(digit(n % 10, false)));
    assert(dec(n / 10) == dec(n / 100).push(digit((n / 10) % 10, false)));
    assert(dec(n / 100) == dec(n / 1000).push(digit((n / 100) % 10, false)));
    assert(dec(n) =~= dec(n / 1000) + u);
}

proof fn grouped_digits(n: nat)
    ensures
        grouped(n).filter(|c: char| c != ',') == dec(n),
    decreases n,
{
    let p = |c: char| c != ',';
    if n < 1000 {
        small_is_plain(n);
        all_pass(grouped(n), p);
    } else {
        let h = grouped(n / 1000);
        grouped_digits(n / 1000);
        three_digits(n);
        let u = seq![
            digit((n / 100) % 10, false),
            digit((n / 10) % 10, false),
            digit(n % 10, false),
        ];
        assert(grouped(n) =~= (h + seq![',']) + u);
        Seq::filter_distributes_over_add(h + seq![','], u, p);
        Seq::filter_distributes_over_add(h, seq![','], p);
        all_pass(u, p);
        assert(seq![','].filter(p) =~= Seq::<char>::empty()) by {
            reveal_with_fuel(Seq::<char>::filter, 2);
            assert(seq![','].drop_last() =~= Seq::<char>::empty());
            assert(seq![','].last() == ',');
        }
        assert(h.filter(p) + Seq::<char>::empty() =~= h.filter(p));
    }
}

proof fn grouped_commas(n: nat)
    ensures
        grouped(n).len() > 0,
        grouped(n)[0] != ',',
        forall|k: int|
            0 <= k < grouped(n).len() ==> (#[trigger] grouped(n)[grouped(n).len() - 1 - k] == ','
                <==> k % 4 == 3),
    decreases n,
{
    let g = grouped(n);
    if n < 1000 {
        small_is_plain(n);
    } else {
        let h = grouped(n / 1000);
        grouped_commas(n / 1000);
        let t = seq![
            ',',
            digit((n / 100) % 10, false),
            digit((n / 10) % 10, false),
            digit(n % 10, false),
        ];
        assert(g == h + t);
        assert forall|k: int| 0 <= k < g.len() implies (#[trigger] g[g.len() - 1 - k] == ','
            <==> k % 4 == 3) by {
            if k >= 4 {
                assert(g[g.len() - 1 - k] == h[h.len() - 1 - (k - 4)]);
                assert(k % 4 == (k - 4) % 4);
            } else {
                assert(g[g.len() - 1 - k] == t[3 - k]);
            }
        }
        assert(g[0] == h[0]);
    }
}

proof fn all_pass(s: Seq<char>, p: spec_fn(char) -> bool)
    requires
        forall|i: int| 0 <= i < s.len() ==> p(#[trigger] s[i]),
    ensures
        s.filter(p) == s,
    decreases s.len(),
{
    reveal(Seq::filter);
    if s.len() > 0 {
        let t = s.drop_last();
        assert forall|i: int| 0 <= i < t.len() implies p(#[trigger] t[i]) by {
            assert(t[i] == s[i]);
        }
        all_pass(t, p);
        assert(p(s[s.len() - 1]));
        assert(t.push(s.last()) =~= s);
    }
}

/// A count in groups is the count in decimal with commas put in: without them it is that
/// number, and they stand before each third digit from the right, never in front.
pub proof fn commas_part_thousands(n: nat)
    ensures
        grouped(n).filter(|c: char| c != ',') == dec(n),
        forall|k: int|
            0 <= k < grouped(n).len() ==> (#[trigger] grouped(n)[grouped(n).len() - 1 - k] == ','
                <==> k % 4 == 3),
        grouped(n)[0] != ',',
{
    grouped_digits(n);
    grouped_commas(n);
}

/// Files that have a layout are compared by the regions of its first geometry: each comparison
/// that is told is that of a region there, type and place and all.
pub proof fn regions_come_from_first_layout(
    o: DiffOutput,
    a: Seq<u8>,
    b: Seq<u8>,
    m: Seq<LayoutModel>,
    i: int,
)
    requires
        compares(o, a, b),
        image_layout(a) == Some(m),
        m.len() > 0,
        o.regions matches Some(r) && 0 <= i < r@.len(),
    ensures
        exists|j: int|
            0 <= j < m[0].regions.len() && (#[trigger] m[0].regions[j]).region_type
                == o.regions->0@[i].region_type && m[0].regions[j].offset
                == o.regions->0@[i].offset && m[0].regions[j].size == o.regions->0@[i].size,
{
    let v = m[0].regions;
    let w = inner_regions(v, a, b);
    assert(region_compared(o.regions->0@[i], w[i], a, b));
    inner_is_listed(v, a, b, i);
}

proof fn inner_is_listed(v: Seq<FlashRegion>, a: Seq<u8>, b: Seq<u8>, i: int)
    requires
        0 <= i < inner_regions(v, a, b).len(),
    ensures
        exists|j: int| 0 <= j < v.len() && #[trigger] v[j] == inner_regions(v, a, b)[i],
    decreases v.len(),
{
    let u = v.drop_last();
    if i < inner_regions(u, a, b).len() {
        inner_is_listed(u, a, b, i);
        let j = choose|j: int| 0 <= j < u.len() && #[trigger] u[j] == inner_regions(u, a, b)[i];
        assert(v[j] == u[j]);
    } else {
        assert(v[v.len() - 1] == v.last());
    }
}

/// What is told of two files is what they are: their lengths, the number of positions at which
/// they differ as far as both go, and whether one of these lies in the zone that must not be
/// lost.
pub proof fn comparison_tells_what_is(o: DiffOutput, a: Seq<u8>, b: Seq<u8>)
    requires
        compares(o, a, b),
    ensures
        o.size_a == a.len(),
        o.size_b == b.len(),
        ({
            let n = if a.len() < b.len() {
                a.len()
            } else {
                b.len()
            };
            o.summary.total_bytes_differ == Seq::new(n, |i: int| i).filter(
                |i: int| a[i] != b[i],
            ).len()
        }),
        o.boot_critical_differs <==> exists|i: int|
            0x540000 <= i < 0x5A0000 && i < a.len() && i < b.len() && #[trigger] a[i]
                != #[trigger] b[i],
        o.layout_parsed <==> o.regions is Some,
        o.layout_parsed ==> o.blocks is None && o.summary.total_regions_or_zones
            == o.regions->0@.len(),
        !o.layout_parsed && o.blocks is None ==> o.summary.total_regions_or_zones == 0,
        !o.layout_parsed && o.blocks is Some ==> o.blocks->0@.len() > 0
            && o.summary.total_regions_or_zones == o.blocks->0@.len(),
{
    differing_counts_positions(a, b, common_len(a, b) as int);
    boot_zone_is_exact(a, b);
    if o.blocks is Some {
        assert(block_models(o.blocks->0@).len() == o.blocks->0@.len());
    }
}

} // verus!
