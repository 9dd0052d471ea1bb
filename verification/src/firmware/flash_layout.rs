//! The flash layout inside a firmware image.
//!
//! A firmware image ends in a chain of extended images; one of them describes
//! how the flash is divided, once for each size of flash chip that the firmware
//! supports. The boot loader picks the description that fits the chip.

use crate::bytes::{read_u16, read_u32, to_vec, u16_at, u32_at};
use crate::error::Error;
use crate::firmware::inspect::{FwError, MPI2_FW_HEADER_SIGNATURE};
use crate::text::{dec, push_dec, string_of, trim, trimmed};
use vstd::prelude::*;

verus! {

/// Region type of the firmware in use.
pub const REGION_FIRMWARE: u8 = 0x01;

/// Region type of the backup firmware.
pub const REGION_BACKUP: u8 = 0x05;

/// Type of the extended image that holds the flash layout.
pub const EXT_IMAGE_TYPE_FLASH_LAYOUT: u8 = 0x06;

/// Offset of the first link of the chain of extended images.
pub const FW_HDR_NEXT_IMAGE_OFFSET: usize = 0x30;

/// One region of the flash.
#[derive(Debug, Clone, Copy, PartialEq, Eq, Structural)]
pub struct FlashRegion {
    /// What the region holds.
    pub region_type: u8,
    /// Where it starts.
    pub offset: u32,
    /// How many bytes it has.
    pub size: u32,
}

/// The division of one size of flash chip.
#[derive(Debug, Clone, PartialEq, Eq)]
pub struct Layout {
    /// How many bytes the chip has.
    pub flash_size: u32,
    /// Its regions.
    pub regions: Vec<FlashRegion>,
}

/// What a layout stands for.
#[verifier::ext_equal]
pub struct LayoutModel {
    pub flash_size: u32,
    pub regions: Seq<FlashRegion>,
}

impl View for Layout {
    type V = LayoutModel;

    open spec fn view(&self) -> LayoutModel {
        LayoutModel { flash_size: self.flash_size, regions: self.regions@ }
    }
}

/// The layouts that a firmware image supports.
#[derive(Debug, Clone, PartialEq, Eq)]
pub struct FlashLayout {
    /// One per size of flash chip.
    pub layouts: Vec<Layout>,
}

impl View for FlashLayout {
    type V = Seq<LayoutModel>;

    open spec fn view(&self) -> Seq<LayoutModel> {
        models(self.layouts@)
    }
}

/// What a list of layouts stands for.
pub open spec fn models(v: Seq<Layout>) -> Seq<LayoutModel> {
    v.map_values(|l: Layout| l@)
}

/// The regions of all layouts, one after the other.
pub open spec fn all_regions(m: Seq<LayoutModel>) -> Seq<FlashRegion>
    decreases m.len(),
{
    if m.len() == 0 {
        Seq::empty()
    } else {
        all_regions(m.drop_last()) + m.last().regions
    }
}

/// The first region of a type.
pub open spec fn first_region(s: Seq<FlashRegion>, t: u8) -> Option<FlashRegion>
    decreases s.len(),
{
    if s.len() == 0 {
        None
    } else {
        match first_region(s.drop_last(), t) {
            Some(f) => Some(f),
            None => if s.last().region_type == t {
                Some(s.last())
            } else {
                None
            },
        }
    }
}

/// Of several regions of a type the first one in the table counts.
pub proof fn first_region_is_first(s: Seq<FlashRegion>, t: u8, k: int)
    requires
        0 <= k < s.len(),
        s[k].region_type == t,
        forall|j: int| 0 <= j < k ==> (#[trigger] s[j]).region_type != t,
    ensures
        first_region(s, t) == Some(s[k]),
{
    no_region_no_first(s.take(k), t);
    assert(s.take(k + 1).drop_last() =~= s.take(k));
    first_region_extends(s.take(k + 1), s.skip(k + 1), t);
    assert(s.take(k + 1) + s.skip(k + 1) =~= s);
}

/// Where no region is of a type, none is found.
pub proof fn no_region_no_first(s: Seq<FlashRegion>, t: u8)
    requires
        forall|j: int| 0 <= j < s.len() ==> (#[trigger] s[j]).region_type != t,
    ensures
        first_region(s, t) is None,
    decreases s.len(),
{
    if s.len() > 0 {
        no_region_no_first(s.drop_last(), t);
        assert(s[s.len() - 1].region_type != t);
    }
}

proof fn first_region_extends(a: Seq<FlashRegion>, b: Seq<FlashRegion>, t: u8)
    requires
        first_region(a, t) is Some,
    ensures
        first_region(a + b, t) == first_region(a, t),
    decreases b.len(),
{
    if b.len() == 0 {
        assert(a + b =~= a);
    } else {
        first_region_extends(a, b.drop_last(), t);
        assert((a + b).drop_last() =~= a + b.drop_last());
    }
}

proof fn all_regions_split(m: Seq<LayoutModel>, k: int) -> (rest: Seq<FlashRegion>)
    requires
        0 <= k < m.len(),
    ensures
        all_regions(m) == all_regions(m.take(k)) + m[k].regions + rest,
    decreases m.len(),
{
    if k == m.len() - 1 {
        assert(m.take(k) =~= m.drop_last());
        assert(all_regions(m) =~= all_regions(m.take(k)) + m[k].regions + Seq::<
            FlashRegion,
        >::empty());
        Seq::empty()
    } else {
        let inner = all_regions_split(m.drop_last(), k);
        assert(m.drop_last().take(k) =~= m.take(k));
        let rest = inner + m.last().regions;
        assert(all_regions(m) =~= all_regions(m.take(k)) + m[k].regions + rest);
        rest
    }
}

/// Sizes in strictly ascending order.
pub open spec fn ascending(s: Seq<u32>) -> bool {
    forall|i: int, j: int| 0 <= i < j < s.len() ==> s[i] < s[j]
}

/// Whether some region of type `t` has the size `size`.
pub open spec fn has_size(s: Seq<FlashRegion>, t: u8, size: u32) -> bool {
    exists|i: int| 0 <= i < s.len() && (#[trigger] s[i]).region_type == t && s[i].size == size
}

/// Whether `sizes` lists the sizes that the firmware region has in `m`.
pub open spec fn lists_sizes(m: Seq<LayoutModel>, sizes: Seq<u32>) -> bool {
    &&& ascending(sizes)
    &&& forall|x: u32| #[trigger]
        sizes.contains(x) <==> has_size(all_regions(m), REGION_FIRMWARE, x)
}

/// The different sizes that the firmware region has in `m`, in ascending order.
pub open spec fn firmware_sizes(m: Seq<LayoutModel>) -> Seq<u32> {
    choose|s: Seq<u32>| lists_sizes(m, s)
}

proof fn ascending_unique(a: Seq<u32>, b: Seq<u32>)
    requires
        ascending(a),
        ascending(b),
        forall|x: u32| #[trigger] a.contains(x) <==> b.contains(x),
    ensures
        a == b,
    decreases a.len(),
{
    if a.len() == 0 {
        if b.len() > 0 {
            assert(b.contains(b[0]));
            assert(a.contains(b[0]));
        }
        assert(a =~= b);
    } else {
        assert(a.contains(a.last()));
        assert(b.contains(a.last()));
        assert(b.contains(b.last()));
        assert(a.contains(b.last()));
        assert(a.last() == b.last());
        let c = a.drop_last();
        let d = b.drop_last();
        assert forall|x: u32| #[trigger] c.contains(x) <==> d.contains(x) by {
            if c.contains(x) {
                let k = choose|k: int| 0 <= k < c.len() && c[k] == x;
                assert(a[k] == x);
                assert(a.contains(x));
                let l = choose|l: int| 0 <= l < b.len() && b[l] == x;
                assert(l < b.len() - 1);
                assert(d[l] == x);
            }
            if d.contains(x) {
                let k = choose|k: int| 0 <= k < d.len() && d[k] == x;
                assert(b[k] == x);
                assert(b.contains(x));
                assert(a.contains(x));
                let l = choose|l: int| 0 <= l < a.len() && a[l] == x;
                assert(l < a.len() - 1);
                assert(c[l] == x);
            }
        }
        ascending_unique(c, d);
        assert(a =~= c.push(a.last()));
        assert(b =~= d.push(b.last()));
    }
}

proof fn insert_sorted(s: Seq<u32>, x: u32) -> (t: Seq<u32>)
    requires
        ascending(s),
    ensures
        ascending(t),
        forall|y: u32| #[trigger] t.contains(y) <==> s.contains(y) || y == x,
    decreases s.len(),
{
    if s.len() == 0 || s.last() < x {
        let t = s.push(x);
        assert(t[s.len() as int] == x);
        assert forall|y: u32| #[trigger] t.contains(y) <==> s.contains(y) || y == x by {
            if s.contains(y) {
                let k = choose|k: int| 0 <= k < s.len() && s[k] == y;
                assert(t[k] == y);
            }
        }
        t
    } else if s.last() == x {
        assert(s[s.len() - 1] == x);
        s
    } else {
        let u = insert_sorted(s.drop_last(), x);
        let t = u.push(s.last());
        assert forall|i: int| 0 <= i < u.len() implies u[i] < s.last() by {
            assert(u.contains(u[i]));
        }
        assert forall|y: u32| #[trigger] t.contains(y) <==> s.contains(y) || y == x by {
            assert(u.contains(y) <==> s.drop_last().contains(y) || y == x);
            if s.contains(y) {
                let k = choose|k: int| 0 <= k < s.len() && s[k] == y;
                if k < s.len() - 1 {
                    assert(s.drop_last()[k] == y);
                    let l = choose|l: int| 0 <= l < u.len() && u[l] == y;
                    assert(t[l] == y);
                } else {
                    assert(t[u.len() as int] == y);
                }
            }
            if y == x {
                let l = choose|l: int| 0 <= l < u.len() && u[l] == y;
                assert(t[l] == y);
            }
            if t.contains(y) {
                let l = choose|l: int| 0 <= l < t.len() && t[l] == y;
                if l < u.len() {
                    assert(u[l] == y);
                    if y != x {
                        let k = choose|k: int|
                            0 <= k < s.drop_last().len() && s.drop_last()[k] == y;
                        assert(s[k] == y);
                    }
                } else {
                    assert(s[s.len() - 1] == y);
                }
            }
        }
        t
    }
}

proof fn sizes_of_regions(f: Seq<FlashRegion>) -> (s: Seq<u32>)
    ensures
        ascending(s),
        forall|x: u32| #[trigger] s.contains(x) <==> has_size(f, REGION_FIRMWARE, x),
    decreases f.len(),
{
    if f.len() == 0 {
        Seq::empty()
    } else {
        let g = f.drop_last();
        let s = sizes_of_regions(g);
        let t = if f.last().region_type == REGION_FIRMWARE {
            insert_sorted(s, f.last().size)
        } else {
            s
        };
        assert forall|x: u32| #[trigger] t.contains(x) <==> has_size(f, REGION_FIRMWARE, x) by {
            assert(s.contains(x) <==> has_size(g, REGION_FIRMWARE, x));
            if has_size(g, REGION_FIRMWARE, x) {
                let k = choose|k: int|
                    0 <= k < g.len() && (#[trigger] g[k]).region_type == REGION_FIRMWARE
                        && g[k].size == x;
                assert(f[k] == g[k]);
            }
            if f.last().region_type == REGION_FIRMWARE && f.last().size == x {
                assert(f[f.len() - 1].size == x);
            }
            if has_size(f, REGION_FIRMWARE, x) {
                let k = choose|k: int|
                    0 <= k < f.len() && (#[trigger] f[k]).region_type == REGION_FIRMWARE
                        && f[k].size == x;
                if k < g.len() {
                    assert(g[k] == f[k]);
                }
            }
        }
        t
    }
}

/// `firmware_sizes` lists what it promises.
pub proof fn firmware_sizes_listed(m: Seq<LayoutModel>)
    ensures
        lists_sizes(m, firmware_sizes(m)),
{
    let s = sizes_of_regions(all_regions(m));
    assert(lists_sizes(m, s));
}

fn insert_size(v: &mut Vec<u32>, size: u32)
    requires
        ascending(old(v)@),
    ensures
        ascending(final(v)@),
        forall|x: u32| #[trigger] final(v)@.contains(x) <==> old(v)@.contains(x) || x == size,
{
    let mut i: usize = 0;
    while i < v.len() && v[i] < size
        invariant
            i <= v@.len(),
            forall|k: int| 0 <= k < i ==> v@[k] < size,
        decreases v@.len() - i,
    {
        i += 1;
    }
    if i < v.len() && v[i] == size {
        assert(v@[i as int] == size);
        return;
    }
    let ghost before = v@;
    v.insert(i, size);
    proof {
        assert(v@ =~= before.insert(i as int, size));
        assert forall|x: u32| #[trigger] v@.contains(x) <==> before.contains(x) || x == size by {
            if before.contains(x) {
                let k = choose|k: int| 0 <= k < before.len() && before[k] == x;
                if k < i {
                    assert(v@[k] == x);
                } else {
                    assert(v@[k + 1] == x);
                }
            }
            if x == size {
                assert(v@[i as int] == x);
            }
            if v@.contains(x) && x != size {
                let k = choose|k: int| 0 <= k < v@.len() && v@[k] == x;
                if k < i {
                    assert(before[k] == x);
                } else {
                    assert(before[k - 1] == x);
                }
            }
        }
    }
}

impl FlashLayout {
    /// The different sizes that the firmware region has, in ascending order.
    pub fn firmware_region_sizes(&self) -> (r: Vec<u32>)
        ensures
            r@ == firmware_sizes(self@),
            lists_sizes(self@, r@),
    {
        let mut v: Vec<u32> = Vec::new();
        let mut i: usize = 0;
        assert(self@.take(0) =~= Seq::empty());
        while i < self.layouts.len()
            invariant
                i <= self.layouts@.len(),
                self@.len() == self.layouts@.len(),
                ascending(v@),
                forall|x: u32| #[trigger]
                    v@.contains(x) <==> has_size(
                        all_regions(self@.take(i as int)),
                        REGION_FIRMWARE,
                        x,
                    ),
            decreases self.layouts@.len() - i,
        {
            let l = &self.layouts[i];
            let ghost done = all_regions(self@.take(i as int));
            assert(self@[i as int].regions == l.regions@);
            let mut j: usize = 0;
            assert(done + l.regions@.take(0) =~= done);
            while j < l.regions.len()
                invariant
                    j <= l.regions@.len(),
                    ascending(v@),
                    forall|x: u32| #[trigger]
                        v@.contains(x) <==> has_size(
                            done + l.regions@.take(j as int),
                            REGION_FIRMWARE,
                            x,
                        ),
                decreases l.regions@.len() - j,
            {
                let ghost seen = done + l.regions@.take(j as int);
                let ghost more = done + l.regions@.take(j + 1);
                let f = l.regions[j];
                assert(more =~= seen.push(f));
                let ghost before = v@;
                if f.region_type == REGION_FIRMWARE {
                    insert_size(&mut v, f.size);
                }
                proof {
                    assert forall|x: u32| #[trigger]
                        v@.contains(x) <==> has_size(more, REGION_FIRMWARE, x) by {
                        assert(before.contains(x) <==> has_size(seen, REGION_FIRMWARE, x));
                        if has_size(seen, REGION_FIRMWARE, x) {
                            let k = choose|k: int|
                                0 <= k < seen.len() && (#[trigger] seen[k]).region_type
                                    == REGION_FIRMWARE && seen[k].size == x;
                            assert(more[k] == seen[k]);
                        }
                        if f.region_type == REGION_FIRMWARE && f.size == x {
                            assert(more[seen.len() as int] == f);
                        }
                        if has_size(more, REGION_FIRMWARE, x) {
                            let k = choose|k: int|
                                0 <= k < more.len() && (#[trigger] more[k]).region_type
                                    == REGION_FIRMWARE && more[k].size == x;
                            if k < seen.len() {
                                assert(seen[k] == more[k]);
                            }
                        }
                    }
                }
                j += 1;
            }
            assert(l.regions@.take(j as int) =~= l.regions@);
            assert(self@.take(i + 1).drop_last() =~= self@.take(i as int));
            i += 1;
        }
        assert(self@.take(i as int) =~= self@);
        proof {
            assert(lists_sizes(self@, v@));
            ascending_unique(v@, firmware_sizes(self@));
        }
        v
    }

    /// Offset and size of the first region of a type, over all layouts.
    pub fn region_span(&self, region_type: u8) -> (r: Option<(u32, u32)>)
        ensures
            r == match first_region(all_regions(self@), region_type) {
                Some(f) => Some((f.offset, f.size)),
                None => None::<(u32, u32)>,
            },
    {
        let mut i: usize = 0;
        assert(self@.take(0) =~= Seq::empty());
        while i < self.layouts.len()
            invariant
                i <= self.layouts@.len(),
                self@.len() == self.layouts@.len(),
                first_region(all_regions(self@.take(i as int)), region_type) is None,
            decreases self.layouts@.len() - i,
        {
            let l = &self.layouts[i];
            let ghost done = all_regions(self@.take(i as int));
            assert(self@[i as int].regions == l.regions@);
            let mut j: usize = 0;
            assert(done + l.regions@.take(0) =~= done);
            while j < l.regions.len()
                invariant
                    i < self.layouts@.len(),
                    self@.len() == self.layouts@.len(),
                    self@[i as int].regions == l.regions@,
                    done == all_regions(self@.take(i as int)),
                    j <= l.regions@.len(),
                    first_region(done + l.regions@.take(j as int), region_type) is None,
                decreases l.regions@.len() - j,
            {
                let ghost seen = done + l.regions@.take(j as int);
                let ghost more = done + l.regions@.take(j + 1);
                let f = l.regions[j];
                assert(more.drop_last() =~= seen);
                assert(more.last() == f);
                if f.region_type == region_type {
                    proof {
                        let rest = all_regions_split(self@, i as int);
                        let tail = l.regions@.skip(j + 1) + rest;
                        assert(all_regions(self@) =~= more + tail);
                        first_region_extends(more, tail, region_type);
                    }
                    return Some((f.offset, f.size));
                }
                j += 1;
            }
            assert(l.regions@.take(j as int) =~= l.regions@);
            assert(self@.take(i + 1).drop_last() =~= self@.take(i as int));
            i += 1;
        }
        assert(self@.take(i as int) =~= self@);
        None
    }
}

// ------------------------------------------- the chain of extended images

/// The `k`-th link of the chain of extended images.
pub open spec fn chain(b: Seq<u8>, k: nat) -> int
    decreases k,
{
    if k == 0 {
        u32_at(b, 0x30) as int
    } else {
        u32_at(b, chain(b, (k - 1) as nat) + 0x0C) as int
    }
}

/// Whether a link leads to a place with room for an extended image header.
pub open spec fn valid_link(b: Seq<u8>, off: int) -> bool {
    off != 0 && off + 0x10 <= b.len()
}

/// Whether the chain goes on after its first `k` links: each leads to a header
/// that is no flash layout and names another link.
pub open spec fn passes(b: Seq<u8>, k: nat) -> bool {
    forall|i: nat|
        i < k ==> {
            let here = #[trigger] chain(b, i);
            let next = chain(b, i + 1);
            valid_link(b, here) && b[here] != EXT_IMAGE_TYPE_FLASH_LAYOUT && next != 0 && next
                != here
        }
}

/// Whether the `k`-th link leads to the flash layout.
pub open spec fn layout_link(b: Seq<u8>, k: nat) -> bool {
    &&& passes(b, k)
    &&& valid_link(b, chain(b, k))
    &&& b[chain(b, k)] == EXT_IMAGE_TYPE_FLASH_LAYOUT
}

/// Where the extended image with the flash layout starts. A chain that runs in
/// a circle has no end and leads nowhere.
pub open spec fn layout_base(b: Seq<u8>) -> Option<int> {
    if exists|k: nat| layout_link(b, k) {
        Some(chain(b, choose|k: nat| layout_link(b, k)))
    } else {
        None
    }
}

proof fn layout_link_unique(b: Seq<u8>, j: nat, k: nat)
    requires
        layout_link(b, j),
        layout_link(b, k),
    ensures
        j == k,
{
    if j < k {
        assert(b[chain(b, j)] != EXT_IMAGE_TYPE_FLASH_LAYOUT);
    }
    if k < j {
        assert(b[chain(b, k)] != EXT_IMAGE_TYPE_FLASH_LAYOUT);
    }
}

proof fn chain_repeats(b: Seq<u8>, i: nat, j: nat, t: nat)
    requires
        chain(b, i) == chain(b, j),
    ensures
        chain(b, i + t) == chain(b, j + t),
    decreases t,
{
    if t > 0 {
        chain_repeats(b, i, j, (t - 1) as nat);
        assert((i + t) - 1 == i + (t - 1));
        assert((j + t) - 1 == j + (t - 1));
    }
}

proof fn chain_stays(b: Seq<u8>, i: nat, j: nat, m: nat) -> (k: nat)
    requires
        i < j,
        chain(b, i) == chain(b, j),
    ensures
        k < j,
        chain(b, k) == chain(b, m),
    decreases m,
{
    if m < j {
        m
    } else {
        let back = (m - (j - i)) as nat;
        chain_repeats(b, i, j, (back - i) as nat);
        assert(i + (back - i) as nat == back);
        assert(j + (back - i) as nat == m);
        chain_stays(b, i, j, back)
    }
}

/// A chain that has passed more links than the image has bytes runs in a
/// circle, so it never leads to a flash layout.
proof fn long_chain_is_circular(b: Seq<u8>, n: nat)
    requires
        passes(b, n),
        n >= b.len(),
        b.len() >= 1,
    ensures
        forall|m: nat| !layout_link(b, m),
{
    let s = Seq::new(n, |i: int| chain(b, i as nat));
    if s.no_duplicates() {
        s.unique_seq_to_set();
        let range = vstd::set_lib::set_int_range(1, b.len() as int);
        vstd::set_lib::lemma_int_range(1, b.len() as int);
        assert forall|x: int| s.to_set().contains(x) implies range.contains(x) by {
            let i = choose|i: int| 0 <= i < s.len() && s[i] == x;
            assert(chain(b, i as nat) == x);
        }
        vstd::set_lib::lemma_len_subset(s.to_set(), range);
        assert(false);
    }
    let (i, j) = choose|i: int, j: int|
        0 <= i < s.len() && 0 <= j < s.len() && i != j && s[i] == s[j];
    let lo = if i < j { i as nat } else { j as nat };
    let hi = if i < j { j as nat } else { i as nat };
    assert(chain(b, lo) == chain(b, hi));
    assert forall|m: nat| !layout_link(b, m) by {
        if layout_link(b, m) {
            let k = chain_stays(b, lo, hi, m);
            assert(b[chain(b, k)] != EXT_IMAGE_TYPE_FLASH_LAYOUT);
        }
    }
}

fn find_layout_image(data: &[u8]) -> (r: Option<usize>)
    requires
        data@.len() >= 0x40,
    ensures
        match r {
            Some(base) => layout_base(data@) == Some(base as int) && base + 0x10 <= data@.len(),
            None => layout_base(data@) is None,
        },
{
    let len: usize = data.len();
    let mut off: usize = read_u32(data, FW_HDR_NEXT_IMAGE_OFFSET) as usize;
    let mut k: usize = 0;
    while k < len
        invariant
            k <= len,
            len == data@.len(),
            len >= 0x40,
            off == chain(data@, k as nat),
            passes(data@, k as nat),
        decreases len - k,
    {
        if off == 0 || off > len || len - off < 0x10 {
            proof {
                assert forall|m: nat| !layout_link(data@, m) by {
                    if layout_link(data@, m) {
                        if m > k {
                            assert(valid_link(data@, chain(data@, k as nat)));
                        } else if m < k {
                            assert(data@[chain(data@, m)] != EXT_IMAGE_TYPE_FLASH_LAYOUT);
                        }
                    }
                }
            }
            return None;
        }
        if data[off] == EXT_IMAGE_TYPE_FLASH_LAYOUT {
            proof {
                assert(layout_link(data@, k as nat));
                layout_link_unique(data@, k as nat, choose|m: nat| layout_link(data@, m));
            }
            return Some(off);
        }
        let next: usize = read_u32(data, off + 0x0C) as usize;
        assert(next == chain(data@, (k + 1) as nat));
        if next == 0 || next == off {
            proof {
                assert forall|m: nat| !layout_link(data@, m) by {
                    if layout_link(data@, m) {
                        if m > k {
                            let here = chain(data@, k as nat);
                            assert(chain(data@, k as nat + 1) != here);
                        } else if m < k {
                            assert(data@[chain(data@, m)] != EXT_IMAGE_TYPE_FLASH_LAYOUT);
                        }
                    }
                }
            }
            return None;
        }
        off = next;
        k += 1;
    }
    proof {
        long_chain_is_circular(data@, k as nat);
    }
    None
}

// -------------------------------------------------------- the layout table

/// Whether a number of layouts or regions is plausible.
pub open spec fn plausible(n: u16) -> bool {
    1 <= n <= 16
}

/// Whether a layout table starts at `c`: entries of 16 bytes, with plausible
/// numbers of layouts and of regions per layout.
pub open spec fn table_at(b: Seq<u8>, c: int) -> bool {
    &&& b[c + 2] == 0x10
    &&& b[c] == 0
    &&& plausible(u16_at(b, c + 4))
    &&& plausible(u16_at(b, c + 6))
}

/// The first layout table that starts at or after `c` and before `end`.
pub open spec fn first_table(b: Seq<u8>, c: int, end: int) -> Option<int>
    decreases end - c,
{
    if c >= end {
        None
    } else if table_at(b, c) {
        Some(c)
    } else {
        first_table(b, c + 1, end)
    }
}

/// Where the search for the table in an extended image ends: 0x40 bytes into
/// the image, and 0x20 before the end of the data.
pub open spec fn search_end(b: Seq<u8>, payload: int) -> int {
    let limit = if b.len() < 0x20 {
        0
    } else {
        b.len() - 0x20
    };
    if payload + 0x40 < limit {
        payload + 0x40
    } else {
        limit
    }
}

/// Where the layout table starts.
pub open spec fn layout_table(b: Seq<u8>) -> Option<int> {
    match layout_base(b) {
        None => None,
        Some(base) => first_table(b, base + 0x10, search_end(b, base + 0x10)),
    }
}

/// The number of layouts of the table at `d`.
pub open spec fn layout_count(b: Seq<u8>, d: int) -> int {
    u16_at(b, d + 4) as int
}

/// The number of regions per layout of the table at `d`.
pub open spec fn region_count(b: Seq<u8>, d: int) -> int {
    u16_at(b, d + 6) as int
}

/// The size of one layout of the table at `d`.
pub open spec fn layout_size(b: Seq<u8>, d: int) -> int {
    0x10 + 0x10 * region_count(b, d)
}

/// How many layouts of the table at `d` lie wholly inside the data.
pub open spec fn complete_layouts(b: Seq<u8>, d: int) -> int {
    let fit = (b.len() - d - 0x10) / layout_size(b, d);
    if fit < layout_count(b, d) {
        fit
    } else {
        layout_count(b, d)
    }
}

/// Where the `li`-th layout of the table at `d` starts.
pub open spec fn layout_start(b: Seq<u8>, d: int, li: int) -> int {
    d + 0x10 + li * layout_size(b, d)
}

/// The `ri`-th region of a layout that starts at `lp`.
pub open spec fn region_at(b: Seq<u8>, lp: int, ri: int) -> FlashRegion {
    let ro = lp + 0x10 + 0x10 * ri;
    FlashRegion { region_type: b[ro], offset: u32_at(b, ro + 4), size: u32_at(b, ro + 8) }
}

/// The `li`-th layout of the table at `d`.
pub open spec fn layout_at(b: Seq<u8>, d: int, li: int) -> LayoutModel {
    let lp = layout_start(b, d, li);
    LayoutModel {
        flash_size: u32_at(b, lp),
        regions: Seq::new(region_count(b, d) as nat, |ri: int| region_at(b, lp, ri)),
    }
}

/// The flash layout of an image; none where it has no layout that is complete.
pub open spec fn parsed_layout(b: Seq<u8>) -> Option<Seq<LayoutModel>> {
    match layout_table(b) {
        None => None,
        Some(d) => if complete_layouts(b, d) <= 0 {
            None
        } else {
            Some(Seq::new(complete_layouts(b, d) as nat, |li: int| layout_at(b, d, li)))
        },
    }
}

/// Whether an image can be searched for a flash layout.
pub open spec fn layout_searchable(b: Seq<u8>) -> bool {
    b.len() >= 0x40 && u32_at(b, 0) == MPI2_FW_HEADER_SIGNATURE
}

/// The flash layout of an image, with the signature looked at.
pub open spec fn image_layout(b: Seq<u8>) -> Option<Seq<LayoutModel>> {
    if layout_searchable(b) {
        parsed_layout(b)
    } else {
        None
    }
}

fn plausible_count(n: u16) -> (r: bool)
    ensures
        r == plausible(n),
{
    1 <= n && n <= 16
}

fn find_table(data: &[u8], payload: usize) -> (r: Option<usize>)
    requires
        payload <= data@.len(),
    ensures
        match first_table(data@, payload as int, search_end(data@, payload as int)) {
            Some(d) => r == Some(d as usize) && payload <= d && d + 0x20 < data@.len() && table_at(
                data@,
                d,
            ),
            None => r is None,
        },
{
    let len: usize = data.len();
    let limit: usize = if len < 0x20 { 0 } else { len - 0x20 };
    let end: usize = if payload < limit && limit - payload > 0x40 { payload + 0x40 } else { limit };
    let mut c: usize = payload;
    assert(end == search_end(data@, payload as int) || payload >= limit);
    while c < end
        invariant
            payload <= c,
            len == data@.len(),
            end == search_end(data@, payload as int) || payload >= limit,
            end <= limit,
            limit == if len < 0x20 {
                0
            } else {
                len - 0x20
            },
            first_table(data@, payload as int, end as int) == first_table(
                data@,
                c as int,
                end as int,
            ),
        decreases end - c,
    {
        if data[c + 2] == 0x10 && data[c] == 0 && plausible_count(read_u16(data, c + 4))
            && plausible_count(read_u16(data, c + 6)) {
            return Some(c);
        }
        c += 1;
    }
    None
}

fn read_layout(data: &[u8], lp: usize, regions: usize) -> (r: Layout)
    requires
        lp + 0x10 + 0x10 * regions <= data@.len(),
        regions <= 16,
    ensures
        r.flash_size == u32_at(data@, lp as int),
        r.regions@ == Seq::new(regions as nat, |ri: int| region_at(data@, lp as int, ri)),
{
    let len: usize = data.len();
    let mut v: Vec<FlashRegion> = Vec::new();
    let mut ri: usize = 0;
    while ri < regions
        invariant
            ri <= regions <= 16,
            len == data@.len(),
            lp + 0x10 + 0x10 * regions <= len,
            v@ == Seq::new(ri as nat, |k: int| region_at(data@, lp as int, k)),
        decreases regions - ri,
    {
        let ro: usize = lp + 0x10 + 0x10 * ri;
        v.push(
            FlashRegion {
                region_type: data[ro],
                offset: read_u32(data, ro + 4),
                size: read_u32(data, ro + 8),
            },
        );
        ri += 1;
        assert(v@ =~= Seq::new(ri as nat, |k: int| region_at(data@, lp as int, k)));
    }
    Layout { flash_size: read_u32(data, lp), regions: v }
}

/// Reads the flash layout of a firmware image.
pub fn parse_flash_layout(data: &[u8]) -> (r: Result<FlashLayout, FwError>)
    ensures
        !layout_searchable(data@) ==> r == Err::<FlashLayout, FwError>(
            FwError::TooShort(data@.len() as usize),
        ),
        layout_searchable(data@) ==> match parsed_layout(data@) {
            None => r == Err::<FlashLayout, FwError>(FwError::NoFlashLayout),
            Some(m) => r matches Ok(v) && v@ == m,
        },
{
    if data.len() < 0x40 || read_u32(data, 0) != MPI2_FW_HEADER_SIGNATURE {
        return Err(FwError::TooShort(data.len()));
    }
    let base: usize = match find_layout_image(data) {
        Some(b) => b,
        None => {
            return Err(FwError::NoFlashLayout);
        },
    };
    let d: usize = match find_table(data, base + 0x10) {
        Some(d) => d,
        None => {
            return Err(FwError::NoFlashLayout);
        },
    };
    let count: usize = read_u16(data, d + 4) as usize;
    let regions: usize = read_u16(data, d + 6) as usize;
    let size: usize = 0x10 + 0x10 * regions;
    let len: usize = data.len();
    let room: usize = len - d - 0x10;
    let fit: usize = room / size;
    let n: usize = if fit < count { fit } else { count };
    assert(n == complete_layouts(data@, d as int));
    let mut layouts: Vec<Layout> = Vec::new();
    let mut li: usize = 0;
    while li < n
        invariant
            li <= n <= fit,
            n <= 16,
            regions == region_count(data@, d as int),
            regions <= 16,
            size == layout_size(data@, d as int),
            len == data@.len(),
            d + 0x10 <= len,
            room == len - d - 0x10,
            fit == room / size,
            models(layouts@) == Seq::new(li as nat, |k: int| layout_at(data@, d as int, k)),
        decreases n - li,
    {
        assert((li + 1) * size <= room) by (nonlinear_arith)
            requires
                li < fit,
                fit == room / size,
                size > 0,
        ;
        assert(li * size + size == (li + 1) * size) by (nonlinear_arith);
        let lp: usize = d + 0x10 + li * size;
        let layout = read_layout(data, lp, regions);
        assert(layout@ =~= layout_at(data@, d as int, li as int));
        let ghost before = layouts@;
        layouts.push(layout);
        li += 1;
        assert(models(layouts@) =~= models(before).push(layout_at(data@, d as int, li - 1)));
        assert(models(layouts@) =~= Seq::new(li as nat, |k: int| layout_at(data@, d as int, k)));
    }
    if layouts.len() == 0 {
        assert(models(layouts@).len() == 0);
        return Err(FwError::NoFlashLayout);
    }
    assert(models(layouts@).len() == layouts@.len());
    Ok(FlashLayout { layouts })
}

// ------------------------------------------------------------- both banks

/// The two firmware versions of a flash image.
#[derive(Debug, Clone, PartialEq, Eq)]
pub struct FlashConsistency {
    /// Version in the firmware region.
    pub firmware_version: String,
    /// Version in the backup region.
    pub backup_version: String,
    /// Whether the two are the same.
    pub consistent: bool,
}

/// The characters before the first byte that is zero or not ASCII.
pub open spec fn ascii_prefix(b: Seq<u8>) -> Seq<char>
    decreases b.len(),
{
    if b.len() == 0 || b[0] == 0 || b[0] >= 128 {
        Seq::empty()
    } else {
        seq![b[0] as char] + ascii_prefix(b.skip(1))
    }
}

/// The version of the firmware in the region at `offset`: up to 24 characters
/// from 0x68 on, without white space at the ends.
pub open spec fn version_at(b: Seq<u8>, offset: int) -> Seq<char> {
    trim(ascii_prefix(b.subrange(offset + 0x68, offset + 0x80)))
}

fn extract_version(flash: &[u8], region_offset: usize) -> (r: String)
    requires
        region_offset + 0x80 <= flash@.len(),
    ensures
        r@ == version_at(flash@, region_offset as int),
{
    let len: usize = flash.len();
    let field = &flash[region_offset + 0x68..region_offset + 0x80];
    let mut cs: Vec<char> = Vec::new();
    let mut i: usize = 0;
    assert(field@.skip(0) =~= field@);
    while i < field.len() && field[i] != 0 && field[i] < 128
        invariant
            i <= field@.len(),
            ascii_prefix(field@) == cs@ + ascii_prefix(field@.skip(i as int)),
        decreases field@.len() - i,
    {
        let ghost rest = field@.skip(i as int);
        let ghost before = cs@;
        cs.push(field[i] as char);
        assert(rest.skip(1) =~= field@.skip(i + 1));
        assert(before + (seq![rest[0] as char] + ascii_prefix(rest.skip(1))) =~= cs@ + ascii_prefix(
            rest.skip(1),
        ));
        i += 1;
    }
    assert(ascii_prefix(field@) =~= cs@);
    string_of(trimmed(cs.as_slice()))
}

/// Whether a region table starts at `c`. Unlike in `table_at`, the first byte
/// does not count.
pub open spec fn region_table_at(b: Seq<u8>, c: int) -> bool {
    b[c + 2] == 0x10 && plausible(u16_at(b, c + 4)) && plausible(u16_at(b, c + 6))
}

/// The first region table that starts at or after `c` and before `end`.
pub open spec fn first_region_table(b: Seq<u8>, c: int, end: int) -> Option<int>
    decreases end - c,
{
    if c >= end {
        None
    } else if region_table_at(b, c) {
        Some(c)
    } else {
        first_region_table(b, c + 1, end)
    }
}

/// Where the region table of a flash image starts. The search begins at 0x300.
pub open spec fn region_table(b: Seq<u8>) -> Option<int> {
    first_region_table(b, 0x300, b.len() - 8)
}

/// The offset of the region at `ro` if it is of type `t` and inside the data.
pub open spec fn entry_offset(b: Seq<u8>, ro: int, t: u8) -> Option<u32> {
    if ro + 12 <= b.len() && b[ro] == t {
        Some(u32_at(b, ro + 4))
    } else {
        None
    }
}

/// The offset of the first region of type `t` in the first `li` layouts of the
/// table at `d` and the first `ri` regions of the next one.
pub open spec fn first_offset(b: Seq<u8>, d: int, t: u8, li: nat, ri: nat) -> Option<u32>
    decreases li, ri,
{
    if ri > 0 {
        match first_offset(b, d, t, li, (ri - 1) as nat) {
            Some(o) => Some(o),
            None => entry_offset(b, layout_start(b, d, li as int) + 0x10 + 0x10 * (ri - 1), t),
        }
    } else if li > 0 {
        first_offset(b, d, t, (li - 1) as nat, region_count(b, d) as nat)
    } else {
        None
    }
}

/// The offset of the first region of type `t` in the table at `d`.
pub open spec fn region_offset(b: Seq<u8>, d: int, t: u8) -> Option<u32> {
    first_offset(b, d, t, layout_count(b, d) as nat, 0)
}

/// The offsets of the firmware and the backup region of a flash image.
pub open spec fn bank_offsets(b: Seq<u8>) -> Option<(u32, u32)> {
    match region_table(b) {
        None => None,
        Some(d) => match (region_offset(b, d, REGION_FIRMWARE), region_offset(b, d, REGION_BACKUP)) {
            (Some(f), Some(k)) => Some((f, k)),
            _ => None,
        },
    }
}

/// Whether a region of one mebibyte at `offset` lies inside the data.
pub open spec fn bank_fits(b: Seq<u8>, offset: u32) -> bool {
    offset + 0x100000 <= b.len()
}

/// The versions of the firmware and the backup region of a flash image, or the
/// reason why they cannot be told.
pub open spec fn bank_versions(b: Seq<u8>) -> Result<(Seq<char>, Seq<char>), FwError> {
    if b.len() < 0x1000 {
        Err(FwError::TooShort(b.len() as usize))
    } else {
        match bank_offsets(b) {
            None => Err(FwError::NoFlashLayout),
            Some((f, k)) => if !bank_fits(b, f) || !bank_fits(b, k) {
                Err(FwError::TooShort(b.len() as usize))
            } else {
                Ok((version_at(b, f as int), version_at(b, k as int)))
            },
        }
    }
}

fn find_region_table(flash: &[u8]) -> (r: Option<usize>)
    requires
        flash@.len() >= 0x1000,
    ensures
        match region_table(flash@) {
            Some(d) => r == Some(d as usize) && 0x300 <= d && d + 8 < flash@.len()
                && region_table_at(flash@, d),
            None => r is None,
        },
{
    let len: usize = flash.len();
    let end: usize = len - 8;
    let mut c: usize = 0x300;
    while c < end
        invariant
            0x300 <= c,
            len == flash@.len(),
            end == len - 8,
            len >= 0x1000,
            region_table(flash@) == first_region_table(flash@, c as int, end as int),
        decreases end - c,
    {
        if flash[c + 2] == 0x10 && plausible_count(read_u16(flash, c + 4)) && plausible_count(
            read_u16(flash, c + 6),
        ) {
            return Some(c);
        }
        c += 1;
    }
    None
}

fn find_region_offset(flash: &[u8], d: usize, t: u8) -> (r: Option<u32>)
    requires
        d + 8 < flash@.len(),
        region_table_at(flash@, d as int),
    ensures
        r == region_offset(flash@, d as int, t),
{
    let len: usize = flash.len();
    let left: usize = len - d;
    let count: usize = read_u16(flash, d + 4) as usize;
    let regions: usize = read_u16(flash, d + 6) as usize;
    let size: usize = 0x10 + 0x10 * regions;
    let mut found: Option<u32> = None;
    let mut li: usize = 0;
    while li < count
        invariant
            li <= count <= 16,
            regions <= 16,
            len == flash@.len(),
            d + 8 < len,
            left == len - d,
            count == layout_count(flash@, d as int),
            regions == region_count(flash@, d as int),
            size == layout_size(flash@, d as int),
            found == first_offset(flash@, d as int, t, li as nat, 0),
        decreases count - li,
    {
        let mut ri: usize = 0;
        assert(0 <= li * size <= 16 * 272) by (nonlinear_arith)
            requires
                li <= 16,
                size <= 272,
        ;
        let rel: usize = 0x20 + li * size;
        while ri < regions
            invariant
                li < count <= 16,
                ri <= regions <= 16,
                len == flash@.len(),
                d + 8 < len,
                left == len - d,
                regions == region_count(flash@, d as int),
                size == layout_size(flash@, d as int),
                rel == 0x20 + li * size,
                rel <= 0x20 + 16 * 272,
                found == first_offset(flash@, d as int, t, li as nat, ri as nat),
            decreases regions - ri,
        {
            let ghost ro = layout_start(flash@, d as int, li as int) + 0x10 + 0x10 * ri;
            assert(ro == d + rel + 0x10 * ri);
            if found.is_none() && rel + 0x10 * ri + 12 <= left {
                let at: usize = d + rel + 0x10 * ri;
                if flash[at] == t {
                    found = Some(read_u32(flash, at + 4));
                }
            }
            ri += 1;
        }
        li += 1;
    }
    found
}

/// Compares the versions of the firmware and the backup region of a whole
/// flash image. Two banks with different versions stop the boot loader.
pub fn verify_flash_consistency(flash: &[u8]) -> (r: Result<FlashConsistency, FwError>)
    ensures
        match bank_versions(flash@) {
            Err(e) => r == Err::<FlashConsistency, FwError>(e),
            Ok((f, k)) => r matches Ok(v) && v.firmware_version@ == f && v.backup_version@ == k
                && v.consistent == (f == k),
        },
{
    let len: usize = flash.len();
    if len < 0x1000 {
        return Err(FwError::TooShort(len));
    }
    let d: usize = match find_region_table(flash) {
        Some(d) => d,
        None => {
            return Err(FwError::NoFlashLayout);
        },
    };
    let fw_offset = find_region_offset(flash, d, REGION_FIRMWARE);
    let backup_offset = find_region_offset(flash, d, REGION_BACKUP);
    let (f, k): (u32, u32) = match (fw_offset, backup_offset) {
        (Some(f), Some(k)) => (f, k),
        _ => {
            return Err(FwError::NoFlashLayout);
        },
    };
    if len < 0x100000 || len - 0x100000 < f as usize || len - 0x100000 < k as usize {
        return Err(FwError::TooShort(len));
    }
    let firmware_version = extract_version(flash, f as usize);
    let backup_version = extract_version(flash, k as usize);
    let consistent: bool = firmware_version == backup_version;
    Ok(FlashConsistency { firmware_version, backup_version, consistent })
}

// ------------------------------------------------------ the firmware region

/// The firmware region of a whole flash image, or the reason in words why it
/// cannot be had.
pub open spec fn firmware_region(b: Seq<u8>) -> Result<Seq<u8>, Seq<char>> {
    if !layout_searchable(b) {
        Err("backdoor parse_flash_layout: "@ + FwError::TooShort(b.len() as usize).spec_text())
    } else {
        match parsed_layout(b) {
            None => Err("backdoor parse_flash_layout: "@ + FwError::NoFlashLayout.spec_text()),
            Some(m) => match first_region(all_regions(m), REGION_FIRMWARE) {
                None => Err("backdoor: no FIRMWARE region found"@),
                Some(f) => if f.offset + f.size > b.len() {
                    Err(
                        "backdoor: firmware region "@ + dec(f.offset as nat) + "+"@ + dec(
                            f.size as nat,
                        ) + " exceeds flash window "@ + dec(b.len()),
                    )
                } else {
                    Ok(b.subrange(f.offset as int, f.offset + f.size))
                },
            },
        }
    }
}

/// Cuts the firmware region out of a whole flash image, as it is read through
/// the diagnostic window of the adapter.
pub fn read_firmware_backdoor(chip_mem: &[u8]) -> (r: Result<Vec<u8>, Error>)
    ensures
        match firmware_region(chip_mem@) {
            Ok(bytes) => r matches Ok(v) && v@ == bytes,
            Err(text) => r matches Err(Error::Other(s)) && s@ == text,
        },
{
    let layout = match parse_flash_layout(chip_mem) {
        Ok(l) => l,
        Err(e) => {
            let mut s = "backdoor parse_flash_layout: ".to_owned();
            s.append(e.text().as_str());
            return Err(Error::Other(s));
        },
    };
    match layout.region_span(REGION_FIRMWARE) {
        None => Err(Error::Other("backdoor: no FIRMWARE region found".to_owned())),
        Some((offset, size)) => {
            let len: usize = chip_mem.len();
            if offset as usize > len || len - (offset as usize) < size as usize {
                let mut s = "backdoor: firmware region ".to_owned();
                push_dec(&mut s, offset as u64);
                s.append("+");
                push_dec(&mut s, size as u64);
                s.append(" exceeds flash window ");
                push_dec(&mut s, len as u64);
                return Err(Error::Other(s));
            }
            Ok(to_vec(&chip_mem[offset as usize..offset as usize + size as usize]))
        },
    }
}

// ---------------------------------------------------------------- the laws

/// The flash layout is the extended image of type 0x06 in the chain that starts with the
/// 32-bit number at 0x30 and goes on with the one at 0x0C of each extended image, wherever
/// in the chain it stands.
pub proof fn layout_image_is_found(b: Seq<u8>, links: Seq<int>)
    requires
        links.len() >= 1,
        links[0] == u32_at(b, 0x30),
        forall|i: int|
            0 <= i < links.len() - 1 ==> (#[trigger] links[i]) + 0x10 <= b.len() && b[links[i]]
                != 0x06 && links[i + 1] == u32_at(b, links[i] + 0x0C) && links[i + 1] != links[i],
        forall|i: int| 0 <= i < links.len() ==> #[trigger] links[i] != 0,
        links.last() + 0x10 <= b.len(),
        b[links.last()] == 0x06,
    ensures
        layout_base(b) == Some(links.last()),
{
    let k = (links.len() - 1) as nat;
    assert forall|i: nat| i < links.len() implies #[trigger] chain(b, i) == links[i as int] by {
        chain_is(b, links, i);
    }
    assert(layout_link(b, k));
    layout_link_unique(b, k, choose|m: nat| layout_link(b, m));
}

proof fn chain_is(b: Seq<u8>, links: Seq<int>, i: nat)
    requires
        links.len() >= 1,
        links[0] == u32_at(b, 0x30),
        forall|i: int|
            0 <= i < links.len() - 1 ==> links[i + 1] == u32_at(b, #[trigger] links[i] + 0x0C),
        i < links.len(),
    ensures
        chain(b, i) == links[i as int],
    decreases i,
{
    if i > 0 {
        chain_is(b, links, (i - 1) as nat);
        assert(links[i - 1 + 1] == u32_at(b, links[i - 1] + 0x0C));
    }
}

proof fn first_table_is(b: Seq<u8>, c: int, end: int, d: int)
    ensures
        first_table(b, c, end) == Some(d) <==> c <= d < end && table_at(b, d) && forall|x: int|
            c <= x < d ==> !#[trigger] table_at(b, x),
        first_table(b, c, end) matches Some(x) ==> c <= x < end && table_at(b, x),
    decreases end - c,
{
    if c < end && !table_at(b, c) {
        first_table_is(b, c + 1, end, d);
    }
}

proof fn first_region_table_is(b: Seq<u8>, c: int, end: int, d: int)
    ensures
        first_region_table(b, c, end) == Some(d) <==> c <= d < end && region_table_at(b, d)
            && forall|x: int| c <= x < d ==> !#[trigger] region_table_at(b, x),
    decreases end - c,
{
    if c < end && !region_table_at(b, c) {
        first_region_table_is(b, c + 1, end, d);
    }
}

/// The table of a flash layout starts behind the 0x10 bytes of the header of its extended
/// image, in the next 0x40 bytes, at the first place with a zero byte, the byte 0x10 two
/// bytes on, and two numbers from 1 to 16 four and six bytes on.
pub proof fn layout_table_is_first(b: Seq<u8>, base: int, d: int)
    requires
        layout_base(b) == Some(base),
    ensures
        layout_table(b) == Some(d) <==> {
            &&& base + 0x10 <= d < base + 0x50
            &&& d < b.len() - 0x20
            &&& b[d] == 0 && b[d + 2] == 0x10
            &&& 1 <= u16_at(b, d + 4) <= 16 && 1 <= u16_at(b, d + 6) <= 16
            &&& forall|x: int|
                base + 0x10 <= x < d ==> !(#[trigger] b[x] == 0 && b[x + 2] == 0x10 && 1 <= u16_at(
                    b,
                    x + 4,
                ) <= 16 && 1 <= u16_at(b, x + 6) <= 16)
        },
{
    first_table_is(b, base + 0x10, search_end(b, base + 0x10), d);
    let k = choose|k: nat| layout_link(b, k);
    assert(base >= 0 && base + 0x10 <= b.len());
    if forall|x: int| base + 0x10 <= x < d ==> !#[trigger] table_at(b, x) {
        assert forall|x: int| base + 0x10 <= x < d implies !(#[trigger] b[x] == 0 && b[x + 2]
            == 0x10 && 1 <= u16_at(b, x + 4) <= 16 && 1 <= u16_at(b, x + 6) <= 16) by {
            assert(!table_at(b, x));
        }
    }
    if forall|x: int|
        base + 0x10 <= x < d ==> !(#[trigger] b[x] == 0 && b[x + 2] == 0x10 && 1 <= u16_at(
            b,
            x + 4,
        ) <= 16 && 1 <= u16_at(b, x + 6) <= 16) {
        assert forall|x: int| base + 0x10 <= x < d implies !#[trigger] table_at(b, x) by {
            if table_at(b, x) {
                assert(b[x] == 0);
            }
        }
    }
}

/// The numbers of a flash layout stand where the table has them: the layouts follow the 0x10
/// bytes of the table's header, each with 0x10 bytes for itself, of which the first four are
/// the size of the flash, and 0x10 bytes for each region: its type, and from the fourth byte
/// on its offset and its size.
pub proof fn layout_numbers_are_in_place(
    b: Seq<u8>,
    d: int,
    m: Seq<LayoutModel>,
    li: int,
    ri: int,
)
    requires
        layout_table(b) == Some(d),
        image_layout(b) == Some(m),
        0 <= li < m.len(),
        0 <= ri < u16_at(b, d + 6),
    ensures
        m.len() <= u16_at(b, d + 4),
        m[li].regions.len() == u16_at(b, d + 6),
        ({
            let start = d + 0x10 + li * (0x10 + 0x10 * u16_at(b, d + 6));
            &&& m[li].flash_size == u32_at(b, start)
            &&& m[li].regions[ri].region_type == b[start + 0x10 + 0x10 * ri]
            &&& m[li].regions[ri].offset == u32_at(b, start + 0x14 + 0x10 * ri)
            &&& m[li].regions[ri].size == u32_at(b, start + 0x18 + 0x10 * ri)
        }),
{
}

/// Every layout that the table announces and the data has room for is read, and no other.
pub proof fn layouts_are_all_read(b: Seq<u8>, d: int, li: int)
    requires
        layout_searchable(b),
        layout_table(b) == Some(d),
        layout_base(b) is Some,
        0 <= li,
    ensures
        (image_layout(b) matches Some(m) && li < m.len()) <==> li < u16_at(b, d + 4) && d + 0x10
            + (li + 1) * (0x10 + 0x10 * u16_at(b, d + 6)) <= b.len(),
{
    layout_table_is_first(b, layout_base(b)->0, d);
    let size = layout_size(b, d);
    let room = b.len() - d - 0x10;
    assert(size >= 0x20);
    assert((li + 1) * size <= room <==> li + 1 <= room / size) by (nonlinear_arith)
        requires
            size > 0,
    ;
}

/// The firmware region that is cut out of a flash image holds, byte for byte, what the image
/// has at the offset of the first firmware region of its layout, as many bytes as the region
/// is large; it can be had exactly where that region lies inside the image.
pub proof fn firmware_region_is_cut_out(b: Seq<u8>, m: Seq<LayoutModel>, k: int)
    requires
        image_layout(b) == Some(m),
        0 <= k < all_regions(m).len(),
        all_regions(m)[k].region_type == 0x01,
        forall|j: int| 0 <= j < k ==> (#[trigger] all_regions(m)[j]).region_type != 0x01,
    ensures
        firmware_region(b) is Ok <==> all_regions(m)[k].offset + all_regions(m)[k].size <= b.len(),
        firmware_region(b) matches Ok(v) ==> v.len() == all_regions(m)[k].size && forall|i: int|
            0 <= i < v.len() ==> #[trigger] v[i] == b[all_regions(m)[k].offset + i],
{
    first_region_is_first(all_regions(m), 0x01, k);
}

/// A flash image without a layout, or without a firmware region in it, has no firmware to be
/// cut out.
pub proof fn no_firmware_region_is_an_error(b: Seq<u8>)
    requires
        image_layout(b) matches Some(m) ==> forall|j: int|
            0 <= j < all_regions(m).len() ==> (#[trigger] all_regions(m)[j]).region_type != 0x01,
    ensures
        firmware_region(b) is Err,
{
    if let Some(m) = image_layout(b) {
        no_region_no_first(all_regions(m), 0x01);
    }
}

/// The region table of a whole flash image is the first one from 0x300 on: the byte 0x10 two
/// bytes in, and two numbers from 1 to 16 four and six bytes in.
pub proof fn region_table_is_first(b: Seq<u8>, d: int)
    ensures
        region_table(b) == Some(d) <==> {
            &&& 0x300 <= d < b.len() - 8
            &&& b[d + 2] == 0x10
            &&& 1 <= u16_at(b, d + 4) <= 16 && 1 <= u16_at(b, d + 6) <= 16
            &&& forall|x: int|
                0x300 <= x < d ==> !(b[x + 2] == 0x10 && 1 <= #[trigger] u16_at(b, x + 4) <= 16
                    && 1 <= u16_at(b, x + 6) <= 16)
        },
{
    first_region_table_is(b, 0x300, b.len() - 8, d);
    if forall|x: int| 0x300 <= x < d ==> !#[trigger] region_table_at(b, x) {
        assert forall|x: int| 0x300 <= x < d implies !(b[x + 2] == 0x10 && 1 <= #[trigger] u16_at(
            b,
            x + 4,
        ) <= 16 && 1 <= u16_at(b, x + 6) <= 16) by {
            assert(!region_table_at(b, x));
        }
    }
    if forall|x: int|
        0x300 <= x < d ==> !(b[x + 2] == 0x10 && 1 <= #[trigger] u16_at(b, x + 4) <= 16 && 1
            <= u16_at(b, x + 6) <= 16) {
        assert forall|x: int| 0x300 <= x < d implies !#[trigger] region_table_at(b, x) by {
            if region_table_at(b, x) {
                assert(1 <= u16_at(b, x + 4) <= 16);
            }
        }
    }
}

proof fn first_offset_in_first_layout(b: Seq<u8>, d: int, t: u8, k: int, n: nat)
    requires
        0 <= k,
        d + 0x20 + 0x10 * k + 12 <= b.len(),
        b[d + 0x20 + 0x10 * k] == t,
        forall|j: int| 0 <= j < k ==> b[#[trigger] (d + 0x20 + 0x10 * j)] != t,
    ensures
        n <= k ==> first_offset(b, d, t, 0, n) is None,
        n > k ==> first_offset(b, d, t, 0, n) == Some(u32_at(b, d + 0x24 + 0x10 * k)),
    decreases n,
{
    if n > 0 {
        first_offset_in_first_layout(b, d, t, k, (n - 1) as nat);
        assert(layout_start(b, d, 0) == d + 0x10);
        if n <= k {
            let j = n - 1;
            assert(b[d + 0x20 + 0x10 * j] != t);
        }
    }
}

proof fn first_offset_stays(b: Seq<u8>, d: int, t: u8, li: nat, ri: nat, x: u32)
    requires
        first_offset(b, d, t, 0, region_count(b, d) as nat) == Some(x),
        li >= 1,
    ensures
        first_offset(b, d, t, li, ri) == Some(x),
    decreases li, ri,
{
    if ri > 0 {
        first_offset_stays(b, d, t, li, (ri - 1) as nat, x);
    } else if li > 1 {
        first_offset_stays(b, d, t, (li - 1) as nat, region_count(b, d) as nat, x);
    }
}

/// The banks of a flash image start where its region table says: at the offset of the first
/// region of type 0x01 for the firmware and of type 0x05 for the backup, where the first layout
/// has them. Their versions are the texts 0x68 bytes into each bank; they can be told where
/// both banks, of one mebibyte each, lie inside the image.
pub proof fn banks_are_in_place(b: Seq<u8>, d: int, x: int, y: int)
    requires
        b.len() >= 0x1000,
        region_table(b) == Some(d),
        0 <= x < u16_at(b, d + 6),
        0 <= y < u16_at(b, d + 6),
        d + 0x20 + 0x10 * x + 12 <= b.len(),
        d + 0x20 + 0x10 * y + 12 <= b.len(),
        b[d + 0x20 + 0x10 * x] == 0x01,
        b[d + 0x20 + 0x10 * y] == 0x05,
        forall|j: int| 0 <= j < x ==> b[#[trigger] (d + 0x20 + 0x10 * j)] != 0x01,
        forall|j: int| 0 <= j < y ==> b[#[trigger] (d + 0x20 + 0x10 * j)] != 0x05,
    ensures
        ({
            let f = u32_at(b, d + 0x24 + 0x10 * x);
            let k = u32_at(b, d + 0x24 + 0x10 * y);
            &&& bank_versions(b) is Ok <==> f + 0x10_0000 <= b.len() && k + 0x10_0000 <= b.len()
            &&& (bank_versions(b) matches Ok(v) ==> v.0 == trim(
                ascii_prefix(Seq::new(24, |i: int| b[f + 0x68 + i])),
            ) && v.1 == trim(ascii_prefix(Seq::new(24, |i: int| b[k + 0x68 + i]))))
        }),
{
    region_table_is_first(b, d);
    let f = u32_at(b, d + 0x24 + 0x10 * x);
    let k = u32_at(b, d + 0x24 + 0x10 * y);
    first_offset_in_first_layout(b, d, 0x01, x, region_count(b, d) as nat);
    first_offset_in_first_layout(b, d, 0x05, y, region_count(b, d) as nat);
    first_offset_stays(b, d, 0x01, layout_count(b, d) as nat, 0, f);
    first_offset_stays(b, d, 0x05, layout_count(b, d) as nat, 0, k);
    if f + 0x10_0000 <= b.len() {
        assert(b.subrange(f + 0x68, f + 0x80) =~= Seq::new(24, |i: int| b[f + 0x68 + i]));
    }
    if k + 0x10_0000 <= b.len() {
        assert(b.subrange(k + 0x68, k + 0x80) =~= Seq::new(24, |i: int| b[k + 0x68 + i]));
    }
}

/// The text of a version ends before the first byte that is zero or not ASCII.
pub proof fn version_ends_at_zero(b: Seq<u8>, n: int)
    requires
        0 <= n <= b.len(),
        forall|i: int| 0 <= i < n ==> 0 < #[trigger] b[i] < 128,
        n == b.len() || b[n] == 0 || b[n] >= 128,
    ensures
        ascii_prefix(b) == Seq::new(n as nat, |i: int| b[i] as char),
    decreases n,
{
    if n > 0 {
        assert forall|i: int| 0 <= i < n - 1 implies 0 < #[trigger] b.skip(1)[i] < 128 by {
            assert(b.skip(1)[i] == b[i + 1]);
        }
        version_ends_at_zero(b.skip(1), n - 1);
    }
    assert(ascii_prefix(b) =~= Seq::new(n as nat, |i: int| b[i] as char));
}

} // verus!
