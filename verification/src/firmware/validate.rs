//! Validation of firmware images.
//!
//! An image can be wrong in two ways: it does not fit the firmware region of
//! the adapter, or it is not right for the adapter at all. Every check fails
//! closed.

use crate::bytes::{u16_at, u32_at};
use crate::firmware::flash_layout::{
    all_regions, ascending, firmware_sizes, firmware_sizes_listed, has_size, image_layout,
    parse_flash_layout, FlashLayout, LayoutModel, REGION_FIRMWARE,
};
use crate::firmware::inspect::{
    checksum_ok, header_of, header_result, parse_fw_header, verify_file_checksum, FwHeader,
};
use crate::text::{dec, hex_list, hex_pad, push_dec, push_hex_list, push_hex_pad};
use vstd::prelude::*;

verus! {

/// The PCI vendor of every adapter of the family.
pub const VENDOR_LSI: u16 = 0x1000;

/// One check and its outcome.
#[derive(Debug, Clone)]
pub struct Check {
    /// What was checked.
    pub name: &'static str,
    /// Whether it passed.
    pub pass: bool,
    /// The outcome in words.
    pub detail: String,
}

/// What a check stands for.
pub struct CheckModel {
    pub name: Seq<char>,
    pub pass: bool,
    pub detail: Seq<char>,
}

impl View for Check {
    type V = CheckModel;

    open spec fn view(&self) -> CheckModel {
        CheckModel { name: self.name@, pass: self.pass, detail: self.detail@ }
    }
}

/// What a list of checks stands for.
pub open spec fn check_models(v: Seq<Check>) -> Seq<CheckModel> {
    v.map_values(|c: Check| c@)
}

/// The outcome of validation.
#[derive(Debug)]
pub struct FwValidation {
    /// The checks in the order they were made.
    pub checks: Vec<Check>,
    /// The header of the image, where it could be read.
    pub header: Option<FwHeader>,
    /// The flash layout of the image, where it could be read.
    pub layout: Option<FlashLayout>,
}

impl FwValidation {
    /// Whether every check passed.
    pub fn ok(&self) -> (r: bool)
        ensures
            r == (forall|i: int|
                0 <= i < self.checks@.len() ==> (#[trigger] self.checks@[i]).pass),
    {
        self.first_failure().is_none()
    }

    /// The first check that failed.
    pub fn first_failure(&self) -> (r: Option<&Check>)
        ensures
            match r {
                None => forall|i: int|
                    0 <= i < self.checks@.len() ==> (#[trigger] self.checks@[i]).pass,
                Some(c) => !c.pass && exists|i: int|
                    0 <= i < self.checks@.len() && *c == #[trigger] self.checks@[i] && forall|j: int|
                        0 <= j < i ==> (#[trigger] self.checks@[j]).pass,
            },
    {
        let mut i: usize = 0;
        while i < self.checks.len()
            invariant
                i <= self.checks@.len(),
                forall|j: int| 0 <= j < i ==> (#[trigger] self.checks@[j]).pass,
            decreases self.checks@.len() - i,
        {
            if !self.checks[i].pass {
                return Some(&self.checks[i]);
            }
            i += 1;
        }
        None
    }
}

/// Whether a product id belongs to firmware for the SAS2008. The id alone does
/// not tell the chip: the SAS2208 is one bit away.
pub open spec fn sas2008_product(id: u16) -> bool {
    id == 0x2713 || id == 0x2213
}

/// Whether a product id belongs to firmware for the SAS2008.
pub fn is_sas2008_product(id: u16) -> (r: bool)
    ensures
        r == sas2008_product(id),
{
    id == 0x2713 || id == 0x2213
}

/// The header of an image, where it can be read.
pub open spec fn opt_header(b: Seq<u8>) -> Option<FwHeader> {
    match header_result(b) {
        Ok(h) => Some(h),
        Err(_) => None,
    }
}

/// The first check: the image carries the signatures.
pub open spec fn well_formed_check(b: Seq<u8>) -> CheckModel {
    match opt_header(b) {
        Some(h) => CheckModel {
            name: "well-formed"@,
            pass: true,
            detail: "MPI2 FW image — vid=0x"@ + hex_pad(h.vendor_id as nat, 4, true) + " did=0x"@
                + hex_pad(h.device_id as nat, 4, true) + " image_size="@ + dec(h.image_size as nat)
                + " B"@,
        },
        None => CheckModel {
            name: "well-formed"@,
            pass: false,
            detail: "not a valid MPI2 firmware image (bad signature)"@,
        },
    }
}

/// The second check: the words of the image add up to zero.
pub open spec fn checksum_check(b: Seq<u8>) -> CheckModel {
    if opt_header(b) is Some && checksum_ok(b) {
        CheckModel { name: "checksum"@, pass: true, detail: "file-level U32 checksum = 0"@ }
    } else {
        CheckModel {
            name: "checksum"@,
            pass: false,
            detail: "checksum mismatch — corrupt or truncated"@,
        }
    }
}

/// Whether the image is made for the SAS2008.
pub open spec fn right_chip(b: Seq<u8>) -> bool {
    opt_header(b) matches Some(h) && h.vendor_id == VENDOR_LSI && sas2008_product(h.device_id)
        && image_layout(b) is Some
}

/// The third check: vendor, product and flash layout fit the SAS2008.
pub open spec fn right_chip_check(b: Seq<u8>) -> CheckModel {
    CheckModel {
        name: "right-chip"@,
        pass: right_chip(b),
        detail: match opt_header(b) {
            None => "n/a (not well-formed)"@,
            Some(h) => if h.vendor_id != VENDOR_LSI {
                "vendor 0x"@ + hex_pad(h.vendor_id as nat, 4, true) + " != LSI 0x1000"@
            } else if !sas2008_product(h.device_id) {
                "ProductID 0x"@ + hex_pad(h.device_id as nat, 4, true)
                    + " not a known SAS2008 id [2713, 2213]"@
            } else if image_layout(b) is None {
                "FLASH_LAYOUT not parseable"@
            } else {
                "SAS2008 firmware, FLASH_LAYOUT present"@
            },
        },
    }
}

/// The checks on an image alone.
pub open spec fn image_checks(b: Seq<u8>) -> Seq<CheckModel> {
    seq![well_formed_check(b), checksum_check(b), right_chip_check(b)]
}

/// Checks an image by itself: its form, its checksum and its chip.
pub fn validate_image(image: &[u8]) -> (r: FwValidation)
    ensures
        check_models(r.checks@) == image_checks(image@),
        r.header == opt_header(image@),
        match image_layout(image@) {
            Some(m) => r.layout matches Some(l) && l@ == m,
            None => r.layout is None,
        },
{
    let header: Option<FwHeader> = match parse_fw_header(image) {
        Ok(h) => Some(h),
        Err(_) => None,
    };
    let layout: Option<FlashLayout> = match parse_flash_layout(image) {
        Ok(l) => Some(l),
        Err(_) => None,
    };
    let mut checks: Vec<Check> = Vec::new();
    match &header {
        Some(h) => {
            let mut t = "MPI2 FW image — vid=0x".to_owned();
            push_hex_pad(&mut t, h.vendor_id as u64, 4, true);
            t.append(" did=0x");
            push_hex_pad(&mut t, h.device_id as u64, 4, true);
            t.append(" image_size=");
            push_dec(&mut t, h.image_size as u64);
            t.append(" B");
            checks.push(Check { name: "well-formed", pass: true, detail: t });
        },
        None => {
            checks.push(
                Check {
                    name: "well-formed",
                    pass: false,
                    detail: "not a valid MPI2 firmware image (bad signature)".to_owned(),
                },
            );
        },
    }
    assert(checks@[0]@ == well_formed_check(image@));
    let intact: bool = header.is_some() && verify_file_checksum(image);
    if intact {
        checks.push(
            Check {
                name: "checksum",
                pass: true,
                detail: "file-level U32 checksum = 0".to_owned(),
            },
        );
    } else {
        checks.push(
            Check {
                name: "checksum",
                pass: false,
                detail: "checksum mismatch — corrupt or truncated".to_owned(),
            },
        );
    }
    assert(checks@[1]@ == checksum_check(image@));
    let (pass, detail): (bool, String) = match &header {
        None => (false, "n/a (not well-formed)".to_owned()),
        Some(h) => {
            if h.vendor_id != VENDOR_LSI {
                let mut t = "vendor 0x".to_owned();
                push_hex_pad(&mut t, h.vendor_id as u64, 4, true);
                t.append(" != LSI 0x1000");
                (false, t)
            } else if !is_sas2008_product(h.device_id) {
                let mut t = "ProductID 0x".to_owned();
                push_hex_pad(&mut t, h.device_id as u64, 4, true);
                t.append(" not a known SAS2008 id [2713, 2213]");
                (false, t)
            } else if layout.is_none() {
                (false, "FLASH_LAYOUT not parseable".to_owned())
            } else {
                (true, "SAS2008 firmware, FLASH_LAYOUT present".to_owned())
            }
        },
    };
    checks.push(Check { name: "right-chip", pass, detail });
    assert(checks@[2]@ == right_chip_check(image@));
    assert(check_models(checks@) =~= image_checks(image@));
    FwValidation { checks, header, layout }
}

/// An image is valid exactly where it is signed, intact and made for
/// the SAS2008.
pub proof fn validity_is_exact(v: FwValidation, b: Seq<u8>)
    requires
        check_models(v.checks@) == image_checks(b),
    ensures
        (forall|i: int| 0 <= i < v.checks@.len() ==> (#[trigger] v.checks@[i]).pass)
            <==> checksum_ok(b) && right_chip(b),
{
    let m = check_models(v.checks@);
    assert(m.len() == 3);
    assert(m[0] == v.checks@[0]@ && m[1] == v.checks@[1]@ && m[2] == v.checks@[2]@);
    assert(m[0] == well_formed_check(b) && m[1] == checksum_check(b) && m[2] == right_chip_check(b));
}

// -------------------------------------------------------------------- fit

/// The first of `sizes` that is at least `n`.
pub open spec fn first_at_least(sizes: Seq<u32>, n: u32) -> Option<u32>
    decreases sizes.len(),
{
    if sizes.len() == 0 {
        None
    } else {
        match first_at_least(sizes.drop_last(), n) {
            Some(x) => Some(x),
            None => if sizes.last() >= n {
                Some(sizes.last())
            } else {
                None
            },
        }
    }
}

/// Each size as a number.
pub open spec fn widened_sizes(s: Seq<u32>) -> Seq<u64> {
    s.map_values(|x: u32| x as u64)
}

/// The fourth check: the image fits the firmware region of the adapter. The
/// region cannot be asked for, but the running firmware lies in it, so the
/// smallest region of its layout that holds the running firmware bounds it.
pub open spec fn fit_check(new_image: Seq<u8>, current_fw: Seq<u8>) -> CheckModel {
    match (opt_header(new_image), opt_header(current_fw), image_layout(current_fw)) {
        (Some(n), Some(c), Some(m)) => {
            let sizes = firmware_sizes(m);
            match first_at_least(sizes, c.image_size) {
                Some(ceiling) => CheckModel {
                    name: "fit"@,
                    pass: n.image_size <= ceiling,
                    detail: "image "@ + dec(n.image_size as nat) + " B vs FW region "@ + dec(
                        ceiling as nat,
                    ) + " B (active layout inferred from running "@ + dec(c.image_size as nat)
                        + " B; candidates "@ + hex_list(widened_sizes(sizes), 0) + ")"@,
                },
                None => CheckModel {
                    name: "fit"@,
                    pass: false,
                    detail: "cannot resolve active FW region: running "@ + dec(
                        c.image_size as nat,
                    ) + " B exceeds all candidates "@ + hex_list(widened_sizes(sizes), 0),
                },
            }
        },
        _ => CheckModel {
            name: "fit"@,
            pass: false,
            detail: "cannot read new/current FW header or card FLASH_LAYOUT — refusing"@,
        },
    }
}

fn find_at_least(sizes: &Vec<u32>, n: u32) -> (r: Option<u32>)
    ensures
        r == first_at_least(sizes@, n),
{
    let mut found: Option<u32> = None;
    let mut i: usize = 0;
    assert(sizes@.take(0) =~= Seq::empty());
    while i < sizes.len()
        invariant
            i <= sizes@.len(),
            found == first_at_least(sizes@.take(i as int), n),
        decreases sizes@.len() - i,
    {
        assert(sizes@.take(i + 1).drop_last() =~= sizes@.take(i as int));
        if found.is_none() && sizes[i] >= n {
            found = Some(sizes[i]);
        }
        i += 1;
    }
    assert(sizes@.take(i as int) =~= sizes@);
    found
}

fn widen_sizes(s: &Vec<u32>) -> (r: Vec<u64>)
    ensures
        r@ == widened_sizes(s@),
{
    let mut r: Vec<u64> = Vec::new();
    let mut i: usize = 0;
    while i < s.len()
        invariant
            i <= s@.len(),
            r@ == widened_sizes(s@.take(i as int)),
        decreases s@.len() - i,
    {
        r.push(s[i] as u64);
        i += 1;
        assert(r@ =~= widened_sizes(s@.take(i as int)));
    }
    assert(s@.take(i as int) =~= s@);
    r
}

/// Adds the check that the image fits the adapter, given the firmware that the
/// adapter runs.
pub fn check_fit(val: &mut FwValidation, new_image: &[u8], current_fw: &[u8])
    ensures
        check_models(final(val).checks@) == check_models(old(val).checks@).push(
            fit_check(new_image@, current_fw@),
        ),
        final(val).header == old(val).header,
        final(val).layout == old(val).layout,
{
    let new_header = parse_fw_header(new_image);
    let current_header = parse_fw_header(current_fw);
    let layout = parse_flash_layout(current_fw);
    let (pass, detail): (bool, String) = match (new_header, current_header, layout) {
        (Ok(n), Ok(c), Ok(l)) => {
            let sizes = l.firmware_region_sizes();
            let wide = widen_sizes(&sizes);
            match find_at_least(&sizes, c.image_size) {
                Some(ceiling) => {
                    let mut t = "image ".to_owned();
                    push_dec(&mut t, n.image_size as u64);
                    t.append(" B vs FW region ");
                    push_dec(&mut t, ceiling as u64);
                    t.append(" B (active layout inferred from running ");
                    push_dec(&mut t, c.image_size as u64);
                    t.append(" B; candidates ");
                    push_hex_list(&mut t, wide.as_slice(), 0);
                    t.append(")");
                    (n.image_size <= ceiling, t)
                },
                None => {
                    let mut t = "cannot resolve active FW region: running ".to_owned();
                    push_dec(&mut t, c.image_size as u64);
                    t.append(" B exceeds all candidates ");
                    push_hex_list(&mut t, wide.as_slice(), 0);
                    (false, t)
                },
            }
        },
        _ => (
            false,
            "cannot read new/current FW header or card FLASH_LAYOUT — refusing".to_owned(),
        ),
    };
    let check = Check { name: "fit", pass, detail };
    assert(check@ == fit_check(new_image@, current_fw@));
    let ghost before = val.checks@;
    val.checks.push(check);
    assert(check_models(val.checks@) =~= check_models(before).push(
        fit_check(new_image@, current_fw@),
    ));
}

proof fn first_at_least_is_smallest(s: Seq<u32>, n: u32, x: u32)
    requires
        ascending(s),
        s.contains(x),
        x >= n,
    ensures
        first_at_least(s, n) matches Some(c) && n <= c <= x && s.contains(c),
    decreases s.len(),
{
    let t = s.drop_last();
    let k = choose|k: int| 0 <= k < s.len() && s[k] == x;
    if k < t.len() {
        assert(t[k] == x);
        first_at_least_is_smallest(t, n, x);
        let c = first_at_least(t, n)->0;
        let i = choose|i: int| 0 <= i < t.len() && t[i] == c;
        assert(s[i] == c);
    } else {
        assert(s.last() == x);
        if first_at_least(t, n) is Some {
            first_at_least_found(t, n);
            let c = first_at_least(t, n)->0;
            let i = choose|i: int| 0 <= i < t.len() && t[i] == c;
            assert(s[i] == c);
        }
    }
}

proof fn first_at_least_found(s: Seq<u32>, n: u32)
    requires
        first_at_least(s, n) is Some,
    ensures
        s.contains(first_at_least(s, n)->0),
        first_at_least(s, n)->0 >= n,
    decreases s.len(),
{
    let t = s.drop_last();
    if first_at_least(t, n) is Some {
        first_at_least_found(t, n);
        let c = first_at_least(t, n)->0;
        let i = choose|i: int| 0 <= i < t.len() && t[i] == c;
        assert(s[i] == c);
    } else {
        assert(s[s.len() - 1] == s.last());
    }
}

/// An oversized image never passes: where the fit check passes, the image is
/// no larger than any firmware region of the running firmware's layouts that
/// holds the running firmware, whichever of them is the one in use.
pub proof fn fit_is_conservative(new_image: Seq<u8>, current_fw: Seq<u8>, region: u32)
    requires
        fit_check(new_image, current_fw).pass,
        has_size(all_regions(image_layout(current_fw)->0), REGION_FIRMWARE, region),
        header_of(current_fw).image_size <= region,
    ensures
        header_of(new_image).image_size <= region,
{
    let m = image_layout(current_fw)->0;
    let sizes = firmware_sizes(m);
    firmware_sizes_listed(m);
    assert(sizes.contains(region));
    first_at_least_is_smallest(sizes, header_of(current_fw).image_size, region);
}

/// The fit check asks for no less room than there is and no more: for readable images it
/// passes exactly where some firmware region of the running firmware's layouts holds the
/// running firmware, and the new image is no larger than any region that does. The sizes
/// of the two images stand in their headers at 0x2C.
pub proof fn fit_is_exact(new_image: Seq<u8>, current_fw: Seq<u8>, m: Seq<LayoutModel>)
    requires
        header_result(new_image) is Ok,
        header_result(current_fw) is Ok,
        image_layout(current_fw) == Some(m),
    ensures
        fit_check(new_image, current_fw).pass <==> {
            &&& exists|i: int|
                0 <= i < all_regions(m).len() && (#[trigger] all_regions(m)[i]).region_type == 0x01
                    && u32_at(current_fw, 0x2C) <= all_regions(m)[i].size
            &&& forall|i: int|
                0 <= i < all_regions(m).len() && (#[trigger] all_regions(m)[i]).region_type == 0x01
                    && u32_at(current_fw, 0x2C) <= all_regions(m)[i].size ==> u32_at(
                    new_image,
                    0x2C,
                ) <= all_regions(m)[i].size
        },
{
    let all = all_regions(m);
    let running = u32_at(current_fw, 0x2C);
    let sizes = firmware_sizes(m);
    firmware_sizes_listed(m);
    if first_at_least(sizes, running) is Some {
        first_at_least_found(sizes, running);
        let ceiling = first_at_least(sizes, running)->0;
        assert(has_size(all, REGION_FIRMWARE, ceiling));
        let w = choose|i: int|
            0 <= i < all.len() && (#[trigger] all[i]).region_type == REGION_FIRMWARE
                && all[i].size == ceiling;
        assert(all[w].region_type == 0x01 && running <= all[w].size);
        assert forall|i: int|
            0 <= i < all.len() && (#[trigger] all[i]).region_type == 0x01 && running
                <= all[i].size implies ceiling <= all[i].size by {
            assert(has_size(all, REGION_FIRMWARE, all[i].size));
            assert(sizes.contains(all[i].size));
            first_at_least_is_smallest(sizes, running, all[i].size);
        }
    } else {
        assert forall|i: int|
            0 <= i < all.len() && (#[trigger] all[i]).region_type == 0x01 implies !(running
            <= all[i].size) by {
            assert(has_size(all, REGION_FIRMWARE, all[i].size));
            assert(sizes.contains(all[i].size));
            if running <= all[i].size {
                first_at_least_is_smallest(sizes, running, all[i].size);
            }
        }
    }
}

/// An image, or a running firmware, that cannot be read never passes the fit check.
pub proof fn unreadable_never_fits(new_image: Seq<u8>, current_fw: Seq<u8>)
    requires
        header_result(new_image) is Err || header_result(current_fw) is Err || image_layout(
            current_fw,
        ) is None,
    ensures
        !fit_check(new_image, current_fw).pass,
{
}

/// An image is valid exactly where it is one for the SAS2008, in so many bytes: it has at
/// least 0x38 of them, the four signatures at its start, words that add up to zero, the vendor
/// 0x1000 at 0x20, one of the products 0x2713 and 0x2213 at 0x22, and a flash layout.
pub proof fn valid_image_in_bytes(v: FwValidation, b: Seq<u8>)
    requires
        check_models(v.checks@) == image_checks(b),
    ensures
        v.checks@.len() == 3,
        (forall|i: int| 0 <= i < v.checks@.len() ==> (#[trigger] v.checks@[i]).pass) <==> {
            &&& b.len() >= 0x38
            &&& u32_at(b, 0) == 0xEA000000 && u32_at(b, 4) == 0x5AFAA55A && u32_at(b, 8)
                == 0xA55AFAA5 && u32_at(b, 12) == 0x5AA55AFA
            &&& checksum_ok(b)
            &&& b[0x20] == 0x00 && b[0x21] == 0x10
            &&& b[0x23] == 0x27 || b[0x23] == 0x22
            &&& b[0x22] == 0x13
            &&& image_layout(b) is Some
        },
{
    validity_is_exact(v, b);
    assert(check_models(v.checks@).len() == v.checks@.len());
}

/// A failed check never hides behind another: each of the three checks fails on its own
/// account, and the checks stand in the order form, checksum, chip.
pub proof fn checks_are_independent(v: FwValidation, b: Seq<u8>)
    requires
        check_models(v.checks@) == image_checks(b),
    ensures
        v.checks@.len() == 3,
        v.checks@[0].pass <==> header_result(b) is Ok,
        v.checks@[1].pass <==> header_result(b) is Ok && checksum_ok(b),
        v.checks@[2].pass <==> header_result(b) is Ok && u16_at(b, 0x20) == 0x1000 && (u16_at(b, 0x22)
            == 0x2713 || u16_at(b, 0x22) == 0x2213) && image_layout(b) is Some,
        v.checks@[0].name@ == "well-formed"@,
        v.checks@[1].name@ == "checksum"@,
        v.checks@[2].name@ == "right-chip"@,
{
    let m = check_models(v.checks@);
    assert(m.len() == v.checks@.len());
    assert(m[0] == v.checks@[0]@ && m[1] == v.checks@[1]@ && m[2] == v.checks@[2]@);
    assert(m[0] == well_formed_check(b) && m[1] == checksum_check(b) && m[2] == right_chip_check(b));
}

} // verus!
