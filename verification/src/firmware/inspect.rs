//! The header of a firmware image.

use crate::bytes::{read_u16, read_u32, u16_at, u32_at};
use crate::text::{dec, hex_pad, push_dec, push_hex_pad, string_from_utf8_lossy, strings};
use crate::text::utf8_lossy;
use vstd::prelude::*;

verus! {

/// The first signature of a firmware image.
pub const MPI2_FW_HEADER_SIGNATURE: u32 = 0xEA000000;

/// The second signature of a firmware image.
pub const MPI2_FW_HEADER_SIGNATURE0: u32 = 0x5AFAA55A;

/// The third signature of a firmware image.
pub const MPI2_FW_HEADER_SIGNATURE1: u32 = 0xA55AFAA5;

/// The fourth signature of a firmware image.
pub const MPI2_FW_HEADER_SIGNATURE2: u32 = 0x5AA55AFA;

/// Offset of the first signature.
pub const FW_HEADER_OFFSET_SIGNATURE: usize = 0x00;

/// Offset of the second signature.
pub const FW_HEADER_OFFSET_SIGNATURE0: usize = 0x04;

/// Offset of the third signature.
pub const FW_HEADER_OFFSET_SIGNATURE1: usize = 0x08;

/// Offset of the fourth signature.
pub const FW_HEADER_OFFSET_SIGNATURE2: usize = 0x0C;

/// Offset of the message version.
pub const FW_HEADER_OFFSET_MPI_VERSION: usize = 0x10;

/// Offset of the firmware version.
pub const FW_HEADER_OFFSET_FW_VERSION: usize = 0x14;

/// Offset of the vendor id.
pub const FW_HEADER_OFFSET_VENDOR_ID: usize = 0x20;

/// Offset of the product id.
pub const FW_HEADER_OFFSET_DEVICE_ID: usize = 0x22;

/// Offset of the protocol flags.
pub const FW_HEADER_OFFSET_PROTOCOL_FLAGS: usize = 0x24;

/// Offset of the capabilities.
pub const FW_HEADER_OFFSET_IOC_CAPABILITIES: usize = 0x28;

/// Offset of the image size.
pub const FW_HEADER_OFFSET_IMAGE_SIZE: usize = 0x2C;

/// Offset of the checksum.
pub const FW_HEADER_OFFSET_CHECKSUM: usize = 0x34;

/// Size of the whole header.
pub const FW_HEADER_SIZE: usize = 0x100;

/// The fields of a firmware header that the library looks at.
#[derive(Debug, Clone, Copy, PartialEq, Eq, Structural)]
pub struct FwHeader {
    /// The first signature.
    pub signature: u32,
    /// The second signature.
    pub signature0: u32,
    /// The third signature.
    pub signature1: u32,
    /// The fourth signature.
    pub signature2: u32,
    /// PCI vendor.
    pub vendor_id: u16,
    /// Product.
    pub device_id: u16,
    /// Protocol flags.
    pub protocol_flags: u16,
    /// Capabilities of the controller.
    pub ioc_capabilities: u32,
    /// Size of the image in bytes.
    pub image_size: u32,
    /// Checksum of the firmware.
    pub checksum: u32,
}

/// Errors of firmware images.
#[derive(Debug)]
pub enum FwError {
    /// The file could not be read.
    Io(String),
    /// The image is too short.
    TooShort(usize),
    /// The first signature is wrong.
    InvalidSignature { expected: u32, got: u32 },
    /// The second signature is wrong.
    InvalidSignature0 { expected: u32, got: u32 },
    /// The third signature is wrong.
    InvalidSignature1 { expected: u32, got: u32 },
    /// The fourth signature is wrong.
    InvalidSignature2 { expected: u32, got: u32 },
    /// The image holds no flash layout.
    NoFlashLayout,
}

/// A signature error in words.
pub open spec fn signature_text(label: Seq<char>, expected: u32, got: u32) -> Seq<char> {
    label + " (expected 0x"@ + hex_pad(expected as nat, 8, true) + ", got 0x"@ + hex_pad(
        got as nat,
        8,
        true,
    ) + ")"@
}

fn signature_error(label: &str, expected: u32, got: u32) -> (r: String)
    ensures
        r@ == signature_text(label@, expected, got),
{
    let mut t = label.to_owned();
    t.append(" (expected 0x");
    push_hex_pad(&mut t, expected as u64, 8, true);
    t.append(", got 0x");
    push_hex_pad(&mut t, got as u64, 8, true);
    t.append(")");
    t
}

impl FwError {
    /// The error in words.
    pub open spec fn spec_text(&self) -> Seq<char> {
        match self {
            FwError::Io(e) => "IO error: "@ + e@,
            FwError::TooShort(n) => "Firmware too short (got "@ + dec(*n as nat)
                + " bytes, need at least 32)"@,
            FwError::InvalidSignature { expected, got } => signature_text(
                "Invalid firmware signature"@,
                *expected,
                *got,
            ),
            FwError::InvalidSignature0 { expected, got } => signature_text(
                "Invalid firmware signature0"@,
                *expected,
                *got,
            ),
            FwError::InvalidSignature1 { expected, got } => signature_text(
                "Invalid firmware signature1"@,
                *expected,
                *got,
            ),
            FwError::InvalidSignature2 { expected, got } => signature_text(
                "Invalid firmware signature2"@,
                *expected,
                *got,
            ),
            FwError::NoFlashLayout => "No FLASH_LAYOUT found in the image"@,
        }
    }

    /// The error in words.
    pub fn text(&self) -> (r: String)
        ensures
            r@ == self.spec_text(),
    {
        match self {
            FwError::Io(e) => {
                let mut t = "IO error: ".to_owned();
                t.append(e.as_str());
                t
            },
            FwError::TooShort(n) => {
                let mut t = "Firmware too short (got ".to_owned();
                push_dec(&mut t, *n as u64);
                t.append(" bytes, need at least 32)");
                t
            },
            FwError::InvalidSignature { expected, got } => signature_error(
                "Invalid firmware signature",
                *expected,
                *got,
            ),
            FwError::InvalidSignature0 { expected, got } => signature_error(
                "Invalid firmware signature0",
                *expected,
                *got,
            ),
            FwError::InvalidSignature1 { expected, got } => signature_error(
                "Invalid firmware signature1",
                *expected,
                *got,
            ),
            FwError::InvalidSignature2 { expected, got } => signature_error(
                "Invalid firmware signature2",
                *expected,
                *got,
            ),
            FwError::NoFlashLayout => "No FLASH_LAYOUT found in the image".to_owned(),
        }
    }
}

/// Whether the image carries the four signatures.
pub open spec fn signed(b: Seq<u8>) -> bool {
    &&& u32_at(b, 0) == MPI2_FW_HEADER_SIGNATURE
    &&& u32_at(b, 4) == MPI2_FW_HEADER_SIGNATURE0
    &&& u32_at(b, 8) == MPI2_FW_HEADER_SIGNATURE1
    &&& u32_at(b, 12) == MPI2_FW_HEADER_SIGNATURE2
}

/// The header of an image.
pub open spec fn header_of(b: Seq<u8>) -> FwHeader {
    FwHeader {
        signature: u32_at(b, 0),
        signature0: u32_at(b, 4),
        signature1: u32_at(b, 8),
        signature2: u32_at(b, 12),
        vendor_id: u16_at(b, 0x20),
        device_id: u16_at(b, 0x22),
        protocol_flags: u16_at(b, 0x24),
        ioc_capabilities: u32_at(b, 0x28),
        image_size: u32_at(b, 0x2C),
        checksum: u32_at(b, 0x34),
    }
}

/// What reading the header of an image gives. The signatures are looked at
/// from 0x14 bytes on; the last field ends at 0x38.
pub open spec fn header_result(b: Seq<u8>) -> Result<FwHeader, FwError> {
    if b.len() < 0x14 {
        Err(FwError::TooShort(b.len() as usize))
    } else if u32_at(b, 0) != MPI2_FW_HEADER_SIGNATURE {
        Err(
            FwError::InvalidSignature {
                expected: MPI2_FW_HEADER_SIGNATURE,
                got: u32_at(b, 0),
            },
        )
    } else if u32_at(b, 4) != MPI2_FW_HEADER_SIGNATURE0 {
        Err(
            FwError::InvalidSignature0 {
                expected: MPI2_FW_HEADER_SIGNATURE0,
                got: u32_at(b, 4),
            },
        )
    } else if u32_at(b, 8) != MPI2_FW_HEADER_SIGNATURE1 {
        Err(
            FwError::InvalidSignature1 {
                expected: MPI2_FW_HEADER_SIGNATURE1,
                got: u32_at(b, 8),
            },
        )
    } else if u32_at(b, 12) != MPI2_FW_HEADER_SIGNATURE2 {
        Err(
            FwError::InvalidSignature2 {
                expected: MPI2_FW_HEADER_SIGNATURE2,
                got: u32_at(b, 12),
            },
        )
    } else if b.len() < 0x38 {
        Err(FwError::TooShort(b.len() as usize))
    } else {
        Ok(header_of(b))
    }
}

/// A header is read exactly where the image is long enough and signed.
pub proof fn header_needs_signatures(b: Seq<u8>)
    ensures
        header_result(b) is Ok <==> b.len() >= 0x38 && signed(b),
{
}

/// Reads the header of an image.
pub fn parse_fw_header(data: &[u8]) -> (r: Result<FwHeader, FwError>)
    ensures
        r == header_result(data@),
{
    if data.len() < 0x14 {
        return Err(FwError::TooShort(data.len()));
    }
    let signature: u32 = read_u32(data, FW_HEADER_OFFSET_SIGNATURE);
    if signature != MPI2_FW_HEADER_SIGNATURE {
        return Err(
            FwError::InvalidSignature { expected: MPI2_FW_HEADER_SIGNATURE, got: signature },
        );
    }
    let signature0: u32 = read_u32(data, FW_HEADER_OFFSET_SIGNATURE0);
    if signature0 != MPI2_FW_HEADER_SIGNATURE0 {
        return Err(
            FwError::InvalidSignature0 { expected: MPI2_FW_HEADER_SIGNATURE0, got: signature0 },
        );
    }
    let signature1: u32 = read_u32(data, FW_HEADER_OFFSET_SIGNATURE1);
    if signature1 != MPI2_FW_HEADER_SIGNATURE1 {
        return Err(
            FwError::InvalidSignature1 { expected: MPI2_FW_HEADER_SIGNATURE1, got: signature1 },
        );
    }
    let signature2: u32 = read_u32(data, FW_HEADER_OFFSET_SIGNATURE2);
    if signature2 != MPI2_FW_HEADER_SIGNATURE2 {
        return Err(
            FwError::InvalidSignature2 { expected: MPI2_FW_HEADER_SIGNATURE2, got: signature2 },
        );
    }
    if data.len() < 0x38 {
        return Err(FwError::TooShort(data.len()));
    }
    Ok(
        FwHeader {
            signature,
            signature0,
            signature1,
            signature2,
            vendor_id: read_u16(data, FW_HEADER_OFFSET_VENDOR_ID),
            device_id: read_u16(data, FW_HEADER_OFFSET_DEVICE_ID),
            protocol_flags: read_u16(data, FW_HEADER_OFFSET_PROTOCOL_FLAGS),
            ioc_capabilities: read_u32(data, FW_HEADER_OFFSET_IOC_CAPABILITIES),
            image_size: read_u32(data, FW_HEADER_OFFSET_IMAGE_SIZE),
            checksum: read_u32(data, FW_HEADER_OFFSET_CHECKSUM),
        },
    )
}

// --------------------------------------------------------------- checksum

/// The sum of the first `n` words of an image.
pub open spec fn word_sum(b: Seq<u8>, n: int) -> int
    decreases n,
{
    if n <= 0 {
        0
    } else {
        word_sum(b, n - 1) + u32_at(b, 4 * (n - 1))
    }
}

/// Whether the words of an image add up to zero, modulo the word size. Bytes
/// after the last whole word do not count.
pub open spec fn checksum_ok(b: Seq<u8>) -> bool {
    word_sum(b, b.len() as int / 4) % 0x1_0000_0000 == 0
}

/// The sum of the first `n` words, modulo the word size.
pub fn sum_words(data: &[u8], n: usize) -> (r: u32)
    requires
        4 * n <= data@.len(),
    ensures
        r == word_sum(data@, n as int) % 0x1_0000_0000,
{
    let len: usize = data.len();
    let mut sum: u32 = 0;
    let mut i: usize = 0;
    while i < n
        invariant
            i <= n,
            4 * n <= len,
            len == data@.len(),
            sum == word_sum(data@, i as int) % 0x1_0000_0000,
        decreases n - i,
    {
        sum = sum.wrapping_add(read_u32(data, 4 * i));
        i += 1;
    }
    sum
}

/// Whether the words of an image add up to zero.
pub fn verify_file_checksum(data: &[u8]) -> (r: bool)
    ensures
        r == checksum_ok(data@),
{
    sum_words(data, data.len() / 4) == 0
}

// ----------------------------------------------------------------- report

/// The report on a firmware image, line by line.
pub open spec fn report_lines(b: Seq<u8>) -> Seq<Seq<char>> {
    let h = header_of(b);
    seq![
        "Firmware Header ("@ + dec(b.len()) + " bytes):"@,
        "  Signature:        0x"@ + hex_pad(h.signature as nat, 8, true) + " ('_FWI')"@,
        "  Signature0:       0x"@ + hex_pad(h.signature0 as nat, 8, true),
        "  Signature1:       0x"@ + hex_pad(h.signature1 as nat, 8, true),
        "  Signature2:       0x"@ + hex_pad(h.signature2 as nat, 8, true),
        "  Version Name:     "@ + utf8_lossy(b.subrange(0x68, 0x88)),
        "  Vendor ID:        0x"@ + hex_pad(h.vendor_id as nat, 4, true),
        "  Device ID:        0x"@ + hex_pad(h.device_id as nat, 4, true),
        "  Protocol Flags:   0x"@ + hex_pad(h.protocol_flags as nat, 4, true),
        "  IOC Capabilities: 0x"@ + hex_pad(h.ioc_capabilities as nat, 8, true),
        "  Image Size:       "@ + dec(h.image_size as nat) + " bytes"@,
        "  Checksum:         0x"@ + hex_pad(h.checksum as nat, 8, true),
    ]
}

fn hex_line(label: &str, v: u64, width: usize) -> (r: String)
    ensures
        r@ == label@ + hex_pad(v as nat, width as nat, true),
{
    let mut t = label.to_owned();
    push_hex_pad(&mut t, v, width, true);
    t
}

/// Reads the header of an image and reports on it. The report quotes the bytes
/// from 0x68 to 0x88, so an image with a good header has to reach that far.
pub fn inspect_firmware(data: &[u8]) -> (r: Result<(FwHeader, Vec<String>), FwError>)
    requires
        header_result(data@) is Ok ==> data@.len() >= 0x88,
    ensures
        match header_result(data@) {
            Err(e) => r == Err::<(FwHeader, Vec<String>), FwError>(e),
            Ok(h) => r matches Ok(v) && v.0 == h && strings(v.1@) == report_lines(data@),
        },
{
    let h = match parse_fw_header(data) {
        Ok(h) => h,
        Err(e) => {
            return Err(e);
        },
    };
    let mut v: Vec<String> = Vec::new();
    let mut t = "Firmware Header (".to_owned();
    push_dec(&mut t, data.len() as u64);
    t.append(" bytes):");
    v.push(t);
    let mut t = hex_line("  Signature:        0x", h.signature as u64, 8);
    t.append(" ('_FWI')");
    v.push(t);
    v.push(hex_line("  Signature0:       0x", h.signature0 as u64, 8));
    v.push(hex_line("  Signature1:       0x", h.signature1 as u64, 8));
    v.push(hex_line("  Signature2:       0x", h.signature2 as u64, 8));
    let mut t = "  Version Name:     ".to_owned();
    t.append(string_from_utf8_lossy(&data[0x68..0x88]).as_str());
    v.push(t);
    v.push(hex_line("  Vendor ID:        0x", h.vendor_id as u64, 4));
    v.push(hex_line("  Device ID:        0x", h.device_id as u64, 4));
    v.push(hex_line("  Protocol Flags:   0x", h.protocol_flags as u64, 4));
    v.push(hex_line("  IOC Capabilities: 0x", h.ioc_capabilities as u64, 8));
    let mut t = "  Image Size:       ".to_owned();
    push_dec(&mut t, h.image_size as u64);
    t.append(" bytes");
    v.push(t);
    v.push(hex_line("  Checksum:         0x", h.checksum as u64, 8));
    assert(strings(v@) =~= report_lines(data@));
    Ok((h, v))
}

// ---------------------------------------------------------------- the laws

/// A header is read exactly from an image of at least 0x38 bytes that starts with the sixteen
/// bytes of the signatures.
pub proof fn header_starts_with_signatures(b: Seq<u8>)
    ensures
        header_result(b) is Ok <==> b.len() >= 0x38 && b.take(16) == seq![
            0x00u8,
            0x00u8,
            0x00u8,
            0xEAu8,
            0x5Au8,
            0xA5u8,
            0xFAu8,
            0x5Au8,
            0xA5u8,
            0xFAu8,
            0x5Au8,
            0xA5u8,
            0xFAu8,
            0x5Au8,
            0xA5u8,
            0x5Au8,
        ],
{
    let want = seq![
        0x00u8,
        0x00u8,
        0x00u8,
        0xEAu8,
        0x5Au8,
        0xA5u8,
        0xFAu8,
        0x5Au8,
        0xA5u8,
        0xFAu8,
        0x5Au8,
        0xA5u8,
        0xFAu8,
        0x5Au8,
        0xA5u8,
        0x5Au8,
    ];
    if b.len() >= 0x38 {
        if signed(b) {
            assert(b.take(16) =~= want);
        }
        if b.take(16) == want {
            assert forall|i: int| 0 <= i < 16 implies b[i] == #[trigger] want[i] by {
                assert(b.take(16)[i] == want[i]);
            }
            assert(b[0] == want[0] && b[1] == want[1] && b[2] == want[2] && b[3] == want[3]);
            assert(b[4] == want[4] && b[5] == want[5] && b[6] == want[6] && b[7] == want[7]);
            assert(b[8] == want[8] && b[9] == want[9] && b[10] == want[10] && b[11] == want[11]);
            assert(b[12] == want[12] && b[13] == want[13] && b[14] == want[14] && b[15]
                == want[15]);
        }
    }
}

/// The fields of a header come from the bytes at their own places, low byte first.
pub proof fn header_fields_are_in_place(b: Seq<u8>, h: FwHeader)
    requires
        header_result(b) == Ok::<FwHeader, FwError>(h),
    ensures
        h.vendor_id == b[0x20] + 256 * b[0x21],
        h.device_id == b[0x22] + 256 * b[0x23],
        h.protocol_flags == b[0x24] + 256 * b[0x25],
        h.ioc_capabilities == b[0x28] + 256 * b[0x29] + 65536 * b[0x2A] + 16777216 * b[0x2B],
        h.image_size == b[0x2C] + 256 * b[0x2D] + 65536 * b[0x2E] + 16777216 * b[0x2F],
        h.checksum == b[0x34] + 256 * b[0x35] + 65536 * b[0x36] + 16777216 * b[0x37],
        h.signature == 0xEA000000,
        h.signature0 == 0x5AFAA55A,
        h.signature1 == 0xA55AFAA5,
        h.signature2 == 0x5AA55AFA,
{
}

proof fn word_sum_agrees(a: Seq<u8>, b: Seq<u8>, n: int)
    requires
        0 <= n,
        4 * n <= a.len(),
        4 * n <= b.len(),
        forall|p: int| 0 <= p < 4 * n ==> a[p] == b[p],
    ensures
        word_sum(a, n) == word_sum(b, n),
    decreases n,
{
    if n > 0 {
        word_sum_agrees(a, b, n - 1);
        let o = 4 * (n - 1);
        assert(a[o] == b[o] && a[o + 1] == b[o + 1] && a[o + 2] == b[o + 2] && a[o + 3] == b[o
            + 3]);
    }
}

proof fn word_sum_differs(a: Seq<u8>, b: Seq<u8>, w: int, n: int)
    requires
        0 <= w < n,
        4 * n <= a.len(),
        4 * n <= b.len(),
        forall|p: int| 0 <= p < 4 * n && !(4 * w <= p < 4 * w + 4) ==> a[p] == b[p],
    ensures
        word_sum(b, n) - word_sum(a, n) == u32_at(b, 4 * w) - u32_at(a, 4 * w),
    decreases n,
{
    if w == n - 1 {
        word_sum_agrees(a, b, n - 1);
    } else {
        word_sum_differs(a, b, w, n - 1);
        let o = 4 * (n - 1);
        assert(a[o] == b[o] && a[o + 1] == b[o + 1] && a[o + 2] == b[o + 2] && a[o + 3] == b[o
            + 3]);
    }
}

/// A change in one word is always seen: of two images that differ in the value of a single
/// whole word, at most one has a right checksum, wherever the word stands.
pub proof fn changed_word_is_seen(a: Seq<u8>, b: Seq<u8>, w: int)
    requires
        a.len() == b.len(),
        0 <= w,
        4 * w + 4 <= a.len(),
        forall|p: int| 0 <= p < a.len() && !(4 * w <= p < 4 * w + 4) ==> a[p] == b[p],
        u32_at(a, 4 * w) != u32_at(b, 4 * w),
    ensures
        !(checksum_ok(a) && checksum_ok(b)),
{
    let n = a.len() as int / 4;
    word_sum_differs(a, b, w, n);
    let d = word_sum(b, n) - word_sum(a, n);
    if checksum_ok(a) && checksum_ok(b) {
        let q = word_sum(b, n) / 0x1_0000_0000 - word_sum(a, n) / 0x1_0000_0000;
        assert(d == 0x1_0000_0000 * q);
        assert(-0x1_0000_0000 < d < 0x1_0000_0000);
        assert(d == 0);
    }
}

/// Two words whose values make up the size of a word, or two zero words, do not disturb a
/// checksum: an image with a right checksum stays right with them behind it.
pub proof fn balanced_words_are_neutral(b: Seq<u8>, x: Seq<u8>)
    requires
        b.len() % 4 == 0,
        x.len() == 8,
        (u32_at(x, 0) + u32_at(x, 4)) % 0x1_0000_0000 == 0,
    ensures
        checksum_ok(b + x) == checksum_ok(b),
        checksum_ok(Seq::<u8>::empty()),
{
    let n = b.len() as int / 4;
    let c = b + x;
    assert(c.len() as int / 4 == n + 2);
    word_sum_agrees(b, c, n);
    assert(c[4 * n] == x[0] && c[4 * n + 1] == x[1] && c[4 * n + 2] == x[2] && c[4 * n + 3]
        == x[3]);
    assert(c[4 * n + 4] == x[4] && c[4 * n + 5] == x[5] && c[4 * n + 6] == x[6] && c[4 * n + 7]
        == x[7]);
    assert(u32_at(c, 4 * n) == u32_at(x, 0));
    assert(u32_at(c, 4 * (n + 1)) == u32_at(x, 4));
    assert(word_sum(c, n + 1) == word_sum(c, n) + u32_at(c, 4 * n));
    assert(word_sum(c, n + 2) == word_sum(c, n + 1) + u32_at(c, 4 * (n + 1)));
    let s = word_sum(b, n);
    let t = u32_at(x, 0) + u32_at(x, 4);
    let q = t / 0x1_0000_0000;
    assert(t == 0x1_0000_0000 * q);
    assert((s + t) % 0x1_0000_0000 == s % 0x1_0000_0000);
}

/// Bytes behind the last whole word do not count for the checksum.
pub proof fn trailing_bytes_do_not_count(b: Seq<u8>, x: Seq<u8>)
    requires
        b.len() % 4 == 0,
        x.len() < 4,
    ensures
        checksum_ok(b + x) == checksum_ok(b),
{
    let n = b.len() as int / 4;
    assert((b + x).len() as int / 4 == n);
    word_sum_agrees(b, b + x, n);
}

} // verus!
