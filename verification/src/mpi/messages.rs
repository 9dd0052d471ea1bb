//! Requests and replies of the MPI message protocol, and their wire formats.

pub use crate::mpi::ioc_status::IocStatus;

pub use crate::mpi::replies::{
    ConfigReply, FwDownloadReply, FwUploadReply, IocFactsReply, IocInitReply, ToolboxReply,
};

use crate::bytes::{le16, le32, le64, push_u16, push_u32, push_u64, push_zeros};
use crate::bytes::{le16_round_trip, le32_round_trip, read_u32, u16_at, u32_at, zeros};
use crate::mpi::mpi_sge_flags::{
    ADDR_64BIT, END_OF_BUFFER, END_OF_LIST, HOST_TO_IOC, LAST_ELEMENT, SIMPLE_ELEMENT,
};
use crate::mpi::session::Personality;
use crate::text::{dec, hex_list, hex_pad, push_dec, push_hex_list, push_hex_pad};
use vstd::prelude::*;
use vstd::std_specs::ops::BitOrSpecImpl;

verus! {

// ------------------------------------------------------------ erase flags

/// Which parts of the adapter a TOOLBOX_CLEAN request wipes, one bit per part.
#[derive(Debug, Clone, Copy, PartialEq, Eq, Structural)]
pub struct ToolboxCleanFlags {
    /// The bits of the set.
    pub raw: u32,
}

impl ToolboxCleanFlags {
    /// The NVSRAM.
    pub fn nvram() -> (r: ToolboxCleanFlags)
        ensures
            r.raw == 0x00000001,
    {
        ToolboxCleanFlags { raw: 0x00000001 }
    }

    /// The serial EEPROM.
    pub fn seeprom() -> (r: ToolboxCleanFlags)
        ensures
            r.raw == 0x00000002,
    {
        ToolboxCleanFlags { raw: 0x00000002 }
    }

    /// The flash array.
    pub fn flash() -> (r: ToolboxCleanFlags)
        ensures
            r.raw == 0x00000004,
    {
        ToolboxCleanFlags { raw: 0x00000004 }
    }

    /// The initialization data.
    pub fn initialization() -> (r: ToolboxCleanFlags)
        ensures
            r.raw == 0x01000000,
    {
        ToolboxCleanFlags { raw: 0x01000000 }
    }

    /// The MegaRAID metadata.
    pub fn megaraid() -> (r: ToolboxCleanFlags)
        ensures
            r.raw == 0x02000000,
    {
        ToolboxCleanFlags { raw: 0x02000000 }
    }

    /// The backup firmware image.
    pub fn fw_backup() -> (r: ToolboxCleanFlags)
        ensures
            r.raw == 0x08000000,
    {
        ToolboxCleanFlags { raw: 0x08000000 }
    }

    /// The firmware image in use.
    pub fn fw_current() -> (r: ToolboxCleanFlags)
        ensures
            r.raw == 0x10000000,
    {
        ToolboxCleanFlags { raw: 0x10000000 }
    }

    /// Persistent pages other than the manufacturing pages.
    pub fn other_persist_pages() -> (r: ToolboxCleanFlags)
        ensures
            r.raw == 0x20000000,
    {
        ToolboxCleanFlags { raw: 0x20000000 }
    }

    /// The persistent manufacturing pages.
    pub fn persist_manufact_pages() -> (r: ToolboxCleanFlags)
        ensures
            r.raw == 0x40000000,
    {
        ToolboxCleanFlags { raw: 0x40000000 }
    }

    /// The boot services area.
    pub fn boot_services() -> (r: ToolboxCleanFlags)
        ensures
            r.raw == 0x80000000,
    {
        ToolboxCleanFlags { raw: 0x80000000 }
    }

    /// Every part.
    pub fn all() -> (r: ToolboxCleanFlags)
        ensures
            r.raw == 0xFFFFFFFF,
    {
        ToolboxCleanFlags { raw: 0xFFFFFFFF }
    }

    /// The bits of the set.
    pub fn bits(self) -> (r: u32)
        ensures
            r == self.raw,
    {
        self.raw
    }

    /// Whether the two sets have a part in common.
    pub fn contains(&self, other: ToolboxCleanFlags) -> (r: bool)
        ensures
            r == (self.raw & other.raw != 0),
    {
        (self.raw & other.raw) != 0
    }
}

impl BitOrSpecImpl for ToolboxCleanFlags {
    open spec fn obeys_bitor_spec() -> bool {
        true
    }

    open spec fn bitor_req(self, rhs: ToolboxCleanFlags) -> bool {
        true
    }

    open spec fn bitor_spec(self, rhs: ToolboxCleanFlags) -> ToolboxCleanFlags {
        ToolboxCleanFlags { raw: self.raw | rhs.raw }
    }
}

impl std::ops::BitOr for ToolboxCleanFlags {
    type Output = ToolboxCleanFlags;

    fn bitor(self, rhs: ToolboxCleanFlags) -> (r: ToolboxCleanFlags) {
        ToolboxCleanFlags { raw: self.raw | rhs.raw }
    }
}

/// A union has a part in common with another set exactly where one of its
/// halves has.
pub proof fn clean_flags_union(a: ToolboxCleanFlags, b: ToolboxCleanFlags, c: ToolboxCleanFlags)
    ensures
        ((a.raw | b.raw) & c.raw != 0) == (a.raw & c.raw != 0 || b.raw & c.raw != 0),
{
    let (x, y, z) = (a.raw, b.raw, c.raw);
    assert(((x | y) & z != 0) == (x & z != 0 || y & z != 0)) by (bit_vector);
}

// -------------------------------------------------- functions and images

/// The operation that a message asks for.
#[derive(Debug, Clone, Copy, PartialEq, Eq, Structural)]
pub enum MpiFunction {
    /// Sets up the message queues.
    IocInit,
    /// Asks what the controller is.
    IocFacts,
    /// Reads or writes a configuration page.
    Config,
    /// Writes an image to the flash.
    FwDownload,
    /// Reads an image from the flash.
    FwUpload,
    /// Erases parts of the adapter.
    Toolbox,
}

impl MpiFunction {
    /// The number that stands for this value on the wire.
    pub open spec fn code(self) -> u8 {
        match self {
            MpiFunction::IocInit => 0x02,
            MpiFunction::IocFacts => 0x03,
            MpiFunction::Config => 0x04,
            MpiFunction::FwDownload => 0x09,
            MpiFunction::FwUpload => 0x12,
            MpiFunction::Toolbox => 0x17,
        }
    }

    /// The value that a number on the wire stands for.
    pub open spec fn decode(raw: u8) -> Option<MpiFunction> {
        match raw {
            0x02 => Some(MpiFunction::IocInit),
            0x03 => Some(MpiFunction::IocFacts),
            0x04 => Some(MpiFunction::Config),
            0x09 => Some(MpiFunction::FwDownload),
            0x12 => Some(MpiFunction::FwUpload),
            0x17 => Some(MpiFunction::Toolbox),
            _ => None,
        }
    }

    /// The name of this value.
    pub open spec fn spec_name(self) -> Seq<char> {
        match self {
            MpiFunction::IocInit => "IocInit"@,
            MpiFunction::IocFacts => "IocFacts"@,
            MpiFunction::Config => "Config"@,
            MpiFunction::FwDownload => "FwDownload"@,
            MpiFunction::FwUpload => "FwUpload"@,
            MpiFunction::Toolbox => "Toolbox"@,
        }
    }

    /// Reads a function code.
    pub fn from_u8(raw: u8) -> (r: Result<Self, MpiError>)
        ensures
            r == match MpiFunction::decode(raw) {
                Some(v) => Ok::<MpiFunction, MpiError>(v),
                None => Err(MpiError::UnknownFunction(raw)),
            },
    {
        match raw {
            0x02 => Ok(MpiFunction::IocInit),
            0x03 => Ok(MpiFunction::IocFacts),
            0x04 => Ok(MpiFunction::Config),
            0x09 => Ok(MpiFunction::FwDownload),
            0x12 => Ok(MpiFunction::FwUpload),
            0x17 => Ok(MpiFunction::Toolbox),
            _ => Err(MpiError::UnknownFunction(raw)),
        }
    }

    /// The number that stands for this value on the wire.
    pub fn as_u8(self) -> (r: u8)
        ensures
            r == self.code(),
    {
        match self {
            MpiFunction::IocInit => 0x02,
            MpiFunction::IocFacts => 0x03,
            MpiFunction::Config => 0x04,
            MpiFunction::FwDownload => 0x09,
            MpiFunction::FwUpload => 0x12,
            MpiFunction::Toolbox => 0x17,
        }
    }

    /// The name of this value.
    pub fn name(self) -> (r: &'static str)
        ensures
            r@ == self.spec_name(),
    {
        match self {
            MpiFunction::IocInit => "IocInit",
            MpiFunction::IocFacts => "IocFacts",
            MpiFunction::Config => "Config",
            MpiFunction::FwDownload => "FwDownload",
            MpiFunction::FwUpload => "FwUpload",
            MpiFunction::Toolbox => "Toolbox",
        }
    }
}

/// A function code survives the way to the wire and back.
pub proof fn function_round_trip(f: MpiFunction, raw: u8)
    ensures
        MpiFunction::decode(f.code()) == Some(f),
        MpiFunction::decode(raw) == Some(f) ==> raw == f.code(),
{
}

/// Which image of the flash a message is about.
#[derive(Debug, Clone, Copy, PartialEq, Eq, Structural, Hash)]
pub enum ImageType {
    /// Nothing, or the running firmware in an upload.
    Reserved,
    /// The firmware.
    Fw,
    /// The option ROM.
    Bios,
    /// The non-volatile data.
    NvData,
    /// The boot loader.
    BootLoader,
    /// The initialization data.
    Initialization,
    /// The flash layout; in an upload, the manufacturing pages.
    FlashLayout,
    /// The list of supported devices.
    SupportedDevices,
    /// The MegaRAID image.
    MegaRaid,
}

impl ImageType {
    /// The number that stands for this value on the wire.
    pub open spec fn code(self) -> u8 {
        match self {
            ImageType::Reserved => 0x00,
            ImageType::Fw => 0x01,
            ImageType::Bios => 0x02,
            ImageType::NvData => 0x03,
            ImageType::BootLoader => 0x04,
            ImageType::Initialization => 0x05,
            ImageType::FlashLayout => 0x06,
            ImageType::SupportedDevices => 0x07,
            ImageType::MegaRaid => 0x08,
        }
    }

    /// The value that a number on the wire stands for.
    pub open spec fn decode(raw: u8) -> Option<ImageType> {
        match raw {
            0x00 => Some(ImageType::Reserved),
            0x01 => Some(ImageType::Fw),
            0x02 => Some(ImageType::Bios),
            0x03 => Some(ImageType::NvData),
            0x04 => Some(ImageType::BootLoader),
            0x05 => Some(ImageType::Initialization),
            0x06 => Some(ImageType::FlashLayout),
            0x07 => Some(ImageType::SupportedDevices),
            0x08 => Some(ImageType::MegaRaid),
            _ => None,
        }
    }

    /// The name of this value.
    pub open spec fn spec_name(self) -> Seq<char> {
        match self {
            ImageType::Reserved => "Reserved"@,
            ImageType::Fw => "Fw"@,
            ImageType::Bios => "Bios"@,
            ImageType::NvData => "NvData"@,
            ImageType::BootLoader => "BootLoader"@,
            ImageType::Initialization => "Initialization"@,
            ImageType::FlashLayout => "FlashLayout"@,
            ImageType::SupportedDevices => "SupportedDevices"@,
            ImageType::MegaRaid => "MegaRaid"@,
        }
    }

    /// Reads an image type.
    pub fn from_u8(raw: u8) -> (r: Result<Self, MpiError>)
        ensures
            r == match ImageType::decode(raw) {
                Some(v) => Ok::<ImageType, MpiError>(v),
                None => Err(MpiError::UnknownImageType(raw)),
            },
    {
        match raw {
            0x00 => Ok(ImageType::Reserved),
            0x01 => Ok(ImageType::Fw),
            0x02 => Ok(ImageType::Bios),
            0x03 => Ok(ImageType::NvData),
            0x04 => Ok(ImageType::BootLoader),
            0x05 => Ok(ImageType::Initialization),
            0x06 => Ok(ImageType::FlashLayout),
            0x07 => Ok(ImageType::SupportedDevices),
            0x08 => Ok(ImageType::MegaRaid),
            _ => Err(MpiError::UnknownImageType(raw)),
        }
    }

    /// The number that stands for this value on the wire.
    pub fn as_u8(self) -> (r: u8)
        ensures
            r == self.code(),
    {
        match self {
            ImageType::Reserved => 0x00,
            ImageType::Fw => 0x01,
            ImageType::Bios => 0x02,
            ImageType::NvData => 0x03,
            ImageType::BootLoader => 0x04,
            ImageType::Initialization => 0x05,
            ImageType::FlashLayout => 0x06,
            ImageType::SupportedDevices => 0x07,
            ImageType::MegaRaid => 0x08,
        }
    }

    /// The name of this value.
    pub fn name(self) -> (r: &'static str)
        ensures
            r@ == self.spec_name(),
    {
        match self {
            ImageType::Reserved => "Reserved",
            ImageType::Fw => "Fw",
            ImageType::Bios => "Bios",
            ImageType::NvData => "NvData",
            ImageType::BootLoader => "BootLoader",
            ImageType::Initialization => "Initialization",
            ImageType::FlashLayout => "FlashLayout",
            ImageType::SupportedDevices => "SupportedDevices",
            ImageType::MegaRaid => "MegaRaid",
        }
    }
}

/// An image type survives the way to the wire and back.
pub proof fn image_type_round_trip(t: ImageType, raw: u8)
    ensures
        ImageType::decode(t.code()) == Some(t),
        ImageType::decode(raw) == Some(t) ==> raw == t.code(),
{
}

// ------------------------------------------------- scatter/gather elements

/// A 64-bit scatter/gather element in IEEE form.
#[derive(Debug, Clone, Copy)]
pub struct IeeeSgeSimple64 {
    /// Where the buffer is, as the controller sees it.
    pub address: u64,
    /// How many bytes it has.
    pub length: u32,
    /// Element type, end-of-list marks and address space.
    pub flags: u8,
}

impl IeeeSgeSimple64 {
    /// The element on the wire.
    pub open spec fn wire(self) -> Seq<u8> {
        le64(self.address) + le32(self.length) + seq![0u8, 0u8, 0u8, self.flags]
    }

    /// The only element of a list.
    pub fn new(address: u64, length: u32) -> (r: Self)
        ensures
            r == (IeeeSgeSimple64 { address, length, flags: 0x40 }),
    {
        IeeeSgeSimple64 { address, length, flags: 0x40 }
    }

    /// An element with the given flags.
    pub fn with_flags(address: u64, length: u32, flags: u8) -> (r: Self)
        ensures
            r == (IeeeSgeSimple64 { address, length, flags }),
    {
        IeeeSgeSimple64 { address, length, flags }
    }

    /// Whether the element ends its list: bit 6 in IEEE form, bit 7 otherwise.
    pub fn end_of_list(&self) -> (r: bool)
        ensures
            r == (self.flags & 0xC0 != 0),
    {
        self.flags & 0xC0 != 0
    }

    /// Appends the element to a message.
    pub fn serialize_to(&self, buf: &mut Vec<u8>)
        ensures
            final(buf)@ == old(buf)@ + self.wire(),
    {
        push_u64(buf, self.address);
        push_u32(buf, self.length);
        buf.push(0);
        buf.push(0);
        buf.push(0);
        buf.push(self.flags);
        assert(buf@ =~= old(buf)@ + self.wire());
    }

    /// How many bytes the element has on the wire.
    pub fn serialized_size() -> (r: usize)
        ensures
            forall|e: IeeeSgeSimple64| (#[trigger] e.wire()).len() == r,
    {
        16
    }
}

/// A 64-bit scatter/gather element in the form of MPI 2.0: one word with the
/// flags in its high byte and the length below, then the address.
#[derive(Debug, Clone, Copy)]
pub struct MpiSgeSimple64 {
    /// Where the buffer is, as the controller sees it.
    pub address: u64,
    /// How many bytes it has.
    pub length: u32,
    /// The flags, see `mpi_sge_flags`.
    pub flags: u8,
}

impl MpiSgeSimple64 {
    /// The element on the wire.
    pub open spec fn wire(self) -> Seq<u8> {
        le32((self.flags * 0x0100_0000 + self.length) as u32) + le64(self.address)
    }

    /// The only element of a list, for a buffer that the controller writes.
    pub fn ioc_to_host_one_shot(address: u64, length: u32) -> (r: Self)
        ensures
            r == (MpiSgeSimple64 { address, length, flags: 0xD3 }),
    {
        assert(0x10u8 | 0x80 | 0x40 | 0x02 | 0x01 == 0xD3) by (bit_vector);
        MpiSgeSimple64 {
            address,
            length,
            flags: SIMPLE_ELEMENT | LAST_ELEMENT | END_OF_BUFFER | ADDR_64BIT | END_OF_LIST,
        }
    }

    /// The only element of a list, for a buffer that the controller reads.
    pub fn host_to_ioc_one_shot(address: u64, length: u32) -> (r: Self)
        ensures
            r == (MpiSgeSimple64 { address, length, flags: 0xD7 }),
    {
        assert(0x10u8 | 0x80 | 0x40 | 0x02 | 0x01 | 0x04 == 0xD7) by (bit_vector);
        MpiSgeSimple64 {
            address,
            length,
            flags: SIMPLE_ELEMENT | LAST_ELEMENT | END_OF_BUFFER | ADDR_64BIT | END_OF_LIST
                | HOST_TO_IOC,
        }
    }

    /// Appends the element to a message. The length field has 24 bits.
    pub fn serialize_to(&self, buf: &mut Vec<u8>)
        requires
            self.length <= 0x00FF_FFFF,
        ensures
            final(buf)@ == old(buf)@ + self.wire(),
    {
        let flags_length: u32 = self.flags as u32 * 0x0100_0000 + self.length;
        push_u32(buf, flags_length);
        push_u64(buf, self.address);
        assert(buf@ =~= old(buf)@ + self.wire());
    }

    /// How many bytes the element has on the wire.
    pub fn serialized_size() -> (r: usize)
        ensures
            forall|e: MpiSgeSimple64| (#[trigger] e.wire()).len() == r,
    {
        12
    }
}

// --------------------------------------------------------------- requests

/// One piece of an image to be written to the flash.
#[derive(Debug, Clone)]
pub struct FwDownloadRequest<'a> {
    /// Which image.
    pub image_type: ImageType,
    /// Where in the image this piece starts.
    pub image_offset: u32,
    /// How many bytes this piece has.
    pub image_size: u32,
    /// How many bytes the whole image has.
    pub total_image_size: u32,
    /// Whether this is the last piece.
    pub last_segment: bool,
    /// The bytes.
    pub payload: &'a [u8],
}

/// The flag byte of a download.
pub open spec fn download_flags(last_segment: bool) -> u8 {
    if last_segment {
        1
    } else {
        0
    }
}

impl FwDownloadRequest<'_> {
    /// The message: a request header, the request itself, and one element for
    /// the payload at `payload_address`.
    pub open spec fn wire(&self, smid: u16, payload_address: u64) -> Seq<u8> {
        let flags = download_flags(self.last_segment);
        let sge = IeeeSgeSimple64 {
            address: payload_address,
            length: self.payload@.len() as u32,
            flags: 0x40,
        };
        seq![0u8, 0u8, 0u8, 0x09u8] + le16(smid) + seq![1u8, flags, 0u8, 0u8, 0u8, 0u8] + seq![
            self.image_type.code(),
            0u8,
            0u8,
            0x09u8,
            0u8,
            0u8,
            0u8,
            flags,
            0u8,
            0u8,
            0u8,
            0u8,
        ] + le32(self.total_image_size) + zeros(4) + le32(self.image_offset) + le32(self.image_size)
            + sge.wire()
    }

    /// Builds the message. `payload_address` is where the controller finds the
    /// payload.
    pub fn serialize_to(&self, smid: u16, payload_address: u64) -> (r: Vec<u8>)
        ensures
            r@ == self.wire(smid, payload_address),
            r@.len() == 56,
    {
        let flags: u8 = if self.last_segment { 1 } else { 0 };
        let mut buf: Vec<u8> = Vec::new();
        push_zeros(&mut buf, 3);
        buf.push(MpiFunction::FwDownload.as_u8());
        push_u16(&mut buf, smid);
        buf.push(1);
        buf.push(flags);
        push_zeros(&mut buf, 4);
        buf.push(self.image_type.as_u8());
        push_zeros(&mut buf, 2);
        buf.push(MpiFunction::FwDownload.as_u8());
        push_zeros(&mut buf, 3);
        buf.push(flags);
        push_zeros(&mut buf, 4);
        push_u32(&mut buf, self.total_image_size);
        push_zeros(&mut buf, 4);
        push_u32(&mut buf, self.image_offset);
        push_u32(&mut buf, self.image_size);
        let sge = IeeeSgeSimple64::new(payload_address, self.payload.len() as u32);
        sge.serialize_to(&mut buf);
        assert(buf@ =~= self.wire(smid, payload_address));
        buf
    }
}

/// An image to be read from the flash.
#[derive(Debug, Clone)]
pub struct FwUploadRequest {
    /// Which image.
    pub image_type: ImageType,
    /// Where in the image to start.
    pub image_offset: u32,
    /// How many bytes to read at most.
    pub image_size: u32,
    /// Receives the bytes.
    pub payload_buffer: Vec<u8>,
}

impl FwUploadRequest {
    /// How many bytes the controller may write.
    pub open spec fn transfer_len(&self) -> int {
        if self.payload_buffer@.len() < self.image_size {
            self.payload_buffer@.len() as int
        } else {
            self.image_size as int
        }
    }

    /// The message: the request and one MPI 2.0 element for the buffer at
    /// `iova`. There is no separate request header.
    pub open spec fn wire(&self, iova: u64) -> Seq<u8> {
        let sge = MpiSgeSimple64 {
            address: iova,
            length: self.transfer_len() as u32,
            flags: 0xD3,
        };
        seq![self.image_type.code(), 0u8, 0u8, 0x12u8] + zeros(16) + sge.wire()
    }

    /// Builds the message. `iova` is where the controller finds the buffer.
    pub fn serialize_to(&self, iova: u64) -> (r: Vec<u8>)
        requires
            self.transfer_len() <= 0x00FF_FFFF,
        ensures
            r@ == self.wire(iova),
            r@.len() == 32,
    {
        let len: u32 = if self.payload_buffer.len() < self.image_size as usize {
            self.payload_buffer.len() as u32
        } else {
            self.image_size
        };
        let mut buf: Vec<u8> = Vec::new();
        buf.push(self.image_type.as_u8());
        push_zeros(&mut buf, 2);
        buf.push(MpiFunction::FwUpload.as_u8());
        push_zeros(&mut buf, 16);
        let sge = MpiSgeSimple64::ioc_to_host_one_shot(iova, len);
        sge.serialize_to(&mut buf);
        assert(buf@ =~= self.wire(iova));
        buf
    }
}

/// Parts of the adapter to be erased.
#[derive(Debug, Clone)]
pub struct ToolboxCleanRequest {
    /// Which parts.
    pub flags: ToolboxCleanFlags,
}

impl ToolboxCleanRequest {
    /// The message: a request header, the request, and the flags.
    pub open spec fn wire(&self, smid: u16) -> Seq<u8> {
        seq![0u8, 0u8, 0u8, 0x17u8] + le16(smid) + zeros(6) + seq![0u8, 0u8, 0u8, 0x17u8] + zeros(8)
            + le32(self.flags.raw)
    }

    /// Builds the message.
    pub fn serialize_to(&self, smid: u16) -> (r: Vec<u8>)
        ensures
            r@ == self.wire(smid),
            r@.len() == 28,
    {
        let mut buf: Vec<u8> = Vec::new();
        push_zeros(&mut buf, 3);
        buf.push(MpiFunction::Toolbox.as_u8());
        push_u16(&mut buf, smid);
        push_zeros(&mut buf, 6);
        push_zeros(&mut buf, 3);
        buf.push(MpiFunction::Toolbox.as_u8());
        push_zeros(&mut buf, 8);
        push_u32(&mut buf, self.flags.bits());
        assert(buf@ =~= self.wire(smid));
        buf
    }
}

/// A configuration page to be read or written.
#[derive(Debug, Clone)]
pub struct ConfigRequest {
    /// What to do with the page.
    pub action: u8,
    /// Direction of the transfer.
    pub sgl_flags: u8,
    /// The type of the page.
    pub page_type: u8,
    /// The number of the page within its type.
    pub page_number: u8,
    /// The type of an extended page.
    pub ext_page_type: Option<u8>,
    /// Receives the page.
    pub payload_buffer: Vec<u8>,
    /// Selects the object that an addressed page describes; zero for a plain
    /// page.
    pub page_address: u32,
}

impl ConfigRequest {
    /// The message: the request, with the page header at 0x14 and the page
    /// address at 0x18, and room for one element at 0x1C. There is no separate
    /// request header.
    pub open spec fn wire(&self) -> Seq<u8> {
        seq![self.action, self.sgl_flags, 0u8, 0x04u8, 0u8, 0u8] + seq![
            match self.ext_page_type {
                Some(t) => t,
                None => 0u8,
            },
        ] + zeros(13) + seq![
            0u8,
            (self.payload_buffer@.len() as usize / 4) as u8,
            self.page_number,
            self.page_type,
        ] + le32(self.page_address) + zeros(16)
    }

    /// Builds the message. The page request has no field for a message id.
    pub fn serialize_to(&self, _smid: u16) -> (r: Vec<u8>)
        ensures
            r@ == self.wire(),
            r@.len() == 0x2C,
    {
        let ext: u8 = match self.ext_page_type {
            Some(t) => t,
            None => 0,
        };
        let mut buf: Vec<u8> = Vec::new();
        buf.push(self.action);
        buf.push(self.sgl_flags);
        buf.push(0);
        buf.push(MpiFunction::Config.as_u8());
        push_zeros(&mut buf, 2);
        buf.push(ext);
        push_zeros(&mut buf, 13);
        buf.push(0);
        buf.push((self.payload_buffer.len() / 4) as u8);
        buf.push(self.page_number);
        buf.push(self.page_type);
        push_u32(&mut buf, self.page_address);
        push_zeros(&mut buf, 16);
        assert(buf@ =~= self.wire());
        buf
    }
}

/// Sets up the message queues.
#[derive(Debug, Clone)]
pub struct IocInitRequest {
    /// Who asks.
    pub who_init: u8,
    /// How many MSI-X vectors the host supports.
    pub host_msix_vectors: u8,
    /// How many entries the reply queue has.
    pub reply_descriptor_post_queue_depth: u16,
    /// Where the request frames are.
    pub system_request_frame_base_address: u64,
    /// Where the reply queue is.
    pub reply_descriptor_post_queue_address: u64,
}

impl IocInitRequest {
    /// The message. There is no separate request header.
    pub open spec fn wire(&self) -> Seq<u8> {
        seq![self.who_init, 0u8, 0u8, 0x02u8] + zeros(19) + seq![self.host_msix_vectors] + zeros(4)
            + le16(self.reply_descriptor_post_queue_depth) + zeros(10) + le64(
            self.system_request_frame_base_address,
        ) + le64(self.reply_descriptor_post_queue_address) + zeros(16)
    }

    /// Builds the message. It has no field for a message id.
    pub fn serialize_to(&self, _smid: u16) -> (r: Vec<u8>)
        ensures
            r@ == self.wire(),
            r@.len() == 0x48,
    {
        let mut buf: Vec<u8> = Vec::new();
        buf.push(self.who_init);
        push_zeros(&mut buf, 2);
        buf.push(MpiFunction::IocInit.as_u8());
        push_zeros(&mut buf, 19);
        buf.push(self.host_msix_vectors);
        push_zeros(&mut buf, 4);
        push_u16(&mut buf, self.reply_descriptor_post_queue_depth);
        push_zeros(&mut buf, 10);
        push_u64(&mut buf, self.system_request_frame_base_address);
        push_u64(&mut buf, self.reply_descriptor_post_queue_address);
        push_zeros(&mut buf, 16);
        assert(buf@ =~= self.wire());
        buf
    }
}

/// Asks what the controller is.
#[derive(Debug, Clone)]
pub struct IocFactsRequest;

impl IocFactsRequest {
    /// The message: a request header, and a body that holds nothing.
    pub open spec fn wire(smid: u16) -> Seq<u8> {
        seq![0u8, 0u8, 0u8, 0x03u8] + le16(smid) + zeros(10)
    }

    /// Builds the message.
    pub fn serialize_to(smid: u16) -> (r: Vec<u8>)
        ensures
            r@ == IocFactsRequest::wire(smid),
            r@.len() == 16,
    {
        let mut buf: Vec<u8> = Vec::new();
        push_zeros(&mut buf, 3);
        buf.push(MpiFunction::IocFacts.as_u8());
        push_u16(&mut buf, smid);
        push_zeros(&mut buf, 10);
        assert(buf@ =~= IocFactsRequest::wire(smid));
        buf
    }
}

// ----------------------------------------------------------------- errors

/// Errors of the message layer.
#[derive(Debug)]
pub enum MpiError {
    /// The controller refused the request.
    IocStatus(IocStatus),
    /// The reply is too short for its function.
    MalformedReply { function: MpiFunction, got: usize, need: usize },
    /// The reply answers another function.
    WrongReplyFunction {
        expected: MpiFunction,
        got_function: u8,
        expected_function: u8,
        head: Vec<u8>,
    },
    /// The number is no known status.
    UnknownIocStatus(u16),
    /// The number is no known function.
    UnknownFunction(u8),
    /// The number is no known image type.
    UnknownImageType(u8),
    /// The running firmware is of another kind than the firmware to be written.
    PersonalityMismatch { running: Personality, target: Personality },
    /// What was read back differs from what was written.
    VerifyMismatch { offset: usize },
    /// The operation is withheld on real hardware.
    NotImplementedYet { op: &'static str },
    /// The hardware could not be reached.
    Io(String),
}

/// Each byte as a number.
pub open spec fn widened(b: Seq<u8>) -> Seq<u64> {
    b.map_values(|x: u8| x as u64)
}

fn widen(b: &[u8]) -> (r: Vec<u64>)
    ensures
        r@ == widened(b@),
{
    let mut r: Vec<u64> = Vec::new();
    let mut i: usize = 0;
    while i < b.len()
        invariant
            i <= b@.len(),
            r@ == widened(b@.take(i as int)),
        decreases b@.len() - i,
    {
        r.push(b[i] as u64);
        i += 1;
        assert(r@ =~= widened(b@.take(i as int)));
    }
    assert(b@.take(i as int) =~= b@);
    r
}

impl MpiError {
    /// The error in words.
    pub open spec fn spec_text(&self) -> Seq<char> {
        match self {
            MpiError::IocStatus(s) => "IOC reported error: "@ + s.spec_text(),
            MpiError::MalformedReply { function, got, need } => "malformed reply for "@
                + function.spec_name() + ": frame too short ("@ + dec(*got as nat) + " < "@ + dec(
                *need as nat,
            ) + ")"@,
            MpiError::WrongReplyFunction { expected, got_function, expected_function, head } => {
                "malformed reply for "@ + expected.spec_name() + ": function byte = 0x"@ + hex_pad(
                    *got_function as nat,
                    2,
                    true,
                ) + " (expected 0x"@ + hex_pad(*expected_function as nat, 2, true)
                    + "); first 16 reply bytes = "@ + hex_list(widened(head@), 2)
            },
            MpiError::UnknownIocStatus(c) => "unknown IOCStatus code 0x"@ + hex_pad(
                *c as nat,
                4,
                true,
            ),
            MpiError::UnknownFunction(c) => "unknown MpiFunction code 0x"@ + hex_pad(
                *c as nat,
                2,
                true,
            ),
            MpiError::UnknownImageType(c) => "unknown ImageType code 0x"@ + hex_pad(
                *c as nat,
                2,
                true,
            ),
            MpiError::PersonalityMismatch { running, target } => "personality mismatch: running="@
                + running.spec_name() + ", target="@ + target.spec_name() + " — ADR-015 Rule 1"@,
            MpiError::VerifyMismatch { offset } => "verify-after-write mismatch at offset "@ + dec(
                *offset as nat,
            ),
            MpiError::NotImplementedYet { op } => op@
                + " not implemented yet (brick-gated; see lsiutil_fragility_and_brick.md)"@,
            MpiError::Io(s) => "hardware I/O error: "@ + s@,
        }
    }

    /// The error in words.
    pub fn text(&self) -> (r: String)
        ensures
            r@ == self.spec_text(),
    {
        match self {
            MpiError::IocStatus(s) => {
                let mut t = "IOC reported error: ".to_owned();
                t.append(s.text());
                t
            },
            MpiError::MalformedReply { function, got, need } => {
                let mut t = "malformed reply for ".to_owned();
                t.append(function.name());
                t.append(": frame too short (");
                push_dec(&mut t, *got as u64);
                t.append(" < ");
                push_dec(&mut t, *need as u64);
                t.append(")");
                t
            },
            MpiError::WrongReplyFunction { expected, got_function, expected_function, head } => {
                let mut t = "malformed reply for ".to_owned();
                t.append(expected.name());
                t.append(": function byte = 0x");
                push_hex_pad(&mut t, *got_function as u64, 2, true);
                t.append(" (expected 0x");
                push_hex_pad(&mut t, *expected_function as u64, 2, true);
                t.append("); first 16 reply bytes = ");
                push_hex_list(&mut t, widen(head.as_slice()).as_slice(), 2);
                t
            },
            MpiError::UnknownIocStatus(c) => {
                let mut t = "unknown IOCStatus code 0x".to_owned();
                push_hex_pad(&mut t, *c as u64, 4, true);
                t
            },
            MpiError::UnknownFunction(c) => {
                let mut t = "unknown MpiFunction code 0x".to_owned();
                push_hex_pad(&mut t, *c as u64, 2, true);
                t
            },
            MpiError::UnknownImageType(c) => {
                let mut t = "unknown ImageType code 0x".to_owned();
                push_hex_pad(&mut t, *c as u64, 2, true);
                t
            },
            MpiError::PersonalityMismatch { running, target } => {
                let mut t = "personality mismatch: running=".to_owned();
                t.append(running.name());
                t.append(", target=");
                t.append(target.name());
                t.append(" — ADR-015 Rule 1");
                t
            },
            MpiError::VerifyMismatch { offset } => {
                let mut t = "verify-after-write mismatch at offset ".to_owned();
                push_dec(&mut t, *offset as u64);
                t
            },
            MpiError::NotImplementedYet { op } => {
                let mut t = (*op).to_owned();
                t.append(" not implemented yet (brick-gated; see lsiutil_fragility_and_brick.md)");
                t
            },
            MpiError::Io(s) => {
                let mut t = "hardware I/O error: ".to_owned();
                t.append(s.as_str());
                t
            },
        }
    }
}

// ------------------------------------------------------------ flash layout

/// One region of the flash, as the controller describes it.
#[derive(Debug, Clone, Copy, PartialEq, Eq, Structural)]
pub struct FlashRegion {
    /// What the region holds.
    pub region_type: u8,
    /// Unused.
    pub reserved_1: u8,
    /// Unused.
    pub reserved_2: u16,
    /// Where the region starts.
    pub region_offset: u32,
    /// How many bytes it has.
    pub region_size: u32,
    /// Unused.
    pub reserved_3: u32,
}

impl FlashRegion {
    /// A region with the unused fields zero.
    pub fn new(region_type: FlashRegionType, region_offset: u32, region_size: u32) -> (r: Self)
        ensures
            r == (FlashRegion {
                region_type: region_type.code(),
                reserved_1: 0,
                reserved_2: 0,
                region_offset,
                region_size,
                reserved_3: 0,
            }),
    {
        FlashRegion {
            region_type: region_type.as_u8(),
            reserved_1: 0,
            reserved_2: 0,
            region_offset,
            region_size,
            reserved_3: 0,
        }
    }

    /// What the region holds.
    pub fn region_type(&self) -> (r: FlashRegionType)
        ensures
            r == FlashRegionType::decode(self.region_type),
    {
        FlashRegionType::from_u8(self.region_type)
    }
}

/// What a region of the flash holds.
#[derive(Debug, Clone, Copy, PartialEq, Eq, Structural)]
pub enum FlashRegionType {
    /// Nothing.
    Unused,
    /// The firmware.
    Firmware,
    /// The option ROM.
    Bios,
    /// The manufacturing pages.
    Manufacturing,
    /// Configuration pages.
    Config,
    /// Manufacturing and configuration pages together.
    MfgPlusConfig,
    /// The boot services.
    BootService,
    /// The log.
    Log,
    /// Something else.
    Other(u8),
}

impl FlashRegionType {
    /// The number that stands for this value on the wire.
    pub open spec fn code(self) -> u8 {
        match self {
            FlashRegionType::Unused => 0x00,
            FlashRegionType::Firmware => 0x01,
            FlashRegionType::Bios => 0x02,
            FlashRegionType::Manufacturing => 0x03,
            FlashRegionType::Config => 0x04,
            FlashRegionType::MfgPlusConfig => 0x05,
            FlashRegionType::BootService => 0x06,
            FlashRegionType::Log => 0x07,
            FlashRegionType::Other(v) => v,
        }
    }

    /// The value that a number on the wire stands for.
    pub open spec fn decode(v: u8) -> FlashRegionType {
        match v {
            0x00 => FlashRegionType::Unused,
            0x01 => FlashRegionType::Firmware,
            0x02 => FlashRegionType::Bios,
            0x03 => FlashRegionType::Manufacturing,
            0x04 => FlashRegionType::Config,
            0x05 => FlashRegionType::MfgPlusConfig,
            0x06 => FlashRegionType::BootService,
            0x07 => FlashRegionType::Log,
            _ => FlashRegionType::Other(v),
        }
    }

    /// Reads a region type.
    pub fn from_u8(v: u8) -> (r: Self)
        ensures
            r == FlashRegionType::decode(v),
    {
        match v {
            0x00 => FlashRegionType::Unused,
            0x01 => FlashRegionType::Firmware,
            0x02 => FlashRegionType::Bios,
            0x03 => FlashRegionType::Manufacturing,
            0x04 => FlashRegionType::Config,
            0x05 => FlashRegionType::MfgPlusConfig,
            0x06 => FlashRegionType::BootService,
            0x07 => FlashRegionType::Log,
            _ => FlashRegionType::Other(v),
        }
    }

    /// The number that stands for this value on the wire.
    pub fn as_u8(self) -> (r: u8)
        ensures
            r == self.code(),
    {
        match self {
            FlashRegionType::Unused => 0x00,
            FlashRegionType::Firmware => 0x01,
            FlashRegionType::Bios => 0x02,
            FlashRegionType::Manufacturing => 0x03,
            FlashRegionType::Config => 0x04,
            FlashRegionType::MfgPlusConfig => 0x05,
            FlashRegionType::BootService => 0x06,
            FlashRegionType::Log => 0x07,
            FlashRegionType::Other(v) => v,
        }
    }
}

/// Every number survives as a region type, and so does every region type but
/// `Other` of a number that has a name of its own.
pub proof fn region_type_round_trip(v: u8, t: FlashRegionType)
    ensures
        FlashRegionType::decode(v).code() == v,
        !(t matches FlashRegionType::Other(o) && o <= 7) ==> FlashRegionType::decode(t.code()) == t,
{
}

/// The map of the flash, as the controller describes it.
#[derive(Debug, Clone, PartialEq, Eq)]
pub struct FlashLayoutReply {
    /// How many bytes the flash has.
    pub flash_size: u32,
    /// The regions in the order of the frame.
    pub regions: Vec<FlashRegion>,
}

/// The `i`-th region of a layout frame: 16 bytes each, after a header of 16.
pub open spec fn frame_region(b: Seq<u8>, i: int) -> FlashRegion {
    FlashRegion {
        region_type: b[16 + 16 * i],
        reserved_1: 0,
        reserved_2: 0,
        region_offset: u32_at(b, 20 + 16 * i),
        region_size: u32_at(b, 24 + 16 * i),
        reserved_3: 0,
    }
}

impl FlashLayoutReply {
    /// Reads the map. The length of the frame says how many regions it has.
    pub fn parse(bytes: &[u8]) -> (r: Result<Self, MpiError>)
        ensures
            bytes@.len() < 16 ==> r == Err::<FlashLayoutReply, MpiError>(
                MpiError::MalformedReply {
                    function: MpiFunction::Config,
                    got: bytes@.len() as usize,
                    need: 16,
                },
            ),
            bytes@.len() >= 16 ==> (r matches Ok(v) && v.flash_size == u32_at(bytes@, 0)
                && v.regions@ == Seq::new(
                ((bytes@.len() - 16) / 16) as nat,
                |i: int| frame_region(bytes@, i),
            )),
    {
        if bytes.len() < 16 {
            return Err(
                MpiError::MalformedReply {
                    function: MpiFunction::Config,
                    got: bytes.len(),
                    need: 16,
                },
            );
        }
        let n: usize = (bytes.len() - 16) / 16;
        let mut regions: Vec<FlashRegion> = Vec::new();
        let mut i: usize = 0;
        while i < n
            invariant
                i <= n,
                n == (bytes@.len() - 16) / 16,
                bytes@.len() <= usize::MAX,
                bytes@.len() >= 16,
                regions@ == Seq::new(i as nat, |k: int| frame_region(bytes@, k)),
            decreases n - i,
        {
            let o: usize = 16 + i * 16;
            regions.push(
                FlashRegion {
                    region_type: bytes[o],
                    reserved_1: 0,
                    reserved_2: 0,
                    region_offset: read_u32(bytes, o + 4),
                    region_size: read_u32(bytes, o + 8),
                    reserved_3: 0,
                },
            );
            i += 1;
            assert(regions@ =~= Seq::new(i as nat, |k: int| frame_region(bytes@, k)));
        }
        Ok(FlashLayoutReply { flash_size: read_u32(bytes, 0), regions })
    }

    /// The first region of the given type.
    pub fn region(&self, kind: FlashRegionType) -> (r: Option<&FlashRegion>)
        ensures
            match r {
                Some(f) => exists|i: int|
                    0 <= i < self.regions@.len() && self.regions@[i] == *f
                        && FlashRegionType::decode(f.region_type) == kind && forall|k: int|
                        0 <= k < i ==> FlashRegionType::decode((#[trigger] self.regions@[k]).region_type)
                            != kind,
                None => forall|k: int|
                    0 <= k < self.regions@.len() ==> FlashRegionType::decode(
                        (#[trigger] self.regions@[k]).region_type,
                    ) != kind,
            },
    {
        let mut i: usize = 0;
        while i < self.regions.len()
            invariant
                i <= self.regions@.len(),
                forall|k: int|
                    0 <= k < i ==> FlashRegionType::decode((#[trigger] self.regions@[k]).region_type)
                        != kind,
            decreases self.regions@.len() - i,
        {
            if self.regions[i].region_type() == kind {
                return Some(&self.regions[i]);
            }
            i += 1;
        }
        None
    }
}

// ---------------------------------------------------------------- the laws

/// The number of each image on the wire.
pub open spec fn image_number(t: ImageType, n: u8) -> bool {
    match n {
        0x00 => t is Reserved,
        0x01 => t is Fw,
        0x02 => t is Bios,
        0x03 => t is NvData,
        0x04 => t is BootLoader,
        0x05 => t is Initialization,
        0x06 => t is FlashLayout,
        0x07 => t is SupportedDevices,
        0x08 => t is MegaRaid,
        _ => false,
    }
}

/// The two halves of a 64-bit field, low half first.
proof fn halves_are_read_back(v: u64, before: Seq<u8>, after: Seq<u8>)
    ensures
        ({
            let b = before + le64(v) + after;
            let o = before.len() as int;
            u32_at(b, o) + 0x1_0000_0000 * u32_at(b, o + 4) == v
        }),
{
    let low = (v % 0x1_0000_0000) as u32;
    let high = (v / 0x1_0000_0000) as u32;
    le32_round_trip(low, before, le32(high) + after);
    le32_round_trip(high, before + le32(low), after);
    assert(before + le32(low) + (le32(high) + after) =~= before + le64(v) + after);
    assert(before + le32(low) + le32(high) + after =~= before + le64(v) + after);
}

/// A download on the wire: 56 bytes, with the function 0x09 at 3 and 15, the message id at 4,
/// the mark of the last piece at 7 and 19, the image at 12, the size of the whole image at 24,
/// the place and the size of the piece at 32 and 36, and the address, the length and the flags
/// of the payload at 40, 48 and 55.
pub proof fn download_fields_are_in_place(req: FwDownloadRequest<'_>, smid: u16, address: u64)
    requires
        req.payload@.len() <= u32::MAX,
    ensures
        ({
            let b = req.wire(smid, address);
            &&& b.len() == 56
            &&& b[3] == 0x09 && b[15] == 0x09
            &&& u16_at(b, 4) == smid
            &&& b[6] == 1
            &&& b[7] == if req.last_segment { 1u8 } else { 0u8 }
            &&& b[19] == b[7]
            &&& image_number(req.image_type, b[12])
            &&& u32_at(b, 24) == req.total_image_size
            &&& u32_at(b, 32) == req.image_offset
            &&& u32_at(b, 36) == req.image_size
            &&& u32_at(b, 40) + 0x1_0000_0000 * u32_at(b, 44) == address
            &&& u32_at(b, 48) == req.payload@.len()
            &&& b[55] == 0x40
        }),
{
    let b = req.wire(smid, address);
    assert(b.len() == 56);
    le16_round_trip(smid, b.take(4), b.skip(6));
    assert(b =~= b.take(4) + le16(smid) + b.skip(6));
    le32_round_trip(req.total_image_size, b.take(24), b.skip(28));
    assert(b =~= b.take(24) + le32(req.total_image_size) + b.skip(28));
    le32_round_trip(req.image_offset, b.take(32), b.skip(36));
    assert(b =~= b.take(32) + le32(req.image_offset) + b.skip(36));
    le32_round_trip(req.image_size, b.take(36), b.skip(40));
    assert(b =~= b.take(36) + le32(req.image_size) + b.skip(40));
    halves_are_read_back(address, b.take(40), b.skip(48));
    assert(b =~= b.take(40) + le64(address) + b.skip(48));
    le32_round_trip(req.payload@.len() as u32, b.take(48), b.skip(52));
    assert(b =~= b.take(48) + le32(req.payload@.len() as u32) + b.skip(52));
}

/// An upload on the wire: 32 bytes, with the image at 0, the function 0x12 at 3, and at 20 one
/// element with the flags 0xD3 in its high byte, the room for the image below them, and the
/// address of the buffer behind. The controller may write no more than the buffer holds and no
/// more than was asked for.
pub proof fn upload_fields_are_in_place(req: FwUploadRequest, iova: u64)
    requires
        req.transfer_len() <= 0x00FF_FFFF,
    ensures
        ({
            let b = req.wire(iova);
            let room = b[20] + 256 * b[21] + 65536 * b[22];
            &&& b.len() == 32
            &&& image_number(req.image_type, b[0])
            &&& b[3] == 0x12
            &&& forall|i: int| 4 <= i < 20 ==> #[trigger] b[i] == 0
            &&& b[23] == 0xD3
            &&& room <= req.payload_buffer@.len() && room <= req.image_size
            &&& room == req.payload_buffer@.len() || room == req.image_size
            &&& u32_at(b, 24) + 0x1_0000_0000 * u32_at(b, 28) == iova
        }),
{
    let b = req.wire(iova);
    let word = (0xD3u8 * 0x0100_0000 + req.transfer_len() as u32) as u32;
    assert(b.len() == 32);
    le32_round_trip(word, b.take(20), b.skip(24));
    assert(b =~= b.take(20) + le32(word) + b.skip(24));
    assert(b[20] == le32(word)[0] && b[21] == le32(word)[1] && b[22] == le32(word)[2] && b[23]
        == le32(word)[3]);
    halves_are_read_back(iova, b.take(24), b.skip(32));
    assert(b =~= b.take(24) + le64(iova) + b.skip(32));
}

/// A request to erase on the wire: 28 bytes, with the function 0x17 at 3 and 15, the message id
/// at 4 and the parts to be erased at 24; every other byte is zero.
pub proof fn erase_fields_are_in_place(req: ToolboxCleanRequest, smid: u16)
    ensures
        ({
            let b = req.wire(smid);
            &&& b.len() == 28
            &&& b[3] == 0x17 && b[15] == 0x17
            &&& u16_at(b, 4) == smid
            &&& u32_at(b, 24) == req.flags.raw
            &&& forall|i: int|
                0 <= i < 24 && i != 3 && i != 4 && i != 5 && i != 15 ==> #[trigger] b[i] == 0
        }),
{
    let b = req.wire(smid);
    assert(b.len() == 28);
    le16_round_trip(smid, b.take(4), b.skip(6));
    assert(b =~= b.take(4) + le16(smid) + b.skip(6));
    le32_round_trip(req.flags.raw, b.take(24), b.skip(28));
    assert(b =~= b.take(24) + le32(req.flags.raw) + b.skip(28));
}

/// A page request on the wire: 0x2C bytes, with the action at 0, the flags at 1, the function
/// 0x04 at 3, the type of an extended page at 6, the length in words, the number and the type of
/// the page at 0x15 to 0x17, and the page address at 0x18; every other byte is zero.
pub proof fn page_fields_are_in_place(req: ConfigRequest)
    requires
        req.payload_buffer@.len() < 1024,
    ensures
        ({
            let b = req.wire();
            &&& b.len() == 0x2C
            &&& b[0] == req.action
            &&& b[1] == req.sgl_flags
            &&& b[3] == 0x04
            &&& b[6] == if req.ext_page_type is Some { req.ext_page_type->0 } else { 0u8 }
            &&& b[0x15] == req.payload_buffer@.len() / 4
            &&& b[0x16] == req.page_number
            &&& b[0x17] == req.page_type
            &&& u32_at(b, 0x18) == req.page_address
            &&& b[2] == 0 && b[4] == 0 && b[5] == 0
            &&& forall|i: int| 7 <= i < 0x15 ==> #[trigger] b[i] == 0
            &&& forall|i: int| 0x1C <= i < 0x2C ==> #[trigger] b[i] == 0
        }),
{
    let b = req.wire();
    assert(b.len() == 0x2C);
    le32_round_trip(req.page_address, b.take(0x18), b.skip(0x1C));
    assert(b =~= b.take(0x18) + le32(req.page_address) + b.skip(0x1C));
}

/// A request to start the controller on the wire: 0x48 bytes, with the asker at 0, the function
/// 0x02 at 3, the number of vectors at 0x17, the depth of the reply queue at 0x1C, and the
/// addresses of the request frames and of the reply queue at 0x28 and 0x30.
pub proof fn start_fields_are_in_place(req: IocInitRequest)
    ensures
        ({
            let b = req.wire();
            &&& b.len() == 0x48
            &&& b[0] == req.who_init
            &&& b[3] == 0x02
            &&& b[0x17] == req.host_msix_vectors
            &&& u16_at(b, 0x1C) == req.reply_descriptor_post_queue_depth
            &&& u32_at(b, 0x28) + 0x1_0000_0000 * u32_at(b, 0x2C)
                == req.system_request_frame_base_address
            &&& u32_at(b, 0x30) + 0x1_0000_0000 * u32_at(b, 0x34)
                == req.reply_descriptor_post_queue_address
            &&& forall|i: int| 0x38 <= i < 0x48 ==> #[trigger] b[i] == 0
        }),
{
    let b = req.wire();
    assert(b.len() == 0x48);
    le16_round_trip(req.reply_descriptor_post_queue_depth, b.take(0x1C), b.skip(0x1E));
    assert(b =~= b.take(0x1C) + le16(req.reply_descriptor_post_queue_depth) + b.skip(0x1E));
    halves_are_read_back(req.system_request_frame_base_address, b.take(0x28), b.skip(0x30));
    assert(b =~= b.take(0x28) + le64(req.system_request_frame_base_address) + b.skip(0x30));
    halves_are_read_back(req.reply_descriptor_post_queue_address, b.take(0x30), b.skip(0x38));
    assert(b =~= b.take(0x30) + le64(req.reply_descriptor_post_queue_address) + b.skip(0x38));
}

/// The question what the controller is, on the wire: 16 bytes, with the function 0x03 at 3 and
/// the message id at 4; every other byte is zero.
pub proof fn question_fields_are_in_place(smid: u16)
    ensures
        ({
            let b = IocFactsRequest::wire(smid);
            &&& b.len() == 16
            &&& b[3] == 0x03
            &&& u16_at(b, 4) == smid
            &&& forall|i: int|
                0 <= i < 16 && i != 3 && i != 4 && i != 5 ==> #[trigger] b[i] == 0
        }),
{
    let b = IocFactsRequest::wire(smid);
    assert(b.len() == 16);
    le16_round_trip(smid, b.take(4), b.skip(6));
    assert(b =~= b.take(4) + le16(smid) + b.skip(6));
}

/// An element in IEEE form on the wire: the address, at 8 the length, and the flags in the
/// last of its 16 bytes.
pub proof fn element_fields_are_in_place(e: IeeeSgeSimple64)
    ensures
        e.wire().len() == 16,
        u32_at(e.wire(), 0) + 0x1_0000_0000 * u32_at(e.wire(), 4) == e.address,
        u32_at(e.wire(), 8) == e.length,
        e.wire()[15] == e.flags,
{
    let head = le64(e.address);
    let tail = seq![0u8, 0u8, 0u8, e.flags];
    element_is_read_back(e, head, le32(e.length), tail);
}

proof fn element_is_read_back(e: IeeeSgeSimple64, head: Seq<u8>, mid: Seq<u8>, tail: Seq<u8>)
    requires
        head == le64(e.address),
        mid == le32(e.length),
        tail == seq![0u8, 0u8, 0u8, e.flags],
    ensures
        e.wire() == head + mid + tail,
        e.wire().len() == 16,
        u32_at(e.wire(), 0) + 0x1_0000_0000 * u32_at(e.wire(), 4) == e.address,
        u32_at(e.wire(), 8) == e.length,
        e.wire()[15] == e.flags,
{
    assert(head.len() == 8 && mid.len() == 4 && tail.len() == 4);
    let none = Seq::<u8>::empty();
    assert(u32_at(e.wire(), 0) + 0x1_0000_0000 * u32_at(e.wire(), 4) == e.address) by {
        halves_are_read_back(e.address, none, mid + tail);
        assert(none + head + (mid + tail) =~= head + mid + tail);
    }
    assert(u32_at(e.wire(), 8) == e.length) by {
        le32_round_trip(e.length, head, tail);
    }
    assert((head + mid + tail)[15] == tail[3]);
}

/// A region in a layout frame: sixteen bytes for each behind the first sixteen, with the type at
/// 0, the offset at 4 and the size at 8, the low byte first.
pub proof fn frame_regions_are_in_place(b: Seq<u8>, i: int)
    requires
        0 <= i,
        32 + 16 * i <= b.len(),
    ensures
        ({
            let o = 16 + 16 * i;
            let f = frame_region(b, i);
            &&& f.region_type == b[o]
            &&& f.region_offset == b[o + 4] + 256 * b[o + 5] + 65536 * b[o + 6] + 16777216 * b[o + 7]
            &&& f.region_size == b[o + 8] + 256 * b[o + 9] + 65536 * b[o + 10] + 16777216 * b[o + 11]
        }),
{
}

} // verus!
