//! Replies of the MPI message protocol.

use crate::bytes::{
    read_u16, read_u32, read_u32_cut, to_vec, u16_at, u32_at, u32_cut_at,
};
use crate::mpi::ioc_status::IocStatus;
use crate::mpi::messages::{MpiError, MpiFunction};
use crate::text::{dec, hex_pad, opt_text, push_dec, push_hex_pad, string_from_utf8_lossy};
use crate::text::{hex, hexadecimal_round_trip, number_result, strings, utf8_lossy, NumberFault};
use vstd::prelude::*;

verus! {

/// The status word of a reply, at offset 0x0E in every reply.
pub open spec fn reply_status(b: Seq<u8>) -> Option<IocStatus> {
    IocStatus::decode(u16_at(b, 14))
}

/// The reply to a download.
#[derive(Debug, Clone, PartialEq)]
pub struct FwDownloadReply {
    /// The image type, echoed.
    pub image_type: u8,
    /// What became of the request.
    pub ioc_status: IocStatus,
    /// Details of a failure.
    pub ioc_log_info: u32,
}

impl FwDownloadReply {
    /// What a frame says.
    pub open spec fn parsed(b: Seq<u8>) -> Result<Self, MpiError> {
        if b.len() < 18 {
            Err(
                MpiError::MalformedReply {
                    function: MpiFunction::FwDownload,
                    got: b.len() as usize,
                    need: 18,
                },
            )
        } else {
            match reply_status(b) {
                None => Err(MpiError::UnknownIocStatus(u16_at(b, 14))),
                Some(ioc_status) => Ok(
                    FwDownloadReply {
                        image_type: b[0],
                        ioc_status,
                        ioc_log_info: u32_cut_at(b, 16),
                    },
                ),
            }
        }
    }

    /// Reads the reply, of at least 18 bytes. What a frame cuts off of the last field
    /// counts as zero.
    pub fn parse(bytes: &[u8]) -> (r: Result<Self, MpiError>)
        ensures
            r == Self::parsed(bytes@),
    {
        if bytes.len() < 18 {
            return Err(
                MpiError::MalformedReply {
                    function: MpiFunction::FwDownload,
                    got: bytes.len(),
                    need: 18,
                },
            );
        }
        match IocStatus::from_u16(read_u16(bytes, 14)) {
            Err(e) => Err(e),
            Ok(ioc_status) => Ok(
                FwDownloadReply {
                    image_type: bytes[0],
                    ioc_status,
                    ioc_log_info: read_u32_cut(bytes, 16),
                },
            ),
        }
    }
}

/// The reply to an upload.
#[derive(Debug, Clone, PartialEq)]
pub struct FwUploadReply {
    /// The image type, echoed.
    pub image_type: u8,
    /// What became of the request.
    pub ioc_status: IocStatus,
    /// How many bytes the image has.
    pub actual_image_size: u32,
}

impl FwUploadReply {
    /// What a frame says.
    pub open spec fn parsed(b: Seq<u8>) -> Result<Self, MpiError> {
        if b.len() < 22 {
            Err(
                MpiError::MalformedReply {
                    function: MpiFunction::FwUpload,
                    got: b.len() as usize,
                    need: 22,
                },
            )
        } else {
            match reply_status(b) {
                None => Err(MpiError::UnknownIocStatus(u16_at(b, 14))),
                Some(ioc_status) => Ok(
                    FwUploadReply {
                        image_type: b[0],
                        ioc_status,
                        actual_image_size: u32_cut_at(b, 20),
                    },
                ),
            }
        }
    }

    /// Reads the reply, of at least 22 bytes. What a frame cuts off of the last field
    /// counts as zero.
    pub fn parse(bytes: &[u8]) -> (r: Result<Self, MpiError>)
        ensures
            r == Self::parsed(bytes@),
    {
        if bytes.len() < 22 {
            return Err(
                MpiError::MalformedReply {
                    function: MpiFunction::FwUpload,
                    got: bytes.len(),
                    need: 22,
                },
            );
        }
        match IocStatus::from_u16(read_u16(bytes, 14)) {
            Err(e) => Err(e),
            Ok(ioc_status) => Ok(
                FwUploadReply {
                    image_type: bytes[0],
                    ioc_status,
                    actual_image_size: read_u32_cut(bytes, 20),
                },
            ),
        }
    }
}

/// The reply to an erase request.
#[derive(Debug, Clone, PartialEq)]
pub struct ToolboxReply {
    /// The tool, echoed.
    pub tool: u8,
    /// What became of the request.
    pub ioc_status: IocStatus,
}

impl ToolboxReply {
    /// Whether `r` is what the frame `b` says.
    pub open spec fn parsed_from(b: Seq<u8>, r: Result<Self, MpiError>) -> bool {
        &&& b.len() < 18 ==> r == Err::<ToolboxReply, MpiError>(
            MpiError::MalformedReply {
                function: MpiFunction::Toolbox,
                got: b.len() as usize,
                need: 18,
            },
        )
        &&& b.len() >= 18 ==> match reply_status(b) {
            None => r == Err::<ToolboxReply, MpiError>(
                MpiError::UnknownIocStatus(u16_at(b, 14)),
            ),
            Some(status) => r matches Ok(v) && {
                &&& v.tool == b[0]
                &&& v.ioc_status == status
            },
        }
    }

    /// Reads the reply.
    pub fn parse(bytes: &[u8]) -> (r: Result<Self, MpiError>)
        ensures
            Self::parsed_from(bytes@, r),
    {
        if bytes.len() < 18 {
            return Err(
                MpiError::MalformedReply {
                    function: MpiFunction::Toolbox,
                    got: bytes.len(),
                    need: 18,
                },
            );
        }
        match IocStatus::from_u16(read_u16(bytes, 14)) {
            Err(e) => Err(e),
            Ok(ioc_status) => Ok(
                ToolboxReply {
                    tool: bytes[0],
                    ioc_status,
                },
            ),
        }
    }
}

/// The reply to a page request.
#[derive(Debug, Clone, PartialEq)]
pub struct ConfigReply {
    /// The action, echoed.
    pub action: u8,
    /// Version, length in words, number and type of the page.
    pub page_header: [u8; 4],
    /// What became of the request.
    pub ioc_status: IocStatus,
}

impl ConfigReply {
    /// Whether `r` is what the frame `b` says.
    pub open spec fn parsed_from(b: Seq<u8>, r: Result<Self, MpiError>) -> bool {
        &&& b.len() < 26 ==> r == Err::<ConfigReply, MpiError>(
            MpiError::MalformedReply {
                function: MpiFunction::Config,
                got: b.len() as usize,
                need: 26,
            },
        )
        &&& b.len() >= 26 ==> match reply_status(b) {
            None => r == Err::<ConfigReply, MpiError>(
                MpiError::UnknownIocStatus(u16_at(b, 14)),
            ),
            Some(status) => r matches Ok(v) && {
                &&& v.action == b[0]
                &&& v.page_header@ == b.subrange(20, 24)
                &&& v.ioc_status == status
            },
        }
    }

    /// Reads the reply.
    pub fn parse(bytes: &[u8]) -> (r: Result<Self, MpiError>)
        ensures
            Self::parsed_from(bytes@, r),
    {
        if bytes.len() < 26 {
            return Err(
                MpiError::MalformedReply {
                    function: MpiFunction::Config,
                    got: bytes.len(),
                    need: 26,
                },
            );
        }
        match IocStatus::from_u16(read_u16(bytes, 14)) {
            Err(e) => Err(e),
            Ok(ioc_status) => {
                let page_header: [u8; 4] = [bytes[20], bytes[21], bytes[22], bytes[23]];
                assert(page_header@ =~= bytes@.subrange(20, 24));
                Ok(ConfigReply { action: bytes[0], page_header, ioc_status })
            },
        }
    }
}

/// The reply to the set-up of the queues.
#[derive(Debug, Clone, PartialEq)]
pub struct IocInitReply {
    /// Who asked, echoed.
    pub who_init: u8,
    /// What became of the request.
    pub ioc_status: IocStatus,
}

impl IocInitReply {
    /// Whether `r` is what the frame `b` says.
    pub open spec fn parsed_from(b: Seq<u8>, r: Result<Self, MpiError>) -> bool {
        &&& b.len() < 18 ==> r == Err::<IocInitReply, MpiError>(
            MpiError::MalformedReply {
                function: MpiFunction::IocInit,
                got: b.len() as usize,
                need: 18,
            },
        )
        &&& b.len() >= 18 ==> match reply_status(b) {
            None => r == Err::<IocInitReply, MpiError>(
                MpiError::UnknownIocStatus(u16_at(b, 14)),
            ),
            Some(status) => r matches Ok(v) && {
                &&& v.who_init == b[0]
                &&& v.ioc_status == status
            },
        }
    }

    /// Reads the reply.
    pub fn parse(bytes: &[u8]) -> (r: Result<Self, MpiError>)
        ensures
            Self::parsed_from(bytes@, r),
    {
        if bytes.len() < 18 {
            return Err(
                MpiError::MalformedReply {
                    function: MpiFunction::IocInit,
                    got: bytes.len(),
                    need: 18,
                },
            );
        }
        match IocStatus::from_u16(read_u16(bytes, 14)) {
            Err(e) => Err(e),
            Ok(ioc_status) => Ok(
                IocInitReply {
                    who_init: bytes[0],
                    ioc_status,
                },
            ),
        }
    }
}

/// The reply to the question what the controller is.
#[derive(Debug, Clone, PartialEq)]
pub struct IocFactsReply {
    /// Version of the message format.
    pub msg_version: u16,
    /// Length of the reply in words.
    pub msg_length: u8,
    /// The function, echoed.
    pub function: u8,
    /// Version of the header format.
    pub header_version: u16,
    /// Which controller.
    pub ioc_number: u8,
    /// Message flags.
    pub msg_flags: u8,
    /// Virtual port.
    pub vp_id: u8,
    /// Virtual function.
    pub vf_id: u8,
    /// Unused.
    pub reserved_1: u16,
    /// Exceptional conditions.
    pub ioc_exceptions: u16,
    /// What became of the request.
    pub ioc_status: IocStatus,
    /// Details of a failure.
    pub ioc_log_info: u32,
    /// Longest chain of elements.
    pub max_chain_depth: u8,
    /// Who set the controller up.
    pub who_init: u8,
    /// Ports.
    pub number_of_ports: u8,
    /// MSI-X vectors.
    pub max_msix_vectors: u8,
    /// Requests that can be outstanding.
    pub request_credit: u16,
    /// The product.
    pub product_id: u16,
    /// Capability bits.
    pub ioc_capabilities: u32,
    /// Version of the running firmware, major number in the high byte.
    pub fw_version: u32,
    /// Size of a request frame.
    pub ioc_request_frame_size: u16,
    /// Size of a chain segment.
    pub ioc_max_chain_segment_size: u16,
    /// Initiators.
    pub max_initiators: u16,
    /// Targets.
    pub max_targets: u16,
    /// Expanders.
    pub max_sas_expanders: u16,
    /// Enclosures.
    pub max_enclosures: u16,
    /// Bit 0: initiator, bit 1: target.
    pub protocol_flags: u16,
    /// High-priority requests that can be outstanding.
    pub high_priority_credit: u16,
    /// Entries of the reply queue.
    pub max_reply_descriptor_post_queue_depth: u16,
    /// Size of a reply frame.
    pub reply_frame_size: u8,
    /// RAID volumes.
    pub max_volumes: u8,
    /// Highest device handle.
    pub max_dev_handle: u16,
    /// Persistent mapping entries.
    pub max_persistent_entries: u16,
    /// Lowest device handle.
    pub min_dev_handle: u16,
    /// Unused.
    pub reserved_4: u16,
    /// Name of the board, where the reply is long enough to hold it.
    pub board_name: Option<String>,
    /// Serial number of the board, where the reply is long enough to hold it.
    pub board_tracer: Option<String>,
    /// Vendor of the non-volatile data, from Manufacturing Page 0.
    pub nvdata_vendor_id: Option<u16>,
    /// Product of the non-volatile data, from Manufacturing Page 0.
    pub nvdata_product_id: Option<String>,
    /// Version of the non-volatile data, from Manufacturing Page 0.
    pub nvdata_version: Option<u32>,
    /// Product name of the firmware, from Manufacturing Page 0.
    pub firmware_product_id: Option<String>,
}

/// The bytes before the first zero byte.
pub open spec fn until_nul(b: Seq<u8>) -> Seq<u8>
    decreases b.len(),
{
    if b.len() == 0 || b[0] == 0 {
        Seq::empty()
    } else {
        seq![b[0]] + until_nul(b.skip(1))
    }
}

/// The text of a field that ends at its first zero byte.
pub open spec fn nul_text(b: Seq<u8>) -> Seq<char> {
    utf8_lossy(until_nul(b))
}

/// Reads the text of a field that ends at its first zero byte.
pub fn parse_null_terminated_string(bytes: &[u8]) -> (r: String)
    ensures
        r@ == nul_text(bytes@),
{
    let mut i: usize = 0;
    assert(bytes@.take(0) + until_nul(bytes@.skip(0)) =~= until_nul(bytes@)) by {
        assert(bytes@.skip(0) =~= bytes@);
    }
    while i < bytes.len() && bytes[i] != 0
        invariant
            i <= bytes@.len(),
            until_nul(bytes@) == bytes@.take(i as int) + until_nul(bytes@.skip(i as int)),
        decreases bytes@.len() - i,
    {
        let ghost rest = bytes@.skip(i as int);
        assert(rest.skip(1) =~= bytes@.skip(i + 1));
        assert(bytes@.take(i as int) + (seq![rest[0]] + until_nul(rest.skip(1))) =~= bytes@.take(
            i + 1,
        ) + until_nul(rest.skip(1)));
        i += 1;
    }
    assert(until_nul(bytes@) =~= bytes@.take(i as int));
    assert(bytes@.subrange(0, i as int) =~= bytes@.take(i as int));
    string_from_utf8_lossy(&bytes[0..i])
}

impl IocFactsReply {
    /// Every fixed field of the reply is the field of the frame `b`.
    pub open spec fn fixed_fields(&self, b: Seq<u8>) -> bool {
        &&& self.msg_version == u16_at(b, 0)
        &&& self.msg_length == b[2]
        &&& self.function == b[3]
        &&& self.header_version == u16_at(b, 4)
        &&& self.ioc_number == b[6]
        &&& self.msg_flags == b[7]
        &&& self.vp_id == b[8]
        &&& self.vf_id == b[9]
        &&& self.reserved_1 == u16_at(b, 10)
        &&& self.ioc_exceptions == u16_at(b, 12)
        &&& Some(self.ioc_status) == reply_status(b)
        &&& self.ioc_log_info == u32_at(b, 16)
        &&& self.max_chain_depth == b[20]
        &&& self.who_init == b[21]
        &&& self.number_of_ports == b[22]
        &&& self.max_msix_vectors == b[23]
        &&& self.request_credit == u16_at(b, 24)
        &&& self.product_id == u16_at(b, 26)
        &&& self.ioc_capabilities == u32_at(b, 28)
        &&& self.fw_version == u32_at(b, 32)
        &&& self.ioc_request_frame_size == u16_at(b, 36)
        &&& self.ioc_max_chain_segment_size == u16_at(b, 38)
        &&& self.max_initiators == u16_at(b, 40)
        &&& self.max_targets == u16_at(b, 42)
        &&& self.max_sas_expanders == u16_at(b, 44)
        &&& self.max_enclosures == u16_at(b, 46)
        &&& self.protocol_flags == u16_at(b, 48)
        &&& self.high_priority_credit == u16_at(b, 50)
        &&& self.max_reply_descriptor_post_queue_depth == u16_at(b, 52)
        &&& self.reply_frame_size == b[54]
        &&& self.max_volumes == b[55]
        &&& self.max_dev_handle == u16_at(b, 56)
        &&& self.max_persistent_entries == u16_at(b, 58)
        &&& self.min_dev_handle == u16_at(b, 60)
        &&& self.reserved_4 == u16_at(b, 62)
    }

    /// The texts of the reply are those of the frame `b`; a frame of fewer than
    /// 80 bytes holds no name, one of fewer than 96 no serial number. What
    /// comes from Manufacturing Page 0 is absent.
    pub open spec fn text_fields(&self, b: Seq<u8>) -> bool {
        &&& opt_text(self.board_name) == if b.len() >= 80 {
            Some(nul_text(b.subrange(64, 80)))
        } else {
            None
        }
        &&& opt_text(self.board_tracer) == if b.len() >= 96 {
            Some(nul_text(b.subrange(80, 96)))
        } else {
            None
        }
        &&& self.nvdata_vendor_id is None
        &&& self.nvdata_product_id is None
        &&& self.nvdata_version is None
        &&& self.firmware_product_id is None
    }

    /// Whether `r` is what the frame `b` says.
    pub open spec fn parsed_from(b: Seq<u8>, r: Result<Self, MpiError>) -> bool {
        &&& b.len() < 64 ==> r == Err::<IocFactsReply, MpiError>(
            MpiError::MalformedReply {
                function: MpiFunction::IocFacts,
                got: b.len() as usize,
                need: 64,
            },
        )
        &&& b.len() >= 64 && b[3] != 0x03 ==> (r matches Err(
            MpiError::WrongReplyFunction { expected, got_function, expected_function, head },
        ) && expected == MpiFunction::IocFacts && got_function == b[3] && expected_function
            == 0x03 && head@ == b.take(16))
        &&& b.len() >= 64 && b[3] == 0x03 ==> match reply_status(b) {
            None => r == Err::<IocFactsReply, MpiError>(
                MpiError::UnknownIocStatus(u16_at(b, 14)),
            ),
            Some(status) => r matches Ok(v) && v.fixed_fields(b) && v.text_fields(b),
        }
    }

    /// Reads the reply.
    pub fn parse(bytes: &[u8]) -> (r: Result<Self, MpiError>)
        ensures
            Self::parsed_from(bytes@, r),
    {
        if bytes.len() < 64 {
            return Err(
                MpiError::MalformedReply {
                    function: MpiFunction::IocFacts,
                    got: bytes.len(),
                    need: 64,
                },
            );
        }
        if bytes[3] != MpiFunction::IocFacts.as_u8() {
            let head: Vec<u8> = to_vec(&bytes[0..16]);
            assert(head@ =~= bytes@.take(16));
            return Err(
                MpiError::WrongReplyFunction {
                    expected: MpiFunction::IocFacts,
                    got_function: bytes[3],
                    expected_function: MpiFunction::IocFacts.as_u8(),
                    head,
                },
            );
        }
        let ioc_status = match IocStatus::from_u16(read_u16(bytes, 14)) {
            Ok(s) => s,
            Err(e) => {
                return Err(e);
            },
        };
        let board_name: Option<String> = if bytes.len() >= 80 {
            Some(parse_null_terminated_string(&bytes[64..80]))
        } else {
            None
        };
        let board_tracer: Option<String> = if bytes.len() >= 96 {
            Some(parse_null_terminated_string(&bytes[80..96]))
        } else {
            None
        };
        Ok(
            IocFactsReply {
                msg_version: read_u16(bytes, 0),
                msg_length: bytes[2],
                function: bytes[3],
                header_version: read_u16(bytes, 4),
                ioc_number: bytes[6],
                msg_flags: bytes[7],
                vp_id: bytes[8],
                vf_id: bytes[9],
                reserved_1: read_u16(bytes, 10),
                ioc_exceptions: read_u16(bytes, 12),
                ioc_status,
                ioc_log_info: read_u32(bytes, 16),
                max_chain_depth: bytes[20],
                who_init: bytes[21],
                number_of_ports: bytes[22],
                max_msix_vectors: bytes[23],
                request_credit: read_u16(bytes, 24),
                product_id: read_u16(bytes, 26),
                ioc_capabilities: read_u32(bytes, 28),
                fw_version: read_u32(bytes, 32),
                ioc_request_frame_size: read_u16(bytes, 36),
                ioc_max_chain_segment_size: read_u16(bytes, 38),
                max_initiators: read_u16(bytes, 40),
                max_targets: read_u16(bytes, 42),
                max_sas_expanders: read_u16(bytes, 44),
                max_enclosures: read_u16(bytes, 46),
                protocol_flags: read_u16(bytes, 48),
                high_priority_credit: read_u16(bytes, 50),
                max_reply_descriptor_post_queue_depth: read_u16(bytes, 52),
                reply_frame_size: bytes[54],
                max_volumes: bytes[55],
                max_dev_handle: read_u16(bytes, 56),
                max_persistent_entries: read_u16(bytes, 58),
                min_dev_handle: read_u16(bytes, 60),
                reserved_4: read_u16(bytes, 62),
                board_name,
                board_tracer,
                nvdata_vendor_id: None,
                nvdata_product_id: None,
                nvdata_version: None,
                firmware_product_id: None,
            },
        )
    }

    /// Major, minor, unit and development number of the firmware; the major
    /// number is the high byte.
    pub fn fw_version_components(&self) -> (r: (u8, u8, u8, u8))
        ensures
            r.0 == self.fw_version / 16777216,
            r.1 == self.fw_version / 65536 % 256,
            r.2 == self.fw_version / 256 % 256,
            r.3 == self.fw_version % 256,
    {
        let v: u32 = self.fw_version;
        ((v / 16777216) as u8, (v / 65536 % 256) as u8, (v / 256 % 256) as u8, (v % 256) as u8)
    }

    /// The version of the firmware in words.
    pub open spec fn spec_fw_version_string(&self) -> Seq<char> {
        let v = self.fw_version as nat;
        dec(v / 16777216) + "."@ + dec(v / 65536 % 256) + "."@ + dec(v / 256 % 256) + "."@ + dec(
            v % 256,
        )
    }

    /// The version of the firmware in words.
    pub fn fw_version_string(&self) -> (r: String)
        ensures
            r@ == self.spec_fw_version_string(),
    {
        let (major, minor, unit, dev) = self.fw_version_components();
        let mut s = String::new();
        push_dec(&mut s, major as u64);
        s.append(".");
        push_dec(&mut s, minor as u64);
        s.append(".");
        push_dec(&mut s, unit as u64);
        s.append(".");
        push_dec(&mut s, dev as u64);
        assert(s@ =~= self.spec_fw_version_string());
        s
    }

    /// Major, minor and build number of the non-volatile data; the major
    /// number is the low byte.
    pub fn nvdata_version_components(&self) -> (r: Option<(u8, u8, u16)>)
        ensures
            match self.nvdata_version {
                None => r is None,
                Some(v) => r matches Some(c) && c.0 == v % 256 && c.1 == v / 256 % 256 && c.2 == v
                    / 65536,
            },
    {
        match self.nvdata_version {
            None => None,
            Some(v) => Some(((v % 256) as u8, (v / 256 % 256) as u8, (v / 65536) as u16)),
        }
    }

    /// The version of the non-volatile data in words.
    pub open spec fn spec_nvdata_version_string(&self) -> Option<Seq<char>> {
        match self.nvdata_version {
            None => None,
            Some(v) => Some(
                dec(v as nat % 256) + "."@ + dec(v as nat / 256 % 256) + "."@ + dec(
                    v as nat / 65536,
                ),
            ),
        }
    }

    /// The version of the non-volatile data in words.
    pub fn nvdata_version_string(&self) -> (r: Option<String>)
        ensures
            opt_text(r) == self.spec_nvdata_version_string(),
    {
        match self.nvdata_version_components() {
            None => None,
            Some((major, minor, build)) => {
                let mut s = String::new();
                push_dec(&mut s, major as u64);
                s.append(".");
                push_dec(&mut s, minor as u64);
                s.append(".");
                push_dec(&mut s, build as u64);
                assert(s@ =~= self.spec_nvdata_version_string().unwrap());
                Some(s)
            },
        }
    }

    /// The vendor of the non-volatile data in hexadecimal.
    pub open spec fn spec_nvdata_vendor_id_hex(&self) -> Option<Seq<char>> {
        match self.nvdata_vendor_id {
            None => None,
            Some(id) => Some("0x"@ + hex_pad(id as nat, 4, true)),
        }
    }

    /// The vendor of the non-volatile data in hexadecimal.
    pub fn nvdata_vendor_id_hex(&self) -> (r: Option<String>)
        ensures
            opt_text(r) == self.spec_nvdata_vendor_id_hex(),
    {
        match self.nvdata_vendor_id {
            None => None,
            Some(id) => {
                let mut s = "0x".to_owned();
                push_hex_pad(&mut s, id as u64, 4, true);
                Some(s)
            },
        }
    }

    /// The product number in hexadecimal.
    pub fn fw_product_id_from_facts(&self) -> (r: String)
        ensures
            r@ == "0x"@ + hex_pad(self.product_id as nat, 4, true),
    {
        let mut s = "0x".to_owned();
        push_hex_pad(&mut s, self.product_id as u64, 4, true);
        s
    }

    /// Which protocols the controller speaks.
    pub open spec fn protocol_text(&self) -> Option<Seq<char>> {
        if self.protocol_flags & 1 != 0 {
            if self.protocol_flags & 2 != 0 {
                Some("Initiator"@ + " + "@ + "Target"@)
            } else {
                Some("Initiator"@)
            }
        } else if self.protocol_flags & 2 != 0 {
            Some("Target"@)
        } else {
            None
        }
    }

    fn protocols(&self) -> (r: Option<String>)
        ensures
            opt_text(r) == self.protocol_text(),
    {
        let initiator: bool = self.protocol_flags & 1 != 0;
        let target: bool = self.protocol_flags & 2 != 0;
        if initiator {
            let mut s = "Initiator".to_owned();
            if target {
                s.append(" + ");
                s.append("Target");
            }
            Some(s)
        } else if target {
            Some("Target".to_owned())
        } else {
            None
        }
    }

    /// The report on the controller, line by line.
    pub open spec fn info_lines(&self) -> Seq<Seq<char>> {
        (seq!["  Firmware Version: "@ + self.spec_fw_version_string()] + opt_line(
            "  NVDATA Vendor ID: "@,
            self.spec_nvdata_vendor_id_hex(),
        ) + opt_line("  NVDATA Product ID: "@, opt_text(self.nvdata_product_id)) + opt_line(
            "  NVDATA Version: "@,
            self.spec_nvdata_version_string(),
        ) + opt_line("  Firmware Product ID: "@, opt_text(self.firmware_product_id)) + opt_line(
            "  Board Name: "@,
            opt_text(self.board_name),
        ) + opt_line("  Board Tracer: "@, opt_text(self.board_tracer)) + opt_line(
            "  Protocols: "@,
            self.protocol_text(),
        )).push("  Max SAS Expanders: "@ + dec(self.max_sas_expanders as nat)).push(
            "  Max Enclosures: "@ + dec(self.max_enclosures as nat),
        ).push("  Max Targets: "@ + dec(self.max_targets as nat)).push(
            "  Max Initiators: "@ + dec(self.max_initiators as nat),
        )
    }

    /// The report on the controller, line by line.
    pub fn to_info_lines(&self) -> (r: Vec<String>)
        ensures
            strings(r@) == self.info_lines(),
    {
        let mut v: Vec<String> = Vec::new();
        push_line(&mut v, "  Firmware Version: ", self.fw_version_string().as_str());
        assert(strings(v@) =~= seq!["  Firmware Version: "@ + self.spec_fw_version_string()]);
        push_opt_line(&mut v, "  NVDATA Vendor ID: ", &self.nvdata_vendor_id_hex());
        push_opt_line(&mut v, "  NVDATA Product ID: ", &self.nvdata_product_id);
        push_opt_line(&mut v, "  NVDATA Version: ", &self.nvdata_version_string());
        push_opt_line(&mut v, "  Firmware Product ID: ", &self.firmware_product_id);
        push_opt_line(&mut v, "  Board Name: ", &self.board_name);
        push_opt_line(&mut v, "  Board Tracer: ", &self.board_tracer);
        let protocols = self.protocols();
        push_opt_line(&mut v, "  Protocols: ", &protocols);
        push_number_line(&mut v, "  Max SAS Expanders: ", self.max_sas_expanders);
        push_number_line(&mut v, "  Max Enclosures: ", self.max_enclosures);
        push_number_line(&mut v, "  Max Targets: ", self.max_targets);
        push_number_line(&mut v, "  Max Initiators: ", self.max_initiators);
        v
    }
}

/// A line with a value, where there is one.
pub open spec fn opt_line(label: Seq<char>, value: Option<Seq<char>>) -> Seq<Seq<char>> {
    match value {
        Some(v) => seq![label + v],
        None => Seq::empty(),
    }
}

fn push_line(out: &mut Vec<String>, label: &str, value: &str)
    ensures
        strings(final(out)@) == strings(old(out)@).push(label@ + value@),
{
    let mut s = label.to_owned();
    s.append(value);
    let ghost text = s@;
    let ghost before = out@;
    out.push(s);
    assert(strings(out@) =~= strings(before).push(text));
}

fn push_number_line(out: &mut Vec<String>, label: &str, value: u16)
    ensures
        strings(final(out)@) == strings(old(out)@).push(label@ + dec(value as nat)),
{
    let mut s = String::new();
    push_dec(&mut s, value as u64);
    assert(s@ =~= dec(value as nat));
    push_line(out, label, s.as_str());
}

fn push_opt_line(out: &mut Vec<String>, label: &str, value: &Option<String>)
    ensures
        strings(final(out)@) == strings(old(out)@) + opt_line(label@, opt_text(*value)),
{
    match value {
        Some(v) => {
            push_line(out, label, v.as_str());
            assert(strings(out@) =~= strings(old(out)@) + opt_line(label@, opt_text(*value)));
        },
        None => {
            assert(strings(out@) =~= strings(old(out)@) + opt_line(label@, opt_text(*value)));
        },
    }
}

// ---------------------------------------------------------------- the laws

/// A text field ends before its first zero byte, and reaches to the end of the field where it
/// has none.
pub proof fn text_ends_at_zero(b: Seq<u8>, n: int)
    requires
        0 <= n <= b.len(),
        forall|i: int| 0 <= i < n ==> #[trigger] b[i] != 0,
        n == b.len() || b[n] == 0,
    ensures
        until_nul(b) == b.take(n),
        nul_text(b) == utf8_lossy(b.take(n)),
    decreases n,
{
    if n > 0 {
        assert forall|i: int| 0 <= i < n - 1 implies #[trigger] b.skip(1)[i] != 0 by {
            assert(b.skip(1)[i] == b[i + 1]);
        }
        text_ends_at_zero(b.skip(1), n - 1);
        assert(seq![b[0]] + b.skip(1).take(n - 1) =~= b.take(n));
    } else {
        assert(b.take(0) =~= Seq::<u8>::empty());
    }
}

/// Every reply carries its status in the two bytes at 14, low byte first: a reply that is read
/// has the status of that number, and a number that stands for none is an error.
pub proof fn status_is_at_fourteen(
    b: Seq<u8>,
    tool: Result<ToolboxReply, MpiError>,
    page: Result<ConfigReply, MpiError>,
    init: Result<IocInitReply, MpiError>,
    facts: Result<IocFactsReply, MpiError>,
)
    requires
        b.len() >= 64,
        b[3] == 0x03,
        ToolboxReply::parsed_from(b, tool),
        ConfigReply::parsed_from(b, page),
        IocInitReply::parsed_from(b, init),
        IocFactsReply::parsed_from(b, facts),
    ensures
        ({
            let status = IocStatus::decode((b[14] + 256 * b[15]) as u16);
            &&& (tool is Ok <==> status is Some) && (tool matches Ok(v) ==> Some(v.ioc_status)
                == status)
            &&& (page is Ok <==> status is Some) && (page matches Ok(v) ==> Some(v.ioc_status)
                == status)
            &&& (init is Ok <==> status is Some) && (init matches Ok(v) ==> Some(v.ioc_status)
                == status)
            &&& (facts is Ok <==> status is Some) && (facts matches Ok(v) ==> Some(v.ioc_status)
                == status)
            &&& (FwDownloadReply::parsed(b) is Ok <==> status is Some) && (
            FwDownloadReply::parsed(b) matches Ok(v) ==> Some(v.ioc_status) == status)
            &&& (FwUploadReply::parsed(b) is Ok <==> status is Some) && (
            FwUploadReply::parsed(b) matches Ok(v) ==> Some(v.ioc_status) == status)
        }),
{
}

/// The reply to a page request has the header of the page in the four bytes at 20: version,
/// length, number and type.
pub proof fn page_header_is_at_twenty(b: Seq<u8>, v: ConfigReply)
    requires
        ConfigReply::parsed_from(b, Ok(v)),
    ensures
        b.len() >= 26,
        v.action == b[0],
        v.page_header@ == seq![b[20], b[21], b[22], b[23]],
{
    assert(b.subrange(20, 24) =~= seq![b[20], b[21], b[22], b[23]]);
}

/// The replies to a download and to an upload have the image at 0; the details of a failed
/// download stand at 16, and the size of an uploaded image at 20.
pub proof fn image_reply_fields_are_in_place(b: Seq<u8>)
    ensures
        FwDownloadReply::parsed(b) matches Ok(v) ==> v.image_type == b[0] && (b.len() >= 20
            ==> v.ioc_log_info == b[16] + 256 * b[17] + 65536 * b[18] + 16777216 * b[19]),
        FwUploadReply::parsed(b) matches Ok(v) ==> v.image_type == b[0] && (b.len() >= 24
            ==> v.actual_image_size == b[20] + 256 * b[21] + 65536 * b[22] + 16777216 * b[23]),
        b.len() < 18 ==> FwDownloadReply::parsed(b) is Err,
        b.len() < 22 ==> FwUploadReply::parsed(b) is Err,
{
}

/// What the controller says of itself comes from the bytes at their own places, low byte
/// first.
pub proof fn facts_are_in_place(b: Seq<u8>, v: IocFactsReply)
    requires
        IocFactsReply::parsed_from(b, Ok(v)),
    ensures
        b.len() >= 64 && b[3] == 0x03,
        v.msg_version == b[0] + 256 * b[1],
        v.msg_length == b[2],
        v.header_version == b[4] + 256 * b[5],
        v.ioc_number == b[6],
        v.msg_flags == b[7],
        v.vp_id == b[8],
        v.vf_id == b[9],
        v.ioc_exceptions == b[12] + 256 * b[13],
        v.ioc_log_info == b[16] + 256 * b[17] + 65536 * b[18] + 16777216 * b[19],
        v.max_chain_depth == b[20],
        v.who_init == b[21],
        v.number_of_ports == b[22],
        v.max_msix_vectors == b[23],
        v.request_credit == b[24] + 256 * b[25],
        v.product_id == b[26] + 256 * b[27],
        v.ioc_capabilities == b[28] + 256 * b[29] + 65536 * b[30] + 16777216 * b[31],
        v.fw_version == b[32] + 256 * b[33] + 65536 * b[34] + 16777216 * b[35],
        v.ioc_request_frame_size == b[36] + 256 * b[37],
        v.ioc_max_chain_segment_size == b[38] + 256 * b[39],
        v.max_initiators == b[40] + 256 * b[41],
        v.max_targets == b[42] + 256 * b[43],
        v.max_sas_expanders == b[44] + 256 * b[45],
        v.max_enclosures == b[46] + 256 * b[47],
        v.protocol_flags == b[48] + 256 * b[49],
        v.high_priority_credit == b[50] + 256 * b[51],
        v.max_reply_descriptor_post_queue_depth == b[52] + 256 * b[53],
        v.reply_frame_size == b[54],
        v.max_volumes == b[55],
        v.max_dev_handle == b[56] + 256 * b[57],
        v.max_persistent_entries == b[58] + 256 * b[59],
        v.min_dev_handle == b[60] + 256 * b[61],
{
}

/// The names of the board stand behind the fixed fields, 16 bytes each: the name at 64 where the
/// reply has 80 bytes, the serial number at 80 where it has 96.
pub proof fn board_names_are_in_place(b: Seq<u8>, v: IocFactsReply)
    requires
        IocFactsReply::parsed_from(b, Ok(v)),
    ensures
        b.len() < 80 ==> v.board_name is None,
        b.len() >= 80 ==> opt_text(v.board_name) == Some(
            nul_text(Seq::new(16, |i: int| b[64 + i])),
        ),
        b.len() < 96 ==> v.board_tracer is None,
        b.len() >= 96 ==> opt_text(v.board_tracer) == Some(
            nul_text(Seq::new(16, |i: int| b[80 + i])),
        ),
{
    if b.len() >= 80 {
        assert(b.subrange(64, 80) =~= Seq::new(16, |i: int| b[64 + i]));
    }
    if b.len() >= 96 {
        assert(b.subrange(80, 96) =~= Seq::new(16, |i: int| b[80 + i]));
    }
}

/// The version of the firmware reads as four numbers, from the byte at 35 of the reply down to
/// the one at 32; that of the non-volatile data as three, the low byte first.
pub proof fn versions_read_in_order(b: Seq<u8>, v: IocFactsReply, w: IocFactsReply, n: u32)
    requires
        IocFactsReply::parsed_from(b, Ok(v)),
        w.nvdata_version == Some(n),
    ensures
        v.spec_fw_version_string() == dec(b[35] as nat) + "."@ + dec(b[34] as nat) + "."@ + dec(
            b[33] as nat,
        ) + "."@ + dec(b[32] as nat),
        w.spec_nvdata_version_string() == Some(
            dec(n as nat % 256) + "."@ + dec(n as nat / 256 % 256) + "."@ + dec(n as nat / 65536),
        ),
{
    facts_are_in_place(b, v);
    bytes_of_word(v.fw_version as nat, b[32], b[33], b[34], b[35]);
}

proof fn bytes_of_word(x: nat, a: u8, b: u8, c: u8, d: u8)
    requires
        x == a + 256 * b + 65536 * c + 16777216 * d,
    ensures
        x / 16777216 == d as nat,
        x / 65536 % 256 == c as nat,
        x / 256 % 256 == b as nat,
        x % 256 == a as nat,
{
}

/// The protocols of a controller go by the two lowest bits: one for the initiator, the next for
/// the target.
pub proof fn protocols_go_by_bits(v: IocFactsReply)
    ensures
        v.protocol_flags % 4 == 0 ==> v.protocol_text() is None,
        v.protocol_flags % 4 == 1 ==> v.protocol_text() == Some("Initiator"@),
        v.protocol_flags % 4 == 2 ==> v.protocol_text() == Some("Target"@),
        v.protocol_flags % 4 == 3 ==> v.protocol_text() == Some("Initiator + Target"@),
{
    let f = v.protocol_flags;
    assert((f & 1 != 0) == (f % 2 == 1)) by (bit_vector);
    assert((f & 2 != 0) == (f / 2 % 2 == 1)) by (bit_vector);
    reveal_strlit("Initiator");
    reveal_strlit(" + ");
    reveal_strlit("Target");
    reveal_strlit("Initiator + Target");
    assert("Initiator"@ + " + "@ + "Target"@ =~= "Initiator + Target"@);
}

/// A reply that is too short is refused with its length and the least length: 18 bytes for a
/// download, an erasing and a start, 22 for an upload, 26 for a page and 64 for the facts.
pub proof fn short_replies_are_refused(
    b: Seq<u8>,
    erasing: Result<ToolboxReply, MpiError>,
    page: Result<ConfigReply, MpiError>,
    start: Result<IocInitReply, MpiError>,
    facts: Result<IocFactsReply, MpiError>,
)
    requires
        ToolboxReply::parsed_from(b, erasing),
        ConfigReply::parsed_from(b, page),
        IocInitReply::parsed_from(b, start),
        IocFactsReply::parsed_from(b, facts),
    ensures
        ({
            let n = b.len() as usize;
            &&& b.len() < 18 ==> FwDownloadReply::parsed(b) == Err::<FwDownloadReply, MpiError>(
                MpiError::MalformedReply { function: MpiFunction::FwDownload, got: n, need: 18 },
            )
            &&& b.len() < 22 ==> FwUploadReply::parsed(b) == Err::<FwUploadReply, MpiError>(
                MpiError::MalformedReply { function: MpiFunction::FwUpload, got: n, need: 22 },
            )
            &&& b.len() < 18 ==> erasing == Err::<ToolboxReply, MpiError>(
                MpiError::MalformedReply { function: MpiFunction::Toolbox, got: n, need: 18 },
            )
            &&& b.len() < 26 ==> page == Err::<ConfigReply, MpiError>(
                MpiError::MalformedReply { function: MpiFunction::Config, got: n, need: 26 },
            )
            &&& b.len() < 18 ==> start == Err::<IocInitReply, MpiError>(
                MpiError::MalformedReply { function: MpiFunction::IocInit, got: n, need: 18 },
            )
            &&& b.len() < 64 ==> facts == Err::<IocFactsReply, MpiError>(
                MpiError::MalformedReply { function: MpiFunction::IocFacts, got: n, need: 64 },
            )
        }),
{
}

/// A status that is not known is told by its number, the two bytes at 14 of the reply.
pub proof fn unknown_status_is_told(
    b: Seq<u8>,
    n: u16,
    erasing: Result<ToolboxReply, MpiError>,
    page: Result<ConfigReply, MpiError>,
    start: Result<IocInitReply, MpiError>,
    facts: Result<IocFactsReply, MpiError>,
)
    requires
        ToolboxReply::parsed_from(b, erasing),
        ConfigReply::parsed_from(b, page),
        IocInitReply::parsed_from(b, start),
        IocFactsReply::parsed_from(b, facts),
        FwDownloadReply::parsed(b) == Err::<FwDownloadReply, MpiError>(
            MpiError::UnknownIocStatus(n),
        ) || FwUploadReply::parsed(b) == Err::<FwUploadReply, MpiError>(
            MpiError::UnknownIocStatus(n),
        ) || erasing == Err::<ToolboxReply, MpiError>(MpiError::UnknownIocStatus(n)) || page == Err::<
            ConfigReply,
            MpiError,
        >(MpiError::UnknownIocStatus(n)) || start == Err::<IocInitReply, MpiError>(
            MpiError::UnknownIocStatus(n),
        ) || facts == Err::<IocFactsReply, MpiError>(MpiError::UnknownIocStatus(n)),
    ensures
        b.len() >= 18,
        n == b[14] + 256 * b[15],
{
}

/// The vendor of the non-volatile data is written with four digits behind `0x`, and can be read
/// back.
pub proof fn vendor_is_read_back(v: IocFactsReply, id: u16)
    requires
        v.nvdata_vendor_id == Some(id),
    ensures
        v.spec_nvdata_vendor_id_hex() matches Some(t) && t.len() == 6 && t[0] == '0' && t[1] == 'x'
            && number_result(t.skip(2), 16, 0xFFFF) == Ok::<nat, NumberFault>(id as nat),
{
    let h = hex_pad(id as nat, 4, true);
    hexadecimal_round_trip(id as nat, 4, true, 0xFFFF);
    reveal_with_fuel(hex, 5);
    assert(h.len() == 4);
    reveal_strlit("0x");
    let t = "0x"@ + h;
    assert(t.skip(2) =~= h);
}

} // verus!
