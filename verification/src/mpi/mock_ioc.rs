//! A controller that exists in memory only. It serves dry runs and tests.

use crate::bytes::to_vec;
use crate::mpi::messages::{
    ConfigReply, ConfigRequest, FwDownloadReply, FwDownloadRequest, FwUploadReply, FwUploadRequest,
    ImageType, IocFactsReply, IocInitReply, IocInitRequest, IocStatus, MpiError,
    ToolboxCleanFlags, ToolboxCleanRequest, ToolboxReply,
};
use crate::mpi::session::{
    bytes_left, chunk_command, chunk_end, readback_command, readback_verdict,
    verified_download, write_from, DownloadCommand, IocBackend, Personality, UploadCommand,
    CHUNK_SIZE,
};
use crate::text::opt_text;
use vstd::prelude::*;

verus! {

/// The partitions of the simulated flash. An image that was never written has
/// no partition.
pub struct FlashState {
    reserved: Option<Vec<u8>>,
    fw: Option<Vec<u8>>,
    bios: Option<Vec<u8>>,
    nv_data: Option<Vec<u8>>,
    boot_loader: Option<Vec<u8>>,
    initialization: Option<Vec<u8>>,
    flash_layout: Option<Vec<u8>>,
    supported_devices: Option<Vec<u8>>,
    mega_raid: Option<Vec<u8>>,
}

impl FlashState {
    spec fn slot(&self, t: ImageType) -> Option<Vec<u8>> {
        match t {
            ImageType::Reserved => self.reserved,
            ImageType::Fw => self.fw,
            ImageType::Bios => self.bios,
            ImageType::NvData => self.nv_data,
            ImageType::BootLoader => self.boot_loader,
            ImageType::Initialization => self.initialization,
            ImageType::FlashLayout => self.flash_layout,
            ImageType::SupportedDevices => self.supported_devices,
            ImageType::MegaRaid => self.mega_raid,
        }
    }

    /// What the partitions hold.
    pub closed spec fn partitions(&self) -> Map<ImageType, Seq<u8>> {
        Map::new(|t: ImageType| self.slot(t) is Some, |t: ImageType| self.slot(t)->0@)
    }

    /// A flash without partitions.
    pub fn empty() -> (r: FlashState)
        ensures
            r.partitions() == Map::<ImageType, Seq<u8>>::empty(),
    {
        let r = FlashState {
            reserved: None,
            fw: None,
            bios: None,
            nv_data: None,
            boot_loader: None,
            initialization: None,
            flash_layout: None,
            supported_devices: None,
            mega_raid: None,
        };
        assert(r.partitions() =~= Map::<ImageType, Seq<u8>>::empty());
        r
    }

    fn set(&mut self, t: ImageType, v: Option<Vec<u8>>)
        ensures
            forall|u: ImageType|
                #[trigger] final(self).slot(u) == if u == t {
                    v
                } else {
                    old(self).slot(u)
                },
    {
        match t {
            ImageType::Reserved => self.reserved = v,
            ImageType::Fw => self.fw = v,
            ImageType::Bios => self.bios = v,
            ImageType::NvData => self.nv_data = v,
            ImageType::BootLoader => self.boot_loader = v,
            ImageType::Initialization => self.initialization = v,
            ImageType::FlashLayout => self.flash_layout = v,
            ImageType::SupportedDevices => self.supported_devices = v,
            ImageType::MegaRaid => self.mega_raid = v,
        }
    }

    fn get(&self, t: ImageType) -> (r: &Option<Vec<u8>>)
        ensures
            *r == self.slot(t),
    {
        match t {
            ImageType::Reserved => &self.reserved,
            ImageType::Fw => &self.fw,
            ImageType::Bios => &self.bios,
            ImageType::NvData => &self.nv_data,
            ImageType::BootLoader => &self.boot_loader,
            ImageType::Initialization => &self.initialization,
            ImageType::FlashLayout => &self.flash_layout,
            ImageType::SupportedDevices => &self.supported_devices,
            ImageType::MegaRaid => &self.mega_raid,
        }
    }

    /// Whether there is a partition for the image.
    pub fn has(&self, t: ImageType) -> (r: bool)
        ensures
            r == self.partitions().contains_key(t),
    {
        self.get(t).is_some()
    }

    /// Whether there is no partition at all.
    pub fn is_empty(&self) -> (r: bool)
        ensures
            r == (self.partitions() == Map::<ImageType, Seq<u8>>::empty()),
    {
        let r: bool = !self.has(ImageType::Reserved) && !self.has(ImageType::Fw) && !self.has(ImageType::Bios) && !self.has(ImageType::NvData) && !self.has(ImageType::BootLoader) && !self.has(ImageType::Initialization) && !self.has(ImageType::FlashLayout) && !self.has(ImageType::SupportedDevices) && !self.has(ImageType::MegaRaid);
        proof {
            if r {
                assert(self.partitions() =~= Map::<ImageType, Seq<u8>>::empty());
            }
        }
        r
    }

    /// Replaces or adds a partition.
    pub fn insert(&mut self, t: ImageType, bytes: Vec<u8>)
        ensures
            final(self).partitions() == old(self).partitions().insert(t, bytes@),
    {
        let ghost before = self.partitions();
        let ghost b = bytes@;
        self.set(t, Some(bytes));
        assert(self.partitions() =~= before.insert(t, b));
    }

    /// Drops a partition.
    pub fn remove(&mut self, t: ImageType)
        ensures
            final(self).partitions() == old(self).partitions().remove(t),
    {
        let ghost before = self.partitions();
        self.set(t, None);
        assert(self.partitions() =~= before.remove(t));
    }

    /// A copy of a partition; empty where there is none.
    pub fn read(&self, t: ImageType) -> (r: Vec<u8>)
        ensures
            r@ == partition_bytes(self.partitions(), t),
    {
        match self.get(t) {
            Some(v) => to_vec(v.as_slice()),
            None => Vec::new(),
        }
    }
}

/// The bytes of a partition; empty where there is none.
pub open spec fn partition_bytes(partitions: Map<ImageType, Seq<u8>>, t: ImageType) -> Seq<u8> {
    if partitions.contains_key(t) {
        partitions[t]
    } else {
        Seq::empty()
    }
}

/// `bytes` with `payload` written at `offset`, padded with zeros where it was
/// too short.
pub open spec fn overlay(bytes: Seq<u8>, offset: int, payload: Seq<u8>) -> Seq<u8> {
    let end = offset + payload.len();
    Seq::new(
        if bytes.len() < end {
            end as nat
        } else {
            bytes.len()
        },
        |i: int|
            if offset <= i < end {
                payload[i - offset]
            } else if i < bytes.len() {
                bytes[i]
            } else {
                0u8
            },
    )
}

fn write_at(bytes: &mut Vec<u8>, offset: usize, payload: &[u8])
    ensures
        final(bytes)@ == overlay(old(bytes)@, offset as int, payload@),
{
    let ghost start = bytes@;
    while bytes.len() < offset
        invariant
            start.len() <= bytes@.len(),
            bytes@.len() <= offset || bytes@ == start,
            forall|i: int|
                0 <= i < bytes@.len() ==> bytes@[i] == if i < start.len() {
                    start[i]
                } else {
                    0u8
                },
        decreases offset - bytes@.len(),
    {
        bytes.push(0);
    }
    let ghost padded = bytes@;
    let mut pos: usize = offset;
    let mut i: usize = 0;
    while i < payload.len()
        invariant
            i <= payload@.len(),
            pos == offset + i,
            padded.len() >= offset,
            bytes@ == overlay(padded, offset as int, payload@.take(i as int)),
        decreases payload@.len() - i,
    {
        if pos < bytes.len() {
            bytes.set(pos, payload[i]);
        } else {
            bytes.push(payload[i]);
        }
        i += 1;
        assert(bytes@ =~= overlay(padded, offset as int, payload@.take(i as int)));
        assert(pos < bytes.len());
        pos += 1;
    }
    assert(payload@.take(i as int) =~= payload@);
    assert(bytes@ =~= overlay(start, offset as int, payload@));
}

/// Failures to be reported by the next request of each sort.
#[derive(Debug, Clone, Copy)]
pub struct FailureInjector {
    /// For the next download.
    pub next_fw_download_error: Option<IocStatus>,
    /// For the next upload.
    pub next_fw_upload_error: Option<IocStatus>,
    /// For the next erase request.
    pub next_toolbox_error: Option<IocStatus>,
    /// For the next page request.
    pub next_config_error: Option<IocStatus>,
}

impl Default for FailureInjector {
    fn default() -> (r: Self)
        ensures
            r.next_fw_download_error is None,
            r.next_fw_upload_error is None,
            r.next_toolbox_error is None,
            r.next_config_error is None,
    {
        FailureInjector {
            next_fw_download_error: None,
            next_fw_upload_error: None,
            next_toolbox_error: None,
            next_config_error: None,
        }
    }
}

/// A simulated controller.
pub struct MockIoc {
    flash: FlashState,
    initialized: bool,
    personality: Personality,
    /// Failures to be reported.
    pub inject: FailureInjector,
}

/// What a simulated controller is.
pub struct MockState {
    pub partitions: Map<ImageType, Seq<u8>>,
    pub initialized: bool,
    pub personality: Personality,
    pub inject: FailureInjector,
}

impl View for MockIoc {
    type V = MockState;

    closed spec fn view(&self) -> MockState {
        MockState {
            partitions: self.flash.partitions(),
            initialized: self.initialized,
            personality: self.personality,
            inject: self.inject,
        }
    }
}

impl MockIoc {
    /// A controller with empty flash that has not been set up.
    pub fn new(initial_personality: Personality) -> (r: Self)
        ensures
            r@.partitions == Map::<ImageType, Seq<u8>>::empty(),
            !r@.initialized,
            r@.personality == initial_personality,
            r@.inject.next_fw_download_error is None,
            r@.inject.next_fw_upload_error is None,
            r@.inject.next_toolbox_error is None,
            r@.inject.next_config_error is None,
    {
        MockIoc {
            flash: FlashState::empty(),
            initialized: false,
            personality: initial_personality,
            inject: FailureInjector::default(),
        }
    }

    /// Gives an image its contents.
    pub fn preload_partition(&mut self, image_type: ImageType, bytes: Vec<u8>)
        ensures
            final(self)@ == (MockState {
                partitions: old(self)@.partitions.insert(image_type, bytes@),
                ..old(self)@
            }),
    {
        self.flash.insert(image_type, bytes);
    }

    /// Whether an image has contents.
    pub fn has_partition(&self, image_type: ImageType) -> (r: bool)
        ensures
            r == self@.partitions.contains_key(image_type),
    {
        self.flash.has(image_type)
    }

    /// Whether no image has contents.
    pub fn is_blank(&self) -> (r: bool)
        ensures
            r == (self@.partitions == Map::<ImageType, Seq<u8>>::empty()),
    {
        self.flash.is_empty()
    }

    /// Which firmware the controller runs.
    pub fn get_personality(&self) -> (r: Personality)
        ensures
            r == self@.personality,
    {
        self.personality
    }

    /// Makes the next download report `status`.
    pub fn inject_fw_download_error(&mut self, status: IocStatus)
        ensures
            final(self)@ == (MockState {
                inject: FailureInjector {
                    next_fw_download_error: Some(status),
                    ..old(self)@.inject
                },
                ..old(self)@
            }),
    {
        self.inject.next_fw_download_error = Some(status);
    }

    /// Makes the next upload report `status`.
    pub fn inject_fw_upload_error(&mut self, status: IocStatus)
        ensures
            final(self)@ == (MockState {
                inject: FailureInjector { next_fw_upload_error: Some(status), ..old(self)@.inject },
                ..old(self)@
            }),
    {
        self.inject.next_fw_upload_error = Some(status);
    }

    /// Makes the controller run other firmware.
    pub fn set_personality(&mut self, personality: Personality)
        ensures
            final(self)@ == (MockState { personality, ..old(self)@ }),
    {
        self.personality = personality;
    }

    /// Whether the message queues have been set up.
    pub fn is_initialized(&self) -> (r: bool)
        ensures
            r == self@.initialized,
    {
        self.initialized
    }
}

/// The flash after an erase request.
pub open spec fn cleaned(
    partitions: Map<ImageType, Seq<u8>>,
    flags: u32,
) -> Map<ImageType, Seq<u8>> {
    if flags & 0x00000004 != 0 {
        Map::empty()
    } else {
        let a = if flags & 0x00000001 != 0 {
            partitions.remove(ImageType::NvData)
        } else {
            partitions
        };
        if flags & 0x10000000 != 0 {
            a.remove(ImageType::Fw)
        } else {
            a
        }
    }
}

/// What the simulated controller says it is: its version, its names and its status; every
/// other field is zero.
pub open spec fn mock_facts(v: IocFactsReply, initialized: bool) -> bool {
    &&& v == IocFactsReply {
        msg_version: 0,
        msg_length: 0,
        function: 0x03,
        header_version: 0,
        ioc_number: 0,
        msg_flags: 0,
        vp_id: 0,
        vf_id: 0,
        reserved_1: 0,
        ioc_exceptions: 0,
        ioc_status: if initialized {
            IocStatus::Success
        } else {
            IocStatus::InvalidState
        },
        ioc_log_info: 0,
        max_chain_depth: 0,
        who_init: 0,
        number_of_ports: 0,
        max_msix_vectors: 0,
        request_credit: 0,
        product_id: 0,
        ioc_capabilities: 0,
        fw_version: 0x070F_0800,
        ioc_request_frame_size: 0,
        ioc_max_chain_segment_size: 0,
        max_initiators: 0,
        max_targets: 0,
        max_sas_expanders: 0,
        max_enclosures: 0,
        protocol_flags: 0,
        high_priority_credit: 0,
        max_reply_descriptor_post_queue_depth: 0,
        reply_frame_size: 0,
        max_volumes: 0,
        max_dev_handle: 0,
        max_persistent_entries: 0,
        min_dev_handle: 0,
        reserved_4: 0,
        board_name: v.board_name,
        board_tracer: v.board_tracer,
        nvdata_vendor_id: Some(0x1000),
        nvdata_product_id: v.nvdata_product_id,
        nvdata_version: Some(0x0004_1003),
        firmware_product_id: v.firmware_product_id,
    }
    &&& opt_text(v.board_name) == Some("Dell H200"@)
    &&& opt_text(v.board_tracer) == Some("00000001"@)
    &&& opt_text(v.nvdata_product_id) == Some("LSI2008"@)
    &&& opt_text(v.firmware_product_id) == Some("InternalTapeAdp"@)
}

impl IocBackend for MockIoc {
    open spec fn download_step(
        pre: MockIoc,
        cmd: DownloadCommand,
        post: MockIoc,
        r: Result<FwDownloadReply, MpiError>,
    ) -> bool {
        match pre@.inject.next_fw_download_error {
            Some(status) => {
                &&& post@ == MockState {
                    inject: FailureInjector { next_fw_download_error: None, ..pre@.inject },
                    ..pre@
                }
                &&& r == Ok::<FwDownloadReply, MpiError>(
                    FwDownloadReply { image_type: 0, ioc_status: status, ioc_log_info: 0 },
                )
            },
            None => if !pre@.initialized {
                &&& post@ == pre@
                &&& r == Ok::<FwDownloadReply, MpiError>(
                    FwDownloadReply {
                        image_type: 0,
                        ioc_status: IocStatus::InvalidState,
                        ioc_log_info: 0,
                    },
                )
            } else {
                &&& post@ == MockState {
                    partitions: pre@.partitions.insert(
                        cmd.image_type,
                        overlay(
                            partition_bytes(pre@.partitions, cmd.image_type),
                            cmd.image_offset as int,
                            cmd.payload,
                        ),
                    ),
                    ..pre@
                }
                &&& r == Ok::<FwDownloadReply, MpiError>(
                    FwDownloadReply {
                        image_type: cmd.image_type.code(),
                        ioc_status: IocStatus::Success,
                        ioc_log_info: 0,
                    },
                )
            },
        }
    }

    open spec fn upload_step(
        pre: MockIoc,
        cmd: UploadCommand,
        post: MockIoc,
        after: Seq<u8>,
        r: Result<FwUploadReply, MpiError>,
    ) -> bool {
        match pre@.inject.next_fw_upload_error {
            Some(status) => {
                &&& post@ == MockState {
                    inject: FailureInjector { next_fw_upload_error: None, ..pre@.inject },
                    ..pre@
                }
                &&& after == cmd.buffer
                &&& r == Ok::<FwUploadReply, MpiError>(
                    FwUploadReply { image_type: 0, ioc_status: status, actual_image_size: 0 },
                )
            },
            None => if !pre@.initialized {
                &&& post@ == pre@
                &&& after == cmd.buffer
                &&& r == Ok::<FwUploadReply, MpiError>(
                    FwUploadReply {
                        image_type: 0,
                        ioc_status: IocStatus::InvalidState,
                        actual_image_size: 0,
                    },
                )
            } else {
                let data = partition_bytes(pre@.partitions, cmd.image_type);
                &&& post@ == pre@
                &&& after == Seq::new(
                    cmd.buffer.len(),
                    |i: int|
                        if i < data.len() {
                            data[i]
                        } else {
                            cmd.buffer[i]
                        },
                )
                &&& r == Ok::<FwUploadReply, MpiError>(
                    FwUploadReply {
                        image_type: cmd.image_type.code(),
                        ioc_status: IocStatus::Success,
                        actual_image_size: data.len() as u32,
                    },
                )
            },
        }
    }

    open spec fn toolbox_step(
        pre: MockIoc,
        req: ToolboxCleanRequest,
        post: MockIoc,
        r: Result<ToolboxReply, MpiError>,
    ) -> bool {
        match pre@.inject.next_toolbox_error {
            Some(status) => {
                &&& post@ == MockState {
                    inject: FailureInjector { next_toolbox_error: None, ..pre@.inject },
                    ..pre@
                }
                &&& r == Ok::<ToolboxReply, MpiError>(ToolboxReply { tool: 0, ioc_status: status })
            },
            None => if !pre@.initialized {
                &&& post@ == pre@
                &&& r == Ok::<ToolboxReply, MpiError>(
                    ToolboxReply { tool: 0, ioc_status: IocStatus::InvalidState },
                )
            } else {
                &&& post@ == MockState {
                    partitions: cleaned(pre@.partitions, req.flags.raw),
                    ..pre@
                }
                &&& r == Ok::<ToolboxReply, MpiError>(
                    ToolboxReply { tool: 0, ioc_status: IocStatus::Success },
                )
            },
        }
    }

    open spec fn config_step(
        pre: MockIoc,
        req: ConfigRequest,
        post: MockIoc,
        r: Result<ConfigReply, MpiError>,
    ) -> bool {
        &&& post@ == pre@
        &&& r matches Ok(v) && v.ioc_status == IocStatus::Success && v.action == req.action
            && v.page_header@ == seq![0u8, 0u8, 0u8, 0u8]
    }

    open spec fn init_step(
        pre: MockIoc,
        req: IocInitRequest,
        post: MockIoc,
        r: Result<IocInitReply, MpiError>,
    ) -> bool {
        &&& post@ == MockState { initialized: true, ..pre@ }
        &&& r == Ok::<IocInitReply, MpiError>(
            IocInitReply { who_init: 0x04, ioc_status: IocStatus::Success },
        )
    }

    open spec fn facts_step(
        pre: MockIoc,
        post: MockIoc,
        r: Result<IocFactsReply, MpiError>,
    ) -> bool {
        &&& post@ == pre@
        &&& r matches Ok(v) && mock_facts(v, pre@.initialized)
    }

    open spec fn personality_step(pre: MockIoc, r: Result<Personality, MpiError>) -> bool {
        r == Ok::<Personality, MpiError>(pre@.personality)
    }

    fn send_fw_download(&mut self, req: &FwDownloadRequest<'_>) -> (r: Result<
        FwDownloadReply,
        MpiError,
    >) {
        if let Some(status) = self.inject.next_fw_download_error {
            self.inject.next_fw_download_error = None;
            return Ok(FwDownloadReply { image_type: 0, ioc_status: status, ioc_log_info: 0 });
        }
        if !self.initialized {
            return Ok(
                FwDownloadReply {
                    image_type: 0,
                    ioc_status: IocStatus::InvalidState,
                    ioc_log_info: 0,
                },
            );
        }
        let mut partition = self.flash.read(req.image_type);
        write_at(&mut partition, req.image_offset as usize, req.payload);
        self.flash.insert(req.image_type, partition);
        Ok(
            FwDownloadReply {
                image_type: req.image_type.as_u8(),
                ioc_status: IocStatus::Success,
                ioc_log_info: 0,
            },
        )
    }

    fn send_fw_upload(&mut self, req: &mut FwUploadRequest) -> (r: Result<
        FwUploadReply,
        MpiError,
    >) {
        if let Some(status) = self.inject.next_fw_upload_error {
            self.inject.next_fw_upload_error = None;
            return Ok(FwUploadReply { image_type: 0, ioc_status: status, actual_image_size: 0 });
        }
        if !self.initialized {
            return Ok(
                FwUploadReply {
                    image_type: 0,
                    ioc_status: IocStatus::InvalidState,
                    actual_image_size: 0,
                },
            );
        }
        let data = self.flash.read(req.image_type);
        let buffer = filled(&req.payload_buffer, data.as_slice());
        req.payload_buffer = buffer;
        Ok(
            FwUploadReply {
                image_type: req.image_type.as_u8(),
                ioc_status: IocStatus::Success,
                actual_image_size: data.len() as u32,
            },
        )
    }

    fn send_toolbox_clean(&mut self, req: &ToolboxCleanRequest) -> (r: Result<
        ToolboxReply,
        MpiError,
    >) {
        if let Some(status) = self.inject.next_toolbox_error {
            self.inject.next_toolbox_error = None;
            return Ok(ToolboxReply { tool: 0, ioc_status: status });
        }
        if !self.initialized {
            return Ok(ToolboxReply { tool: 0, ioc_status: IocStatus::InvalidState });
        }
        let ghost before = self@.partitions;
        if req.flags.contains(ToolboxCleanFlags::nvram()) {
            self.flash.remove(ImageType::NvData);
        }
        if req.flags.contains(ToolboxCleanFlags::flash()) {
            self.flash = FlashState::empty();
        }
        if req.flags.contains(ToolboxCleanFlags::fw_current()) {
            self.flash.remove(ImageType::Fw);
        }
        assert(self@.partitions =~= cleaned(before, req.flags.raw));
        Ok(ToolboxReply { tool: 0, ioc_status: IocStatus::Success })
    }

    fn send_config(&mut self, req: &ConfigRequest) -> (r: Result<ConfigReply, MpiError>) {
        Ok(
            ConfigReply {
                action: req.action,
                page_header: [0, 0, 0, 0],
                ioc_status: IocStatus::Success,
            },
        )
    }

    fn send_ioc_init(&mut self, _req: &IocInitRequest) -> (r: Result<IocInitReply, MpiError>) {
        self.initialized = true;
        Ok(IocInitReply { who_init: 0x04, ioc_status: IocStatus::Success })
    }

    fn send_ioc_facts(&mut self) -> (r: Result<IocFactsReply, MpiError>) {
        let ioc_status = if self.initialized {
            IocStatus::Success
        } else {
            IocStatus::InvalidState
        };
        Ok(
            IocFactsReply {
                msg_version: 0,
                msg_length: 0,
                function: 0x03,
                header_version: 0,
                ioc_number: 0,
                msg_flags: 0,
                vp_id: 0,
                vf_id: 0,
                reserved_1: 0,
                ioc_exceptions: 0,
                ioc_status,
                ioc_log_info: 0,
                max_chain_depth: 0,
                who_init: 0,
                number_of_ports: 0,
                max_msix_vectors: 0,
                request_credit: 0,
                product_id: 0,
                ioc_capabilities: 0,
                fw_version: 0x070F_0800,
                ioc_request_frame_size: 0,
                ioc_max_chain_segment_size: 0,
                max_initiators: 0,
                max_targets: 0,
                max_sas_expanders: 0,
                max_enclosures: 0,
                protocol_flags: 0,
                high_priority_credit: 0,
                max_reply_descriptor_post_queue_depth: 0,
                reply_frame_size: 0,
                max_volumes: 0,
                max_dev_handle: 0,
                max_persistent_entries: 0,
                min_dev_handle: 0,
                reserved_4: 0,
                board_name: Some("Dell H200".to_owned()),
                board_tracer: Some("00000001".to_owned()),
                nvdata_vendor_id: Some(0x1000),
                nvdata_product_id: Some("LSI2008".to_owned()),
                nvdata_version: Some(0x0004_1003),
                firmware_product_id: Some("InternalTapeAdp".to_owned()),
            },
        )
    }

    fn current_personality(&self) -> (r: Result<Personality, MpiError>) {
        Ok(self.personality)
    }
}

fn filled(buffer: &Vec<u8>, data: &[u8]) -> (r: Vec<u8>)
    ensures
        r@ == Seq::new(
            buffer@.len(),
            |i: int|
                if i < data@.len() {
                    data@[i]
                } else {
                    buffer@[i]
                },
        ),
{
    let mut r: Vec<u8> = Vec::new();
    let mut i: usize = 0;
    while i < buffer.len()
        invariant
            i <= buffer@.len(),
            r@.len() == i,
            forall|k: int|
                0 <= k < i ==> r@[k] == if k < data@.len() {
                    data@[k]
                } else {
                    buffer@[k]
                },
        decreases buffer@.len() - i,
    {
        if i < data.len() {
            r.push(data[i]);
        } else {
            r.push(buffer[i]);
        }
        i += 1;
    }
    r
}

// ---------------------------------------------------------------- the laws

proof fn mock_write_from(
    pre: MockIoc,
    image_type: ImageType,
    data: Seq<u8>,
    start: int,
    post: MockIoc,
    r: Result<(), MpiError>,
)
    requires
        write_from(pre, image_type, data, start, post, r),
        data.len() <= u32::MAX,
        0 <= start,
        pre@.initialized,
        pre@.inject.next_fw_download_error is None,
        pre@.inject.next_fw_upload_error is None,
        start <= data.len() ==> start <= partition_bytes(pre@.partitions, image_type).len()
            && partition_bytes(pre@.partitions, image_type).take(start) == data.take(start),
        start > data.len() ==> data.len() <= partition_bytes(pre@.partitions, image_type).len()
            && partition_bytes(pre@.partitions, image_type).take(data.len() as int) == data,
    ensures
        r == Ok::<(), MpiError>(()),
        partition_bytes(post@.partitions, image_type).take(data.len() as int) == data,
    decreases bytes_left(data, start),
{
    let held = partition_bytes(pre@.partitions, image_type);
    if start >= data.len() {
        assert(data.take(data.len() as int) =~= data);
        let (after, reply) = choose|
            after: Seq<u8>,
            reply: Result<crate::mpi::messages::FwUploadReply, MpiError>,
        |
            #[trigger] MockIoc::upload_step(
                pre,
                readback_command(image_type, data),
                post,
                after,
                reply,
            ) && readback_verdict(data, after, reply, r);
        assert(after =~= data) by {
            assert forall|i: int| 0 <= i < data.len() implies after[i] == data[i] by {
                assert(held.take(data.len() as int)[i] == data[i]);
            }
        }
    } else {
        let cmd = chunk_command(image_type, data, start);
        let end = chunk_end(data.len() as int, start);
        let (mid, reply) = choose|
            mid: MockIoc,
            reply: Result<crate::mpi::messages::FwDownloadReply, MpiError>,
        |
            #[trigger] MockIoc::download_step(pre, cmd, mid, reply) && match reply {
                Err(e) => post == mid && r == Err::<(), MpiError>(e),
                Ok(down) => if down.ioc_status != IocStatus::Success {
                    post == mid && r == Err::<(), MpiError>(MpiError::IocStatus(down.ioc_status))
                } else {
                    write_from(mid, image_type, data, start + CHUNK_SIZE, post, r)
                },
            };
        let now = partition_bytes(mid@.partitions, image_type);
        assert(now == overlay(held, start, data.subrange(start, end)));
        assert(now.take(end) =~= data.take(end)) by {
            assert forall|i: int| 0 <= i < end implies now[i] == data[i] by {
                if i < start {
                    assert(held.take(start)[i] == data.take(start)[i]);
                }
            }
        }
        assert(data.take(data.len() as int) =~= data);
        mock_write_from(mid, image_type, data, start + CHUNK_SIZE, post, r);
    }
}

/// A verified download to a simulated controller that has been set up, runs
/// firmware of the right kind and has no failure to report succeeds, and the
/// image is then in the flash.
pub proof fn mock_download_succeeds(
    pre: MockIoc,
    image_type: ImageType,
    target: Personality,
    data: Seq<u8>,
    post: MockIoc,
    r: Result<(), MpiError>,
)
    requires
        verified_download(pre, image_type, target, data, post, r),
        data.len() <= u32::MAX,
        pre@.initialized,
        pre@.personality == target,
        pre@.inject.next_fw_download_error is None,
        pre@.inject.next_fw_upload_error is None,
    ensures
        r == Ok::<(), MpiError>(()),
        partition_bytes(post@.partitions, image_type).take(data.len() as int) == data,
{
    let held = partition_bytes(pre@.partitions, image_type);
    assert(held.take(0) =~= data.take(0));
    mock_write_from(pre, image_type, data, 0, post, r);
}

/// A read gives back a write: after a download of `payload` at `offset`, an
/// upload of the whole partition holds `payload` there.
pub proof fn mock_read_after_write(
    pre: MockIoc,
    cmd: DownloadCommand,
    mid: MockIoc,
    down: Result<crate::mpi::messages::FwDownloadReply, MpiError>,
    up: UploadCommand,
    post: MockIoc,
    after: Seq<u8>,
    reply: Result<crate::mpi::messages::FwUploadReply, MpiError>,
)
    requires
        pre@.initialized,
        pre@.inject.next_fw_download_error is None,
        pre@.inject.next_fw_upload_error is None,
        MockIoc::download_step(pre, cmd, mid, down),
        MockIoc::upload_step(mid, up, post, after, reply),
        up.image_type == cmd.image_type,
        up.buffer.len() >= cmd.image_offset + cmd.payload.len(),
    ensures
        after.subrange(
            cmd.image_offset as int,
            cmd.image_offset + cmd.payload.len(),
        ) == cmd.payload,
{
    assert(after.subrange(cmd.image_offset as int, cmd.image_offset + cmd.payload.len())
        =~= cmd.payload);
}

/// A request to erase takes from the simulated flash what its flags name and nothing else: the
/// flash array (0x4) is everything; the non-volatile data (0x1) and the firmware in use
/// (0x10000000) are one image each.
pub proof fn mock_erases_what_is_named(
    pre: MockIoc,
    req: ToolboxCleanRequest,
    post: MockIoc,
    r: Result<ToolboxReply, MpiError>,
    t: ImageType,
)
    requires
        pre@.initialized,
        pre@.inject.next_toolbox_error is None,
        MockIoc::toolbox_step(pre, req, post, r),
    ensures
        r matches Ok(v) && v.ioc_status == IocStatus::Success,
        post@.partitions.contains_key(t) <==> {
            &&& pre@.partitions.contains_key(t)
            &&& req.flags.raw & 0x4 == 0
            &&& !(t is NvData && req.flags.raw & 0x1 != 0)
            &&& !(t is Fw && req.flags.raw & 0x1000_0000 != 0)
        },
        post@.partitions.contains_key(t) ==> post@.partitions[t] == pre@.partitions[t],
        post@.personality == pre@.personality,
        post@.initialized,
{
}

/// A download to the simulated controller changes the bytes that it names and no others: not
/// those before or behind them, and no other image.
pub proof fn mock_writes_what_is_named(
    pre: MockIoc,
    cmd: DownloadCommand,
    post: MockIoc,
    r: Result<FwDownloadReply, MpiError>,
    t: ImageType,
    i: int,
)
    requires
        pre@.initialized,
        pre@.inject.next_fw_download_error is None,
        MockIoc::download_step(pre, cmd, post, r),
    ensures
        r matches Ok(v) && v.ioc_status == IocStatus::Success && v.image_type
            == cmd.image_type.code(),
        t != cmd.image_type ==> post@.partitions.contains_key(t) == pre@.partitions.contains_key(t)
            && post@.partitions[t] == pre@.partitions[t],
        post@.partitions.contains_key(cmd.image_type),
        0 <= i < cmd.payload.len() ==> post@.partitions[cmd.image_type][cmd.image_offset + i]
            == cmd.payload[i],
        pre@.partitions.contains_key(cmd.image_type) && 0 <= i
            < pre@.partitions[cmd.image_type].len() && !(cmd.image_offset <= i < cmd.image_offset
            + cmd.payload.len()) ==> post@.partitions[cmd.image_type][i]
            == pre@.partitions[cmd.image_type][i],
        post@.personality == pre@.personality,
        post@.initialized,
{
}

/// An upload from the simulated controller fills the buffer with the image from its first byte
/// on, as far as both reach, says how large the image is, and changes nothing.
pub proof fn mock_reads_the_image(
    pre: MockIoc,
    cmd: UploadCommand,
    post: MockIoc,
    after: Seq<u8>,
    r: Result<FwUploadReply, MpiError>,
    i: int,
)
    requires
        pre@.initialized,
        pre@.inject.next_fw_upload_error is None,
        MockIoc::upload_step(pre, cmd, post, after, r),
        0 <= i < cmd.buffer.len(),
    ensures
        post@ == pre@,
        after.len() == cmd.buffer.len(),
        pre@.partitions.contains_key(cmd.image_type) && i < pre@.partitions[cmd.image_type].len()
            ==> after[i] == pre@.partitions[cmd.image_type][i],
        pre@.partitions.contains_key(cmd.image_type) && i >= pre@.partitions[cmd.image_type].len()
            ==> after[i] == cmd.buffer[i],
        !pre@.partitions.contains_key(cmd.image_type) ==> after[i] == cmd.buffer[i],
        r matches Ok(v) && v.ioc_status == IocStatus::Success && (pre@.partitions.contains_key(
            cmd.image_type,
        ) ==> v.actual_image_size == pre@.partitions[cmd.image_type].len() as u32) && (
        !pre@.partitions.contains_key(cmd.image_type) ==> v.actual_image_size == 0),
{
}

/// A simulated controller that has not been started refuses to write, to read and to erase,
/// and keeps what it holds; starting it is all that it takes.
pub proof fn mock_has_to_be_started(
    pre: MockIoc,
    write: DownloadCommand,
    written: MockIoc,
    w: Result<FwDownloadReply, MpiError>,
    erase: ToolboxCleanRequest,
    erased: MockIoc,
    x: Result<ToolboxReply, MpiError>,
    start: IocInitRequest,
    started: MockIoc,
    i: Result<IocInitReply, MpiError>,
)
    requires
        !pre@.initialized,
        pre@.inject.next_fw_download_error is None,
        pre@.inject.next_toolbox_error is None,
        MockIoc::download_step(pre, write, written, w),
        MockIoc::toolbox_step(pre, erase, erased, x),
        MockIoc::init_step(pre, start, started, i),
    ensures
        written@ == pre@ && (w matches Ok(v) && v.ioc_status == IocStatus::InvalidState),
        erased@ == pre@ && (x matches Ok(v) && v.ioc_status == IocStatus::InvalidState),
        started@.initialized && started@.partitions == pre@.partitions && (i matches Ok(v)
            && v.ioc_status == IocStatus::Success),
{
}

/// A failure to be reported is reported once, and what the controller holds stays as it is.
pub proof fn mock_failure_comes_once(
    pre: MockIoc,
    cmd: DownloadCommand,
    post: MockIoc,
    r: Result<FwDownloadReply, MpiError>,
    status: IocStatus,
)
    requires
        pre@.inject.next_fw_download_error == Some(status),
        MockIoc::download_step(pre, cmd, post, r),
    ensures
        r matches Ok(v) && v.ioc_status == status,
        post@.inject.next_fw_download_error is None,
        post@.partitions == pre@.partitions,
{
}

} // verus!
