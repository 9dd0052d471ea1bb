//! Booting a controller with code that the host holds.

use crate::mpi::diag::{poll, poll_turn, MpiError};
use crate::mpi::doorbell::{
    MpiRegisterContext, RegisterOp, MPI2_DIAG_BOOTDEVICE_HCDW, MPI2_DIAG_BOOTDEVICE_MASK,
    MPI2_DIAG_CLR_FLASH_BAD_SIG, MPI2_DIAG_FORCE_HCB, MPI2_DIAG_HOLD_IOC_RESET,
    MPI2_DIAG_RESET_HISTORY, MPI2_DOORBELL, MPI2_DOORBELL_READY,
};
use crate::text::{
    chars_of, dec, hex_pad, number_result, push_dec, push_hex_pad, read_number, trim, trimmed,
    NumberFault,
};
use vstd::prelude::*;

verus! {

/// Size of the window that the controller reads its code from.
pub const HCDW_SIZE: usize = 0x20_0000;

/// The register for the low half of the address of the window.
pub const MPI2_HCDW_ADDR_LOW: u32 = 0x78;

/// The register for the high half of the address of the window.
pub const MPI2_HCDW_ADDR_HIGH: u32 = 0x7c;

/// The register for the size of the window.
pub const MPI2_HCDW_SIZE: u32 = 0x74;

/// The bits of that register that hold the size.
pub const MPI2_HCDW_SIZE_SIZE_MASK: u32 = 0xFFFF_F000;

/// The bit of that register that turns the window on.
pub const MPI2_HCDW_SIZE_HCB_ENABLE: u32 = 0x0000_0001;

/// How many large pages there have to be.
pub const REQUIRED_HUGEPAGES: u64 = 16;

/// Errors of booting from the host.
#[derive(Debug)]
pub enum HcbError {
    /// A file cannot be read.
    Io(String),
    /// There is no memory for the window.
    HugepageAllocationFailed(String),
    /// There are too few large pages.
    InsufficientHugepages { required: u64, available: u64 },
    /// The controller does not become ready.
    IocNotReadyAfterBoot { doorbell: u32 },
    /// The device cannot be made to read the memory of the host.
    BusMasteringNotImplemented,
    /// The address of the window cannot be found out.
    PagemapReadFailed,
    /// The controller cannot be halted.
    Mpi(MpiError),
    /// A number is malformed.
    Parse(NumberFault),
}

impl HcbError {
    /// The error in words.
    pub open spec fn spec_text(&self) -> Seq<char> {
        match self {
            HcbError::Io(e) => "IO error: "@ + e@,
            HcbError::HugepageAllocationFailed(e) => "Hugepage allocation failed: "@ + e@,
            HcbError::InsufficientHugepages { required, available } => {
                "Insufficient hugepages (need "@ + dec(*required as nat) + ", have "@ + dec(
                    *available as nat,
                ) + ")"@
            },
            HcbError::IocNotReadyAfterBoot { doorbell } => {
                "IOC did not become ready after boot (doorbell=0x"@ + hex_pad(
                    *doorbell as nat,
                    8,
                    false,
                ) + ")"@
            },
            HcbError::BusMasteringNotImplemented => {
                "Bus mastering enable not implemented — needs BDF parameter"@
            },
            HcbError::PagemapReadFailed => "Pagemap read failed"@,
            HcbError::Mpi(e) => "MPI error: "@ + e.spec_text(),
            HcbError::Parse(e) => "Parse error: "@ + e.spec_text(),
        }
    }

    /// The error in words.
    pub fn text(&self) -> (r: String)
        ensures
            r@ == self.spec_text(),
    {
        match self {
            HcbError::Io(e) => {
                let mut t = "IO error: ".to_owned();
                t.append(e.as_str());
                t
            },
            HcbError::HugepageAllocationFailed(e) => {
                let mut t = "Hugepage allocation failed: ".to_owned();
                t.append(e.as_str());
                t
            },
            HcbError::InsufficientHugepages { required, available } => {
                let mut t = "Insufficient hugepages (need ".to_owned();
                push_dec(&mut t, *required);
                t.append(", have ");
                push_dec(&mut t, *available);
                t.append(")");
                t
            },
            HcbError::IocNotReadyAfterBoot { doorbell } => {
                let mut t = "IOC did not become ready after boot (doorbell=0x".to_owned();
                push_hex_pad(&mut t, *doorbell as u64, 8, false);
                t.append(")");
                t
            },
            HcbError::BusMasteringNotImplemented => {
                "Bus mastering enable not implemented — needs BDF parameter".to_owned()
            },
            HcbError::PagemapReadFailed => "Pagemap read failed".to_owned(),
            HcbError::Mpi(e) => {
                let mut t = "MPI error: ".to_owned();
                t.append(e.text().as_str());
                t
            },
            HcbError::Parse(e) => {
                let mut t = "Parse error: ".to_owned();
                t.append(e.text());
                t
            },
        }
    }
}

/// Where the entry for the page at `address` stands in the page map.
pub open spec fn pagemap_position(address: u64) -> u64 {
    ((address >> 12) * 8) as u64
}

/// Where the entry for the page at `address` stands in the page map.
pub fn pagemap_offset(address: u64) -> (r: u64)
    ensures
        r == pagemap_position(address),
        r == (address / 4096) * 8,
{
    assert(address >> 12 == address / 4096) by (bit_vector);
    (address >> 12) * 8
}

/// The physical address that an entry of the page map holds.
pub open spec fn physical_address(entry: u64) -> u64 {
    (entry & 0x7f_ffff_ffff_ffff) << 12
}

/// Reads the physical address out of an entry of the page map.
pub fn resolve_physical_address(entry: u64) -> (r: u64)
    ensures
        r == physical_address(entry),
{
    (entry & 0x7f_ffff_ffff_ffff) << 12
}

/// The writes that show the window at `address` to the controller.
pub open spec fn window_ops(address: u64) -> Seq<RegisterOp> {
    seq![
        RegisterOp::Write {
            offset: MPI2_HCDW_ADDR_LOW,
            value: (address & 0xffff_ffff) as u32,
        },
        RegisterOp::Write { offset: MPI2_HCDW_ADDR_HIGH, value: (address >> 32) as u32 },
        RegisterOp::Write { offset: MPI2_HCDW_SIZE, value: 0xffe0_0001 },
    ]
}

/// Plans showing the window at `address` to the controller.
pub fn show_window(address: u64) -> (r: Vec<RegisterOp>)
    ensures
        r@ == window_ops(address),
{
    let mut ops: Vec<RegisterOp> = Vec::new();
    ops.push(
        RegisterOp::Write { offset: MPI2_HCDW_ADDR_LOW, value: (address & 0xffff_ffff) as u32 },
    );
    ops.push(RegisterOp::Write { offset: MPI2_HCDW_ADDR_HIGH, value: (address >> 32) as u32 });
    let size: u32 = (0xffff_f000u32 & !0x001f_ffffu32) | MPI2_HCDW_SIZE_HCB_ENABLE;
    assert((0xffff_f000u32 & !0x001f_ffffu32) | 1u32 == 0xffe0_0001u32) by (bit_vector);
    ops.push(RegisterOp::Write { offset: MPI2_HCDW_SIZE, value: size });
    assert(ops@ =~= window_ops(address));
    ops
}

/// The window with `firmware` in it: at the start, where it was read to, and at
/// the end, where the controller looks for it. What is read of a larger file is
/// cut to the window.
pub open spec fn window_with(firmware: Seq<u8>) -> Seq<u8> {
    let f = if firmware.len() > HCDW_SIZE {
        firmware.take(HCDW_SIZE as int)
    } else {
        firmware
    };
    (f + Seq::new((HCDW_SIZE - f.len()) as nat, |i: int| 0x42u8)).take(HCDW_SIZE - f.len()) + f
}

/// Lays firmware out in the window.
pub fn place_firmware(firmware: &[u8]) -> (r: Vec<u8>)
    ensures
        r@ == window_with(firmware@),
        r@.len() == HCDW_SIZE,
{
    let n: usize = if firmware.len() > HCDW_SIZE { HCDW_SIZE } else { firmware.len() };
    let gap: usize = HCDW_SIZE - n;
    let ghost f = firmware@.take(n as int);
    let ghost filled = f + Seq::new(gap as nat, |i: int| 0x42u8);
    let mut out: Vec<u8> = Vec::new();
    let mut i: usize = 0;
    while i < gap
        invariant
            i <= gap,
            n <= HCDW_SIZE,
            n <= firmware@.len(),
            gap == HCDW_SIZE - n,
            f == firmware@.take(n as int),
            filled == f + Seq::new(gap as nat, |i: int| 0x42u8),
            out@ == filled.take(i as int),
        decreases gap - i,
    {
        if i < n {
            out.push(firmware[i]);
        } else {
            out.push(0x42);
        }
        i += 1;
        assert(out@ =~= filled.take(i as int));
    }
    let mut k: usize = 0;
    let ghost head = filled.take(gap as int);
    assert(out@ =~= head + f.take(0));
    while k < n
        invariant
            k <= n,
            n <= firmware@.len(),
            f == firmware@.take(n as int),
            out@ == head + f.take(k as int),
        decreases n - k,
    {
        out.push(firmware[k]);
        k += 1;
        assert(out@ =~= head + f.take(k as int));
    }
    assert(f.take(n as int) =~= f);
    assert(firmware@.take(firmware@.len() as int) =~= firmware@);
    out
}

/// The end of the window holds exactly the firmware.
pub proof fn firmware_ends_window(firmware: Seq<u8>)
    requires
        firmware.len() <= HCDW_SIZE,
    ensures
        window_with(firmware).len() == HCDW_SIZE,
        window_with(firmware).skip(HCDW_SIZE - firmware.len()) == firmware,
{
    assert(window_with(firmware).skip(HCDW_SIZE - firmware.len()) =~= firmware);
}

/// The diagnostic register that clears what an earlier boot left behind.
pub open spec fn prepared_diag(diag: u32) -> u32 {
    (diag | MPI2_DIAG_CLR_FLASH_BAD_SIG) & !MPI2_DIAG_BOOTDEVICE_MASK & !MPI2_DIAG_FORCE_HCB
        & !MPI2_DIAG_RESET_HISTORY
}

/// The diagnostic register that clears what an earlier boot left behind.
pub fn prepare_diag(diag: u32) -> (r: u32)
    ensures
        r == prepared_diag(diag),
{
    (diag | MPI2_DIAG_CLR_FLASH_BAD_SIG) & !MPI2_DIAG_BOOTDEVICE_MASK & !MPI2_DIAG_FORCE_HCB
        & !MPI2_DIAG_RESET_HISTORY
}

/// The writes that select the window as boot device and let the controller go.
pub open spec fn release_ops(diag_offset: u32, diag: u32) -> Seq<RegisterOp> {
    seq![
        RegisterOp::Write { offset: diag_offset, value: diag | MPI2_DIAG_BOOTDEVICE_HCDW },
        RegisterOp::Write {
            offset: diag_offset,
            value: (diag | MPI2_DIAG_BOOTDEVICE_HCDW) & !MPI2_DIAG_HOLD_IOC_RESET
                & !MPI2_DIAG_FORCE_HCB,
        },
    ]
}

/// Plans letting the controller boot from the window.
pub fn release(diag_offset: u32, diag: u32) -> (r: Vec<RegisterOp>)
    ensures
        r@ == release_ops(diag_offset, diag),
{
    let mut ops: Vec<RegisterOp> = Vec::new();
    let selected: u32 = diag | MPI2_DIAG_BOOTDEVICE_HCDW;
    ops.push(RegisterOp::Write { offset: diag_offset, value: selected });
    ops.push(
        RegisterOp::Write {
            offset: diag_offset,
            value: selected & !MPI2_DIAG_HOLD_IOC_RESET & !MPI2_DIAG_FORCE_HCB,
        },
    );
    assert(ops@ =~= release_ops(diag_offset, diag));
    ops
}

/// Judges the doorbell after the boot.
pub fn verify_boot(doorbell: u32) -> (r: Result<(), HcbError>)
    ensures
        if doorbell & MPI2_DOORBELL_READY == 0 {
            r == Err::<(), HcbError>(HcbError::IocNotReadyAfterBoot { doorbell })
        } else {
            r == Ok::<(), HcbError>(())
        },
{
    if doorbell & MPI2_DOORBELL_READY == 0 {
        Err(HcbError::IocNotReadyAfterBoot { doorbell })
    } else {
        Ok(())
    }
}

/// Lets the device read the memory of the host: that cannot be done without its
/// bus address.
pub fn enable_bus_mastering() -> (r: Result<(), HcbError>)
    ensures
        r == Err::<(), HcbError>(HcbError::BusMasteringNotImplemented),
{
    Err(HcbError::BusMasteringNotImplemented)
}

/// Gets a filled window ready to be shown to the controller: before its address is looked
/// for, the device has to be let at the memory of the host. As that cannot be done, no
/// window is ever shown.
pub fn setup_hcdw() -> (r: Result<(), HcbError>)
    ensures
        r == Err::<(), HcbError>(HcbError::BusMasteringNotImplemented),
{
    enable_bus_mastering()
}

/// Decides by the text of the system's counter whether there are enough large
/// pages.
pub fn check_hugepages(counter: &str) -> (r: Result<(), HcbError>)
    ensures
        match number_result(trim(counter@), 10, 0xffff_ffff_ffff_ffff) {
            Err(f) => r == Err::<(), HcbError>(HcbError::Parse(f)),
            Ok(n) => if n < REQUIRED_HUGEPAGES {
                r == Err::<(), HcbError>(
                    HcbError::InsufficientHugepages {
                        required: REQUIRED_HUGEPAGES,
                        available: n as u64,
                    },
                )
            } else {
                r == Ok::<(), HcbError>(())
            },
        },
{
    let chars = chars_of(counter);
    match read_number(trimmed(chars.as_slice()), 10, 0xffff_ffff_ffff_ffff) {
        Err(f) => Err(HcbError::Parse(f)),
        Ok(n) => {
            if n < REQUIRED_HUGEPAGES {
                Err(
                    HcbError::InsufficientHugepages {
                        required: REQUIRED_HUGEPAGES,
                        available: n,
                    },
                )
            } else {
                Ok(())
            }
        },
    }
}

// ------------------------------------------------------------ the sequence

/// How often the doorbell is read while the controller boots.
pub const BOOT_POLLS: u32 = 200;

/// Where booting a halted controller stands.
#[derive(Debug, Clone, Copy, PartialEq, Eq, Structural)]
pub enum BootStage {
    /// The diagnostic register is read.
    Prepare,
    /// The firmware is read.
    Load,
    /// The device is let at the window, once it is filled.
    Expose,
    /// The address of the window is found out.
    Resolve,
    /// The diagnostic register is read again.
    Release,
    /// The doorbell is read, at most so many times more.
    Poll { left: u32 },
    /// The doorbell is read for the last time.
    Verify,
}

/// What happens while a controller boots.
#[derive(Debug)]
pub enum BootEvent {
    /// The value of the register that was read.
    Register(u32),
    /// The firmware, or why it cannot be read.
    Firmware(Result<Vec<u8>, String>),
    /// The window is filled.
    Filled,
    /// The physical address of the window, or why it cannot be used.
    Window(Result<u64, HcbError>),
}

/// What is to be done to boot a controller.
#[derive(Debug)]
pub enum BootAction {
    /// Do something with the registers.
    Registers(Vec<RegisterOp>),
    /// Fill the window.
    Fill(Vec<u8>),
    /// Give up.
    Fail(HcbError),
}

/// What an action stands for.
#[verifier::ext_equal]
pub enum BootDemand {
    Registers(Seq<RegisterOp>),
    Fill(Seq<u8>),
    Fail(HcbError),
}

impl View for BootAction {
    type V = BootDemand;

    open spec fn view(&self) -> BootDemand {
        match self {
            BootAction::Registers(ops) => BootDemand::Registers(ops@),
            BootAction::Fill(b) => BootDemand::Fill(b@),
            BootAction::Fail(e) => BootDemand::Fail(*e),
        }
    }
}

/// The register that a stage needs to know.
pub open spec fn boot_reads(s: BootStage, ctx: MpiRegisterContext) -> Option<u32> {
    match s {
        BootStage::Prepare | BootStage::Release => Some(ctx.diag_offset),
        BootStage::Poll { .. } | BootStage::Verify => Some(MPI2_DOORBELL),
        _ => None,
    }
}

/// The register that a stage needs to know.
pub fn boot_register(s: BootStage, ctx: &MpiRegisterContext) -> (r: Option<u32>)
    ensures
        r == boot_reads(s, *ctx),
{
    match s {
        BootStage::Prepare | BootStage::Release => Some(ctx.diag_offset),
        BootStage::Poll { .. } | BootStage::Verify => Some(MPI2_DOORBELL),
        _ => None,
    }
}

/// Whether an event is one that can come at a stage.
pub open spec fn boot_awaits(s: BootStage, e: BootEvent) -> bool {
    match s {
        BootStage::Load => e is Firmware,
        BootStage::Expose => e is Filled,
        BootStage::Resolve => e is Window,
        _ => e is Register,
    }
}

/// What an event leads to: what is to be done, and the stage after it, if it goes on.
pub open spec fn boot_turn(s: BootStage, ctx: MpiRegisterContext, e: BootEvent) -> (
    BootDemand,
    Option<BootStage>,
) {
    match (s, e) {
        (BootStage::Prepare, BootEvent::Register(v)) => (
            BootDemand::Registers(
                seq![RegisterOp::Write { offset: ctx.diag_offset, value: prepared_diag(v) }],
            ),
            Some(BootStage::Load),
        ),
        (BootStage::Load, BootEvent::Firmware(Err(why))) => (
            BootDemand::Fail(HcbError::Io(why)),
            None,
        ),
        (BootStage::Load, BootEvent::Firmware(Ok(f))) => (
            BootDemand::Fill(window_with(f@)),
            Some(BootStage::Expose),
        ),
        (BootStage::Expose, BootEvent::Filled) => (
            BootDemand::Fail(HcbError::BusMasteringNotImplemented),
            None,
        ),
        (BootStage::Resolve, BootEvent::Window(Err(why))) => (BootDemand::Fail(why), None),
        (BootStage::Resolve, BootEvent::Window(Ok(address))) => (
            BootDemand::Registers(window_ops(address)),
            Some(BootStage::Release),
        ),
        (BootStage::Release, BootEvent::Register(v)) => (
            BootDemand::Registers(release_ops(ctx.diag_offset, v)),
            Some(BootStage::Poll { left: BOOT_POLLS }),
        ),
        (BootStage::Poll { left }, BootEvent::Register(v)) => {
            let (ops, more) = poll_turn(left, v);
            (
                BootDemand::Registers(ops),
                match more {
                    Some(n) => Some(BootStage::Poll { left: n }),
                    None => Some(BootStage::Verify),
                },
            )
        },
        (BootStage::Verify, BootEvent::Register(v)) => (
            if v & MPI2_DOORBELL_READY == 0 {
                BootDemand::Fail(HcbError::IocNotReadyAfterBoot { doorbell: v })
            } else {
                BootDemand::Registers(seq![RegisterOp::Sleep { millis: 500 }])
            },
            None,
        ),
        _ => (BootDemand::Registers(Seq::empty()), None),
    }
}

/// Takes one step in booting a halted controller with code that the host holds.
pub fn hostboot(s: BootStage, ctx: &MpiRegisterContext, e: BootEvent) -> (r: (
    BootAction,
    Option<BootStage>,
))
    requires
        boot_awaits(s, e),
    ensures
        (r.0@, r.1) == boot_turn(s, *ctx, e),
{
    match (s, e) {
        (BootStage::Prepare, BootEvent::Register(v)) => {
            let mut ops: Vec<RegisterOp> = Vec::new();
            ops.push(RegisterOp::Write { offset: ctx.diag_offset, value: prepare_diag(v) });
            assert(ops@ =~= seq![
                RegisterOp::Write { offset: ctx.diag_offset, value: prepared_diag(v) },
            ]);
            (BootAction::Registers(ops), Some(BootStage::Load))
        },
        (BootStage::Load, BootEvent::Firmware(Err(why))) => {
            (BootAction::Fail(HcbError::Io(why)), None)
        },
        (BootStage::Load, BootEvent::Firmware(Ok(f))) => {
            (BootAction::Fill(place_firmware(f.as_slice())), Some(BootStage::Expose))
        },
        (BootStage::Expose, BootEvent::Filled) => match setup_hcdw() {
            Err(e) => (BootAction::Fail(e), None),
            Ok(_) => (BootAction::Registers(Vec::new()), Some(BootStage::Resolve)),
        },
        (BootStage::Resolve, BootEvent::Window(Err(why))) => (BootAction::Fail(why), None),
        (BootStage::Resolve, BootEvent::Window(Ok(address))) => {
            (BootAction::Registers(show_window(address)), Some(BootStage::Release))
        },
        (BootStage::Release, BootEvent::Register(v)) => {
            (
                BootAction::Registers(release(ctx.diag_offset, v)),
                Some(BootStage::Poll { left: BOOT_POLLS }),
            )
        },
        (BootStage::Poll { left }, BootEvent::Register(v)) => {
            let (ops, more) = poll(left, v);
            let next = match more {
                Some(n) => BootStage::Poll { left: n },
                None => BootStage::Verify,
            };
            (BootAction::Registers(ops), Some(next))
        },
        (BootStage::Verify, BootEvent::Register(v)) => match verify_boot(v) {
            Err(e) => (BootAction::Fail(e), None),
            Ok(_) => {
                let mut ops: Vec<RegisterOp> = Vec::new();
                ops.push(RegisterOp::Sleep { millis: 500 });
                assert(ops@ =~= seq![RegisterOp::Sleep { millis: 500 }]);
                (BootAction::Registers(ops), None)
            },
        },
        _ => {
            let ops: Vec<RegisterOp> = Vec::new();
            assert(ops@ =~= Seq::empty());
            (BootAction::Registers(ops), None)
        },
    }
}

/// How many turns of a boot are left at most.
pub open spec fn boot_left(s: BootStage) -> nat {
    match s {
        BootStage::Prepare => BOOT_POLLS as nat + 6,
        BootStage::Load => BOOT_POLLS as nat + 5,
        BootStage::Expose => BOOT_POLLS as nat + 4,
        BootStage::Resolve => BOOT_POLLS as nat + 3,
        BootStage::Release => BOOT_POLLS as nat + 2,
        BootStage::Poll { left } => left as nat + 1,
        BootStage::Verify => 0,
    }
}

/// A boot ends: each turn that goes on leaves fewer.
pub proof fn boot_ends(s: BootStage, ctx: MpiRegisterContext, e: BootEvent)
    requires
        boot_awaits(s, e),
    ensures
        boot_turn(s, ctx, e).1 matches Some(n) ==> boot_left(n) < boot_left(s),
{
}

/// The controller is let go only after the window was shown to it.
pub proof fn release_follows_window(s: BootStage, ctx: MpiRegisterContext, e: BootEvent)
    requires
        boot_awaits(s, e),
        boot_turn(s, ctx, e).1 == Some(BootStage::Release),
    ensures
        s == BootStage::Resolve,
        e matches BootEvent::Window(Ok(address)) && boot_turn(s, ctx, e).0 == BootDemand::Registers(
            window_ops(address),
        ),
{
}

/// Whether a stage comes before the window is shown.
pub open spec fn before_window(s: BootStage) -> bool {
    s is Prepare || s is Load || s is Expose
}

/// A boot never shows the window, as the device cannot be let at the memory of the host:
/// from its first stage on it writes no register but the one that prepares it, and it ends
/// in a failure.
pub proof fn window_is_never_shown(s: BootStage, ctx: MpiRegisterContext, e: BootEvent)
    requires
        before_window(s),
        boot_awaits(s, e),
    ensures
        ({
            let (d, next) = boot_turn(s, ctx, e);
            &&& next matches Some(n) ==> before_window(n)
            &&& next is None ==> d is Fail
            &&& d is Registers ==> s is Prepare
            &&& s is Expose ==> d == BootDemand::Fail(HcbError::BusMasteringNotImplemented)
        }),
{
}

/// The entry of the page map for an address is found by its page: eight bytes for each page of
/// 4096, the same for all addresses of a page, and next to each other for pages that are.
pub proof fn page_entries_follow_pages(address: u64)
    ensures
        pagemap_position(address) == address / 4096 * 8,
        address + 4096 <= u64::MAX ==> pagemap_position((address + 4096) as u64) == pagemap_position(
            address,
        ) + 8,
{
    assert(address >> 12 == address / 4096) by (bit_vector);
    if address + 4096 <= u64::MAX {
        let next = (address + 4096) as u64;
        assert(next >> 12 == next / 4096) by (bit_vector);
    }
}

/// The physical address in an entry of the page map is that of a page: the low 55 bits of the
/// entry, times 4096. The flags above them do not count.
pub proof fn page_address_is_a_page(entry: u64)
    ensures
        physical_address(entry) % 4096 == 0,
        physical_address(entry) == physical_address(entry % 0x80_0000_0000_0000),
        entry % 0x80_0000_0000_0000 < 0x10_0000_0000_0000 ==> physical_address(entry) == entry
            % 0x80_0000_0000_0000 * 4096,
{
    assert((entry & 0x7f_ffff_ffff_ffffu64) << 12 == (entry % 0x80_0000_0000_0000
        & 0x7f_ffff_ffff_ffffu64) << 12 && ((entry & 0x7f_ffff_ffff_ffffu64) << 12) % 4096 == 0
        && (entry % 0x80_0000_0000_0000 < 0x10_0000_0000_0000 ==> (entry & 0x7f_ffff_ffff_ffffu64)
        << 12 == entry % 0x80_0000_0000_0000 * 4096)) by (bit_vector);
}

/// The window is shown by three writes: the low half of its address at 0x78, the high half at
/// 0x7C, and at 0x74 its size of two mebibytes with the bit that turns it on. The two halves
/// make up the address.
pub proof fn window_is_shown_whole(address: u64)
    ensures
        window_ops(address).len() == 3,
        window_ops(address)[0] matches RegisterOp::Write { offset: a, value: low } && (
        window_ops(address)[1] matches RegisterOp::Write { offset: b, value: high } && a == 0x78 && b
            == 0x7C && low + 0x1_0000_0000 * high == address),
        window_ops(address)[2] matches RegisterOp::Write { offset, value } && offset == 0x74
            && value == 0x1_0000_0000 - 0x20_0000 + 1,
{
    assert((address & 0xffff_ffff) as u32 == address % 0x1_0000_0000 && (address >> 32) as u32
        == address / 0x1_0000_0000) by (bit_vector);
}

/// The window holds the firmware twice, as far as there is room: each of its bytes at its own
/// place from the start, and at its own place before the end, where it counts; what is between
/// is filled with 0x42.
pub proof fn window_holds_firmware(firmware: Seq<u8>, i: int)
    requires
        firmware.len() <= 0x20_0000,
        0 <= i < 0x20_0000,
    ensures
        window_with(firmware).len() == 0x20_0000,
        i >= 0x20_0000 - firmware.len() ==> window_with(firmware)[i] == firmware[i - (0x20_0000
            - firmware.len())],
        i < 0x20_0000 - firmware.len() && i < firmware.len() ==> window_with(firmware)[i]
            == firmware[i],
        i < 0x20_0000 - firmware.len() && i >= firmware.len() ==> window_with(firmware)[i] == 0x42,
{
}

/// Of firmware larger than the window its beginning fills the whole window.
pub proof fn large_firmware_is_cut(firmware: Seq<u8>)
    requires
        firmware.len() > 0x20_0000,
    ensures
        window_with(firmware) == firmware.take(0x20_0000),
{
    assert(window_with(firmware) =~= firmware.take(0x20_0000));
}

/// Before a boot the mark of a bad flash is cleared (0x400), and what chose another way to boot
/// (0x1800 and 0x200) and the history of resets (0x20) are taken back; then the window is chosen
/// (0x800), and last the controller is let go (0x2). No other bit is touched.
pub proof fn boot_touches_its_bits(diag_offset: u32, diag: u32)
    ensures
        prepared_diag(diag) & 0x400 == 0x400,
        prepared_diag(diag) & 0x1A20 == 0,
        prepared_diag(diag) & !0x1E20u32 == diag & !0x1E20u32,
        release_ops(diag_offset, diag).len() == 2,
        release_ops(diag_offset, diag)[0] == (RegisterOp::Write {
            offset: diag_offset,
            value: diag | 0x800,
        }),
        release_ops(diag_offset, diag)[1] matches RegisterOp::Write { offset, value } && offset
            == diag_offset && value & 0x800 == 0x800 && value & 0x202 == 0 && value & !0xA02u32
            == diag & !0xA02u32,
{
    let d = diag;
    assert({
        let p = (d | 0x400u32) & !0x1800u32 & !0x200u32 & !0x20u32;
        let r = (d | 0x800u32) & !0x2u32 & !0x200u32;
        p & 0x400 == 0x400 && p & 0x1A20 == 0 && p & !0x1E20u32 == d & !0x1E20u32 && r & 0x800
            == 0x800 && r & 0x202 == 0 && r & !0xA02u32 == d & !0xA02u32
    }) by (bit_vector);
}

/// A boot goes through its stages in order, and no stage is left out: the register is prepared,
/// the firmware is loaded, the window is exposed; after a window was shown the controller is let
/// go, polled up to 200 times, and judged by its doorbell.
pub proof fn boot_goes_in_order(s: BootStage, ctx: MpiRegisterContext, e: BootEvent)
    requires
        boot_awaits(s, e),
    ensures
        ({
            let (d, next) = boot_turn(s, ctx, e);
            match s {
                BootStage::Prepare => next == Some(BootStage::Load) && d is Registers,
                BootStage::Load => (e matches BootEvent::Firmware(Ok(f)) ==> next == Some(
                    BootStage::Expose,
                ) && (d matches BootDemand::Fill(w) && w.len() == 0x20_0000)) && (e
                    matches BootEvent::Firmware(Err(x)) ==> next is None && d == BootDemand::Fail(
                    HcbError::Io(x),
                )),
                BootStage::Expose => next is None && d is Fail,
                BootStage::Resolve => (e matches BootEvent::Window(Ok(_)) ==> next == Some(
                    BootStage::Release,
                )) && (e matches BootEvent::Window(Err(x)) ==> next is None && d
                    == BootDemand::Fail(x)),
                BootStage::Release => next == Some(BootStage::Poll { left: 200 }),
                BootStage::Poll { .. } => next matches Some(n) && (n is Poll || n is Verify),
                BootStage::Verify => next is None && (e matches BootEvent::Register(v) && (d is Fail
                    <==> v / 0x1000_0000 % 2 == 0)),
            }
        }),
{
    if let BootEvent::Register(v) = e {
        assert((v & 0x1000_0000u32 != 0) == (v / 0x1000_0000 % 2 == 1)) by (bit_vector);
    }
}

/// What a boot has to know it reads from the right register: the diagnostic register before it
/// changes that, and the doorbell, which stands at 0, for the state of the controller.
pub proof fn boot_reads_its_registers(s: BootStage, ctx: MpiRegisterContext)
    ensures
        s is Prepare || s is Release ==> boot_reads(s, ctx) == Some(ctx.diag_offset),
        s is Poll || s is Verify ==> boot_reads(s, ctx) == Some(0u32),
        boot_reads(s, ctx) is None <==> !(s is Prepare || s is Release || s is Poll || s is Verify),
{
}

} // verus!
