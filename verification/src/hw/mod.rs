//! Ways to a device.

use crate::text::labelled;
use vstd::prelude::*;

pub mod vfio;

use vfio::VfioBackend;

verus! {

/// Errors of the ways to a device.
#[derive(Debug)]
pub enum HwError {
    /// A file cannot be read or written.
    Io(String),
    /// There is no way.
    NoBackend { tried: String },
    /// The driver cannot be changed.
    DriverBind(String),
    /// The group of the device cannot be had.
    VfioGroupUnavailable { bdf: String, reason: String },
    /// The registers cannot be mapped.
    Bar1Mmap(String),
    /// There is no memory that the device can reach.
    DmaAlloc(String),
    /// A part of the kernel is missing.
    ModuleMissing(&'static str),
    /// Something else stands in the way.
    Preflight(String),
}

impl HwError {
    /// The error in words.
    pub open spec fn spec_text(&self) -> Seq<char> {
        match self {
            HwError::Io(e) => "io: "@ + e@,
            HwError::NoBackend { tried } => "no usable hardware backend (tried: "@ + tried@ + ")"@,
            HwError::DriverBind(e) => "driver bind/unbind: "@ + e@,
            HwError::VfioGroupUnavailable { bdf, reason } => "VFIO group not available for "@ + bdf@
                + ": "@ + reason@,
            HwError::Bar1Mmap(e) => "BAR1 mmap failed: "@ + e@,
            HwError::DmaAlloc(e) => "DMA allocation failed: "@ + e@,
            HwError::ModuleMissing(e) => "kernel module missing: "@ + e@,
            HwError::Preflight(e) => "preflight: "@ + e@,
        }
    }

    /// The error in words.
    pub fn text(&self) -> (r: String)
        ensures
            r@ == self.spec_text(),
    {
        match self {
            HwError::Io(e) => labelled("io: ", e.as_str()),
            HwError::NoBackend { tried } => {
                let mut t = labelled("no usable hardware backend (tried: ", tried.as_str());
                t.append(")");
                t
            },
            HwError::DriverBind(e) => labelled("driver bind/unbind: ", e.as_str()),
            HwError::VfioGroupUnavailable { bdf, reason } => {
                let mut t = labelled("VFIO group not available for ", bdf.as_str());
                t.append(": ");
                t.append(reason.as_str());
                t
            },
            HwError::Bar1Mmap(e) => labelled("BAR1 mmap failed: ", e.as_str()),
            HwError::DmaAlloc(e) => labelled("DMA allocation failed: ", e.as_str()),
            HwError::ModuleMissing(e) => labelled("kernel module missing: ", *e),
            HwError::Preflight(e) => labelled("preflight: ", e.as_str()),
        }
    }
}

/// Memory that a device can reach: where the device finds it, and how long it is.
#[derive(Debug)]
pub struct DmaBuffer {
    /// The address for the device.
    pub iova: u64,
    /// How many bytes there are.
    pub len: usize,
    /// By which it is given back.
    pub handle: u64,
}

/// Looks for a way to the device at `bdf`. The only one that is known is tried,
/// and why it failed is told.
pub fn auto_detect(bdf: &str) -> (r: Result<VfioBackend, HwError>)
    ensures
        r matches Err(HwError::NoBackend { tried }) && tried@
            == "vfio: no usable hardware backend (tried: vfio: not yet implemented (open '"@ + bdf@
            + "'))"@,
{
    match VfioBackend::open(bdf) {
        Ok(backend) => Ok(backend),
        Err(e) => {
            let mut tried = "vfio: ".to_owned();
            tried.append(e.text().as_str());
            proof {
                reveal_strlit("vfio: ");
                reveal_strlit("no usable hardware backend (tried: ");
                reveal_strlit("vfio: not yet implemented (open '");
                reveal_strlit("')");
                reveal_strlit(")");
                reveal_strlit(
                    "vfio: no usable hardware backend (tried: vfio: not yet implemented (open '",
                );
                reveal_strlit("'))");
            }
            assert(tried@ =~= "vfio: no usable hardware backend (tried: vfio: not yet implemented (open '"@
                + bdf@ + "'))"@);
            Err(HwError::NoBackend { tried })
        },
    }
}

/// The directory of the device at `bdf`.
pub fn pci_sysfs_dir(bdf: &str) -> (r: String)
    ensures
        r@ == "/sys/bus/pci/devices/"@ + bdf@,
{
    labelled("/sys/bus/pci/devices/", bdf)
}

} // verus!
