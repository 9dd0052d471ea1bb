//! The way to a device that the kernel hands over.

use crate::hw::HwError;
use vstd::prelude::*;

verus! {

/// A device that the kernel has handed over.
pub struct VfioBackend {
    bdf: String,
}

impl VfioBackend {
    /// Takes the device at `bdf` over: this cannot be done yet.
    pub fn open(bdf: &str) -> (r: Result<Self, HwError>)
        ensures
            r matches Err(HwError::NoBackend { tried }) && tried@
                == "vfio: not yet implemented (open '"@ + bdf@ + "')"@,
    {
        let mut tried = "vfio: not yet implemented (open '".to_owned();
        tried.append(bdf);
        tried.append("')");
        Err(HwError::NoBackend { tried })
    }
}

} // verus!
