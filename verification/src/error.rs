//! Errors of the library as a whole.

use crate::cli::backup::BackupError;
use crate::cli::recover::RecoverError;
use crate::firmware::synthesize::SynthError;
use crate::mpi::diag;
use crate::mpi::doorbell;
use crate::mpi::messages;
use crate::text::{labelled, NumberFault};
use vstd::prelude::*;

verus! {

/// The top-level error.
#[derive(Debug)]
pub enum Error {
    /// The registers of a controller cannot be used.
    MpiRegister(doorbell::MpiRegisterError),
    /// A controller cannot be controlled.
    MpiDiag(diag::MpiError),
    /// A message failed.
    MpiMessage(messages::MpiError),
    /// A file cannot be read or written.
    Io(String),
    /// Firmware cannot be changed.
    Synth(SynthError),
    /// A backup failed.
    Backup(BackupError),
    /// A recovery failed.
    Recover(RecoverError),
    /// A value cannot be written as JSON.
    SerdeJson(String),
    /// A value cannot be written as TOML.
    TomlSer(String),
    /// Anything that has no error type of its own.
    Other(String),
}

impl Error {
    /// The error in words.
    pub open spec fn spec_text(&self) -> Seq<char> {
        match self {
            Error::MpiRegister(e) => "MPI register error: "@ + e.spec_text(),
            Error::MpiDiag(e) => "MPI DIAG error: "@ + e.spec_text(),
            Error::MpiMessage(e) => "MPI message error: "@ + e.spec_text(),
            Error::Io(e) => "IO error: "@ + e@,
            Error::Synth(e) => "firmware synthesis error: "@ + e.spec_text(),
            Error::Backup(e) => "backup error: "@ + e.spec_text(),
            Error::Recover(e) => "recover error: "@ + e.spec_text(),
            Error::SerdeJson(e) => "serde_json: "@ + e@,
            Error::TomlSer(e) => "toml ser: "@ + e@,
            Error::Other(e) => "Unexpected error: "@ + e@,
        }
    }

    /// The error in words.
    pub fn text(&self) -> (r: String)
        ensures
            r@ == self.spec_text(),
    {
        match self {
            Error::MpiRegister(e) => labelled("MPI register error: ", e.text().as_str()),
            Error::MpiDiag(e) => labelled("MPI DIAG error: ", e.text().as_str()),
            Error::MpiMessage(e) => labelled("MPI message error: ", e.text().as_str()),
            Error::Io(e) => labelled("IO error: ", e.as_str()),
            Error::Synth(e) => labelled("firmware synthesis error: ", e.text().as_str()),
            Error::Backup(e) => labelled("backup error: ", e.text().as_str()),
            Error::Recover(e) => labelled("recover error: ", e.text().as_str()),
            Error::SerdeJson(e) => labelled("serde_json: ", e.as_str()),
            Error::TomlSer(e) => labelled("toml ser: ", e.as_str()),
            Error::Other(e) => labelled("Unexpected error: ", e.as_str()),
        }
    }
}

/// Errors of the bus.
#[derive(Debug)]
pub enum PciError {
    /// A file cannot be read.
    Io(String),
    /// A number is malformed.
    ParseHex(NumberFault),
    /// The registers cannot be mapped.
    Mmap(String),
    /// There is no such device.
    DeviceNotFound { bdf: String },
}

impl PciError {
    /// The error in words.
    pub open spec fn spec_text(&self) -> Seq<char> {
        match self {
            PciError::Io(e) => "IO error: "@ + e@,
            PciError::ParseHex(e) => "Parse hex value error: "@ + e.spec_text(),
            PciError::Mmap(e) => "BAR1 mmap failed: "@ + e@,
            PciError::DeviceNotFound { bdf } => "PCI device "@ + bdf@ + " not found"@,
        }
    }

    /// The error in words.
    pub fn text(&self) -> (r: String)
        ensures
            r@ == self.spec_text(),
    {
        match self {
            PciError::Io(e) => labelled("IO error: ", e.as_str()),
            PciError::ParseHex(e) => labelled("Parse hex value error: ", e.text()),
            PciError::Mmap(e) => labelled("BAR1 mmap failed: ", e.as_str()),
            PciError::DeviceNotFound { bdf } => {
                let mut t = labelled("PCI device ", bdf.as_str());
                t.append(" not found");
                t
            },
        }
    }
}

pub use doorbell::MpiRegisterError;

} // verus!
