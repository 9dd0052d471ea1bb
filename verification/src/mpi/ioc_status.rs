//! The status word of every reply.

use crate::mpi::messages::MpiError;
use vstd::prelude::*;

verus! {

/// What the controller says about a request it has carried out or refused.
#[derive(Debug, Clone, Copy, PartialEq, Eq, Structural)]
pub enum IocStatus {
    Success,
    InvalidFunction,
    Busy,
    InvalidSgl,
    InternalError,
    InvalidVpid,
    InsufficientResources,
    InvalidField,
    InvalidState,
    OpStateNotSupported,
    ConfigInvalidAction,
    ConfigInvalidType,
    ConfigInvalidPage,
    ConfigInvalidData,
    ConfigNoDefaults,
    ConfigCannotCommit,
    ScsiRecoveredError,
    ScsiInvalidDevHandle,
    ScsiDeviceNotThere,
    ScsiDataOverrun,
    ScsiDataUnderrun,
    ScsiIoDataError,
    ScsiProtocolError,
    ScsiTaskTerminated,
    ScsiResidualMismatch,
    ScsiTaskMgmtFailed,
    ScsiIocTerminated,
    ScsiExtTerminated,
    EedpGuardError,
    EedpRefTagError,
    EedpAppTagError,
    TargetInvalidIoIndex,
    TargetAborted,
    TargetNoConnRetryable,
    TargetNoConnection,
    TargetXferCountMismatch,
    TargetDataOffsetError,
    TargetTooMuchWriteData,
    TargetIuTooShort,
    TargetAckNakTimeout,
    TargetNakReceived,
    SasSmpRequestFailed,
    SasSmpDataOverrun,
    DiagnosticReleased,
    RaidAccelError,
}

impl IocStatus {
    /// The number that stands for this status on the wire.
    pub open spec fn code(self) -> u16 {
        match self {
            IocStatus::Success => 0x0000,
            IocStatus::InvalidFunction => 0x0001,
            IocStatus::Busy => 0x0002,
            IocStatus::InvalidSgl => 0x0003,
            IocStatus::InternalError => 0x0004,
            IocStatus::InvalidVpid => 0x0005,
            IocStatus::InsufficientResources => 0x0006,
            IocStatus::InvalidField => 0x0007,
            IocStatus::InvalidState => 0x0008,
            IocStatus::OpStateNotSupported => 0x0009,
            IocStatus::ConfigInvalidAction => 0x0020,
            IocStatus::ConfigInvalidType => 0x0021,
            IocStatus::ConfigInvalidPage => 0x0022,
            IocStatus::ConfigInvalidData => 0x0023,
            IocStatus::ConfigNoDefaults => 0x0024,
            IocStatus::ConfigCannotCommit => 0x0025,
            IocStatus::ScsiRecoveredError => 0x0040,
            IocStatus::ScsiInvalidDevHandle => 0x0042,
            IocStatus::ScsiDeviceNotThere => 0x0043,
            IocStatus::ScsiDataOverrun => 0x0044,
            IocStatus::ScsiDataUnderrun => 0x0045,
            IocStatus::ScsiIoDataError => 0x0046,
            IocStatus::ScsiProtocolError => 0x0047,
            IocStatus::ScsiTaskTerminated => 0x0048,
            IocStatus::ScsiResidualMismatch => 0x0049,
            IocStatus::ScsiTaskMgmtFailed => 0x004A,
            IocStatus::ScsiIocTerminated => 0x004B,
            IocStatus::ScsiExtTerminated => 0x004C,
            IocStatus::EedpGuardError => 0x004D,
            IocStatus::EedpRefTagError => 0x004E,
            IocStatus::EedpAppTagError => 0x004F,
            IocStatus::TargetInvalidIoIndex => 0x0062,
            IocStatus::TargetAborted => 0x0063,
            IocStatus::TargetNoConnRetryable => 0x0064,
            IocStatus::TargetNoConnection => 0x0065,
            IocStatus::TargetXferCountMismatch => 0x006A,
            IocStatus::TargetDataOffsetError => 0x006D,
            IocStatus::TargetTooMuchWriteData => 0x006E,
            IocStatus::TargetIuTooShort => 0x006F,
            IocStatus::TargetAckNakTimeout => 0x0070,
            IocStatus::TargetNakReceived => 0x0071,
            IocStatus::SasSmpRequestFailed => 0x0090,
            IocStatus::SasSmpDataOverrun => 0x0091,
            IocStatus::DiagnosticReleased => 0x00A0,
            IocStatus::RaidAccelError => 0x00B0,
        }
    }

    /// The status that a number on the wire stands for.
    pub open spec fn decode(raw: u16) -> Option<IocStatus> {
        match raw {
            0x0000 => Some(IocStatus::Success),
            0x0001 => Some(IocStatus::InvalidFunction),
            0x0002 => Some(IocStatus::Busy),
            0x0003 => Some(IocStatus::InvalidSgl),
            0x0004 => Some(IocStatus::InternalError),
            0x0005 => Some(IocStatus::InvalidVpid),
            0x0006 => Some(IocStatus::InsufficientResources),
            0x0007 => Some(IocStatus::InvalidField),
            0x0008 => Some(IocStatus::InvalidState),
            0x0009 => Some(IocStatus::OpStateNotSupported),
            0x0020 => Some(IocStatus::ConfigInvalidAction),
            0x0021 => Some(IocStatus::ConfigInvalidType),
            0x0022 => Some(IocStatus::ConfigInvalidPage),
            0x0023 => Some(IocStatus::ConfigInvalidData),
            0x0024 => Some(IocStatus::ConfigNoDefaults),
            0x0025 => Some(IocStatus::ConfigCannotCommit),
            0x0040 => Some(IocStatus::ScsiRecoveredError),
            0x0042 => Some(IocStatus::ScsiInvalidDevHandle),
            0x0043 => Some(IocStatus::ScsiDeviceNotThere),
            0x0044 => Some(IocStatus::ScsiDataOverrun),
            0x0045 => Some(IocStatus::ScsiDataUnderrun),
            0x0046 => Some(IocStatus::ScsiIoDataError),
            0x0047 => Some(IocStatus::ScsiProtocolError),
            0x0048 => Some(IocStatus::ScsiTaskTerminated),
            0x0049 => Some(IocStatus::ScsiResidualMismatch),
            0x004A => Some(IocStatus::ScsiTaskMgmtFailed),
            0x004B => Some(IocStatus::ScsiIocTerminated),
            0x004C => Some(IocStatus::ScsiExtTerminated),
            0x004D => Some(IocStatus::EedpGuardError),
            0x004E => Some(IocStatus::EedpRefTagError),
            0x004F => Some(IocStatus::EedpAppTagError),
            0x0062 => Some(IocStatus::TargetInvalidIoIndex),
            0x0063 => Some(IocStatus::TargetAborted),
            0x0064 => Some(IocStatus::TargetNoConnRetryable),
            0x0065 => Some(IocStatus::TargetNoConnection),
            0x006A => Some(IocStatus::TargetXferCountMismatch),
            0x006D => Some(IocStatus::TargetDataOffsetError),
            0x006E => Some(IocStatus::TargetTooMuchWriteData),
            0x006F => Some(IocStatus::TargetIuTooShort),
            0x0070 => Some(IocStatus::TargetAckNakTimeout),
            0x0071 => Some(IocStatus::TargetNakReceived),
            0x0090 => Some(IocStatus::SasSmpRequestFailed),
            0x0091 => Some(IocStatus::SasSmpDataOverrun),
            0x00A0 => Some(IocStatus::DiagnosticReleased),
            0x00B0 => Some(IocStatus::RaidAccelError),
            _ => None,
        }
    }

    /// The name of this status.
    pub open spec fn spec_name(self) -> Seq<char> {
        match self {
            IocStatus::Success => "Success"@,
            IocStatus::InvalidFunction => "InvalidFunction"@,
            IocStatus::Busy => "Busy"@,
            IocStatus::InvalidSgl => "InvalidSgl"@,
            IocStatus::InternalError => "InternalError"@,
            IocStatus::InvalidVpid => "InvalidVpid"@,
            IocStatus::InsufficientResources => "InsufficientResources"@,
            IocStatus::InvalidField => "InvalidField"@,
            IocStatus::InvalidState => "InvalidState"@,
            IocStatus::OpStateNotSupported => "OpStateNotSupported"@,
            IocStatus::ConfigInvalidAction => "ConfigInvalidAction"@,
            IocStatus::ConfigInvalidType => "ConfigInvalidType"@,
            IocStatus::ConfigInvalidPage => "ConfigInvalidPage"@,
            IocStatus::ConfigInvalidData => "ConfigInvalidData"@,
            IocStatus::ConfigNoDefaults => "ConfigNoDefaults"@,
            IocStatus::ConfigCannotCommit => "ConfigCannotCommit"@,
            IocStatus::ScsiRecoveredError => "ScsiRecoveredError"@,
            IocStatus::ScsiInvalidDevHandle => "ScsiInvalidDevHandle"@,
            IocStatus::ScsiDeviceNotThere => "ScsiDeviceNotThere"@,
            IocStatus::ScsiDataOverrun => "ScsiDataOverrun"@,
            IocStatus::ScsiDataUnderrun => "ScsiDataUnderrun"@,
            IocStatus::ScsiIoDataError => "ScsiIoDataError"@,
            IocStatus::ScsiProtocolError => "ScsiProtocolError"@,
            IocStatus::ScsiTaskTerminated => "ScsiTaskTerminated"@,
            IocStatus::ScsiResidualMismatch => "ScsiResidualMismatch"@,
            IocStatus::ScsiTaskMgmtFailed => "ScsiTaskMgmtFailed"@,
            IocStatus::ScsiIocTerminated => "ScsiIocTerminated"@,
            IocStatus::ScsiExtTerminated => "ScsiExtTerminated"@,
            IocStatus::EedpGuardError => "EedpGuardError"@,
            IocStatus::EedpRefTagError => "EedpRefTagError"@,
            IocStatus::EedpAppTagError => "EedpAppTagError"@,
            IocStatus::TargetInvalidIoIndex => "TargetInvalidIoIndex"@,
            IocStatus::TargetAborted => "TargetAborted"@,
            IocStatus::TargetNoConnRetryable => "TargetNoConnRetryable"@,
            IocStatus::TargetNoConnection => "TargetNoConnection"@,
            IocStatus::TargetXferCountMismatch => "TargetXferCountMismatch"@,
            IocStatus::TargetDataOffsetError => "TargetDataOffsetError"@,
            IocStatus::TargetTooMuchWriteData => "TargetTooMuchWriteData"@,
            IocStatus::TargetIuTooShort => "TargetIuTooShort"@,
            IocStatus::TargetAckNakTimeout => "TargetAckNakTimeout"@,
            IocStatus::TargetNakReceived => "TargetNakReceived"@,
            IocStatus::SasSmpRequestFailed => "SasSmpRequestFailed"@,
            IocStatus::SasSmpDataOverrun => "SasSmpDataOverrun"@,
            IocStatus::DiagnosticReleased => "DiagnosticReleased"@,
            IocStatus::RaidAccelError => "RaidAccelError"@,
        }
    }

    /// This status in words.
    pub open spec fn spec_text(self) -> Seq<char> {
        match self {
            IocStatus::Success => "success"@,
            IocStatus::InvalidFunction => "invalid function"@,
            IocStatus::Busy => "busy"@,
            IocStatus::InvalidSgl => "invalid SGL"@,
            IocStatus::InternalError => "internal error — flash programming fault"@,
            IocStatus::InvalidVpid => "invalid VPID"@,
            IocStatus::InsufficientResources => "insufficient resources"@,
            IocStatus::InvalidField => "invalid field"@,
            IocStatus::InvalidState => "invalid state"@,
            IocStatus::OpStateNotSupported => "operation not supported in current state"@,
            IocStatus::ConfigInvalidAction => "config invalid action"@,
            IocStatus::ConfigInvalidType => "config invalid type"@,
            IocStatus::ConfigInvalidPage => "config invalid page"@,
            IocStatus::ConfigInvalidData => "config invalid data"@,
            IocStatus::ConfigNoDefaults => "config no defaults"@,
            IocStatus::ConfigCannotCommit => "config cannot commit"@,
            IocStatus::ScsiRecoveredError => "SCSI recovered error"@,
            IocStatus::ScsiInvalidDevHandle => "SCSI invalid device handle"@,
            IocStatus::ScsiDeviceNotThere => "SCSI device not there"@,
            IocStatus::ScsiDataOverrun => "SCSI data overrun"@,
            IocStatus::ScsiDataUnderrun => "SCSI data underrun"@,
            IocStatus::ScsiIoDataError => "SCSI I/O data error"@,
            IocStatus::ScsiProtocolError => "SCSI protocol error"@,
            IocStatus::ScsiTaskTerminated => "SCSI task terminated"@,
            IocStatus::ScsiResidualMismatch => "SCSI residual mismatch"@,
            IocStatus::ScsiTaskMgmtFailed => "SCSI task mgmt failed"@,
            IocStatus::ScsiIocTerminated => "SCSI IOC terminated"@,
            IocStatus::ScsiExtTerminated => "SCSI external terminated"@,
            IocStatus::EedpGuardError => "EEDP guard error"@,
            IocStatus::EedpRefTagError => "EEDP ref tag error"@,
            IocStatus::EedpAppTagError => "EEDP app tag error"@,
            IocStatus::TargetInvalidIoIndex => "target invalid IO index"@,
            IocStatus::TargetAborted => "target aborted"@,
            IocStatus::TargetNoConnRetryable => "target no connection retryable"@,
            IocStatus::TargetNoConnection => "target no connection"@,
            IocStatus::TargetXferCountMismatch => "target xfer count mismatch"@,
            IocStatus::TargetDataOffsetError => "target data offset error"@,
            IocStatus::TargetTooMuchWriteData => "target too much write data"@,
            IocStatus::TargetIuTooShort => "target IU too short"@,
            IocStatus::TargetAckNakTimeout => "target ACK/NAK timeout"@,
            IocStatus::TargetNakReceived => "target NAK received"@,
            IocStatus::SasSmpRequestFailed => "SAS SMP request failed"@,
            IocStatus::SasSmpDataOverrun => "SAS SMP data overrun"@,
            IocStatus::DiagnosticReleased => "diagnostic released"@,
            IocStatus::RaidAccelError => "RAID accel error"@,
        }
    }

    /// During a flash operation anything but success ends the operation.
    pub fn is_flash_hard_stop(self) -> (r: bool)
        ensures
            r == (self != IocStatus::Success),
    {
        !matches!(self, IocStatus::Success)
    }

    /// Reads a status word.
    pub fn from_u16(raw: u16) -> (r: Result<Self, MpiError>)
        ensures
            r == match IocStatus::decode(raw) {
                Some(s) => Ok::<IocStatus, MpiError>(s),
                None => Err(MpiError::UnknownIocStatus(raw)),
            },
    {
        match raw {
            0x0000 => Ok(IocStatus::Success),
            0x0001 => Ok(IocStatus::InvalidFunction),
            0x0002 => Ok(IocStatus::Busy),
            0x0003 => Ok(IocStatus::InvalidSgl),
            0x0004 => Ok(IocStatus::InternalError),
            0x0005 => Ok(IocStatus::InvalidVpid),
            0x0006 => Ok(IocStatus::InsufficientResources),
            0x0007 => Ok(IocStatus::InvalidField),
            0x0008 => Ok(IocStatus::InvalidState),
            0x0009 => Ok(IocStatus::OpStateNotSupported),
            0x0020 => Ok(IocStatus::ConfigInvalidAction),
            0x0021 => Ok(IocStatus::ConfigInvalidType),
            0x0022 => Ok(IocStatus::ConfigInvalidPage),
            0x0023 => Ok(IocStatus::ConfigInvalidData),
            0x0024 => Ok(IocStatus::ConfigNoDefaults),
            0x0025 => Ok(IocStatus::ConfigCannotCommit),
            0x0040 => Ok(IocStatus::ScsiRecoveredError),
            0x0042 => Ok(IocStatus::ScsiInvalidDevHandle),
            0x0043 => Ok(IocStatus::ScsiDeviceNotThere),
            0x0044 => Ok(IocStatus::ScsiDataOverrun),
            0x0045 => Ok(IocStatus::ScsiDataUnderrun),
            0x0046 => Ok(IocStatus::ScsiIoDataError),
            0x0047 => Ok(IocStatus::ScsiProtocolError),
            0x0048 => Ok(IocStatus::ScsiTaskTerminated),
            0x0049 => Ok(IocStatus::ScsiResidualMismatch),
            0x004A => Ok(IocStatus::ScsiTaskMgmtFailed),
            0x004B => Ok(IocStatus::ScsiIocTerminated),
            0x004C => Ok(IocStatus::ScsiExtTerminated),
            0x004D => Ok(IocStatus::EedpGuardError),
            0x004E => Ok(IocStatus::EedpRefTagError),
            0x004F => Ok(IocStatus::EedpAppTagError),
            0x0062 => Ok(IocStatus::TargetInvalidIoIndex),
            0x0063 => Ok(IocStatus::TargetAborted),
            0x0064 => Ok(IocStatus::TargetNoConnRetryable),
            0x0065 => Ok(IocStatus::TargetNoConnection),
            0x006A => Ok(IocStatus::TargetXferCountMismatch),
            0x006D => Ok(IocStatus::TargetDataOffsetError),
            0x006E => Ok(IocStatus::TargetTooMuchWriteData),
            0x006F => Ok(IocStatus::TargetIuTooShort),
            0x0070 => Ok(IocStatus::TargetAckNakTimeout),
            0x0071 => Ok(IocStatus::TargetNakReceived),
            0x0090 => Ok(IocStatus::SasSmpRequestFailed),
            0x0091 => Ok(IocStatus::SasSmpDataOverrun),
            0x00A0 => Ok(IocStatus::DiagnosticReleased),
            0x00B0 => Ok(IocStatus::RaidAccelError),
            _ => Err(MpiError::UnknownIocStatus(raw)),
        }
    }

    /// The number that stands for this status on the wire.
    pub fn as_u16(self) -> (r: u16)
        ensures
            r == self.code(),
    {
        match self {
            IocStatus::Success => 0x0000,
            IocStatus::InvalidFunction => 0x0001,
            IocStatus::Busy => 0x0002,
            IocStatus::InvalidSgl => 0x0003,
            IocStatus::InternalError => 0x0004,
            IocStatus::InvalidVpid => 0x0005,
            IocStatus::InsufficientResources => 0x0006,
            IocStatus::InvalidField => 0x0007,
            IocStatus::InvalidState => 0x0008,
            IocStatus::OpStateNotSupported => 0x0009,
            IocStatus::ConfigInvalidAction => 0x0020,
            IocStatus::ConfigInvalidType => 0x0021,
            IocStatus::ConfigInvalidPage => 0x0022,
            IocStatus::ConfigInvalidData => 0x0023,
            IocStatus::ConfigNoDefaults => 0x0024,
            IocStatus::ConfigCannotCommit => 0x0025,
            IocStatus::ScsiRecoveredError => 0x0040,
            IocStatus::ScsiInvalidDevHandle => 0x0042,
            IocStatus::ScsiDeviceNotThere => 0x0043,
            IocStatus::ScsiDataOverrun => 0x0044,
            IocStatus::ScsiDataUnderrun => 0x0045,
            IocStatus::ScsiIoDataError => 0x0046,
            IocStatus::ScsiProtocolError => 0x0047,
            IocStatus::ScsiTaskTerminated => 0x0048,
            IocStatus::ScsiResidualMismatch => 0x0049,
            IocStatus::ScsiTaskMgmtFailed => 0x004A,
            IocStatus::ScsiIocTerminated => 0x004B,
            IocStatus::ScsiExtTerminated => 0x004C,
            IocStatus::EedpGuardError => 0x004D,
            IocStatus::EedpRefTagError => 0x004E,
            IocStatus::EedpAppTagError => 0x004F,
            IocStatus::TargetInvalidIoIndex => 0x0062,
            IocStatus::TargetAborted => 0x0063,
            IocStatus::TargetNoConnRetryable => 0x0064,
            IocStatus::TargetNoConnection => 0x0065,
            IocStatus::TargetXferCountMismatch => 0x006A,
            IocStatus::TargetDataOffsetError => 0x006D,
            IocStatus::TargetTooMuchWriteData => 0x006E,
            IocStatus::TargetIuTooShort => 0x006F,
            IocStatus::TargetAckNakTimeout => 0x0070,
            IocStatus::TargetNakReceived => 0x0071,
            IocStatus::SasSmpRequestFailed => 0x0090,
            IocStatus::SasSmpDataOverrun => 0x0091,
            IocStatus::DiagnosticReleased => 0x00A0,
            IocStatus::RaidAccelError => 0x00B0,
        }
    }

    /// The name of this status.
    pub fn name(self) -> (r: &'static str)
        ensures
            r@ == self.spec_name(),
    {
        match self {
            IocStatus::Success => "Success",
            IocStatus::InvalidFunction => "InvalidFunction",
            IocStatus::Busy => "Busy",
            IocStatus::InvalidSgl => "InvalidSgl",
            IocStatus::InternalError => "InternalError",
            IocStatus::InvalidVpid => "InvalidVpid",
            IocStatus::InsufficientResources => "InsufficientResources",
            IocStatus::InvalidField => "InvalidField",
            IocStatus::InvalidState => "InvalidState",
            IocStatus::OpStateNotSupported => "OpStateNotSupported",
            IocStatus::ConfigInvalidAction => "ConfigInvalidAction",
            IocStatus::ConfigInvalidType => "ConfigInvalidType",
            IocStatus::ConfigInvalidPage => "ConfigInvalidPage",
            IocStatus::ConfigInvalidData => "ConfigInvalidData",
            IocStatus::ConfigNoDefaults => "ConfigNoDefaults",
            IocStatus::ConfigCannotCommit => "ConfigCannotCommit",
            IocStatus::ScsiRecoveredError => "ScsiRecoveredError",
            IocStatus::ScsiInvalidDevHandle => "ScsiInvalidDevHandle",
            IocStatus::ScsiDeviceNotThere => "ScsiDeviceNotThere",
            IocStatus::ScsiDataOverrun => "ScsiDataOverrun",
            IocStatus::ScsiDataUnderrun => "ScsiDataUnderrun",
            IocStatus::ScsiIoDataError => "ScsiIoDataError",
            IocStatus::ScsiProtocolError => "ScsiProtocolError",
            IocStatus::ScsiTaskTerminated => "ScsiTaskTerminated",
            IocStatus::ScsiResidualMismatch => "ScsiResidualMismatch",
            IocStatus::ScsiTaskMgmtFailed => "ScsiTaskMgmtFailed",
            IocStatus::ScsiIocTerminated => "ScsiIocTerminated",
            IocStatus::ScsiExtTerminated => "ScsiExtTerminated",
            IocStatus::EedpGuardError => "EedpGuardError",
            IocStatus::EedpRefTagError => "EedpRefTagError",
            IocStatus::EedpAppTagError => "EedpAppTagError",
            IocStatus::TargetInvalidIoIndex => "TargetInvalidIoIndex",
            IocStatus::TargetAborted => "TargetAborted",
            IocStatus::TargetNoConnRetryable => "TargetNoConnRetryable",
            IocStatus::TargetNoConnection => "TargetNoConnection",
            IocStatus::TargetXferCountMismatch => "TargetXferCountMismatch",
            IocStatus::TargetDataOffsetError => "TargetDataOffsetError",
            IocStatus::TargetTooMuchWriteData => "TargetTooMuchWriteData",
            IocStatus::TargetIuTooShort => "TargetIuTooShort",
            IocStatus::TargetAckNakTimeout => "TargetAckNakTimeout",
            IocStatus::TargetNakReceived => "TargetNakReceived",
            IocStatus::SasSmpRequestFailed => "SasSmpRequestFailed",
            IocStatus::SasSmpDataOverrun => "SasSmpDataOverrun",
            IocStatus::DiagnosticReleased => "DiagnosticReleased",
            IocStatus::RaidAccelError => "RaidAccelError",
        }
    }

    /// This status in words.
    pub fn text(self) -> (r: &'static str)
        ensures
            r@ == self.spec_text(),
    {
        match self {
            IocStatus::Success => "success",
            IocStatus::InvalidFunction => "invalid function",
            IocStatus::Busy => "busy",
            IocStatus::InvalidSgl => "invalid SGL",
            IocStatus::InternalError => "internal error — flash programming fault",
            IocStatus::InvalidVpid => "invalid VPID",
            IocStatus::InsufficientResources => "insufficient resources",
            IocStatus::InvalidField => "invalid field",
            IocStatus::InvalidState => "invalid state",
            IocStatus::OpStateNotSupported => "operation not supported in current state",
            IocStatus::ConfigInvalidAction => "config invalid action",
            IocStatus::ConfigInvalidType => "config invalid type",
            IocStatus::ConfigInvalidPage => "config invalid page",
            IocStatus::ConfigInvalidData => "config invalid data",
            IocStatus::ConfigNoDefaults => "config no defaults",
            IocStatus::ConfigCannotCommit => "config cannot commit",
            IocStatus::ScsiRecoveredError => "SCSI recovered error",
            IocStatus::ScsiInvalidDevHandle => "SCSI invalid device handle",
            IocStatus::ScsiDeviceNotThere => "SCSI device not there",
            IocStatus::ScsiDataOverrun => "SCSI data overrun",
            IocStatus::ScsiDataUnderrun => "SCSI data underrun",
            IocStatus::ScsiIoDataError => "SCSI I/O data error",
            IocStatus::ScsiProtocolError => "SCSI protocol error",
            IocStatus::ScsiTaskTerminated => "SCSI task terminated",
            IocStatus::ScsiResidualMismatch => "SCSI residual mismatch",
            IocStatus::ScsiTaskMgmtFailed => "SCSI task mgmt failed",
            IocStatus::ScsiIocTerminated => "SCSI IOC terminated",
            IocStatus::ScsiExtTerminated => "SCSI external terminated",
            IocStatus::EedpGuardError => "EEDP guard error",
            IocStatus::EedpRefTagError => "EEDP ref tag error",
            IocStatus::EedpAppTagError => "EEDP app tag error",
            IocStatus::TargetInvalidIoIndex => "target invalid IO index",
            IocStatus::TargetAborted => "target aborted",
            IocStatus::TargetNoConnRetryable => "target no connection retryable",
            IocStatus::TargetNoConnection => "target no connection",
            IocStatus::TargetXferCountMismatch => "target xfer count mismatch",
            IocStatus::TargetDataOffsetError => "target data offset error",
            IocStatus::TargetTooMuchWriteData => "target too much write data",
            IocStatus::TargetIuTooShort => "target IU too short",
            IocStatus::TargetAckNakTimeout => "target ACK/NAK timeout",
            IocStatus::TargetNakReceived => "target NAK received",
            IocStatus::SasSmpRequestFailed => "SAS SMP request failed",
            IocStatus::SasSmpDataOverrun => "SAS SMP data overrun",
            IocStatus::DiagnosticReleased => "diagnostic released",
            IocStatus::RaidAccelError => "RAID accel error",
        }
    }
}

/// A status survives the way to the wire and back, and no two numbers stand
/// for the same status.
pub proof fn status_round_trip(s: IocStatus, raw: u16)
    ensures
        IocStatus::decode(s.code()) == Some(s),
        IocStatus::decode(raw) == Some(s) ==> raw == s.code(),
{
}

/// Which numbers stand for a status: only zero means success; the others come in groups, for
/// requests in general, for pages, for disks, for targets, and for a few more.
pub proof fn status_numbers(raw: u16)
    ensures
        IocStatus::decode(raw) == Some(IocStatus::Success) <==> raw == 0,
        IocStatus::decode(raw) is Some <==> {
            ||| raw <= 9
            ||| 0x20 <= raw <= 0x25
            ||| raw == 0x40
            ||| 0x42 <= raw <= 0x4F
            ||| 0x62 <= raw <= 0x65
            ||| raw == 0x6A
            ||| 0x6D <= raw <= 0x71
            ||| raw == 0x90 || raw == 0x91
            ||| raw == 0xA0
            ||| raw == 0xB0
        },
        IocStatus::decode(raw) == Some(IocStatus::Busy) <==> raw == 2,
        IocStatus::decode(raw) == Some(IocStatus::InternalError) <==> raw == 4,
        IocStatus::decode(raw) == Some(IocStatus::InvalidField) <==> raw == 7,
        IocStatus::decode(raw) == Some(IocStatus::InvalidState) <==> raw == 8,
        IocStatus::decode(raw) == Some(IocStatus::ConfigInvalidPage) <==> raw == 0x22,
{
}

} // verus!
