use vstd::prelude::*;

use super::super::access::{PERMISSION_READ, PERMISSION_WRITE, Permissions};
use super::super::error::{PlatformError, Result};
use super::invalid_value;

verus! {

/// Block-device registers.
#[derive(Clone, Copy, Debug, PartialEq, Eq, Structural)]
pub enum Register {
    Command,
    Lba,
    SectorCount,
    PhysicalAddress,
    Status,
    Error,
    Ack,
    Control,
    Unit,
}

/// Block STATUS busy bit.
pub const STATUS_BUSY: u32 = 1;
/// Block STATUS complete bit.
pub const STATUS_COMPLETE: u32 = 2;
/// Block STATUS error bit.
pub const STATUS_ERROR: u32 = 4;
/// Number of independently attached media units.
pub const UNIT_COUNT: usize = 2;
/// Unit holding the guest file system.
pub const UNIT_FILESYSTEM: u32 = 0;
/// Unit holding guest swap space.
pub const UNIT_SWAP: u32 = 1;

/// Guest-visible block error values, numbered in declaration order.
#[derive(Clone, Copy, Debug, PartialEq, Eq, Structural)]
pub enum Error {
    NoError,
    NoMedia,
    Busy,
    InvalidCommand,
    InvalidDma,
    InvalidLba,
    DeferredPersistence,
    InvalidUnit,
}

/// Guest-visible number of a block error.
pub open spec fn error_code_spec(error: Error) -> u32 {
    match error {
        Error::NoError => 0,
        Error::NoMedia => 1,
        Error::Busy => 2,
        Error::InvalidCommand => 3,
        Error::InvalidDma => 4,
        Error::InvalidLba => 5,
        Error::DeferredPersistence => 6,
        Error::InvalidUnit => 7,
    }
}

impl Error {
    /// Returns the guest-visible ERROR register value.
    pub fn code(self) -> (r: u32)
        ensures
            r == error_code_spec(self),
    {
        match self {
            Error::NoError => 0,
            Error::NoMedia => 1,
            Error::Busy => 2,
            Error::InvalidCommand => 3,
            Error::InvalidDma => 4,
            Error::InvalidLba => 5,
            Error::DeferredPersistence => 6,
            Error::InvalidUnit => 7,
        }
    }
}

/// Register at each offset of the block-device page.
pub open spec fn decode_spec(offset: u32) -> Option<Register> {
    if offset == 0x00 {
        Some(Register::Command)
    } else if offset == 0x04 {
        Some(Register::Lba)
    } else if offset == 0x08 {
        Some(Register::SectorCount)
    } else if offset == 0x0c {
        Some(Register::PhysicalAddress)
    } else if offset == 0x10 {
        Some(Register::Status)
    } else if offset == 0x14 {
        Some(Register::Error)
    } else if offset == 0x18 {
        Some(Register::Ack)
    } else if offset == 0x1c {
        Some(Register::Control)
    } else if offset == 0x20 {
        Some(Register::Unit)
    } else {
        None
    }
}

/// Access rights of each block-device register.
pub open spec fn permissions_spec(register: Register) -> u8 {
    match register {
        Register::Status | Register::Error => PERMISSION_READ,
        Register::Command | Register::Ack => PERMISSION_WRITE,
        _ => PERMISSION_READ | PERMISSION_WRITE,
    }
}

/// Whether a guest may write `value` to `register`.
pub open spec fn write_valid_spec(register: Register, value: u32) -> bool {
    match register {
        Register::Ack => value == 1,
        Register::Control => value & 0xffff_fffe == 0,
        _ => true,
    }
}

impl Register {
    pub(crate) fn decode(offset: u32) -> (r: Option<Self>)
        ensures
            r == decode_spec(offset),
    {
        match offset {
            0x00 => Some(Register::Command),
            0x04 => Some(Register::Lba),
            0x08 => Some(Register::SectorCount),
            0x0c => Some(Register::PhysicalAddress),
            0x10 => Some(Register::Status),
            0x14 => Some(Register::Error),
            0x18 => Some(Register::Ack),
            0x1c => Some(Register::Control),
            0x20 => Some(Register::Unit),
            _ => None,
        }
    }

    pub(crate) fn permissions(self) -> (r: Permissions)
        ensures
            r.bits == permissions_spec(self),
    {
        match self {
            Register::Status | Register::Error => Permissions::read(),
            Register::Command | Register::Ack => Permissions::write(),
            _ => Permissions::read().union(Permissions::write()),
        }
    }

    pub(crate) fn validate_write_value(self, value: u32) -> (r: Result<()>)
        ensures
            r == if write_valid_spec(self, value) {
                Ok::<(), PlatformError>(())
            } else {
                Err(PlatformError::InvalidMmioValue { register: "block-device register", value })
            },
    {
        if (matches!(self, Register::Ack) && value != 1) || (matches!(self, Register::Control)
            && value & 0xffff_fffe != 0) {
            return invalid_value("block-device register", value);
        }
        Ok(())
    }
}

} // verus!
