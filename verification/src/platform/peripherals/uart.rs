use vstd::prelude::*;

use super::super::access::{PERMISSION_READ, PERMISSION_WRITE, Permissions};
use super::super::error::{PlatformError, Result};
use super::invalid_value;

verus! {

/// UART registers shared by UART0 and UART1.
#[derive(Clone, Copy, Debug, PartialEq, Eq, Structural)]
pub enum Register {
    ReceiveData,
    TransmitData,
    Status,
    Control,
}

/// Register at each offset of a UART page.
pub open spec fn decode_spec(offset: u32) -> Option<Register> {
    if offset == 0x00 {
        Some(Register::ReceiveData)
    } else if offset == 0x04 {
        Some(Register::TransmitData)
    } else if offset == 0x08 {
        Some(Register::Status)
    } else if offset == 0x0c {
        Some(Register::Control)
    } else {
        None
    }
}

/// Access rights of each UART register.
pub open spec fn permissions_spec(register: Register) -> u8 {
    match register {
        Register::ReceiveData | Register::Status => PERMISSION_READ,
        Register::TransmitData => PERMISSION_WRITE,
        Register::Control => PERMISSION_READ | PERMISSION_WRITE,
    }
}

/// Whether a guest may write `value` to `register`.
pub open spec fn write_valid_spec(register: Register, value: u32) -> bool {
    match register {
        Register::TransmitData => value & 0xffff_ff00 == 0,
        Register::Control => value & 0xffff_fffe == 0,
        _ => true,
    }
}

impl Register {
    pub(crate) fn decode(offset: u32) -> (r: Option<Self>)
        ensures
            r == decode_spec(offset),
    {
        match offset {
            0x00 => Some(Register::ReceiveData),
            0x04 => Some(Register::TransmitData),
            0x08 => Some(Register::Status),
            0x0c => Some(Register::Control),
            _ => None,
        }
    }

    pub(crate) fn permissions(self) -> (r: Permissions)
        ensures
            r.bits == permissions_spec(self),
    {
        match self {
            Register::ReceiveData | Register::Status => Permissions::read(),
            Register::TransmitData => Permissions::write(),
            Register::Control => Permissions::read().union(Permissions::write()),
        }
    }

    pub(crate) fn validate_write_value(self, value: u32) -> (r: Result<()>)
        ensures
            r == if write_valid_spec(self, value) {
                Ok::<(), PlatformError>(())
            } else {
                Err(PlatformError::InvalidMmioValue { register: "UART register", value })
            },
    {
        let valid = match self {
            Register::TransmitData => value & 0xffff_ff00 == 0,
            Register::Control => value & 0xffff_fffe == 0,
            _ => true,
        };
        if valid {
            Ok(())
        } else {
            invalid_value("UART register", value)
        }
    }
}

} // verus!
