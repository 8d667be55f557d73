use vstd::prelude::*;

use super::super::access::{PERMISSION_READ, PERMISSION_WRITE, Permissions};
use super::super::error::{PlatformError, Result};
use super::invalid_value;

verus! {

/// SysTick registers.
#[derive(Clone, Copy, Debug, PartialEq, Eq, Structural)]
pub enum Register {
    Period,
    Control,
    Status,
    Ack,
}

/// Register at each offset of the SysTick page.
pub open spec fn decode_spec(offset: u32) -> Option<Register> {
    if offset == 0x00 {
        Some(Register::Period)
    } else if offset == 0x04 {
        Some(Register::Control)
    } else if offset == 0x08 {
        Some(Register::Status)
    } else if offset == 0x0c {
        Some(Register::Ack)
    } else {
        None
    }
}

/// Access rights of each SysTick register.
pub open spec fn permissions_spec(register: Register) -> u8 {
    match register {
        Register::Status => PERMISSION_READ,
        Register::Ack => PERMISSION_WRITE,
        _ => PERMISSION_READ | PERMISSION_WRITE,
    }
}

/// Whether a guest may write `value` to `register`.
pub open spec fn write_valid_spec(register: Register, value: u32) -> bool {
    match register {
        Register::Period => value != 0,
        Register::Control => value & 0xffff_fff8 == 0,
        Register::Ack => value == 1,
        _ => true,
    }
}

impl Register {
    pub(crate) fn decode(offset: u32) -> (r: Option<Self>)
        ensures
            r == decode_spec(offset),
    {
        match offset {
            0x00 => Some(Register::Period),
            0x04 => Some(Register::Control),
            0x08 => Some(Register::Status),
            0x0c => Some(Register::Ack),
            _ => None,
        }
    }

    pub(crate) fn permissions(self) -> (r: Permissions)
        ensures
            r.bits == permissions_spec(self),
    {
        match self {
            Register::Status => Permissions::read(),
            Register::Ack => Permissions::write(),
            _ => Permissions::read().union(Permissions::write()),
        }
    }

    pub(crate) fn validate_write_value(self, value: u32) -> (r: Result<()>)
        ensures
            r == if write_valid_spec(self, value) {
                Ok::<(), PlatformError>(())
            } else {
                Err(PlatformError::InvalidMmioValue { register: "SysTick register", value })
            },
    {
        let valid = match self {
            Register::Period => value != 0,
            Register::Control => value & 0xffff_fff8 == 0,
            Register::Ack => value == 1,
            _ => true,
        };
        if valid {
            Ok(())
        } else {
            invalid_value("SysTick register", value)
        }
    }
}

} // verus!
