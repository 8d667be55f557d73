use vstd::prelude::*;

use super::super::access::{PERMISSION_READ, PERMISSION_WRITE, Permissions};
use super::super::error::{PlatformError, Result};

verus! {

/// Reset value and zero-seed replacement defined by the RNG ABI.
pub const DEFAULT_SEED: u32 = 0x4d45_4d55;

/// RNG registers.
#[derive(Clone, Copy, Debug, PartialEq, Eq, Structural)]
pub enum Register {
    Seed,
    Data,
    State,
}

/// Register at each offset of the RNG page.
pub open spec fn decode_spec(offset: u32) -> Option<Register> {
    if offset == 0x00 {
        Some(Register::Seed)
    } else if offset == 0x04 {
        Some(Register::Data)
    } else if offset == 0x08 {
        Some(Register::State)
    } else {
        None
    }
}

/// Access rights of each RNG register.
pub open spec fn permissions_spec(register: Register) -> u8 {
    match register {
        Register::Seed => PERMISSION_READ | PERMISSION_WRITE,
        _ => PERMISSION_READ,
    }
}

impl Register {
    pub(crate) fn decode(offset: u32) -> (r: Option<Self>)
        ensures
            r == decode_spec(offset),
    {
        match offset {
            0x00 => Some(Register::Seed),
            0x04 => Some(Register::Data),
            0x08 => Some(Register::State),
            _ => None,
        }
    }

    pub(crate) fn permissions(self) -> (r: Permissions)
        ensures
            r.bits == permissions_spec(self),
    {
        match self {
            Register::Seed => Permissions::read().union(Permissions::write()),
            Register::Data | Register::State => Permissions::read(),
        }
    }

    /// Every value is a valid seed.
    pub(crate) fn validate_write_value(self, value: u32) -> (r: Result<()>)
        ensures
            r == Ok::<(), PlatformError>(()),
    {
        Ok(())
    }
}

} // verus!
