use vstd::prelude::*;

use super::super::access::{PERMISSION_WRITE, Permissions};
use super::super::error::{PlatformError, Result};

verus! {

/// Trace peripheral registers.
#[derive(Clone, Copy, Debug, PartialEq, Eq, Structural)]
pub enum Register {
    Event,
}

/// Register at each offset of the trace page.
pub open spec fn decode_spec(offset: u32) -> Option<Register> {
    if offset == 0 {
        Some(Register::Event)
    } else {
        None
    }
}

impl Register {
    pub(crate) fn decode(offset: u32) -> (r: Option<Self>)
        ensures
            r == decode_spec(offset),
    {
        if offset == 0 {
            Some(Register::Event)
        } else {
            None
        }
    }

    /// The trace register is write-only.
    pub(crate) fn permissions(self) -> (r: Permissions)
        ensures
            r.bits == PERMISSION_WRITE,
    {
        Permissions::write()
    }

    /// Every value is a valid trace event.
    pub(crate) fn validate_write_value(self, value: u32) -> (r: Result<()>)
        ensures
            r == Ok::<(), PlatformError>(()),
    {
        Ok(())
    }
}

} // verus!
