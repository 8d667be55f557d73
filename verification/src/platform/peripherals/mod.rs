//! Register maps of the implemented MMIO peripherals.

pub mod block;
pub mod interrupt;
pub mod rng;
pub mod systick;
pub mod trace;
pub mod uart;

use vstd::prelude::*;

use super::error::{PlatformError, Result};

verus! {

/// Rejects a write of `value` to a register of `register`.
pub(crate) fn invalid_value(register: &'static str, value: u32) -> (r: Result<()>)
    ensures
        r == Err::<(), PlatformError>(PlatformError::InvalidMmioValue { register, value }),
{
    Err(PlatformError::InvalidMmioValue { register, value })
}

} // verus!
