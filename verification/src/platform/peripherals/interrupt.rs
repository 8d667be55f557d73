use vstd::prelude::*;

use super::super::access::{PERMISSION_READ, PERMISSION_WRITE, Permissions};
use super::super::error::{PlatformError, Result};
use super::invalid_value;

verus! {

/// Interrupt-controller registers.
#[derive(Clone, Copy, Debug, PartialEq, Eq, Structural)]
pub enum Register {
    Pending,
    Enable,
    Claim,
    Eoi,
    PrioritySysTick,
    PriorityUart0,
    PriorityUart1,
    PriorityBlock,
}

/// A nonnegative interrupt-controller source ID, numbered in declaration
/// order and passed through the IRQ vector.
#[derive(Clone, Copy, Debug, PartialEq, Eq, Structural)]
pub enum Source {
    SysTick,
    Uart0,
    Uart1,
    Block,
}

/// Source ID of each interrupt source.
pub open spec fn source_id(source: Source) -> u32 {
    match source {
        Source::SysTick => 0,
        Source::Uart0 => 1,
        Source::Uart1 => 2,
        Source::Block => 3,
    }
}

/// Bit of each source in PENDING and ENABLE.
pub open spec fn source_bit(source: Source) -> u32 {
    match source {
        Source::SysTick => 1,
        Source::Uart0 => 2,
        Source::Uart1 => 4,
        Source::Block => 8,
    }
}

impl Source {
    /// Returns the source ID passed to the IRQ handler.
    pub fn id(self) -> (r: u32)
        ensures
            r == source_id(self),
    {
        match self {
            Source::SysTick => 0,
            Source::Uart0 => 1,
            Source::Uart1 => 2,
            Source::Block => 3,
        }
    }

    /// Bit corresponding to this source in PENDING and ENABLE registers.
    pub fn bit(self) -> (r: u32)
        ensures
            r == source_bit(self),
    {
        match self {
            Source::SysTick => 1,
            Source::Uart0 => 2,
            Source::Uart1 => 4,
            Source::Block => 8,
        }
    }
}

/// Reset priority for SysTick, the highest-priority asynchronous source.
pub const DEFAULT_PRIORITY_SYSTICK: u8 = 0;
/// Reset priority for UART0 RX.
pub const DEFAULT_PRIORITY_UART0: u8 = 64;
/// Reset priority for UART1 RX.
pub const DEFAULT_PRIORITY_UART1: u8 = 64;
/// Reset priority for block completion.
pub const DEFAULT_PRIORITY_BLOCK: u8 = 128;

/// Register at each offset of the interrupt-controller page.
pub open spec fn decode_spec(offset: u32) -> Option<Register> {
    if offset == 0x00 {
        Some(Register::Pending)
    } else if offset == 0x04 {
        Some(Register::Enable)
    } else if offset == 0x08 {
        Some(Register::Claim)
    } else if offset == 0x0c {
        Some(Register::Eoi)
    } else if offset == 0x10 {
        Some(Register::PrioritySysTick)
    } else if offset == 0x14 {
        Some(Register::PriorityUart0)
    } else if offset == 0x18 {
        Some(Register::PriorityUart1)
    } else if offset == 0x1c {
        Some(Register::PriorityBlock)
    } else {
        None
    }
}

/// Access rights of each interrupt-controller register.
pub open spec fn permissions_spec(register: Register) -> u8 {
    match register {
        Register::Pending | Register::Claim => PERMISSION_READ,
        Register::Eoi => PERMISSION_WRITE,
        _ => PERMISSION_READ | PERMISSION_WRITE,
    }
}

/// Whether a guest may write `value` to `register`.
pub open spec fn write_valid_spec(register: Register, value: u32) -> bool {
    match register {
        Register::Enable => value & 0xffff_fff0 == 0,
        Register::PrioritySysTick
        | Register::PriorityUart0
        | Register::PriorityUart1
        | Register::PriorityBlock => value & 0xffff_ff00 == 0,
        _ => true,
    }
}

impl Register {
    pub(crate) fn decode(offset: u32) -> (r: Option<Self>)
        ensures
            r == decode_spec(offset),
    {
        match offset {
            0x00 => Some(Register::Pending),
            0x04 => Some(Register::Enable),
            0x08 => Some(Register::Claim),
            0x0c => Some(Register::Eoi),
            0x10 => Some(Register::PrioritySysTick),
            0x14 => Some(Register::PriorityUart0),
            0x18 => Some(Register::PriorityUart1),
            0x1c => Some(Register::PriorityBlock),
            _ => None,
        }
    }

    pub(crate) fn permissions(self) -> (r: Permissions)
        ensures
            r.bits == permissions_spec(self),
    {
        match self {
            Register::Pending | Register::Claim => Permissions::read(),
            Register::Eoi => Permissions::write(),
            _ => Permissions::read().union(Permissions::write()),
        }
    }

    pub(crate) fn validate_write_value(self, value: u32) -> (r: Result<()>)
        ensures
            r == if write_valid_spec(self, value) {
                Ok::<(), PlatformError>(())
            } else {
                Err(
                    PlatformError::InvalidMmioValue {
                        register: "interrupt controller register",
                        value,
                    },
                )
            },
    {
        let valid = match self {
            Register::Enable => value & 0xffff_fff0 == 0,
            Register::PrioritySysTick
            | Register::PriorityUart0
            | Register::PriorityUart1
            | Register::PriorityBlock => value & 0xffff_ff00 == 0,
            _ => true,
        };
        if valid {
            Ok(())
        } else {
            invalid_value("interrupt controller register", value)
        }
    }
}

} // verus!
