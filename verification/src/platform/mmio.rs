use vstd::prelude::*;

use super::access::{Access, Permissions, permits_spec};
use super::address::PhysicalAddress;
use super::error::{PlatformError, Result};
use super::mmap::{MemRegion, region_base, region_of};
use super::peripherals::{block, interrupt, rng, systick, trace, uart};

verus! {

/// Width of an attempted MMIO transaction.
#[derive(Clone, Copy, Debug, PartialEq, Eq, Structural)]
pub enum MmioWidth {
    U8,
    U16,
    U32,
    U64,
}

/// Number of bytes moved by an access of each width.
pub open spec fn width_bytes(width: MmioWidth) -> u8 {
    match width {
        MmioWidth::U8 => 1,
        MmioWidth::U16 => 2,
        MmioWidth::U32 => 4,
        MmioWidth::U64 => 8,
    }
}

impl MmioWidth {
    /// Returns the number of bytes moved by this width.
    pub fn bytes(self) -> (r: u8)
        ensures
            r == width_bytes(self),
    {
        match self {
            MmioWidth::U8 => 1,
            MmioWidth::U16 => 2,
            MmioWidth::U32 => 4,
            MmioWidth::U64 => 8,
        }
    }

    /// Returns the width that moves `size` bytes, if one exists.
    pub fn from_size(size: usize) -> (r: Option<Self>)
        ensures
            match r {
                Some(width) => width_bytes(width) == size,
                None => size != 1 && size != 2 && size != 4 && size != 8,
            },
    {
        match size {
            1 => Some(MmioWidth::U8),
            2 => Some(MmioWidth::U16),
            4 => Some(MmioWidth::U32),
            8 => Some(MmioWidth::U64),
            _ => None,
        }
    }
}

/// A backend-neutral MMIO transaction to validate and dispatch.
#[derive(Clone, Copy, Debug, PartialEq, Eq, Structural)]
pub struct MmioTransaction {
    pub address: PhysicalAddress,
    pub width: MmioWidth,
    pub access: Access,
    pub value: u32,
}

impl MmioTransaction {
    /// Creates a read transaction.
    pub fn read(address: PhysicalAddress, width: MmioWidth) -> (r: Self)
        ensures
            r == (MmioTransaction { address, width, access: Access::Read, value: 0 }),
    {
        MmioTransaction { address, width, access: Access::Read, value: 0 }
    }

    /// Creates a write transaction.
    pub fn write(address: PhysicalAddress, width: MmioWidth, value: u32) -> (r: Self)
        ensures
            r == (MmioTransaction { address, width, access: Access::Write, value }),
    {
        MmioTransaction { address, width, access: Access::Write, value }
    }
}

/// A decoded implemented MMIO register.
#[derive(Clone, Copy, Debug, PartialEq, Eq, Structural)]
pub enum MmioRegister {
    Interrupt(interrupt::Register),
    SysTick(systick::Register),
    Dma(block::Register),
    Rng(rng::Register),
    Uart0(uart::Register),
    Uart1(uart::Register),
    Trace(trace::Register),
}

/// The register at `offset` of device page `region`.
pub open spec fn register_decode_spec(region: MemRegion, offset: u32) -> Option<MmioRegister> {
    match region {
        MemRegion::InterruptController => match interrupt::decode_spec(offset) {
            Some(r) => Some(MmioRegister::Interrupt(r)),
            None => None,
        },
        MemRegion::SysTick => match systick::decode_spec(offset) {
            Some(r) => Some(MmioRegister::SysTick(r)),
            None => None,
        },
        MemRegion::Dma => match block::decode_spec(offset) {
            Some(r) => Some(MmioRegister::Dma(r)),
            None => None,
        },
        MemRegion::Rng => match rng::decode_spec(offset) {
            Some(r) => Some(MmioRegister::Rng(r)),
            None => None,
        },
        MemRegion::Uart0 => match uart::decode_spec(offset) {
            Some(r) => Some(MmioRegister::Uart0(r)),
            None => None,
        },
        MemRegion::Uart1 => match uart::decode_spec(offset) {
            Some(r) => Some(MmioRegister::Uart1(r)),
            None => None,
        },
        MemRegion::Trace => match trace::decode_spec(offset) {
            Some(r) => Some(MmioRegister::Trace(r)),
            None => None,
        },
        _ => None,
    }
}

/// Access rights of each decoded register.
pub open spec fn register_permissions_spec(register: MmioRegister) -> u8 {
    match register {
        MmioRegister::Interrupt(r) => interrupt::permissions_spec(r),
        MmioRegister::SysTick(r) => systick::permissions_spec(r),
        MmioRegister::Dma(r) => block::permissions_spec(r),
        MmioRegister::Rng(r) => rng::permissions_spec(r),
        MmioRegister::Uart0(r) | MmioRegister::Uart1(r) => uart::permissions_spec(r),
        MmioRegister::Trace(_) => super::access::PERMISSION_WRITE,
    }
}

/// The error a write of `value` to `register` raises, if any.
pub open spec fn write_error_spec(register: MmioRegister, value: u32) -> Option<PlatformError> {
    match register {
        MmioRegister::Interrupt(r) => if interrupt::write_valid_spec(r, value) {
            None
        } else {
            Some(
                PlatformError::InvalidMmioValue { register: "interrupt controller register", value },
            )
        },
        MmioRegister::SysTick(r) => if systick::write_valid_spec(r, value) {
            None
        } else {
            Some(PlatformError::InvalidMmioValue { register: "SysTick register", value })
        },
        MmioRegister::Dma(r) => if block::write_valid_spec(r, value) {
            None
        } else {
            Some(PlatformError::InvalidMmioValue { register: "block-device register", value })
        },
        MmioRegister::Uart0(r) | MmioRegister::Uart1(r) => if uart::write_valid_spec(r, value) {
            None
        } else {
            Some(PlatformError::InvalidMmioValue { register: "UART register", value })
        },
        _ => None,
    }
}

/// The ABI decoding of an MMIO transaction: the width must be 32 bits, the
/// address four-byte aligned, the access a read or write, the address an
/// implemented register that admits the access direction, and a written
/// value must respect the register's reserved bits.
pub open spec fn decode_mmio_spec(t: MmioTransaction) -> Result<MmioRegister> {
    let address = t.address.0;
    if t.width != MmioWidth::U32 {
        Err(PlatformError::InvalidMmioWidth(width_bytes(t.width)))
    } else if address % 4 != 0 {
        Err(PlatformError::UnalignedMmioAddress(address))
    } else if t.access == Access::Fetch {
        Err(PlatformError::InvalidMmioDirection)
    } else {
        match region_of(address) {
            None => Err(PlatformError::InvalidMmioAddress(address)),
            Some(region) => match register_decode_spec(
                region,
                (address - region_base(region)) as u32,
            ) {
                None => Err(PlatformError::InvalidMmioAddress(address)),
                Some(register) => if !permits_spec(
                    register_permissions_spec(register),
                    t.access,
                    false,
                ) {
                    Err(PlatformError::InvalidMmioDirection)
                } else if t.access == Access::Write && write_error_spec(register, t.value) is Some {
                    Err(write_error_spec(register, t.value)->0)
                } else {
                    Ok(register)
                },
            },
        }
    }
}

impl MmioRegister {
    fn decode(region: MemRegion, offset: u32) -> (r: Option<Self>)
        ensures
            r == register_decode_spec(region, offset),
    {
        match region {
            MemRegion::InterruptController => match interrupt::Register::decode(offset) {
                Some(r) => Some(MmioRegister::Interrupt(r)),
                None => None,
            },
            MemRegion::SysTick => match systick::Register::decode(offset) {
                Some(r) => Some(MmioRegister::SysTick(r)),
                None => None,
            },
            MemRegion::Dma => match block::Register::decode(offset) {
                Some(r) => Some(MmioRegister::Dma(r)),
                None => None,
            },
            MemRegion::Rng => match rng::Register::decode(offset) {
                Some(r) => Some(MmioRegister::Rng(r)),
                None => None,
            },
            MemRegion::Uart0 => match uart::Register::decode(offset) {
                Some(r) => Some(MmioRegister::Uart0(r)),
                None => None,
            },
            MemRegion::Uart1 => match uart::Register::decode(offset) {
                Some(r) => Some(MmioRegister::Uart1(r)),
                None => None,
            },
            MemRegion::Trace => match trace::Register::decode(offset) {
                Some(r) => Some(MmioRegister::Trace(r)),
                None => None,
            },
            _ => None,
        }
    }

    fn permissions(self) -> (r: Permissions)
        ensures
            r.bits == register_permissions_spec(self),
    {
        match self {
            MmioRegister::Interrupt(register) => register.permissions(),
            MmioRegister::SysTick(register) => register.permissions(),
            MmioRegister::Dma(register) => register.permissions(),
            MmioRegister::Rng(register) => register.permissions(),
            MmioRegister::Uart0(register) | MmioRegister::Uart1(register) => register.permissions(),
            MmioRegister::Trace(register) => register.permissions(),
        }
    }

    fn validate_write_value(self, value: u32) -> (r: Result<()>)
        ensures
            match write_error_spec(self, value) {
                None => r == Ok::<(), PlatformError>(()),
                Some(e) => r == Err::<(), PlatformError>(e),
            },
    {
        match self {
            MmioRegister::Interrupt(register) => register.validate_write_value(value),
            MmioRegister::SysTick(register) => register.validate_write_value(value),
            MmioRegister::Dma(register) => register.validate_write_value(value),
            MmioRegister::Rng(register) => register.validate_write_value(value),
            MmioRegister::Uart0(register) | MmioRegister::Uart1(register) => {
                register.validate_write_value(value)
            },
            MmioRegister::Trace(register) => register.validate_write_value(value),
        }
    }
}

/// Validates a transaction and identifies its target peripheral register.
pub fn decode_mmio(transaction: MmioTransaction) -> (r: Result<MmioRegister>)
    ensures
        r == decode_mmio_spec(transaction),
{
    if transaction.width != MmioWidth::U32 {
        return Err(PlatformError::InvalidMmioWidth(transaction.width.bytes()));
    }
    let address = transaction.address.get();
    assert((address & 3 == 0) == (address % 4 == 0)) by (bit_vector);
    if address & 3 != 0 {
        return Err(PlatformError::UnalignedMmioAddress(address));
    }
    if !matches!(transaction.access, Access::Read | Access::Write) {
        return Err(PlatformError::InvalidMmioDirection);
    }
    let region = match MemRegion::containing(transaction.address) {
        Some(region) => region,
        None => return Err(PlatformError::InvalidMmioAddress(address)),
    };
    let offset = address - region.base().get();
    let register = match MmioRegister::decode(region, offset) {
        Some(register) => register,
        None => return Err(PlatformError::InvalidMmioAddress(address)),
    };
    if !register.permissions().permits(transaction.access, false) {
        return Err(PlatformError::InvalidMmioDirection);
    }
    if matches!(transaction.access, Access::Write) {
        match register.validate_write_value(transaction.value) {
            Ok(()) => {},
            Err(e) => return Err(e),
        }
    }
    Ok(register)
}

} // verus!
