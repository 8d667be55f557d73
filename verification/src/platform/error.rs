use vstd::prelude::*;

verus! {

/// Errors returned while validating a platform ABI value.
#[derive(Clone, Debug, PartialEq, Eq)]
pub enum PlatformError {
    EmptyRange,
    AddressRangeOverflow { start: u32, length: u32 },
    AddressOutsideRam(u32),
    AddressOutsideMmuTarget(u32),
    UnalignedPage(u32),
    UnalignedVectorBase(u32),
    InvalidMmioAddress(u32),
    InvalidMmioWidth(u8),
    UnalignedMmioAddress(u32),
    InvalidMmioDirection,
    InvalidMmioValue { register: &'static str, value: u32 },
    InvalidPageDirectoryBits(u32),
    InvalidPageTableTarget(u32),
    UserDeviceMapping(u32),
    InvalidFaultStatus(u32),
    InvalidImageLength { expected: usize, actual: usize },
    InvalidImageField(&'static str),
    ImageTableOutsideImage,
}

/// Result type used by platform ABI validation.
pub type Result<T> = core::result::Result<T, PlatformError>;

} // verus!
