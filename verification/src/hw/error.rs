use vstd::prelude::*;

use crate::platform::PlatformError;

verus! {

#[verifier::external_type_specification]
#[verifier::external_body]
pub struct ExIoError(std::io::Error);

/// Errors produced by the backend-independent machine state.
#[derive(Debug)]
pub enum CoreError {
    Platform(PlatformError),
    UnmappedPhysicalAddress(u32),
    ImmutablePhysicalAddress(u32),
    PhysicalAccessOutOfBounds { address: u32, needed: usize },
    InvalidEoi { expected: u32, actual: u32 },
    InvalidBlockUnit(u32),
    InvalidBlockMedia { unit: u32 },
    BlockBusy,
    BlockFlush { unit: u32, source: std::io::Error },
}

/// Result type used by the machine state.
pub type Result<T> = core::result::Result<T, CoreError>;

} // verus!
