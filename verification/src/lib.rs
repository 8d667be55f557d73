//! Deterministic A32 teaching-platform model: the platform ABI, the
//! backend-independent machine state, and the system-ROM image packer.

pub mod cpu;
pub mod hw;
pub mod image;
pub mod platform;
pub mod runtime;
