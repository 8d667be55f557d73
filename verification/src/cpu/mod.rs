//! A32 decisions of the CPU adapter: instruction traps, coprocessor 15,
//! exception entry, and inspection planning.

pub mod arm;
pub mod batch;
pub mod inspect;

pub use inspect::{CpuState, ExecutionInspection, InspectionError};
