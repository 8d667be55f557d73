use vstd::prelude::*;

use super::address::VirtualAddress;
use super::mmu::FaultStatus;

verus! {

/// CPU modes used by the supported exception paths.
#[derive(Clone, Copy, Debug, PartialEq, Eq, Structural)]
pub enum CpuMode {
    User,
    Supervisor,
    Interrupt,
    Abort,
    Undefined,
}

/// A platform exception kind.
#[derive(Clone, Copy, Debug, PartialEq, Eq, Structural)]
pub enum ExceptionKind {
    Undefined,
    SupervisorCall,
    PrefetchAbort,
    DataAbort,
    Interrupt,
}

/// Vector offset of each exception from VBAR.
pub open spec fn vector_offset_spec(kind: ExceptionKind) -> u32 {
    match kind {
        ExceptionKind::Undefined => 0x04,
        ExceptionKind::SupervisorCall => 0x08,
        ExceptionKind::PrefetchAbort => 0x0c,
        ExceptionKind::DataAbort => 0x10,
        ExceptionKind::Interrupt => 0x18,
    }
}

/// CPU mode entered by each exception.
pub open spec fn destination_mode_spec(kind: ExceptionKind) -> CpuMode {
    match kind {
        ExceptionKind::Undefined => CpuMode::Undefined,
        ExceptionKind::SupervisorCall => CpuMode::Supervisor,
        ExceptionKind::PrefetchAbort | ExceptionKind::DataAbort => CpuMode::Abort,
        ExceptionKind::Interrupt => CpuMode::Interrupt,
    }
}

/// Fixed C dispatcher ID of each synchronous exception.
pub open spec fn dispatch_id_spec(kind: ExceptionKind) -> Option<i32> {
    match kind {
        ExceptionKind::Undefined => Some(-4i32),
        ExceptionKind::SupervisorCall => Some(-3i32),
        ExceptionKind::PrefetchAbort => Some(-2i32),
        ExceptionKind::DataAbort => Some(-1i32),
        ExceptionKind::Interrupt => None,
    }
}

impl ExceptionKind {
    /// Returns the vector offset from VBAR.
    pub fn vector_offset(self) -> (r: u32)
        ensures
            r == vector_offset_spec(self),
    {
        match self {
            ExceptionKind::Undefined => 0x04,
            ExceptionKind::SupervisorCall => 0x08,
            ExceptionKind::PrefetchAbort => 0x0c,
            ExceptionKind::DataAbort => 0x10,
            ExceptionKind::Interrupt => 0x18,
        }
    }

    /// Returns the CPU mode entered by this exception.
    pub fn destination_mode(self) -> (r: CpuMode)
        ensures
            r == destination_mode_spec(self),
    {
        match self {
            ExceptionKind::Undefined => CpuMode::Undefined,
            ExceptionKind::SupervisorCall => CpuMode::Supervisor,
            ExceptionKind::PrefetchAbort | ExceptionKind::DataAbort => CpuMode::Abort,
            ExceptionKind::Interrupt => CpuMode::Interrupt,
        }
    }

    /// Returns the fixed C dispatcher ID for a synchronous exception.
    pub fn dispatch_id(self) -> (r: Option<i32>)
        ensures
            r == dispatch_id_spec(self),
    {
        match self {
            ExceptionKind::Undefined => Some(-4),
            ExceptionKind::SupervisorCall => Some(-3),
            ExceptionKind::PrefetchAbort => Some(-2),
            ExceptionKind::DataAbort => Some(-1),
            ExceptionKind::Interrupt => None,
        }
    }

    /// Returns virtual-time cost of platform exception entry: one tick for
    /// every exception kind.
    pub fn entry_ticks(self) -> (r: u64)
        ensures
            r == 1,
    {
        1
    }
}

/// Backend-neutral information needed to enter an exception vector.
#[derive(Clone, Copy, Debug, PartialEq, Eq, Structural)]
pub struct ExceptionRequest {
    /// Exception kind to enter.
    pub kind: ExceptionKind,
    /// Address of the instruction or boundary that caused entry.
    pub pc: VirtualAddress,
    /// Fault metadata for prefetch and data aborts.
    pub fault: Option<FaultStatus>,
}

impl ExceptionRequest {
    /// Creates a synchronous exception request without fault metadata.
    pub fn synchronous(kind: ExceptionKind, pc: VirtualAddress) -> (r: Self)
        ensures
            r == (ExceptionRequest { kind, pc, fault: None }),
    {
        ExceptionRequest { kind, pc, fault: None }
    }

    /// Creates an abort request with encoded fault metadata.
    pub fn abort(kind: ExceptionKind, pc: VirtualAddress, fault: FaultStatus) -> (r: Self)
        ensures
            r == (ExceptionRequest { kind, pc, fault: Some(fault) }),
    {
        ExceptionRequest { kind, pc, fault: Some(fault) }
    }
}

} // verus!
