use vstd::prelude::*;

use crate::hw::mmu::MmuFault;
use crate::platform::mmu::Cp15Operation;

use super::arm::PendingCp15;

verus! {

/// Whether the CPSR mode field selects user mode.
pub open spec fn user_mode_spec(cpsr: u32) -> bool {
    cpsr & 0x1f == 0x10
}

/// Whether `cpsr` selects user mode.
pub fn is_user_mode(cpsr: u32) -> (r: bool)
    ensures
        r == user_mode_spec(cpsr),
{
    cpsr & 0x1f == 0x10
}

/// Whether `cpsr` masks IRQs (the I bit).
pub fn irq_masked(cpsr: u32) -> (r: bool)
    ensures
        r == (cpsr & 0x80 != 0),
{
    assert((1u32 << 7u32) == 0x80u32) by (bit_vector);
    cpsr & (1u32 << 7u32) != 0
}

/// A stop raised by an emulator callback during a batch.
#[derive(Clone, Copy, Debug, PartialEq, Eq, Structural)]
pub enum CallbackStopKind {
    /// A translation fault from the MMU walk.
    MmuFault,
    /// A refused device access.
    MmioFault,
}

/// What a finished batch still has to settle, in the order the backend
/// settles it: a callback stop first, then a pending synchronous exception,
/// then a pending CP15 transfer, and otherwise an interrupt or the budget.
#[derive(Clone, Copy, Debug, PartialEq, Eq, Structural)]
pub enum Settlement {
    Callback,
    Exception,
    Cp15,
    InterruptOrBudget,
}

/// Whether the last instruction of a batch faulted rather than completed:
/// an undefined CP15 transfer, a pending synchronous exception, or a fault
/// raised by a callback.
pub open spec fn faulting_spec(cp15: Option<PendingCp15>, exception_pending: bool, callback: Option<CallbackStopKind>) -> bool {
    ||| cp15 matches Some(PendingCp15::Undefined { .. })
    ||| exception_pending
    ||| callback is Some
}

/// The instructions of a batch that completed: every one executed but a
/// faulting last one.
pub fn completed_instructions(
    executed: u64,
    cp15: Option<PendingCp15>,
    exception_pending: bool,
    callback: Option<CallbackStopKind>,
) -> (r: u64)
    ensures
        r == if faulting_spec(cp15, exception_pending, callback) && executed > 0 {
            executed - 1
        } else if faulting_spec(cp15, exception_pending, callback) {
            0
        } else {
            executed as int
        },
{
    let faulting = match cp15 {
        Some(PendingCp15::Undefined { .. }) => true,
        _ => false,
    } || exception_pending || callback.is_some();
    if faulting {
        executed.saturating_sub(1)
    } else {
        executed
    }
}

/// Which stop settles a batch.
pub fn settlement(callback: bool, exception_pending: bool, cp15_pending: bool) -> (r: Settlement)
    ensures
        callback ==> r == Settlement::Callback,
        !callback && exception_pending ==> r == Settlement::Exception,
        !callback && !exception_pending && cp15_pending ==> r == Settlement::Cp15,
        !callback && !exception_pending && !cp15_pending ==> r == Settlement::InterruptOrBudget,
{
    if callback {
        Settlement::Callback
    } else if exception_pending {
        Settlement::Exception
    } else if cp15_pending {
        Settlement::Cp15
    } else {
        Settlement::InterruptOrBudget
    }
}

/// How a pending CP15 transfer is completed at the batch boundary.
#[derive(Clone, Copy, Debug, PartialEq, Eq, Structural)]
pub enum Cp15Completion {
    /// Apply the operation to the MMU, and flush the CPU's cached
    /// translations when asked to.
    Apply { operation: Cp15Operation, flush_tlb: bool },
    /// Write `value` to general register `register`.
    WriteRegister { register: u32, value: u32 },
    /// Raise an undefined-instruction exception for the transfer at `pc`.
    Undefined { pc: u32 },
}

/// The completion of `pending` given the MMU's last recorded fault: a TLB
/// invalidation also flushes the CPU's translations, and a read of the
/// fault status or address gives zero when no fault was recorded.
pub open spec fn cp15_completion_spec(pending: PendingCp15, last_fault: Option<MmuFault>) -> Cp15Completion {
    match pending {
        PendingCp15::Operation(operation) => Cp15Completion::Apply {
            operation,
            flush_tlb: operation == Cp15Operation::InvalidateAll,
        },
        PendingCp15::ReadFaultStatus(register) => Cp15Completion::WriteRegister {
            register,
            value: match last_fault {
                Some(fault) => fault.status.0,
                None => 0,
            },
        },
        PendingCp15::ReadFaultAddress(register) => Cp15Completion::WriteRegister {
            register,
            value: match last_fault {
                Some(fault) => fault.address.0,
                None => 0,
            },
        },
        PendingCp15::Undefined { pc } => Cp15Completion::Undefined { pc },
    }
}

/// Decides how a pending CP15 transfer completes.
pub fn cp15_completion(pending: PendingCp15, last_fault: Option<MmuFault>) -> (r: Cp15Completion)
    ensures
        r == cp15_completion_spec(pending, last_fault),
{
    match pending {
        PendingCp15::Operation(operation) => {
            let flush_tlb = match operation {
                Cp15Operation::InvalidateAll => true,
                _ => false,
            };
            Cp15Completion::Apply { operation, flush_tlb }
        },
        PendingCp15::ReadFaultStatus(register) => {
            let value = match last_fault {
                Some(fault) => fault.status.raw(),
                None => 0,
            };
            Cp15Completion::WriteRegister { register, value }
        },
        PendingCp15::ReadFaultAddress(register) => {
            let value = match last_fault {
                Some(fault) => fault.address.get(),
                None => 0,
            };
            Cp15Completion::WriteRegister { register, value }
        },
        PendingCp15::Undefined { pc } => Cp15Completion::Undefined { pc },
    }
}

} // verus!
