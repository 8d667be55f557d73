use vstd::prelude::*;

use crate::platform::address::VirtualAddress;
use crate::platform::exception::{ExceptionKind, ExceptionRequest, dispatch_id_spec};
use crate::platform::access::Access;
use crate::platform::mmu::{FaultCause, FaultStatus, fault_status_raw, lemma_fault_status_round_trip};

use super::mmu::MmuFault;

verus! {

/// Backend-neutral exception entry plan for the CPU adapter.
#[derive(Clone, Copy, Debug, PartialEq, Eq, Structural)]
pub struct ExceptionPlan {
    pub request: ExceptionRequest,
    pub dispatch_id: Option<i32>,
}

/// The abort a fault enters: a prefetch abort for an instruction fetch,
/// a data abort otherwise.
pub open spec fn abort_kind(status: FaultStatus) -> ExceptionKind {
    if status.0 & 0x400 != 0 {
        ExceptionKind::PrefetchAbort
    } else {
        ExceptionKind::DataAbort
    }
}

/// The plan for a synchronous exception of `kind` raised at `pc`.
pub open spec fn synchronous_plan(kind: ExceptionKind, pc: VirtualAddress) -> ExceptionPlan {
    ExceptionPlan {
        request: ExceptionRequest { kind, pc, fault: None },
        dispatch_id: dispatch_id_spec(kind),
    }
}

/// The plan for the abort that `fault` raises at `pc`.
pub open spec fn fault_plan(fault: MmuFault, pc: VirtualAddress) -> ExceptionPlan {
    ExceptionPlan {
        request: ExceptionRequest { kind: abort_kind(fault.status), pc, fault: Some(fault.status) },
        dispatch_id: dispatch_id_spec(abort_kind(fault.status)),
    }
}

/// A fault raised by an instruction fetch enters a prefetch abort, and one
/// raised by a read or a write enters a data abort, whatever its cause and
/// privilege; the abort enters at `pc`, carries the fault's status and is
/// dispatched through that abort's vector.
pub proof fn lemma_fault_abort_kind(
    address: VirtualAddress,
    cause: FaultCause,
    user_mode: bool,
    access: Access,
    pc: VirtualAddress,
)
    ensures
        ({
            let status = FaultStatus(fault_status_raw(cause, user_mode, access));
            let plan = fault_plan(MmuFault { address, status }, pc);
            let kind = if access == Access::Fetch {
                ExceptionKind::PrefetchAbort
            } else {
                ExceptionKind::DataAbort
            };
            &&& plan.request.kind == kind
            &&& plan.request.pc == pc
            &&& plan.request.fault == Some(status)
            &&& plan.dispatch_id == dispatch_id_spec(kind)
        }),
{
    lemma_fault_status_round_trip(cause, user_mode, access);
}

impl ExceptionPlan {
    pub fn synchronous(kind: ExceptionKind, pc: VirtualAddress) -> (r: Self)
        ensures
            r == synchronous_plan(kind, pc),
    {
        ExceptionPlan {
            request: ExceptionRequest::synchronous(kind, pc),
            dispatch_id: kind.dispatch_id(),
        }
    }

    pub fn fault(fault: MmuFault, pc: VirtualAddress) -> (r: Self)
        ensures
            r == fault_plan(fault, pc),
    {
        let kind = if fault.status.is_fetch() {
            ExceptionKind::PrefetchAbort
        } else {
            ExceptionKind::DataAbort
        };
        ExceptionPlan {
            request: ExceptionRequest::abort(kind, pc, fault.status),
            dispatch_id: kind.dispatch_id(),
        }
    }

    pub fn invalid_mmio(pc: VirtualAddress, status: FaultStatus) -> (r: Self)
        ensures
            r == (ExceptionPlan {
                request: ExceptionRequest {
                    kind: ExceptionKind::DataAbort,
                    pc,
                    fault: Some(status),
                },
                dispatch_id: Some(-1i32),
            }),
    {
        ExceptionPlan {
            request: ExceptionRequest::abort(ExceptionKind::DataAbort, pc, status),
            dispatch_id: ExceptionKind::DataAbort.dispatch_id(),
        }
    }
}

} // verus!
