use vstd::prelude::*;

use crate::platform::exception::{
    CpuMode, ExceptionKind, destination_mode_spec, vector_offset_spec,
};
use crate::platform::mmu::Cp15Operation;
use crate::platform::mmu::page_table_page_error;
use crate::platform::address::{PhysicalAddress, VirtualAddress};

verus! {

/// The NZCV flags of a CPSR value.
pub open spec fn flag_n(cpsr: u32) -> bool {
    cpsr & 0x8000_0000 != 0
}

pub open spec fn flag_z(cpsr: u32) -> bool {
    cpsr & 0x4000_0000 != 0
}

pub open spec fn flag_c(cpsr: u32) -> bool {
    cpsr & 0x2000_0000 != 0
}

pub open spec fn flag_v(cpsr: u32) -> bool {
    cpsr & 0x1000_0000 != 0
}

/// Whether the A32 condition code holds under the flags of `cpsr`; codes
/// above AL never hold.
pub open spec fn condition_spec(condition: u32, cpsr: u32) -> bool {
    let n = flag_n(cpsr);
    let z = flag_z(cpsr);
    let c = flag_c(cpsr);
    let v = flag_v(cpsr);
    if condition == 0 {
        z
    } else if condition == 1 {
        !z
    } else if condition == 2 {
        c
    } else if condition == 3 {
        !c
    } else if condition == 4 {
        n
    } else if condition == 5 {
        !n
    } else if condition == 6 {
        v
    } else if condition == 7 {
        !v
    } else if condition == 8 {
        c && !z
    } else if condition == 9 {
        !c || z
    } else if condition == 10 {
        n == v
    } else if condition == 11 {
        n != v
    } else if condition == 12 {
        !z && n == v
    } else if condition == 13 {
        z || n != v
    } else {
        condition == 14
    }
}

/// Whether the CPSR bit of value `weight` is set.
pub open spec fn cpsr_bit(cpsr: u32, weight: u32) -> bool {
    (cpsr / weight) % 2 == 1
}

/// The A32 condition codes over the flags N (bit 31), Z (bit 30), C
/// (bit 29) and V (bit 28): EQ (0) holds iff Z, CS (2) iff C, MI (4) iff N,
/// VS (6) iff V, HI (8) iff C and not Z, GE (10) iff N equals V, GT (12)
/// iff not Z and N equals V, and AL (14) always; every odd code below 14
/// holds exactly when the even code before it does not, and codes above
/// AL never hold.
pub proof fn lemma_condition_codes(cpsr: u32)
    ensures
        condition_spec(0, cpsr) == cpsr_bit(cpsr, 0x4000_0000),
        condition_spec(2, cpsr) == cpsr_bit(cpsr, 0x2000_0000),
        condition_spec(4, cpsr) == cpsr_bit(cpsr, 0x8000_0000),
        condition_spec(6, cpsr) == cpsr_bit(cpsr, 0x1000_0000),
        condition_spec(8, cpsr) == (cpsr_bit(cpsr, 0x2000_0000) && !cpsr_bit(cpsr, 0x4000_0000)),
        condition_spec(10, cpsr) == (cpsr_bit(cpsr, 0x8000_0000) == cpsr_bit(cpsr, 0x1000_0000)),
        condition_spec(12, cpsr) == (!cpsr_bit(cpsr, 0x4000_0000) && cpsr_bit(cpsr, 0x8000_0000) == cpsr_bit(
            cpsr,
            0x1000_0000,
        )),
        condition_spec(14, cpsr),
        condition_spec(1, cpsr) == !condition_spec(0, cpsr),
        condition_spec(3, cpsr) == !condition_spec(2, cpsr),
        condition_spec(5, cpsr) == !condition_spec(4, cpsr),
        condition_spec(7, cpsr) == !condition_spec(6, cpsr),
        condition_spec(9, cpsr) == !condition_spec(8, cpsr),
        condition_spec(11, cpsr) == !condition_spec(10, cpsr),
        condition_spec(13, cpsr) == !condition_spec(12, cpsr),
        forall|code: u32| code > 14 ==> !#[trigger] condition_spec(code, cpsr),
{
    assert((cpsr & 0x8000_0000 != 0) == ((cpsr / 0x8000_0000) % 2 == 1)) by (bit_vector);
    assert((cpsr & 0x4000_0000 != 0) == ((cpsr / 0x4000_0000) % 2 == 1)) by (bit_vector);
    assert((cpsr & 0x2000_0000 != 0) == ((cpsr / 0x2000_0000) % 2 == 1)) by (bit_vector);
    assert((cpsr & 0x1000_0000 != 0) == ((cpsr / 0x1000_0000) % 2 == 1)) by (bit_vector);
}

/// Evaluates an A32 condition code against CPSR flags.
pub fn condition_holds(condition: u32, cpsr: u32) -> (r: bool)
    ensures
        r == condition_spec(condition, cpsr),
{
    let negative = cpsr & (1u32 << 31u32) != 0;
    let zero = cpsr & (1u32 << 30u32) != 0;
    let carry = cpsr & (1u32 << 29u32) != 0;
    let overflow = cpsr & (1u32 << 28u32) != 0;
    assert((1u32 << 31u32) == 0x8000_0000u32) by (bit_vector);
    assert((1u32 << 30u32) == 0x4000_0000u32) by (bit_vector);
    assert((1u32 << 29u32) == 0x2000_0000u32) by (bit_vector);
    assert((1u32 << 28u32) == 0x1000_0000u32) by (bit_vector);
    match condition {
        0 => zero,
        1 => !zero,
        2 => carry,
        3 => !carry,
        4 => negative,
        5 => !negative,
        6 => overflow,
        7 => !overflow,
        8 => carry && !zero,
        9 => !carry || zero,
        10 => negative == overflow,
        11 => negative != overflow,
        12 => !zero && negative == overflow,
        13 => zero || negative != overflow,
        14 => true,
        _ => false,
    }
}

/// Whether the CPSR mode may access CP15: SVC, IRQ, ABT or UND.
pub open spec fn privileged_spec(cpsr: u32) -> bool {
    let mode = cpsr & 0x1f;
    mode == 0x13 || mode == 0x12 || mode == 0x17 || mode == 0x1b
}

/// Whether the CPSR mode may access CP15.
pub fn cp15_is_privileged(cpsr: u32) -> (r: bool)
    ensures
        r == privileged_spec(cpsr),
{
    let mode = cpsr & 0x1f;
    mode == 0x13 || mode == 0x12 || mode == 0x17 || mode == 0x1b
}

/// The fields of an MCR or MRC instruction that addresses coprocessor 15.
#[derive(Clone, Copy, Debug, PartialEq, Eq, Structural)]
pub struct DecodedCp15 {
    pub condition: u32,
    /// MRC (coprocessor to register) rather than MCR.
    pub read: bool,
    /// Index of the core register Rt, 0 to 15 (13 SP, 14 LR, 15 PC).
    pub rt: u32,
    pub crn: u32,
    pub crm: u32,
    pub opc1: u32,
    pub opc2: u32,
}

/// Whether an instruction is an MCR or MRC to coprocessor 15.
pub open spec fn is_cp15_transfer(instruction: u32) -> bool {
    instruction & 0x0f00_0010 == 0x0e00_0010 && (instruction >> 8u32) & 0x0f == 15
}

/// The fields of a coprocessor-15 transfer.
pub open spec fn cp15_fields(instruction: u32) -> DecodedCp15 {
    DecodedCp15 {
        condition: instruction >> 28u32,
        read: instruction & 0x0010_0000 != 0,
        rt: (instruction >> 12u32) & 0x0f,
        crn: (instruction >> 16u32) & 0x0f,
        crm: instruction & 0x0f,
        opc1: (instruction >> 21u32) & 0x07,
        opc2: (instruction >> 5u32) & 0x07,
    }
}

/// Decodes an MCR or MRC instruction that addresses coprocessor 15.
pub fn decode_cp15(instruction: u32) -> (r: Option<DecodedCp15>)
    ensures
        is_cp15_transfer(instruction) ==> r == Some(cp15_fields(instruction)),
        !is_cp15_transfer(instruction) ==> r is None,
{
    if instruction & 0x0f00_0010 != 0x0e00_0010 || (instruction >> 8u32) & 0x0f != 15 {
        return None;
    }
    assert(instruction & (1u32 << 20u32) == instruction & 0x0010_0000) by (bit_vector);
    Some(
        DecodedCp15 {
            condition: instruction >> 28u32,
            read: instruction & (1u32 << 20u32) != 0,
            rt: (instruction >> 12u32) & 0x0f,
            crn: (instruction >> 16u32) & 0x0f,
            crm: instruction & 0x0f,
            opc1: (instruction >> 21u32) & 0x07,
            opc2: (instruction >> 5u32) & 0x07,
        },
    )
}

/// The work a trapped coprocessor-15 instruction leaves for the end of
/// the batch.
#[derive(Clone, Copy, Debug, PartialEq, Eq, Structural)]
pub enum PendingCp15 {
    Operation(Cp15Operation),
    /// Write DFSR into core register `rt`.
    ReadFaultStatus(u32),
    /// Write DFAR into core register `rt`.
    ReadFaultAddress(u32),
    Undefined { pc: u32 },
}

/// The pending work of a privileged, condition-passing CP15 access at
/// `pc`, given the value read from Rt (`None` when it could not be read):
/// TTBR0, SCTLR and VBAR writes become MMU operations when their value is
/// valid, TLBIALL invalidates, DFSR and DFAR reads name Rt, and anything
/// else is undefined.
pub open spec fn cp15_pending_spec(cp15: DecodedCp15, pc: u32, value: Option<u32>) -> PendingCp15 {
    if cp15.opc1 != 0 || cp15.opc2 != 0 {
        PendingCp15::Undefined { pc }
    } else if !cp15.read && cp15.crn == 2 && cp15.crm == 0 {
        match value {
            Some(v) => if page_table_page_error(v) is None {
                PendingCp15::Operation(Cp15Operation::SetTtbr0(PhysicalAddress(v)))
            } else {
                PendingCp15::Undefined { pc }
            },
            None => PendingCp15::Undefined { pc },
        }
    } else if !cp15.read && cp15.crn == 1 && cp15.crm == 0 {
        match value {
            Some(v) => PendingCp15::Operation(Cp15Operation::SetMmuEnabled(v % 2 == 1)),
            None => PendingCp15::Undefined { pc },
        }
    } else if !cp15.read && cp15.crn == 8 && cp15.crm == 7 {
        PendingCp15::Operation(Cp15Operation::InvalidateAll)
    } else if !cp15.read && cp15.crn == 12 && cp15.crm == 0 {
        match value {
            Some(v) => if v % 32 == 0 {
                PendingCp15::Operation(Cp15Operation::SetVectorBase(VirtualAddress(v)))
            } else {
                PendingCp15::Undefined { pc }
            },
            None => PendingCp15::Undefined { pc },
        }
    } else if cp15.read && cp15.crn == 5 && cp15.crm == 0 {
        PendingCp15::ReadFaultStatus(cp15.rt)
    } else if cp15.read && cp15.crn == 6 && cp15.crm == 0 {
        PendingCp15::ReadFaultAddress(cp15.rt)
    } else {
        PendingCp15::Undefined { pc }
    }
}

/// Classifies a privileged CP15 access at `pc`; `value` is Rt as read
/// from the CPU, if it could be read.
pub fn cp15_pending(cp15: DecodedCp15, pc: u32, value: Option<u32>) -> (r: PendingCp15)
    ensures
        r == cp15_pending_spec(cp15, pc, value),
{
    if cp15.opc1 != 0 || cp15.opc2 != 0 {
        return PendingCp15::Undefined { pc };
    }
    if !cp15.read && cp15.crn == 2 && cp15.crm == 0 {
        match value {
            Some(v) => match Cp15Operation::set_ttbr0(v) {
                Ok(operation) => PendingCp15::Operation(operation),
                Err(_) => PendingCp15::Undefined { pc },
            },
            None => PendingCp15::Undefined { pc },
        }
    } else if !cp15.read && cp15.crn == 1 && cp15.crm == 0 {
        match value {
            Some(v) => PendingCp15::Operation(Cp15Operation::set_mmu_enabled(v)),
            None => PendingCp15::Undefined { pc },
        }
    } else if !cp15.read && cp15.crn == 8 && cp15.crm == 7 {
        PendingCp15::Operation(Cp15Operation::InvalidateAll)
    } else if !cp15.read && cp15.crn == 12 && cp15.crm == 0 {
        match value {
            Some(v) => match Cp15Operation::set_vector_base(v) {
                Ok(operation) => PendingCp15::Operation(operation),
                Err(_) => PendingCp15::Undefined { pc },
            },
            None => PendingCp15::Undefined { pc },
        }
    } else if cp15.read && cp15.crn == 5 && cp15.crm == 0 {
        PendingCp15::ReadFaultStatus(cp15.rt)
    } else if cp15.read && cp15.crn == 6 && cp15.crm == 0 {
        PendingCp15::ReadFaultAddress(cp15.rt)
    } else {
        PendingCp15::Undefined { pc }
    }
}

/// How the synchronous-trap hook treats one fetched A32 instruction.
#[derive(Clone, Copy, Debug, PartialEq, Eq, Structural)]
pub enum A32Trap {
    /// Execute normally.
    Execute,
    /// A condition-passing SVC: skip it and raise a supervisor call.
    SupervisorCall,
    /// A CP15 transfer whose condition fails: skip it.
    Skip,
    /// A CP15 transfer outside a privileged mode: skip it and raise an
    /// undefined-instruction exception.
    Undefined,
    /// A privileged, condition-passing CP15 transfer: skip it and apply it
    /// at the end of the batch.
    Cp15(DecodedCp15),
}

/// The trap decision for `instruction` under `cpsr`.
pub open spec fn a32_trap_spec(instruction: u32, cpsr: u32) -> A32Trap {
    if instruction & 0x0f00_0000 == 0x0f00_0000 && condition_spec(instruction >> 28u32, cpsr) {
        A32Trap::SupervisorCall
    } else if !is_cp15_transfer(instruction) {
        A32Trap::Execute
    } else if !condition_spec(cp15_fields(instruction).condition, cpsr) {
        A32Trap::Skip
    } else if !privileged_spec(cpsr) {
        A32Trap::Undefined
    } else {
        A32Trap::Cp15(cp15_fields(instruction))
    }
}

/// Decides whether a fetched instruction is a supervisor call or a CP15
/// transfer that the platform handles outside the CPU.
pub fn a32_trap(instruction: u32, cpsr: u32) -> (r: A32Trap)
    ensures
        r == a32_trap_spec(instruction, cpsr),
{
    if instruction & 0x0f00_0000 == 0x0f00_0000 && condition_holds(instruction >> 28u32, cpsr) {
        return A32Trap::SupervisorCall;
    }
    let cp15 = match decode_cp15(instruction) {
        Some(cp15) => cp15,
        None => return A32Trap::Execute,
    };
    if !condition_holds(cp15.condition, cpsr) {
        A32Trap::Skip
    } else if !cp15_is_privileged(cpsr) {
        A32Trap::Undefined
    } else {
        A32Trap::Cp15(cp15)
    }
}

/// The CPU registers written on exception entry.
#[derive(Clone, Copy, Debug, PartialEq, Eq, Structural)]
pub struct ExceptionEntry {
    pub cpsr: u32,
    pub spsr: u32,
    pub lr: u32,
    pub pc: u32,
}

/// The CPSR mode bits of an exception's destination mode.
pub open spec fn mode_bits(kind: ExceptionKind) -> u32 {
    match destination_mode_spec(kind) {
        CpuMode::Supervisor => 0x13,
        CpuMode::Interrupt => 0x12,
        CpuMode::Abort => 0x17,
        CpuMode::Undefined => 0x1b,
        CpuMode::User => 0x10,
    }
}

/// The return-address offset: eight past a data abort, else four.
pub open spec fn link_offset(kind: ExceptionKind) -> u32 {
    if kind == ExceptionKind::DataAbort {
        8
    } else {
        4
    }
}

/// Exception entry: the destination mode with IRQs masked and the Thumb
/// and FIQ bits cleared, the previous CPSR saved in SPSR, LR at the
/// return offset past `pc`, and PC at the vector.
pub open spec fn exception_entry_spec(kind: ExceptionKind, previous_cpsr: u32, pc: u32, vector_base: u32) -> ExceptionEntry {
    ExceptionEntry {
        cpsr: (previous_cpsr & 0xffff_ffc0) | mode_bits(kind) | 0x80,
        spsr: previous_cpsr,
        lr: (pc + link_offset(kind)) as u32,
        pc: (vector_base + vector_offset_spec(kind)) as u32,
    }
}

/// The documented A32 register transition for entering `kind` from `pc`.
pub fn exception_entry(kind: ExceptionKind, previous_cpsr: u32, pc: u32, vector_base: u32) -> (r: ExceptionEntry)
    requires
        pc + link_offset(kind) <= u32::MAX,
        vector_base + vector_offset_spec(kind) <= u32::MAX,
    ensures
        r == exception_entry_spec(kind, previous_cpsr, pc, vector_base),
{
    let mode: u32 = match kind.destination_mode() {
        CpuMode::Supervisor => 0x13,
        CpuMode::Interrupt => 0x12,
        CpuMode::Abort => 0x17,
        CpuMode::Undefined => 0x1b,
        CpuMode::User => 0x10,
    };
    let offset: u32 = match kind {
        ExceptionKind::DataAbort => 8,
        _ => 4,
    };
    assert(!0x3fu32 == 0xffff_ffc0u32) by (bit_vector);
    assert((1u32 << 7u32) == 0x80u32) by (bit_vector);
    ExceptionEntry {
        cpsr: (previous_cpsr & !0x3fu32) | mode | (1u32 << 7u32),
        spsr: previous_cpsr,
        lr: pc + offset,
        pc: vector_base + kind.vector_offset(),
    }
}

} // verus!
