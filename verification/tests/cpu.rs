use minemu::cpu::arm::{
    A32Trap, DecodedCp15, PendingCp15, a32_trap, condition_holds, cp15_is_privileged, cp15_pending,
    decode_cp15, exception_entry,
};
use minemu::cpu::inspect::{
    MEMORY_SEARCH_CHUNK_SIZE, check_inspection_target, execution_window, find_pattern,
    ram_address, search_chunks, search_hit, translation_chunks,
};
use minemu::cpu::InspectionError;
use minemu::cpu::batch::{
    CallbackStopKind, Cp15Completion, Settlement, completed_instructions, cp15_completion,
    irq_masked, is_user_mode, settlement,
};
use minemu::hw::MmuFault;
use minemu::platform::{
    Access, Cp15Operation, ExceptionKind, FaultCause, FaultStatus, MemRegion, PhysicalAddress,
    RAM_SIZE, VirtualAddress,
};

const Z: u32 = 1 << 30;
const N: u32 = 1 << 31;
const V: u32 = 1 << 28;
const C: u32 = 1 << 29;

#[test]
fn condition_codes_follow_the_flags() {
    assert!(condition_holds(0, Z));
    assert!(!condition_holds(0, 0));
    assert!(condition_holds(1, 0));
    assert!(condition_holds(8, C));
    assert!(!condition_holds(8, C | Z));
    assert!(condition_holds(10, N | V));
    assert!(!condition_holds(10, N));
    assert!(condition_holds(12, 0));
    assert!(condition_holds(13, Z));
    assert!(condition_holds(14, 0));
    assert!(!condition_holds(15, N | Z | C | V));
}

#[test]
fn only_exception_modes_reach_cp15() {
    assert!(cp15_is_privileged(0x13));
    assert!(cp15_is_privileged(0x6000_0012));
    assert!(cp15_is_privileged(0x17));
    assert!(cp15_is_privileged(0x1b));
    assert!(!cp15_is_privileged(0x10));
    assert!(!cp15_is_privileged(0x1f));
}

#[test]
fn mcr_to_ttbr0_decodes_its_fields() {
    // mcr p15, 0, r3, c2, c0, 0
    let decoded = decode_cp15(0xee02_3f10).unwrap();
    assert_eq!(
        decoded,
        DecodedCp15 {
            condition: 14,
            read: false,
            rt: 3,
            crn: 2,
            crm: 0,
            opc1: 0,
            opc2: 0,
        }
    );
    // mrc p15, 0, r1, c5, c0, 0
    let read = decode_cp15(0xee15_1f10).unwrap();
    assert!(read.read);
    assert_eq!(read.crn, 5);
    assert_eq!(read.rt, 1);
    // mov r0, #1
    assert_eq!(decode_cp15(0xe3a0_0001), None);
    // mcr p14: another coprocessor
    assert_eq!(decode_cp15(0xee02_3e10), None);
}

#[test]
fn trapped_instructions_are_classified() {
    assert_eq!(a32_trap(0xef00_0000, 0x13), A32Trap::SupervisorCall);
    assert_eq!(a32_trap(0xe3a0_0001, 0x13), A32Trap::Execute);
    // mcreq with Z clear is skipped.
    assert_eq!(a32_trap(0x0e02_3f10, 0x13), A32Trap::Skip);
    assert_eq!(a32_trap(0xee02_3f10, 0x10), A32Trap::Undefined);
    assert!(matches!(a32_trap(0xee02_3f10, 0x13), A32Trap::Cp15(_)));
    // svcne with Z set does not trap.
    assert_eq!(a32_trap(0x1f00_0000, Z | 0x13), A32Trap::Execute);
}

#[test]
fn cp15_accesses_become_pending_work() {
    let ram = MemRegion::Ram.base().get();
    let ttbr = decode_cp15(0xee02_3f10).unwrap();
    assert_eq!(
        cp15_pending(ttbr, 0x100, Some(ram)),
        PendingCp15::Operation(Cp15Operation::SetTtbr0(PhysicalAddress::new(ram)))
    );
    assert_eq!(
        cp15_pending(ttbr, 0x100, Some(ram + 1)),
        PendingCp15::Undefined { pc: 0x100 }
    );
    assert_eq!(
        cp15_pending(ttbr, 0x100, None),
        PendingCp15::Undefined { pc: 0x100 }
    );
    // mcr p15, 0, r0, c1, c0, 0
    let sctlr = decode_cp15(0xee01_0f10).unwrap();
    assert_eq!(
        cp15_pending(sctlr, 0, Some(3)),
        PendingCp15::Operation(Cp15Operation::SetMmuEnabled(true))
    );
    // mcr p15, 0, r0, c8, c7, 0
    let tlbiall = decode_cp15(0xee08_0f17).unwrap();
    assert_eq!(
        cp15_pending(tlbiall, 0, None),
        PendingCp15::Operation(Cp15Operation::InvalidateAll)
    );
    // mcr p15, 0, r0, c12, c0, 0
    let vbar = decode_cp15(0xee0c_0f10).unwrap();
    assert_eq!(
        cp15_pending(vbar, 0, Some(0xc000_8000)),
        PendingCp15::Operation(Cp15Operation::SetVectorBase(VirtualAddress::new(0xc000_8000)))
    );
    assert_eq!(
        cp15_pending(vbar, 4, Some(0xc000_8004)),
        PendingCp15::Undefined { pc: 4 }
    );
    let dfsr = decode_cp15(0xee15_1f10).unwrap();
    assert_eq!(cp15_pending(dfsr, 0, None), PendingCp15::ReadFaultStatus(1));
    // mrc p15, 0, r2, c6, c0, 0
    let dfar = decode_cp15(0xee16_2f10).unwrap();
    assert_eq!(cp15_pending(dfar, 0, None), PendingCp15::ReadFaultAddress(2));
}

#[test]
fn exception_entry_masks_irqs_and_links_past_the_instruction() {
    let entry = exception_entry(ExceptionKind::DataAbort, 0x6000_0010, 0x1000, 0xc000_8000);
    assert_eq!(entry.cpsr, 0x6000_0097);
    assert_eq!(entry.spsr, 0x6000_0010);
    assert_eq!(entry.lr, 0x1008);
    assert_eq!(entry.pc, 0xc000_8010);
    let svc = exception_entry(ExceptionKind::SupervisorCall, 0x10, 0x2000, 0);
    assert_eq!(svc.cpsr, 0x93);
    assert_eq!(svc.lr, 0x2004);
    assert_eq!(svc.pc, 0x08);
    let irq = exception_entry(ExceptionKind::Interrupt, 0x13, 0x10, 0);
    assert_eq!(irq.cpsr, 0x92);
    assert_eq!(irq.pc, 0x18);
}

#[test]
fn translated_reads_split_at_page_boundaries() {
    let plan = translation_chunks(VirtualAddress::new(0xffc), 8);
    assert!(!plan.overflow);
    assert_eq!(plan.chunks, vec![(0xffc, 4), (0x1000, 4)]);
    let whole = translation_chunks(VirtualAddress::new(0x2000), 0x1000);
    assert_eq!(whole.chunks, vec![(0x2000, 0x1000)]);
    let empty = translation_chunks(VirtualAddress::new(0x2000), 0);
    assert!(empty.chunks.is_empty());
    assert!(!empty.overflow);
}

#[test]
fn translated_reads_stop_at_the_end_of_the_address_space() {
    let plan = translation_chunks(VirtualAddress::new(0xffff_fffc), 8);
    assert!(plan.overflow);
    assert_eq!(plan.chunks, vec![(0xffff_fffc, 4)]);
}

#[test]
fn data_inspection_refuses_device_pages() {
    assert_eq!(
        check_inspection_target(MemRegion::Uart0.base(), true),
        Err(InspectionError::VirtualInspectionDevice(MemRegion::Uart0.base().get()))
    );
    assert_eq!(check_inspection_target(MemRegion::Uart0.base(), false), Ok(()));
    assert_eq!(check_inspection_target(MemRegion::Ram.base(), true), Ok(()));
}

#[test]
fn memory_search_plans_overlapping_chunks() {
    assert_eq!(search_chunks(0), Err(InspectionError::EmptySearchPattern));
    assert_eq!(
        search_chunks(MEMORY_SEARCH_CHUNK_SIZE + 1),
        Err(InspectionError::SearchPatternTooLarge {
            length: MEMORY_SEARCH_CHUNK_SIZE + 1,
            maximum: MEMORY_SEARCH_CHUNK_SIZE,
        })
    );
    let chunks = search_chunks(4).unwrap();
    assert_eq!(chunks.len(), RAM_SIZE as usize / MEMORY_SEARCH_CHUNK_SIZE);
    assert_eq!(chunks[0], (0, MEMORY_SEARCH_CHUNK_SIZE + 3));
    assert_eq!(chunks[1].0, MEMORY_SEARCH_CHUNK_SIZE);
    let last = chunks[chunks.len() - 1];
    assert_eq!(last.0 + last.1, RAM_SIZE as usize);
    // A match straddling the first chunk boundary lies inside the first span.
    let position = MEMORY_SEARCH_CHUNK_SIZE - 2;
    assert!(position + 4 <= chunks[0].0 + chunks[0].1);
}

#[test]
fn pattern_search_finds_the_first_match() {
    assert_eq!(find_pattern(&[1, 2, 3, 2, 3], &[2, 3]), Some(1));
    assert_eq!(find_pattern(&[1, 2, 3], &[3, 4]), None);
    assert_eq!(find_pattern(&[1, 2], &[1, 2, 3]), None);
    assert_eq!(find_pattern(&[7], &[7]), Some(0));
}

#[test]
fn execution_window_reaches_back_from_the_pc() {
    assert_eq!(
        execution_window(None, 0x100, 8, 4),
        Ok((VirtualAddress::new(0xf8), 12))
    );
    assert_eq!(
        execution_window(Some(VirtualAddress::new(0x40)), 0x100, 0x80, 4),
        Ok((VirtualAddress::new(0), 0x84))
    );
    assert_eq!(
        execution_window(None, 0x100, usize::MAX, 1),
        Err(InspectionError::InspectionRange)
    );
}

#[test]
fn batch_decisions_settle_in_priority_order() {
    assert_eq!(completed_instructions(5, None, false, None), 5);
    assert_eq!(
        completed_instructions(5, Some(PendingCp15::Undefined { pc: 0 }), false, None),
        4
    );
    assert_eq!(
        completed_instructions(5, Some(PendingCp15::ReadFaultStatus(0)), false, None),
        5
    );
    assert_eq!(completed_instructions(3, None, true, None), 2);
    assert_eq!(completed_instructions(0, None, false, Some(CallbackStopKind::MmioFault)), 0);
    assert_eq!(completed_instructions(2, None, false, Some(CallbackStopKind::MmuFault)), 1);
    assert_eq!(settlement(true, true, true), Settlement::Callback);
    assert_eq!(settlement(false, true, true), Settlement::Exception);
    assert_eq!(settlement(false, false, true), Settlement::Cp15);
    assert_eq!(settlement(false, false, false), Settlement::InterruptOrBudget);
    assert!(is_user_mode(0x10));
    assert!(is_user_mode(0x6000_0010));
    assert!(!is_user_mode(0x13));
    assert!(irq_masked(0xd3));
    assert!(!irq_masked(0x13));
}

#[test]
fn cp15_completions_apply_operations_and_read_fault_registers() {
    assert_eq!(
        cp15_completion(PendingCp15::Operation(Cp15Operation::InvalidateAll), None),
        Cp15Completion::Apply {
            operation: Cp15Operation::InvalidateAll,
            flush_tlb: true
        }
    );
    assert_eq!(
        cp15_completion(PendingCp15::Operation(Cp15Operation::SetMmuEnabled(true)), None),
        Cp15Completion::Apply {
            operation: Cp15Operation::SetMmuEnabled(true),
            flush_tlb: false
        }
    );
    assert_eq!(
        cp15_completion(PendingCp15::ReadFaultStatus(3), None),
        Cp15Completion::WriteRegister { register: 3, value: 0 }
    );
    let status = FaultStatus::new(FaultCause::WriteProtection, true, Access::Write);
    let fault = MmuFault {
        address: VirtualAddress::new(0x1234),
        status,
    };
    assert_eq!(
        cp15_completion(PendingCp15::ReadFaultStatus(3), Some(fault)),
        Cp15Completion::WriteRegister {
            register: 3,
            value: status.raw()
        }
    );
    assert_eq!(
        cp15_completion(PendingCp15::ReadFaultAddress(4), Some(fault)),
        Cp15Completion::WriteRegister {
            register: 4,
            value: 0x1234
        }
    );
    assert_eq!(
        cp15_completion(PendingCp15::Undefined { pc: 8 }, Some(fault)),
        Cp15Completion::Undefined { pc: 8 }
    );
}

#[test]
fn a_search_hit_is_the_first_match_at_its_physical_address() {
    assert_eq!(ram_address(0x10).get(), 0x4000_0010);
    let bytes = [1u8, 2, 3, 2, 3];
    assert_eq!(search_hit(0x100, &bytes, &[2, 3]).unwrap().get(), 0x4000_0101);
    assert_eq!(search_hit(0, &bytes, &[3, 1]), None);
    assert_eq!(search_hit(8, &bytes, &[1]).unwrap().get(), 0x4000_0008);
}
