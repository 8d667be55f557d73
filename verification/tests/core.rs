use minemu::hw::block::SECTOR_SIZE;
use minemu::platform::peripherals::systick::Register as TimerRegister;
use minemu::hw::{
    BlockDevice, BlockUpdate, InstructionOutcome, InterruptController, InterruptSignal, Machine,
    MmioBus, Mmu, MmuFault, PhysicalMemory, Rng, SysTick, TraceDevice, Uart,
};
use minemu::platform::peripherals::block::{
    Error, Register, STATUS_BUSY, STATUS_COMPLETE, STATUS_ERROR,
};
use minemu::platform::peripherals::interrupt::{self, Source};
use minemu::platform::peripherals::uart;
use minemu::platform::{
    Access, ExceptionKind, FaultCause, FaultStatus, InspectionRequest, InspectionResponse,
    MemRegion, MmioTransaction, MmioWidth, ObservableEvent, PTE_EXECUTABLE, PTE_READABLE, PTE_USER,
    PTE_VALID, Peripheral, PhysicalAddress, PhysicalRange, TraceInspectionEvent, VirtualAddress,
};

#[test]
fn write_completes_deterministically_and_marks_media_dirty() {
    let mut block = BlockDevice::default();
    block.attach(1, vec![0; SECTOR_SIZE]).unwrap();
    let mut memory = PhysicalMemory::default();
    let dma = PhysicalAddress::new(MemRegion::Ram.base().get() + 0x200);
    memory.write_u8(dma, 0x5a).unwrap();
    block.set_sector_count(1);
    block.set_dma_address(dma);
    block.set_unit(1);
    block.command(2, 10);
    assert!(!block.advance_to(41, &mut memory));
    block.advance_to(42, &mut memory);
    assert_eq!(block.dirty_sector_count(0).unwrap(), 0);
    assert_eq!(block.dirty_sector_count(1).unwrap(), 1);
    assert_eq!(block.media_clone(1).unwrap().unwrap()[0], 0x5a);
}

#[test]
fn failed_flush_keeps_dirty_sectors_for_retry() {
    let mut block = BlockDevice::default();
    block.attach(0, vec![0; SECTOR_SIZE]).unwrap();
    let mut memory = PhysicalMemory::default();
    let dma = PhysicalAddress::new(MemRegion::Ram.base().get() + 0x200);
    block.set_sector_count(1);
    block.set_dma_address(dma);
    block.command(2, 0);
    block.advance_to(32, &mut memory);
    assert!(
        block
            .flush(0, |_| Err(std::io::Error::other("disk unavailable")))
            .is_err()
    );
    assert_eq!(block.dirty_sector_count(0).unwrap(), 1);
    assert!(block.flush(0, |_| Ok(())).is_ok());
    assert_eq!(block.dirty_sector_count(0).unwrap(), 0);
}

#[test]
fn control_register_reads_back_irq_enable() {
    let mut block = BlockDevice::default();
    block.set_control(1);
    assert_eq!(block.read(Register::Control).unwrap(), 1);
}

#[test]
fn command_snapshots_unit_and_keeps_one_controller_busy() {
    let mut block = BlockDevice::default();
    block.attach(0, vec![0x11; SECTOR_SIZE]).unwrap();
    block.attach(1, vec![0x22; SECTOR_SIZE]).unwrap();
    let mut memory = PhysicalMemory::default();
    let dma = PhysicalAddress::new(MemRegion::Ram.base().get() + 0x200);
    block.set_sector_count(1);
    block.set_dma_address(dma);
    block.command(1, 0);
    block.set_unit(1);
    assert_eq!(block.inspect().active_unit, Some(0));
    block.command(1, 1);
    assert_eq!(block.status() & STATUS_BUSY, STATUS_BUSY);
    assert_eq!(block.error(), Error::Busy);
    block.advance_to(32, &mut memory);
    assert_eq!(memory.read_u8(dma).unwrap(), 0x11);
    assert_eq!(block.unit(), 1);
    assert_eq!(block.inspect().active_unit, None);
}

#[test]
fn invalid_and_unattached_units_fail_at_the_normal_deadline() {
    let mut block = BlockDevice::default();
    let mut memory = PhysicalMemory::default();
    let dma = PhysicalAddress::new(MemRegion::Ram.base().get() + 0x200);
    block.set_sector_count(1);
    block.set_dma_address(dma);
    block.set_unit(2);
    block.command(1, 5);
    assert!(!block.advance_to(36, &mut memory));
    assert_eq!(block.status(), STATUS_BUSY);
    block.advance_to(37, &mut memory);
    assert_eq!(block.error(), Error::InvalidUnit);
    assert_eq!(block.status(), STATUS_COMPLETE | STATUS_ERROR);

    block.ack();
    block.set_unit(1);
    block.command(1, 37);
    block.advance_to(69, &mut memory);
    assert_eq!(block.error(), Error::NoMedia);
}

#[test]
fn media_and_dirty_state_are_independent_per_unit() {
    let mut block = BlockDevice::default();
    block.attach(0, vec![0; SECTOR_SIZE]).unwrap();
    block.attach(1, vec![0; SECTOR_SIZE]).unwrap();
    let mut memory = PhysicalMemory::default();
    let dma = PhysicalAddress::new(MemRegion::Ram.base().get() + 0x200);
    memory.write_u8(dma, 0x5a).unwrap();
    block.set_sector_count(1);
    block.set_dma_address(dma);
    block.set_unit(1);
    block.command(2, 0);
    block.advance_to(32, &mut memory);

    assert_eq!(block.media_clone(0).unwrap().unwrap()[0], 0);
    assert_eq!(block.media_clone(1).unwrap().unwrap()[0], 0x5a);
    assert_eq!(block.dirty_sector_count(0).unwrap(), 0);
    assert_eq!(block.dirty_sector_count(1).unwrap(), 1);
    let inspection = block.inspect();
    assert_eq!(inspection.units[0].dirty_sector_count, 0);
    assert_eq!(inspection.units[1].dirty_sector_count, 1);
}

#[test]
fn typed_bus_delegates_mmio_validation() {
    let mut bus = MmioBus::new();
    assert!(
        bus.access(
            MmioTransaction::read(PhysicalAddress::new(0x1000_4004), MmioWidth::U32),
            0,
        )
        .is_err()
    );
    assert!(
        bus.access(
            MmioTransaction::read(PhysicalAddress::new(0x1000_4000), MmioWidth::U8),
            0,
        )
        .is_err()
    );
}

#[test]
fn claim_is_retained_and_prioritized() {
    let mut controller = InterruptController::new();
    controller
        .write_register(interrupt::Register::Enable, 0x0f)
        .unwrap();
    controller.receive(vec![
        InterruptSignal {
            source: Source::Block,
            pending: true,
        },
        InterruptSignal {
            source: Source::Uart1,
            pending: true,
        },
    ]);
    assert_eq!(controller.claim(), Some(Source::Uart1));
    controller.receive(vec![InterruptSignal {
        source: Source::SysTick,
        pending: true,
    }]);
    assert_eq!(controller.claim(), Some(Source::Uart1));
    controller.eoi(Source::Uart1.id()).unwrap();
    assert_eq!(controller.claim(), Some(Source::SysTick));
}

#[test]
fn eoi_requires_an_active_claim() {
    let mut controller = InterruptController::new();
    assert!(controller.eoi(u32::MAX).is_err());
}

fn translation_fault() -> MmuFault {
    MmuFault {
        address: VirtualAddress::new(4),
        status: FaultStatus::new(FaultCause::Translation, true, Access::Read),
    }
}

#[test]
fn virtual_time_distinguishes_traps_and_faults() {
    let mut machine = Machine::default();
    machine.finish_instruction(InstructionOutcome::Completed);
    machine.finish_instruction(InstructionOutcome::SynchronousException(
        ExceptionKind::SupervisorCall,
        VirtualAddress::new(0),
    ));
    assert_eq!(machine.ticks(), 3);
    machine.finish_instruction(InstructionOutcome::Fault(
        translation_fault(),
        VirtualAddress::new(0x1000),
    ));
    assert_eq!(machine.ticks(), 4);
}

#[test]
fn device_deadlines_include_exception_entry_but_not_faulting_access() {
    let mut machine = Machine::default();
    let systick = MemRegion::SysTick.base().get();
    let now = machine.ticks();
    machine
        .bus
        .access(
            MmioTransaction::write(PhysicalAddress::new(systick), MmioWidth::U32, 3),
            now,
        )
        .unwrap();
    machine
        .bus
        .access(
            MmioTransaction::write(PhysicalAddress::new(systick + 4), MmioWidth::U32, 1),
            now,
        )
        .unwrap();

    machine.finish_instruction(InstructionOutcome::Completed);
    machine.finish_instruction(InstructionOutcome::SynchronousException(
        ExceptionKind::SupervisorCall,
        VirtualAddress::new(0),
    ));
    assert_eq!(machine.ticks(), 3);
    assert_eq!(machine.bus.systick.status(), 1);

    let now = machine.ticks();
    machine
        .bus
        .access(
            MmioTransaction::write(PhysicalAddress::new(systick), MmioWidth::U32, 3),
            now,
        )
        .unwrap();
    machine
        .bus
        .access(
            MmioTransaction::write(PhysicalAddress::new(systick + 4), MmioWidth::U32, 1),
            now,
        )
        .unwrap();
    machine
        .bus
        .access(
            MmioTransaction::write(PhysicalAddress::new(systick + 12), MmioWidth::U32, 1),
            now,
        )
        .unwrap();

    machine.finish_instruction(InstructionOutcome::Fault(
        translation_fault(),
        VirtualAddress::new(0x1000),
    ));
    assert_eq!(machine.ticks(), 4);
    assert_eq!(machine.bus.systick.status(), 0);
    machine.finish_instruction(InstructionOutcome::Completed);
    assert_eq!(machine.bus.systick.status(), 0);
    machine.finish_instruction(InstructionOutcome::Completed);
    assert_eq!(machine.ticks(), 6);
    assert_eq!(machine.bus.systick.status(), 1);
}

#[test]
fn trace_events_receive_the_completed_instruction_tick() {
    let mut machine = Machine::default();
    let now = machine.ticks();
    machine
        .bus
        .access(
            MmioTransaction::write(
                PhysicalAddress::new(MemRegion::Trace.base().get()),
                MmioWidth::U32,
                7,
            ),
            now,
        )
        .unwrap();
    machine.finish_instruction(InstructionOutcome::Completed);
    assert_eq!(machine.status().ticks, 1);
    assert_eq!(
        machine.inspect(InspectionRequest::Events).unwrap(),
        InspectionResponse::Events(vec![ObservableEvent::Trace(TraceInspectionEvent {
            tick: 1,
            value: 7,
        })])
    );
}

#[test]
fn reset_clone_preserves_rom_and_clears_ram() {
    let mut machine = Machine::new(PhysicalMemory::with_roms(&[1], &[2]).unwrap(), 4);
    machine
        .memory
        .write_u8(PhysicalAddress::new(MemRegion::Ram.base().get()), 7)
        .unwrap();
    machine
        .bus
        .block
        .update(BlockUpdate::Attach {
            unit: 0,
            media: vec![3; 512],
        })
        .unwrap();
    machine
        .bus
        .block
        .update(BlockUpdate::Attach {
            unit: 1,
            media: vec![4; 512],
        })
        .unwrap();
    let reset = machine.reset_clone().unwrap();
    assert_eq!(reset.memory.read_u8(MemRegion::BootRom.base()).unwrap(), 1);
    assert_eq!(
        reset.memory.read_u8(MemRegion::SystemRom.base()).unwrap(),
        2
    );
    assert_eq!(
        reset
            .memory
            .read_u8(PhysicalAddress::new(MemRegion::Ram.base().get()))
            .unwrap(),
        0
    );
    assert_eq!(reset.bus.block.media_clone(0).unwrap().unwrap()[0], 3);
    assert_eq!(reset.bus.block.media_clone(1).unwrap().unwrap()[0], 4);
    assert_eq!(reset.bus.block.unit(), 0);
    assert_eq!(reset.bus.block.status(), 0);
}

#[test]
fn rom_is_immutable_and_ram_is_little_endian() {
    let mut memory = PhysicalMemory::with_roms(&[1], &[2]).unwrap();
    assert_eq!(memory.read_u8(MemRegion::BootRom.base()).unwrap(), 1);
    assert!(memory.write_u8(MemRegion::BootRom.base(), 0).is_err());
    let address = PhysicalAddress::new(MemRegion::Ram.base().get() + 4);
    memory.write_u32(address, 0x4433_2211).unwrap();
    assert_eq!(memory.read_u32(address).unwrap(), 0x4433_2211);
}

#[test]
fn inspection_borrows_the_requested_range() {
    let memory = PhysicalMemory::with_roms(&[1, 2], &[]).unwrap();
    let range = PhysicalRange::new(MemRegion::BootRom.base(), 2).unwrap();
    assert_eq!(memory.inspect_range(range).unwrap(), &[1, 2]);
}

#[test]
fn walk_updates_accessed_bit_after_successful_translation() {
    let mut memory = PhysicalMemory::default();
    let ram = MemRegion::Ram.base().get();
    memory
        .write_u32(PhysicalAddress::new(ram), (ram + 0x1000) | PTE_VALID)
        .unwrap();
    memory
        .write_u32(
            PhysicalAddress::new(ram + 0x1000),
            (ram + 0x2000) | PTE_VALID | PTE_READABLE | PTE_EXECUTABLE,
        )
        .unwrap();
    let mut mmu = Mmu::new();
    mmu.set_ttbr0(PhysicalAddress::new(ram));
    mmu.set_enabled(true);
    assert_eq!(
        mmu.translate(&mut memory, VirtualAddress::new(0), Access::Read, false)
            .unwrap(),
        PhysicalAddress::new(ram + 0x2000)
    );
    assert_ne!(
        memory.read_u32(PhysicalAddress::new(ram + 0x1000)).unwrap() & (1 << 5),
        0
    );
}

#[test]
fn user_device_mapping_is_a_protection_fault() {
    let mut memory = PhysicalMemory::default();
    let ram = MemRegion::Ram.base().get();
    memory
        .write_u32(PhysicalAddress::new(ram), (ram + 0x1000) | PTE_VALID)
        .unwrap();
    memory
        .write_u32(
            PhysicalAddress::new(ram + 0x1000),
            MemRegion::Rng.base().get() | PTE_VALID | PTE_READABLE | PTE_USER,
        )
        .unwrap();
    let mut mmu = Mmu::new();
    mmu.set_ttbr0(PhysicalAddress::new(ram));
    mmu.set_enabled(true);
    assert_eq!(
        mmu.translate(&mut memory, VirtualAddress::new(0), Access::Read, true)
            .unwrap_err()
            .status
            .cause(),
        Some(FaultCause::ReadProtection)
    );
}

#[test]
fn zero_seed_uses_the_abi_default() {
    let mut rng = Rng::new();
    rng.set_seed(0);
    assert_eq!(rng.next_u32(), 0x791c_7b62);
}

#[test]
fn periodic_deadlines_keep_their_phase() {
    let mut timer = SysTick::default();
    timer.set_period(3, 10);
    timer.set_control(0b111, 10);
    assert!(!timer.advance_to(12));
    assert!(timer.advance_to(13));
    timer.ack();
    assert!(timer.advance_to(20));
    assert!(timer.irq_pending());
}

#[test]
fn period_write_rephases_an_enabled_timer() {
    let mut timer = SysTick::default();
    timer.set_period(3, 0);
    timer.set_control(0b011, 10);
    timer.set_period(5, 11);
    assert!(!timer.advance_to(15));
    assert!(timer.advance_to(16));
}

#[test]
fn staged_events_commit_at_retirement_and_remain_bounded() {
    let mut trace = TraceDevice::new(1);
    trace.stage(1);
    assert_eq!(trace.events().len(), 0);
    trace.retire(5);
    trace.stage(2);
    trace.retire(7);
    assert_eq!(trace.events()[0].value, 2);
}

#[test]
fn receive_state_drives_level_irq() {
    let mut uart = Uart::new(2, 2, Source::Uart0);
    uart.receive(b'a');
    assert_eq!(uart.status(), 3);
    assert!(!uart.irq_pending());
    uart.set_control(1);
    assert!(uart.irq_pending());
    assert_eq!(uart.read(uart::Register::Control).unwrap(), 1);
    let signals = uart.take_signals();
    assert!(!signals[0].pending);
    assert!(signals[1].pending);
    assert_eq!(uart.read_rx(), b'a');
    assert!(!uart.irq_pending());
}

#[test]
fn ram_storage_lent_to_a_backend_is_the_ram() {
    let mut memory = PhysicalMemory::default();
    let ram = MemRegion::Ram.base().get();
    {
        let storage = memory.ram_mut_ptr();
        assert_eq!(storage.len(), minemu::platform::RAM_SIZE as usize);
        storage[4] = 0xab;
    }
    assert_eq!(memory.read_u8(PhysicalAddress::new(ram + 4)).unwrap(), 0xab);
    memory.write_u8(PhysicalAddress::new(ram + 5), 0xcd).unwrap();
    assert_eq!(memory.ram_mut_ptr()[5], 0xcd);
}

#[test]
fn flushing_both_units_continues_after_a_failure() {
    let mut block = BlockDevice::default();
    block.attach(0, vec![0; SECTOR_SIZE]).unwrap();
    block.attach(1, vec![0; SECTOR_SIZE]).unwrap();
    let mut memory = PhysicalMemory::default();
    let dma = PhysicalAddress::new(MemRegion::Ram.base().get() + 0x200);
    block.set_sector_count(1);
    block.set_dma_address(dma);
    block.set_unit(0);
    block.command(2, 0);
    block.advance_to(32, &mut memory);
    block.set_unit(1);
    block.command(2, 40);
    block.advance_to(72, &mut memory);
    assert_eq!(block.dirty_sector_count(0).unwrap(), 1);
    assert_eq!(block.dirty_sector_count(1).unwrap(), 1);
    let written = std::cell::Cell::new(0);
    let (result, additional) = block.flush_units(
        Some(|_: &[u8]| Err(std::io::Error::other("disk unavailable"))),
        Some(|_: &[u8]| {
            written.set(written.get() + 1);
            Ok(())
        }),
    );
    assert!(matches!(result, Err(minemu::hw::CoreError::BlockFlush { unit: 0, .. })));
    assert!(additional.is_none());
    assert_eq!(written.get(), 1);
    assert_eq!(block.dirty_sector_count(0).unwrap(), 1);
    assert_eq!(block.dirty_sector_count(1).unwrap(), 0);
    let (result, additional) = block.flush_units(
        Some(|_: &[u8]| Err(std::io::Error::other("disk unavailable"))),
        None::<fn(&[u8]) -> std::io::Result<()>>,
    );
    assert!(result.is_err());
    assert!(additional.is_none());
}

#[test]
fn completion_reports_only_a_new_pending_interrupt() {
    let mut block = BlockDevice::default();
    block.attach(0, vec![0; SECTOR_SIZE]).unwrap();
    let mut memory = PhysicalMemory::default();
    block.set_control(1);
    block.set_sector_count(1);
    block.set_dma_address(PhysicalAddress::new(MemRegion::Ram.base().get() + 0x200));
    block.command(1, 0);
    assert!(block.advance_to(32, &mut memory));
    block.set_control(1);
    block.command(1, 40);
    block.command(1, 41);
    assert!(block.irq_pending());
    assert!(!block.advance_to(72, &mut memory));
    assert!(block.irq_pending());
}

#[test]
fn flush_accepts_a_stateful_writer() {
    let mut block = BlockDevice::default();
    block.attach(0, vec![0; SECTOR_SIZE]).unwrap();
    let mut memory = PhysicalMemory::default();
    block.set_sector_count(1);
    block.set_dma_address(PhysicalAddress::new(MemRegion::Ram.base().get() + 0x200));
    block.command(2, 0);
    block.advance_to(32, &mut memory);
    let mut written = Vec::new();
    assert!(block
        .flush(0, |media| {
            written.extend_from_slice(media);
            Ok(())
        })
        .is_ok());
    assert_eq!(written.len(), SECTOR_SIZE);
    assert_eq!(block.dirty_sector_count(0).unwrap(), 0);
}

#[test]
fn deadline_room_is_needed_only_where_a_deadline_is_scheduled() {
    let late = u64::MAX - 2;
    let mut timer = SysTick::default();
    assert!(timer.write_fits(TimerRegister::Period, 10, late));
    timer.set_period(10, late);
    assert!(!timer.write_fits(TimerRegister::Control, 1, late));
    assert!(timer.write_fits(TimerRegister::Control, 0, late));
    assert!(timer.write_fits(TimerRegister::Control, 1, u64::MAX - 10));
    timer.set_control(0b011, u64::MAX - 10);
    assert!(timer.advance_fits(u64::MAX - 11));
    assert!(timer.advance_fits(u64::MAX - 1));
    assert!(!timer.advance_fits(u64::MAX));
    assert!(!timer.write_fits(TimerRegister::Period, 3, late));
    assert!(timer.write_fits(TimerRegister::Ack, 0, u64::MAX));

    let mut timer = SysTick::default();
    timer.set_period(10, 0);
    timer.set_control(0b011, 0);
    assert!(timer.advance_fits(u64::MAX - 15));
    assert!(timer.advance_to(u64::MAX - 15));
    assert!(timer.irq_pending() || timer.status() == 1);

    let mut block = BlockDevice::default();
    assert!(block.write_fits(Register::Lba, u64::MAX));
    assert!(!block.write_fits(Register::Command, u64::MAX - 31));
    assert!(block.write_fits(Register::Command, u64::MAX - 32));
    block.write_register(Register::Lba, 7, u64::MAX);
    block.command(1, u64::MAX - 32);
    assert!(block.write_fits(Register::Command, u64::MAX));

    let mut bus = MmioBus::new();
    let systick = MemRegion::SysTick.base().get();
    let status = MmioTransaction::read(PhysicalAddress::new(systick + 8), MmioWidth::U32);
    assert!(bus.access_fits(status, u64::MAX));
    assert_eq!(bus.access(status, u64::MAX).unwrap(), Some(0));
    let period = MmioTransaction::write(PhysicalAddress::new(systick), MmioWidth::U32, 3);
    assert!(bus.access_fits(period, u64::MAX));
    bus.access(period, u64::MAX).unwrap();
    let enable = MmioTransaction::write(PhysicalAddress::new(systick + 4), MmioWidth::U32, 1);
    assert!(!bus.access_fits(enable, u64::MAX - 2));
    assert!(bus.access_fits(enable, u64::MAX - 3));
    assert!(bus.advance_fits(u64::MAX));
}

#[test]
fn tick_room_counts_the_ticks_and_the_next_periodic_deadline() {
    let machine = Machine::default();
    assert!(machine.has_tick_room(2));
    assert!(machine.has_tick_room(u64::MAX));
    let mut machine = Machine::default();
    machine.finish_instruction(InstructionOutcome::Completed);
    assert!(!machine.has_tick_room(u64::MAX));
    assert!(machine.has_tick_room(u64::MAX - 1));
    let systick = MemRegion::SysTick.base().get();
    machine
        .bus
        .access(MmioTransaction::write(PhysicalAddress::new(systick), MmioWidth::U32, 4), 1)
        .unwrap();
    machine
        .bus
        .access(MmioTransaction::write(PhysicalAddress::new(systick + 4), MmioWidth::U32, 3), 1)
        .unwrap();
    assert!(machine.has_tick_room(u64::MAX - 4));
    assert!(!machine.has_tick_room(u64::MAX - 3));
}
