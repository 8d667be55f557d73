use minemu::hw::{CoreError, Machine, PhysicalMemory};
use minemu::platform::{MemRegion, PhysicalAddress};
use minemu::runtime::{
    BatchAction, BatchEnd, CommandAction, CommandKind, LifecycleState, RuntimeConfig,
    ScheduledUartInput, ServiceState, UartInbox, UartPort, configured_machine,
};

fn input(at_tick: u64, byte: u8) -> ScheduledUartInput {
    ScheduledUartInput {
        at_tick,
        port: UartPort::Uart1,
        bytes: vec![byte],
    }
}

#[test]
fn uart_ports_have_fixed_indexes() {
    assert_eq!(UartPort::Uart0.index(), 0);
    assert_eq!(UartPort::Uart1.index(), 1);
}

#[test]
fn uart_inbox_keeps_the_newest_bytes_per_port() {
    let mut inbox = UartInbox::new(3);
    inbox.push(UartPort::Uart0, b"abcde");
    inbox.push(UartPort::Uart1, b"x");
    assert_eq!(inbox.drain(UartPort::Uart0), b"cde".to_vec());
    assert_eq!(inbox.drain(UartPort::Uart0), Vec::<u8>::new());
    assert_eq!(inbox.drain(UartPort::Uart1), b"x".to_vec());

    let mut closed = UartInbox::new(0);
    closed.push(UartPort::Uart0, b"abc");
    assert!(closed.drain(UartPort::Uart0).is_empty());
}

#[test]
fn scheduled_input_is_ordered_by_tick_and_delivered_when_due() {
    let mut state = ServiceState::new(false, None, vec![input(9, 1), input(3, 2), input(3, 3)]);
    assert_eq!(state.lifecycle, LifecycleState::Running);
    let due = state.take_due_uart(2);
    assert!(due.is_empty());
    let due = state.take_due_uart(5);
    assert_eq!(due, vec![input(3, 2), input(3, 3)]);
    assert_eq!(state.scheduled_uart.len(), 1);
    assert_eq!(state.take_due_uart(9), vec![input(9, 1)]);
}

#[test]
fn commands_follow_the_lifecycle() {
    let mut state = ServiceState::new(true, None, Vec::new());
    assert_eq!(state.lifecycle, LifecycleState::Paused);
    assert_eq!(state.on_command(CommandKind::Pause), CommandAction::Ignore);
    assert_eq!(
        state.on_command(CommandKind::Resume(Some(5))),
        CommandAction::Resume { breakpoint: None }
    );
    assert_eq!(state.lifecycle, LifecycleState::Running);
    assert_eq!(state.remaining_instructions, Some(5));
    assert_eq!(state.on_command(CommandKind::Resume(None)), CommandAction::Ignore);
    assert_eq!(state.on_command(CommandKind::Pause), CommandAction::Pause);
    assert_eq!(state.lifecycle, LifecycleState::Paused);
    assert_eq!(state.remaining_instructions, None);
    assert_eq!(state.on_command(CommandKind::Reset), CommandAction::Reset);
    assert_eq!(state.on_command(CommandKind::Inspect), CommandAction::Inspect);
    assert_eq!(state.on_command(CommandKind::Shutdown), CommandAction::Shutdown);
}

#[test]
fn breakpoints_pause_and_resume_past_them_once() {
    let mut state = ServiceState::new(false, None, Vec::new());
    assert_eq!(
        state.on_batch_end(BatchEnd::Breakpoint { address: 0x40 }, false),
        BatchAction::Breakpoint
    );
    assert_eq!(state.lifecycle, LifecycleState::Paused);
    assert_eq!(state.pending_breakpoint, Some(0x40));
    assert_eq!(
        state.on_command(CommandKind::Resume(None)),
        CommandAction::Resume {
            breakpoint: Some(0x40)
        }
    );
    assert_eq!(state.pending_breakpoint, None);
    state.on_batch_end(BatchEnd::Breakpoint { address: 0x80 }, false);
    state.on_reset_complete();
    assert_eq!(state.pending_breakpoint, None);
    assert_eq!(state.lifecycle, LifecycleState::Paused);
}

#[test]
fn bounded_runs_stop_after_their_limit() {
    let mut state = ServiceState::new(true, None, Vec::new());
    state.on_command(CommandKind::Resume(Some(10)));
    assert_eq!(state.batch_plan(1024, 0), (10, None));
    assert!(!state.account_batch(4));
    assert_eq!(state.remaining_instructions, Some(6));
    assert!(state.account_batch(9));
    assert_eq!(state.remaining_instructions, Some(0));
    assert_eq!(state.on_batch_end(BatchEnd::Boundary, true), BatchAction::LimitReached);
    assert_eq!(state.lifecycle, LifecycleState::Paused);
    assert_eq!(state.remaining_instructions, None);
}

#[test]
fn batches_stop_at_the_next_deadline_or_delivery() {
    let mut state = ServiceState::new(false, Some(100), vec![input(40, 0)]);
    assert_eq!(state.batch_plan(1024, 10), (30, Some(40)));
    assert_eq!(state.batch_plan(8, 10), (8, Some(40)));
    state.take_due_uart(40);
    assert_eq!(state.batch_plan(1024, 40), (60, Some(100)));
    assert!(!state.check_deadline(99));
    assert_eq!(state.lifecycle, LifecycleState::Running);
    assert!(state.check_deadline(100));
    assert_eq!(state.lifecycle, LifecycleState::Paused);
    let unbounded = ServiceState::new(false, None, Vec::new());
    assert_eq!(unbounded.batch_plan(1024, 7), (1024, None));
    assert!(!ServiceState::new(false, None, Vec::new()).account_batch(3));
}

#[test]
fn failures_end_the_service_and_boundaries_continue() {
    let mut state = ServiceState::new(false, None, Vec::new());
    assert_eq!(state.on_batch_end(BatchEnd::Boundary, false), BatchAction::Continue);
    assert_eq!(state.lifecycle, LifecycleState::Running);
    assert_eq!(state.on_batch_end(BatchEnd::EmulatorFailure, false), BatchAction::Fail);
    assert_eq!(state.on_batch_end(BatchEnd::RuntimeFailure, true), BatchAction::Fail);
}

#[test]
fn runtime_configuration_defaults_and_initial_writes() {
    let config = RuntimeConfig::new(Machine::default(), 0x40);
    assert_eq!(config.entry, 0x40);
    assert_eq!(config.end, u32::MAX);
    assert_eq!(config.instruction_batch, 1024);
    assert_eq!(config.command_capacity, 32);
    assert_eq!(config.uart_capacity, 4096);
    assert_eq!(config.status_period.as_millis(), 16);
    assert!(!config.start_paused);
    let ram = MemRegion::Ram.base();
    let config = config.with_initial_ram_write(ram, vec![1, 2]);
    assert_eq!(config.initial_ram_writes, vec![(ram, vec![1, 2])]);
}

#[test]
fn configured_machines_attach_media_and_apply_initial_writes() {
    let source = Machine::new(PhysicalMemory::with_roms(&[9], &[]).unwrap(), 8);
    let ram = MemRegion::Ram.base().get();
    let writes = vec![(PhysicalAddress::new(ram + 4), vec![5, 6])];
    let machine = configured_machine(&source, Some(vec![1; 512]), None, &writes).unwrap();
    assert_eq!(machine.memory.read_u8(MemRegion::BootRom.base()).unwrap(), 9);
    assert_eq!(machine.memory.read_u8(PhysicalAddress::new(ram + 5)).unwrap(), 6);
    assert_eq!(machine.bus.block.media_clone(0).unwrap().unwrap()[0], 1);
    assert_eq!(machine.bus.block.media_clone(1).unwrap(), None);
    assert!(configured_machine(&source, Some(vec![1; 3]), None, &writes).is_err());
    let rom_write = vec![(MemRegion::BootRom.base(), vec![0])];
    assert!(configured_machine(&source, None, None, &rom_write).is_err());
}

#[test]
fn configured_machine_errors_name_the_refused_input() {
    let source = Machine::default();
    let ram = MemRegion::Ram.base().get();
    let none: Vec<(PhysicalAddress, Vec<u8>)> = Vec::new();
    assert!(matches!(
        configured_machine(&source, Some(vec![1; 3]), None, &none),
        Err(CoreError::InvalidBlockMedia { unit: 0 })
    ));
    assert!(matches!(
        configured_machine(&source, Some(vec![1; 512]), Some(Vec::new()), &none),
        Err(CoreError::InvalidBlockMedia { unit: 1 })
    ));
    let writes = vec![
        (PhysicalAddress::new(ram), vec![7]),
        (MemRegion::SystemRom.base(), vec![0]),
        (PhysicalAddress::new(ram + 1), vec![8]),
    ];
    assert!(matches!(
        configured_machine(&source, None, None, &writes),
        Err(CoreError::ImmutablePhysicalAddress(address)) if address == MemRegion::SystemRom.base().get()
    ));
    let later = vec![
        (PhysicalAddress::new(ram), vec![1, 2, 3]),
        (PhysicalAddress::new(ram + 1), vec![9]),
    ];
    let machine = configured_machine(&source, None, Some(vec![4; 1024]), &later).unwrap();
    assert_eq!(machine.memory.read_u8(PhysicalAddress::new(ram)).unwrap(), 1);
    assert_eq!(machine.memory.read_u8(PhysicalAddress::new(ram + 1)).unwrap(), 9);
    assert_eq!(machine.memory.read_u8(PhysicalAddress::new(ram + 2)).unwrap(), 3);
    assert_eq!(machine.bus.block.media_clone(1).unwrap().unwrap().len(), 1024);
    assert_eq!(machine.ticks, 0);
}
