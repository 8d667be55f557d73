use vstd::prelude::*;

use std::path::PathBuf;
use std::time::Duration;

use crate::cpu::inspect::ExecutionInspection;
use crate::hw::machine::{Machine, MachineStatus};
use crate::platform::address::{PhysicalAddress, PhysicalRange, VirtualAddress};
use crate::platform::observability::{
    InspectionRequest, MmuInspection, ObservableEvent, PeripheralsInspection,
};

verus! {

/// Declares `std::path::PathBuf` so that configured media paths can be held.
#[verifier::external_type_specification]
#[verifier::external_body]
pub struct ExPathBuf(PathBuf);

/// Lifecycle state published by the emulator service.
#[derive(Clone, Copy, Debug, PartialEq, Eq, Structural)]
pub enum LifecycleState {
    Starting,
    Running,
    Paused,
    Stopping,
    Stopped,
    Failed,
}

/// One independently addressed UART ingress path.
#[derive(Clone, Copy, Debug, PartialEq, Eq, Structural)]
pub enum UartPort {
    Uart0,
    Uart1,
}

impl UartPort {
    /// The port's number: 0 or 1.
    pub open spec fn index_spec(self) -> int {
        match self {
            UartPort::Uart0 => 0,
            UartPort::Uart1 => 1,
        }
    }

    pub fn index(self) -> (r: usize)
        ensures
            r == self.index_spec(),
    {
        match self {
            UartPort::Uart0 => 0,
            UartPort::Uart1 => 1,
        }
    }
}

/// UART bytes delivered by the emulator thread at an exact virtual-time boundary.
#[derive(Clone, Debug, PartialEq, Eq)]
pub struct ScheduledUartInput {
    pub at_tick: u64,
    pub port: UartPort,
    pub bytes: Vec<u8>,
}

/// Lightweight immutable state continuously available to observers.
#[derive(Clone, Debug, PartialEq, Eq)]
pub struct RuntimeStatus {
    pub lifecycle: LifecycleState,
    pub machine: MachineStatus,
    pub last_stop: Option<String>,
    pub last_error: Option<String>,
}

/// Owned response to an on-demand machine inspection request.
#[derive(Clone, Debug, PartialEq, Eq)]
pub enum RuntimeInspection {
    Memory(Vec<u8>),
    Mmu(MmuInspection),
    Peripherals(PeripheralsInspection),
    Events(Vec<ObservableEvent>),
    LiveMemory(PhysicalRange, Vec<u8>),
    VirtualMemory(VirtualAddress, Vec<u8>),
    Translation(VirtualAddress, PhysicalAddress),
    Execution(ExecutionInspection),
    SearchMemory(Option<PhysicalAddress>),
}

/// An inspection request that is always performed on the emulator thread.
#[derive(Clone, Debug, PartialEq, Eq)]
pub enum RuntimeInspectionRequest {
    /// Delegates to the backend-independent machine inspection API.
    Machine(InspectionRequest),
    /// Reads the authoritative physical RAM mapping.
    LiveMemory(PhysicalRange),
    /// Reads virtual data memory through the active MMU without invoking MMIO.
    VirtualMemory { address: VirtualAddress, length: usize },
    /// Translates one virtual address through the active MMU.
    Translate(VirtualAddress),
    /// Captures CPU state and instruction bytes.
    Execution { address: Option<VirtualAddress>, before: usize, after: usize },
    /// Searches the authoritative physical RAM mapping.
    SearchMemory { pattern: Vec<u8> },
}

/// The duration of a whole number of milliseconds.
pub uninterp spec fn duration_of_millis(milliseconds: u64) -> Duration;

/// `std::time::Duration::from_millis`: the claim is only that the duration
/// is a function of the number of milliseconds.
#[verifier::external_body]
fn millis(milliseconds: u64) -> (r: Duration)
    ensures
        r == duration_of_millis(milliseconds),
{
    Duration::from_millis(milliseconds)
}

/// Runtime configuration supplied before the emulator thread starts.
pub struct RuntimeConfig {
    pub machine: Machine,
    pub entry: u32,
    pub end: u32,
    pub instruction_batch: usize,
    pub status_period: Duration,
    pub command_capacity: usize,
    pub uart_capacity: usize,
    pub block_media_path: Option<PathBuf>,
    pub block1_media_path: Option<PathBuf>,
    pub initial_ram_writes: Vec<(PhysicalAddress, Vec<u8>)>,
    pub start_paused: bool,
    pub execution_deadline: Option<u64>,
    pub scheduled_uart: Vec<ScheduledUartInput>,
}

impl RuntimeConfig {
    /// A configuration that runs `machine` from `entry` without an end
    /// address, in batches of 1024 instructions, publishing status every
    /// 16 ms, with 32 queued commands and 4096 buffered bytes per UART.
    pub fn new(machine: Machine, entry: u32) -> (r: Self)
        ensures
            r.machine == machine,
            r.entry == entry,
            r.end == u32::MAX,
            r.instruction_batch == 1024,
            r.status_period == duration_of_millis(16),
            r.command_capacity == 32,
            r.uart_capacity == 4096,
            r.block_media_path is None,
            r.block1_media_path is None,
            r.initial_ram_writes@.len() == 0,
            !r.start_paused,
            r.execution_deadline is None,
            r.scheduled_uart@.len() == 0,
    {
        RuntimeConfig {
            machine,
            entry,
            end: u32::MAX,
            instruction_batch: 1024,
            status_period: millis(16),
            command_capacity: 32,
            uart_capacity: 4096,
            block_media_path: None,
            block1_media_path: None,
            initial_ram_writes: Vec::new(),
            start_paused: false,
            execution_deadline: None,
            scheduled_uart: Vec::new(),
        }
    }

    /// Adds a RAM write applied after every machine reset and before execution.
    pub fn with_initial_ram_write(self, address: PhysicalAddress, bytes: Vec<u8>) -> (r: Self)
        ensures
            r.initial_ram_writes@ == self.initial_ram_writes@.push((address, bytes)),
            r.machine == self.machine,
            r.entry == self.entry,
            r.end == self.end,
            r.instruction_batch == self.instruction_batch,
            r.status_period == self.status_period,
            r.command_capacity == self.command_capacity,
            r.uart_capacity == self.uart_capacity,
            r.block_media_path == self.block_media_path,
            r.block1_media_path == self.block1_media_path,
            r.start_paused == self.start_paused,
            r.execution_deadline == self.execution_deadline,
            r.scheduled_uart == self.scheduled_uart,
    {
        let mut config = self;
        config.initial_ram_writes.push((address, bytes));
        config
    }
}

} // verus!
