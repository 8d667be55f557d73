//! Backend-independent machine state: physical memory, the MMU walker,
//! the peripherals and their MMIO bus, and virtual time.

pub mod bounded;
pub mod error;
pub mod memory;
pub mod interrupt;
pub mod rng;
pub mod uart;
pub mod systick;
pub mod trace;
pub mod block;
pub mod mmu;
pub mod bus;
pub mod exception;
pub mod machine;

pub use block::{BlockDevice, BlockUpdate};
pub use bus::MmioBus;
pub use error::{CoreError, Result};
pub use exception::ExceptionPlan;
pub use interrupt::{InterruptController, InterruptSignal, InterruptUpdate};
pub use machine::{InstructionOutcome, Machine, MachineStatus};
pub use memory::{PhysicalMemory, PhysicalMemoryAccess};
pub use mmu::{Mmu, MmuFault};
pub use rng::{Rng, RngUpdate};
pub use systick::{SysTick, SysTickUpdate};
pub use trace::{TraceDevice, TraceEvent, TraceUpdate};
pub use uart::{Uart, UartUpdate};
