//! Decisions of the thread-owned emulator service: lifecycle transitions,
//! batch budgets, scheduled and buffered UART input, and machine setup.

pub mod types;
pub mod service;

pub use service::{
    BatchAction, BatchEnd, CommandAction, CommandKind, ServiceState, UartInbox, configured_machine,
};
pub use types::{
    LifecycleState, RuntimeConfig, RuntimeInspection, RuntimeInspectionRequest, RuntimeStatus,
    ScheduledUartInput, UartPort,
};
