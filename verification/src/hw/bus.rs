use vstd::prelude::*;

use crate::platform::access::Access;
use crate::platform::mmio::{MmioRegister, MmioTransaction, decode_mmio, decode_mmio_spec};
use crate::platform::observability::PeripheralsInspection;
use crate::platform::peripherals::{block as block_regs, interrupt, rng as rng_regs};

use super::block::{BlockDevice, BlockView, block_inspected, block_write_fits, block_command_spec, block_read_spec, block_signaled, block_write_spec};
use super::error::{CoreError, Result};
use super::interrupt::{InterruptController, InterruptSignal, InterruptView, interrupts_inspected, processed, read_spec, write_spec};
use super::memory::PhysicalMemory;
use super::rng::{Rng, seed_state, xorshift};
use super::systick::{SysTick, SysTickView, systick_inspected, systick_advance_fits, systick_write_fits, advance_spec, systick_read_spec, systick_signaled, systick_write_spec};
use super::trace::{TraceDevice, TraceEvent, TraceView, after_retire, committed, trace_inspected};
use super::uart::{Uart, UartView, uart_inspected, uart_after_receive, uart_read_spec, uart_write_spec};
use super::block;

verus! {

/// Abstract state of every peripheral on the bus.
pub struct BusView {
    pub interrupts: InterruptView,
    pub systick: SysTickView,
    pub block: BlockView,
    pub rng: u32,
    pub uart0: UartView,
    pub uart1: UartView,
    pub trace: TraceView,
}

/// Whether inspection `r` reports every device of the bus state `b`.
pub open spec fn peripherals_inspected(r: PeripheralsInspection, b: BusView) -> bool {
    &&& interrupts_inspected(r.interrupts, b.interrupts)
    &&& systick_inspected(r.systick, b.systick)
    &&& block_inspected(r.block, b.block)
    &&& r.rng.state == b.rng
    &&& uart_inspected(r.uart0, b.uart0)
    &&& uart_inspected(r.uart1, b.uart1)
    &&& trace_inspected(r.trace@, b.trace)
}

/// The bus after every raised level transition reaches the interrupt
/// controller and is applied.
pub open spec fn settle(b: BusView) -> BusView {
    BusView {
        interrupts: processed(
            InterruptView {
                inbox: b.interrupts.inbox + b.systick.outbox + b.block.outbox + b.uart0.outbox
                    + b.uart1.outbox,
                ..b.interrupts
            },
        ),
        systick: SysTickView { outbox: Seq::empty(), ..b.systick },
        block: BlockView { outbox: Seq::empty(), ..b.block },
        uart0: UartView { outbox: Seq::empty(), ..b.uart0 },
        uart1: UartView { outbox: Seq::empty(), ..b.uart1 },
        ..b
    }
}

/// The device-level effect of a decoded read of `register`, and its value.
pub open spec fn bus_read_spec(b: BusView, register: MmioRegister) -> (BusView, u32) {
    match register {
        MmioRegister::Interrupt(r) => (BusView { interrupts: read_spec(b.interrupts, r).0, ..b }, read_spec(b.interrupts, r).1),
        MmioRegister::SysTick(r) => (b, systick_read_spec(b.systick, r)),
        MmioRegister::Dma(r) => (b, block_read_spec(b.block, r)),
        MmioRegister::Rng(r) => if r == rng_regs::Register::Data {
            (BusView { rng: xorshift(b.rng), ..b }, xorshift(b.rng))
        } else {
            (b, b.rng)
        },
        MmioRegister::Uart0(r) => (BusView { uart0: uart_read_spec(b.uart0, r).0, ..b }, uart_read_spec(b.uart0, r).1),
        MmioRegister::Uart1(r) => (BusView { uart1: uart_read_spec(b.uart1, r).0, ..b }, uart_read_spec(b.uart1, r).1),
        MmioRegister::Trace(_) => (b, 0),
    }
}

/// The device-level effect of a decoded write of `value` to `register` at
/// `now`, or the error it raises.
pub open spec fn bus_write_spec(b: BusView, register: MmioRegister, value: u32, now: u64) -> core::result::Result<BusView, CoreError> {
    match register {
        MmioRegister::Interrupt(r) => match write_spec(b.interrupts, r, value) {
            Ok(iv) => Ok(BusView { interrupts: iv, ..b }),
            Err(e) => Err(e),
        },
        MmioRegister::SysTick(r) => Ok(BusView { systick: systick_signaled(systick_write_spec(b.systick, r, value, now)), ..b }),
        MmioRegister::Dma(r) => Ok(BusView {
            block: block_signaled(if r == block_regs::Register::Command {
                block_command_spec(b.block, value, now)
            } else {
                block_write_spec(b.block, r, value)
            }),
            ..b
        }),
        MmioRegister::Rng(r) => Ok(if r == rng_regs::Register::Seed {
            BusView { rng: seed_state(value), ..b }
        } else {
            b
        }),
        MmioRegister::Uart0(r) => Ok(BusView { uart0: uart_write_spec(b.uart0, r, value), ..b }),
        MmioRegister::Uart1(r) => Ok(BusView { uart1: uart_write_spec(b.uart1, r, value), ..b }),
        MmioRegister::Trace(_) => Ok(BusView { trace: TraceView { staged: b.trace.staged.push(value), ..b.trace }, ..b }),
    }
}

/// Whether a decoded write of `value` to `register` at `now` schedules only
/// deadlines that fit in 64 bits.
pub open spec fn bus_write_fits(b: BusView, register: MmioRegister, value: u32, now: u64) -> bool {
    match register {
        MmioRegister::SysTick(r) => systick_write_fits(b.systick, r, value, now),
        MmioRegister::Dma(r) => block_write_fits(b.block, r, now),
        _ => true,
    }
}

/// Whether `transaction` at `now` schedules only deadlines that fit in 64
/// bits: reads and refused transactions schedule none.
pub open spec fn access_fits(b: BusView, transaction: MmioTransaction, now: u64) -> bool {
    transaction.access != Access::Read ==> match decode_mmio_spec(transaction) {
        Ok(register) => bus_write_fits(b, register, transaction.value, now),
        Err(_) => true,
    }
}

/// Every peripheral in its reset state.
pub open spec fn reset_bus() -> BusView {
    BusView {
        interrupts: InterruptController::new_spec(),
        systick: SysTick::new_spec(),
        block: BlockDevice::new_spec(),
        rng: rng_regs::DEFAULT_SEED,
        uart0: Uart::new_spec(4096, 8192, interrupt::Source::Uart0),
        uart1: Uart::new_spec(4096, 8192, interrupt::Source::Uart1),
        trace: TraceView { staged: Seq::empty(), events: Seq::empty(), capacity: 4096 },
    }
}

/// Typed MMIO bus and all backend-independent peripheral state.
pub struct MmioBus {
    pub interrupts: InterruptController,
    pub systick: SysTick,
    pub block: BlockDevice,
    pub rng: Rng,
    pub uart0: Uart,
    pub uart1: Uart,
    pub trace: TraceDevice,
}

impl MmioBus {
    /// Abstract state of every peripheral.
    pub open spec fn bus_view(&self) -> BusView {
        BusView {
            interrupts: self.interrupts@,
            systick: self.systick@,
            block: self.block@,
            rng: self.rng@,
            uart0: self.uart0@,
            uart1: self.uart1@,
            trace: self.trace@,
        }
    }

    pub fn new() -> (r: Self)
        ensures
            r.bus_view() == reset_bus(),
            r.interrupts@ == InterruptController::new_spec(),
            r.systick@ == SysTick::new_spec(),
            r.rng@ == rng_regs::DEFAULT_SEED,
            r.uart0@ == Uart::new_spec(4096, 8192, interrupt::Source::Uart0),
            r.uart1@ == Uart::new_spec(4096, 8192, interrupt::Source::Uart1),
            r.trace@ == (TraceView { staged: Seq::empty(), events: Seq::empty(), capacity: 4096 }),
            r.block@ == BlockDevice::new_spec(),
    {
        MmioBus {
            interrupts: InterruptController::new(),
            systick: SysTick::new(),
            block: BlockDevice::new(),
            rng: Rng::new(),
            uart0: Uart::new(4096, 8192, interrupt::Source::Uart0),
            uart1: Uart::new(4096, 8192, interrupt::Source::Uart1),
            trace: TraceDevice::new(4096),
        }
    }

    /// Delivers every raised level transition to the interrupt controller
    /// and applies them.
    fn settle(&mut self)
        ensures
            final(self).bus_view() == settle(old(self).bus_view()),
    {
        let signals = self.systick.take_signals();
        self.interrupts.receive(signals);
        let signals = self.block.take_signals();
        self.interrupts.receive(signals);
        let signals = self.uart0.take_signals();
        self.interrupts.receive(signals);
        let signals = self.uart1.take_signals();
        self.interrupts.receive(signals);
        self.interrupts.process_signals();
        assert(self.bus_view().interrupts.inbox =~= settle(old(self).bus_view()).interrupts.inbox);
    }

    /// Whether `transaction` at `now` schedules only deadlines that fit in
    /// 64 bits, so that `access` may perform it.
    pub fn access_fits(&self, transaction: MmioTransaction, now: u64) -> (r: bool)
        ensures
            r == access_fits(self.bus_view(), transaction, now),
    {
        if matches!(transaction.access, Access::Read) {
            return true;
        }
        match decode_mmio(transaction) {
            Ok(MmioRegister::SysTick(register)) => self.systick.write_fits(register, transaction.value, now),
            Ok(MmioRegister::Dma(register)) => self.block.write_fits(register, now),
            _ => true,
        }
    }

    /// Whether completing the deadlines through `now` moves every periodic
    /// deadline to one that fits in 64 bits, so that `advance_to` may run.
    pub fn advance_fits(&self, now: u64) -> (r: bool)
        ensures
            r == systick_advance_fits(self.systick@, now),
    {
        self.systick.advance_fits(now)
    }

    /// Validates and executes one typed MMIO transaction.
    pub fn access(&mut self, transaction: MmioTransaction, now: u64) -> (r: Result<Option<u32>>)
        requires
            access_fits(old(self).bus_view(), transaction, now),
        ensures
            match decode_mmio_spec(transaction) {
                Err(e) => (r matches Err(CoreError::Platform(pe)) && pe == e) && final(self).bus_view() == old(self).bus_view(),
                Ok(register) => if transaction.access == Access::Read {
                    &&& r == Ok::<Option<u32>, CoreError>(Some(bus_read_spec(old(self).bus_view(), register).1))
                    &&& final(self).bus_view() == settle(bus_read_spec(old(self).bus_view(), register).0)
                } else {
                    match bus_write_spec(old(self).bus_view(), register, transaction.value, now) {
                        Ok(b) => r == Ok::<Option<u32>, CoreError>(None) && final(self).bus_view() == settle(b),
                        Err(e) => (r matches Err(re) && re == e) && final(self).bus_view() == old(self).bus_view(),
                    }
                },
            },
    {
        let register = match decode_mmio(transaction) {
            Ok(register) => register,
            Err(e) => return Err(CoreError::Platform(e)),
        };
        let value = if matches!(transaction.access, Access::Read) {
            Some(
                match register {
                    MmioRegister::Interrupt(register) => self.interrupts.read_register(register),
                    MmioRegister::SysTick(register) => self.systick.read_register(register),
                    MmioRegister::Dma(register) => self.block.read_register(register),
                    MmioRegister::Rng(register) => self.rng.read_register(register),
                    MmioRegister::Uart0(register) => self.uart0.read_register(register),
                    MmioRegister::Uart1(register) => self.uart1.read_register(register),
                    MmioRegister::Trace(_) => 0,
                },
            )
        } else {
            match register {
                MmioRegister::Interrupt(register) => self.interrupts.write_register(register, transaction.value)?,
                MmioRegister::SysTick(register) => self.systick.write_register(register, transaction.value, now),
                MmioRegister::Dma(register) => self.block.write_register(register, transaction.value, now),
                MmioRegister::Rng(register) => self.rng.write_register(register, transaction.value),
                MmioRegister::Uart0(register) => self.uart0.write_register(register, transaction.value),
                MmioRegister::Uart1(register) => self.uart1.write_register(register, transaction.value),
                MmioRegister::Trace(_) => self.trace.stage(transaction.value),
            }
            None
        };
        self.settle();
        Ok(value)
    }

    /// Completes all deadlines at `now` before the next instruction begins.
    pub fn advance_to(&mut self, now: u64, memory: &mut PhysicalMemory)
        requires
            systick_advance_fits(old(self).systick@, now),
            old(memory).sized(),
        ensures
            final(self).bus_view() == settle(BusView {
                systick: systick_signaled(advance_spec(old(self).systick@, now)),
                block: block::advance_spec(old(self).block@, old(memory).ram_view(), now).0,
                ..old(self).bus_view()
            }),
            final(memory).ram_view() == block::advance_spec(old(self).block@, old(memory).ram_view(), now).1,
            final(memory).sized(),
            final(memory).boot_rom_view() == old(memory).boot_rom_view(),
            final(memory).system_rom_view() == old(memory).system_rom_view(),
    {
        self.systick.advance_and_signal(now);
        self.block.advance_to(now, memory);
        self.settle();
    }

    /// Delivers one host byte to UART `index` (0 or 1); other indexes are ignored.
    pub fn receive_uart(&mut self, index: u8, byte: u8)
        ensures
            final(self).bus_view() == settle(if index == 0 {
                BusView { uart0: uart_after_receive(old(self).uart0@, byte), ..old(self).bus_view() }
            } else if index == 1 {
                BusView { uart1: uart_after_receive(old(self).uart1@, byte), ..old(self).bus_view() }
            } else {
                old(self).bus_view()
            }),
    {
        if index == 0 {
            self.uart0.receive(byte);
        } else if index == 1 {
            self.uart1.receive(byte);
        }
        self.settle();
    }

    /// Commits staged trace writes at the retirement tick.
    pub fn retire_trace_events(&mut self, tick: u64) -> (r: Vec<TraceEvent>)
        ensures
            r@ == committed(old(self).trace@, tick),
            final(self).bus_view() == (BusView { trace: after_retire(old(self).trace@, tick), ..old(self).bus_view() }),
    {
        self.trace.retire(tick)
    }

    /// Applies pending level transitions and snapshots every peripheral.
    pub fn inspect(&mut self) -> (r: PeripheralsInspection)
        ensures
            final(self).bus_view() == settle(old(self).bus_view()),
            peripherals_inspected(r, final(self).bus_view()),
    {
        self.settle();
        PeripheralsInspection {
            interrupts: self.interrupts.inspect(),
            systick: self.systick.inspect(),
            block: self.block.inspect(),
            rng: self.rng.inspect(),
            uart0: self.uart0.inspect(),
            uart1: self.uart1.inspect(),
            trace: self.trace.inspect(),
        }
    }
}

impl Default for MmioBus {
    fn default() -> (r: Self)
        ensures
            r.bus_view() == reset_bus(),
    {
        MmioBus::new()
    }
}

} // verus!
