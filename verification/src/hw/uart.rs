use vstd::prelude::*;

use std::collections::VecDeque;

use crate::platform::observability::UartInspection;
use crate::platform::peripheral::Peripheral;
use crate::platform::peripherals::interrupt::Source;
use crate::platform::peripherals::uart::Register;

use super::bounded::{bounded_push, push_bounded};
use super::error::{CoreError, Result};
use super::interrupt::InterruptSignal;

verus! {

/// One state-changing UART input.
pub enum UartUpdate {
    Receive(u8),
    Write { register: Register, value: u32 },
}

/// Abstract UART state.
pub struct UartView {
    pub rx: Seq<u8>,
    pub tx: Seq<u8>,
    pub rx_capacity: nat,
    pub tx_capacity: nat,
    pub rx_irq_enabled: bool,
    pub interrupt_source: Source,
    /// Level transitions raised but not yet delivered, oldest first.
    pub outbox: Seq<InterruptSignal>,
}

/// Whether the receive interrupt is asserted.
pub open spec fn uart_irq(v: UartView) -> bool {
    v.rx_irq_enabled && v.rx.len() > 0
}

/// `v` after raising its current interrupt level.
pub open spec fn uart_signaled(v: UartView) -> UartView {
    UartView {
        outbox: v.outbox.push(InterruptSignal { source: v.interrupt_source, pending: uart_irq(v) }),
        ..v
    }
}

/// The STATUS register: bit 0 when a byte is waiting, bit 1 always.
pub open spec fn uart_status(v: UartView) -> u32 {
    if v.rx.len() > 0 {
        3
    } else {
        2
    }
}

/// UART state after receiving a byte from the host.
pub open spec fn uart_after_receive(v: UartView, byte: u8) -> UartView {
    if v.rx_capacity == 0 {
        v
    } else {
        uart_signaled(UartView { rx: bounded_push(v.rx, byte, v.rx_capacity), ..v })
    }
}

/// UART state and value of a guest read of `register`.
pub open spec fn uart_read_spec(v: UartView, register: Register) -> (UartView, u32) {
    match register {
        Register::ReceiveData => if v.rx.len() > 0 {
            (uart_signaled(UartView { rx: v.rx.drop_first(), ..v }), v.rx[0] as u32)
        } else {
            (uart_signaled(v), 0)
        },
        Register::Status => (v, uart_status(v)),
        Register::Control => (v, if v.rx_irq_enabled {
            1
        } else {
            0
        }),
        Register::TransmitData => (v, 0),
    }
}

/// UART state after a guest write of `value` to `register`.
pub open spec fn uart_write_spec(v: UartView, register: Register, value: u32) -> UartView {
    match register {
        Register::TransmitData => UartView {
            tx: bounded_push(v.tx, value as u8, v.tx_capacity),
            ..v
        },
        Register::Control => uart_signaled(UartView { rx_irq_enabled: value & 1 != 0, ..v }),
        _ => v,
    }
}

/// Independent UART state with bounded receive and transmit histories.
/// Whether inspection `r` reports the state `v`.
pub open spec fn uart_inspected(r: UartInspection, v: UartView) -> bool {
    &&& r.status == uart_status(v)
    &&& r.control == (if v.rx_irq_enabled { 1u32 } else { 0u32 })
    &&& r.rx_queued == v.rx.len()
    &&& r.rx_irq_enabled == v.rx_irq_enabled
    &&& r.tx_history@ == v.tx
}

pub struct Uart {
    rx: VecDeque<u8>,
    tx: VecDeque<u8>,
    rx_capacity: usize,
    tx_capacity: usize,
    rx_irq_enabled: bool,
    interrupt_source: Source,
    outbox: Vec<InterruptSignal>,
}

impl View for Uart {
    type V = UartView;

    closed spec fn view(&self) -> UartView {
        UartView {
            rx: self.rx@,
            tx: self.tx@,
            rx_capacity: self.rx_capacity as nat,
            tx_capacity: self.tx_capacity as nat,
            rx_irq_enabled: self.rx_irq_enabled,
            interrupt_source: self.interrupt_source,
            outbox: self.outbox@,
        }
    }
}

impl Uart {
    /// Whether both histories respect their capacities.
    pub open spec fn bounded(&self) -> bool {
        self@.rx.len() <= self@.rx_capacity && self@.tx.len() <= self@.tx_capacity
    }

    /// Reset state with the given capacities: empty histories, receive
    /// interrupt disabled.
    pub open spec fn new_spec(rx_capacity: usize, tx_capacity: usize, interrupt_source: Source) -> UartView {
        UartView {
            rx: Seq::empty(),
            tx: Seq::empty(),
            rx_capacity: rx_capacity as nat,
            tx_capacity: tx_capacity as nat,
            rx_irq_enabled: false,
            interrupt_source,
            outbox: Seq::empty(),
        }
    }

    pub fn new(rx_capacity: usize, tx_capacity: usize, interrupt_source: Source) -> (r: Self)
        ensures
            r@ == Self::new_spec(rx_capacity, tx_capacity, interrupt_source),
            r@ == (UartView {
                rx: Seq::empty(),
                tx: Seq::empty(),
                rx_capacity: rx_capacity as nat,
                tx_capacity: tx_capacity as nat,
                rx_irq_enabled: false,
                interrupt_source,
                outbox: Seq::empty(),
            }),
            r.bounded(),
    {
        Uart {
            rx: VecDeque::with_capacity(rx_capacity),
            tx: VecDeque::with_capacity(tx_capacity),
            rx_capacity,
            tx_capacity,
            rx_irq_enabled: false,
            interrupt_source,
            outbox: Vec::new(),
        }
    }

    fn signal_interrupt(&mut self)
        ensures
            final(self)@ == uart_signaled(old(self)@),
    {
        let pending = self.irq_pending();
        self.outbox.push(InterruptSignal { source: self.interrupt_source, pending });
    }

    /// Hands out the raised level transitions, oldest first.
    pub fn take_signals(&mut self) -> (r: Vec<InterruptSignal>)
        ensures
            r@ == old(self)@.outbox,
            final(self)@ == (UartView { outbox: Seq::empty(), ..old(self)@ }),
    {
        let mut taken = Vec::new();
        std::mem::swap(&mut taken, &mut self.outbox);
        taken
    }

    /// Receives one byte from the host, dropping the oldest when full.
    pub fn receive(&mut self, byte: u8)
        ensures
            final(self)@ == uart_after_receive(old(self)@, byte),
            old(self).bounded() ==> final(self).bounded(),
    {
        if self.rx_capacity == 0 {
            return;
        }
        push_bounded(&mut self.rx, byte, self.rx_capacity);
        self.signal_interrupt();
    }

    /// Consumes the oldest received byte, or returns zero when none waits.
    pub fn read_rx(&mut self) -> (r: u8)
        ensures
            (final(self)@, r as u32) == uart_read_spec(old(self)@, Register::ReceiveData),
            old(self).bounded() ==> final(self).bounded(),
    {
        let byte = match self.rx.pop_front() {
            Some(byte) => byte,
            None => 0,
        };
        self.signal_interrupt();
        byte
    }

    fn write_tx(&mut self, byte: u8)
        ensures
            final(self)@ == (UartView {
                tx: bounded_push(old(self)@.tx, byte, old(self)@.tx_capacity),
                ..old(self)@
            }),
            old(self).bounded() ==> final(self).bounded(),
    {
        push_bounded(&mut self.tx, byte, self.tx_capacity);
    }

    pub fn status(&self) -> (r: u32)
        ensures
            r == uart_status(self@),
    {
        if self.rx.len() == 0 {
            2
        } else {
            3
        }
    }

    pub fn control(&self) -> (r: u32)
        ensures
            r == (if self@.rx_irq_enabled {
                1u32
            } else {
                0u32
            }),
    {
        if self.rx_irq_enabled {
            1
        } else {
            0
        }
    }

    /// Sets the receive-interrupt enable and raises the resulting level.
    pub fn set_control(&mut self, value: u32)
        ensures
            final(self)@ == uart_write_spec(old(self)@, Register::Control, value),
    {
        self.rx_irq_enabled = value & 1 != 0;
        self.signal_interrupt();
    }

    pub fn irq_pending(&self) -> (r: bool)
        ensures
            r == uart_irq(self@),
    {
        self.rx_irq_enabled && self.rx.len() != 0
    }

    /// Returns the transmitted bytes still held, oldest first.
    pub fn tx_history(&self) -> (r: Vec<u8>)
        ensures
            r@ == self@.tx,
    {
        let mut out = Vec::new();
        let mut i: usize = 0;
        while i < self.tx.len()
            invariant
                i <= self.tx@.len(),
                out@ == self.tx@.subrange(0, i as int),
            decreases self.tx@.len() - i,
        {
            out.push(self.tx[i]);
            i += 1;
            assert(out@ =~= self.tx@.subrange(0, i as int));
        }
        assert(self.tx@.subrange(0, self.tx@.len() as int) =~= self.tx@);
        out
    }

    pub fn inspect(&self) -> (r: UartInspection)
        ensures
            uart_inspected(r, self@),
    {
        UartInspection {
            status: self.status(),
            control: self.control(),
            rx_queued: self.rx.len(),
            rx_irq_enabled: self.rx_irq_enabled,
            tx_history: self.tx_history(),
        }
    }

    /// Performs a guest read of `register`.
    pub fn read_register(&mut self, register: Register) -> (r: u32)
        ensures
            (final(self)@, r) == uart_read_spec(old(self)@, register),
            old(self).bounded() ==> final(self).bounded(),
    {
        match register {
            Register::ReceiveData => self.read_rx() as u32,
            Register::Status => self.status(),
            Register::Control => self.control(),
            Register::TransmitData => 0,
        }
    }

    /// Performs a guest write of `value` to `register`.
    pub fn write_register(&mut self, register: Register, value: u32)
        ensures
            final(self)@ == uart_write_spec(old(self)@, register, value),
            old(self).bounded() ==> final(self).bounded(),
    {
        match register {
            Register::TransmitData => self.write_tx(value as u8),
            Register::Control => self.set_control(value),
            _ => {},
        }
    }
}

impl Peripheral for Uart {
    type Register = Register;

    type Update = UartUpdate;

    type Inspection = UartInspection;

    type Error = CoreError;

    open spec fn update_allowed(&self, update: &UartUpdate) -> bool {
        true
    }

    fn read(&mut self, register: Register) -> (r: Result<u32>)
        ensures
            r == Ok::<u32, CoreError>(uart_read_spec(old(self)@, register).1),
            final(self)@ == uart_read_spec(old(self)@, register).0,
    {
        Ok(self.read_register(register))
    }

    fn update(&mut self, update: UartUpdate) -> (r: Result<()>)
        ensures
            r is Ok,
            match update {
                UartUpdate::Receive(byte) => final(self)@ == uart_after_receive(old(self)@, byte),
                UartUpdate::Write { register, value } => final(self)@ == uart_write_spec(old(self)@, register, value),
            },
    {
        match update {
            UartUpdate::Receive(byte) => self.receive(byte),
            UartUpdate::Write { register, value } => self.write_register(register, value),
        }
        Ok(())
    }

    fn inspect(&self) -> (r: UartInspection)
        ensures
            uart_inspected(r, self@),
    {
        Uart::inspect(self)
    }
}

impl Default for Uart {
    fn default() -> (r: Self)
        ensures
            r@ == Uart::new_spec(4096, 8192, Source::Uart0),
    {
        Uart::new(4096, 8192, Source::Uart0)
    }
}

} // verus!
