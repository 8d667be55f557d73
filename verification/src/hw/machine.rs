use vstd::prelude::*;

use std::collections::VecDeque;

use crate::platform::address::VirtualAddress;
use crate::platform::exception::ExceptionKind;
use crate::platform::mmap::{BOOT_ROM_SIZE, MemRegion, RAM_SIZE, SYSTEM_ROM_SIZE, region_base, region_size};
use crate::platform::observability::{
    InspectionRequest, InspectionResponse, ObservableEvent, TraceInspectionEvent,
};
use crate::platform::peripheral::Peripheral;
use crate::platform::peripherals::block::{UNIT_FILESYSTEM, UNIT_SWAP};
use crate::platform::peripherals::interrupt::Source;

use super::block::{self, BlockDevice, BlockUpdate, BlockView, block_status};
use super::bounded::{bounded_extend, bounded_push, lemma_bounded_push, push_bounded};
use super::bus::{BusView, MmioBus, peripherals_inspected, reset_bus, settle};
use super::error::{CoreError, Result};
use super::exception::{ExceptionPlan, abort_kind, fault_plan, synchronous_plan};
use super::interrupt::{InterruptSignal, processed};
use super::memory::PhysicalMemory;
use super::mmu::{Mmu, MmuFault, MmuView, mmu_inspected, reset_mmu};
use super::systick::{advance_spec, lemma_advance_fits_earlier, systick_advance_fits, systick_signaled};
use super::trace::{TraceEvent, after_retire, committed, lemma_bounded_extend_len};
use super::uart::uart_status;

verus! {

/// Result of a single backend instruction attempt supplied by the CPU adapter.
#[derive(Clone, Copy, Debug, PartialEq, Eq, Structural)]
pub enum InstructionOutcome {
    Completed,
    SynchronousException(ExceptionKind, VirtualAddress),
    Fault(MmuFault, VirtualAddress),
}

/// Small continuously publishable machine status.
#[derive(Clone, Copy, Debug, PartialEq, Eq, Structural)]
pub struct MachineStatus {
    pub ticks: u64,
    pub mmu_enabled: bool,
    pub pending_interrupts: u32,
    pub systick_status: u32,
    pub block_status: u32,
    pub uart0_status: u32,
    pub uart1_status: u32,
}

/// Abstract machine state: memory contents, devices, MMU, virtual time
/// and the bounded history of observable events.
pub struct MachineView {
    pub boot_rom: Seq<u8>,
    pub system_rom: Seq<u8>,
    pub ram: Seq<u8>,
    pub bus: BusView,
    pub mmu: MmuView,
    pub ticks: u64,
    pub events: Seq<ObservableEvent>,
    pub event_capacity: nat,
}

/// Devices and RAM once every deadline of tick `now` has completed.
pub open spec fn tick_step(bus: BusView, ram: Seq<u8>, now: u64) -> (BusView, Seq<u8>) {
    (
        settle(
            BusView {
                systick: systick_signaled(advance_spec(bus.systick, now)),
                block: block::advance_spec(bus.block, ram, now).0,
                ..bus
            },
        ),
        block::advance_spec(bus.block, ram, now).1,
    )
}

/// Devices and RAM after ticks `start + 1` through `start + count` elapse
/// one by one.
pub open spec fn run_ticks(bus: BusView, ram: Seq<u8>, start: u64, count: nat) -> (
    BusView,
    Seq<u8>,
)
    decreases count,
{
    if count == 0 {
        (bus, ram)
    } else {
        let before = run_ticks(bus, ram, start, (count - 1) as nat);
        tick_step(before.0, before.1, (start + count) as u64)
    }
}

/// Observable events for committed trace writes, in order.
pub open spec fn trace_observations(events: Seq<TraceEvent>) -> Seq<ObservableEvent> {
    events.map_values(
        |e: TraceEvent| ObservableEvent::Trace(TraceInspectionEvent { tick: e.tick, value: e.value }),
    )
}

/// The machine after `count` instruction ticks: every tick completes its
/// device deadlines, then trace writes retire at the final tick and become
/// observable events.
pub open spec fn advanced(m: MachineView, count: nat) -> MachineView {
    let (bus, ram) = run_ticks(m.bus, m.ram, m.ticks, count);
    let now = (m.ticks + count) as u64;
    MachineView {
        ram,
        bus: BusView { trace: after_retire(bus.trace, now), ..bus },
        ticks: now,
        events: bounded_extend(
            m.events,
            trace_observations(committed(bus.trace, now)),
            m.event_capacity,
        ),
        ..m
    }
}

/// The machine after `event` is appended to its bounded event history.
pub open spec fn recorded(m: MachineView, event: ObservableEvent) -> MachineView {
    MachineView { events: bounded_push(m.events, event, m.event_capacity), ..m }
}

/// The virtual-time contract of one attempted instruction: a completed
/// instruction costs one tick; a synchronous exception costs its
/// instruction tick plus the entry tick; a fault costs only the entry tick.
pub open spec fn finish_spec(m: MachineView, outcome: InstructionOutcome) -> (
    MachineView,
    Option<ExceptionPlan>,
) {
    match outcome {
        InstructionOutcome::Completed => (advanced(m, 1), None),
        InstructionOutcome::SynchronousException(kind, pc) => (
            recorded(advanced(advanced(m, 1), 1), ObservableEvent::Exception(kind)),
            Some(synchronous_plan(kind, pc)),
        ),
        InstructionOutcome::Fault(fault, pc) => (
            recorded(advanced(m, 1), ObservableEvent::Exception(abort_kind(fault.status))),
            Some(fault_plan(fault, pc)),
        ),
    }
}

/// Whether `count` more ticks fit in 64 bits, together with the next
/// periodic SysTick deadline after the last of them.
pub open spec fn ticks_fit(m: MachineView, count: nat) -> bool {
    &&& m.ticks + count <= u64::MAX
    &&& systick_advance_fits(m.bus.systick, (m.ticks + count) as u64)
}

/// The ticks an instruction attempt with `outcome` costs.
pub open spec fn outcome_ticks(outcome: InstructionOutcome) -> nat {
    match outcome {
        InstructionOutcome::Completed => 1,
        InstructionOutcome::SynchronousException(_, _) => 2,
        InstructionOutcome::Fault(_, _) => 1,
    }
}

/// Virtual time: a completed instruction costs one tick, a synchronous
/// exception its instruction tick plus one entry tick, and a fault only
/// its entry tick; events never outgrow their capacity.
pub proof fn lemma_virtual_time(m: MachineView, outcome: InstructionOutcome)
    requires
        m.ticks + 2 <= u64::MAX,
        m.events.len() <= m.event_capacity,
    ensures
        finish_spec(m, outcome).0.ticks == m.ticks + match outcome {
            InstructionOutcome::Completed => 1int,
            InstructionOutcome::SynchronousException(_, _) => 2int,
            InstructionOutcome::Fault(_, _) => 1int,
        },
        finish_spec(m, outcome).0.events.len() <= m.event_capacity,
        finish_spec(m, outcome).0.boot_rom == m.boot_rom,
        finish_spec(m, outcome).0.system_rom == m.system_rom,
        finish_spec(m, outcome).0.mmu == m.mmu,
{
    let once = advanced(m, 1);
    let (bus1, _) = run_ticks(m.bus, m.ram, m.ticks, 1);
    lemma_bounded_extend_len(
        m.events,
        trace_observations(committed(bus1.trace, (m.ticks + 1) as u64)),
        m.event_capacity,
    );
    let (bus2, _) = run_ticks(once.bus, once.ram, once.ticks, 1);
    lemma_bounded_extend_len(
        once.events,
        trace_observations(committed(bus2.trace, (once.ticks + 1) as u64)),
        once.event_capacity,
    );
    match outcome {
        InstructionOutcome::SynchronousException(kind, _) => {
            lemma_bounded_push(advanced(once, 1).events, ObservableEvent::Exception(kind), m.event_capacity);
        },
        InstructionOutcome::Fault(fault, _) => {
            lemma_bounded_push(once.events, ObservableEvent::Exception(abort_kind(fault.status)), m.event_capacity);
        },
        _ => {},
    }
}

/// Whether block media can be attached as it is: absent, or a nonzero
/// whole number of sectors.
pub open spec fn media_attachable(media: Option<Seq<u8>>) -> bool {
    match media {
        None => true,
        Some(m) => m.len() != 0 && m.len() % 512 == 0,
    }
}

/// The block device a reset starts with: reset registers, the same
/// media, one interrupt-level signal for each attached unit.
pub open spec fn reset_block(media: Seq<Option<Seq<u8>>>) -> BlockView {
    let idle = InterruptSignal { source: Source::Block, pending: false };
    let first = if media[0] is Some {
        seq![idle]
    } else {
        Seq::empty()
    };
    let second = if media[1] is Some {
        seq![idle]
    } else {
        Seq::empty()
    };
    BlockView { media, outbox: first + second, ..BlockDevice::new_spec() }
}

/// The single-owner, backend-independent guest machine state.
pub struct Machine {
    pub memory: PhysicalMemory,
    pub bus: MmioBus,
    pub mmu: Mmu,
    /// Virtual time in retired instruction ticks.
    pub ticks: u64,
    /// Observable events, oldest first, at most `event_capacity` of them.
    pub events: VecDeque<ObservableEvent>,
    pub event_capacity: usize,
}

impl Machine {
    /// Virtual time in retired instruction ticks.
    pub open spec fn ticks_view(&self) -> u64 {
        self.ticks
    }

    /// Recorded observable events, oldest first.
    pub open spec fn events_view(&self) -> Seq<ObservableEvent> {
        self.events@
    }

    /// How many observable events are kept.
    pub open spec fn capacity_view(&self) -> nat {
        self.event_capacity as nat
    }

    /// Abstract state of the whole machine.
    pub open spec fn machine_view(&self) -> MachineView {
        MachineView {
            boot_rom: self.memory.boot_rom_view(),
            system_rom: self.memory.system_rom_view(),
            ram: self.memory.ram_view(),
            bus: self.bus.bus_view(),
            mmu: self.mmu@,
            ticks: self.ticks_view(),
            events: self.events_view(),
            event_capacity: self.capacity_view(),
        }
    }

    /// Memory regions have their ABI sizes and the event history fits its
    /// capacity.
    pub open spec fn wf(&self) -> bool {
        &&& self.memory.sized()
        &&& self.events_view().len() <= self.capacity_view()
    }

    pub fn new(memory: PhysicalMemory, event_capacity: usize) -> (r: Self)
        ensures
            r.machine_view() == (MachineView {
                boot_rom: memory.boot_rom_view(),
                system_rom: memory.system_rom_view(),
                ram: memory.ram_view(),
                bus: r.bus.bus_view(),
                mmu: r.mmu@,
                ticks: 0,
                events: Seq::empty(),
                event_capacity: event_capacity as nat,
            }),
            r.bus.bus_view() == reset_bus(),
            r.mmu@ == reset_mmu(),
            memory.sized() ==> r.wf(),
    {
        Machine {
            memory,
            bus: MmioBus::new(),
            mmu: Mmu::new(),
            ticks: 0,
            events: VecDeque::with_capacity(event_capacity),
            event_capacity,
        }
    }

    pub fn ticks(&self) -> (r: u64)
        ensures
            r == self.ticks_view(),
    {
        self.ticks
    }

    /// Whether `count` more ticks fit in 64 bits, together with the next
    /// periodic SysTick deadline after the last of them.
    pub fn has_tick_room(&self, count: u64) -> (r: bool)
        ensures
            r == ticks_fit(self.machine_view(), count as nat),
    {
        count <= u64::MAX - self.ticks && self.bus.advance_fits(self.ticks + count)
    }

    /// Copies the physical bytes in one implemented region for backend mapping.
    pub fn copy_region(&self, region: MemRegion) -> (r: Result<Vec<u8>>)
        ensures
            match self.memory.read_spec(region_base(region), region_size(region) as int) {
                Ok(bytes) => r matches Ok(v) && v@ == bytes,
                Err(e) => r matches Err(re) && re == e,
            },
    {
        let range = region.range();
        let length = range.length() as usize;
        let mut bytes: Vec<u8> = Vec::with_capacity(length);
        bytes.resize(length, 0u8);
        let mut destination = bytes.as_mut_slice();
        match self.memory.read_range(range, &mut destination) {
            Ok(()) => Ok(bytes),
            Err(e) => Err(e),
        }
    }

    /// Recreates reset machine state while preserving immutable ROM and
    /// attached media.
    pub fn reset_clone(&self) -> (r: Result<Self>)
        requires
            self.wf(),
            self.bus.block.units_wf(),
        ensures
            !media_attachable(self.bus.block@.media[0]) ==> (r matches Err(
                CoreError::InvalidBlockMedia { unit },
            ) && unit == 0),
            media_attachable(self.bus.block@.media[0]) && !media_attachable(
                self.bus.block@.media[1],
            ) ==> (r matches Err(CoreError::InvalidBlockMedia { unit }) && unit == 1),
            media_attachable(self.bus.block@.media[0]) && media_attachable(
                self.bus.block@.media[1],
            ) ==> (r matches Ok(m) && m.wf() && m.machine_view() == MachineView {
                ram: Seq::new(self.memory.ram_view().len(), |i: int| 0u8),
                bus: BusView { block: reset_block(self.bus.block@.media), ..reset_bus() },
                mmu: reset_mmu(),
                ticks: 0,
                events: Seq::empty(),
                ..self.machine_view()
            }),
    {
        let boot_rom = self.copy_region(MemRegion::BootRom)?;
        let system_rom = self.copy_region(MemRegion::SystemRom)?;
        proof {
            assert(boot_rom@ =~= self.memory.boot_rom_view());
            assert(system_rom@ =~= self.memory.system_rom_view());
        }
        let memory = PhysicalMemory::with_roms(boot_rom.as_slice(), system_rom.as_slice())?;
        proof {
            assert(memory.boot_rom_view() =~= self.memory.boot_rom_view());
            assert(memory.system_rom_view() =~= self.memory.system_rom_view());
        }
        let mut machine = Self::new(memory, self.event_capacity);
        let ghost fresh = machine.bus.block@;
        if let Some(media) = self.bus.block.media_clone(UNIT_FILESYSTEM)? {
            machine.bus.block.update(BlockUpdate::Attach { unit: UNIT_FILESYSTEM, media })?;
        }
        let ghost after_first = machine.bus.block@;
        if let Some(media) = self.bus.block.media_clone(UNIT_SWAP)? {
            machine.bus.block.update(BlockUpdate::Attach { unit: UNIT_SWAP, media })?;
        }
        proof {
            let media = self.bus.block@.media;
            assert(machine.bus.block@.media =~= media);
            assert(machine.bus.block@.dirty =~= fresh.dirty);
            assert(machine.bus.block@.outbox =~= reset_block(media).outbox);
            assert(machine.memory.ram_view() =~= Seq::new(self.memory.ram_view().len(), |i: int| 0u8));
        }
        Ok(machine)
    }

    /// Applies the virtual-time contract after one attempted guest
    /// instruction and returns the exception to enter, if any.
    pub fn finish_instruction(&mut self, outcome: InstructionOutcome) -> (r: Option<ExceptionPlan>)
        requires
            old(self).wf(),
            ticks_fit(old(self).machine_view(), outcome_ticks(outcome)),
        ensures
            final(self).wf(),
            (final(self).machine_view(), r) == finish_spec(old(self).machine_view(), outcome),
    {
        match outcome {
            InstructionOutcome::Completed => {
                self.advance_ticks(1, Ghost((self.ticks + 1) as u64));
                None
            },
            InstructionOutcome::SynchronousException(kind, pc) => {
                let ghost last = (self.ticks + 2) as u64;
                self.advance_ticks(1, Ghost(last));
                self.advance_ticks(kind.entry_ticks(), Ghost(last));
                self.record_event(ObservableEvent::Exception(kind));
                Some(ExceptionPlan::synchronous(kind, pc))
            },
            InstructionOutcome::Fault(fault, pc) => {
                let plan = ExceptionPlan::fault(fault, pc);
                self.advance_ticks(plan.request.kind.entry_ticks(), Ghost((self.ticks + 1) as u64));
                self.record_event(ObservableEvent::Exception(plan.request.kind));
                Some(plan)
            },
        }
    }

    /// Enters an exception at an instruction boundary after its
    /// instruction tick.
    pub fn enter_exception(&mut self, kind: ExceptionKind, pc: VirtualAddress) -> (r: ExceptionPlan)
        requires
            old(self).wf(),
            ticks_fit(old(self).machine_view(), 1),
        ensures
            final(self).wf(),
            final(self).machine_view() == recorded(
                advanced(old(self).machine_view(), 1),
                ObservableEvent::Exception(kind),
            ),
            r == synchronous_plan(kind, pc),
    {
        self.advance_ticks(kind.entry_ticks(), Ghost((self.ticks + 1) as u64));
        self.record_event(ObservableEvent::Exception(kind));
        ExceptionPlan::synchronous(kind, pc)
    }

    /// Applies pending interrupt-level transitions and reports the status
    /// registers.
    pub fn status(&mut self) -> (r: MachineStatus)
        requires
            old(self).wf(),
        ensures
            final(self).wf(),
            final(self).machine_view() == (MachineView {
                bus: BusView {
                    interrupts: processed(old(self).bus.bus_view().interrupts),
                    ..old(self).bus.bus_view()
                },
                ..old(self).machine_view()
            }),
            r == (MachineStatus {
                ticks: old(self).ticks_view(),
                mmu_enabled: old(self).mmu@.enabled,
                pending_interrupts: processed(old(self).bus.bus_view().interrupts).pending,
                systick_status: if old(self).bus.systick@.pending {
                    1u32
                } else {
                    0u32
                },
                block_status: block_status(old(self).bus.block@),
                uart0_status: uart_status(old(self).bus.uart0@),
                uart1_status: uart_status(old(self).bus.uart1@),
            }),
    {
        let pending_interrupts = self.bus.interrupts.pending();
        MachineStatus {
            ticks: self.ticks,
            mmu_enabled: self.mmu.enabled(),
            pending_interrupts,
            systick_status: self.bus.systick.status(),
            block_status: self.bus.block.status(),
            uart0_status: self.bus.uart0.status(),
            uart1_status: self.bus.uart1.status(),
        }
    }

    /// Answers one synchronous inspection request.
    pub fn inspect(&mut self, request: InspectionRequest) -> (r: Result<InspectionResponse<'_>>)
        requires
            old(self).wf(),
        ensures
            final(self).wf(),
            match request {
                InspectionRequest::Memory(range) => final(self).machine_view() == old(self).machine_view()
                    && match old(self).memory.read_spec(range.start_spec(), range.length_spec() as int) {
                    Ok(bytes) => r matches Ok(InspectionResponse::Memory(s)) && s@ == bytes,
                    Err(e) => r matches Err(re) && re == e,
                },
                InspectionRequest::Mmu => final(self).machine_view() == old(self).machine_view()
                    && (r matches Ok(InspectionResponse::Mmu(i)) && mmu_inspected(i, old(self).mmu@)),
                InspectionRequest::Peripherals => final(self).machine_view() == (MachineView {
                    bus: settle(old(self).bus.bus_view()),
                    ..old(self).machine_view()
                }) && (r matches Ok(InspectionResponse::Peripherals(p)) && peripherals_inspected(
                    p,
                    settle(old(self).bus.bus_view()),
                )),
                InspectionRequest::Events => final(self).machine_view() == old(self).machine_view()
                    && (r matches Ok(InspectionResponse::Events(events)) && events@ == old(self).events_view()),
            },
    {
        match request {
            InspectionRequest::Memory(range) => match self.memory.inspect_range(range) {
                Ok(bytes) => Ok(InspectionResponse::Memory(bytes)),
                Err(e) => Err(e),
            },
            InspectionRequest::Mmu => Ok(InspectionResponse::Mmu(self.mmu.inspect())),
            InspectionRequest::Peripherals => {
                let peripherals = self.bus.inspect();
                Ok(InspectionResponse::Peripherals(peripherals))
            },
            InspectionRequest::Events => {
                let mut events: Vec<ObservableEvent> = Vec::new();
                let n = self.events.len();
                let mut i: usize = 0;
                while i < n
                    invariant
                        i <= n,
                        n == self.events@.len(),
                        events@ == self.events@.subrange(0, i as int),
                    decreases n - i,
                {
                    events.push(self.events[i]);
                    i += 1;
                    assert(events@ =~= self.events@.subrange(0, i as int));
                }
                assert(events@ =~= self.events@);
                Ok(InspectionResponse::Events(events))
            },
        }
    }

    /// Retires `count` instruction ticks: each tick completes its device
    /// deadlines, then trace writes commit at the final tick.
    fn advance_ticks(&mut self, count: u64, Ghost(last): Ghost<u64>)
        requires
            old(self).wf(),
            old(self).ticks_view() + count <= last,
            systick_advance_fits(old(self).bus.systick@, last),
        ensures
            final(self).wf(),
            systick_advance_fits(final(self).bus.systick@, last),
            final(self).machine_view() == advanced(old(self).machine_view(), count as nat),
    {
        let ghost start = self.machine_view();
        let mut i: u64 = 0;
        while i < count
            invariant
                i <= count,
                start.ticks + count <= last,
                systick_advance_fits(self.bus.systick@, last),
                self.memory.sized(),
                self.ticks == start.ticks + i,
                (self.bus.bus_view(), self.memory.ram_view()) == run_ticks(
                    start.bus,
                    start.ram,
                    start.ticks,
                    i as nat,
                ),
                self.memory.boot_rom_view() == start.boot_rom,
                self.memory.system_rom_view() == start.system_rom,
                self.mmu@ == start.mmu,
                self.events@ == start.events,
                self.event_capacity == start.event_capacity,
                start.events.len() <= start.event_capacity,
            decreases count - i,
        {
            self.ticks = self.ticks + 1;
            proof {
                lemma_advance_fits_earlier(self.bus.systick@, self.ticks, last);
            }
            self.bus.advance_to(self.ticks, &mut self.memory);
            i += 1;
        }
        let ghost ran = self.bus.bus_view();
        let retired = self.bus.retire_trace_events(self.ticks);
        let ghost observed = trace_observations(retired@);
        let ghost before = self.events@;
        let ghost retired_view = self.machine_view();
        let n = retired.len();
        let mut j: usize = 0;
        while j < n
            invariant
                j <= n,
                n == retired@.len(),
                observed == trace_observations(retired@),
                self.events@ == bounded_extend(before, observed.take(j as int), self.event_capacity as nat),
                self.events@.len() <= self.event_capacity,
                self.memory.sized(),
                self.machine_view() == (MachineView { events: self.events@, ..retired_view }),
            decreases n - j,
        {
            let trace = retired[j];
            proof {
                assert(observed.take(j + 1).drop_last() =~= observed.take(j as int));
            }
            self.record_event(
                ObservableEvent::Trace(TraceInspectionEvent { tick: trace.tick, value: trace.value }),
            );
            j += 1;
        }
        proof {
            assert(observed.take(n as int) =~= observed);
        }
    }

    /// Appends an observable event, dropping the oldest when full.
    fn record_event(&mut self, event: ObservableEvent)
        requires
            old(self).events@.len() <= old(self).event_capacity,
        ensures
            final(self).machine_view() == recorded(old(self).machine_view(), event),
            final(self).events@.len() <= final(self).event_capacity,
            final(self).memory == old(self).memory,
    {
        proof {
            lemma_bounded_push(self.events@, event, self.event_capacity as nat);
        }
        push_bounded(&mut self.events, event, self.event_capacity);
    }
}

impl Default for Machine {
    fn default() -> (r: Self)
        ensures
            r.wf(),
            r.machine_view() == (MachineView {
                boot_rom: Seq::new(BOOT_ROM_SIZE as nat, |i: int| 0u8),
                system_rom: Seq::new(SYSTEM_ROM_SIZE as nat, |i: int| 0u8),
                ram: Seq::new(RAM_SIZE as nat, |i: int| 0u8),
                bus: reset_bus(),
                mmu: reset_mmu(),
                ticks: 0,
                events: Seq::empty(),
                event_capacity: 4096,
            }),
    {
        Machine::new(PhysicalMemory::empty(), 4096)
    }
}

} // verus!
