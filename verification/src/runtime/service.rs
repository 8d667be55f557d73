use vstd::prelude::*;
use vstd::multiset::Multiset;

use std::collections::VecDeque;

use crate::hw::block::{BlockUpdate, BlockView, block_signaled};
use crate::hw::bus::{BusView, reset_bus};
use crate::hw::machine::{MachineView, media_attachable, reset_block};
use crate::hw::memory::{ram_write_target, splice};
use crate::hw::mmu::reset_mmu;
use crate::hw::bounded::{bounded_extend, push_bounded};
use crate::image::builder::{insert_ordered, lemma_insert_ordered, sort_by};
use crate::hw::error::{CoreError, Result};
use crate::hw::machine::Machine;
use crate::platform::address::PhysicalAddress;
use crate::platform::peripheral::Peripheral;
use crate::platform::peripherals::block::{UNIT_FILESYSTEM, UNIT_SWAP};

use super::types::{LifecycleState, ScheduledUartInput, UartPort};

verus! {

broadcast use vstd::seq_lib::group_to_multiset_ensures;

/// Bounded host-to-guest byte buffers, one per UART: when a buffer is full
/// the oldest byte is dropped, and a zero capacity keeps nothing.
pub struct UartInbox {
    uart0: VecDeque<u8>,
    uart1: VecDeque<u8>,
    capacity: usize,
}

impl UartInbox {
    /// Buffered bytes of a port, oldest first.
    pub closed spec fn queue(&self, port: UartPort) -> Seq<u8> {
        match port {
            UartPort::Uart0 => self.uart0@,
            UartPort::Uart1 => self.uart1@,
        }
    }

    pub closed spec fn capacity_spec(&self) -> nat {
        self.capacity as nat
    }

    pub fn new(capacity: usize) -> (r: Self)
        ensures
            r.queue(UartPort::Uart0) == Seq::<u8>::empty(),
            r.queue(UartPort::Uart1) == Seq::<u8>::empty(),
            r.capacity_spec() == capacity,
    {
        UartInbox { uart0: VecDeque::with_capacity(capacity), uart1: VecDeque::with_capacity(capacity), capacity }
    }

    fn push_into(queue: &mut VecDeque<u8>, bytes: &[u8], capacity: usize)
        ensures
            final(queue)@ == bounded_extend(old(queue)@, bytes@, capacity as nat),
    {
        let n = bytes.len();
        let mut i: usize = 0;
        while i < n
            invariant
                i <= n,
                n == bytes@.len(),
                queue@ == bounded_extend(old(queue)@, bytes@.take(i as int), capacity as nat),
            decreases n - i,
        {
            assert(bytes@.take(i + 1).drop_last() =~= bytes@.take(i as int));
            push_bounded(queue, bytes[i], capacity);
            i += 1;
        }
        assert(bytes@.take(n as int) =~= bytes@);
    }

    /// Appends bytes to one port's buffer.
    pub fn push(&mut self, port: UartPort, bytes: &[u8])
        ensures
            final(self).queue(port) == bounded_extend(old(self).queue(port), bytes@, old(self).capacity_spec()),
            final(self).queue(other_port(port)) == old(self).queue(other_port(port)),
            final(self).capacity_spec() == old(self).capacity_spec(),
    {
        if self.capacity == 0 {
            proof {
                lemma_zero_capacity_keeps_nothing(self.queue(port), bytes@);
            }
            return;
        }
        match port {
            UartPort::Uart0 => Self::push_into(&mut self.uart0, bytes, self.capacity),
            UartPort::Uart1 => Self::push_into(&mut self.uart1, bytes, self.capacity),
        }
    }

    /// Takes every buffered byte of one port, oldest first.
    pub fn drain(&mut self, port: UartPort) -> (r: Vec<u8>)
        ensures
            r@ == old(self).queue(port),
            final(self).queue(port) == Seq::<u8>::empty(),
            final(self).queue(other_port(port)) == old(self).queue(other_port(port)),
            final(self).capacity_spec() == old(self).capacity_spec(),
    {
        let mut out: Vec<u8> = Vec::new();
        match port {
            UartPort::Uart0 => {
                let ghost start = self.uart0@;
                while self.uart0.len() > 0
                    invariant
                        out@ + self.uart0@ == start,
                        self.uart1@ == old(self).uart1@,
                        self.capacity == old(self).capacity,
                    decreases self.uart0@.len(),
                {
                    let byte = self.uart0.pop_front().unwrap();
                    out.push(byte);
                }
                assert(out@ =~= start);
            },
            UartPort::Uart1 => {
                let ghost start = self.uart1@;
                while self.uart1.len() > 0
                    invariant
                        out@ + self.uart1@ == start,
                        self.uart0@ == old(self).uart0@,
                        self.capacity == old(self).capacity,
                    decreases self.uart1@.len(),
                {
                    let byte = self.uart1.pop_front().unwrap();
                    out.push(byte);
                }
                assert(out@ =~= start);
            },
        }
        out
    }
}

/// The other UART.
pub open spec fn other_port(port: UartPort) -> UartPort {
    match port {
        UartPort::Uart0 => UartPort::Uart1,
        UartPort::Uart1 => UartPort::Uart0,
    }
}

/// A history of capacity zero keeps nothing it is given.
proof fn lemma_zero_capacity_keeps_nothing(history: Seq<u8>, items: Seq<u8>)
    ensures
        bounded_extend(history, items, 0) == history,
    decreases items.len(),
{
    if items.len() > 0 {
        lemma_zero_capacity_keeps_nothing(history, items.drop_last());
    }
}

/// A host command, without the reply channel of an inspection.
#[derive(Clone, Copy, Debug, PartialEq, Eq, Structural)]
pub enum CommandKind {
    Pause,
    /// Resume, for at most this many instructions when given (nonzero).
    Resume(Option<u64>),
    Reset,
    Shutdown,
    Inspect,
}

/// What the service loop does for a command.
#[derive(Clone, Copy, Debug, PartialEq, Eq, Structural)]
pub enum CommandAction {
    /// The command does not apply in this lifecycle state.
    Ignore,
    /// Flush block media and publish the paused state.
    Pause,
    /// Step past the breakpoint instruction at this address when the PC is
    /// still on it, then publish the running state; a failure there ends
    /// the service.
    Resume { breakpoint: Option<u32> },
    /// Rebuild the machine from its reset state.
    Reset,
    /// Stop the service.
    Shutdown,
    /// Answer the inspection.
    Inspect,
}

/// What ended a batch of guest instructions.
#[derive(Clone, Copy, Debug, PartialEq, Eq, Structural)]
pub enum BatchEnd {
    /// The CPU emulator itself failed.
    EmulatorFailure,
    /// A guest breakpoint instruction at `address`.
    Breakpoint { address: u32 },
    /// The budget ran out, or an exception or CP15 boundary was reached.
    Boundary,
    /// The runtime could not run the batch.
    RuntimeFailure,
}

/// What the service loop does after a batch.
#[derive(Clone, Copy, Debug, PartialEq, Eq, Structural)]
pub enum BatchAction {
    /// Flush, publish the failure and stop.
    Fail,
    /// Publish the breakpoint stop and flush.
    Breakpoint,
    /// Publish that the instruction limit was reached and flush.
    LimitReached,
    /// Publish when a status period has elapsed.
    Continue,
}

/// Whether an input is ordered before another by delivery tick.
pub open spec fn schedule_sorted(s: Seq<ScheduledUartInput>) -> bool {
    forall|i: int, j: int| 0 <= i < j < s.len() ==> s[i].at_tick <= s[j].at_tick
}

/// Delivery order of scheduled inputs: by tick.
pub open spec fn delivered_no_later(a: ScheduledUartInput, b: ScheduledUartInput) -> bool {
    a.at_tick <= b.at_tick
}

/// The service's decision state.
pub struct ServiceState {
    pub lifecycle: LifecycleState,
    pub remaining_instructions: Option<u64>,
    pub pending_breakpoint: Option<u32>,
    pub execution_deadline: Option<u64>,
    pub scheduled_uart: VecDeque<ScheduledUartInput>,
}

/// The service state after `command`, and what the loop does for it.
pub open spec fn command_spec(
    lifecycle: LifecycleState,
    remaining: Option<u64>,
    breakpoint: Option<u32>,
    command: CommandKind,
) -> (LifecycleState, Option<u64>, Option<u32>, CommandAction) {
    match command {
        CommandKind::Pause => if lifecycle == LifecycleState::Running {
            (LifecycleState::Paused, None, breakpoint, CommandAction::Pause)
        } else {
            (lifecycle, remaining, breakpoint, CommandAction::Ignore)
        },
        CommandKind::Resume(limit) => if lifecycle == LifecycleState::Paused {
            (LifecycleState::Running, limit, None, CommandAction::Resume { breakpoint })
        } else {
            (lifecycle, remaining, breakpoint, CommandAction::Ignore)
        },
        CommandKind::Reset => if lifecycle == LifecycleState::Running || lifecycle
            == LifecycleState::Paused {
            (lifecycle, remaining, breakpoint, CommandAction::Reset)
        } else {
            (lifecycle, remaining, breakpoint, CommandAction::Ignore)
        },
        CommandKind::Shutdown => (lifecycle, remaining, breakpoint, CommandAction::Shutdown),
        CommandKind::Inspect => (lifecycle, remaining, breakpoint, CommandAction::Inspect),
    }
}

/// The smaller of two counts.
pub open spec fn min_int(a: int, b: int) -> int {
    if a < b {
        a
    } else {
        b
    }
}

/// The first tick after `now` at which the service must regain control:
/// the execution deadline or the next scheduled UART delivery.
pub open spec fn tick_boundary_spec(deadline: Option<u64>, next_uart: Option<u64>, now: u64) -> Option<u64> {
    let d = match deadline {
        Some(t) => if t > now {
            Some(t)
        } else {
            None
        },
        None => None,
    };
    let u = match next_uart {
        Some(t) => if t > now {
            Some(t)
        } else {
            None
        },
        None => None,
    };
    match (d, u) {
        (Some(a), Some(b)) => Some(if a < b {
            a
        } else {
            b
        }),
        (Some(a), None) => Some(a),
        (None, Some(b)) => Some(b),
        (None, None) => None,
    }
}

/// How many instructions the next batch may run: the batch size, no more
/// than the remaining limit, and no further than the next boundary.
pub open spec fn budget_spec(batch: usize, remaining: Option<u64>, boundary: Option<u64>, now: u64) -> int {
    let limited = match remaining {
        Some(r) => min_int(min_int(r as int, usize::MAX as int), batch as int),
        None => batch as int,
    };
    match boundary {
        Some(b) => min_int(limited, min_int(b - now, usize::MAX as int)),
        None => limited,
    }
}

/// The next batch stops at the earliest future boundary: the boundary is
/// the execution deadline or the first scheduled UART delivery, lies after
/// `now`, and comes no later than either of them that lies after `now`;
/// there is none exactly when neither lies after `now`.
pub proof fn lemma_earliest_boundary(deadline: Option<u64>, next_uart: Option<u64>, now: u64)
    ensures
        tick_boundary_spec(deadline, next_uart, now) matches Some(b) ==> b > now && (deadline == Some(b)
            || next_uart == Some(b)),
        deadline matches Some(d) ==> (d > now ==> (tick_boundary_spec(deadline, next_uart, now) matches Some(b)
            && b <= d)),
        next_uart matches Some(t) ==> (t > now ==> (tick_boundary_spec(deadline, next_uart, now) matches Some(b)
            && b <= t)),
        tick_boundary_spec(deadline, next_uart, now) is None ==> !(deadline matches Some(d) && d > now) && !(
        next_uart matches Some(t) && t > now),
{
}

/// The batch budget is the largest count that fits every limit: it is no
/// more than the batch size, the remaining instruction limit and the ticks
/// left before the boundary, and it equals one of them.
pub proof fn lemma_budget_fits_limits(batch: usize, remaining: Option<u64>, boundary: Option<u64>, now: u64)
    requires
        boundary matches Some(b) ==> b > now,
    ensures
        budget_spec(batch, remaining, boundary, now) <= batch,
        remaining matches Some(r) ==> budget_spec(batch, remaining, boundary, now) <= r,
        boundary matches Some(b) ==> now + budget_spec(batch, remaining, boundary, now) <= b,
        budget_spec(batch, remaining, boundary, now) == batch || remaining == Some(
            budget_spec(batch, remaining, boundary, now) as u64,
        ) || boundary == Some((now + budget_spec(batch, remaining, boundary, now)) as u64),
{
}

impl ServiceState {
    /// A service that starts paused or running, with its inputs ordered by
    /// delivery tick (inputs for the same tick keep their order).
    pub fn new(start_paused: bool, execution_deadline: Option<u64>, scheduled: Vec<ScheduledUartInput>) -> (r: Self)
        ensures
            r.lifecycle == (if start_paused {
                LifecycleState::Paused
            } else {
                LifecycleState::Running
            }),
            r.remaining_instructions is None,
            r.pending_breakpoint is None,
            r.execution_deadline == execution_deadline,
            r.scheduled_uart@ == sort_by(
                scheduled@,
                |a: ScheduledUartInput, b: ScheduledUartInput| delivered_no_later(a, b),
            ),
            r.scheduled_uart@.to_multiset() == scheduled@.to_multiset(),
            schedule_sorted(r.scheduled_uart@),
    {
        let ghost le = |a: ScheduledUartInput, b: ScheduledUartInput| delivered_no_later(a, b);
        let ghost given = scheduled@;
        let mut rest = scheduled;
        let mut sorted: VecDeque<ScheduledUartInput> = VecDeque::new();
        let mut buffer: Vec<ScheduledUartInput> = Vec::new();
        assert(buffer@.to_multiset() =~= Multiset::<ScheduledUartInput>::empty());
        assert(given.take(0) =~= Seq::<ScheduledUartInput>::empty());
        assert(rest@ =~= given.skip(0));
        while rest.len() > 0
            invariant
                buffer@.to_multiset().add(rest@.to_multiset()) == scheduled@.to_multiset(),
                schedule_sorted(buffer@),
                given == scheduled@,
                le == |a: ScheduledUartInput, b: ScheduledUartInput| delivered_no_later(a, b),
                rest@.len() <= given.len(),
                rest@ == given.skip(given.len() - rest@.len()),
                buffer@ == sort_by(given.take(given.len() - rest@.len()), le),
            decreases rest@.len(),
        {
            let ghost k = given.len() - rest@.len();
            let item = rest.remove(0);
            assert(item == given[k]);
            let key = item.at_tick;
            let mut p: usize = 0;
            while p < buffer.len() && buffer[p].at_tick <= key
                invariant
                    p <= buffer@.len(),
                    forall|i: int| 0 <= i < p ==> buffer@[i].at_tick <= key,
                decreases buffer@.len() - p,
            {
                p += 1;
            }
            let ghost before = buffer@;
            buffer.insert(p, item);
            proof {
                assert(rest@ =~= given.skip(k + 1));
                assert(given.take(k + 1).drop_last() =~= given.take(k));
                assert(given.take(k + 1).last() == item);
                assert forall|i: int, j: int| 0 <= i < j < before.len() implies #[trigger] le(before[i], before[j]) by {}
                assert forall|a: ScheduledUartInput, b: ScheduledUartInput, c: ScheduledUartInput|
                    #[trigger] le(a, b) && #[trigger] le(b, c) implies le(a, c) by {}
                assert forall|i: int| 0 <= i < p implies #[trigger] le(before[i], item) by {}
                lemma_insert_ordered(before, item, le, p as int);
                assert(buffer@ =~= before.insert(p as int, item));
                assert forall|i: int, j: int| 0 <= i < j < buffer@.len() implies buffer@[i].at_tick
                    <= buffer@[j].at_tick by {
                    if p < before.len() {
                        assert(before[p as int].at_tick > key);
                    }
                }
                assert(buffer@.to_multiset() =~= before.to_multiset().insert(item));
            }
        }
        assert(rest@.to_multiset() =~= Multiset::<ScheduledUartInput>::empty());
        assert(given.take(given.len() as int) =~= given);
        let ghost ordered = buffer@;
        while buffer.len() > 0
            invariant
                sorted@ + buffer@ == ordered,
            decreases buffer@.len(),
        {
            let item = buffer.remove(0);
            sorted.push_back(item);
        }
        assert(sorted@ =~= ordered);
        ServiceState {
            lifecycle: if start_paused {
                LifecycleState::Paused
            } else {
                LifecycleState::Running
            },
            remaining_instructions: None,
            pending_breakpoint: None,
            execution_deadline,
            scheduled_uart: sorted,
        }
    }

    /// Applies a host command and says what the loop does for it.
    pub fn on_command(&mut self, command: CommandKind) -> (r: CommandAction)
        ensures
            (final(self).lifecycle, final(self).remaining_instructions, final(self).pending_breakpoint, r)
                == command_spec(old(self).lifecycle, old(self).remaining_instructions, old(self).pending_breakpoint, command),
            final(self).execution_deadline == old(self).execution_deadline,
            final(self).scheduled_uart@ == old(self).scheduled_uart@,
    {
        match command {
            CommandKind::Pause => if self.lifecycle == LifecycleState::Running {
                self.lifecycle = LifecycleState::Paused;
                self.remaining_instructions = None;
                CommandAction::Pause
            } else {
                CommandAction::Ignore
            },
            CommandKind::Resume(limit) => if self.lifecycle == LifecycleState::Paused {
                let breakpoint = self.pending_breakpoint;
                self.pending_breakpoint = None;
                self.remaining_instructions = limit;
                self.lifecycle = LifecycleState::Running;
                CommandAction::Resume { breakpoint }
            } else {
                CommandAction::Ignore
            },
            CommandKind::Reset => if self.lifecycle == LifecycleState::Running || self.lifecycle
                == LifecycleState::Paused {
                CommandAction::Reset
            } else {
                CommandAction::Ignore
            },
            CommandKind::Shutdown => CommandAction::Shutdown,
            CommandKind::Inspect => CommandAction::Inspect,
        }
    }

    /// Records a completed reset: no breakpoint is pending any more.
    pub fn on_reset_complete(&mut self)
        ensures
            final(self).pending_breakpoint is None,
            final(self).lifecycle == old(self).lifecycle,
            final(self).remaining_instructions == old(self).remaining_instructions,
            final(self).execution_deadline == old(self).execution_deadline,
            final(self).scheduled_uart@ == old(self).scheduled_uart@,
    {
        self.pending_breakpoint = None;
    }

    /// Takes the scheduled inputs due at `now`, in delivery order.
    pub fn take_due_uart(&mut self, now: u64) -> (r: Vec<ScheduledUartInput>)
        ensures
            old(self).scheduled_uart@ == r@ + final(self).scheduled_uart@,
            forall|i: int| 0 <= i < r@.len() ==> (#[trigger] r@[i]).at_tick <= now,
            final(self).scheduled_uart@.len() > 0 ==> final(self).scheduled_uart@[0].at_tick > now,
            final(self).lifecycle == old(self).lifecycle,
            final(self).remaining_instructions == old(self).remaining_instructions,
            final(self).pending_breakpoint == old(self).pending_breakpoint,
            final(self).execution_deadline == old(self).execution_deadline,
    {
        let mut due: Vec<ScheduledUartInput> = Vec::new();
        let ghost start = self.scheduled_uart@;
        while self.scheduled_uart.len() > 0 && self.scheduled_uart[0].at_tick <= now
            invariant
                start == due@ + self.scheduled_uart@,
                self.lifecycle == old(self).lifecycle,
                self.remaining_instructions == old(self).remaining_instructions,
                self.pending_breakpoint == old(self).pending_breakpoint,
                self.execution_deadline == old(self).execution_deadline,
                forall|i: int| 0 <= i < due@.len() ==> (#[trigger] due@[i]).at_tick <= now,
            decreases self.scheduled_uart@.len(),
        {
            let input = self.scheduled_uart.pop_front().unwrap();
            due.push(input);
            assert(start =~= due@ + self.scheduled_uart@);
        }
        due
    }

    /// Pauses the service when the execution deadline has been reached at
    /// `now`; says whether it was.
    pub fn check_deadline(&mut self, now: u64) -> (r: bool)
        ensures
            r == (old(self).execution_deadline matches Some(d) && now >= d),
            r ==> final(self).lifecycle == LifecycleState::Paused,
            !r ==> final(self).lifecycle == old(self).lifecycle,
            final(self).remaining_instructions == old(self).remaining_instructions,
            final(self).pending_breakpoint == old(self).pending_breakpoint,
            final(self).execution_deadline == old(self).execution_deadline,
            final(self).scheduled_uart@ == old(self).scheduled_uart@,
    {
        let reached = match self.execution_deadline {
            Some(deadline) => now >= deadline,
            None => false,
        };
        if reached {
            self.lifecycle = LifecycleState::Paused;
        }
        reached
    }

    /// The instruction budget of the next batch and the tick at which it
    /// must stop, if any.
    pub fn batch_plan(&self, instruction_batch: usize, now: u64) -> (r: (usize, Option<u64>))
        ensures
            r.1 == tick_boundary_spec(
                self.execution_deadline,
                if self.scheduled_uart@.len() > 0 {
                    Some(self.scheduled_uart@[0].at_tick)
                } else {
                    None
                },
                now,
            ),
            r.0 == budget_spec(instruction_batch, self.remaining_instructions, r.1, now),
    {
        let mut budget = match self.remaining_instructions {
            Some(remaining) => {
                let capped = if remaining > usize::MAX as u64 {
                    usize::MAX
                } else {
                    remaining as usize
                };
                if capped < instruction_batch {
                    capped
                } else {
                    instruction_batch
                }
            },
            None => instruction_batch,
        };
        let deadline = match self.execution_deadline {
            Some(t) => if t > now {
                Some(t)
            } else {
                None
            },
            None => None,
        };
        let next_uart = if self.scheduled_uart.len() > 0 {
            let t = self.scheduled_uart[0].at_tick;
            if t > now {
                Some(t)
            } else {
                None
            }
        } else {
            None
        };
        let boundary = match (deadline, next_uart) {
            (Some(a), Some(b)) => Some(if a < b {
                a
            } else {
                b
            }),
            (Some(a), None) => Some(a),
            (None, Some(b)) => Some(b),
            (None, None) => None,
        };
        if let Some(b) = boundary {
            let distance = b - now;
            let capped = if distance > usize::MAX as u64 {
                usize::MAX
            } else {
                distance as usize
            };
            if capped < budget {
                budget = capped;
            }
        }
        (budget, boundary)
    }

    /// Charges `executed` instructions to a bounded run; says whether its
    /// limit is now used up.
    pub fn account_batch(&mut self, executed: u64) -> (r: bool)
        ensures
            match old(self).remaining_instructions {
                Some(remaining) => {
                    let left = if executed > remaining {
                        0
                    } else {
                        remaining - executed
                    };
                    final(self).remaining_instructions == Some(left as u64) && r == (left == 0)
                },
                None => final(self).remaining_instructions is None && !r,
            },
            final(self).lifecycle == old(self).lifecycle,
            final(self).pending_breakpoint == old(self).pending_breakpoint,
            final(self).execution_deadline == old(self).execution_deadline,
            final(self).scheduled_uart@ == old(self).scheduled_uart@,
    {
        match self.remaining_instructions {
            Some(remaining) => {
                let left = if executed > remaining {
                    0
                } else {
                    remaining - executed
                };
                self.remaining_instructions = Some(left);
                left == 0
            },
            None => false,
        }
    }

    /// Applies how a batch ended: failures end the service, a breakpoint
    /// pauses it with the breakpoint pending, and a used-up limit pauses it.
    pub fn on_batch_end(&mut self, end: BatchEnd, limit_reached: bool) -> (r: BatchAction)
        ensures
            match end {
                BatchEnd::EmulatorFailure | BatchEnd::RuntimeFailure => r == BatchAction::Fail
                    && final(self).lifecycle == old(self).lifecycle
                    && final(self).remaining_instructions == old(self).remaining_instructions
                    && final(self).pending_breakpoint == old(self).pending_breakpoint,
                BatchEnd::Breakpoint { address } => r == BatchAction::Breakpoint
                    && final(self).lifecycle == LifecycleState::Paused
                    && final(self).remaining_instructions is None
                    && final(self).pending_breakpoint == Some(address),
                BatchEnd::Boundary => if limit_reached {
                    r == BatchAction::LimitReached && final(self).lifecycle == LifecycleState::Paused
                        && final(self).remaining_instructions is None
                        && final(self).pending_breakpoint == old(self).pending_breakpoint
                } else {
                    r == BatchAction::Continue && final(self).lifecycle == old(self).lifecycle
                        && final(self).remaining_instructions == old(self).remaining_instructions
                        && final(self).pending_breakpoint == old(self).pending_breakpoint
                },
            },
            final(self).execution_deadline == old(self).execution_deadline,
            final(self).scheduled_uart@ == old(self).scheduled_uart@,
    {
        match end {
            BatchEnd::EmulatorFailure | BatchEnd::RuntimeFailure => BatchAction::Fail,
            BatchEnd::Breakpoint { address } => {
                self.lifecycle = LifecycleState::Paused;
                self.remaining_instructions = None;
                self.pending_breakpoint = Some(address);
                BatchAction::Breakpoint
            },
            BatchEnd::Boundary => if limit_reached {
                self.lifecycle = LifecycleState::Paused;
                self.remaining_instructions = None;
                BatchAction::LimitReached
            } else {
                BatchAction::Continue
            },
        }
    }
}

/// The bytes of optional media.
pub open spec fn media_bytes(media: Option<Vec<u8>>) -> Option<Seq<u8>> {
    match media {
        Some(m) => Some(m@),
        None => None,
    }
}

/// The block device after attaching `media` to `unit`, when there is media.
pub open spec fn with_media(block: BlockView, unit: int, media: Option<Seq<u8>>) -> BlockView {
    match media {
        None => block,
        Some(m) => block_signaled(
            BlockView {
                media: block.media.update(unit, Some(m)),
                dirty: block.dirty.update(unit, Set::<u64>::empty()),
                ..block
            },
        ),
    }
}

/// RAM after `writes` in order, or the error of the first refused write.
pub open spec fn ram_after_writes(ram: Seq<u8>, writes: Seq<(PhysicalAddress, Vec<u8>)>) -> Result<
    Seq<u8>,
>
    decreases writes.len(),
{
    if writes.len() == 0 {
        Ok(ram)
    } else {
        match ram_after_writes(ram, writes.drop_last()) {
            Err(e) => Err(e),
            Ok(before) => match ram_write_target(
                writes.last().0.0,
                writes.last().1@.len() as int,
                before.len() as int,
            ) {
                Err(e) => Err(e),
                Ok(offset) => Ok(splice(before, offset, writes.last().1@)),
            },
        }
    }
}

/// A fresh machine from `source`'s reset state with the given media
/// attached (filesystem unit first) and the initial RAM writes applied in
/// order.
pub fn configured_machine(
    source: &Machine,
    filesystem_media: Option<Vec<u8>>,
    swap_media: Option<Vec<u8>>,
    initial_ram_writes: &Vec<(PhysicalAddress, Vec<u8>)>,
) -> (r: Result<Machine>)
    requires
        source.wf(),
        source.bus.block.units_wf(),
    ensures
        ({
            let media = source.bus.block@.media;
            let zero_ram = Seq::new(source.memory.ram_view().len(), |i: int| 0u8);
            let fs = media_bytes(filesystem_media);
            let swap = media_bytes(swap_media);
            if !media_attachable(media[0]) {
                r matches Err(CoreError::InvalidBlockMedia { unit }) && unit == 0
            } else if !media_attachable(media[1]) {
                r matches Err(CoreError::InvalidBlockMedia { unit }) && unit == 1
            } else if !media_attachable(fs) {
                r matches Err(CoreError::InvalidBlockMedia { unit }) && unit == UNIT_FILESYSTEM
            } else if !media_attachable(swap) {
                r matches Err(CoreError::InvalidBlockMedia { unit }) && unit == UNIT_SWAP
            } else {
                match ram_after_writes(zero_ram, initial_ram_writes@) {
                    Err(e) => r == Err::<Machine, CoreError>(e),
                    Ok(ram) => r matches Ok(m) && m.wf() && m.machine_view() == MachineView {
                        ram,
                        bus: BusView {
                            block: with_media(
                                with_media(reset_block(media), UNIT_FILESYSTEM as int, fs),
                                UNIT_SWAP as int,
                                swap,
                            ),
                            ..reset_bus()
                        },
                        mmu: reset_mmu(),
                        ticks: 0,
                        events: Seq::empty(),
                        ..source.machine_view()
                    },
                }
            }
        }),
{
    let ghost fs = media_bytes(filesystem_media);
    let ghost swap = media_bytes(swap_media);
    let mut machine = source.reset_clone()?;
    let ghost reset_view = machine.machine_view();
    assert(reset_view.ram =~= Seq::new(source.memory.ram_view().len(), |k: int| 0u8));
    if let Some(media) = filesystem_media {
        machine.bus.block.update(BlockUpdate::Attach { unit: UNIT_FILESYSTEM, media })?;
    }
    if let Some(media) = swap_media {
        machine.bus.block.update(BlockUpdate::Attach { unit: UNIT_SWAP, media })?;
    }
    let ghost attached_view = machine.machine_view();
    let n = initial_ram_writes.len();
    let mut i: usize = 0;
    while i < n
        invariant
            i <= n,
            n == initial_ram_writes@.len(),
            machine.wf(),
            ram_after_writes(reset_view.ram, initial_ram_writes@.take(i as int)) == Ok::<
                Seq<u8>,
                CoreError,
            >(machine.memory.ram_view()),
            machine.machine_view() == (MachineView { ram: machine.memory.ram_view(), ..attached_view }),
            reset_view.ram == Seq::new(source.memory.ram_view().len(), |k: int| 0u8),
            media_attachable(source.bus.block@.media[0]),
            media_attachable(source.bus.block@.media[1]),
            media_attachable(fs),
            media_attachable(swap),
            fs == media_bytes(filesystem_media),
            swap == media_bytes(swap_media),
        decreases n - i,
    {
        proof {
            assert(initial_ram_writes@.take(i + 1).drop_last() =~= initial_ram_writes@.take(i as int));
        }
        let written = machine.memory.write_range(
            initial_ram_writes[i].0,
            initial_ram_writes[i].1.as_slice(),
        );
        match written {
            Ok(()) => {},
            Err(e) => {
                proof {
                    let prefix = initial_ram_writes@.take(i + 1);
                    assert(prefix.last() == initial_ram_writes@[i as int]);
                    assert(ram_after_writes(reset_view.ram, prefix) == Err::<Seq<u8>, CoreError>(e));
                    lemma_writes_fail_after(reset_view.ram, initial_ram_writes@, i as int + 1);
                }
                return Err(e);
            },
        }
        i += 1;
    }
    proof {
        assert(initial_ram_writes@.take(n as int) =~= initial_ram_writes@);
    }
    Ok(machine)
}

/// Once a prefix of the writes fails, every longer prefix fails the same way.
proof fn lemma_writes_fail_after(ram: Seq<u8>, writes: Seq<(PhysicalAddress, Vec<u8>)>, k: int)
    requires
        0 <= k <= writes.len(),
        ram_after_writes(ram, writes.take(k)) is Err,
    ensures
        ram_after_writes(ram, writes) == ram_after_writes(ram, writes.take(k)),
    decreases writes.len() - k,
{
    if k < writes.len() {
        assert(writes.take(k + 1).drop_last() =~= writes.take(k));
        lemma_writes_fail_after(ram, writes, k + 1);
    } else {
        assert(writes.take(k) =~= writes);
    }
}

} // verus!
