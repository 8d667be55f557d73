use vstd::prelude::*;

use std::collections::VecDeque;

use crate::platform::observability::TraceInspectionEvent;
use crate::platform::peripheral::Peripheral;
use crate::platform::peripherals::trace::Register;

use super::bounded::{bounded_extend, bounded_push, push_bounded, lemma_bounded_push};
use super::error::{CoreError, Result};

verus! {

/// One state-changing trace-device input.
pub enum TraceUpdate {
    Write { register: Register, value: u32 },
}

/// One committed guest trace event.
#[derive(Clone, Copy, Debug, PartialEq, Eq, Structural)]
pub struct TraceEvent {
    pub tick: u64,
    pub value: u32,
}

/// Abstract trace-device state.
pub struct TraceView {
    pub staged: Seq<u32>,
    pub events: Seq<TraceEvent>,
    pub capacity: nat,
}

/// Staged values stamped with the retirement tick.
pub open spec fn stamped(values: Seq<u32>, tick: u64) -> Seq<TraceEvent> {
    Seq::new(values.len(), |i: int| TraceEvent { tick, value: values[i] })
}

/// The events a retirement at `tick` commits.
pub open spec fn committed(v: TraceView, tick: u64) -> Seq<TraceEvent> {
    if v.capacity == 0 {
        Seq::empty()
    } else {
        stamped(v.staged, tick)
    }
}

/// Trace state after the issuing instruction retires at `tick`.
pub open spec fn after_retire(v: TraceView, tick: u64) -> TraceView {
    TraceView {
        staged: Seq::empty(),
        events: bounded_extend(v.events, stamped(v.staged, tick), v.capacity),
        capacity: v.capacity,
    }
}

/// Bounded trace state. Writes are staged until the issuing instruction retires.
/// Whether inspection `r` reports the state `v`.
pub open spec fn trace_inspected(r: Seq<TraceInspectionEvent>, v: TraceView) -> bool {
    &&& r.len() == v.events.len()
    &&& forall|i: int| 0 <= i < r.len() ==> r[i] == (TraceInspectionEvent { tick: v.events[i].tick, value: v.events[i].value })
}

pub struct TraceDevice {
    staged: Vec<u32>,
    events: VecDeque<TraceEvent>,
    capacity: usize,
}

impl View for TraceDevice {
    type V = TraceView;

    closed spec fn view(&self) -> TraceView {
        TraceView { staged: self.staged@, events: self.events@, capacity: self.capacity as nat }
    }
}

/// A bounded history extended by any items still respects its capacity.
pub proof fn lemma_bounded_extend_len<T>(history: Seq<T>, items: Seq<T>, capacity: nat)
    requires
        history.len() <= capacity,
    ensures
        bounded_extend(history, items, capacity).len() <= capacity,
    decreases items.len(),
{
    if items.len() > 0 {
        lemma_bounded_extend_len(history, items.drop_last(), capacity);
        lemma_bounded_push(
            bounded_extend(history, items.drop_last(), capacity),
            items.last(),
            capacity,
        );
    }
}

impl TraceDevice {
    /// Whether the history respects its capacity.
    pub open spec fn bounded(&self) -> bool {
        self@.events.len() <= self@.capacity
    }

    pub fn new(capacity: usize) -> (r: Self)
        ensures
            r@ == (TraceView { staged: Seq::empty(), events: Seq::empty(), capacity: capacity as nat }),
            r.bounded(),
    {
        TraceDevice { staged: Vec::new(), events: VecDeque::with_capacity(capacity), capacity }
    }

    /// Stages one guest trace value until its instruction retires.
    pub fn stage(&mut self, value: u32)
        ensures
            final(self)@ == (TraceView { staged: old(self)@.staged.push(value), ..old(self)@ }),
    {
        self.staged.push(value);
    }

    /// Commits staged values at `tick`, keeping only the newest `capacity`
    /// events, and returns the committed events.
    pub fn retire(&mut self, tick: u64) -> (r: Vec<TraceEvent>)
        ensures
            r@ == committed(old(self)@, tick),
            final(self)@ == after_retire(old(self)@, tick),
            old(self).bounded() ==> final(self).bounded(),
    {
        let mut staged = Vec::new();
        std::mem::swap(&mut staged, &mut self.staged);
        let mut out: Vec<TraceEvent> = Vec::with_capacity(staged.len());
        let ghost events0 = self.events@;
        let mut i: usize = 0;
        while i < staged.len()
            invariant
                i <= staged@.len(),
                staged@ == old(self)@.staged,
                self.capacity == old(self).capacity,
                self.staged@ == Seq::<u32>::empty(),
                events0 == old(self)@.events,
                self.events@ == bounded_extend(
                    events0,
                    stamped(staged@.subrange(0, i as int), tick),
                    self.capacity as nat,
                ),
                out@ == if self.capacity == 0 {
                    Seq::<TraceEvent>::empty()
                } else {
                    stamped(staged@.subrange(0, i as int), tick)
                },
            decreases staged@.len() - i,
        {
            let event = TraceEvent { tick, value: staged[i] };
            proof {
                let next = stamped(staged@.subrange(0, i + 1), tick);
                assert(next.drop_last() =~= stamped(staged@.subrange(0, i as int), tick));
                assert(next.last() == event);
            }
            if self.capacity != 0 {
                push_bounded(&mut self.events, event, self.capacity);
                out.push(event);
            }
            i += 1;
            proof {
                assert(out@ =~= if self.capacity == 0 {
                    Seq::<TraceEvent>::empty()
                } else {
                    stamped(staged@.subrange(0, i as int), tick)
                });
            }
        }
        assert(staged@.subrange(0, staged@.len() as int) =~= staged@);
        proof {
            if old(self).bounded() {
                lemma_bounded_extend_len(events0, stamped(staged@, tick), self.capacity as nat);
            }
        }
        out
    }

    /// Returns the committed events, oldest first.
    pub fn events(&self) -> (r: Vec<TraceEvent>)
        ensures
            r@ == self@.events,
    {
        let mut out = Vec::new();
        let mut i: usize = 0;
        while i < self.events.len()
            invariant
                i <= self.events@.len(),
                out@ == self.events@.subrange(0, i as int),
            decreases self.events@.len() - i,
        {
            out.push(self.events[i]);
            i += 1;
            assert(out@ =~= self.events@.subrange(0, i as int));
        }
        assert(self.events@.subrange(0, self.events@.len() as int) =~= self.events@);
        out
    }

    pub fn inspect(&self) -> (r: Vec<TraceInspectionEvent>)
        ensures
            trace_inspected(r@, self@),
    {
        let mut out = Vec::new();
        let mut i: usize = 0;
        while i < self.events.len()
            invariant
                i <= self.events@.len(),
                out@.len() == i,
                forall|j: int|
                    0 <= j < i ==> out@[j] == (TraceInspectionEvent {
                        tick: self@.events[j].tick,
                        value: self@.events[j].value,
                    }),
            decreases self.events@.len() - i,
        {
            let event = self.events[i];
            out.push(TraceInspectionEvent { tick: event.tick, value: event.value });
            i += 1;
        }
        out
    }
}

impl Peripheral for TraceDevice {
    type Register = Register;

    type Update = TraceUpdate;

    type Inspection = Vec<TraceInspectionEvent>;

    type Error = CoreError;

    open spec fn update_allowed(&self, update: &TraceUpdate) -> bool {
        true
    }

    /// The trace register is write-only and reads as zero.
    fn read(&mut self, register: Register) -> (r: Result<u32>)
        ensures
            r == Ok::<u32, CoreError>(0),
            final(self)@ == old(self)@,
    {
        Ok(0)
    }

    fn update(&mut self, update: TraceUpdate) -> (r: Result<()>)
        ensures
            r is Ok,
            match update {
                TraceUpdate::Write { register, value } => final(self)@ == (TraceView { staged: old(self)@.staged.push(value), ..old(self)@ }),
            },
    {
        let TraceUpdate::Write { register, value } = update;
        self.stage(value);
        Ok(())
    }

    fn inspect(&self) -> (r: Vec<TraceInspectionEvent>)
        ensures
            trace_inspected(r@, self@),
    {
        TraceDevice::inspect(self)
    }
}

impl Default for TraceDevice {
    fn default() -> (r: Self)
        ensures
            r@ == (TraceView { staged: Seq::empty(), events: Seq::empty(), capacity: 4096 }),
    {
        TraceDevice::new(4096)
    }
}

} // verus!
