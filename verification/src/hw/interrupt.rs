use vstd::prelude::*;

use crate::platform::observability::InterruptInspection;
use crate::platform::peripheral::Peripheral;
use crate::platform::peripherals::interrupt::{
    DEFAULT_PRIORITY_BLOCK, DEFAULT_PRIORITY_SYSTICK, DEFAULT_PRIORITY_UART0,
    DEFAULT_PRIORITY_UART1, Register, Source, source_bit, source_id,
};

use super::error::{CoreError, Result};

verus! {

/// One state-changing interrupt-controller input.
pub enum InterruptUpdate {
    Write { register: Register, value: u32 },
}

/// A level transition sent from a peripheral to the interrupt controller.
#[derive(Clone, Copy, Debug, PartialEq, Eq, Structural)]
pub struct InterruptSignal {
    pub source: Source,
    pub pending: bool,
}

/// Abstract interrupt-controller state.
pub struct InterruptView {
    /// Level transitions received but not yet applied, oldest first.
    pub inbox: Seq<InterruptSignal>,
    pub pending: u32,
    pub enabled: u32,
    /// Priorities of SysTick, UART0, UART1 and block, in source-ID order.
    pub priorities: Seq<u8>,
    pub claim: Option<Source>,
}

/// The PENDING bitmap after applying `signals` in order: each signal sets
/// or clears its source's bit.
pub open spec fn apply_signals(pending: u32, signals: Seq<InterruptSignal>) -> u32
    decreases signals.len(),
{
    if signals.len() == 0 {
        pending
    } else {
        let before = apply_signals(pending, signals.drop_last());
        let s = signals.last();
        if s.pending {
            before | source_bit(s.source)
        } else {
            before & !source_bit(s.source)
        }
    }
}

/// The priority of a source.
pub open spec fn priority_of(priorities: Seq<u8>, source: Source) -> u8 {
    priorities[source_id(source) as int]
}

/// Whether `a` is served before `b`: lower priority value first, then lower
/// source ID.
pub open spec fn served_before(priorities: Seq<u8>, a: Source, b: Source) -> bool {
    priority_of(priorities, a) < priority_of(priorities, b) || (priority_of(priorities, a)
        == priority_of(priorities, b) && source_id(a) < source_id(b))
}

/// The best candidate after also considering `source`.
pub open spec fn consider(
    best: Option<Source>,
    source: Source,
    ready: u32,
    priorities: Seq<u8>,
) -> Option<Source> {
    if ready & source_bit(source) == 0 {
        best
    } else {
        match best {
            None => Some(source),
            Some(b) => if served_before(priorities, source, b) {
                Some(source)
            } else {
                best
            },
        }
    }
}

/// The source a new claim selects among the `ready` (pending and enabled)
/// sources.
pub open spec fn claim_choice(ready: u32, priorities: Seq<u8>) -> Option<Source> {
    consider(
        consider(
            consider(consider(None, Source::SysTick, ready, priorities), Source::Uart0, ready, priorities),
            Source::Uart1,
            ready,
            priorities,
        ),
        Source::Block,
        ready,
        priorities,
    )
}

/// A new claim is ready, and no ready source is served before it; when no
/// source is ready there is no claim.
pub proof fn lemma_claim_choice_is_first_served(ready: u32, priorities: Seq<u8>)
    ensures
        match claim_choice(ready, priorities) {
            Some(s) => ready & source_bit(s) != 0 && forall|t: Source|
                ready & source_bit(t) != 0 ==> !served_before(priorities, t, s),
            None => forall|t: Source| ready & source_bit(t) == 0,
        },
{
    match claim_choice(ready, priorities) {
        Some(s) => {
            assert forall|t: Source| ready & source_bit(t) != 0 implies !served_before(
                priorities,
                t,
                s,
            ) by {
                match t {
                    Source::SysTick => {},
                    Source::Uart0 => {},
                    Source::Uart1 => {},
                    Source::Block => {},
                }
            }
        },
        None => {
            assert forall|t: Source| ready & source_bit(t) == 0 by {
                match t {
                    Source::SysTick => {},
                    Source::Uart0 => {},
                    Source::Uart1 => {},
                    Source::Block => {},
                }
            }
        },
    }
}

/// Deterministic interrupt-controller state independent of CPU delivery.
/// Whether inspection `r` reports the state `v`.
pub open spec fn interrupts_inspected(r: InterruptInspection, v: InterruptView) -> bool {
    &&& r.pending == v.pending
    &&& r.enabled == v.enabled
    &&& r.claim == (match v.claim { Some(s) => Some(source_id(s)), None => None })
    &&& r.priorities@ == v.priorities
}

pub struct InterruptController {
    inbox: Vec<InterruptSignal>,
    pending: u32,
    enabled: u32,
    priorities: [u8; 4],
    claim: Option<Source>,
}

impl View for InterruptController {
    type V = InterruptView;

    closed spec fn view(&self) -> InterruptView {
        InterruptView {
            inbox: self.inbox@,
            pending: self.pending,
            enabled: self.enabled,
            priorities: self.priorities@,
            claim: self.claim,
        }
    }
}

/// Controller state after applying every received signal.
pub open spec fn processed(v: InterruptView) -> InterruptView {
    InterruptView { inbox: Seq::empty(), pending: apply_signals(v.pending, v.inbox), ..v }
}

/// Controller state after a claim: received signals are applied and a
/// claim, once made, is retained until its EOI.
pub open spec fn after_claim(v: InterruptView) -> InterruptView {
    let p = processed(v);
    if p.claim is Some {
        p
    } else {
        InterruptView { claim: claim_choice(p.pending & p.enabled, p.priorities), ..p }
    }
}

/// Controller state after an EOI naming `source`, or the error it raises.
pub open spec fn eoi_spec(v: InterruptView, source: u32) -> core::result::Result<
    InterruptView,
    CoreError,
> {
    match v.claim {
        None => Err(CoreError::InvalidEoi { expected: u32::MAX, actual: source }),
        Some(c) => if source_id(c) != source {
            Err(CoreError::InvalidEoi { expected: source_id(c), actual: source })
        } else {
            Ok(InterruptView { claim: None, ..v })
        },
    }
}

/// The source ID of an optional claim, or `u32::MAX` when there is none.
pub open spec fn claim_register(claim: Option<Source>) -> u32 {
    match claim {
        Some(s) => source_id(s),
        None => u32::MAX,
    }
}

/// Controller state and value of a guest read of `register`.
pub open spec fn read_spec(v: InterruptView, register: Register) -> (InterruptView, u32) {
    match register {
        Register::Pending => (processed(v), processed(v).pending),
        Register::Enable => (v, v.enabled),
        Register::Claim => (after_claim(v), claim_register(after_claim(v).claim)),
        Register::PrioritySysTick => (v, priority_of(v.priorities, Source::SysTick) as u32),
        Register::PriorityUart0 => (v, priority_of(v.priorities, Source::Uart0) as u32),
        Register::PriorityUart1 => (v, priority_of(v.priorities, Source::Uart1) as u32),
        Register::PriorityBlock => (v, priority_of(v.priorities, Source::Block) as u32),
        Register::Eoi => (v, 0),
    }
}

/// Controller state after a guest write of `value` to `register`, or the
/// error it raises.
pub open spec fn write_spec(v: InterruptView, register: Register, value: u32) -> core::result::Result<
    InterruptView,
    CoreError,
> {
    match register {
        Register::Enable => Ok(InterruptView { enabled: value & 0x0f, ..v }),
        Register::Eoi => eoi_spec(v, value),
        Register::PrioritySysTick => Ok(
            InterruptView { priorities: v.priorities.update(0, value as u8), ..v },
        ),
        Register::PriorityUart0 => Ok(
            InterruptView { priorities: v.priorities.update(1, value as u8), ..v },
        ),
        Register::PriorityUart1 => Ok(
            InterruptView { priorities: v.priorities.update(2, value as u8), ..v },
        ),
        Register::PriorityBlock => Ok(
            InterruptView { priorities: v.priorities.update(3, value as u8), ..v },
        ),
        _ => Ok(v),
    }
}

impl InterruptController {
    /// Reset state: nothing pending, enabled or claimed, default priorities.
    pub open spec fn new_spec() -> InterruptView {
        InterruptView {
            inbox: Seq::empty(),
            pending: 0,
            enabled: 0,
            priorities: seq![
                DEFAULT_PRIORITY_SYSTICK,
                DEFAULT_PRIORITY_UART0,
                DEFAULT_PRIORITY_UART1,
                DEFAULT_PRIORITY_BLOCK,
            ],
            claim: None,
        }
    }

    pub fn new() -> (r: Self)
        ensures
            r@ == Self::new_spec(),
    {
        let r = InterruptController {
            inbox: Vec::new(),
            pending: 0,
            enabled: 0,
            priorities: [
                DEFAULT_PRIORITY_SYSTICK,
                DEFAULT_PRIORITY_UART0,
                DEFAULT_PRIORITY_UART1,
                DEFAULT_PRIORITY_BLOCK,
            ],
            claim: None,
        };
        assert(r@.priorities =~= seq![
            DEFAULT_PRIORITY_SYSTICK,
            DEFAULT_PRIORITY_UART0,
            DEFAULT_PRIORITY_UART1,
            DEFAULT_PRIORITY_BLOCK,
        ]);
        r
    }

    pub fn enabled(&self) -> (r: u32)
        ensures
            r == self@.enabled,
    {
        self.enabled
    }

    /// Queues one level transition from a peripheral.
    pub fn signal(&mut self, signal: InterruptSignal)
        ensures
            final(self)@ == (InterruptView { inbox: old(self)@.inbox.push(signal), ..old(self)@ }),
    {
        self.inbox.push(signal);
    }

    /// Queues level transitions from a peripheral, oldest first.
    pub fn receive(&mut self, signals: Vec<InterruptSignal>)
        ensures
            final(self)@ == (InterruptView { inbox: old(self)@.inbox + signals@, ..old(self)@ }),
    {
        let mut i: usize = 0;
        while i < signals.len()
            invariant
                i <= signals@.len(),
                self@ == (InterruptView {
                    inbox: old(self)@.inbox + signals@.subrange(0, i as int),
                    ..old(self)@
                }),
            decreases signals@.len() - i,
        {
            self.inbox.push(signals[i]);
            i += 1;
            assert(self@.inbox =~= old(self)@.inbox + signals@.subrange(0, i as int));
        }
        assert(signals@.subrange(0, signals@.len() as int) =~= signals@);
    }

    /// Drains queued peripheral level transitions into the controller-owned bitmap.
    pub fn process_signals(&mut self)
        ensures
            final(self)@ == processed(old(self)@),
    {
        let mut i: usize = 0;
        while i < self.inbox.len()
            invariant
                i <= self.inbox@.len(),
                self.inbox@ == old(self)@.inbox,
                self.pending == apply_signals(old(self)@.pending, self.inbox@.subrange(0, i as int)),
                self.enabled == old(self)@.enabled,
                self.priorities@ == old(self)@.priorities,
                self.claim == old(self)@.claim,
            decreases self.inbox@.len() - i,
        {
            let signal = self.inbox[i];
            proof {
                let prefix = self.inbox@.subrange(0, i + 1);
                assert(prefix.drop_last() =~= self.inbox@.subrange(0, i as int));
                assert(prefix.last() == signal);
            }
            if signal.pending {
                self.pending = self.pending | signal.source.bit();
            } else {
                self.pending = self.pending & !signal.source.bit();
            }
            i += 1;
        }
        assert(self.inbox@.subrange(0, self.inbox@.len() as int) =~= self.inbox@);
        self.inbox.clear();
        assert(self@ == processed(old(self)@));
    }

    pub fn pending(&mut self) -> (r: u32)
        ensures
            final(self)@ == processed(old(self)@),
            r == final(self)@.pending,
    {
        self.process_signals();
        self.pending
    }

    fn set_enabled(&mut self, enabled: u32)
        ensures
            final(self)@ == (InterruptView { enabled: enabled & 0x0f, ..old(self)@ }),
    {
        self.enabled = enabled & 0x0f;
    }

    pub fn priority(&self, source: Source) -> (r: u8)
        ensures
            r == priority_of(self@.priorities, source),
    {
        self.priorities[source.id() as usize]
    }

    fn set_priority(&mut self, source: Source, priority: u8)
        ensures
            final(self)@ == (InterruptView {
                priorities: old(self)@.priorities.update(source_id(source) as int, priority),
                ..old(self)@
            }),
    {
        self.priorities[source.id() as usize] = priority;
    }

    fn consider(&self, best: Option<Source>, source: Source, ready: u32) -> (r: Option<Source>)
        ensures
            r == consider(best, source, ready, self@.priorities),
    {
        if ready & source.bit() == 0 {
            return best;
        }
        match best {
            None => Some(source),
            Some(b) => {
                let (ps, pb) = (self.priority(source), self.priority(b));
                if ps < pb || (ps == pb && source.id() < b.id()) {
                    Some(source)
                } else {
                    best
                }
            },
        }
    }

    /// Returns and retains the active source until matching EOI.
    pub fn claim(&mut self) -> (r: Option<Source>)
        ensures
            final(self)@ == after_claim(old(self)@),
            r == final(self)@.claim,
    {
        self.process_signals();
        if self.claim.is_none() {
            let ready = self.pending & self.enabled;
            let mut best = self.consider(None, Source::SysTick, ready);
            best = self.consider(best, Source::Uart0, ready);
            best = self.consider(best, Source::Uart1, ready);
            best = self.consider(best, Source::Block, ready);
            self.claim = best;
        }
        self.claim
    }

    pub fn claimed(&self) -> (r: Option<Source>)
        ensures
            r == self@.claim,
    {
        self.claim
    }

    /// Ends the active claim when `source` names it.
    pub fn eoi(&mut self, source: u32) -> (r: Result<()>)
        ensures
            match eoi_spec(old(self)@, source) {
                Ok(v) => r is Ok && final(self)@ == v,
                Err(e) => r matches Err(re) && re == e && final(self)@ == old(self)@,
            },
    {
        let expected = match self.claim {
            Some(claim) => claim.id(),
            None => return Err(CoreError::InvalidEoi { expected: u32::MAX, actual: source }),
        };
        if source != expected {
            return Err(CoreError::InvalidEoi { expected, actual: source });
        }
        self.claim = None;
        Ok(())
    }

    /// Performs a guest read of `register`.
    pub fn read_register(&mut self, register: Register) -> (r: u32)
        ensures
            (final(self)@, r) == read_spec(old(self)@, register),
    {
        match register {
            Register::Pending => self.pending(),
            Register::Enable => self.enabled(),
            Register::Claim => match self.claim() {
                Some(source) => source.id(),
                None => u32::MAX,
            },
            Register::PrioritySysTick => self.priority(Source::SysTick) as u32,
            Register::PriorityUart0 => self.priority(Source::Uart0) as u32,
            Register::PriorityUart1 => self.priority(Source::Uart1) as u32,
            Register::PriorityBlock => self.priority(Source::Block) as u32,
            Register::Eoi => 0,
        }
    }

    /// Performs a guest write of `value` to `register`.
    pub fn write_register(&mut self, register: Register, value: u32) -> (r: Result<()>)
        ensures
            match write_spec(old(self)@, register, value) {
                Ok(v) => r is Ok && final(self)@ == v,
                Err(e) => r matches Err(re) && re == e && final(self)@ == old(self)@,
            },
    {
        match register {
            Register::Enable => {
                self.set_enabled(value);
                Ok(())
            },
            Register::Eoi => self.eoi(value),
            Register::PrioritySysTick => {
                self.set_priority(Source::SysTick, value as u8);
                Ok(())
            },
            Register::PriorityUart0 => {
                self.set_priority(Source::Uart0, value as u8);
                Ok(())
            },
            Register::PriorityUart1 => {
                self.set_priority(Source::Uart1, value as u8);
                Ok(())
            },
            Register::PriorityBlock => {
                self.set_priority(Source::Block, value as u8);
                Ok(())
            },
            _ => Ok(()),
        }
    }

    /// Returns the observable controller state.
    pub fn inspect(&self) -> (r: InterruptInspection)
        ensures
            interrupts_inspected(r, self@),
    {
        InterruptInspection {
            pending: self.pending,
            enabled: self.enabled,
            claim: match self.claim {
                Some(source) => Some(source.id()),
                None => None,
            },
            priorities: self.priorities,
        }
    }
}

/// A claim is retained: once a source is claimed, later claims return it
/// until an EOI ends it, whatever signals arrive meanwhile.
pub proof fn lemma_claim_retained(v: InterruptView)
    requires
        v.claim is Some,
    ensures
        after_claim(v).claim == v.claim,
{
}

/// An EOI naming the claimed source ends the claim; any other EOI is
/// refused.
pub proof fn lemma_eoi_requires_claim(v: InterruptView, source: u32)
    ensures
        eoi_spec(v, source) is Ok <==> (v.claim is Some && source_id(v.claim->0) == source),
        eoi_spec(v, source) is Ok ==> eoi_spec(v, source)->Ok_0.claim is None,
{
}

impl Peripheral for InterruptController {
    type Register = Register;

    type Update = InterruptUpdate;

    type Inspection = InterruptInspection;

    type Error = CoreError;

    open spec fn update_allowed(&self, update: &InterruptUpdate) -> bool {
        true
    }

    fn read(&mut self, register: Register) -> (r: Result<u32>)
        ensures
            r == Ok::<u32, CoreError>(read_spec(old(self)@, register).1),
            final(self)@ == read_spec(old(self)@, register).0,
    {
        Ok(self.read_register(register))
    }

    fn update(&mut self, update: InterruptUpdate) -> (r: Result<()>)
        ensures
            match update {
                InterruptUpdate::Write { register, value } => match write_spec(old(self)@, register, value) {
                    Ok(v) => r is Ok && final(self)@ == v,
                    Err(e) => r matches Err(re) && re == e && final(self)@ == old(self)@,
                },
            },
    {
        let InterruptUpdate::Write { register, value } = update;
        self.write_register(register, value)
    }

    fn inspect(&self) -> (r: InterruptInspection)
        ensures
            interrupts_inspected(r, self@),
    {
        InterruptController::inspect(self)
    }
}

} // verus!
