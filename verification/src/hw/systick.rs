use vstd::prelude::*;

use crate::platform::observability::SysTickInspection;
use crate::platform::peripheral::Peripheral;
use crate::platform::peripherals::interrupt::Source;
use crate::platform::peripherals::systick::Register;

use super::error::{CoreError, Result};
use super::interrupt::InterruptSignal;

verus! {

/// One state-changing SysTick input.
pub enum SysTickUpdate {
    Write { register: Register, value: u32, now: u64 },
    AdvanceTo(u64),
}

/// Abstract SysTick state.
pub struct SysTickView {
    pub period: u32,
    pub enabled: bool,
    pub periodic: bool,
    pub irq_enabled: bool,
    pub pending: bool,
    pub next_deadline: Option<u64>,
    /// Level transitions raised but not yet delivered, oldest first.
    pub outbox: Seq<InterruptSignal>,
}

/// The CONTROL register: enable, periodic and interrupt-enable bits.
pub open spec fn control_value(v: SysTickView) -> u32 {
    ((if v.enabled {
        1u32
    } else {
        0u32
    }) + (if v.periodic {
        2u32
    } else {
        0u32
    }) + (if v.irq_enabled {
        4u32
    } else {
        0u32
    })) as u32
}

/// Whether the SysTick interrupt is asserted.
pub open spec fn systick_irq(v: SysTickView) -> bool {
    v.pending && v.irq_enabled
}

/// Whether `next` is the first deadline of the periodic schedule through
/// `deadline` with period `period` that lies after `now`.
pub open spec fn rephased(deadline: u64, period: u32, now: u64, next: u64) -> bool {
    &&& next > now
    &&& next - period <= now
    &&& next >= deadline
    &&& (next - deadline) % (period as int) == 0
}

/// SysTick state after a PERIOD write at `now`.
pub open spec fn after_set_period(v: SysTickView, period: u32, now: u64) -> SysTickView {
    SysTickView {
        period,
        next_deadline: if v.enabled {
            Some((now + period) as u64)
        } else {
            v.next_deadline
        },
        ..v
    }
}

/// SysTick state after a CONTROL write at `now`.
pub open spec fn after_set_control(v: SysTickView, control: u32, now: u64) -> SysTickView {
    let enabled = control & 1 != 0;
    let next = if !enabled {
        None
    } else if (!v.enabled || v.next_deadline is None) && v.period != 0 {
        Some((now + v.period) as u64)
    } else {
        v.next_deadline
    };
    SysTickView {
        enabled,
        periodic: control & 2 != 0,
        irq_enabled: control & 4 != 0,
        next_deadline: next,
        ..v
    }
}

/// Whether a deadline is due at `now`.
pub open spec fn deadline_due(v: SysTickView, now: u64) -> bool {
    v.next_deadline is Some && v.next_deadline->0 <= now
}

/// The first deadline of the periodic schedule through `deadline` with
/// period `period` that lies after `now`.
pub open spec fn next_periodic_deadline(deadline: u64, period: u32, now: u64) -> int {
    deadline + ((now - deadline) / (period as int) + 1) * period
}

/// SysTick state after processing every deadline no later than `now`: a due
/// deadline sets PENDING and then either moves to the next periodic
/// deadline after `now` or, for a one-shot timer, disables the timer.
pub open spec fn advance_spec(v: SysTickView, now: u64) -> SysTickView {
    if !deadline_due(v, now) {
        v
    } else if v.periodic && v.period != 0 {
        SysTickView {
            pending: true,
            next_deadline: Some(next_periodic_deadline(v.next_deadline->0, v.period, now) as u64),
            ..v
        }
    } else {
        SysTickView { pending: true, enabled: false, next_deadline: None, ..v }
    }
}

/// The closed-form next deadline keeps the schedule's phase and is the
/// first deadline after `now`.
pub proof fn lemma_next_periodic_deadline(deadline: u64, period: u32, now: u64)
    requires
        period > 0,
        deadline <= now,
    ensures
        next_periodic_deadline(deadline, period, now) > now,
        next_periodic_deadline(deadline, period, now) - period <= now,
        next_periodic_deadline(deadline, period, now) >= deadline,
        (next_periodic_deadline(deadline, period, now) - deadline) % (period as int) == 0,
{
    let p = period as int;
    let q = now - deadline;
    let k = q / p;
    vstd::arithmetic::div_mod::lemma_fundamental_div_mod(q, p);
    vstd::arithmetic::div_mod::lemma_mod_pos_bound(q, p);
    vstd::arithmetic::div_mod::lemma_div_pos_is_pos(q, p);
    assert((k + 1) * p == k * p + p) by (nonlinear_arith);
    vstd::arithmetic::div_mod::lemma_mod_multiples_basic(k + 1, p);
    assert(((k + 1) * p) % p == 0) by {
        vstd::arithmetic::mul::lemma_mul_is_commutative(k + 1, p);
    }
}

/// Whether a guest write of `value` to `register` at `now` schedules only
/// a deadline that fits in 64 bits: a PERIOD write to an enabled timer and
/// a CONTROL write that starts a timer with a nonzero period each add a
/// period to `now`.
pub open spec fn systick_write_fits(v: SysTickView, register: Register, value: u32, now: u64) -> bool {
    match register {
        Register::Period => v.enabled ==> now + value <= u64::MAX,
        Register::Control => value & 1 != 0 && (!v.enabled || v.next_deadline is None) && v.period != 0 ==> now
            + v.period <= u64::MAX,
        Register::Ack => true,
        Register::Status => true,
    }
}

/// Whether processing the deadlines through `now` moves a due periodic
/// deadline to a next deadline that fits in 64 bits.
pub open spec fn systick_advance_fits(v: SysTickView, now: u64) -> bool {
    deadline_due(v, now) && v.periodic && v.period != 0 ==> next_periodic_deadline(
        v.next_deadline->0,
        v.period,
        now,
    ) <= u64::MAX
}

/// Two deadlines of one periodic schedule less than a period apart are
/// the same deadline.
proof fn lemma_same_deadline(a: int, b: int, p: int)
    requires
        p > 0,
        (a - b) % p == 0,
        -p < a - b < p,
    ensures
        a == b,
{
    vstd::arithmetic::div_mod::lemma_fundamental_div_mod(a - b, p);
    let q = (a - b) / p;
    assert(a - b == p * q);
    assert(q == 0) by (nonlinear_arith)
        requires
            a - b == p * q,
            -p < a - b < p,
            p > 0,
    ;
}

/// If the next periodic deadline after a later tick fits in 64 bits, so
/// does the one after an earlier tick, and processing the deadlines
/// through the earlier tick leaves a schedule whose next deadline after
/// the later tick still fits.
pub proof fn lemma_advance_fits_earlier(v: SysTickView, t: u64, later: u64)
    requires
        t <= later,
        systick_advance_fits(v, later),
    ensures
        systick_advance_fits(v, t),
        systick_advance_fits(advance_spec(v, t), later),
{
    if deadline_due(v, t) && v.periodic && v.period != 0 {
        let d = v.next_deadline->0;
        let p = v.period as int;
        lemma_next_periodic_deadline(d, v.period, t);
        lemma_next_periodic_deadline(d, v.period, later);
        let near = next_periodic_deadline(d, v.period, t);
        let far = next_periodic_deadline(d, v.period, later);
        vstd::arithmetic::div_mod::lemma_div_is_ordered(t - d, later - d, p);
        assert(((t - d) / p + 1) * p <= ((later - d) / p + 1) * p) by (nonlinear_arith)
            requires
                (t - d) / p <= (later - d) / p,
                p > 0,
        ;
        assert(near <= far);
        if near <= later {
            let next = near as u64;
            lemma_next_periodic_deadline(next, v.period, later);
            let after = next_periodic_deadline(next, v.period, later);
            vstd::arithmetic::div_mod::lemma_fundamental_div_mod(after - next, p);
            vstd::arithmetic::div_mod::lemma_fundamental_div_mod(near - d, p);
            vstd::arithmetic::div_mod::lemma_fundamental_div_mod(far - d, p);
            let k = (after - next) / p + (near - d) / p - (far - d) / p;
            assert(after - far == p * k) by (nonlinear_arith)
                requires
                    after - next == p * ((after - next) / p),
                    near - d == p * ((near - d) / p),
                    far - d == p * ((far - d) / p),
                    next == near,
                    k == (after - next) / p + (near - d) / p - (far - d) / p,
            ;
            vstd::arithmetic::div_mod::lemma_mod_multiples_basic(k, p);
            assert(p * k == k * p) by (nonlinear_arith);
            lemma_same_deadline(after, far, p);
        }
    }
}

/// Every deadline of a periodic schedule up to `now` is followed by one
/// no later than the next deadline after `now`.
proof fn lemma_periodic_step(start: u64, period: u32, now: u64, d: int)
    requires
        period > 0,
        start <= d <= now,
        (d - start) % (period as int) == 0,
    ensures
        d + period <= next_periodic_deadline(start, period, now),
{
    let p = period as int;
    let q = now - start;
    let k = (d - start) / p;
    vstd::arithmetic::div_mod::lemma_fundamental_div_mod(d - start, p);
    assert(d - start == p * k);
    vstd::arithmetic::div_mod::lemma_div_pos_is_pos(d - start, p);
    vstd::arithmetic::div_mod::lemma_div_is_ordered(d - start, q, p);
    assert(k <= q / p);
    assert((k + 1) * p <= (q / p + 1) * p) by (nonlinear_arith)
        requires
            k <= q / p,
            p > 0,
    ;
    assert(p * k + p == (k + 1) * p) by (nonlinear_arith);
}

/// `v` after raising its current interrupt level.
pub open spec fn systick_signaled(v: SysTickView) -> SysTickView {
    SysTickView {
        outbox: v.outbox.push(InterruptSignal { source: Source::SysTick, pending: systick_irq(v) }),
        ..v
    }
}

/// SysTick state after a guest write of `value` to `register` at `now`.
pub open spec fn systick_write_spec(v: SysTickView, register: Register, value: u32, now: u64) -> SysTickView {
    match register {
        Register::Period => after_set_period(v, value, now),
        Register::Control => after_set_control(v, value, now),
        Register::Ack => SysTickView { pending: false, ..v },
        Register::Status => v,
    }
}

/// The value a guest read of `register` returns.
pub open spec fn systick_read_spec(v: SysTickView, register: Register) -> u32 {
    match register {
        Register::Period => v.period,
        Register::Control => control_value(v),
        Register::Status => if v.pending {
            1
        } else {
            0
        },
        Register::Ack => 0,
    }
}

/// A periodic schedule has exactly one next deadline after `now`.
pub proof fn lemma_rephased_unique(deadline: u64, period: u32, now: u64, a: u64, b: u64)
    requires
        period > 0,
        rephased(deadline, period, now, a),
        rephased(deadline, period, now, b),
    ensures
        a == b,
{
    let p = period as int;
    let ka = (a - deadline) / p;
    let kb = (b - deadline) / p;
    vstd::arithmetic::div_mod::lemma_fundamental_div_mod(a - deadline, p);
    vstd::arithmetic::div_mod::lemma_fundamental_div_mod(b - deadline, p);
    assert(a == deadline + ka * p);
    assert(b == deadline + kb * p);
    if ka < kb {
        assert(ka * p + p <= kb * p) by (nonlinear_arith)
            requires
                ka < kb,
                p > 0,
        ;
    } else if kb < ka {
        assert(kb * p + p <= ka * p) by (nonlinear_arith)
            requires
                kb < ka,
                p > 0,
        ;
    }
}

/// SysTick state and exact virtual deadline scheduling.
/// Whether inspection `r` reports the state `v`.
pub open spec fn systick_inspected(r: SysTickInspection, v: SysTickView) -> bool {
    &&& r.period == v.period
    &&& r.control == control_value(v)
    &&& r.status == (if v.pending { 1u32 } else { 0u32 })
}

pub struct SysTick {
    period: u32,
    enabled: bool,
    periodic: bool,
    irq_enabled: bool,
    pending: bool,
    next_deadline: Option<u64>,
    outbox: Vec<InterruptSignal>,
}

impl View for SysTick {
    type V = SysTickView;

    closed spec fn view(&self) -> SysTickView {
        SysTickView {
            period: self.period,
            enabled: self.enabled,
            periodic: self.periodic,
            irq_enabled: self.irq_enabled,
            pending: self.pending,
            next_deadline: self.next_deadline,
            outbox: self.outbox@,
        }
    }
}

impl SysTick {
    /// Reset state: disabled, period zero, nothing pending.
    pub open spec fn new_spec() -> SysTickView {
        SysTickView {
            period: 0,
            enabled: false,
            periodic: false,
            irq_enabled: false,
            pending: false,
            next_deadline: None,
            outbox: Seq::empty(),
        }
    }

    pub fn new() -> (r: Self)
        ensures
            r@ == Self::new_spec(),
            r@ == (SysTickView {
                period: 0,
                enabled: false,
                periodic: false,
                irq_enabled: false,
                pending: false,
                next_deadline: None,
                outbox: Seq::empty(),
            }),
    {
        SysTick {
            period: 0,
            enabled: false,
            periodic: false,
            irq_enabled: false,
            pending: false,
            next_deadline: None,
            outbox: Vec::new(),
        }
    }

    pub fn period(&self) -> (r: u32)
        ensures
            r == self@.period,
    {
        self.period
    }

    pub fn control(&self) -> (r: u32)
        ensures
            r == control_value(self@),
    {
        (if self.enabled {
            1
        } else {
            0
        }) + (if self.periodic {
            2
        } else {
            0
        }) + (if self.irq_enabled {
            4
        } else {
            0
        })
    }

    pub fn status(&self) -> (r: u32)
        ensures
            r == (if self@.pending {
                1u32
            } else {
                0u32
            }),
    {
        if self.pending {
            1
        } else {
            0
        }
    }

    pub fn irq_pending(&self) -> (r: bool)
        ensures
            r == systick_irq(self@),
    {
        self.pending && self.irq_enabled
    }

    /// Whether a guest write of `value` to `register` at `now` schedules
    /// only a deadline that fits in 64 bits.
    pub fn write_fits(&self, register: Register, value: u32, now: u64) -> (r: bool)
        ensures
            r == systick_write_fits(self@, register, value, now),
    {
        match register {
            Register::Period => !self.enabled || now <= u64::MAX - value as u64,
            Register::Control => !(value & 1 != 0 && (!self.enabled || self.next_deadline.is_none()) && self.period
                != 0) || now <= u64::MAX - self.period as u64,
            Register::Ack => true,
            Register::Status => true,
        }
    }

    /// Whether processing the deadlines through `now` moves a due periodic
    /// deadline to a next deadline that fits in 64 bits.
    pub fn advance_fits(&self, now: u64) -> (r: bool)
        ensures
            r == systick_advance_fits(self@, now),
    {
        let deadline = match self.next_deadline {
            Some(deadline) => deadline,
            None => return true,
        };
        if deadline > now || !self.periodic || self.period == 0 {
            return true;
        }
        let period = self.period as u128;
        let steps = ((now - deadline) as u128) / period + 1;
        assert(steps * period <= 0x1_0000_0000_0000_0000 * 0xffff_ffff) by (nonlinear_arith)
            requires
                steps <= 0x1_0000_0000_0000_0000,
                period <= 0xffff_ffff,
        ;
        let next = deadline as u128 + steps * period;
        assert(next == next_periodic_deadline(deadline, self.period, now));
        next <= u64::MAX as u128
    }

    /// Writes PERIOD; an enabled timer restarts its phase at `now`.
    pub fn set_period(&mut self, period: u32, now: u64)
        requires
            old(self)@.enabled ==> now + period <= u64::MAX,
        ensures
            final(self)@ == after_set_period(old(self)@, period, now),
    {
        self.period = period;
        if self.enabled {
            self.next_deadline = Some(now + period as u64);
        }
    }

    /// Writes CONTROL at `now`.
    pub fn set_control(&mut self, control: u32, now: u64)
        requires
            systick_write_fits(old(self)@, Register::Control, control, now),
        ensures
            final(self)@ == after_set_control(old(self)@, control, now),
    {
        let was_enabled = self.enabled;
        self.enabled = control & 1 != 0;
        self.periodic = control & 2 != 0;
        self.irq_enabled = control & 4 != 0;
        if self.enabled && (!was_enabled || self.next_deadline.is_none()) && self.period != 0 {
            self.next_deadline = Some(now + self.period as u64);
        }
        if !self.enabled {
            self.next_deadline = None;
        }
    }

    /// Clears PENDING.
    pub fn ack(&mut self)
        ensures
            final(self)@ == (SysTickView { pending: false, ..old(self)@ }),
    {
        self.pending = false;
    }

    pub fn inspect(&self) -> (r: SysTickInspection)
        ensures
            systick_inspected(r, self@),
    {
        SysTickInspection { period: self.period, control: self.control(), status: self.status() }
    }

    /// Processes all deadlines no later than `now` and returns whether any expired.
    pub fn advance_to(&mut self, now: u64) -> (r: bool)
        requires
            systick_advance_fits(old(self)@, now),
        ensures
            r == deadline_due(old(self)@, now),
            final(self)@ == advance_spec(old(self)@, now),
    {
        let mut deadline = match self.next_deadline {
            Some(deadline) => deadline,
            None => return false,
        };
        if deadline > now {
            return false;
        }
        self.pending = true;
        if self.periodic && self.period != 0 {
            let period = self.period as u64;
            let start = deadline;
            proof {
                vstd::arithmetic::div_mod::lemma_small_mod(0, period as nat);
            }
            while deadline <= now
                invariant
                    start <= deadline,
                    deadline <= now + period,
                    deadline - period <= now,
                    (deadline - start) % (period as int) == 0,
                    start <= now,
                    period == self.period,
                    next_periodic_deadline(start, self.period, now) <= u64::MAX,
                    period > 0,
                    period <= u32::MAX,
                decreases now + period - deadline,
            {
                proof {
                    lemma_periodic_step(start, self.period, now, deadline as int);
                    vstd::arithmetic::div_mod::lemma_mod_add_multiples_vanish(
                        deadline - start,
                        period as int,
                    );
                }
                deadline = deadline + period;
            }
            proof {
                lemma_next_periodic_deadline(start, self.period, now);
                lemma_rephased_unique(start, self.period, now, deadline, next_periodic_deadline(start, self.period, now) as u64);
            }
            self.next_deadline = Some(deadline);
        } else {
            self.enabled = false;
            self.next_deadline = None;
        }
        true
    }

    fn signal_interrupt(&mut self)
        ensures
            final(self)@ == systick_signaled(old(self)@),
    {
        let pending = self.irq_pending();
        self.outbox.push(InterruptSignal { source: Source::SysTick, pending });
    }

    /// Hands out the raised level transitions, oldest first.
    pub fn take_signals(&mut self) -> (r: Vec<InterruptSignal>)
        ensures
            r@ == old(self)@.outbox,
            final(self)@ == (SysTickView { outbox: Seq::empty(), ..old(self)@ }),
    {
        let mut taken = Vec::new();
        std::mem::swap(&mut taken, &mut self.outbox);
        taken
    }

    /// Performs a guest read of `register`.
    pub fn read_register(&self, register: Register) -> (r: u32)
        ensures
            r == systick_read_spec(self@, register),
    {
        match register {
            Register::Period => self.period(),
            Register::Control => self.control(),
            Register::Status => self.status(),
            Register::Ack => 0,
        }
    }

    /// Performs a guest write of `value` to `register` at `now` and raises
    /// the resulting interrupt level.
    pub fn write_register(&mut self, register: Register, value: u32, now: u64)
        requires
            systick_write_fits(old(self)@, register, value, now),
        ensures
            final(self)@ == systick_signaled(systick_write_spec(old(self)@, register, value, now)),
    {
        match register {
            Register::Period => self.set_period(value, now),
            Register::Control => self.set_control(value, now),
            Register::Ack => self.ack(),
            Register::Status => {},
        }
        self.signal_interrupt();
    }

    /// Completes every deadline no later than `now` and raises the
    /// resulting interrupt level.
    pub fn advance_and_signal(&mut self, now: u64)
        requires
            systick_advance_fits(old(self)@, now),
        ensures
            final(self)@ == systick_signaled(advance_spec(old(self)@, now)),
    {
        self.advance_to(now);
        self.signal_interrupt();
    }
}

impl Peripheral for SysTick {
    type Register = Register;

    type Update = SysTickUpdate;

    type Inspection = SysTickInspection;

    type Error = CoreError;

    open spec fn update_allowed(&self, update: &SysTickUpdate) -> bool {
        match update {
            SysTickUpdate::Write { register, value, now } => systick_write_fits(self@, *register, *value, *now),
            SysTickUpdate::AdvanceTo(now) => systick_advance_fits(self@, *now),
        }
    }

    fn read(&mut self, register: Register) -> (r: Result<u32>)
        ensures
            r == Ok::<u32, CoreError>(systick_read_spec(old(self)@, register)),
            final(self)@ == old(self)@,
    {
        Ok(self.read_register(register))
    }

    fn update(&mut self, update: SysTickUpdate) -> (r: Result<()>)
        ensures
            r is Ok,
            match update {
                SysTickUpdate::Write { register, value, now } => final(self)@ == systick_signaled(systick_write_spec(old(self)@, register, value, now)),
                SysTickUpdate::AdvanceTo(now) => final(self)@ == systick_signaled(advance_spec(old(self)@, now)),
            },
    {
        match update {
            SysTickUpdate::Write { register, value, now } => self.write_register(register, value, now),
            SysTickUpdate::AdvanceTo(now) => self.advance_and_signal(now),
        }
        Ok(())
    }

    fn inspect(&self) -> (r: SysTickInspection)
        ensures
            systick_inspected(r, self@),
    {
        SysTick::inspect(self)
    }
}

impl Default for SysTick {
    fn default() -> (r: Self)
        ensures
            r@ == SysTick::new_spec(),
    {
        SysTick::new()
    }
}

} // verus!
