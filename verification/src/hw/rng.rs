use vstd::prelude::*;

use crate::platform::observability::RngInspection;
use crate::platform::peripheral::Peripheral;
use crate::platform::peripherals::rng::{DEFAULT_SEED, Register};

use super::error::{CoreError, Result};

verus! {

/// One state-changing RNG input.
pub enum RngUpdate {
    Write { register: Register, value: u32 },
}

/// One xorshift32 step.
pub open spec fn xorshift(x: u32) -> u32 {
    let a = x ^ (x << 13);
    let b = a ^ (a >> 17);
    b ^ (b << 5)
}

/// The state stored for a written seed: zero selects the ABI default.
pub open spec fn seed_state(seed: u32) -> u32 {
    if seed == 0 {
        DEFAULT_SEED
    } else {
        seed
    }
}

/// Deterministic xorshift32 RNG state.
pub struct Rng {
    state: u32,
}

impl View for Rng {
    type V = u32;

    closed spec fn view(&self) -> u32 {
        self.state
    }
}

impl Rng {
    pub fn new() -> (r: Self)
        ensures
            r@ == DEFAULT_SEED,
    {
        Rng { state: DEFAULT_SEED }
    }

    pub fn seed(&self) -> (r: u32)
        ensures
            r == self@,
    {
        self.state
    }

    /// Stores a seed; zero selects the ABI default.
    pub fn set_seed(&mut self, seed: u32)
        ensures
            final(self)@ == seed_state(seed),
    {
        self.state = if seed == 0 {
            DEFAULT_SEED
        } else {
            seed
        };
    }

    /// Advances the generator and returns the new state.
    pub fn next_u32(&mut self) -> (r: u32)
        ensures
            r == xorshift(old(self)@),
            final(self)@ == r,
    {
        let a = self.state ^ (self.state << 13);
        let b = a ^ (a >> 17);
        self.state = b ^ (b << 5);
        self.state
    }

    pub fn inspect(&self) -> (r: RngInspection)
        ensures
            r.state == self@,
    {
        RngInspection { state: self.state }
    }

    /// Performs a guest read of `register`: DATA advances the generator.
    pub fn read_register(&mut self, register: Register) -> (r: u32)
        ensures
            register == Register::Data ==> r == xorshift(old(self)@) && final(self)@ == r,
            register != Register::Data ==> r == old(self)@ && final(self)@ == old(self)@,
    {
        match register {
            Register::Seed | Register::State => self.seed(),
            Register::Data => self.next_u32(),
        }
    }

    /// Performs a guest write: only SEED is writable.
    pub fn write_register(&mut self, register: Register, value: u32)
        ensures
            register == Register::Seed ==> final(self)@ == seed_state(value),
            register != Register::Seed ==> final(self)@ == old(self)@,
    {
        if matches!(register, Register::Seed) {
            self.set_seed(value);
        }
    }
}

/// The generator never reaches the all-zero state: every stored seed is
/// nonzero and a xorshift step maps a nonzero state to a nonzero state.
pub proof fn lemma_state_never_zero(seed: u32, state: u32)
    ensures
        seed_state(seed) != 0,
        state != 0 ==> xorshift(state) != 0,
{
    assert(state != 0 ==> ((state ^ (state << 13)) ^ ((state ^ (state << 13)) >> 17)) ^ (((state
        ^ (state << 13)) ^ ((state ^ (state << 13)) >> 17)) << 5) != 0) by (bit_vector);
}

impl Peripheral for Rng {
    type Register = Register;

    type Update = RngUpdate;

    type Inspection = RngInspection;

    type Error = CoreError;

    open spec fn update_allowed(&self, update: &RngUpdate) -> bool {
        true
    }

    fn read(&mut self, register: Register) -> (r: Result<u32>)
        ensures
            register == Register::Data ==> r == Ok::<u32, CoreError>(xorshift(old(self)@)) && final(self)@ == xorshift(old(self)@),
            register != Register::Data ==> r == Ok::<u32, CoreError>(old(self)@) && final(self)@ == old(self)@,
    {
        Ok(self.read_register(register))
    }

    fn update(&mut self, update: RngUpdate) -> (r: Result<()>)
        ensures
            r is Ok,
            match update {
                RngUpdate::Write { register, value } => if register == Register::Seed {
                    final(self)@ == seed_state(value)
                } else {
                    final(self)@ == old(self)@
                },
            },
    {
        let RngUpdate::Write { register, value } = update;
        self.write_register(register, value);
        Ok(())
    }

    fn inspect(&self) -> (r: RngInspection)
        ensures
            r.state == self@,
    {
        Rng::inspect(self)
    }
}

impl Default for Rng {
    fn default() -> (r: Self)
        ensures
            r@ == DEFAULT_SEED,
    {
        Rng::new()
    }
}

} // verus!
