use vstd::prelude::*;

verus! {

/// Direction of an MMU or MMIO access.
#[derive(Clone, Copy, Debug, PartialEq, Eq, Structural)]
pub enum Access {
    Fetch,
    Read,
    Write,
}

/// Access rights shared by page mappings and MMIO registers.
#[derive(Clone, Copy, Debug, PartialEq, Eq, Structural)]
pub struct Permissions {
    pub bits: u8,
}

/// Bit of `Permissions` granting reads.
pub const PERMISSION_READ: u8 = 16;
/// Bit of `Permissions` granting writes.
pub const PERMISSION_WRITE: u8 = 2;
/// Bit of `Permissions` granting user-mode access.
pub const PERMISSION_USER: u8 = 4;
/// Bit of `Permissions` granting instruction fetches.
pub const PERMISSION_EXECUTE: u8 = 8;

/// Whether `bits` admits `access` from the given privilege level.
pub open spec fn permits_spec(bits: u8, access: Access, user_mode: bool) -> bool {
    &&& (user_mode ==> bits & PERMISSION_USER != 0)
    &&& match access {
        Access::Fetch => bits & PERMISSION_EXECUTE != 0,
        Access::Read => bits & PERMISSION_READ != 0,
        Access::Write => bits & PERMISSION_WRITE != 0,
    }
}

impl Permissions {
    /// The read permission alone.
    pub fn read() -> (r: Self)
        ensures
            r.bits == PERMISSION_READ,
    {
        Permissions { bits: PERMISSION_READ }
    }

    /// The write permission alone.
    pub fn write() -> (r: Self)
        ensures
            r.bits == PERMISSION_WRITE,
    {
        Permissions { bits: PERMISSION_WRITE }
    }

    /// The user-access permission alone.
    pub fn user() -> (r: Self)
        ensures
            r.bits == PERMISSION_USER,
    {
        Permissions { bits: PERMISSION_USER }
    }

    /// The execute permission alone.
    pub fn execute() -> (r: Self)
        ensures
            r.bits == PERMISSION_EXECUTE,
    {
        Permissions { bits: PERMISSION_EXECUTE }
    }

    /// Returns the raw flag bits.
    pub fn bits(self) -> (r: u8)
        ensures
            r == self.bits,
    {
        self.bits
    }

    /// Keeps every bit of `bits`, known or not.
    pub fn from_bits_retain(bits: u8) -> (r: Self)
        ensures
            r.bits == bits,
    {
        Permissions { bits }
    }

    /// Returns whether every flag of `other` is set here.
    pub fn contains(self, other: Self) -> (r: bool)
        ensures
            r == (self.bits & other.bits == other.bits),
    {
        self.bits & other.bits == other.bits
    }

    /// Returns the flags set in either operand.
    pub fn union(self, other: Self) -> (r: Self)
        ensures
            r.bits == self.bits | other.bits,
    {
        Permissions { bits: self.bits | other.bits }
    }

    /// Returns whether this permission set admits an attempted access.
    pub fn permits(self, access: Access, user_mode: bool) -> (r: bool)
        ensures
            r == permits_spec(self.bits, access, user_mode),
    {
        if user_mode && self.bits & PERMISSION_USER == 0 {
            return false;
        }
        match access {
            Access::Fetch => self.bits & PERMISSION_EXECUTE != 0,
            Access::Read => self.bits & PERMISSION_READ != 0,
            Access::Write => self.bits & PERMISSION_WRITE != 0,
        }
    }
}

} // verus!
