use vstd::prelude::*;

use super::error::{PlatformError, Result};

verus! {

/// One past the largest 32-bit address.
pub open spec fn address_space_end() -> int {
    0x1_0000_0000
}

/// A 32-bit physical machine address.
#[derive(Clone, Copy, Debug, PartialEq, Eq, Structural, Hash, PartialOrd, Ord)]
pub struct PhysicalAddress(pub u32);

impl PhysicalAddress {
    /// Creates an address from its ABI representation.
    pub fn new(value: u32) -> (r: Self)
        ensures
            r.0 == value,
    {
        PhysicalAddress(value)
    }

    /// Returns the ABI representation.
    pub fn get(self) -> (r: u32)
        ensures
            r == self.0,
    {
        self.0
    }

    /// Returns this address rounded down to its containing 4 KiB page.
    pub fn page_base(self) -> (r: Self)
        ensures
            r.0 == self.0 & 0xffff_f000,
            r.0 as int == self.0 as int - self.0 as int % 4096,
    {
        let v = self.0;
        assert(v & 0xffff_f000 == v - v % 4096) by (bit_vector);
        PhysicalAddress(v & 0xffff_f000)
    }

    /// Returns whether this address is 4 KiB aligned.
    pub fn is_page_aligned(self) -> (r: bool)
        ensures
            r == (self.0 % 4096 == 0),
    {
        let v = self.0;
        assert((v & 0xfff == 0) == (v % 4096 == 0)) by (bit_vector);
        v & 0xfff == 0
    }
}

/// A 32-bit virtual machine address.
#[derive(Clone, Copy, Debug, PartialEq, Eq, Structural, Hash, PartialOrd, Ord)]
pub struct VirtualAddress(pub u32);

impl VirtualAddress {
    /// Creates an address from its ABI representation.
    pub fn new(value: u32) -> (r: Self)
        ensures
            r.0 == value,
    {
        VirtualAddress(value)
    }

    /// Returns the ABI representation.
    pub fn get(self) -> (r: u32)
        ensures
            r == self.0,
    {
        self.0
    }
}

/// A nonempty physical range with checked 32-bit bounds.
#[derive(Clone, Copy, Debug, PartialEq, Eq)]
pub struct PhysicalRange {
    start: PhysicalAddress,
    length: u32,
}

impl PhysicalRange {
    #[verifier::type_invariant]
    spec fn well_formed(self) -> bool {
        self.length > 0 && self.start.0 + self.length <= address_space_end()
    }

    /// First address of the range.
    pub closed spec fn start_spec(self) -> u32 {
        self.start.0
    }

    /// Length of the range in bytes.
    pub closed spec fn length_spec(self) -> u32 {
        self.length
    }

    /// Exclusive end of the range, possibly `2^32`.
    pub open spec fn end_spec(self) -> int {
        self.start_spec() + self.length_spec()
    }

    /// Whether `address` lies in the range.
    pub open spec fn contains_spec(self, address: u32) -> bool {
        self.start_spec() <= address < self.end_spec()
    }

    /// Whether `other` lies entirely in the range.
    pub open spec fn contains_range_spec(self, other: Self) -> bool {
        self.start_spec() <= other.start_spec() && other.end_spec() <= self.end_spec()
    }

    /// Whether two ranges share at least one address.
    pub open spec fn overlaps_spec(self, other: Self) -> bool {
        self.start_spec() < other.end_spec() && other.start_spec() < self.end_spec()
    }

    /// Creates a checked nonempty physical range.
    pub fn new(start: PhysicalAddress, length: u32) -> (r: Result<Self>)
        ensures
            match r {
                Ok(range) => {
                    &&& length != 0
                    &&& start.0 + length <= address_space_end()
                    &&& range.start_spec() == start.0
                    &&& range.length_spec() == length
                },
                Err(e) => if length == 0 {
                    e == PlatformError::EmptyRange
                } else {
                    &&& start.0 + length > address_space_end()
                    &&& e == (PlatformError::AddressRangeOverflow { start: start.0, length })
                },
            },
    {
        if length == 0 {
            return Err(PlatformError::EmptyRange);
        }
        if start.0 as u64 + length as u64 > 0x1_0000_0000u64 {
            return Err(PlatformError::AddressRangeOverflow { start: start.0, length });
        }
        Ok(PhysicalRange { start, length })
    }

    /// Builds a range whose bounds the caller has already established.
    pub(crate) fn from_known_valid(start: PhysicalAddress, length: u32) -> (r: Self)
        requires
            length > 0,
            start.0 + length <= address_space_end(),
        ensures
            r.start_spec() == start.0,
            r.length_spec() == length,
    {
        PhysicalRange { start, length }
    }

    /// Returns the first address in this range.
    pub fn start(self) -> (r: PhysicalAddress)
        ensures
            r.0 == self.start_spec(),
    {
        self.start
    }

    /// Returns the range length in bytes.
    pub fn length(self) -> (r: u32)
        ensures
            r == self.length_spec(),
            r > 0,
            self.end_spec() <= address_space_end(),
    {
        proof {
            use_type_invariant(&self);
        }
        self.length
    }

    /// Returns the exclusive range end, which may equal `2^32`.
    pub fn end_exclusive(self) -> (r: u64)
        ensures
            r == self.end_spec(),
            r <= address_space_end(),
    {
        proof {
            use_type_invariant(&self);
        }
        self.start.0 as u64 + self.length as u64
    }

    /// Returns whether this range contains an address.
    pub fn contains_address(self, address: PhysicalAddress) -> (r: bool)
        ensures
            r == self.contains_spec(address.0),
    {
        address.0 as u64 >= self.start.0 as u64 && (address.0 as u64) < self.end_exclusive()
    }

    /// Returns whether this range fully contains another checked range.
    pub fn contains_range(self, range: Self) -> (r: bool)
        ensures
            r == self.contains_range_spec(range),
    {
        range.start.0 as u64 >= self.start.0 as u64 && range.end_exclusive() <= self.end_exclusive()
    }
}

} // verus!
