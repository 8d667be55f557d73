use vstd::prelude::*;

use crate::platform::address::PhysicalRange;
use crate::platform::bytes::{le_u32, u32_le};
use crate::platform::mmap::{
    BOOT_ROM_SIZE, MemRegion, RAM_SIZE, SYSTEM_ROM_SIZE, region_base, region_is_device, region_of,
    region_size,
};
use crate::platform::PhysicalAddress;

use super::error::{CoreError, Result};

verus! {

/// `s` with the bytes at `offset` replaced by `bytes`.
pub open spec fn splice(s: Seq<u8>, offset: int, bytes: Seq<u8>) -> Seq<u8> {
    s.subrange(0, offset) + bytes + s.subrange(offset + bytes.len(), s.len() as int)
}

/// Where a write of `length` bytes at `address` lands in a RAM of
/// `ram_len` bytes, or why the write is refused: only RAM is mutable.
pub open spec fn ram_write_target(address: u32, length: int, ram_len: int) -> core::result::Result<
    int,
    CoreError,
> {
    match region_of(address) {
        None => Err(CoreError::UnmappedPhysicalAddress(address)),
        Some(region) => if region != MemRegion::Ram {
            Err(CoreError::ImmutablePhysicalAddress(address))
        } else if address - region_base(region) + length > ram_len {
            Err(CoreError::PhysicalAccessOutOfBounds { address, needed: length as usize })
        } else {
            Ok(address - region_base(region))
        },
    }
}

/// Narrow physical-memory interface used by the MMU walker and DMA device.
pub trait PhysicalMemoryAccess {
    fn read_u8(&self, address: PhysicalAddress) -> Result<u8>;

    fn read_u32(&self, address: PhysicalAddress) -> Result<u32>;

    fn write_u8(&mut self, address: PhysicalAddress, value: u8) -> Result<()>;

    fn write_u32(&mut self, address: PhysicalAddress, value: u32) -> Result<()>;

    fn read_range(&self, range: PhysicalRange, destination: &mut [u8]) -> Result<()>;

    fn write_range(&mut self, address: PhysicalAddress, bytes: &[u8]) -> Result<()>;
}

/// Immutable boot/system ROM and mutable RAM backing for the physical map.
pub struct PhysicalMemory {
    boot_rom: Vec<u8>,
    system_rom: Vec<u8>,
    ram: Vec<u8>,
}

impl PhysicalMemory {
    /// Every region has its fixed ABI size.
    pub open spec fn sized(&self) -> bool {
        &&& self.boot_rom_view().len() == BOOT_ROM_SIZE
        &&& self.system_rom_view().len() == SYSTEM_ROM_SIZE
        &&& self.ram_view().len() == RAM_SIZE
    }

    /// Contents of boot ROM.
    pub closed spec fn boot_rom_view(&self) -> Seq<u8> {
        self.boot_rom@
    }

    /// Contents of system ROM.
    pub closed spec fn system_rom_view(&self) -> Seq<u8> {
        self.system_rom@
    }

    /// Contents of RAM.
    pub closed spec fn ram_view(&self) -> Seq<u8> {
        self.ram@
    }

    /// Contents of each memory-backed region.
    pub open spec fn storage(&self, region: MemRegion) -> Seq<u8> {
        match region {
            MemRegion::BootRom => self.boot_rom_view(),
            MemRegion::SystemRom => self.system_rom_view(),
            _ => self.ram_view(),
        }
    }

    /// Where a read of `length` bytes at `address` lands: the region and
    /// the offset in it, or why the read is refused.
    pub open spec fn resolve_read(&self, address: u32, length: int) -> core::result::Result<
        (MemRegion, int),
        CoreError,
    > {
        match region_of(address) {
            None => Err(CoreError::UnmappedPhysicalAddress(address)),
            Some(region) => if region_is_device(region) {
                Err(CoreError::UnmappedPhysicalAddress(address))
            } else if address - region_base(region) + length > self.storage(region).len() {
                Err(CoreError::PhysicalAccessOutOfBounds { address, needed: length as usize })
            } else {
                Ok((region, address - region_base(region)))
            },
        }
    }

    /// Where a write of `length` bytes at `address` lands in RAM, or why
    /// the write is refused: only RAM is mutable.
    pub open spec fn resolve_write(&self, address: u32, length: int) -> core::result::Result<
        int,
        CoreError,
    > {
        ram_write_target(address, length, self.ram_view().len() as int)
    }

    /// The result of reading `length` bytes at `address`.
    pub open spec fn read_spec(&self, address: u32, length: int) -> core::result::Result<
        Seq<u8>,
        CoreError,
    > {
        match self.resolve_read(address, length) {
            Ok((region, offset)) => Ok(self.storage(region).subrange(offset, offset + length)),
            Err(e) => Err(e),
        }
    }

    /// The little-endian word at `address`, if it can be read.
    pub open spec fn read_u32_spec(&self, address: u32) -> Option<u32> {
        match self.read_spec(address, 4) {
            Ok(bytes) => Some(le_u32(bytes, 0)),
            Err(_) => None,
        }
    }

    /// Memory after writing `bytes` at a RAM offset.
    pub open spec fn with_ram(&self, offset: int, bytes: Seq<u8>) -> Seq<u8> {
        splice(self.ram_view(), offset, bytes)
    }

    fn zeroed(length: usize) -> (r: Vec<u8>)
        ensures
            r@ == Seq::new(length as nat, |i: int| 0u8),
    {
        let mut v: Vec<u8> = Vec::with_capacity(length);
        v.resize(length, 0u8);
        assert(v@ =~= Seq::new(length as nat, |i: int| 0u8));
        v
    }

    /// Lends out the RAM storage itself, for an in-process CPU backend that
    /// maps the same bytes; what is written through the loan is the RAM.
    pub fn ram_mut_ptr(&mut self) -> (r: &mut [u8])
        ensures
            r@ == old(self).ram_view(),
            final(self).ram_view() == final(r)@,
            final(self).boot_rom_view() == old(self).boot_rom_view(),
            final(self).system_rom_view() == old(self).system_rom_view(),
    {
        self.ram.as_mut_slice()
    }

    /// Creates zero-filled ROM images and RAM with fixed ABI sizes.
    pub fn empty() -> (r: Self)
        ensures
            r.sized(),
            r.boot_rom_view() == Seq::new(BOOT_ROM_SIZE as nat, |i: int| 0u8),
            r.system_rom_view() == Seq::new(SYSTEM_ROM_SIZE as nat, |i: int| 0u8),
            r.ram_view() == Seq::new(RAM_SIZE as nat, |i: int| 0u8),
    {
        PhysicalMemory {
            boot_rom: Self::zeroed(BOOT_ROM_SIZE as usize),
            system_rom: Self::zeroed(SYSTEM_ROM_SIZE as usize),
            ram: Self::zeroed(RAM_SIZE as usize),
        }
    }

    fn copy_prefix(destination: &mut Vec<u8>, source: &[u8])
        requires
            source@.len() <= old(destination)@.len(),
        ensures
            final(destination)@ == source@ + old(destination)@.subrange(
                source@.len() as int,
                old(destination)@.len() as int,
            ),
    {
        let mut i: usize = 0;
        while i < source.len()
            invariant
                i <= source@.len(),
                source@.len() <= destination@.len(),
                destination@.len() == old(destination)@.len(),
                forall|j: int| 0 <= j < i ==> destination@[j] == source@[j],
                forall|j: int| i <= j < destination@.len() ==> destination@[j] == old(destination)@[j],
            decreases source@.len() - i,
        {
            destination.set(i, source[i]);
            i += 1;
        }
        assert(destination@ =~= source@ + old(destination)@.subrange(
            source@.len() as int,
            old(destination)@.len() as int,
        ));
    }

    /// Creates memory after copying supplied boot and system ROM contents.
    pub fn with_roms(boot_rom: &[u8], system_rom: &[u8]) -> (r: Result<Self>)
        ensures
            boot_rom@.len() > BOOT_ROM_SIZE ==> (r matches Err(
                CoreError::PhysicalAccessOutOfBounds { address, needed },
            ) && address == 0 && needed == boot_rom@.len()),
            boot_rom@.len() <= BOOT_ROM_SIZE && system_rom@.len() > SYSTEM_ROM_SIZE ==> (r matches Err(
                CoreError::PhysicalAccessOutOfBounds { address, needed },
            ) && address == region_base(MemRegion::SystemRom) && needed == system_rom@.len()),
            boot_rom@.len() <= BOOT_ROM_SIZE && system_rom@.len() <= SYSTEM_ROM_SIZE ==> (r matches Ok(
                m,
            ) && m.boot_rom_view() == boot_rom@ + Seq::new(
                (BOOT_ROM_SIZE - boot_rom@.len()) as nat,
                |i: int| 0u8,
            ) && m.system_rom_view() == system_rom@ + Seq::new(
                (SYSTEM_ROM_SIZE - system_rom@.len()) as nat,
                |i: int| 0u8,
            ) && m.ram_view() == Seq::new(RAM_SIZE as nat, |i: int| 0u8)),
    {
        if boot_rom.len() > MemRegion::BootRom.size() as usize {
            return Err(
                CoreError::PhysicalAccessOutOfBounds {
                    address: MemRegion::BootRom.base().get(),
                    needed: boot_rom.len(),
                },
            );
        }
        if system_rom.len() > MemRegion::SystemRom.size() as usize {
            return Err(
                CoreError::PhysicalAccessOutOfBounds {
                    address: MemRegion::SystemRom.base().get(),
                    needed: system_rom.len(),
                },
            );
        }
        let mut boot = Self::zeroed(BOOT_ROM_SIZE as usize);
        Self::copy_prefix(&mut boot, boot_rom);
        let mut system = Self::zeroed(SYSTEM_ROM_SIZE as usize);
        Self::copy_prefix(&mut system, system_rom);
        proof {
            assert(boot@ =~= boot_rom@ + Seq::new(
                (BOOT_ROM_SIZE - boot_rom@.len()) as nat,
                |i: int| 0u8,
            ));
            assert(system@ =~= system_rom@ + Seq::new(
                (SYSTEM_ROM_SIZE - system_rom@.len()) as nat,
                |i: int| 0u8,
            ));
        }
        Ok(PhysicalMemory { boot_rom: boot, system_rom: system, ram: Self::zeroed(RAM_SIZE as usize) })
    }

    /// Returns a read-only view of the current RAM image.
    pub fn ram(&self) -> (r: &[u8])
        ensures
            r@ == self.ram_view(),
    {
        self.ram.as_slice()
    }

    /// Resolves a read to its region and offset.
    fn region_offset(&self, address: PhysicalAddress, length: usize) -> (r: Result<(MemRegion, usize)>)
        ensures
            match self.resolve_read(address.0, length as int) {
                Ok((region, offset)) => r matches Ok((rr, ro)) && rr == region && ro == offset,
                Err(e) => r matches Err(re) && re == e,
            },
            r is Ok ==> r->Ok_0.1 + length <= self.storage(r->Ok_0.0).len(),
    {
        let region = match MemRegion::containing(address) {
            Some(region) => region,
            None => return Err(CoreError::UnmappedPhysicalAddress(address.get())),
        };
        if region.is_device() {
            return Err(CoreError::UnmappedPhysicalAddress(address.get()));
        }
        let offset = (address.get() - region.base().get()) as usize;
        let available = self.storage_of(region).len();
        if length > available || offset > available - length {
            return Err(CoreError::PhysicalAccessOutOfBounds { address: address.get(), needed: length });
        }
        Ok((region, offset))
    }

    /// Resolves a write to its RAM offset.
    fn ram_offset(&self, address: PhysicalAddress, length: usize) -> (r: Result<usize>)
        ensures
            match self.resolve_write(address.0, length as int) {
                Ok(offset) => r matches Ok(ro) && ro == offset,
                Err(e) => r matches Err(re) && re == e,
            },
            r is Ok ==> r->Ok_0 + length <= self.ram_view().len(),
    {
        let region = match MemRegion::containing(address) {
            Some(region) => region,
            None => return Err(CoreError::UnmappedPhysicalAddress(address.get())),
        };
        if region != MemRegion::Ram {
            return Err(CoreError::ImmutablePhysicalAddress(address.get()));
        }
        let offset = (address.get() - region.base().get()) as usize;
        if length > self.ram.len() || offset > self.ram.len() - length {
            return Err(CoreError::PhysicalAccessOutOfBounds { address: address.get(), needed: length });
        }
        Ok(offset)
    }

    fn storage_of(&self, region: MemRegion) -> (r: &Vec<u8>)
        ensures
            r@ == self.storage(region),
    {
        match region {
            MemRegion::BootRom => &self.boot_rom,
            MemRegion::SystemRom => &self.system_rom,
            _ => &self.ram,
        }
    }

    /// Borrows one mapped physical range for synchronous zero-copy inspection.
    pub fn inspect_range(&self, range: PhysicalRange) -> (r: Result<&[u8]>)
        ensures
            match self.read_spec(range.start_spec(), range.length_spec() as int) {
                Ok(bytes) => r matches Ok(s) && s@ == bytes,
                Err(e) => r matches Err(re) && re == e,
            },
    {
        let length = range.length() as usize;
        let resolved = self.region_offset(range.start(), length);
        let (region, offset) = match resolved {
            Ok(found) => found,
            Err(e) => return Err(e),
        };
        let storage = self.storage_of(region);
        let available = storage.len();
        assert(offset + length <= available);
        Ok(&storage.as_slice()[offset..offset + length])
    }

    /// Reads one byte.
    pub fn read_u8(&self, address: PhysicalAddress) -> (r: Result<u8>)
        ensures
            match self.read_spec(address.0, 1) {
                Ok(bytes) => r matches Ok(v) && v == bytes[0],
                Err(e) => r matches Err(re) && re == e,
            },
    {
        let (region, offset) = self.region_offset(address, 1)?;
        let storage = self.storage_of(region);
        Ok(storage[offset])
    }

    /// Reads one little-endian word.
    pub fn read_u32(&self, address: PhysicalAddress) -> (r: Result<u32>)
        ensures
            match self.read_spec(address.0, 4) {
                Ok(bytes) => r matches Ok(v) && v == le_u32(bytes, 0),
                Err(e) => r matches Err(re) && re == e,
            },
    {
        let (region, offset) = self.region_offset(address, 4)?;
        let storage = self.storage_of(region);
        proof {
            let bytes = self.read_spec(address.0, 4int)->Ok_0;
            assert(bytes[0] == storage@[offset as int]);
            assert(bytes[1] == storage@[offset + 1]);
            assert(bytes[2] == storage@[offset + 2]);
            assert(bytes[3] == storage@[offset + 3]);
        }
        Ok((storage[offset] as u32) | ((storage[offset + 1] as u32) << 8) | ((storage[offset
            + 2] as u32) << 16) | ((storage[offset + 3] as u32) << 24))
    }

    /// Writes `bytes` into RAM at `address`; ROM and unmapped addresses are
    /// refused and leave memory unchanged.
    pub fn write_range(&mut self, address: PhysicalAddress, bytes: &[u8]) -> (r: Result<()>)
        ensures
            match old(self).resolve_write(address.0, bytes@.len() as int) {
                Ok(offset) => r is Ok && final(self).ram_view() == old(self).with_ram(
                    offset,
                    bytes@,
                ),
                Err(e) => r matches Err(re) && re == e && final(self).ram_view() == old(self).ram_view(),
            },
            final(self).boot_rom_view() == old(self).boot_rom_view(),
            final(self).system_rom_view() == old(self).system_rom_view(),
            final(self).ram_view().len() == old(self).ram_view().len(),
    {
        let offset = self.ram_offset(address, bytes.len())?;
        let available = self.ram.len();
        let mut i: usize = 0;
        while i < bytes.len()
            invariant
                i <= bytes@.len(),
                offset + bytes@.len() <= available,
                available == old(self).ram@.len(),
                self.ram@.len() == old(self).ram@.len(),
                self.boot_rom@ == old(self).boot_rom@,
                self.system_rom@ == old(self).system_rom@,
                forall|j: int| 0 <= j < offset ==> self.ram@[j] == old(self).ram@[j],
                forall|j: int| 0 <= j < i ==> self.ram@[offset + j] == bytes@[j],
                forall|j: int| offset + i <= j < old(self).ram@.len() ==> self.ram@[j] == old(self).ram@[j],
            decreases bytes@.len() - i,
        {
            self.ram.set(offset + i, bytes[i]);
            i += 1;
        }
        assert(self.ram@ =~= splice(old(self).ram@, offset as int, bytes@));
        Ok(())
    }

    /// Writes one byte to RAM.
    pub fn write_u8(&mut self, address: PhysicalAddress, value: u8) -> (r: Result<()>)
        ensures
            match old(self).resolve_write(address.0, 1) {
                Ok(offset) => r is Ok && final(self).ram_view() == old(self).with_ram(
                    offset,
                    seq![value],
                ),
                Err(e) => r matches Err(re) && re == e && final(self).ram_view() == old(self).ram_view(),
            },
            final(self).boot_rom_view() == old(self).boot_rom_view(),
            final(self).system_rom_view() == old(self).system_rom_view(),
            final(self).ram_view().len() == old(self).ram_view().len(),
    {
        let bytes = [value];
        assert(bytes@ =~= seq![value]);
        self.write_range(address, &bytes)
    }

    /// Writes one little-endian word to RAM.
    pub fn write_u32(&mut self, address: PhysicalAddress, value: u32) -> (r: Result<()>)
        ensures
            match old(self).resolve_write(address.0, 4) {
                Ok(offset) => r is Ok && final(self).ram_view() == old(self).with_ram(
                    offset,
                    u32_le(value),
                ),
                Err(e) => r matches Err(re) && re == e && final(self).ram_view() == old(self).ram_view(),
            },
            final(self).boot_rom_view() == old(self).boot_rom_view(),
            final(self).system_rom_view() == old(self).system_rom_view(),
            final(self).ram_view().len() == old(self).ram_view().len(),
    {
        let bytes = [
            (value & 0xff) as u8,
            ((value >> 8) & 0xff) as u8,
            ((value >> 16) & 0xff) as u8,
            (value >> 24) as u8,
        ];
        assert(bytes@ =~= u32_le(value));
        self.write_range(address, &bytes)
    }

    /// Copies the bytes of `range` into `destination`, which must have the
    /// range's length.
    pub fn read_range(&self, range: PhysicalRange, destination: &mut [u8]) -> (r: Result<()>)
        ensures
            old(destination)@.len() != range.length_spec() ==> (r matches Err(
                CoreError::PhysicalAccessOutOfBounds { address, needed },
            ) && address == range.start_spec() && needed == old(destination)@.len() && final(destination)@ == old(destination)@),
            old(destination)@.len() == range.length_spec() ==> match self.read_spec(
                range.start_spec(),
                range.length_spec() as int,
            ) {
                Ok(bytes) => r is Ok && final(destination)@ == bytes,
                Err(e) => r matches Err(re) && re == e && final(destination)@ == old(destination)@,
            },
    {
        if destination.len() != range.length() as usize {
            return Err(
                CoreError::PhysicalAccessOutOfBounds {
                    address: range.start().get(),
                    needed: destination.len(),
                },
            );
        }
        let length = destination.len();
        let (region, offset) = self.region_offset(range.start(), length)?;
        let storage = self.storage_of(region);
        let available = storage.len();
        let mut i: usize = 0;
        while i < length
            invariant
                i <= length,
                length == destination@.len(),
                available == storage@.len(),
                offset + length <= available,
                forall|j: int| 0 <= j < i ==> destination@[j] == storage@[offset + j],
            decreases length - i,
        {
            destination[i] = storage[offset + i];
            i += 1;
        }
        assert(destination@ =~= storage@.subrange(offset as int, offset + length));
        Ok(())
    }
}

impl PhysicalMemoryAccess for PhysicalMemory {
    fn read_u8(&self, address: PhysicalAddress) -> (r: Result<u8>)
        ensures
            match self.read_spec(address.0, 1) {
                Ok(bytes) => r matches Ok(v) && v == bytes[0],
                Err(e) => r matches Err(re) && re == e,
            },
    {
        PhysicalMemory::read_u8(self, address)
    }

    fn read_u32(&self, address: PhysicalAddress) -> (r: Result<u32>)
        ensures
            match self.read_spec(address.0, 4) {
                Ok(bytes) => r matches Ok(v) && v == le_u32(bytes, 0),
                Err(e) => r matches Err(re) && re == e,
            },
    {
        PhysicalMemory::read_u32(self, address)
    }

    fn write_u8(&mut self, address: PhysicalAddress, value: u8) -> (r: Result<()>)
        ensures
            match old(self).resolve_write(address.0, 1) {
                Ok(offset) => r is Ok && final(self).ram_view() == old(self).with_ram(
                    offset,
                    seq![value],
                ),
                Err(e) => r matches Err(re) && re == e && final(self).ram_view() == old(self).ram_view(),
            },
            final(self).boot_rom_view() == old(self).boot_rom_view(),
            final(self).system_rom_view() == old(self).system_rom_view(),
            final(self).ram_view().len() == old(self).ram_view().len(),
    {
        PhysicalMemory::write_u8(self, address, value)
    }

    fn write_u32(&mut self, address: PhysicalAddress, value: u32) -> (r: Result<()>)
        ensures
            match old(self).resolve_write(address.0, 4) {
                Ok(offset) => r is Ok && final(self).ram_view() == old(self).with_ram(
                    offset,
                    u32_le(value),
                ),
                Err(e) => r matches Err(re) && re == e && final(self).ram_view() == old(self).ram_view(),
            },
            final(self).boot_rom_view() == old(self).boot_rom_view(),
            final(self).system_rom_view() == old(self).system_rom_view(),
            final(self).ram_view().len() == old(self).ram_view().len(),
    {
        PhysicalMemory::write_u32(self, address, value)
    }

    fn read_range(&self, range: PhysicalRange, destination: &mut [u8]) -> (r: Result<()>)
        ensures
            old(destination)@.len() != range.length_spec() ==> (r matches Err(
                CoreError::PhysicalAccessOutOfBounds { address, needed },
            ) && address == range.start_spec() && needed == old(destination)@.len() && final(destination)@ == old(destination)@),
            old(destination)@.len() == range.length_spec() ==> match self.read_spec(
                range.start_spec(),
                range.length_spec() as int,
            ) {
                Ok(bytes) => r is Ok && final(destination)@ == bytes,
                Err(e) => r matches Err(re) && re == e && final(destination)@ == old(destination)@,
            },
    {
        PhysicalMemory::read_range(self, range, destination)
    }

    fn write_range(&mut self, address: PhysicalAddress, bytes: &[u8]) -> (r: Result<()>)
        ensures
            match old(self).resolve_write(address.0, bytes@.len() as int) {
                Ok(offset) => r is Ok && final(self).ram_view() == old(self).with_ram(
                    offset,
                    bytes@,
                ),
                Err(e) => r matches Err(re) && re == e && final(self).ram_view() == old(self).ram_view(),
            },
            final(self).boot_rom_view() == old(self).boot_rom_view(),
            final(self).system_rom_view() == old(self).system_rom_view(),
            final(self).ram_view().len() == old(self).ram_view().len(),
    {
        PhysicalMemory::write_range(self, address, bytes)
    }
}

impl Default for PhysicalMemory {
    fn default() -> (r: Self)
        ensures
            r.boot_rom_view() == Seq::new(BOOT_ROM_SIZE as nat, |i: int| 0u8),
            r.system_rom_view() == Seq::new(SYSTEM_ROM_SIZE as nat, |i: int| 0u8),
            r.ram_view() == Seq::new(RAM_SIZE as nat, |i: int| 0u8),
    {
        Self::empty()
    }
}

/// Reading back a successful RAM write gives the written bytes; ROM
/// contents do not take part.
pub proof fn lemma_read_after_write(
    before: PhysicalMemory,
    after: PhysicalMemory,
    address: u32,
    bytes: Seq<u8>,
)
    requires
        bytes.len() > 0,
        before.resolve_write(address, bytes.len() as int) is Ok,
        after.ram_view() == before.with_ram(
            before.resolve_write(address, bytes.len() as int)->Ok_0,
            bytes,
        ),
    ensures
        after.read_spec(address, bytes.len() as int) == Ok::<Seq<u8>, CoreError>(bytes),
{
    let offset = before.resolve_write(address, bytes.len() as int)->Ok_0;
    assert(after.ram_view().len() == before.ram_view().len());
    assert(after.ram_view().subrange(offset, offset + bytes.len()) =~= bytes);
}

} // verus!
