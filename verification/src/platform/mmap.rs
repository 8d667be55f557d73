use vstd::prelude::*;

use super::address::{PhysicalAddress, PhysicalRange, VirtualAddress};
use super::error::{PlatformError, Result};

verus! {

/// Size of an MMU page and implemented MMIO page.
pub const PAGE_SIZE: u32 = 4096;
/// Physical boot-ROM base address.
pub const BOOT_ROM_BASE: u32 = 0x0000_0000;
/// Physical boot-ROM size.
pub const BOOT_ROM_SIZE: u32 = 0x1_0000;
/// Physical system-ROM base address.
pub const SYSTEM_ROM_BASE: u32 = 0x0800_0000;
/// Physical system-ROM size.
pub const SYSTEM_ROM_SIZE: u32 = 0x100_0000;
/// Physical RAM base address.
pub const RAM_BASE: u32 = 0x4000_0000;
/// Physical RAM size.
pub const RAM_SIZE: u32 = 0x400_0000;
/// Physical address of the first bootstrap instruction.
pub const BOOTSTRAP_ENTRY_PADDR: u32 = 0x4000_8000;
/// Physical address at which boot ROM writes the boot-info record.
pub const BOOT_INFO_PADDR: u32 = 0x4000_7000;
/// First byte of the boot ROM's stack workspace in RAM.
pub const BOOT_STACK_BASE: u32 = 0x4000_6000;
/// Size of the boot ROM's stack workspace; boot info follows it.
pub const BOOT_STACK_SIZE: u32 = 0x1000;
/// First virtual address of the kernel's higher-half direct map of RAM.
pub const DIRECT_MAP_BASE: u32 = 0xc000_0000;

/// A classified physical memory region.
#[derive(Clone, Copy, Debug, PartialEq, Eq, Structural)]
pub enum MemRegion {
    BootRom,
    SystemRom,
    InterruptController,
    SysTick,
    Dma,
    Rng,
    Uart0,
    Uart1,
    Trace,
    Ram,
}

/// Base address of each region of the physical map.
pub open spec fn region_base(region: MemRegion) -> u32 {
    match region {
        MemRegion::BootRom => BOOT_ROM_BASE,
        MemRegion::SystemRom => SYSTEM_ROM_BASE,
        MemRegion::InterruptController => 0x1000_0000,
        MemRegion::SysTick => 0x1000_1000,
        MemRegion::Dma => 0x1000_2000,
        MemRegion::Rng => 0x1000_3000,
        MemRegion::Uart0 => 0x1000_4000,
        MemRegion::Uart1 => 0x1000_5000,
        MemRegion::Trace => 0x1000_f000,
        MemRegion::Ram => RAM_BASE,
    }
}

/// Size in bytes of each region of the physical map.
pub open spec fn region_size(region: MemRegion) -> u32 {
    match region {
        MemRegion::BootRom => BOOT_ROM_SIZE,
        MemRegion::SystemRom => SYSTEM_ROM_SIZE,
        MemRegion::Ram => RAM_SIZE,
        _ => PAGE_SIZE,
    }
}

/// Whether `address` lies in `region`.
pub open spec fn region_contains(region: MemRegion, address: int) -> bool {
    region_base(region) <= address < region_base(region) + region_size(region)
}

/// The region of the physical map containing `address`, if any.
pub open spec fn region_of(address: u32) -> Option<MemRegion> {
    if region_contains(MemRegion::BootRom, address as int) {
        Some(MemRegion::BootRom)
    } else if region_contains(MemRegion::SystemRom, address as int) {
        Some(MemRegion::SystemRom)
    } else if region_contains(MemRegion::InterruptController, address as int) {
        Some(MemRegion::InterruptController)
    } else if region_contains(MemRegion::SysTick, address as int) {
        Some(MemRegion::SysTick)
    } else if region_contains(MemRegion::Dma, address as int) {
        Some(MemRegion::Dma)
    } else if region_contains(MemRegion::Rng, address as int) {
        Some(MemRegion::Rng)
    } else if region_contains(MemRegion::Uart0, address as int) {
        Some(MemRegion::Uart0)
    } else if region_contains(MemRegion::Uart1, address as int) {
        Some(MemRegion::Uart1)
    } else if region_contains(MemRegion::Trace, address as int) {
        Some(MemRegion::Trace)
    } else if region_contains(MemRegion::Ram, address as int) {
        Some(MemRegion::Ram)
    } else {
        None
    }
}

/// Whether a region is an implemented MMIO device page.
pub open spec fn region_is_device(region: MemRegion) -> bool {
    !(region == MemRegion::BootRom || region == MemRegion::SystemRom || region == MemRegion::Ram)
}

/// Whether `address` is a RAM address.
pub open spec fn in_ram(address: int) -> bool {
    RAM_BASE <= address < RAM_BASE + RAM_SIZE
}

/// Whether `address` lies in the higher-half direct map of RAM.
pub open spec fn in_direct_map(address: int) -> bool {
    DIRECT_MAP_BASE <= address < DIRECT_MAP_BASE + RAM_SIZE
}

/// Every address lies in at most one region, so `region_of` names exactly
/// the region that contains it.
pub proof fn lemma_region_of_is_exact(address: u32, region: MemRegion)
    ensures
        region_of(address) == Some(region) <==> region_contains(region, address as int),
{
}

impl MemRegion {
    /// Returns this region's fixed physical range.
    pub fn range(self) -> (r: PhysicalRange)
        ensures
            r.start_spec() == region_base(self),
            r.length_spec() == region_size(self),
    {
        let (base, size): (u32, u32) = match self {
            MemRegion::BootRom => (BOOT_ROM_BASE, BOOT_ROM_SIZE),
            MemRegion::SystemRom => (SYSTEM_ROM_BASE, SYSTEM_ROM_SIZE),
            MemRegion::InterruptController => (0x1000_0000, PAGE_SIZE),
            MemRegion::SysTick => (0x1000_1000, PAGE_SIZE),
            MemRegion::Dma => (0x1000_2000, PAGE_SIZE),
            MemRegion::Rng => (0x1000_3000, PAGE_SIZE),
            MemRegion::Uart0 => (0x1000_4000, PAGE_SIZE),
            MemRegion::Uart1 => (0x1000_5000, PAGE_SIZE),
            MemRegion::Trace => (0x1000_f000, PAGE_SIZE),
            MemRegion::Ram => (RAM_BASE, RAM_SIZE),
        };
        PhysicalRange::from_known_valid(PhysicalAddress::new(base), size)
    }

    /// Returns this region's first physical address.
    pub fn base(self) -> (r: PhysicalAddress)
        ensures
            r.0 == region_base(self),
    {
        self.range().start()
    }

    /// Returns this region's size in bytes.
    pub fn size(self) -> (r: u32)
        ensures
            r == region_size(self),
    {
        self.range().length()
    }

    /// Returns whether this is an implemented MMIO device page.
    pub fn is_device(self) -> (r: bool)
        ensures
            r == region_is_device(self),
    {
        !matches!(self, MemRegion::BootRom | MemRegion::SystemRom | MemRegion::Ram)
    }

    /// Classifies a physical address by the region that contains it.
    pub fn containing(address: PhysicalAddress) -> (r: Option<MemRegion>)
        ensures
            r == region_of(address.0),
    {
        let regions: [MemRegion; 10] = [
            MemRegion::BootRom,
            MemRegion::SystemRom,
            MemRegion::InterruptController,
            MemRegion::SysTick,
            MemRegion::Dma,
            MemRegion::Rng,
            MemRegion::Uart0,
            MemRegion::Uart1,
            MemRegion::Trace,
            MemRegion::Ram,
        ];
        let mut i: usize = 0;
        while i < 10
            invariant
                0 <= i <= 10,
                regions@ == seq![
                    MemRegion::BootRom,
                    MemRegion::SystemRom,
                    MemRegion::InterruptController,
                    MemRegion::SysTick,
                    MemRegion::Dma,
                    MemRegion::Rng,
                    MemRegion::Uart0,
                    MemRegion::Uart1,
                    MemRegion::Trace,
                    MemRegion::Ram,
                ],
                forall|j: int| 0 <= j < i ==> !region_contains(#[trigger] regions@[j], address.0 as int),
            decreases 10 - i,
        {
            let region = regions[i];
            if region.range().contains_address(address) {
                return Some(region);
            }
            i += 1;
        }
        None
    }
}

/// Converts a physical RAM address into its higher-half direct-map alias.
pub fn direct_map_virtual(address: PhysicalAddress) -> (r: Result<VirtualAddress>)
    ensures
        match r {
            Ok(v) => in_ram(address.0 as int) && v.0 == address.0 + 0x8000_0000,
            Err(e) => !in_ram(address.0 as int) && e == PlatformError::AddressOutsideRam(address.0),
        },
{
    if MemRegion::containing(address) != Some(MemRegion::Ram) {
        return Err(PlatformError::AddressOutsideRam(address.0));
    }
    Ok(VirtualAddress::new(address.0 + 0x8000_0000))
}

/// Converts a higher-half direct-map virtual address into physical RAM.
pub fn direct_map_physical(address: VirtualAddress) -> (r: Result<PhysicalAddress>)
    ensures
        match r {
            Ok(p) => in_direct_map(address.0 as int) && p.0 == address.0 - 0x8000_0000,
            Err(e) => !in_direct_map(address.0 as int) && e == PlatformError::AddressOutsideRam(
                address.0,
            ),
        },
{
    let value = address.0;
    if !(0xc000_0000 <= value && value < 0xc400_0000) {
        return Err(PlatformError::AddressOutsideRam(value));
    }
    Ok(PhysicalAddress::new(value - 0x8000_0000))
}

/// The direct map is a bijection between RAM and its higher-half alias:
/// mapping a RAM address up and back down returns it, and mapping a
/// direct-map address down and back up returns it.
pub proof fn lemma_direct_map_round_trip(physical: u32, virtual_address: u32)
    ensures
        in_ram(physical as int) ==> in_direct_map(physical + 0x8000_0000) && (physical
            + 0x8000_0000) - 0x8000_0000 == physical,
        in_direct_map(virtual_address as int) ==> in_ram(virtual_address - 0x8000_0000) && (
        virtual_address - 0x8000_0000) + 0x8000_0000 == virtual_address,
{
}

} // verus!
