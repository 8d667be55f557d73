use vstd::prelude::*;

use crate::platform::access::Access;
use crate::platform::address::{PhysicalAddress, VirtualAddress};
use crate::platform::bytes::u32_le;
use crate::platform::mmap::{MemRegion, region_is_device, region_of, RAM_BASE};
use crate::platform::mmu::{
    Cp15Operation, FaultCause, FaultStatus, PageDirectoryEntry, PageTableEntry, PTE_PAGE_MASK,
    PTE_USER, PTE_VALID, fault_status_raw, page_table_page_error, pde_bits_valid, protection_fault,
    pte_after_access, pte_authorize_spec, pte_target_error,
};
use crate::platform::observability::MmuInspection;

use super::memory::PhysicalMemory;

verus! {

/// A failed translation or protection check recorded for DFSR and DFAR.
#[derive(Clone, Copy, Debug, PartialEq, Eq, Structural)]
pub struct MmuFault {
    pub address: VirtualAddress,
    pub status: FaultStatus,
}

/// The fault recorded for a refused access.
pub open spec fn fault_of(address: u32, cause: FaultCause, user_mode: bool, access: Access) -> MmuFault {
    MmuFault {
        address: VirtualAddress(address),
        status: FaultStatus(fault_status_raw(cause, user_mode, access)),
    }
}

/// The outcome of a successful walk: the physical address and the updated
/// page-table entry to store, if the access metadata changed.
pub struct WalkHit {
    pub physical: u32,
    pub update: Option<(u32, u32)>,
}

/// The two-level page-table walk for `address` from page directory
/// `ttbr0` over `memory`.
///
/// The directory entry at `ttbr0 + 4 * address[31:22]` must read, leave its
/// reserved bits clear, be valid and name a RAM page table. The table entry
/// at `table + 4 * address[21:12]` must read and be valid, must admit the
/// access, must not grant user access to a device page, must name a whole
/// mapping target, and a write must not target ROM. A successful walk sets
/// Accessed, and Dirty for a write, in the table entry.
pub open spec fn walk_spec(
    memory: PhysicalMemory,
    ttbr0: u32,
    address: u32,
    access: Access,
    user_mode: bool,
) -> core::result::Result<WalkHit, FaultCause> {
    let directory_address = (ttbr0 + ((address >> 22) & 0x3ff) * 4) as u32;
    match memory.read_u32_spec(directory_address) {
        None => Err(FaultCause::Translation),
        Some(pde) => if !pde_bits_valid(pde) || pde & PTE_VALID == 0 || page_table_page_error(
            pde & PTE_PAGE_MASK,
        ) is Some {
            Err(FaultCause::Translation)
        } else {
            let entry_address = ((pde & PTE_PAGE_MASK) + ((address >> 12) & 0x3ff) * 4) as u32;
            match memory.read_u32_spec(entry_address) {
                None => Err(FaultCause::Translation),
                Some(raw) => if raw & PTE_VALID == 0 {
                    Err(FaultCause::Translation)
                } else if pte_authorize_spec(raw, access, user_mode) is Some {
                    Err(pte_authorize_spec(raw, access, user_mode)->0)
                } else if raw & PTE_USER != 0 && region_of(raw & PTE_PAGE_MASK) is Some
                    && region_is_device(region_of(raw & PTE_PAGE_MASK)->0) {
                    Err(protection_fault(access))
                } else if pte_target_error(raw) is Some {
                    Err(FaultCause::Translation)
                } else if access == Access::Write && (region_of(raw & PTE_PAGE_MASK) == Some(
                    MemRegion::BootRom,
                ) || region_of(raw & PTE_PAGE_MASK) == Some(MemRegion::SystemRom)) {
                    Err(FaultCause::WriteProtection)
                } else if pte_after_access(raw, access) != raw && memory.resolve_write(
                    entry_address,
                    4,
                ) is Err {
                    Err(FaultCause::Translation)
                } else {
                    Ok(
                        WalkHit {
                            physical: (raw & PTE_PAGE_MASK) | (address & 0xfff),
                            update: if pte_after_access(raw, access) != raw {
                                Some((entry_address, pte_after_access(raw, access)))
                            } else {
                                None
                            },
                        },
                    )
                },
            }
        },
    }
}

/// A successful walk keeps the page offset of the virtual address (its low
/// twelve bits) and takes the page frame from the valid second-level entry
/// the address indexes: the directory entry at TTBR0 plus four bytes per
/// 4 MiB of address, then the table entry at that directory entry's frame
/// plus four bytes per 4 KiB page within the 4 MiB.
pub proof fn lemma_walk_keeps_page_offset(
    memory: PhysicalMemory,
    ttbr0: u32,
    address: u32,
    access: Access,
    user_mode: bool,
)
    ensures
        walk_spec(memory, ttbr0, address, access, user_mode) matches Ok(hit) ==> {
            &&& hit.physical % 0x1000 == address % 0x1000
            &&& memory.read_u32_spec((ttbr0 + (address / 0x40_0000) * 4) as u32) matches Some(pde)
            &&& memory.read_u32_spec(
                ((pde / 0x1000) * 0x1000 + ((address / 0x1000) % 0x400) * 4) as u32,
            ) matches Some(pte)
            &&& pte % 2 == 1
            &&& hit.physical / 0x1000 == pte / 0x1000
        },
{
    assert((address >> 22) & 0x3ff == address / 0x40_0000) by (bit_vector);
    assert((address >> 12) & 0x3ff == (address / 0x1000) % 0x400) by (bit_vector);
    match walk_spec(memory, ttbr0, address, access, user_mode) {
        Ok(hit) => {
            let pde = memory.read_u32_spec((ttbr0 + ((address >> 22) & 0x3ff) * 4) as u32)->0;
            let raw = memory.read_u32_spec(
                ((pde & PTE_PAGE_MASK) + ((address >> 12) & 0x3ff) * 4) as u32,
            )->0;
            assert(pde & 0xffff_f000 == (pde / 0x1000) * 0x1000) by (bit_vector);
            assert(raw & 1 != 0 ==> raw % 2 == 1) by (bit_vector);
            assert(((raw & 0xffff_f000) | (address & 0xfff)) % 0x1000 == address % 0x1000) by (bit_vector);
            assert(((raw & 0xffff_f000) | (address & 0xfff)) / 0x1000 == raw / 0x1000) by (bit_vector);
        },
        Err(_) => {},
    }
}

/// Abstract MMU state.
pub struct MmuView {
    pub enabled: bool,
    pub ttbr0: u32,
    pub vector_base: u32,
    pub last_fault: Option<MmuFault>,
}

/// The MMU after reset: disabled, all registers zero, no fault recorded.
pub open spec fn reset_mmu() -> MmuView {
    MmuView { enabled: false, ttbr0: 0, vector_base: 0, last_fault: None }
}

/// Backend-independent custom two-level MMU walker.
/// Whether inspection `r` reports the state `v`.
pub open spec fn mmu_inspected(r: MmuInspection, v: MmuView) -> bool {
    &&& r.enabled == v.enabled
    &&& r.ttbr0.0 == v.ttbr0
    &&& r.last_fault_address == (match v.last_fault { Some(fault) => Some(fault.address.0), None => None })
    &&& r.last_fault_status == (match v.last_fault { Some(fault) => Some(fault.status), None => None })
}

pub struct Mmu {
    enabled: bool,
    ttbr0: PhysicalAddress,
    vector_base: VirtualAddress,
    last_fault: Option<MmuFault>,
}

impl View for Mmu {
    type V = MmuView;

    closed spec fn view(&self) -> MmuView {
        MmuView {
            enabled: self.enabled,
            ttbr0: self.ttbr0.0,
            vector_base: self.vector_base.0,
            last_fault: self.last_fault,
        }
    }
}

/// MMU state after a CP15 operation: TTBR0, SCTLR.M and VBAR writes take
/// effect; TLBIALL and the fault-register reads leave it unchanged.
pub open spec fn after_cp15(v: MmuView, operation: Cp15Operation) -> MmuView {
    match operation {
        Cp15Operation::SetTtbr0(address) => MmuView { ttbr0: address.0, ..v },
        Cp15Operation::SetMmuEnabled(enabled) => MmuView { enabled, ..v },
        Cp15Operation::SetVectorBase(base) => MmuView { vector_base: base.0, ..v },
        _ => v,
    }
}

impl Mmu {
    pub fn new() -> (r: Self)
        ensures
            r@ == reset_mmu(),
    {
        Mmu {
            enabled: false,
            ttbr0: PhysicalAddress::new(0),
            vector_base: VirtualAddress::new(0),
            last_fault: None,
        }
    }

    pub fn enabled(&self) -> (r: bool)
        ensures
            r == self@.enabled,
    {
        self.enabled
    }

    pub fn ttbr0(&self) -> (r: PhysicalAddress)
        ensures
            r.0 == self@.ttbr0,
    {
        self.ttbr0
    }

    /// Returns the CP15 VBAR value.
    pub fn vector_base(&self) -> (r: VirtualAddress)
        ensures
            r.0 == self@.vector_base,
    {
        self.vector_base
    }

    pub fn last_fault(&self) -> (r: Option<MmuFault>)
        ensures
            r == self@.last_fault,
    {
        self.last_fault
    }

    /// Returns the backend-independent MMU inspection projection.
    pub fn inspect(&self) -> (r: MmuInspection)
        ensures
            mmu_inspected(r, self@),
    {
        MmuInspection {
            enabled: self.enabled,
            ttbr0: self.ttbr0,
            last_fault_address: match self.last_fault {
                Some(fault) => Some(fault.address.get()),
                None => None,
            },
            last_fault_status: match self.last_fault {
                Some(fault) => Some(fault.status),
                None => None,
            },
        }
    }

    pub fn set_ttbr0(&mut self, ttbr0: PhysicalAddress)
        ensures
            final(self)@ == (MmuView { ttbr0: ttbr0.0, ..old(self)@ }),
    {
        self.ttbr0 = ttbr0;
    }

    pub fn set_enabled(&mut self, enabled: bool)
        ensures
            final(self)@ == (MmuView { enabled, ..old(self)@ }),
    {
        self.enabled = enabled;
    }

    /// Represents TLBIALL: this walker caches no translations, so the state
    /// is unchanged.
    pub fn invalidate_all(&mut self)
        ensures
            final(self)@ == old(self)@,
    {
    }

    /// Applies the CP15 operations that alter MMU state.
    pub fn apply_cp15(&mut self, operation: Cp15Operation)
        ensures
            final(self)@ == after_cp15(old(self)@, operation),
    {
        match operation {
            Cp15Operation::SetTtbr0(address) => self.set_ttbr0(address),
            Cp15Operation::SetMmuEnabled(enabled) => self.set_enabled(enabled),
            Cp15Operation::InvalidateAll => self.invalidate_all(),
            Cp15Operation::SetVectorBase(base) => self.vector_base = base,
            Cp15Operation::ReadFaultStatus | Cp15Operation::ReadFaultAddress => {},
        }
    }

    /// Records a refused MMIO access as a device-access fault.
    pub fn record_invalid_mmio_fault(&mut self, address: VirtualAddress, access: Access, user_mode: bool) -> (r: MmuFault)
        ensures
            r == fault_of(address.0, FaultCause::DeviceAccess, user_mode, access),
            final(self)@ == (MmuView { last_fault: Some(r), ..old(self)@ }),
    {
        let fault = MmuFault { address, status: FaultStatus::new(FaultCause::DeviceAccess, user_mode, access) };
        self.last_fault = Some(fault);
        fault
    }

    fn fault(&mut self, address: VirtualAddress, cause: FaultCause, user_mode: bool, access: Access) -> (r: MmuFault)
        ensures
            r == fault_of(address.0, cause, user_mode, access),
            final(self)@ == (MmuView { last_fault: Some(r), ..old(self)@ }),
    {
        let fault = MmuFault { address, status: FaultStatus::new(cause, user_mode, access) };
        self.last_fault = Some(fault);
        fault
    }

    /// Translates `address` for `access`; with the MMU disabled addresses
    /// map to themselves.
    pub fn translate(
        &mut self,
        memory: &mut PhysicalMemory,
        address: VirtualAddress,
        access: Access,
        user_mode: bool,
    ) -> (r: core::result::Result<PhysicalAddress, MmuFault>)
        requires
            old(self)@.enabled ==> old(self)@.ttbr0 + ((address.0 >> 22) & 0x3ff) * 4 <= u32::MAX,
        ensures
            !old(self)@.enabled ==> r == Ok::<PhysicalAddress, MmuFault>(PhysicalAddress(address.0))
                && final(self)@ == old(self)@ && final(memory).ram_view() == old(memory).ram_view(),
            old(self)@.enabled ==> match walk_spec(*old(memory), old(self)@.ttbr0, address.0, access, user_mode) {
                Err(cause) => {
                    &&& r == Err::<PhysicalAddress, MmuFault>(fault_of(address.0, cause, user_mode, access))
                    &&& final(self)@ == MmuView { last_fault: Some(fault_of(address.0, cause, user_mode, access)), ..old(self)@ }
                    &&& final(memory).ram_view() == old(memory).ram_view()
                },
                Ok(hit) => {
                    &&& r == Ok::<PhysicalAddress, MmuFault>(PhysicalAddress(hit.physical))
                    &&& final(self)@ == old(self)@
                    &&& final(memory).ram_view() == match hit.update {
                        None => old(memory).ram_view(),
                        Some((entry, value)) => old(memory).with_ram(entry - RAM_BASE, u32_le(value)),
                    }
                },
            },
            final(memory).boot_rom_view() == old(memory).boot_rom_view(),
            final(memory).system_rom_view() == old(memory).system_rom_view(),
            final(memory).ram_view().len() == old(memory).ram_view().len(),
    {
        if !self.enabled {
            return Ok(PhysicalAddress::new(address.get()));
        }
        let va = address.get();
        let directory_index = (va >> 22) & 0x3ff;
        assert((va >> 22) & 0x3ff <= 0x3ff) by (bit_vector);
        let directory_address = PhysicalAddress::new(self.ttbr0.get() + directory_index * 4);
        let pde = match memory.read_u32(directory_address) {
            Ok(raw) => raw,
            Err(_) => return Err(self.fault(address, FaultCause::Translation, user_mode, access)),
        };
        let directory = match PageDirectoryEntry::new(pde) {
            Ok(entry) => entry,
            Err(_) => return Err(self.fault(address, FaultCause::Translation, user_mode, access)),
        };
        let table = match directory.table_address() {
            Ok(Some(table)) => table,
            _ => return Err(self.fault(address, FaultCause::Translation, user_mode, access)),
        };
        let table_index = (va >> 12) & 0x3ff;
        assert((va >> 12) & 0x3ff <= 0x3ff) by (bit_vector);
        let entry_address = PhysicalAddress::new(table.get() + table_index * 4);
        let raw = match memory.read_u32(entry_address) {
            Ok(raw) => raw,
            Err(_) => return Err(self.fault(address, FaultCause::Translation, user_mode, access)),
        };
        let entry = PageTableEntry::new(raw);
        if raw & PTE_VALID == 0 {
            return Err(self.fault(address, FaultCause::Translation, user_mode, access));
        }
        match entry.authorize(access, user_mode) {
            Ok(()) => {},
            Err(cause) => return Err(self.fault(address, cause, user_mode, access)),
        }
        let raw_target = PhysicalAddress::new(raw & PTE_PAGE_MASK);
        let user_device = match MemRegion::containing(raw_target) {
            Some(region) => raw & PTE_USER != 0 && region.is_device(),
            None => false,
        };
        if user_device {
            let cause = match access {
                Access::Fetch => FaultCause::ExecuteProtection,
                Access::Read => FaultCause::ReadProtection,
                Access::Write => FaultCause::WriteProtection,
            };
            return Err(self.fault(address, cause, user_mode, access));
        }
        let target = match entry.target_address() {
            Ok(Some(target)) => target,
            _ => return Err(self.fault(address, FaultCause::Translation, user_mode, access)),
        };
        let rom_write = match MemRegion::containing(target) {
            Some(MemRegion::BootRom) | Some(MemRegion::SystemRom) => matches!(access, Access::Write),
            _ => false,
        };
        if rom_write {
            return Err(self.fault(address, FaultCause::WriteProtection, user_mode, access));
        }
        let updated = entry.record_successful_access(access);
        if updated.raw() != raw {
            match memory.write_u32(entry_address, updated.raw()) {
                Ok(()) => {},
                Err(_) => return Err(self.fault(address, FaultCause::Translation, user_mode, access)),
            }
        }
        Ok(PhysicalAddress::new(target.get() | (address.get() & 0x0fff)))
    }
}

impl Default for Mmu {
    fn default() -> (r: Self)
        ensures
            r@ == reset_mmu(),
    {
        Mmu::new()
    }
}

} // verus!
