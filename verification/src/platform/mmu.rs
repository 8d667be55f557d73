use vstd::prelude::*;

use super::access::{Access, Permissions, permits_spec, PERMISSION_USER};
use super::address::{PhysicalAddress, PhysicalRange, VirtualAddress, address_space_end};
use super::error::{PlatformError, Result};
use super::mmap::{
    MemRegion, PAGE_SIZE, region_of, region_contains, region_is_device, in_ram, RAM_BASE, RAM_SIZE,
    region_base, region_size,
};

verus! {

/// Valid PTE and PDE bit.
pub const PTE_VALID: u32 = 1;
/// Writable PTE bit.
pub const PTE_WRITABLE: u32 = 2;
/// User-accessible PTE bit.
pub const PTE_USER: u32 = 4;
/// Executable PTE bit.
pub const PTE_EXECUTABLE: u32 = 8;
/// Readable PTE bit.
pub const PTE_READABLE: u32 = 16;
/// MMU-managed successful-access bit.
pub const PTE_ACCESSED: u32 = 32;
/// MMU-managed successful-write bit.
pub const PTE_DIRTY: u32 = 64;
/// Kernel-owned replacement-policy metadata bits.
pub const PTE_SOFTWARE_MASK: u32 = 0x0000_0f80;

/// Physical page-number bits of a PDE or PTE.
pub const PTE_PAGE_MASK: u32 = 0xffff_f000;
/// Bits a page-directory entry may set.
pub const PDE_ALLOWED_MASK: u32 = 0xffff_f001;

/// A supported CP15 operation after instruction decoding and privilege checks.
#[derive(Clone, Copy, Debug, PartialEq, Eq, Structural)]
pub enum Cp15Operation {
    /// Install a 4 KiB-aligned physical RAM page directory.
    SetTtbr0(PhysicalAddress),
    /// Enable or disable MMU translation through SCTLR.M.
    SetMmuEnabled(bool),
    /// Invalidate all cached MMU translations.
    InvalidateAll,
    /// Set the 32-byte-aligned exception vector base.
    SetVectorBase(VirtualAddress),
    /// Read most recent fault status through DFSR.
    ReadFaultStatus,
    /// Read most recent fault address through DFAR.
    ReadFaultAddress,
}

/// Why `address` cannot hold a page directory or page table, if it cannot:
/// it must be 4 KiB aligned and its whole page must lie in RAM.
pub open spec fn page_table_page_error(address: u32) -> Option<PlatformError> {
    if address % 4096 != 0 {
        Some(PlatformError::UnalignedPage(address))
    } else if address + PAGE_SIZE > address_space_end() {
        Some(PlatformError::AddressRangeOverflow { start: address, length: PAGE_SIZE })
    } else if !(RAM_BASE <= address && address + PAGE_SIZE <= RAM_BASE + RAM_SIZE) {
        Some(PlatformError::AddressOutsideRam(address))
    } else {
        None
    }
}

/// Whether an aligned page at `address` lies wholly in one region of the
/// physical map.
pub open spec fn mmu_target_page_spec(address: u32) -> bool {
    &&& address % 4096 == 0
    &&& address + PAGE_SIZE <= address_space_end()
    &&& match region_of(address) {
        Some(region) => address + PAGE_SIZE <= region_base(region) + region_size(region),
        None => false,
    }
}

impl Cp15Operation {
    /// Validates a TTBR0 value and produces its CP15 operation.
    pub fn set_ttbr0(value: u32) -> (r: Result<Self>)
        ensures
            match page_table_page_error(value) {
                None => r == Ok::<Cp15Operation, PlatformError>(
                    Cp15Operation::SetTtbr0(PhysicalAddress(value)),
                ),
                Some(e) => r == Err::<Cp15Operation, PlatformError>(e),
            },
    {
        let address = PhysicalAddress::new(value);
        match validate_page_table_page(address) {
            Ok(()) => Ok(Cp15Operation::SetTtbr0(address)),
            Err(e) => Err(e),
        }
    }

    /// Produces the platform-defined SCTLR operation from a raw register value.
    pub fn set_mmu_enabled(value: u32) -> (r: Self)
        ensures
            r == Cp15Operation::SetMmuEnabled(value % 2 == 1),
    {
        assert((value & 1 != 0) == (value % 2 == 1)) by (bit_vector);
        Cp15Operation::SetMmuEnabled(value & 1 != 0)
    }

    /// Validates a VBAR value and produces its CP15 operation.
    pub fn set_vector_base(value: u32) -> (r: Result<Self>)
        ensures
            value % 32 == 0 ==> r == Ok::<Cp15Operation, PlatformError>(
                Cp15Operation::SetVectorBase(VirtualAddress(value)),
            ),
            value % 32 != 0 ==> r == Err::<Cp15Operation, PlatformError>(
                PlatformError::UnalignedVectorBase(value),
            ),
    {
        assert((value & 0x1f == 0) == (value % 32 == 0)) by (bit_vector);
        if value & 0x1f != 0 {
            return Err(PlatformError::UnalignedVectorBase(value));
        }
        Ok(Cp15Operation::SetVectorBase(VirtualAddress::new(value)))
    }
}

/// Validates a physical RAM page used as a page directory or page table.
pub fn validate_page_table_page(address: PhysicalAddress) -> (r: Result<()>)
    ensures
        match page_table_page_error(address.0) {
            None => r == Ok::<(), PlatformError>(()),
            Some(e) => r == Err::<(), PlatformError>(e),
        },
{
    if !address.is_page_aligned() {
        return Err(PlatformError::UnalignedPage(address.get()));
    }
    let page = match PhysicalRange::new(address, PAGE_SIZE) {
        Ok(page) => page,
        Err(e) => return Err(e),
    };
    if !MemRegion::Ram.range().contains_range(page) {
        return Err(PlatformError::AddressOutsideRam(address.get()));
    }
    Ok(())
}

/// Returns whether an aligned physical page can be a valid MMU mapping target.
pub fn is_mmu_target_page(address: PhysicalAddress) -> (r: bool)
    ensures
        r == mmu_target_page_spec(address.0),
{
    if !address.is_page_aligned() {
        return false;
    }
    let page = match PhysicalRange::new(address, PAGE_SIZE) {
        Ok(page) => page,
        Err(_) => return false,
    };
    let region = match MemRegion::containing(address) {
        Some(region) => region,
        None => return false,
    };
    region.range().contains_range(page)
}

/// A raw page-directory entry whose reserved bits are clear.
#[derive(Clone, Copy, Debug, PartialEq, Eq)]
pub struct PageDirectoryEntry(u32);

/// Whether a raw page-directory entry leaves every reserved bit clear.
pub open spec fn pde_bits_valid(raw: u32) -> bool {
    raw & 0x0000_0ffe == 0
}

impl PageDirectoryEntry {
    #[verifier::type_invariant]
    spec fn reserved_bits_clear(self) -> bool {
        pde_bits_valid(self.0)
    }

    /// The ABI-encoded entry.
    pub closed spec fn raw_spec(self) -> u32 {
        self.0
    }

    /// Creates an entry after rejecting reserved bits.
    pub fn new(raw: u32) -> (r: Result<Self>)
        ensures
            pde_bits_valid(raw) ==> r is Ok && r->Ok_0.raw_spec() == raw,
            !pde_bits_valid(raw) ==> r == Err::<PageDirectoryEntry, PlatformError>(
                PlatformError::InvalidPageDirectoryBits(raw),
            ),
    {
        assert((raw & !PDE_ALLOWED_MASK != 0) == (raw & 0x0000_0ffe != 0)) by (bit_vector);
        if raw & !PDE_ALLOWED_MASK != 0 {
            return Err(PlatformError::InvalidPageDirectoryBits(raw));
        }
        Ok(PageDirectoryEntry(raw))
    }

    /// Returns the ABI-encoded entry.
    pub fn raw(self) -> (r: u32)
        ensures
            r == self.raw_spec(),
            pde_bits_valid(r),
    {
        proof {
            use_type_invariant(&self);
        }
        self.0
    }

    /// Returns whether this entry is valid.
    pub fn is_valid(self) -> (r: bool)
        ensures
            r == (self.raw_spec() & PTE_VALID != 0),
    {
        self.0 & PTE_VALID != 0
    }

    /// Returns and validates the page-table physical address when valid.
    pub fn table_address(self) -> (r: Result<Option<PhysicalAddress>>)
        ensures
            self.raw_spec() & PTE_VALID == 0 ==> r == Ok::<Option<PhysicalAddress>, PlatformError>(
                None,
            ),
            self.raw_spec() & PTE_VALID != 0 ==> match page_table_page_error(
                self.raw_spec() & PTE_PAGE_MASK,
            ) {
                None => r == Ok::<Option<PhysicalAddress>, PlatformError>(
                    Some(PhysicalAddress(self.raw_spec() & PTE_PAGE_MASK)),
                ),
                Some(e) => r == Err::<Option<PhysicalAddress>, PlatformError>(e),
            },
    {
        if !self.is_valid() {
            return Ok(None);
        }
        let address = PhysicalAddress::new(self.0 & PTE_PAGE_MASK);
        match validate_page_table_page(address) {
            Ok(()) => Ok(Some(address)),
            Err(e) => Err(e),
        }
    }
}

/// Permission bits carried by a raw page-table entry.
pub open spec fn pte_permissions(raw: u32) -> u8 {
    (raw & 0x1e) as u8
}

/// The kernel-owned five-bit software metadata field of a raw PTE.
pub open spec fn pte_software_metadata(raw: u32) -> u8 {
    ((raw & PTE_SOFTWARE_MASK) >> 7) as u8
}

/// The fault an attempted access through a raw PTE raises, if any.
pub open spec fn pte_authorize_spec(raw: u32, access: Access, user_mode: bool) -> Option<
    FaultCause,
> {
    if raw & PTE_VALID == 0 {
        Some(FaultCause::Translation)
    } else if permits_spec(pte_permissions(raw), access, user_mode) {
        None
    } else {
        Some(protection_fault(access))
    }
}

/// The protection fault raised by a refused access of each kind.
pub open spec fn protection_fault(access: Access) -> FaultCause {
    match access {
        Access::Fetch => FaultCause::ExecuteProtection,
        Access::Read => FaultCause::ReadProtection,
        Access::Write => FaultCause::WriteProtection,
    }
}

/// Why a valid raw PTE's target cannot be mapped, if it cannot.
pub open spec fn pte_target_error(raw: u32) -> Option<PlatformError> {
    let address = raw & PTE_PAGE_MASK;
    if !mmu_target_page_spec(address) {
        Some(PlatformError::InvalidPageTableTarget(address))
    } else if region_is_device(region_of(address)->0) && pte_permissions(raw) & PERMISSION_USER
        == PERMISSION_USER {
        Some(PlatformError::UserDeviceMapping(address))
    } else {
        None
    }
}

/// A raw page-table entry value after a successful access.
pub open spec fn pte_after_access(raw: u32, access: Access) -> u32 {
    if access == Access::Write {
        raw | PTE_ACCESSED | PTE_DIRTY
    } else {
        raw | PTE_ACCESSED
    }
}

/// A raw page-table entry with ABI validation and access-bit helpers.
#[derive(Clone, Copy, Debug, PartialEq, Eq, Structural)]
pub struct PageTableEntry(pub u32);

impl PageTableEntry {
    /// Creates an entry from its ABI-encoded value.
    pub fn new(raw: u32) -> (r: Self)
        ensures
            r.0 == raw,
    {
        PageTableEntry(raw)
    }

    /// Returns the ABI-encoded entry.
    pub fn raw(self) -> (r: u32)
        ensures
            r == self.0,
    {
        self.0
    }

    /// Returns whether this entry is valid.
    pub fn is_valid(self) -> (r: bool)
        ensures
            r == (self.0 & PTE_VALID != 0),
    {
        self.0 & PTE_VALID != 0
    }

    /// Returns permissions represented by this entry.
    pub fn permissions(self) -> (r: Permissions)
        ensures
            r.bits == pte_permissions(self.0),
    {
        Permissions::from_bits_retain((self.0 & 0x1e) as u8)
    }

    /// Returns the kernel-owned five-bit software metadata field.
    pub fn software_metadata(self) -> (r: u8)
        ensures
            r == pte_software_metadata(self.0),
            r < 32,
    {
        let raw = self.0;
        assert((raw & PTE_SOFTWARE_MASK) >> 7 < 32) by (bit_vector);
        ((raw & PTE_SOFTWARE_MASK) >> 7) as u8
    }

    /// Replaces only the kernel-owned software metadata bits.
    pub fn with_software_metadata(self, metadata: u8) -> (r: Self)
        ensures
            r.0 == (self.0 & !PTE_SOFTWARE_MASK) | (((metadata & 0x1f) as u32) << 7),
    {
        PageTableEntry((self.0 & !PTE_SOFTWARE_MASK) | (((metadata & 0x1f) as u32) << 7))
    }

    /// Returns and validates the physical target page when valid.
    pub fn target_address(self) -> (r: Result<Option<PhysicalAddress>>)
        ensures
            self.0 & PTE_VALID == 0 ==> r == Ok::<Option<PhysicalAddress>, PlatformError>(None),
            self.0 & PTE_VALID != 0 ==> match pte_target_error(self.0) {
                None => r == Ok::<Option<PhysicalAddress>, PlatformError>(
                    Some(PhysicalAddress(self.0 & PTE_PAGE_MASK)),
                ),
                Some(e) => r == Err::<Option<PhysicalAddress>, PlatformError>(e),
            },
    {
        if !self.is_valid() {
            return Ok(None);
        }
        let address = PhysicalAddress::new(self.0 & PTE_PAGE_MASK);
        if !is_mmu_target_page(address) {
            return Err(PlatformError::InvalidPageTableTarget(address.get()));
        }
        let device = match MemRegion::containing(address) {
            Some(region) => region.is_device(),
            None => false,
        };
        if device && self.permissions().contains(Permissions::user()) {
            return Err(PlatformError::UserDeviceMapping(address.get()));
        }
        Ok(Some(address))
    }

    /// Returns the failure cause for an attempted access, if any.
    pub fn authorize(self, access: Access, user_mode: bool) -> (r: core::result::Result<
        (),
        FaultCause,
    >)
        ensures
            match pte_authorize_spec(self.0, access, user_mode) {
                None => r == Ok::<(), FaultCause>(()),
                Some(cause) => r == Err::<(), FaultCause>(cause),
            },
    {
        if !self.is_valid() {
            return Err(FaultCause::Translation);
        }
        if self.permissions().permits(access, user_mode) {
            return Ok(());
        }
        Err(
            match access {
                Access::Fetch => FaultCause::ExecuteProtection,
                Access::Read => FaultCause::ReadProtection,
                Access::Write => FaultCause::WriteProtection,
            },
        )
    }

    /// Sets MMU-managed access metadata after a successful access.
    pub fn record_successful_access(self, access: Access) -> (r: Self)
        ensures
            r.0 == pte_after_access(self.0, access),
    {
        let mut raw = self.0 | PTE_ACCESSED;
        if matches!(access, Access::Write) {
            raw = raw | PTE_DIRTY;
            assert(self.0 | PTE_ACCESSED | PTE_DIRTY == (self.0 | 32u32) | 64u32);
        }
        PageTableEntry(raw)
    }

    /// Clears MMU-managed Accessed and Dirty metadata for a new sampling epoch.
    pub fn clear_access_metadata(self) -> (r: Self)
        ensures
            r.0 == self.0 & !(PTE_ACCESSED | PTE_DIRTY),
    {
        PageTableEntry(self.0 & !(PTE_ACCESSED | PTE_DIRTY))
    }
}

/// Replacing a PTE's software metadata stores exactly its low five bits and
/// leaves every other bit of the entry as it was.
pub proof fn lemma_software_metadata_round_trip(raw: u32, metadata: u8)
    ensures
        pte_software_metadata(
            (raw & !PTE_SOFTWARE_MASK) | (((metadata & 0x1f) as u32) << 7),
        ) == metadata & 0x1f,
        ((raw & !PTE_SOFTWARE_MASK) | (((metadata & 0x1f) as u32) << 7)) & !PTE_SOFTWARE_MASK
            == raw & !PTE_SOFTWARE_MASK,
{
    assert((((raw & !0x0f80u32) | (((metadata & 0x1f) as u32) << 7)) & 0x0f80u32) >> 7 == (
    metadata & 0x1f) as u32) by (bit_vector);
    assert(((raw & !0x0f80u32) | (((metadata & 0x1f) as u32) << 7)) & !0x0f80u32 == raw
        & !0x0f80u32) by (bit_vector);
}

/// Recording a successful access sets Accessed, sets Dirty exactly for a
/// write, and leaves the software metadata, permissions and target intact;
/// clearing the access metadata clears both bits and keeps everything else.
pub proof fn lemma_access_metadata(raw: u32, access: Access)
    ensures
        pte_after_access(raw, access) & PTE_ACCESSED != 0,
        (pte_after_access(raw, access) & PTE_DIRTY != 0) == (access == Access::Write || raw
            & PTE_DIRTY != 0),
        pte_software_metadata(pte_after_access(raw, access)) == pte_software_metadata(raw),
        pte_permissions(pte_after_access(raw, access)) == pte_permissions(raw),
        pte_after_access(raw, access) & PTE_PAGE_MASK == raw & PTE_PAGE_MASK,
        (raw & !(PTE_ACCESSED | PTE_DIRTY)) & (PTE_ACCESSED | PTE_DIRTY) == 0,
        pte_software_metadata(raw & !(PTE_ACCESSED | PTE_DIRTY)) == pte_software_metadata(raw),
        pte_permissions(raw & !(PTE_ACCESSED | PTE_DIRTY)) == pte_permissions(raw),
{
    assert(((raw | 32u32) & 32u32 != 0) && (((raw | 32u32) | 64u32) & 32u32 != 0)) by (bit_vector);
    assert((((raw | 32u32) | 64u32) & 64u32 != 0) && (((raw | 32u32) & 64u32 != 0) == (raw & 64u32
        != 0))) by (bit_vector);
    assert((((raw | 32u32) & 0x0f80u32) >> 7) as u8 == ((raw & 0x0f80u32) >> 7) as u8 && ((((raw
        | 32u32) | 64u32) & 0x0f80u32) >> 7) as u8 == ((raw & 0x0f80u32) >> 7) as u8)
        by (bit_vector);
    assert(((raw | 32u32) & 0x1eu32) as u8 == (raw & 0x1eu32) as u8 && (((raw | 32u32) | 64u32)
        & 0x1eu32) as u8 == (raw & 0x1eu32) as u8) by (bit_vector);
    assert((raw | 32u32) & 0xffff_f000u32 == raw & 0xffff_f000u32 && ((raw | 32u32) | 64u32)
        & 0xffff_f000u32 == raw & 0xffff_f000u32) by (bit_vector);
    assert((raw & !(32u32 | 64u32)) & (32u32 | 64u32) == 0) by (bit_vector);
    assert((((raw & !(32u32 | 64u32)) & 0x0f80u32) >> 7) as u8 == ((raw & 0x0f80u32) >> 7) as u8)
        by (bit_vector);
    assert(((raw & !(32u32 | 64u32)) & 0x1eu32) as u8 == (raw & 0x1eu32) as u8) by (bit_vector);
}

/// ABI fault causes encoded in the low byte of DFSR.
#[derive(Clone, Copy, Debug, PartialEq, Eq, Structural)]
pub enum FaultCause {
    Translation,
    ReadProtection,
    WriteProtection,
    ExecuteProtection,
    DeviceAccess,
}

/// Code of each fault cause in the low byte of DFSR.
pub open spec fn fault_cause_code(cause: FaultCause) -> u32 {
    match cause {
        FaultCause::Translation => 1,
        FaultCause::ReadProtection => 2,
        FaultCause::WriteProtection => 3,
        FaultCause::ExecuteProtection => 4,
        FaultCause::DeviceAccess => 5,
    }
}

/// The fault cause named by a DFSR value's low byte, if any.
pub open spec fn fault_cause_of(raw: u32) -> Option<FaultCause> {
    let code = raw & 0xff;
    if code == 1 {
        Some(FaultCause::Translation)
    } else if code == 2 {
        Some(FaultCause::ReadProtection)
    } else if code == 3 {
        Some(FaultCause::WriteProtection)
    } else if code == 4 {
        Some(FaultCause::ExecuteProtection)
    } else if code == 5 {
        Some(FaultCause::DeviceAccess)
    } else {
        None
    }
}

/// The DFSR encoding of a fault cause and the attempted access.
pub open spec fn fault_status_raw(cause: FaultCause, user_mode: bool, access: Access) -> u32 {
    fault_cause_code(cause) | (if user_mode {
        0x100u32
    } else {
        0u32
    }) | (if access == Access::Write {
        0x200u32
    } else {
        0u32
    }) | (if access == Access::Fetch {
        0x400u32
    } else {
        0u32
    })
}

/// Whether a DFSR value is ABI-valid: only cause and access bits set, and a
/// known cause.
pub open spec fn fault_status_valid(raw: u32) -> bool {
    raw & 0xffff_f8f0 == 0 && fault_cause_of(raw) is Some
}

impl FaultCause {
    /// Returns the cause's code in the low byte of DFSR.
    pub fn code(self) -> (r: u32)
        ensures
            r == fault_cause_code(self),
    {
        match self {
            FaultCause::Translation => 1,
            FaultCause::ReadProtection => 2,
            FaultCause::WriteProtection => 3,
            FaultCause::ExecuteProtection => 4,
            FaultCause::DeviceAccess => 5,
        }
    }
}

/// Encoded fault status exposed through DFSR.
#[derive(Clone, Copy, Debug, PartialEq, Eq, Structural)]
pub struct FaultStatus(pub u32);

impl FaultStatus {
    /// Encodes a fault cause and attempted-access metadata.
    pub fn new(cause: FaultCause, user_mode: bool, access: Access) -> (r: Self)
        ensures
            r.0 == fault_status_raw(cause, user_mode, access),
    {
        let mut raw = cause.code();
        if user_mode {
            raw = raw | 0x100;
        }
        if matches!(access, Access::Write) {
            raw = raw | 0x200;
        }
        if matches!(access, Access::Fetch) {
            raw = raw | 0x400;
        }
        proof {
            let c = fault_cause_code(cause);
            assert(c | 0u32 == c && (c | 0x100u32) | 0u32 == c | 0x100u32) by (bit_vector);
            assert(forall|x: u32| #[trigger] (x | 0u32) == x) by (bit_vector);
        }
        FaultStatus(raw)
    }

    /// Decodes a fault status after checking cause and reserved bits.
    pub fn from_raw(raw: u32) -> (r: Result<Self>)
        ensures
            fault_status_valid(raw) ==> r == Ok::<FaultStatus, PlatformError>(FaultStatus(raw)),
            !fault_status_valid(raw) ==> r == Err::<FaultStatus, PlatformError>(
                PlatformError::InvalidFaultStatus(raw),
            ),
    {
        assert((raw & !0x0000_070fu32 != 0) == (raw & 0xffff_f8f0 != 0)) by (bit_vector);
        if raw & !0x0000_070f != 0 || FaultStatus(raw).cause().is_none() {
            return Err(PlatformError::InvalidFaultStatus(raw));
        }
        Ok(FaultStatus(raw))
    }

    /// Returns the ABI-encoded status word.
    pub fn raw(self) -> (r: u32)
        ensures
            r == self.0,
    {
        self.0
    }

    /// Returns the encoded fault cause.
    pub fn cause(self) -> (r: Option<FaultCause>)
        ensures
            r == fault_cause_of(self.0),
    {
        match self.0 & 0xff {
            1 => Some(FaultCause::Translation),
            2 => Some(FaultCause::ReadProtection),
            3 => Some(FaultCause::WriteProtection),
            4 => Some(FaultCause::ExecuteProtection),
            5 => Some(FaultCause::DeviceAccess),
            _ => None,
        }
    }

    /// Returns whether the faulting access came from USR mode.
    pub fn from_user(self) -> (r: bool)
        ensures
            r == (self.0 & 0x100 != 0),
    {
        self.0 & 0x100 != 0
    }

    /// Returns whether the faulting access was a write.
    pub fn is_write(self) -> (r: bool)
        ensures
            r == (self.0 & 0x200 != 0),
    {
        self.0 & 0x200 != 0
    }

    /// Returns whether the faulting access was an instruction fetch.
    pub fn is_fetch(self) -> (r: bool)
        ensures
            r == (self.0 & 0x400 != 0),
    {
        self.0 & 0x400 != 0
    }
}

/// Every encoded fault status is ABI-valid and decodes back to the cause,
/// privilege and access kind it was built from.
pub proof fn lemma_fault_status_round_trip(cause: FaultCause, user_mode: bool, access: Access)
    ensures
        fault_status_valid(fault_status_raw(cause, user_mode, access)),
        fault_cause_of(fault_status_raw(cause, user_mode, access)) == Some(cause),
        (fault_status_raw(cause, user_mode, access) & 0x100 != 0) == user_mode,
        (fault_status_raw(cause, user_mode, access) & 0x200 != 0) == (access == Access::Write),
        (fault_status_raw(cause, user_mode, access) & 0x400 != 0) == (access == Access::Fetch),
{
    let c = fault_cause_code(cause);
    let u: u32 = if user_mode { 0x100 } else { 0 };
    let w: u32 = if access == Access::Write { 0x200 } else { 0 };
    let f: u32 = if access == Access::Fetch { 0x400 } else { 0 };
    assert(1 <= c <= 5);
    assert(1 <= c <= 5 && (u == 0 || u == 0x100) && (w == 0 || w == 0x200) && (f == 0 || f
        == 0x400) ==> ((c | u | w | f) & 0xffff_f8f0 == 0 && (c | u | w | f) & 0xff == c && ((c
        | u | w | f) & 0x100 != 0) == (u != 0) && ((c | u | w | f) & 0x200 != 0) == (w != 0) && ((c
        | u | w | f) & 0x400 != 0) == (f != 0))) by (bit_vector);
}

} // verus!
