//! Backend-independent definitions of the platform ABI: addresses, the
//! physical memory map, MMIO decoding, page-table entries, fault statuses,
//! exception vectors and the system-ROM image records.

pub mod access;
pub mod address;
pub mod error;
pub mod mmap;
pub mod peripherals;
pub mod mmio;
pub mod mmu;
pub mod bytes;
pub mod image;
pub mod exception;
pub mod observability;
pub mod peripheral;

pub use access::{Access, Permissions};
pub use address::{PhysicalAddress, PhysicalRange, VirtualAddress};
pub use error::{PlatformError, Result};
pub use exception::{CpuMode, ExceptionKind, ExceptionRequest};
pub use image::{
    ABI_VERSION, BOOT_INFO_MAGIC, BOOT_INFO_SIZE, BootInfo, IMAGE_HEADER_SIZE, IMAGE_MAGIC,
    ImageHeader, KERNEL_SEGMENT_SIZE, KernelSegment, MODULE_RECORD_SIZE, MODULE_SEGMENT_SIZE,
    ModuleRecord, ModuleSegment,
};
pub use mmap::{
    BOOT_INFO_PADDR, BOOT_ROM_BASE, BOOT_ROM_SIZE, BOOT_STACK_BASE, BOOT_STACK_SIZE,
    BOOTSTRAP_ENTRY_PADDR, MemRegion, PAGE_SIZE, RAM_BASE, RAM_SIZE, SYSTEM_ROM_BASE,
    SYSTEM_ROM_SIZE, direct_map_physical, direct_map_virtual,
};
pub use mmio::{MmioRegister, MmioTransaction, MmioWidth, decode_mmio};
pub use mmu::{
    Cp15Operation, FaultCause, FaultStatus, PTE_ACCESSED, PTE_DIRTY, PTE_EXECUTABLE, PTE_READABLE,
    PTE_SOFTWARE_MASK, PTE_USER, PTE_VALID, PTE_WRITABLE, PageDirectoryEntry, PageTableEntry,
    is_mmu_target_page, validate_page_table_page,
};
pub use observability::{
    BlockInspection, BlockUnitInspection, InspectionRequest, InspectionResponse,
    InterruptInspection, MmuInspection, ObservableEvent, PeripheralsInspection, RngInspection,
    SysTickInspection, TraceInspectionEvent, UartInspection,
};
pub use peripheral::Peripheral;
