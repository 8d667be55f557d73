use vstd::prelude::*;

use super::address::{PhysicalAddress, PhysicalRange, VirtualAddress, address_space_end};
use super::bytes::{
    all_zero, le_u16, le_u32, lemma_le_u16_at, lemma_le_u32_at, read_u16, read_u32, require_length,
    reserved_zero, u16_le, u32_le, zeros,
};
use super::error::{PlatformError, Result};
use super::mmap::{
    BOOT_INFO_PADDR, BOOTSTRAP_ENTRY_PADDR, MemRegion, RAM_BASE, RAM_SIZE, SYSTEM_ROM_BASE,
    SYSTEM_ROM_SIZE, direct_map_physical, in_direct_map,
};

verus! {

/// ABI version for system-ROM images and boot-info records.
pub const ABI_VERSION: u16 = 1;
/// System-ROM image magic, encoded as `MEMU` in big-endian notation.
pub const IMAGE_MAGIC: u32 = 0x4d45_4d55;
/// Boot-info magic, encoded as `MBOO` in big-endian notation.
pub const BOOT_INFO_MAGIC: u32 = 0x4d42_4f4f;
/// Serialized image-header size.
pub const IMAGE_HEADER_SIZE: usize = 64;
/// Serialized kernel-segment size.
pub const KERNEL_SEGMENT_SIZE: usize = 32;
/// Serialized module-record size.
pub const MODULE_RECORD_SIZE: usize = 32;
/// Serialized module-segment size.
pub const MODULE_SEGMENT_SIZE: usize = 32;
/// Serialized boot-info size.
pub const BOOT_INFO_SIZE: usize = 64;

/// Segment flag bits an image may set.
pub const SEGMENT_FLAGS_MASK: u32 = 0x7;

/// Appends `value` as four little-endian bytes.
fn push_u32(out: &mut Vec<u8>, value: u32)
    ensures
        final(out)@ == old(out)@ + u32_le(value),
{
    out.push((value & 0xff) as u8);
    out.push(((value >> 8) & 0xff) as u8);
    out.push(((value >> 16) & 0xff) as u8);
    out.push((value >> 24) as u8);
    assert(out@ =~= old(out)@ + u32_le(value));
}

/// Appends `value` as two little-endian bytes.
fn push_u16(out: &mut Vec<u8>, value: u16)
    ensures
        final(out)@ == old(out)@ + u16_le(value),
{
    out.push((value & 0xff) as u8);
    out.push((value >> 8) as u8);
    assert(out@ =~= old(out)@ + u16_le(value));
}

/// Appends `count` zero bytes.
fn push_zeros(out: &mut Vec<u8>, count: usize)
    ensures
        final(out)@ == old(out)@ + zeros(count as nat),
{
    let mut i: usize = 0;
    while i < count
        invariant
            i <= count,
            out@ == old(out)@ + zeros(i as nat),
        decreases count - i,
    {
        out.push(0);
        i += 1;
        assert(out@ =~= old(out)@ + zeros(i as nat));
    }
}

/// Copies a 64-byte vector into a fixed array.
fn into_array64(v: &Vec<u8>) -> (r: [u8; 64])
    requires
        v@.len() == 64,
    ensures
        r@ == v@,
{
    let mut a = [0u8; 64];
    let mut i: usize = 0;
    while i < 64
        invariant
            i <= 64,
            v@.len() == 64,
            a@.len() == 64,
            forall|j: int| 0 <= j < i ==> a@[j] == v@[j],
        decreases 64 - i,
    {
        a[i] = v[i];
        i += 1;
    }
    assert(a@ =~= v@);
    a
}

/// Copies a 32-byte vector into a fixed array.
fn into_array32(v: &Vec<u8>) -> (r: [u8; 32])
    requires
        v@.len() == 32,
    ensures
        r@ == v@,
{
    let mut a = [0u8; 32];
    let mut i: usize = 0;
    while i < 32
        invariant
            i <= 32,
            v@.len() == 32,
            a@.len() == 32,
            forall|j: int| 0 <= j < i ==> a@[j] == v@[j],
        decreases 32 - i,
    {
        a[i] = v[i];
        i += 1;
    }
    assert(a@ =~= v@);
    a
}

/// Whether a table of `count` records of `record_size` bytes at `offset`
/// ends inside an image of `image_size` bytes.
pub open spec fn table_fits(offset: u32, count: u32, record_size: int, image_size: u32) -> bool {
    offset + count * record_size <= image_size
}

fn validate_table(offset: u32, count: u32, record_size: usize, image_size: u32) -> (r: Result<()>)
    requires
        record_size <= 64,
    ensures
        table_fits(offset, count, record_size as int, image_size) ==> r == Ok::<(), PlatformError>(
            (),
        ),
        !table_fits(offset, count, record_size as int, image_size) ==> r == Err::<
            (),
            PlatformError,
        >(PlatformError::ImageTableOutsideImage),
{
    assert(count * record_size <= 0xffff_ffff * 64) by (nonlinear_arith)
        requires
            record_size <= 64,
            count <= 0xffff_ffff,
    ;
    let end = offset as u64 + count as u64 * record_size as u64;
    if end > image_size as u64 {
        return Err(PlatformError::ImageTableOutsideImage);
    }
    Ok(())
}

/// Four zero bytes read as zero.
proof fn lemma_zero_word()
    ensures
        (0u8 as u32) | ((0u8 as u32) << 8) | ((0u8 as u32) << 16) | ((0u8 as u32) << 24) == 0,
{
    assert((0u8 as u32) | ((0u8 as u32) << 8) | ((0u8 as u32) << 16) | ((0u8 as u32) << 24) == 0)
        by (bit_vector);
}

/// Fixed-width system-ROM image header.
#[derive(Clone, Copy, Debug, PartialEq, Eq, Structural)]
pub struct ImageHeader {
    pub image_size: u32,
    pub kernel_segment_table_offset: u32,
    pub kernel_segment_count: u32,
    pub module_table_offset: u32,
    pub module_count: u32,
    pub bootstrap_entry_paddr: PhysicalAddress,
    pub kernel_entry_vaddr: VirtualAddress,
    pub boot_info_paddr: PhysicalAddress,
}

/// Why a header is not ABI-valid, if it is not: the image size must admit
/// the header and fit system ROM, the fixed handoff addresses must match the
/// ABI, the kernel entry must lie in the direct map and both tables must end
/// inside the image.
pub open spec fn header_error(h: ImageHeader) -> Option<PlatformError> {
    if h.image_size < IMAGE_HEADER_SIZE || h.image_size > SYSTEM_ROM_SIZE {
        Some(PlatformError::InvalidImageField("image size"))
    } else if h.bootstrap_entry_paddr.0 != BOOTSTRAP_ENTRY_PADDR {
        Some(PlatformError::InvalidImageField("bootstrap entry"))
    } else if h.boot_info_paddr.0 != BOOT_INFO_PADDR {
        Some(PlatformError::InvalidImageField("boot info address"))
    } else if !in_direct_map(h.kernel_entry_vaddr.0 as int) {
        Some(PlatformError::AddressOutsideRam(h.kernel_entry_vaddr.0))
    } else if !table_fits(
        h.kernel_segment_table_offset,
        h.kernel_segment_count,
        KERNEL_SEGMENT_SIZE as int,
        h.image_size,
    ) {
        Some(PlatformError::ImageTableOutsideImage)
    } else if !table_fits(
        h.module_table_offset,
        h.module_count,
        MODULE_RECORD_SIZE as int,
        h.image_size,
    ) {
        Some(PlatformError::ImageTableOutsideImage)
    } else {
        None
    }
}

/// The 64 wire bytes of an image header.
pub open spec fn header_bytes(h: ImageHeader) -> Seq<u8> {
    u32_le(IMAGE_MAGIC) + u16_le(ABI_VERSION) + u16_le(64) + u32_le(h.image_size) + u32_le(
        h.kernel_segment_table_offset,
    ) + u32_le(h.kernel_segment_count) + u32_le(h.module_table_offset) + u32_le(h.module_count)
        + u32_le(h.bootstrap_entry_paddr.0) + u32_le(h.kernel_entry_vaddr.0) + u32_le(
        h.boot_info_paddr.0,
    ) + zeros(24)
}

/// The header whose fields are stored in `s`.
pub open spec fn header_fields(s: Seq<u8>) -> ImageHeader {
    ImageHeader {
        image_size: le_u32(s, 8),
        kernel_segment_table_offset: le_u32(s, 12),
        kernel_segment_count: le_u32(s, 16),
        module_table_offset: le_u32(s, 20),
        module_count: le_u32(s, 24),
        bootstrap_entry_paddr: PhysicalAddress(le_u32(s, 28)),
        kernel_entry_vaddr: VirtualAddress(le_u32(s, 32)),
        boot_info_paddr: PhysicalAddress(le_u32(s, 36)),
    }
}

/// The ABI decoding of an image header.
pub open spec fn decode_header_spec(s: Seq<u8>) -> Result<ImageHeader> {
    if s.len() < 64 {
        Err(PlatformError::InvalidImageLength { expected: 64, actual: s.len() as usize })
    } else if le_u32(s, 0) != IMAGE_MAGIC {
        Err(PlatformError::InvalidImageField("magic"))
    } else if le_u16(s, 4) != ABI_VERSION {
        Err(PlatformError::InvalidImageField("version"))
    } else if le_u16(s, 6) != 64 {
        Err(PlatformError::InvalidImageField("header size"))
    } else if le_u32(s, 40) != 0 || !all_zero(s, 44, 20) {
        Err(PlatformError::InvalidImageField("reserved header bits"))
    } else {
        match header_error(header_fields(s)) {
            Some(e) => Err(e),
            None => Ok(header_fields(s)),
        }
    }
}

impl ImageHeader {
    /// Decodes and validates a fixed-width image header.
    pub fn decode(bytes: &[u8]) -> (r: Result<Self>)
        ensures
            r == decode_header_spec(bytes@),
    {
        require_length(bytes, IMAGE_HEADER_SIZE)?;
        if read_u32(bytes, 0)? != IMAGE_MAGIC {
            return Err(PlatformError::InvalidImageField("magic"));
        }
        if read_u16(bytes, 4)? != ABI_VERSION {
            return Err(PlatformError::InvalidImageField("version"));
        }
        if read_u16(bytes, 6)? != 64 {
            return Err(PlatformError::InvalidImageField("header size"));
        }
        if read_u32(bytes, 40)? != 0 || !reserved_zero(bytes, 44, 20)? {
            return Err(PlatformError::InvalidImageField("reserved header bits"));
        }
        let header = ImageHeader {
            image_size: read_u32(bytes, 8)?,
            kernel_segment_table_offset: read_u32(bytes, 12)?,
            kernel_segment_count: read_u32(bytes, 16)?,
            module_table_offset: read_u32(bytes, 20)?,
            module_count: read_u32(bytes, 24)?,
            bootstrap_entry_paddr: PhysicalAddress::new(read_u32(bytes, 28)?),
            kernel_entry_vaddr: VirtualAddress::new(read_u32(bytes, 32)?),
            boot_info_paddr: PhysicalAddress::new(read_u32(bytes, 36)?),
        };
        header.validate()?;
        Ok(header)
    }

    /// Encodes this header without relying on Rust struct layout.
    pub fn encode(self) -> (r: Result<[u8; 64]>)
        ensures
            match header_error(self) {
                Some(e) => r == Err::<[u8; 64], PlatformError>(e),
                None => r is Ok && r->Ok_0@ == header_bytes(self),
            },
    {
        self.validate()?;
        let mut out: Vec<u8> = Vec::new();
        push_u32(&mut out, IMAGE_MAGIC);
        push_u16(&mut out, ABI_VERSION);
        push_u16(&mut out, 64);
        push_u32(&mut out, self.image_size);
        push_u32(&mut out, self.kernel_segment_table_offset);
        push_u32(&mut out, self.kernel_segment_count);
        push_u32(&mut out, self.module_table_offset);
        push_u32(&mut out, self.module_count);
        push_u32(&mut out, self.bootstrap_entry_paddr.get());
        push_u32(&mut out, self.kernel_entry_vaddr.get());
        push_u32(&mut out, self.boot_info_paddr.get());
        push_zeros(&mut out, 24);
        assert(out@ =~= header_bytes(self));
        Ok(into_array64(&out))
    }

    /// Validates static header fields and table bounds.
    pub fn validate(self) -> (r: Result<()>)
        ensures
            match header_error(self) {
                Some(e) => r == Err::<(), PlatformError>(e),
                None => r == Ok::<(), PlatformError>(()),
            },
    {
        if self.image_size < IMAGE_HEADER_SIZE as u32 || self.image_size
            > MemRegion::SystemRom.size() {
            return Err(PlatformError::InvalidImageField("image size"));
        }
        if self.bootstrap_entry_paddr.get() != BOOTSTRAP_ENTRY_PADDR {
            return Err(PlatformError::InvalidImageField("bootstrap entry"));
        }
        if self.boot_info_paddr.get() != BOOT_INFO_PADDR {
            return Err(PlatformError::InvalidImageField("boot info address"));
        }
        match direct_map_physical(self.kernel_entry_vaddr) {
            Ok(_) => {},
            Err(e) => return Err(e),
        }
        validate_table(
            self.kernel_segment_table_offset,
            self.kernel_segment_count,
            KERNEL_SEGMENT_SIZE,
            self.image_size,
        )?;
        validate_table(
            self.module_table_offset,
            self.module_count,
            MODULE_RECORD_SIZE,
            self.image_size,
        )
    }
}

/// Decoding the encoding of an ABI-valid header gives the header back.
pub proof fn lemma_header_round_trip(h: ImageHeader)
    requires
        header_error(h) is None,
    ensures
        decode_header_spec(header_bytes(h)) == Ok::<ImageHeader, PlatformError>(h),
{
    let s = header_bytes(h);
    assert(s.len() == 64);
    assert(s.subrange(0, 4) =~= u32_le(IMAGE_MAGIC));
    assert(s.subrange(4, 6) =~= u16_le(ABI_VERSION));
    assert(s.subrange(6, 8) =~= u16_le(64));
    assert(s.subrange(8, 12) =~= u32_le(h.image_size));
    assert(s.subrange(12, 16) =~= u32_le(h.kernel_segment_table_offset));
    assert(s.subrange(16, 20) =~= u32_le(h.kernel_segment_count));
    assert(s.subrange(20, 24) =~= u32_le(h.module_table_offset));
    assert(s.subrange(24, 28) =~= u32_le(h.module_count));
    assert(s.subrange(28, 32) =~= u32_le(h.bootstrap_entry_paddr.0));
    assert(s.subrange(32, 36) =~= u32_le(h.kernel_entry_vaddr.0));
    assert(s.subrange(36, 40) =~= u32_le(h.boot_info_paddr.0));
    lemma_le_u32_at(s, 0, IMAGE_MAGIC);
    lemma_le_u16_at(s, 4, ABI_VERSION);
    lemma_le_u16_at(s, 6, 64);
    lemma_le_u32_at(s, 8, h.image_size);
    lemma_le_u32_at(s, 12, h.kernel_segment_table_offset);
    lemma_le_u32_at(s, 16, h.kernel_segment_count);
    lemma_le_u32_at(s, 20, h.module_table_offset);
    lemma_le_u32_at(s, 24, h.module_count);
    lemma_le_u32_at(s, 28, h.bootstrap_entry_paddr.0);
    lemma_le_u32_at(s, 32, h.kernel_entry_vaddr.0);
    lemma_le_u32_at(s, 36, h.boot_info_paddr.0);
    assert(s[40] == 0 && s[41] == 0 && s[42] == 0 && s[43] == 0);
    lemma_zero_word();
    assert(all_zero(s, 44, 20));
    assert(header_fields(s) == h);
}


/// A header is decoded from the first 64 bytes alone.
pub proof fn lemma_header_prefix(s: Seq<u8>, t: Seq<u8>)
    requires
        s.len() >= 64,
        t.len() >= 64,
        s.subrange(0, 64) == t.subrange(0, 64),
    ensures
        decode_header_spec(s) == decode_header_spec(t),
{
    let a = s.subrange(0, 64);
    let b = t.subrange(0, 64);
    assert forall|i: int| 0 <= i < 64 implies s[i] == t[i] by {
        assert(a[i] == s[i]);
        assert(b[i] == t[i]);
        assert(a[i] == b[i]);
    }
}

/// A kernel segment record stored in system ROM.
#[derive(Clone, Copy, Debug, PartialEq, Eq, Structural)]
pub struct KernelSegment {
    pub data_offset: u32,
    pub physical_address: PhysicalAddress,
    pub virtual_address: VirtualAddress,
    pub file_size: u32,
    pub memory_size: u32,
    pub flags: u32,
}

/// Why a kernel segment is not ABI-valid, if it is not: it must be
/// nonempty with initialized bytes no longer than its memory image, set only
/// known flags, lie wholly in RAM, and be mapped either at its physical
/// address or at its direct-map alias.
pub open spec fn kernel_segment_error(s: KernelSegment) -> Option<PlatformError> {
    let physical = s.physical_address.0;
    let virtual_address = s.virtual_address.0;
    if s.memory_size == 0 || s.file_size > s.memory_size {
        Some(PlatformError::InvalidImageField("kernel segment size"))
    } else if s.flags & 0xffff_fff8 != 0 {
        Some(PlatformError::InvalidImageField("kernel segment flags"))
    } else if physical + s.memory_size > address_space_end() {
        Some(PlatformError::AddressRangeOverflow { start: physical, length: s.memory_size })
    } else if !(RAM_BASE <= physical && physical + s.memory_size <= RAM_BASE + RAM_SIZE) {
        Some(PlatformError::InvalidImageField("kernel segment physical range"))
    } else if virtual_address != physical && !(in_direct_map(virtual_address as int)
        && virtual_address - 0x8000_0000 == physical) {
        Some(PlatformError::InvalidImageField("kernel segment virtual mapping"))
    } else {
        None
    }
}

/// The 32 wire bytes of a kernel segment.
pub open spec fn kernel_segment_bytes(s: KernelSegment) -> Seq<u8> {
    u32_le(s.data_offset) + u32_le(s.physical_address.0) + u32_le(s.virtual_address.0) + u32_le(
        s.file_size,
    ) + u32_le(s.memory_size) + u32_le(s.flags) + zeros(8)
}

/// The kernel segment whose fields are stored in `b`.
pub open spec fn kernel_segment_fields(b: Seq<u8>) -> KernelSegment {
    KernelSegment {
        data_offset: le_u32(b, 0),
        physical_address: PhysicalAddress(le_u32(b, 4)),
        virtual_address: VirtualAddress(le_u32(b, 8)),
        file_size: le_u32(b, 12),
        memory_size: le_u32(b, 16),
        flags: le_u32(b, 20),
    }
}

/// The ABI decoding of a kernel-segment record.
pub open spec fn decode_kernel_segment_spec(b: Seq<u8>) -> Result<KernelSegment> {
    if b.len() < 32 {
        Err(PlatformError::InvalidImageLength { expected: 32, actual: b.len() as usize })
    } else if !all_zero(b, 24, 8) {
        Err(PlatformError::InvalidImageField("kernel segment reserved bits"))
    } else {
        match kernel_segment_error(kernel_segment_fields(b)) {
            Some(e) => Err(e),
            None => Ok(kernel_segment_fields(b)),
        }
    }
}

impl KernelSegment {
    /// Decodes and validates one kernel-segment record.
    pub fn decode(bytes: &[u8]) -> (r: Result<Self>)
        ensures
            r == decode_kernel_segment_spec(bytes@),
    {
        require_length(bytes, KERNEL_SEGMENT_SIZE)?;
        if !reserved_zero(bytes, 24, 8)? {
            return Err(PlatformError::InvalidImageField("kernel segment reserved bits"));
        }
        let segment = KernelSegment {
            data_offset: read_u32(bytes, 0)?,
            physical_address: PhysicalAddress::new(read_u32(bytes, 4)?),
            virtual_address: VirtualAddress::new(read_u32(bytes, 8)?),
            file_size: read_u32(bytes, 12)?,
            memory_size: read_u32(bytes, 16)?,
            flags: read_u32(bytes, 20)?,
        };
        segment.validate()?;
        Ok(segment)
    }

    /// Encodes this record without relying on Rust struct layout.
    pub fn encode(self) -> (r: Result<[u8; 32]>)
        ensures
            match kernel_segment_error(self) {
                Some(e) => r == Err::<[u8; 32], PlatformError>(e),
                None => r is Ok && r->Ok_0@ == kernel_segment_bytes(self),
            },
    {
        self.validate()?;
        let mut out: Vec<u8> = Vec::new();
        push_u32(&mut out, self.data_offset);
        push_u32(&mut out, self.physical_address.get());
        push_u32(&mut out, self.virtual_address.get());
        push_u32(&mut out, self.file_size);
        push_u32(&mut out, self.memory_size);
        push_u32(&mut out, self.flags);
        push_zeros(&mut out, 8);
        assert(out@ =~= kernel_segment_bytes(self));
        Ok(into_array32(&out))
    }

    /// Validates segment sizes and flags.
    pub fn validate(self) -> (r: Result<()>)
        ensures
            match kernel_segment_error(self) {
                Some(e) => r == Err::<(), PlatformError>(e),
                None => r == Ok::<(), PlatformError>(()),
            },
    {
        if self.memory_size == 0 || self.file_size > self.memory_size {
            return Err(PlatformError::InvalidImageField("kernel segment size"));
        }
        let flags = self.flags;
        assert(flags & !7u32 == flags & 0xffff_fff8u32) by (bit_vector);
        if flags & !SEGMENT_FLAGS_MASK != 0 {
            return Err(PlatformError::InvalidImageField("kernel segment flags"));
        }
        let physical_range = PhysicalRange::new(self.physical_address, self.memory_size)?;
        if !MemRegion::Ram.range().contains_range(physical_range) {
            return Err(PlatformError::InvalidImageField("kernel segment physical range"));
        }
        let high_half_matches = match direct_map_physical(self.virtual_address) {
            Ok(physical) => physical == self.physical_address,
            Err(_) => false,
        };
        if self.virtual_address.get() != self.physical_address.get() && !high_half_matches {
            return Err(PlatformError::InvalidImageField("kernel segment virtual mapping"));
        }
        Ok(())
    }
}

/// Decoding the encoding of an ABI-valid kernel segment gives it back.
pub proof fn lemma_kernel_segment_round_trip(k: KernelSegment)
    requires
        kernel_segment_error(k) is None,
    ensures
        decode_kernel_segment_spec(kernel_segment_bytes(k)) == Ok::<KernelSegment, PlatformError>(
            k,
        ),
{
    let s = kernel_segment_bytes(k);
    assert(s.len() == 32);
    assert(s.subrange(0, 4) =~= u32_le(k.data_offset));
    assert(s.subrange(4, 8) =~= u32_le(k.physical_address.0));
    assert(s.subrange(8, 12) =~= u32_le(k.virtual_address.0));
    assert(s.subrange(12, 16) =~= u32_le(k.file_size));
    assert(s.subrange(16, 20) =~= u32_le(k.memory_size));
    assert(s.subrange(20, 24) =~= u32_le(k.flags));
    lemma_le_u32_at(s, 0, k.data_offset);
    lemma_le_u32_at(s, 4, k.physical_address.0);
    lemma_le_u32_at(s, 8, k.virtual_address.0);
    lemma_le_u32_at(s, 12, k.file_size);
    lemma_le_u32_at(s, 16, k.memory_size);
    lemma_le_u32_at(s, 20, k.flags);
    assert(all_zero(s, 24, 8));
    assert(kernel_segment_fields(s) == k);
}

/// A fixed-address user-module record stored in system ROM.
#[derive(Clone, Copy, Debug, PartialEq, Eq, Structural)]
pub struct ModuleRecord {
    pub name_offset: u32,
    pub name_length: u32,
    pub segment_table_offset: u32,
    pub segment_count: u32,
    pub entry_virtual_address: VirtualAddress,
}

/// The 32 wire bytes of a module record.
pub open spec fn module_record_bytes(m: ModuleRecord) -> Seq<u8> {
    u32_le(m.name_offset) + u32_le(m.name_length) + u32_le(m.segment_table_offset) + u32_le(
        m.segment_count,
    ) + u32_le(m.entry_virtual_address.0) + zeros(12)
}

/// The module record whose fields are stored in `b`.
pub open spec fn module_record_fields(b: Seq<u8>) -> ModuleRecord {
    ModuleRecord {
        name_offset: le_u32(b, 0),
        name_length: le_u32(b, 4),
        segment_table_offset: le_u32(b, 8),
        segment_count: le_u32(b, 12),
        entry_virtual_address: VirtualAddress(le_u32(b, 16)),
    }
}

/// The ABI decoding of a module record.
pub open spec fn decode_module_record_spec(b: Seq<u8>) -> Result<ModuleRecord> {
    if b.len() < 32 {
        Err(PlatformError::InvalidImageLength { expected: 32, actual: b.len() as usize })
    } else if le_u32(b, 20) != 0 || !all_zero(b, 24, 8) {
        Err(PlatformError::InvalidImageField("module reserved bits"))
    } else {
        Ok(module_record_fields(b))
    }
}

impl ModuleRecord {
    /// Decodes and validates one module record.
    pub fn decode(bytes: &[u8]) -> (r: Result<Self>)
        ensures
            r == decode_module_record_spec(bytes@),
    {
        require_length(bytes, MODULE_RECORD_SIZE)?;
        if read_u32(bytes, 20)? != 0 || !reserved_zero(bytes, 24, 8)? {
            return Err(PlatformError::InvalidImageField("module reserved bits"));
        }
        Ok(
            ModuleRecord {
                name_offset: read_u32(bytes, 0)?,
                name_length: read_u32(bytes, 4)?,
                segment_table_offset: read_u32(bytes, 8)?,
                segment_count: read_u32(bytes, 12)?,
                entry_virtual_address: VirtualAddress::new(read_u32(bytes, 16)?),
            },
        )
    }

    /// Encodes this record without relying on Rust struct layout.
    pub fn encode(self) -> (r: [u8; 32])
        ensures
            r@ == module_record_bytes(self),
    {
        let mut out: Vec<u8> = Vec::new();
        push_u32(&mut out, self.name_offset);
        push_u32(&mut out, self.name_length);
        push_u32(&mut out, self.segment_table_offset);
        push_u32(&mut out, self.segment_count);
        push_u32(&mut out, self.entry_virtual_address.get());
        push_zeros(&mut out, 12);
        assert(out@ =~= module_record_bytes(self));
        into_array32(&out)
    }
}

/// Decoding the encoding of a module record gives it back.
pub proof fn lemma_module_record_round_trip(m: ModuleRecord)
    ensures
        decode_module_record_spec(module_record_bytes(m)) == Ok::<ModuleRecord, PlatformError>(m),
{
    let s = module_record_bytes(m);
    assert(s.len() == 32);
    assert(s.subrange(0, 4) =~= u32_le(m.name_offset));
    assert(s.subrange(4, 8) =~= u32_le(m.name_length));
    assert(s.subrange(8, 12) =~= u32_le(m.segment_table_offset));
    assert(s.subrange(12, 16) =~= u32_le(m.segment_count));
    assert(s.subrange(16, 20) =~= u32_le(m.entry_virtual_address.0));
    lemma_le_u32_at(s, 0, m.name_offset);
    lemma_le_u32_at(s, 4, m.name_length);
    lemma_le_u32_at(s, 8, m.segment_table_offset);
    lemma_le_u32_at(s, 12, m.segment_count);
    lemma_le_u32_at(s, 16, m.entry_virtual_address.0);
    assert(s[20] == 0 && s[21] == 0 && s[22] == 0 && s[23] == 0);
    lemma_zero_word();
    assert(all_zero(s, 24, 8));
    assert(module_record_fields(s) == m);
}

/// A module segment record whose physical frame is chosen by the kernel.
#[derive(Clone, Copy, Debug, PartialEq, Eq, Structural)]
pub struct ModuleSegment {
    pub data_offset: u32,
    pub virtual_address: VirtualAddress,
    pub file_size: u32,
    pub memory_size: u32,
    pub flags: u32,
}

/// Whether a module segment is ABI-valid: nonempty, initialized bytes no
/// longer than its memory image, and only known flags.
pub open spec fn module_segment_valid(s: ModuleSegment) -> bool {
    s.memory_size != 0 && s.file_size <= s.memory_size && s.flags & 0xffff_fff8 == 0
}

/// The 32 wire bytes of a module segment.
pub open spec fn module_segment_bytes(s: ModuleSegment) -> Seq<u8> {
    u32_le(s.data_offset) + u32_le(s.virtual_address.0) + u32_le(s.file_size) + u32_le(
        s.memory_size,
    ) + u32_le(s.flags) + zeros(12)
}

/// The module segment whose fields are stored in `b`.
pub open spec fn module_segment_fields(b: Seq<u8>) -> ModuleSegment {
    ModuleSegment {
        data_offset: le_u32(b, 0),
        virtual_address: VirtualAddress(le_u32(b, 4)),
        file_size: le_u32(b, 8),
        memory_size: le_u32(b, 12),
        flags: le_u32(b, 16),
    }
}

/// The ABI decoding of a module-segment record.
pub open spec fn decode_module_segment_spec(b: Seq<u8>) -> Result<ModuleSegment> {
    if b.len() < 32 {
        Err(PlatformError::InvalidImageLength { expected: 32, actual: b.len() as usize })
    } else if !all_zero(b, 20, 12) {
        Err(PlatformError::InvalidImageField("module segment reserved bits"))
    } else if !module_segment_valid(module_segment_fields(b)) {
        Err(PlatformError::InvalidImageField("module segment"))
    } else {
        Ok(module_segment_fields(b))
    }
}

impl ModuleSegment {
    /// Decodes and validates one module-segment record.
    pub fn decode(bytes: &[u8]) -> (r: Result<Self>)
        ensures
            r == decode_module_segment_spec(bytes@),
    {
        require_length(bytes, MODULE_SEGMENT_SIZE)?;
        if !reserved_zero(bytes, 20, 12)? {
            return Err(PlatformError::InvalidImageField("module segment reserved bits"));
        }
        let segment = ModuleSegment {
            data_offset: read_u32(bytes, 0)?,
            virtual_address: VirtualAddress::new(read_u32(bytes, 4)?),
            file_size: read_u32(bytes, 8)?,
            memory_size: read_u32(bytes, 12)?,
            flags: read_u32(bytes, 16)?,
        };
        segment.validate()?;
        Ok(segment)
    }

    /// Encodes this record without relying on Rust struct layout.
    pub fn encode(self) -> (r: Result<[u8; 32]>)
        ensures
            module_segment_valid(self) ==> r is Ok && r->Ok_0@ == module_segment_bytes(self),
            !module_segment_valid(self) ==> r == Err::<[u8; 32], PlatformError>(
                PlatformError::InvalidImageField("module segment"),
            ),
    {
        self.validate()?;
        let mut out: Vec<u8> = Vec::new();
        push_u32(&mut out, self.data_offset);
        push_u32(&mut out, self.virtual_address.get());
        push_u32(&mut out, self.file_size);
        push_u32(&mut out, self.memory_size);
        push_u32(&mut out, self.flags);
        push_zeros(&mut out, 12);
        assert(out@ =~= module_segment_bytes(self));
        Ok(into_array32(&out))
    }

    /// Validates segment sizes and flags.
    pub fn validate(self) -> (r: Result<()>)
        ensures
            module_segment_valid(self) ==> r == Ok::<(), PlatformError>(()),
            !module_segment_valid(self) ==> r == Err::<(), PlatformError>(
                PlatformError::InvalidImageField("module segment"),
            ),
    {
        let flags = self.flags;
        assert(flags & !7u32 == flags & 0xffff_fff8u32) by (bit_vector);
        if self.memory_size == 0 || self.file_size > self.memory_size || flags
            & !SEGMENT_FLAGS_MASK != 0 {
            return Err(PlatformError::InvalidImageField("module segment"));
        }
        Ok(())
    }
}

/// Decoding the encoding of an ABI-valid module segment gives it back.
pub proof fn lemma_module_segment_round_trip(m: ModuleSegment)
    requires
        module_segment_valid(m),
    ensures
        decode_module_segment_spec(module_segment_bytes(m)) == Ok::<ModuleSegment, PlatformError>(
            m,
        ),
{
    let s = module_segment_bytes(m);
    assert(s.len() == 32);
    assert(s.subrange(0, 4) =~= u32_le(m.data_offset));
    assert(s.subrange(4, 8) =~= u32_le(m.virtual_address.0));
    assert(s.subrange(8, 12) =~= u32_le(m.file_size));
    assert(s.subrange(12, 16) =~= u32_le(m.memory_size));
    assert(s.subrange(16, 20) =~= u32_le(m.flags));
    lemma_le_u32_at(s, 0, m.data_offset);
    lemma_le_u32_at(s, 4, m.virtual_address.0);
    lemma_le_u32_at(s, 8, m.file_size);
    lemma_le_u32_at(s, 12, m.memory_size);
    lemma_le_u32_at(s, 16, m.flags);
    assert(all_zero(s, 20, 12));
    assert(module_segment_fields(s) == m);
}

/// The fixed-width boot-info record written by boot ROM.
#[derive(Clone, Copy, Debug, PartialEq, Eq, Structural)]
pub struct BootInfo {
    pub system_rom_base: PhysicalAddress,
    pub image_size: u32,
    pub module_table_offset: u32,
    pub module_count: u32,
}

/// The 64 wire bytes of a boot-info record.
pub open spec fn boot_info_bytes(b: BootInfo) -> Seq<u8> {
    u32_le(BOOT_INFO_MAGIC) + u16_le(ABI_VERSION) + u16_le(64) + u32_le(b.system_rom_base.0)
        + u32_le(b.image_size) + u32_le(b.module_table_offset) + u32_le(b.module_count) + u32_le(
        0xc000_0000,
    ) + u32_le(RAM_BASE) + u32_le(RAM_SIZE) + zeros(28)
}

/// The boot-info record whose fields are stored in `s`.
pub open spec fn boot_info_fields(s: Seq<u8>) -> BootInfo {
    BootInfo {
        system_rom_base: PhysicalAddress(le_u32(s, 8)),
        image_size: le_u32(s, 12),
        module_table_offset: le_u32(s, 16),
        module_count: le_u32(s, 20),
    }
}

/// The ABI decoding of a boot-info record.
pub open spec fn decode_boot_info_spec(s: Seq<u8>) -> Result<BootInfo> {
    if s.len() < 64 {
        Err(PlatformError::InvalidImageLength { expected: 64, actual: s.len() as usize })
    } else if le_u32(s, 0) != BOOT_INFO_MAGIC || le_u16(s, 4) != ABI_VERSION || le_u16(s, 6) != 64
        || le_u32(s, 36) != 0 || !all_zero(s, 40, 24) {
        Err(PlatformError::InvalidImageField("boot info header"))
    } else if le_u32(s, 8) != SYSTEM_ROM_BASE || le_u32(s, 24) != 0xc000_0000 || le_u32(s, 28)
        != RAM_BASE || le_u32(s, 32) != RAM_SIZE {
        Err(PlatformError::InvalidImageField("boot info mapping"))
    } else {
        Ok(boot_info_fields(s))
    }
}

/// Whether boot info describes the fixed system ROM and an image that fits it.
pub open spec fn boot_info_encodable(b: BootInfo) -> bool {
    b.system_rom_base.0 == SYSTEM_ROM_BASE && b.image_size <= SYSTEM_ROM_SIZE
}

impl BootInfo {
    /// Decodes and validates boot info.
    pub fn decode(bytes: &[u8]) -> (r: Result<Self>)
        ensures
            r == decode_boot_info_spec(bytes@),
    {
        require_length(bytes, BOOT_INFO_SIZE)?;
        if read_u32(bytes, 0)? != BOOT_INFO_MAGIC || read_u16(bytes, 4)? != ABI_VERSION || read_u16(
            bytes,
            6,
        )? != 64 || read_u32(bytes, 36)? != 0 || !reserved_zero(bytes, 40, 24)? {
            return Err(PlatformError::InvalidImageField("boot info header"));
        }
        let info = BootInfo {
            system_rom_base: PhysicalAddress::new(read_u32(bytes, 8)?),
            image_size: read_u32(bytes, 12)?,
            module_table_offset: read_u32(bytes, 16)?,
            module_count: read_u32(bytes, 20)?,
        };
        if info.system_rom_base != MemRegion::SystemRom.base() || read_u32(bytes, 24)?
            != 0xc000_0000 || read_u32(bytes, 28)? != MemRegion::Ram.base().get() || read_u32(
            bytes,
            32,
        )? != MemRegion::Ram.size() {
            return Err(PlatformError::InvalidImageField("boot info mapping"));
        }
        Ok(info)
    }

    /// Encodes boot info without relying on Rust struct layout.
    pub fn encode(self) -> (r: Result<[u8; 64]>)
        ensures
            boot_info_encodable(self) ==> r is Ok && r->Ok_0@ == boot_info_bytes(self),
            !boot_info_encodable(self) ==> r == Err::<[u8; 64], PlatformError>(
                PlatformError::InvalidImageField("boot info"),
            ),
    {
        if self.system_rom_base != MemRegion::SystemRom.base() || self.image_size
            > MemRegion::SystemRom.size() {
            return Err(PlatformError::InvalidImageField("boot info"));
        }
        let mut out: Vec<u8> = Vec::new();
        push_u32(&mut out, BOOT_INFO_MAGIC);
        push_u16(&mut out, ABI_VERSION);
        push_u16(&mut out, 64);
        push_u32(&mut out, self.system_rom_base.get());
        push_u32(&mut out, self.image_size);
        push_u32(&mut out, self.module_table_offset);
        push_u32(&mut out, self.module_count);
        push_u32(&mut out, 0xc000_0000);
        push_u32(&mut out, MemRegion::Ram.base().get());
        push_u32(&mut out, MemRegion::Ram.size());
        push_zeros(&mut out, 28);
        assert(out@ =~= boot_info_bytes(self));
        Ok(into_array64(&out))
    }
}

/// Decoding the encoding of encodable boot info gives it back.
pub proof fn lemma_boot_info_round_trip(b: BootInfo)
    requires
        boot_info_encodable(b),
    ensures
        decode_boot_info_spec(boot_info_bytes(b)) == Ok::<BootInfo, PlatformError>(b),
{
    let s = boot_info_bytes(b);
    assert(s.len() == 64);
    assert(s.subrange(0, 4) =~= u32_le(BOOT_INFO_MAGIC));
    assert(s.subrange(4, 6) =~= u16_le(ABI_VERSION));
    assert(s.subrange(6, 8) =~= u16_le(64));
    assert(s.subrange(8, 12) =~= u32_le(b.system_rom_base.0));
    assert(s.subrange(12, 16) =~= u32_le(b.image_size));
    assert(s.subrange(16, 20) =~= u32_le(b.module_table_offset));
    assert(s.subrange(20, 24) =~= u32_le(b.module_count));
    assert(s.subrange(24, 28) =~= u32_le(0xc000_0000));
    assert(s.subrange(28, 32) =~= u32_le(RAM_BASE));
    assert(s.subrange(32, 36) =~= u32_le(RAM_SIZE));
    lemma_le_u32_at(s, 0, BOOT_INFO_MAGIC);
    lemma_le_u16_at(s, 4, ABI_VERSION);
    lemma_le_u16_at(s, 6, 64);
    lemma_le_u32_at(s, 8, b.system_rom_base.0);
    lemma_le_u32_at(s, 12, b.image_size);
    lemma_le_u32_at(s, 16, b.module_table_offset);
    lemma_le_u32_at(s, 20, b.module_count);
    lemma_le_u32_at(s, 24, 0xc000_0000);
    lemma_le_u32_at(s, 28, RAM_BASE);
    lemma_le_u32_at(s, 32, RAM_SIZE);
    assert(s[36] == 0 && s[37] == 0 && s[38] == 0 && s[39] == 0);
    lemma_zero_word();
    assert(all_zero(s, 40, 24));
    assert(boot_info_fields(s) == b);
}

} // verus!
