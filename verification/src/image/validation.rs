use vstd::prelude::*;

use crate::platform::address::{PhysicalAddress, PhysicalRange, VirtualAddress, address_space_end};
use crate::platform::error::PlatformError;
use crate::platform::image::{KernelSegment, ModuleSegment};
use crate::platform::mmap::{BOOT_STACK_BASE, BOOT_STACK_SIZE, BOOTSTRAP_ENTRY_PADDR};

use super::error::{ImageError, Result};

verus! {

/// Segment flag of executable code.
pub const EXECUTABLE: u32 = 4;

/// Size of one A32 instruction.
pub const A32_INSTRUCTION_SIZE: u32 = 4;

const KERNEL_DIRECT_MAP_START: u32 = 0xc000_0000;

const KERNEL_DIRECT_MAP_END: u64 = 0xc400_0000;

/// Whether a span of `length` bytes at `start` ends no later than `2^32`.
pub open spec fn span_fits(start: u32, length: u32) -> bool {
    start + length <= address_space_end()
}

/// Whether the instruction at `address` lies wholly in the span.
pub open spec fn holds_instruction(start: u32, length: u32, address: u32) -> bool {
    start <= address && address + 4 <= start + length
}

/// Whether two spans share a byte.
pub open spec fn spans_overlap(a_start: u32, a_length: u32, b_start: u32, b_length: u32) -> bool {
    a_start < b_start + b_length && b_start < a_start + a_length
}

/// Whether segment flags mark executable code.
pub open spec fn executable(flags: u32) -> bool {
    flags & 4 != 0
}

/// Whether the initialized bytes of an executable segment at `start`
/// hold the instruction at `entry`.
pub open spec fn initialized_code_at(flags: u32, start: u32, file_size: u32, entry: u32) -> bool {
    executable(flags) && span_fits(start, file_size) && holds_instruction(start, file_size, entry)
}

/// Whether a kernel segment's initialized executable bytes hold the
/// bootstrap instruction at its physical address.
pub open spec fn holds_bootstrap(s: KernelSegment) -> bool {
    &&& executable(s.flags)
    &&& s.file_size != 0
    &&& span_fits(s.physical_address.0, s.file_size)
    &&& holds_instruction(s.physical_address.0, s.file_size, BOOTSTRAP_ENTRY_PADDR)
}

/// Why the physical memory image of a kernel segment is not a valid range.
pub open spec fn physical_range_error(s: KernelSegment) -> Option<ImageError> {
    if s.memory_size == 0 {
        Some(ImageError::Platform(PlatformError::EmptyRange))
    } else if !span_fits(s.physical_address.0, s.memory_size) {
        Some(
            ImageError::Platform(
                PlatformError::AddressRangeOverflow {
                    start: s.physical_address.0,
                    length: s.memory_size,
                },
            ),
        )
    } else {
        None
    }
}

/// Whether a kernel segment overlaps the boot ROM's stack and boot-info
/// workspace.
pub open spec fn overlaps_boot_workspace(s: KernelSegment) -> bool {
    spans_overlap(s.physical_address.0, s.memory_size, BOOT_STACK_BASE, (BOOT_STACK_SIZE + 64) as u32)
}

/// Why kernel segment `b`, checked against the earlier segment `a`, is
/// rejected, if it is.
pub open spec fn kernel_pair_error(a: KernelSegment, b: KernelSegment) -> Option<ImageError> {
    match physical_range_error(b) {
        Some(e) => Some(e),
        None => if spans_overlap(
            a.physical_address.0,
            a.memory_size,
            b.physical_address.0,
            b.memory_size,
        ) {
            Some(ImageError::InvalidImage("overlapping kernel segments"))
        } else if !span_fits(b.virtual_address.0, b.memory_size) {
            Some(ImageError::InvalidImage("segment range"))
        } else if spans_overlap(
            a.virtual_address.0,
            a.memory_size,
            b.virtual_address.0,
            b.memory_size,
        ) {
            Some(ImageError::InvalidImage("overlapping kernel segments"))
        } else {
            None
        },
    }
}

/// The first rejection of segment `i` against segments `j` and later.
pub open spec fn first_kernel_pair_error(s: Seq<KernelSegment>, i: int, j: int) -> Option<
    ImageError,
>
    decreases s.len() - j,
{
    if j >= s.len() || j < 0 {
        None
    } else {
        match kernel_pair_error(s[i], s[j]) {
            Some(e) => Some(e),
            None => first_kernel_pair_error(s, i, j + 1),
        }
    }
}

/// Why segment `i` is rejected: its own ranges, then its overlaps with the
/// segments after it.
pub open spec fn kernel_segment_error_at(s: Seq<KernelSegment>, i: int) -> Option<ImageError> {
    match physical_range_error(s[i]) {
        Some(e) => Some(e),
        None => if overlaps_boot_workspace(s[i]) {
            Some(ImageError::InvalidImage("kernel segment overlaps boot ROM workspace"))
        } else if !span_fits(s[i].virtual_address.0, s[i].memory_size) {
            Some(ImageError::InvalidImage("segment range"))
        } else {
            first_kernel_pair_error(s, i, i + 1)
        },
    }
}

/// The first rejection of segments `i` and later, in order.
pub open spec fn first_kernel_error(s: Seq<KernelSegment>, i: int) -> Option<ImageError>
    decreases s.len() - i,
{
    if i >= s.len() || i < 0 {
        None
    } else {
        match kernel_segment_error_at(s, i) {
            Some(e) => Some(e),
            None => first_kernel_error(s, i + 1),
        }
    }
}

/// Why a kernel segment table with entry `entry` is rejected, if it is:
/// the entry must be an aligned instruction in initialized executable
/// code, some executable segment must hold the bootstrap instruction, no
/// segment may touch the boot workspace, and no two segments may overlap
/// physically or virtually.
pub open spec fn kernel_records_error(s: Seq<KernelSegment>, entry: u32) -> Option<ImageError> {
    if entry % 4 != 0 {
        Some(ImageError::InvalidImage("kernel entry"))
    } else if !(exists|k: int|
        0 <= k < s.len() && #[trigger] initialized_code_at(
            s[k].flags,
            s[k].virtual_address.0,
            s[k].file_size,
            entry,
        )) {
        Some(ImageError::InvalidImage("kernel entry is not initialized executable code"))
    } else if !(exists|k: int| 0 <= k < s.len() && #[trigger] holds_bootstrap(s[k])) {
        Some(ImageError::InvalidImage("missing initialized executable bootstrap segment"))
    } else {
        first_kernel_error(s, 0)
    }
}

/// Whether a module span reaches into the kernel direct map.
pub open spec fn in_kernel_direct_map(start: u32, length: u32) -> bool {
    start < 0xc400_0000 && 0xc000_0000 < start + length
}

/// Why module segment `b`, checked against the earlier segment `a`, is
/// rejected, if it is.
pub open spec fn module_pair_error(a: ModuleSegment, b: ModuleSegment) -> Option<ImageError> {
    if !span_fits(b.virtual_address.0, b.memory_size) {
        Some(ImageError::InvalidImage("segment range"))
    } else if spans_overlap(
        a.virtual_address.0,
        a.memory_size,
        b.virtual_address.0,
        b.memory_size,
    ) {
        Some(ImageError::InvalidImage("overlapping module segments"))
    } else {
        None
    }
}

/// The first rejection of module segment `i` against segments `j` and later.
pub open spec fn first_module_pair_error(s: Seq<ModuleSegment>, i: int, j: int) -> Option<
    ImageError,
>
    decreases s.len() - j,
{
    if j >= s.len() || j < 0 {
        None
    } else {
        match module_pair_error(s[i], s[j]) {
            Some(e) => Some(e),
            None => first_module_pair_error(s, i, j + 1),
        }
    }
}

/// Why module segment `i` is rejected: its own range, then its overlaps
/// with the segments after it.
pub open spec fn module_segment_error_at(s: Seq<ModuleSegment>, i: int) -> Option<ImageError> {
    if !span_fits(s[i].virtual_address.0, s[i].memory_size) {
        Some(ImageError::InvalidImage("segment range"))
    } else if in_kernel_direct_map(s[i].virtual_address.0, s[i].memory_size) {
        Some(ImageError::InvalidImage("module segment is in the kernel direct map"))
    } else {
        first_module_pair_error(s, i, i + 1)
    }
}

/// The first rejection of module segments `i` and later, in order.
pub open spec fn first_module_error(s: Seq<ModuleSegment>, i: int) -> Option<ImageError>
    decreases s.len() - i,
{
    if i >= s.len() || i < 0 {
        None
    } else {
        match module_segment_error_at(s, i) {
            Some(e) => Some(e),
            None => first_module_error(s, i + 1),
        }
    }
}

/// Why a module segment table with entry `entry` is rejected, if it is:
/// the entry must be an aligned instruction in initialized executable
/// code, no segment may reach into the kernel direct map, and no two
/// segments may overlap.
pub open spec fn module_records_error(s: Seq<ModuleSegment>, entry: u32) -> Option<ImageError> {
    if entry % 4 != 0 {
        Some(ImageError::InvalidImage("module entry"))
    } else if !(exists|k: int|
        0 <= k < s.len() && #[trigger] initialized_code_at(
            s[k].flags,
            s[k].virtual_address.0,
            s[k].file_size,
            entry,
        )) {
        Some(ImageError::InvalidImage("module entry is not initialized executable code"))
    } else {
        first_module_error(s, 0)
    }
}

/// The result a validation with the given rejection returns.
pub open spec fn outcome(error: Option<ImageError>) -> Result<()> {
    match error {
        Some(e) => Err(e),
        None => Ok(()),
    }
}

/// A checked virtual span whose end may be `2^32`.
#[derive(Clone, Copy)]
struct AddressRange {
    start: u32,
    end: u64,
}

impl AddressRange {
    fn new(start: VirtualAddress, length: u32) -> (r: Result<Self>)
        ensures
            span_fits(start.0, length) ==> (r matches Ok(range) && range.start == start.0
                && range.end == start.0 + length),
            !span_fits(start.0, length) ==> (r matches Err(ImageError::InvalidImage(d)) && d
                == "segment range"),
    {
        let end = start.get() as u64 + length as u64;
        if end > u32::MAX as u64 + 1 {
            return Err(ImageError::InvalidImage("segment range"));
        }
        Ok(AddressRange { start: start.get(), end })
    }

    fn contains(self, address: VirtualAddress) -> (r: bool)
        ensures
            r == (self.start <= address.0 && address.0 + 4 <= self.end),
    {
        (self.start as u64) <= address.get() as u64 && address.get() as u64
            + A32_INSTRUCTION_SIZE as u64 <= self.end
    }

    fn overlaps(self, other: Self) -> (r: bool)
        ensures
            r == (self.start < other.end && other.start < self.end),
    {
        (self.start as u64) < other.end && (other.start as u64) < self.end
    }

    fn overlaps_kernel_direct_map(self) -> (r: bool)
        ensures
            r == (self.start < 0xc400_0000 && 0xc000_0000 < self.end),
    {
        (self.start as u64) < KERNEL_DIRECT_MAP_END && (KERNEL_DIRECT_MAP_START as u64) < self.end
    }
}

fn validate_a32_entry(entry: VirtualAddress, detail: &'static str) -> (r: Result<()>)
    ensures
        entry.0 % 4 == 0 ==> r is Ok,
        entry.0 % 4 != 0 ==> (r matches Err(ImageError::InvalidImage(d)) && d == detail),
{
    let value = entry.get();
    assert(value & 3 == value % 4) by (bit_vector);
    if value & 3 != 0 {
        return Err(ImageError::InvalidImage(detail));
    }
    Ok(())
}

fn is_executable(flags: u32) -> (r: bool)
    ensures
        r == executable(flags),
{
    flags & EXECUTABLE != 0
}

fn code_holds(flags: u32, start: VirtualAddress, file_size: u32, entry: VirtualAddress) -> (r: bool)
    ensures
        r == initialized_code_at(flags, start.0, file_size, entry.0),
{
    if !is_executable(flags) {
        return false;
    }
    match AddressRange::new(start, file_size) {
        Ok(range) => range.contains(entry),
        Err(_) => false,
    }
}

fn bootstrap_held(segment: KernelSegment) -> (r: bool)
    ensures
        r == holds_bootstrap(segment),
{
    if !is_executable(segment.flags) {
        return false;
    }
    match PhysicalRange::new(segment.physical_address, segment.file_size) {
        Ok(range) => {
            let bootstrap = PhysicalRange::from_known_valid(
                PhysicalAddress::new(BOOTSTRAP_ENTRY_PADDR),
                A32_INSTRUCTION_SIZE,
            );
            range.contains_range(bootstrap)
        },
        Err(_) => false,
    }
}

fn physical_range(segment: KernelSegment) -> (r: Result<PhysicalRange>)
    ensures
        match physical_range_error(segment) {
            Some(e) => r matches Err(re) && re == e,
            None => r matches Ok(range) && range.start_spec() == segment.physical_address.0
                && range.length_spec() == segment.memory_size,
        },
{
    match PhysicalRange::new(segment.physical_address, segment.memory_size) {
        Ok(range) => Ok(range),
        Err(e) => Err(ImageError::Platform(e)),
    }
}

fn physical_ranges_overlap(left: PhysicalRange, right: PhysicalRange) -> (r: bool)
    ensures
        r == left.overlaps_spec(right),
{
    (left.start().get() as u64) < right.end_exclusive() && (right.start().get() as u64)
        < left.end_exclusive()
}

/// Checks the segments of a packed kernel table against each other and the
/// boot-ROM contract.
pub fn validate_kernel_segments(segments: &[(KernelSegment, Vec<u8>)], entry: VirtualAddress) -> (r:
    Result<()>)
    ensures
        r == outcome(kernel_records_error(segments@.map_values(|p: (KernelSegment, Vec<u8>)| p.0), entry.0)),
{
    let mut records: Vec<KernelSegment> = Vec::new();
    let n = segments.len();
    let mut i: usize = 0;
    while i < n
        invariant
            i <= n,
            n == segments@.len(),
            records@ == segments@.subrange(0, i as int).map_values(|p: (KernelSegment, Vec<u8>)| p.0),
        decreases n - i,
    {
        records.push(segments[i].0);
        i += 1;
        assert(records@ =~= segments@.subrange(0, i as int).map_values(|p: (KernelSegment, Vec<u8>)| p.0));
    }
    assert(segments@.subrange(0, n as int) =~= segments@);
    validate_kernel_records(records.as_slice(), entry)
}

/// Checks a decoded kernel segment table and its entry point.
pub fn validate_kernel_records(segments: &[KernelSegment], entry: VirtualAddress) -> (r: Result<()>)
    ensures
        r == outcome(kernel_records_error(segments@, entry.0)),
{
    let ghost s = segments@;
    validate_a32_entry(entry, "kernel entry")?;
    let n = segments.len();
    let mut found = false;
    let mut i: usize = 0;
    while i < n
        invariant
            i <= n,
            n == s.len(),
            s == segments@,
            found == exists|k: int|
                0 <= k < i && #[trigger] initialized_code_at(
                    s[k].flags,
                    s[k].virtual_address.0,
                    s[k].file_size,
                    entry.0,
                ),
        decreases n - i,
    {
        let segment = segments[i];
        if code_holds(segment.flags, segment.virtual_address, segment.file_size, entry) {
            found = true;
        }
        i += 1;
    }
    if !found {
        return Err(ImageError::InvalidImage("kernel entry is not initialized executable code"));
    }
    let mut bootstrap = false;
    let mut i: usize = 0;
    while i < n
        invariant
            i <= n,
            n == s.len(),
            s == segments@,
            bootstrap == exists|k: int| 0 <= k < i && #[trigger] holds_bootstrap(s[k]),
        decreases n - i,
    {
        if bootstrap_held(segments[i]) {
            bootstrap = true;
        }
        i += 1;
    }
    if !bootstrap {
        return Err(ImageError::InvalidImage("missing initialized executable bootstrap segment"));
    }
    let boot_workspace = PhysicalRange::from_known_valid(
        PhysicalAddress::new(BOOT_STACK_BASE),
        BOOT_STACK_SIZE + 64,
    );
    let mut index: usize = 0;
    while index < n
        invariant
            index <= n,
            n == s.len(),
            s == segments@,
            boot_workspace.start_spec() == BOOT_STACK_BASE,
            boot_workspace.length_spec() == BOOT_STACK_SIZE + 64,
            first_kernel_error(s, 0) == first_kernel_error(s, index as int),
            entry.0 % 4 == 0,
            exists|k: int|
                0 <= k < s.len() && #[trigger] initialized_code_at(
                    s[k].flags,
                    s[k].virtual_address.0,
                    s[k].file_size,
                    entry.0,
                ),
            exists|k: int| 0 <= k < s.len() && #[trigger] holds_bootstrap(s[k]),
        decreases n - index,
    {
        let segment = segments[index];
        let physical = physical_range(segment)?;
        if physical_ranges_overlap(physical, boot_workspace) {
            return Err(ImageError::InvalidImage("kernel segment overlaps boot ROM workspace"));
        }
        let virtual_range = AddressRange::new(segment.virtual_address, segment.memory_size)?;
        let mut other: usize = index + 1;
        while other < n
            invariant
                index < other <= n,
                n == s.len(),
                s == segments@,
                segment == s[index as int],
                physical.start_spec() == segment.physical_address.0,
                physical.length_spec() == segment.memory_size,
                virtual_range.start == segment.virtual_address.0,
                virtual_range.end == segment.virtual_address.0 + segment.memory_size,
                physical_range_error(segment) is None,
                !overlaps_boot_workspace(segment),
                span_fits(segment.virtual_address.0, segment.memory_size),
                first_kernel_pair_error(s, index as int, index + 1) == first_kernel_pair_error(
                    s,
                    index as int,
                    other as int,
                ),
                first_kernel_error(s, 0) == first_kernel_error(s, index as int),
                entry.0 % 4 == 0,
                exists|k: int|
                    0 <= k < s.len() && #[trigger] initialized_code_at(
                        s[k].flags,
                        s[k].virtual_address.0,
                        s[k].file_size,
                        entry.0,
                    ),
                exists|k: int| 0 <= k < s.len() && #[trigger] holds_bootstrap(s[k]),
            decreases n - other,
        {
            let next = segments[other];
            let next_physical = physical_range(next)?;
            if physical_ranges_overlap(physical, next_physical) {
                return Err(ImageError::InvalidImage("overlapping kernel segments"));
            }
            let next_virtual = AddressRange::new(next.virtual_address, next.memory_size)?;
            if virtual_range.overlaps(next_virtual) {
                return Err(ImageError::InvalidImage("overlapping kernel segments"));
            }
            other += 1;
        }
        index += 1;
    }
    Ok(())
}

/// Checks the segments of one packed module against each other.
pub fn validate_module_segments(segments: &[(ModuleSegment, Vec<u8>)], entry: VirtualAddress) -> (r:
    Result<()>)
    ensures
        r == outcome(module_records_error(segments@.map_values(|p: (ModuleSegment, Vec<u8>)| p.0), entry.0)),
{
    let mut records: Vec<ModuleSegment> = Vec::new();
    let n = segments.len();
    let mut i: usize = 0;
    while i < n
        invariant
            i <= n,
            n == segments@.len(),
            records@ == segments@.subrange(0, i as int).map_values(|p: (ModuleSegment, Vec<u8>)| p.0),
        decreases n - i,
    {
        records.push(segments[i].0);
        i += 1;
        assert(records@ =~= segments@.subrange(0, i as int).map_values(|p: (ModuleSegment, Vec<u8>)| p.0));
    }
    assert(segments@.subrange(0, n as int) =~= segments@);
    validate_module_records(records.as_slice(), entry)
}

/// Checks a decoded module segment table and its entry point.
pub fn validate_module_records(segments: &[ModuleSegment], entry: VirtualAddress) -> (r: Result<()>)
    ensures
        r == outcome(module_records_error(segments@, entry.0)),
{
    let ghost s = segments@;
    validate_a32_entry(entry, "module entry")?;
    let n = segments.len();
    let mut found = false;
    let mut i: usize = 0;
    while i < n
        invariant
            i <= n,
            n == s.len(),
            s == segments@,
            found == exists|k: int|
                0 <= k < i && #[trigger] initialized_code_at(
                    s[k].flags,
                    s[k].virtual_address.0,
                    s[k].file_size,
                    entry.0,
                ),
        decreases n - i,
    {
        let segment = segments[i];
        if code_holds(segment.flags, segment.virtual_address, segment.file_size, entry) {
            found = true;
        }
        i += 1;
    }
    if !found {
        return Err(ImageError::InvalidImage("module entry is not initialized executable code"));
    }
    let mut index: usize = 0;
    while index < n
        invariant
            index <= n,
            n == s.len(),
            s == segments@,
            first_module_error(s, 0) == first_module_error(s, index as int),
            entry.0 % 4 == 0,
            exists|k: int|
                0 <= k < s.len() && #[trigger] initialized_code_at(
                    s[k].flags,
                    s[k].virtual_address.0,
                    s[k].file_size,
                    entry.0,
                ),
        decreases n - index,
    {
        let segment = segments[index];
        let range = AddressRange::new(segment.virtual_address, segment.memory_size)?;
        if range.overlaps_kernel_direct_map() {
            return Err(ImageError::InvalidImage("module segment is in the kernel direct map"));
        }
        let mut other: usize = index + 1;
        while other < n
            invariant
                index < other <= n,
                n == s.len(),
                s == segments@,
                segment == s[index as int],
                range.start == segment.virtual_address.0,
                range.end == segment.virtual_address.0 + segment.memory_size,
                span_fits(segment.virtual_address.0, segment.memory_size),
                !in_kernel_direct_map(segment.virtual_address.0, segment.memory_size),
                first_module_pair_error(s, index as int, index + 1) == first_module_pair_error(
                    s,
                    index as int,
                    other as int,
                ),
                first_module_error(s, 0) == first_module_error(s, index as int),
                entry.0 % 4 == 0,
                exists|k: int|
                    0 <= k < s.len() && #[trigger] initialized_code_at(
                        s[k].flags,
                        s[k].virtual_address.0,
                        s[k].file_size,
                        entry.0,
                    ),
            decreases n - other,
        {
            let next = segments[other];
            let next_range = AddressRange::new(next.virtual_address, next.memory_size)?;
            if range.overlaps(next_range) {
                return Err(ImageError::InvalidImage("overlapping module segments"));
            }
            other += 1;
        }
        index += 1;
    }
    Ok(())
}

} // verus!
