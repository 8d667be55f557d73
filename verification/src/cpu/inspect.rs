use vstd::prelude::*;

use crate::platform::address::{PhysicalAddress, VirtualAddress};
use crate::platform::mmap::{MemRegion, RAM_BASE, RAM_SIZE, region_is_device, region_of};

verus! {

/// Largest RAM span read at once by a memory search.
pub const MEMORY_SEARCH_CHUNK_SIZE: usize = 0x10_0000;

/// CPU state captured at an emulator-thread execution boundary.
#[derive(Clone, Copy, Debug, PartialEq, Eq)]
pub struct CpuState {
    pub registers: [u32; 16],
    pub cpsr: u32,
    pub spsr: u32,
}

/// Live execution data captured at an execution boundary.
#[derive(Clone, Debug, PartialEq, Eq)]
pub struct ExecutionInspection {
    pub registers: [u32; 16],
    pub cpsr: u32,
    pub spsr: u32,
    pub mmu_enabled: bool,
    pub instruction_address: VirtualAddress,
    pub instruction_bytes: Vec<u8>,
    pub instruction_error: Option<String>,
}

/// Why an inspection request is refused before any memory is read.
#[derive(Clone, Debug, PartialEq, Eq, Structural)]
pub enum InspectionError {
    /// The requested byte range does not fit the address space.
    InspectionRange,
    EmptySearchPattern,
    SearchPatternTooLarge { length: usize, maximum: usize },
    /// A data inspection would touch the device page at this address.
    VirtualInspectionDevice(u32),
}

/// Bytes left in the 4 KiB page of `address`.
pub open spec fn page_remaining(address: int) -> int {
    4096 - address % 4096
}

/// The reads of a translated inspection: consecutive spans from
/// `address`, each ending at its page boundary or at the end of the
/// request; `overflow` when the request runs past the 32-bit address space
/// before it is covered.
pub struct ChunkPlan {
    pub chunks: Vec<(u32, usize)>,
    pub overflow: bool,
}

/// Whether one planned read starts inside the request and runs to its
/// page boundary or to the end of the request, whichever comes first.
pub open spec fn chunk_ok(address: u32, length: int, chunk: (u32, usize)) -> bool {
    let offset = chunk.0 - address;
    &&& 0 <= offset < length
    &&& chunk.1 == if length - offset < page_remaining(chunk.0 as int) {
        length - offset
    } else {
        page_remaining(chunk.0 as int)
    }
}

/// How many bytes of the request the planned reads cover.
pub open spec fn covered_by(address: u32, chunks: Seq<(u32, usize)>) -> int {
    if chunks.len() == 0 {
        0
    } else {
        chunks.last().0 - address + chunks.last().1
    }
}

/// Whether `chunks` are consecutive page-bounded reads of a request of
/// `length` bytes from `address`, starting at its first byte.
pub open spec fn chunks_cover(address: u32, length: int, chunks: Seq<(u32, usize)>) -> bool {
    &&& forall|i: int| 0 <= i < chunks.len() ==> #[trigger] chunk_ok(address, length, chunks[i])
    &&& chunks.len() > 0 ==> chunks[0].0 == address
    &&& forall|i: int| 0 <= i < chunks.len() - 1 ==> #[trigger] chunks[i + 1].0 == chunks[i].0 + chunks[i].1
}

/// Plans the page-bounded reads of `length` bytes from virtual `address`.
pub fn translation_chunks(address: VirtualAddress, length: usize) -> (r: ChunkPlan)
    ensures
        chunks_cover(address.0, length as int, r.chunks@),
        !r.overflow ==> covered_by(address.0, r.chunks@) == length,
        r.overflow ==> covered_by(address.0, r.chunks@) < length && address.0 + covered_by(
            address.0,
            r.chunks@,
        ) > u32::MAX,
{
    let mut chunks: Vec<(u32, usize)> = Vec::new();
    let mut offset: usize = 0;
    while offset < length
        invariant
            offset <= length,
            chunks_cover(address.0, length as int, chunks@),
            covered_by(address.0, chunks@) == offset,
            offset > 0 ==> address.0 + offset <= u32::MAX + 1,
        decreases length - offset,
    {
        if offset > u32::MAX as usize {
            return ChunkPlan { chunks, overflow: true };
        }
        let offset_u32 = offset as u32;
        if offset_u32 > u32::MAX - address.get() {
            return ChunkPlan { chunks, overflow: true };
        }
        let virtual_address = address.get() + offset_u32;
        let remaining = 4096 - virtual_address % 4096;
        let count = if length - offset < remaining as usize {
            length - offset
        } else {
            remaining as usize
        };
        let ghost before = chunks@;
        chunks.push((virtual_address, count));
        proof {
            assert(chunk_ok(address.0, length as int, (virtual_address, count)));
            assert forall|i: int| 0 <= i < chunks@.len() implies #[trigger] chunk_ok(
                address.0,
                length as int,
                chunks@[i],
            ) by {
                if i < before.len() {
                    assert(chunks@[i] == before[i]);
                    assert(chunk_ok(address.0, length as int, before[i]));
                }
            }
            assert forall|i: int| 0 <= i < chunks@.len() - 1 implies #[trigger] chunks@[i + 1].0
                == chunks@[i].0 + chunks@[i].1 by {
                if i + 1 == chunks@.len() - 1 {
                    assert(chunks@[i] == before.last());
                } else {
                    assert(chunks@[i] == before[i]);
                    assert(chunks@[i + 1] == before[i + 1]);
                }
            }
        }
        offset = offset + count;
    }
    ChunkPlan { chunks, overflow: false }
}

/// Whether a translated inspection must stop at `physical`: data
/// inspections never touch device pages.
pub fn check_inspection_target(physical: PhysicalAddress, reject_devices: bool) -> (r: Result<
    (),
    InspectionError,
>)
    ensures
        reject_devices && (region_of(physical.0) matches Some(region) && region_is_device(region))
            ==> r == Err::<(), InspectionError>(InspectionError::VirtualInspectionDevice(physical.0)),
        !(reject_devices && (region_of(physical.0) matches Some(region) && region_is_device(region)))
            ==> r is Ok,
{
    if reject_devices {
        match MemRegion::containing(physical) {
            Some(region) => if region.is_device() {
                return Err(InspectionError::VirtualInspectionDevice(physical.0));
            },
            None => {},
        }
    }
    Ok(())
}

/// The RAM spans a memory search reads: one per chunk offset, each
/// extended so that a match straddling a chunk boundary is seen whole.
pub open spec fn search_chunk_spec(pattern_length: int, k: int) -> (int, int) {
    let offset = k * MEMORY_SEARCH_CHUNK_SIZE;
    let wanted = MEMORY_SEARCH_CHUNK_SIZE + pattern_length - 1;
    (offset, if wanted < RAM_SIZE - offset { wanted } else { RAM_SIZE - offset })
}

/// Plans the overlapping RAM spans searched for a pattern of
/// `pattern_length` bytes, as (offset in RAM, length).
pub fn search_chunks(pattern_length: usize) -> (r: Result<Vec<(usize, usize)>, InspectionError>)
    ensures
        pattern_length == 0 ==> r == Err::<Vec<(usize, usize)>, InspectionError>(
            InspectionError::EmptySearchPattern,
        ),
        pattern_length > MEMORY_SEARCH_CHUNK_SIZE ==> r == Err::<
            Vec<(usize, usize)>,
            InspectionError,
        >(
            InspectionError::SearchPatternTooLarge {
                length: pattern_length,
                maximum: MEMORY_SEARCH_CHUNK_SIZE,
            },
        ),
        0 < pattern_length <= MEMORY_SEARCH_CHUNK_SIZE ==> (r matches Ok(chunks) && chunks@.len()
            == RAM_SIZE as int / MEMORY_SEARCH_CHUNK_SIZE as int && forall|k: int|
            0 <= k < chunks@.len() ==> #[trigger] chunks@[k].0 == search_chunk_spec(
                pattern_length as int,
                k,
            ).0 && chunks@[k].1 == search_chunk_spec(pattern_length as int, k).1),
{
    if pattern_length == 0 {
        return Err(InspectionError::EmptySearchPattern);
    }
    if pattern_length > MEMORY_SEARCH_CHUNK_SIZE {
        return Err(
            InspectionError::SearchPatternTooLarge {
                length: pattern_length,
                maximum: MEMORY_SEARCH_CHUNK_SIZE,
            },
        );
    }
    let ram_length = MemRegion::Ram.range().length() as usize;
    let overlap = pattern_length - 1;
    let mut chunks: Vec<(usize, usize)> = Vec::new();
    let mut offset: usize = 0;
    while offset < ram_length
        invariant
            ram_length == RAM_SIZE,
            overlap == pattern_length - 1,
            0 < pattern_length <= MEMORY_SEARCH_CHUNK_SIZE,
            offset == chunks@.len() * MEMORY_SEARCH_CHUNK_SIZE,
            offset <= ram_length,
            chunks@.len() <= 64,
            forall|k: int|
                0 <= k < chunks@.len() ==> #[trigger] chunks@[k].0 == search_chunk_spec(
                    pattern_length as int,
                    k,
                ).0 && chunks@[k].1 == search_chunk_spec(pattern_length as int, k).1,
        decreases ram_length - offset,
    {
        let wanted = MEMORY_SEARCH_CHUNK_SIZE + overlap;
        let length = if wanted < ram_length - offset {
            wanted
        } else {
            ram_length - offset
        };
        let ghost before = chunks@;
        chunks.push((offset, length));
        assert forall|k: int| 0 <= k < chunks@.len() implies #[trigger] chunks@[k].0
            == search_chunk_spec(pattern_length as int, k).0 && chunks@[k].1 == search_chunk_spec(
            pattern_length as int,
            k,
        ).1 by {
            if k < before.len() {
                assert(chunks@[k] == before[k]);
            }
        }
        offset = offset + MEMORY_SEARCH_CHUNK_SIZE;
    }
    assert(RAM_SIZE as int / MEMORY_SEARCH_CHUNK_SIZE as int == 64);
    Ok(chunks)
}

/// Every place a pattern can occur in RAM lies wholly inside one of the
/// searched spans.
pub proof fn lemma_search_chunks_cover(pattern_length: int, position: int)
    requires
        0 < pattern_length <= MEMORY_SEARCH_CHUNK_SIZE,
        0 <= position,
        position + pattern_length <= RAM_SIZE,
    ensures
        ({
            let k = position / MEMORY_SEARCH_CHUNK_SIZE as int;
            let (offset, length) = search_chunk_spec(pattern_length, k);
            &&& 0 <= k < RAM_SIZE as int / MEMORY_SEARCH_CHUNK_SIZE as int
            &&& offset <= position
            &&& position + pattern_length <= offset + length
        }),
{
}

/// Whether `pattern` occurs in `haystack` at `index`.
pub open spec fn matches_at(haystack: Seq<u8>, pattern: Seq<u8>, index: int) -> bool {
    0 <= index && index + pattern.len() <= haystack.len() && haystack.subrange(
        index,
        index + pattern.len(),
    ) == pattern
}

/// Finds the first occurrence of a nonempty pattern.
pub fn find_pattern(haystack: &[u8], pattern: &[u8]) -> (r: Option<usize>)
    requires
        pattern@.len() > 0,
    ensures
        match r {
            Some(index) => matches_at(haystack@, pattern@, index as int) && forall|i: int|
                0 <= i < index ==> !matches_at(haystack@, pattern@, i),
            None => forall|i: int| !matches_at(haystack@, pattern@, i),
        },
{
    let n = haystack.len();
    let m = pattern.len();
    if m > n {
        return None;
    }
    let mut i: usize = 0;
    while i <= n - m
        invariant
            n == haystack@.len(),
            m == pattern@.len(),
            m > 0,
            m <= n,
            i <= n - m + 1,
            forall|k: int| 0 <= k < i ==> !matches_at(haystack@, pattern@, k),
        decreases n - i,
    {
        let mut j: usize = 0;
        let mut same = true;
        while j < m
            invariant
                j <= m,
                i + m <= n,
                n == haystack@.len(),
                m == pattern@.len(),
                same == forall|k: int| 0 <= k < j ==> haystack@[i + k] == pattern@[k],
            decreases m - j,
        {
            if haystack[i + j] != pattern[j] {
                same = false;
            }
            j += 1;
        }
        if same {
            assert(haystack@.subrange(i as int, i + m) =~= pattern@);
            return Some(i);
        }
        proof {
            if matches_at(haystack@, pattern@, i as int) {
                let k = choose|k: int| 0 <= k < m && haystack@[i + k] != pattern@[k];
                assert(haystack@.subrange(i as int, i + m)[k] == pattern@[k]);
            }
        }
        i += 1;
    }
    None
}

/// The instruction bytes an execution inspection reads: `before` bytes
/// (taken as a 32-bit count) before the given address, or the PC when none
/// is given, clamped at zero, through `after` bytes past it.
pub fn execution_window(address: Option<VirtualAddress>, pc: u32, before: usize, after: usize) -> (r:
    Result<(VirtualAddress, usize), InspectionError>)
    ensures
        before + after > usize::MAX ==> r == Err::<(VirtualAddress, usize), InspectionError>(
            InspectionError::InspectionRange,
        ),
        before + after <= usize::MAX ==> (r matches Ok((start, length)) && length == before + after
            && {
            let base = match address {
                Some(a) => a.0,
                None => pc,
            };
            let back = before as u32;
            start.0 == if base >= back {
                base - back
            } else {
                0
            }
        }),
{
    let base = match address {
        Some(a) => a.get(),
        None => pc,
    };
    let back = before as u32;
    let start = if base >= back {
        base - back
    } else {
        0
    };
    match before.checked_add(after) {
        Some(length) => Ok((VirtualAddress::new(start), length)),
        None => Err(InspectionError::InspectionRange),
    }
}

/// The physical address of byte `offset` of RAM.
pub fn ram_address(offset: usize) -> (r: PhysicalAddress)
    requires
        offset <= RAM_SIZE,
    ensures
        r.0 == RAM_BASE + offset,
{
    PhysicalAddress::new(RAM_BASE + offset as u32)
}

/// The physical address of the first match of a nonempty `pattern` in the
/// RAM bytes read from `offset`, if there is one.
pub fn search_hit(offset: usize, bytes: &[u8], pattern: &[u8]) -> (r: Option<PhysicalAddress>)
    requires
        pattern@.len() > 0,
        offset + bytes@.len() <= RAM_SIZE,
    ensures
        match r {
            Some(address) => RAM_BASE + offset <= address.0 && matches_at(
                bytes@,
                pattern@,
                address.0 - RAM_BASE - offset,
            ) && forall|i: int| 0 <= i < address.0 - RAM_BASE - offset ==> !matches_at(bytes@, pattern@, i),
            None => forall|i: int| !matches_at(bytes@, pattern@, i),
        },
{
    match find_pattern(bytes, pattern) {
        Some(index) => Some(PhysicalAddress::new(RAM_BASE + offset as u32 + index as u32)),
        None => None,
    }
}

} // verus!
