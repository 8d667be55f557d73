use vstd::prelude::*;

use crate::platform::address::{PhysicalAddress, VirtualAddress};
use crate::platform::image::{
    BootInfo, boot_info_bytes, header_error, kernel_segment_error,
    IMAGE_HEADER_SIZE, ImageHeader, KERNEL_SEGMENT_SIZE, KernelSegment, MODULE_RECORD_SIZE,
    MODULE_SEGMENT_SIZE, ModuleRecord, ModuleSegment, decode_header_spec,
    decode_kernel_segment_spec, decode_module_record_spec, decode_module_segment_spec,
};

use crate::platform::error::PlatformError;
use crate::platform::mmap::{MemRegion, SYSTEM_ROM_BASE};

use super::boot::{BootCopy, BootPlan, copy_fits};
use super::error::{ImageError, Result};
use vstd::utf8::{decode_utf8, valid_utf8};

use super::validation::{
    kernel_records_error, module_records_error, validate_kernel_records, validate_module_records,
};

verus! {

/// Decodes UTF-8 text with `std::str::from_utf8` and takes an owned copy.
/// Claimed, as std documents: text comes back exactly when the bytes are
/// valid UTF-8, and it is their decoding.
#[verifier::external_body]
fn utf8_string(bytes: &[u8]) -> (r: Option<String>)
    ensures
        match r {
            Some(s) => valid_utf8(bytes@) && s@ == decode_utf8(bytes@),
            None => !valid_utf8(bytes@),
        },
{
    match std::str::from_utf8(bytes) {
        Ok(text) => Some(text.to_owned()),
        Err(_) => None,
    }
}

/// A half-open byte span of the image.
#[derive(Clone, Copy, Debug)]
pub struct Span {
    pub start: usize,
    pub end: usize,
}

/// Whether two spans share a byte.
pub open spec fn spans_meet(a: Span, b: Span) -> bool {
    a.start < b.end && b.start < a.end
}

/// The span of `length` bytes at `start`, if its end is addressable.
pub open spec fn span_spec(start: int, length: int) -> Result<Span> {
    if start + length > usize::MAX {
        Err(ImageError::InvalidImage("offset overflow"))
    } else {
        Ok(Span { start: start as usize, end: (start + length) as usize })
    }
}

/// The span of a table of `count` records of `record_size` bytes at `offset`.
pub open spec fn table_span_spec(offset: u32, count: u32, record_size: int) -> Result<Span> {
    if count * record_size > usize::MAX {
        Err(ImageError::InvalidImage("table size overflow"))
    } else {
        span_spec(offset as int, count * record_size)
    }
}

/// The occupied spans after `candidate` is claimed in an image of
/// `image_size` bytes: it must end inside the image and meet no span
/// claimed before.
pub open spec fn occupy_spec(map: Seq<Span>, candidate: Span, image_size: int, detail: &'static str) -> Result<
    Seq<Span>,
> {
    if candidate.end > image_size {
        Err(ImageError::InvalidImage("record outside image"))
    } else if exists|k: int| 0 <= k < map.len() && #[trigger] spans_meet(map[k], candidate) {
        Err(ImageError::InvalidImage(detail))
    } else {
        Ok(map.push(candidate))
    }
}

/// The `index`-th record of `record_size` bytes of the table at `table`.
pub open spec fn record_at(bytes: Seq<u8>, table: u32, index: int, record_size: int) -> Seq<u8> {
    bytes.subrange(table + index * record_size, table + index * record_size + record_size)
}

/// The first `n` kernel segments of the table at `table`, each decoded and
/// its data claimed in turn.
pub open spec fn kernel_table_prefix(bytes: Seq<u8>, table: u32, map: Seq<Span>, n: nat) -> Result<
    (Seq<KernelSegment>, Seq<Span>),
>
    decreases n,
{
    if n == 0 {
        Ok((Seq::empty(), map))
    } else {
        match kernel_table_prefix(bytes, table, map, (n - 1) as nat) {
            Err(e) => Err(e),
            Ok((segments, claimed)) => match decode_kernel_segment_spec(
                record_at(bytes, table, n - 1, 32),
            ) {
                Err(e) => Err(ImageError::Platform(e)),
                Ok(segment) => match span_spec(segment.data_offset as int, segment.file_size as int) {
                    Err(e) => Err(e),
                    Ok(data) => match occupy_spec(claimed, data, bytes.len() as int, "overlapping image data") {
                        Err(e) => Err(e),
                        Ok(next) => Ok((segments.push(segment), next)),
                    },
                },
            },
        }
    }
}

/// The first `n` segments of a module segment table, each decoded and its
/// data claimed in turn.
pub open spec fn segment_table_prefix(bytes: Seq<u8>, table: u32, map: Seq<Span>, n: nat) -> Result<
    (Seq<ModuleSegment>, Seq<Span>),
>
    decreases n,
{
    if n == 0 {
        Ok((Seq::empty(), map))
    } else {
        match segment_table_prefix(bytes, table, map, (n - 1) as nat) {
            Err(e) => Err(e),
            Ok((segments, claimed)) => match decode_module_segment_spec(
                record_at(bytes, table, n - 1, 32),
            ) {
                Err(e) => Err(ImageError::Platform(e)),
                Ok(segment) => match span_spec(segment.data_offset as int, segment.file_size as int) {
                    Err(e) => Err(e),
                    Ok(data) => match occupy_spec(claimed, data, bytes.len() as int, "overlapping image data") {
                        Err(e) => Err(e),
                        Ok(next) => Ok((segments.push(segment), next)),
                    },
                },
            },
        }
    }
}

/// Abstract value of one parsed user module.
pub struct ModuleView {
    pub name: Seq<char>,
    pub record: ModuleRecord,
    pub segments: Seq<ModuleSegment>,
}

/// What the module parser has produced so far: the modules, the claimed
/// spans and the raw names seen.
pub type ModuleProgress = (Seq<ModuleView>, Seq<Span>, Seq<Seq<u8>>);

/// Module `index` of the table at `table`, parsed after the spans in `map`
/// are claimed and the raw names in `names` are taken: its record decodes,
/// its name and segment table are claimed, its name is nonempty UTF-8 not
/// taken before, its segments decode and are claimed, and they pass module
/// validation. Also returns the claimed spans and the taken names.
pub open spec fn module_step(
    bytes: Seq<u8>,
    table: u32,
    index: int,
    map: Seq<Span>,
    names: Seq<Seq<u8>>,
) -> Result<(ModuleView, Seq<Span>, Seq<Seq<u8>>)> {
    match decode_module_record_spec(record_at(bytes, table, index, 32)) {
        Err(e) => Err(ImageError::Platform(e)),
        Ok(record) => match span_spec(record.name_offset as int, record.name_length as int) {
            Err(e) => Err(e),
            Ok(name_span) => match table_span_spec(record.segment_table_offset, record.segment_count, 32) {
                Err(e) => Err(e),
                Ok(segment_table) => match occupy_spec(map, name_span, bytes.len() as int, "overlapping image data") {
                    Err(e) => Err(e),
                    Ok(m1) => match occupy_spec(m1, segment_table, bytes.len() as int, "overlapping image tables") {
                        Err(e) => Err(e),
                        Ok(m2) => {
                            let raw = bytes.subrange(name_span.start as int, name_span.end as int);
                            if !valid_utf8(raw) {
                                Err(ImageError::InvalidImage("module name is not UTF-8"))
                            } else {
                                let name = decode_utf8(raw);
                                if raw.len() == 0 || names.contains(raw) {
                                    Err(ImageError::InvalidImage("module name"))
                                } else {
                                    match segment_table_prefix(bytes, record.segment_table_offset, m2, record.segment_count as nat) {
                                        Err(e) => Err(e),
                                        Ok((segments, m3)) => match module_records_error(segments, record.entry_virtual_address.0) {
                                            Some(e) => Err(e),
                                            None => Ok((ModuleView { name, record, segments }, m3, names.push(raw))),
                                        },
                                    }
                                }
                            }
                        },
                    },
                },
            },
        },
    }
}

/// The modules, claimed spans and taken names after the first `n` modules
/// of the table at `table`.
pub open spec fn module_table_prefix(bytes: Seq<u8>, table: u32, map: Seq<Span>, n: nat) -> Result<
    ModuleProgress,
>
    decreases n,
{
    if n == 0 {
        Ok((Seq::empty(), map, Seq::empty()))
    } else {
        match module_table_prefix(bytes, table, map, (n - 1) as nat) {
            Err(e) => Err(e),
            Ok((modules, claimed, names)) => match module_step(bytes, table, n - 1, claimed, names) {
                Err(e) => Err(e),
                Ok((module, next, seen)) => Ok((modules.push(module), next, seen)),
            },
        }
    }
}

/// Abstract value of a parsed system image.
pub struct ImageView {
    pub bytes: Seq<u8>,
    pub header: ImageHeader,
    pub kernel_segments: Seq<KernelSegment>,
    pub modules: Seq<ModuleView>,
}

/// The spans claimed before the kernel segments are parsed: the header
/// and both tables.
pub open spec fn parse_map2(bytes: Seq<u8>) -> Seq<Span> {
    let header = decode_header_spec(bytes)->Ok_0;
    let size = bytes.len() as int;
    let kernel_table = table_span_spec(header.kernel_segment_table_offset, header.kernel_segment_count, 32)->Ok_0;
    let module_table = table_span_spec(header.module_table_offset, header.module_count, 32)->Ok_0;
    let map1 = occupy_spec(seq![Span { start: 0, end: 64 }], kernel_table, size, "overlapping image tables")->Ok_0;
    occupy_spec(map1, module_table, size, "overlapping image tables")->Ok_0
}

/// The header and tables of an image of exactly `image_size` bytes, each
/// claimed in turn: the header, the kernel and module tables, then the
/// kernel segment data.
pub open spec fn parse_spec(bytes: Seq<u8>) -> Result<ImageView> {
    match decode_header_spec(bytes) {
        Err(e) => Err(ImageError::Platform(e)),
        Ok(header) => if bytes.len() != header.image_size {
            Err(ImageError::InvalidImage("image size"))
        } else {
            let size = bytes.len() as int;
            let map0 = seq![Span { start: 0, end: 64 }];
            match table_span_spec(header.kernel_segment_table_offset, header.kernel_segment_count, 32) {
                Err(e) => Err(e),
                Ok(kernel_table) => match table_span_spec(header.module_table_offset, header.module_count, 32) {
                    Err(e) => Err(e),
                    Ok(module_table) => match occupy_spec(map0, kernel_table, size, "overlapping image tables") {
                        Err(e) => Err(e),
                        Ok(map1) => match occupy_spec(map1, module_table, size, "overlapping image tables") {
                            Err(e) => Err(e),
                            Ok(map2) => match kernel_table_prefix(bytes, header.kernel_segment_table_offset, map2, header.kernel_segment_count as nat) {
                                Err(e) => Err(e),
                                Ok((kernel_segments, map3)) => match kernel_records_error(kernel_segments, header.kernel_entry_vaddr.0) {
                                    Some(e) => Err(e),
                                    None => match module_table_prefix(bytes, header.module_table_offset, map3, header.module_count as nat) {
                                        Err(e) => Err(e),
                                        Ok((modules, _, _)) => Ok(ImageView { bytes, header, kernel_segments, modules }),
                                    },
                                },
                            },
                        },
                    },
                },
            }
        },
    }
}

proof fn lemma_kernel_prefix_error(bytes: Seq<u8>, table: u32, map: Seq<Span>, i: nat, n: nat)
    requires
        i <= n,
        kernel_table_prefix(bytes, table, map, i) is Err,
    ensures
        kernel_table_prefix(bytes, table, map, n) == kernel_table_prefix(bytes, table, map, i),
    decreases n - i,
{
    if n > i {
        lemma_kernel_prefix_error(bytes, table, map, i, (n - 1) as nat);
    }
}

proof fn lemma_segment_prefix_error(bytes: Seq<u8>, table: u32, map: Seq<Span>, i: nat, n: nat)
    requires
        i <= n,
        segment_table_prefix(bytes, table, map, i) is Err,
    ensures
        segment_table_prefix(bytes, table, map, n) == segment_table_prefix(bytes, table, map, i),
    decreases n - i,
{
    if n > i {
        lemma_segment_prefix_error(bytes, table, map, i, (n - 1) as nat);
    }
}

proof fn lemma_module_prefix_error(bytes: Seq<u8>, table: u32, map: Seq<Span>, i: nat, n: nat)
    requires
        i <= n,
        module_table_prefix(bytes, table, map, i) is Err,
    ensures
        module_table_prefix(bytes, table, map, n) == module_table_prefix(bytes, table, map, i),
    decreases n - i,
{
    if n > i {
        lemma_module_prefix_error(bytes, table, map, i, (n - 1) as nat);
    }
}

/// Every kernel segment a table prefix decodes is ABI-valid, is the
/// decoding of its record, and has its initialized data inside the image.
pub proof fn lemma_kernel_prefix_facts(bytes: Seq<u8>, table: u32, map: Seq<Span>, n: nat)
    requires
        kernel_table_prefix(bytes, table, map, n) is Ok,
    ensures
        ({
            let segments = kernel_table_prefix(bytes, table, map, n)->Ok_0.0;
            &&& segments.len() == n
            &&& forall|k: int|
                0 <= k < n ==> #[trigger] kernel_segment_error(segments[k]) is None
                    && segments[k].data_offset + segments[k].file_size <= bytes.len()
                    && decode_kernel_segment_spec(record_at(bytes, table, k, 32))
                    == Ok::<KernelSegment, PlatformError>(segments[k])
        }),
    decreases n,
{
    if n > 0 {
        lemma_kernel_prefix_facts(bytes, table, map, (n - 1) as nat);
    }
}

/// Every segment a module segment table prefix decodes is the decoding of
/// its record.
proof fn lemma_segment_prefix_facts(bytes: Seq<u8>, table: u32, map: Seq<Span>, n: nat)
    requires
        segment_table_prefix(bytes, table, map, n) is Ok,
    ensures
        ({
            let segments = segment_table_prefix(bytes, table, map, n)->Ok_0.0;
            &&& segments.len() == n
            &&& forall|k: int|
                0 <= k < n ==> decode_module_segment_spec(record_at(bytes, table, k, 32))
                    == Ok::<ModuleSegment, PlatformError>(#[trigger] segments[k])
        }),
    decreases n,
{
    if n > 0 {
        lemma_segment_prefix_facts(bytes, table, map, (n - 1) as nat);
        let segments = segment_table_prefix(bytes, table, map, n)->Ok_0.0;
        let before = segment_table_prefix(bytes, table, map, (n - 1) as nat)->Ok_0.0;
        assert forall|k: int| 0 <= k < n implies decode_module_segment_spec(record_at(bytes, table, k, 32))
            == Ok::<ModuleSegment, PlatformError>(#[trigger] segments[k]) by {
            if k < n - 1 {
                assert(segments[k] == before[k]);
            }
        }
    }
}

/// Whether module `v` is what the module record at index `k` of the table
/// at `table` decodes to: its record, its name and each of its segments.
pub open spec fn module_parsed_from(bytes: Seq<u8>, table: u32, k: int, v: ModuleView) -> bool {
    &&& decode_module_record_spec(record_at(bytes, table, k, 32)) == Ok::<ModuleRecord, PlatformError>(v.record)
    &&& v.name == decode_utf8(
        bytes.subrange(v.record.name_offset as int, v.record.name_offset + v.record.name_length),
    )
    &&& v.segments.len() == v.record.segment_count
    &&& forall|j: int|
        0 <= j < v.segments.len() ==> decode_module_segment_spec(
            record_at(bytes, v.record.segment_table_offset, j, 32),
        ) == Ok::<ModuleSegment, PlatformError>(#[trigger] v.segments[j])
}

/// Every module a module table prefix parses is the decoding of its
/// record, name and segment table.
proof fn lemma_module_prefix_facts(bytes: Seq<u8>, table: u32, map: Seq<Span>, n: nat)
    requires
        module_table_prefix(bytes, table, map, n) is Ok,
    ensures
        ({
            let modules = module_table_prefix(bytes, table, map, n)->Ok_0.0;
            &&& modules.len() == n
            &&& forall|k: int| 0 <= k < n ==> module_parsed_from(bytes, table, k, #[trigger] modules[k])
        }),
    decreases n,
{
    if n > 0 {
        lemma_module_prefix_facts(bytes, table, map, (n - 1) as nat);
        let (before, claimed, names) = module_table_prefix(bytes, table, map, (n - 1) as nat)->Ok_0;
        let modules = module_table_prefix(bytes, table, map, n)->Ok_0.0;
        let step = module_step(bytes, table, n - 1, claimed, names);
        let (module, _, _) = step->Ok_0;
        let record = decode_module_record_spec(record_at(bytes, table, n - 1, 32))->Ok_0;
        let name_span = span_spec(record.name_offset as int, record.name_length as int)->Ok_0;
        let segment_table = table_span_spec(record.segment_table_offset, record.segment_count, 32)->Ok_0;
        let m1 = occupy_spec(claimed, name_span, bytes.len() as int, "overlapping image data")->Ok_0;
        let m2 = occupy_spec(m1, segment_table, bytes.len() as int, "overlapping image tables")->Ok_0;
        assert(step is Ok);
        assert(segment_table_prefix(bytes, record.segment_table_offset, m2, record.segment_count as nat) is Ok);
        lemma_segment_prefix_facts(bytes, record.segment_table_offset, m2, record.segment_count as nat);
        assert(module_parsed_from(bytes, table, n - 1, module));
        assert forall|k: int| 0 <= k < n implies module_parsed_from(bytes, table, k, #[trigger] modules[k]) by {
            if k < n - 1 {
                assert(modules[k] == before[k]);
            }
        }
    }
}

/// Each module of a parsed image is the decoding of its record, name and
/// segment table.
pub proof fn lemma_parsed_module_records(bytes: Seq<u8>, view: ImageView)
    requires
        parse_spec(bytes) == Ok::<ImageView, ImageError>(view),
    ensures
        view.modules.len() == view.header.module_count,
        forall|k: int|
            0 <= k < view.modules.len() ==> module_parsed_from(
                bytes,
                view.header.module_table_offset,
                k,
                #[trigger] view.modules[k],
            ),
{
    let h = view.header;
    let map2 = parse_map2(bytes);
    assert(decode_header_spec(bytes) == Ok::<ImageHeader, PlatformError>(h));
    let map3 = kernel_table_prefix(bytes, h.kernel_segment_table_offset, map2, h.kernel_segment_count as nat)->Ok_0.1;
    assert(module_table_prefix(bytes, h.module_table_offset, map3, h.module_count as nat) matches Ok(
        (modules, _, _),
    ) && modules == view.modules);
    lemma_module_prefix_facts(bytes, h.module_table_offset, map3, h.module_count as nat);
}

/// Each kernel segment of a parsed image is the decoding of its record in
/// the kernel segment table.
pub proof fn lemma_parsed_kernel_records(bytes: Seq<u8>, view: ImageView)
    requires
        parse_spec(bytes) == Ok::<ImageView, ImageError>(view),
    ensures
        view.kernel_segments.len() == view.header.kernel_segment_count,
        forall|k: int|
            0 <= k < view.kernel_segments.len() ==> decode_kernel_segment_spec(
                record_at(bytes, view.header.kernel_segment_table_offset, k, 32),
            ) == Ok::<KernelSegment, PlatformError>(#[trigger] view.kernel_segments[k]),
{
    let h = view.header;
    let map2 = parse_map2(bytes);
    assert(decode_header_spec(bytes) == Ok::<ImageHeader, PlatformError>(h));
    assert(kernel_table_prefix(bytes, h.kernel_segment_table_offset, map2, h.kernel_segment_count as nat) matches Ok(
        (segments, _),
    ) && segments == view.kernel_segments);
    lemma_kernel_prefix_facts(bytes, h.kernel_segment_table_offset, map2, h.kernel_segment_count as nat);
    assert forall|k: int| 0 <= k < view.kernel_segments.len() implies decode_kernel_segment_spec(
        record_at(bytes, h.kernel_segment_table_offset, k, 32),
    ) == Ok::<KernelSegment, PlatformError>(#[trigger] view.kernel_segments[k]) by {
        assert(kernel_segment_error(view.kernel_segments[k]) is None);
    }
}

/// The boot plan of a parsed image: one copy of each kernel segment's
/// initialized bytes to its physical address followed by its zeroed tail,
/// boot info describing the image, and the fixed handoff addresses.
pub open spec fn boot_plan_matches(view: ImageView, plan: BootPlan) -> bool {
    &&& plan.copies@.len() == view.kernel_segments.len()
    &&& forall|i: int|
        0 <= i < plan.copies@.len() ==> {
            let segment = view.kernel_segments[i];
            let copy = #[trigger] plan.copies@[i];
            &&& copy.physical_address == segment.physical_address
            &&& copy.bytes@ == view.bytes.subrange(
                segment.data_offset as int,
                segment.data_offset + segment.file_size,
            )
            &&& copy.zeroed_length == segment.memory_size - segment.file_size
        }
    &&& plan.boot_info@ == boot_info_bytes(
        BootInfo {
            system_rom_base: PhysicalAddress(SYSTEM_ROM_BASE),
            image_size: view.header.image_size,
            module_table_offset: view.header.module_table_offset,
            module_count: view.header.module_count,
        },
    )
    &&& plan.boot_info_paddr == view.header.boot_info_paddr
    &&& plan.bootstrap_entry_paddr == view.header.bootstrap_entry_paddr
    &&& plan.boot_info_vaddr == VirtualAddress(0xc000_7000)
    &&& plan.kernel_entry_vaddr == view.header.kernel_entry_vaddr
}

/// Abstract value of a parsed module.
pub open spec fn module_view(m: ImageModule) -> ModuleView {
    ModuleView { name: m.name@, record: m.record, segments: m.segments@ }
}

/// A parsed user module and its table record.
#[derive(Clone, Debug, PartialEq, Eq)]
pub struct ImageModule {
    pub name: String,
    pub record: ModuleRecord,
    pub segments: Vec<ModuleSegment>,
}

/// A canonical system-ROM image: bytes that parse, with their parse.
#[derive(Debug, PartialEq, Eq)]
pub struct SystemImage {
    bytes: Vec<u8>,
    header: ImageHeader,
    kernel_segments: Vec<KernelSegment>,
    modules: Vec<ImageModule>,
}

impl View for SystemImage {
    type V = ImageView;

    closed spec fn view(&self) -> ImageView {
        ImageView {
            bytes: self.bytes@,
            header: self.header,
            kernel_segments: self.kernel_segments@,
            modules: self.modules@.map_values(|m: ImageModule| module_view(m)),
        }
    }
}

fn span_new(start: usize, length: usize) -> (r: Result<Span>)
    ensures
        r == span_spec(start as int, length as int),
{
    match start.checked_add(length) {
        Some(end) => Ok(Span { start, end }),
        None => Err(ImageError::InvalidImage("offset overflow")),
    }
}

fn table_span(offset: u32, count: u32, record_size: usize) -> (r: Result<Span>)
    ensures
        r == table_span_spec(offset, count, record_size as int),
{
    match (count as usize).checked_mul(record_size) {
        Some(length) => span_new(offset as usize, length),
        None => Err(ImageError::InvalidImage("table size overflow")),
    }
}

fn occupy(map: &mut Vec<Span>, candidate: Span, image_size: usize, detail: &'static str) -> (r: Result<()>)
    ensures
        match occupy_spec(old(map)@, candidate, image_size as int, detail) {
            Ok(next) => r is Ok && final(map)@ == next,
            Err(e) => (r matches Err(re) && re == e) && final(map)@ == old(map)@,
        },
{
    if candidate.end > image_size {
        return Err(ImageError::InvalidImage("record outside image"));
    }
    let n = map.len();
    let mut i: usize = 0;
    while i < n
        invariant
            i <= n,
            n == map@.len(),
            forall|k: int| 0 <= k < i ==> !spans_meet(#[trigger] map@[k], candidate),
            map@ == old(map)@,
            candidate.end <= image_size,
        decreases n - i,
    {
        let span = map[i];
        if span.start < candidate.end && candidate.start < span.end {
            assert(spans_meet(map@[i as int], candidate));
            return Err(ImageError::InvalidImage(detail));
        }
        i += 1;
    }
    map.push(candidate);
    Ok(())
}

fn slice_to_vec(bytes: &[u8]) -> (r: Vec<u8>)
    ensures
        r@ == bytes@,
{
    let mut out: Vec<u8> = Vec::with_capacity(bytes.len());
    let n = bytes.len();
    let mut i: usize = 0;
    while i < n
        invariant
            i <= n,
            n == bytes@.len(),
            out@ == bytes@.subrange(0, i as int),
        decreases n - i,
    {
        out.push(bytes[i]);
        i += 1;
        assert(out@ =~= bytes@.subrange(0, i as int));
    }
    assert(out@ =~= bytes@);
    out
}

fn contains_name(names: &Vec<Vec<u8>>, name: &[u8]) -> (r: bool)
    ensures
        r == names@.map_values(|v: Vec<u8>| v@).contains(name@),
{
    let ghost views = names@.map_values(|v: Vec<u8>| v@);
    let n = names.len();
    let mut i: usize = 0;
    while i < n
        invariant
            i <= n,
            n == names@.len(),
            views == names@.map_values(|v: Vec<u8>| v@),
            forall|k: int| 0 <= k < i ==> views[k] != name@,
        decreases n - i,
    {
        let candidate = &names[i];
        let mut same = candidate.len() == name.len();
        if same {
            let m = name.len();
            let mut j: usize = 0;
            while j < m
                invariant
                    j <= m,
                    m == name@.len(),
                    m == candidate@.len(),
                    same == forall|k: int| 0 <= k < j ==> candidate@[k] == name@[k],
                decreases m - j,
            {
                if candidate[j] != name[j] {
                    same = false;
                }
                j += 1;
            }
            proof {
                if same {
                    assert(candidate@ =~= name@);
                } else {
                    let k = choose|k: int| 0 <= k < m && candidate@[k] != name@[k];
                    assert(candidate@[k] != name@[k]);
                }
            }
        }
        if same {
            assert(views[i as int] == name@);
            return true;
        }
        i += 1;
    }
    false
}

impl SystemImage {
    /// The image has exactly the parse of its bytes.
    pub closed spec fn parsed(&self) -> bool {
        parse_spec(self.bytes@) == Ok::<ImageView, ImageError>(self@)
    }

    #[verifier::type_invariant]
    spec fn well_parsed(self) -> bool {
        self.parsed()
    }

    /// A parsed image is exactly the parse of its own bytes, so that an
    /// image the packer returns parses back to itself.
    pub proof fn lemma_parsed(image: &SystemImage)
        ensures
            image.parsed() <==> parse_spec(image@.bytes) == Ok::<ImageView, ImageError>(image@),
    {
    }

    /// Produces the data movements and handoff values performed by boot ROM.
    pub fn boot_plan(&self) -> (r: Result<BootPlan>)
        ensures
            r matches Ok(plan) && boot_plan_matches(self@, plan) && forall|i: int|
                0 <= i < plan.copies@.len() ==> copy_fits(#[trigger] plan.copies@[i]),
    {
        proof {
            use_type_invariant(self);
            let h = self.header;
            lemma_kernel_prefix_facts(self.bytes@, h.kernel_segment_table_offset, parse_map2(self.bytes@), h.kernel_segment_count as nat);
        }
        let n = self.kernel_segments.len();
        let length = self.bytes.len();
        let mut copies: Vec<BootCopy> = Vec::with_capacity(n);
        let mut i: usize = 0;
        while i < n
            invariant
                i <= n,
                n == self.kernel_segments@.len(),
                length == self.bytes@.len(),
                forall|k: int|
                    0 <= k < n ==> #[trigger] kernel_segment_error(self.kernel_segments@[k]) is None
                        && self.kernel_segments@[k].data_offset + self.kernel_segments@[k].file_size
                        <= self.bytes@.len(),
                copies@.len() == i,
                forall|k: int|
                    0 <= k < i ==> {
                        let segment = self.kernel_segments@[k];
                        let copy = #[trigger] copies@[k];
                        &&& copy.physical_address == segment.physical_address
                        &&& copy.bytes@ == self.bytes@.subrange(
                            segment.data_offset as int,
                            segment.data_offset + segment.file_size,
                        )
                        &&& copy.zeroed_length == segment.memory_size - segment.file_size
                        &&& copy_fits(copy)
                    },
            decreases n - i,
        {
            let segment = self.kernel_segments[i];
            assert(kernel_segment_error(self.kernel_segments@[i as int]) is None);
            let start = segment.data_offset as usize;
            let end = start + segment.file_size as usize;
            let bytes = slice_to_vec(&self.bytes.as_slice()[start..end]);
            copies.push(BootCopy {
                physical_address: segment.physical_address,
                bytes,
                zeroed_length: segment.memory_size - segment.file_size,
            });
            i += 1;
        }
        let info = BootInfo {
            system_rom_base: MemRegion::SystemRom.base(),
            image_size: self.header.image_size,
            module_table_offset: self.header.module_table_offset,
            module_count: self.header.module_count,
        };
        let boot_info = match info.encode() {
            Ok(encoded) => encoded,
            Err(e) => return Err(ImageError::Platform(e)),
        };
        Ok(BootPlan {
            copies,
            boot_info,
            boot_info_paddr: self.header.boot_info_paddr,
            bootstrap_entry_paddr: self.header.bootstrap_entry_paddr,
            boot_info_vaddr: VirtualAddress::new(0xc000_7000),
            kernel_entry_vaddr: self.header.kernel_entry_vaddr,
        })
    }

    /// Decodes the kernel segment table and claims each segment's data.
    fn parse_kernel_table(bytes: &[u8], header: ImageHeader, map: &mut Vec<Span>) -> (r: Result<
        Vec<KernelSegment>,
    >)
        requires
            header.kernel_segment_table_offset + header.kernel_segment_count * 32 <= bytes@.len(),
        ensures
            match kernel_table_prefix(bytes@, header.kernel_segment_table_offset, old(map)@, header.kernel_segment_count as nat) {
                Ok((segments, next)) => (r matches Ok(v) && v@ == segments) && final(map)@ == next,
                Err(e) => r matches Err(re) && re == e,
            },
    {
        let ghost start = map@;
        let length = bytes.len();
        let table = header.kernel_segment_table_offset as usize;
        let count = header.kernel_segment_count as usize;
        let mut segments: Vec<KernelSegment> = Vec::new();
        let mut index: usize = 0;
        while index < count
            invariant
                index <= count,
                count == header.kernel_segment_count,
                table == header.kernel_segment_table_offset,
                table + count * 32 <= bytes@.len(),
                length == bytes@.len(),
                start == old(map)@,
                kernel_table_prefix(bytes@, header.kernel_segment_table_offset, start, index as nat)
                    == Ok::<(Seq<KernelSegment>, Seq<Span>), ImageError>((segments@, map@)),
            decreases count - index,
        {
            assert(table + index * 32 + 32 <= table + count * 32) by (nonlinear_arith)
                requires
                    index < count,
            ;
            let offset = table + index * KERNEL_SEGMENT_SIZE;
            let record = &bytes[offset..offset + KERNEL_SEGMENT_SIZE];
            assert(record@ =~= record_at(bytes@, header.kernel_segment_table_offset, index as int, 32));
            let step = match KernelSegment::decode(record) {
                Ok(segment) => match span_new(segment.data_offset as usize, segment.file_size as usize) {
                    Ok(data) => match occupy(map, data, bytes.len(), "overlapping image data") {
                        Ok(()) => Ok(segment),
                        Err(e) => Err(e),
                    },
                    Err(e) => Err(e),
                },
                Err(e) => Err(ImageError::Platform(e)),
            };
            match step {
                Ok(segment) => segments.push(segment),
                Err(e) => {
                    proof {
                        lemma_kernel_prefix_error(bytes@, header.kernel_segment_table_offset, start, (index + 1) as nat, count as nat);
                    }
                    return Err(e);
                },
            }
            index += 1;
        }
        Ok(segments)
    }

    /// Decodes one module segment table and claims each segment's data.
    fn parse_segment_table(bytes: &[u8], record: ModuleRecord, map: &mut Vec<Span>) -> (r: Result<
        Vec<ModuleSegment>,
    >)
        requires
            record.segment_table_offset + record.segment_count * 32 <= bytes@.len(),
        ensures
            match segment_table_prefix(bytes@, record.segment_table_offset, old(map)@, record.segment_count as nat) {
                Ok((segments, next)) => (r matches Ok(v) && v@ == segments) && final(map)@ == next,
                Err(e) => r matches Err(re) && re == e,
            },
    {
        let ghost start = map@;
        let length = bytes.len();
        let table = record.segment_table_offset as usize;
        let count = record.segment_count as usize;
        let mut segments: Vec<ModuleSegment> = Vec::new();
        let mut index: usize = 0;
        while index < count
            invariant
                index <= count,
                count == record.segment_count,
                table == record.segment_table_offset,
                table + count * 32 <= bytes@.len(),
                length == bytes@.len(),
                start == old(map)@,
                segment_table_prefix(bytes@, record.segment_table_offset, start, index as nat)
                    == Ok::<(Seq<ModuleSegment>, Seq<Span>), ImageError>((segments@, map@)),
            decreases count - index,
        {
            assert(table + index * 32 + 32 <= table + count * 32) by (nonlinear_arith)
                requires
                    index < count,
            ;
            let offset = table + index * MODULE_SEGMENT_SIZE;
            let entry = &bytes[offset..offset + MODULE_SEGMENT_SIZE];
            assert(entry@ =~= record_at(bytes@, record.segment_table_offset, index as int, 32));
            let step = match ModuleSegment::decode(entry) {
                Ok(segment) => match span_new(segment.data_offset as usize, segment.file_size as usize) {
                    Ok(data) => match occupy(map, data, bytes.len(), "overlapping image data") {
                        Ok(()) => Ok(segment),
                        Err(e) => Err(e),
                    },
                    Err(e) => Err(e),
                },
                Err(e) => Err(ImageError::Platform(e)),
            };
            match step {
                Ok(segment) => segments.push(segment),
                Err(e) => {
                    proof {
                        lemma_segment_prefix_error(bytes@, record.segment_table_offset, start, (index + 1) as nat, count as nat);
                    }
                    return Err(e);
                },
            }
            index += 1;
        }
        Ok(segments)
    }

    /// Parses module `index` of the module table, claiming its name, its
    /// segment table and its segment data.
    fn parse_module(
        bytes: &[u8],
        table: u32,
        index: usize,
        map: &mut Vec<Span>,
        names: &mut Vec<Vec<u8>>,
    ) -> (r: Result<ImageModule>)
        requires
            table + index * 32 + 32 <= bytes@.len(),
        ensures
            match module_step(bytes@, table, index as int, old(map)@, old(names)@.map_values(|v: Vec<u8>| v@)) {
                Ok((module, next, seen)) => (r matches Ok(m) && module_view(m) == module)
                    && final(map)@ == next && final(names)@.map_values(|v: Vec<u8>| v@) == seen,
                Err(e) => r matches Err(re) && re == e,
            },
    {
        let length = bytes.len();
        assert(table + index * 32 + 32 <= length);
        let offset = table as usize + index * MODULE_RECORD_SIZE;
        let raw_record = &bytes[offset..offset + MODULE_RECORD_SIZE];
        assert(raw_record@ =~= record_at(bytes@, table, index as int, 32));
        let record = match ModuleRecord::decode(raw_record) {
            Ok(record) => record,
            Err(e) => return Err(ImageError::Platform(e)),
        };
        let name_span = span_new(record.name_offset as usize, record.name_length as usize)?;
        let segment_table = table_span(record.segment_table_offset, record.segment_count, MODULE_SEGMENT_SIZE)?;
        occupy(map, name_span, bytes.len(), "overlapping image data")?;
        occupy(map, segment_table, bytes.len(), "overlapping image tables")?;
        let raw_name = &bytes[name_span.start..name_span.end];
        let name = match utf8_string(raw_name) {
            Some(name) => name,
            None => return Err(ImageError::InvalidImage("module name is not UTF-8")),
        };
        if raw_name.len() == 0 || contains_name(names, raw_name) {
            return Err(ImageError::InvalidImage("module name"));
        }
        names.push(slice_to_vec(raw_name));
        proof {
            assert(names@.map_values(|v: Vec<u8>| v@) =~= old(names)@.map_values(|v: Vec<u8>| v@).push(raw_name@));
        }
        let segments = Self::parse_segment_table(bytes, record, map)?;
        validate_module_records(segments.as_slice(), record.entry_virtual_address)?;
        Ok(ImageModule { name, record, segments })
    }

    /// Parses and fully validates one exact system-ROM image.
    pub fn parse(bytes: &[u8]) -> (r: Result<Self>)
        ensures
            match parse_spec(bytes@) {
                Ok(view) => r matches Ok(image) && image@ == view && image.parsed(),
                Err(e) => r matches Err(re) && re == e,
            },
    {
        let header = match ImageHeader::decode(bytes) {
            Ok(header) => header,
            Err(e) => return Err(ImageError::Platform(e)),
        };
        if bytes.len() != header.image_size as usize {
            return Err(ImageError::InvalidImage("image size"));
        }
        let mut map: Vec<Span> = Vec::new();
        map.push(Span { start: 0, end: IMAGE_HEADER_SIZE });
        let kernel_table = table_span(header.kernel_segment_table_offset, header.kernel_segment_count, KERNEL_SEGMENT_SIZE)?;
        let module_table = table_span(header.module_table_offset, header.module_count, MODULE_RECORD_SIZE)?;
        assert(map@ =~= seq![Span { start: 0, end: 64 }]);
        occupy(&mut map, kernel_table, bytes.len(), "overlapping image tables")?;
        occupy(&mut map, module_table, bytes.len(), "overlapping image tables")?;
        let kernel_segments = Self::parse_kernel_table(bytes, header, &mut map)?;
        validate_kernel_records(kernel_segments.as_slice(), header.kernel_entry_vaddr)?;
        let ghost map3 = map@;
        let table = header.module_table_offset;
        let count = header.module_count as usize;
        let mut modules: Vec<ImageModule> = Vec::new();
        let mut names: Vec<Vec<u8>> = Vec::new();
        let ghost rest = match module_table_prefix(bytes@, table, map3, count as nat) {
            Err(e) => Err(e),
            Ok((m, _, _)) => Ok(ImageView { bytes: bytes@, header, kernel_segments: kernel_segments@, modules: m }),
        };
        assert(parse_spec(bytes@) == rest);
        assert(modules@.map_values(|m: ImageModule| module_view(m)) =~= Seq::<ModuleView>::empty());
        assert(names@.map_values(|v: Vec<u8>| v@) =~= Seq::<Seq<u8>>::empty());
        let mut index: usize = 0;
        while index < count
            invariant
                index <= count,
                parse_spec(bytes@) == rest,
                rest == match module_table_prefix(bytes@, table, map3, count as nat) {
                    Err(e) => Err(e),
                    Ok((m, _, _)) => Ok(ImageView { bytes: bytes@, header, kernel_segments: kernel_segments@, modules: m }),
                },
                count == header.module_count,
                table == header.module_table_offset,
                table + count * 32 <= bytes@.len(),
                module_table_prefix(bytes@, table, map3, index as nat) == Ok::<ModuleProgress, ImageError>((
                    modules@.map_values(|m: ImageModule| module_view(m)),
                    map@,
                    names@.map_values(|v: Vec<u8>| v@),
                )),
            decreases count - index,
        {
            assert(table + index * 32 + 32 <= table + count * 32) by (nonlinear_arith)
                requires
                    index < count,
            ;
            let ghost prior = modules@.map_values(|m: ImageModule| module_view(m));
            match Self::parse_module(bytes, table, index, &mut map, &mut names) {
                Ok(module) => {
                    modules.push(module);
                    assert(modules@.map_values(|m: ImageModule| module_view(m)) =~= prior.push(module_view(module)));
                },
                Err(e) => {
                    proof {
                        lemma_module_prefix_error(bytes@, table, map3, (index + 1) as nat, count as nat);
                    }
                    return Err(e);
                },
            }
            index += 1;
        }
        let image = SystemImage { bytes: slice_to_vec(bytes), header, kernel_segments, modules };
        Ok(image)
    }

    pub fn bytes(&self) -> (r: &[u8])
        ensures
            r@ == self@.bytes,
    {
        self.bytes.as_slice()
    }

    pub fn header(&self) -> (r: ImageHeader)
        ensures
            r == self@.header,
    {
        self.header
    }

    pub fn kernel_segments(&self) -> (r: &[KernelSegment])
        ensures
            r@ == self@.kernel_segments,
    {
        self.kernel_segments.as_slice()
    }

    pub fn modules(&self) -> (r: &[ImageModule])
        ensures
            r@.map_values(|m: ImageModule| module_view(m)) == self@.modules,
    {
        self.modules.as_slice()
    }
}

} // verus!
