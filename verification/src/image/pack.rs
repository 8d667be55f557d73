use vstd::prelude::*;
use vstd::utf8::decode_utf8;

use crate::hw::memory::splice;
use crate::platform::address::{PhysicalAddress, VirtualAddress};
use crate::platform::error::PlatformError;
use crate::platform::image::{
    header_bytes, kernel_segment_bytes, lemma_header_prefix, lemma_header_round_trip,
    module_record_bytes, module_segment_bytes, kernel_segment_error, module_segment_valid,
    decode_header_spec, decode_kernel_segment_spec, header_error, decode_module_record_spec, decode_module_segment_spec,
    lemma_kernel_segment_round_trip, lemma_module_record_round_trip, lemma_module_segment_round_trip,
    IMAGE_HEADER_SIZE, ImageHeader, KERNEL_SEGMENT_SIZE, KernelSegment, MODULE_RECORD_SIZE,
    MODULE_SEGMENT_SIZE, ModuleRecord, ModuleSegment,
};
use crate::platform::mmap::{BOOT_INFO_PADDR, BOOTSTRAP_ENTRY_PADDR, MemRegion, SYSTEM_ROM_SIZE};

use super::error::{ImageError, Result};
use super::format::{
    ImageView, ModuleView, SystemImage, lemma_parsed_kernel_records, lemma_parsed_module_records, module_parsed_from,
    parse_spec, record_at,
};

verus! {

/// One user module ready for packing: its name, entry and segments with
/// their initialized bytes.
pub struct PackedModule {
    pub name: Vec<u8>,
    pub entry: VirtualAddress,
    pub segments: Vec<(ModuleSegment, Vec<u8>)>,
}

/// `value` rounded up to a multiple of four.
pub open spec fn align4_spec(value: int) -> int {
    (value + 3) / 4 * 4
}

/// End of the module segment tables laid out from `cursor`, each aligned
/// to four bytes, for modules with the given segment counts.
pub open spec fn segment_tables_end(cursor: int, counts: Seq<nat>) -> int
    decreases counts.len(),
{
    if counts.len() == 0 {
        cursor
    } else {
        align4_spec(segment_tables_end(cursor, counts.drop_last())) + counts.last() * 32
    }
}

/// Sum of a sequence of lengths.
pub open spec fn total(lengths: Seq<nat>) -> nat
    decreases lengths.len(),
{
    if lengths.len() == 0 {
        0
    } else {
        total(lengths.drop_last()) + lengths.last()
    }
}

/// Segment counts of the packed modules.
pub open spec fn segment_counts(modules: Seq<PackedModule>) -> Seq<nat> {
    modules.map_values(|m: PackedModule| m.segments@.len())
}

/// Name lengths of the packed modules.
pub open spec fn name_lengths(modules: Seq<PackedModule>) -> Seq<nat> {
    modules.map_values(|m: PackedModule| m.name@.len())
}

/// Data lengths of a segment list.
pub open spec fn data_lengths<S>(segments: Seq<(S, Vec<u8>)>) -> Seq<nat> {
    segments.map_values(|p: (S, Vec<u8>)| p.1@.len())
}

/// Total data length of every module segment.
pub open spec fn module_data_total(modules: Seq<PackedModule>) -> nat {
    total(modules.map_values(|m: PackedModule| total(data_lengths(m.segments@))))
}

/// Size of the canonical image: header, kernel table, module table, the
/// four-byte-aligned module segment tables, the aligned block of module
/// names, then every nonempty initialized segment in order.
pub open spec fn layout_size(kernel: Seq<(KernelSegment, Vec<u8>)>, modules: Seq<PackedModule>) -> int {
    let module_table = (64 + kernel.len() * 32) as int;
    let tables = segment_tables_end(module_table + modules.len() * 32, segment_counts(modules));
    let names = align4_spec(tables) + total(name_lengths(modules)) as int;
    align4_spec(names) + total(data_lengths(kernel)) as int + module_data_total(modules) as int
}

/// Whether every kernel segment with initialized bytes has its data at
/// or after `floor`.
pub open spec fn kernel_data_from(segments: Seq<(KernelSegment, Vec<u8>)>, floor: int) -> bool {
    forall|i: int|
        0 <= i < segments.len() && (#[trigger] segments[i]).1@.len() != 0 ==> segments[i].0.data_offset
            >= floor
}

/// Whether every module segment with initialized bytes has its data at or
/// after `floor`.
pub open spec fn module_data_from(segments: Seq<(ModuleSegment, Vec<u8>)>, floor: int) -> bool {
    forall|i: int|
        0 <= i < segments.len() && (#[trigger] segments[i]).1@.len() != 0 ==> segments[i].0.data_offset
            >= floor
}

fn size32(value: usize, detail: &'static str) -> (r: Result<u32>)
    ensures
        value <= u32::MAX ==> r == Ok::<u32, ImageError>(value as u32),
        value > u32::MAX ==> (r matches Err(ImageError::InvalidImage(d)) && d == detail),
{
    if value > u32::MAX as usize {
        return Err(ImageError::InvalidImage(detail));
    }
    Ok(value as u32)
}

fn checked_add(left: usize, right: usize) -> (r: Result<usize>)
    ensures
        left + right <= usize::MAX ==> r == Ok::<usize, ImageError>((left + right) as usize),
        left + right > usize::MAX ==> (r matches Err(ImageError::InvalidImage(d)) && d
            == "image size overflow"),
{
    match left.checked_add(right) {
        Some(sum) => Ok(sum),
        None => Err(ImageError::InvalidImage("image size overflow")),
    }
}

fn align4(value: usize) -> (r: Result<usize>)
    ensures
        value + 3 <= usize::MAX ==> r == Ok::<usize, ImageError>(align4_spec(value as int) as usize),
        value + 3 > usize::MAX ==> r is Err,
{
    let bumped = checked_add(value, 3)?;
    assert(bumped & !3usize == bumped - bumped % 4) by (bit_vector);
    Ok(bumped & !3usize)
}

/// Writes `source` over `destination` at `offset`.
fn copy_into(destination: &mut Vec<u8>, offset: usize, source: &[u8])
    requires
        offset + source@.len() <= old(destination)@.len(),
    ensures
        final(destination)@ == splice(old(destination)@, offset as int, source@),
{
    let n = source.len();
    let length = destination.len();
    let mut i: usize = 0;
    while i < n
        invariant
            i <= n,
            n == source@.len(),
            length == destination@.len(),
            length == old(destination)@.len(),
            offset + n <= destination@.len(),
            destination@ == splice(old(destination)@, offset as int, source@.subrange(0, i as int)),
        decreases n - i,
    {
        destination.set(offset + i, source[i]);
        i += 1;
        assert(destination@ =~= splice(old(destination)@, offset as int, source@.subrange(0, i as int)));
    }
    assert(source@.subrange(0, n as int) =~= source@);
}

/// Copies nonempty `data` into the image at `offset`.
fn copy_data(destination: &mut Vec<u8>, offset: u32, data: &[u8]) -> (r: Result<()>)
    ensures
        data@.len() == 0 ==> r is Ok && final(destination)@ == old(destination)@,
        data@.len() != 0 && offset + data@.len() <= old(destination)@.len() ==> r is Ok
            && final(destination)@ == splice(old(destination)@, offset as int, data@),
        data@.len() != 0 && offset + data@.len() > old(destination)@.len() ==> r is Err
            && final(destination)@ == old(destination)@,
        final(destination)@.len() == old(destination)@.len(),
        forall|k: int|
            0 <= k < offset && k < old(destination)@.len() ==> final(destination)@[k] == old(
                destination,
            )@[k],
{
    if data.len() == 0 {
        return Ok(());
    }
    let start = offset as usize;
    let available = destination.len();
    let end = checked_add(start, data.len())?;
    if end > destination.len() {
        return Err(ImageError::InvalidImage("data outside image"));
    }
    copy_into(destination, start, data);
    Ok(())
}

fn checked_mul(left: usize, right: usize) -> (r: Result<usize>)
    ensures
        left * right <= usize::MAX ==> r == Ok::<usize, ImageError>((left * right) as usize),
        left * right > usize::MAX ==> r is Err,
{
    match left.checked_mul(right) {
        Some(product) => Ok(product),
        None => Err(ImageError::InvalidImage("image size overflow")),
    }
}

/// Bytes placed at an offset; an empty write changes nothing.
pub open spec fn apply_write(image: Seq<u8>, write: (int, Seq<u8>)) -> Seq<u8> {
    if write.1.len() == 0 {
        image
    } else {
        splice(image, write.0, write.1)
    }
}

/// `image` after `writes`, in order.
pub open spec fn apply_writes(image: Seq<u8>, writes: Seq<(int, Seq<u8>)>) -> Seq<u8>
    decreases writes.len(),
{
    if writes.len() == 0 {
        image
    } else {
        apply_write(apply_writes(image, writes.drop_last()), writes.last())
    }
}

/// The writes of a kernel segment table at offset 64: each record, then
/// its initialized data at its data offset.
pub open spec fn kernel_writes(segments: Seq<(KernelSegment, Vec<u8>)>) -> Seq<(int, Seq<u8>)>
    decreases segments.len(),
{
    if segments.len() == 0 {
        Seq::empty()
    } else {
        let k = segments.len() - 1;
        kernel_writes(segments.drop_last()) + seq![
            (64 + 32 * k, kernel_segment_bytes(segments[k].0)),
            (segments[k].0.data_offset as int, segments[k].1@),
        ]
    }
}

/// The writes of a module segment table at `table`: each record, then its
/// initialized data at its data offset.
pub open spec fn module_segment_writes(table: int, segments: Seq<(ModuleSegment, Vec<u8>)>) -> Seq<
    (int, Seq<u8>),
>
    decreases segments.len(),
{
    if segments.len() == 0 {
        Seq::empty()
    } else {
        let k = segments.len() - 1;
        module_segment_writes(table, segments.drop_last()) + seq![
            (table + 32 * k, module_segment_bytes(segments[k].0)),
            (segments[k].0.data_offset as int, segments[k].1@),
        ]
    }
}

/// The module record of a packed module with its name and segment table
/// at the given offsets.
pub open spec fn module_record_of(m: PackedModule, name_offset: u32, table: u32) -> ModuleRecord {
    ModuleRecord {
        name_offset,
        name_length: m.name@.len() as u32,
        segment_table_offset: table,
        segment_count: m.segments@.len() as u32,
        entry_virtual_address: m.entry,
    }
}

/// Module segments with the data of each nonempty one assigned
/// consecutively from `floor`.
pub open spec fn assigned_module_segments(segments: Seq<(ModuleSegment, Vec<u8>)>, floor: int) -> Seq<
    (ModuleSegment, Vec<u8>),
> {
    Seq::new(
        segments.len(),
        |i: int|
            if segments[i].1@.len() != 0 {
                (
                    ModuleSegment {
                        data_offset: (floor + total(data_lengths(segments).take(i))) as u32,
                        ..segments[i].0
                    },
                    segments[i].1,
                )
            } else {
                segments[i]
            },
    )
}

/// Kernel segments with the data of each nonempty one assigned
/// consecutively from `floor`.
pub open spec fn assigned_kernel(segments: Seq<(KernelSegment, Vec<u8>)>, floor: int) -> Seq<
    (KernelSegment, Vec<u8>),
> {
    Seq::new(
        segments.len(),
        |i: int|
            if segments[i].1@.len() != 0 {
                (
                    KernelSegment {
                        data_offset: (floor + total(data_lengths(segments).take(i))) as u32,
                        ..segments[i].0
                    },
                    segments[i].1,
                )
            } else {
                segments[i]
            },
    )
}

/// The writes of a module table at `table`, for modules whose names and
/// segment tables lie at the given offsets and whose segments, with their
/// data offsets, are given: each module record, its name, then its
/// segment table and data.
pub open spec fn module_writes(
    table: int,
    modules: Seq<PackedModule>,
    names: Seq<u32>,
    tables: Seq<u32>,
    segments: Seq<Seq<(ModuleSegment, Vec<u8>)>>,
) -> Seq<(int, Seq<u8>)>
    decreases modules.len(),
{
    if modules.len() == 0 {
        Seq::empty()
    } else {
        let m = modules.len() - 1;
        module_writes(table, modules.drop_last(), names, tables, segments) + seq![
            (table + 32 * m, module_record_bytes(module_record_of(modules[m], names[m], tables[m]))),
            (names[m] as int, modules[m].name@),
        ] + module_segment_writes(tables[m] as int, segments[m])
    }
}

/// Where the module tables of the canonical layout begin.
pub open spec fn tables_start(kernel: Seq<(KernelSegment, Vec<u8>)>, modules: Seq<PackedModule>) -> int {
    (64 + kernel.len() * 32 + modules.len() * 32) as int
}

/// Offset of module `m`'s segment table.
pub open spec fn segment_table_at(kernel: Seq<(KernelSegment, Vec<u8>)>, modules: Seq<PackedModule>, m: int) -> int {
    align4_spec(segment_tables_end(tables_start(kernel, modules), segment_counts(modules).take(m)))
}

/// Where the module names begin.
pub open spec fn names_start(kernel: Seq<(KernelSegment, Vec<u8>)>, modules: Seq<PackedModule>) -> int {
    align4_spec(segment_tables_end(tables_start(kernel, modules), segment_counts(modules)))
}

/// Offset of module `m`'s name.
pub open spec fn name_at(kernel: Seq<(KernelSegment, Vec<u8>)>, modules: Seq<PackedModule>, m: int) -> int {
    names_start(kernel, modules) + total(name_lengths(modules).take(m))
}

/// Where the kernel's initialized data begins.
pub open spec fn kernel_data_start(kernel: Seq<(KernelSegment, Vec<u8>)>, modules: Seq<PackedModule>) -> int {
    align4_spec(names_start(kernel, modules) + total(name_lengths(modules)))
}

/// Where module `m`'s initialized data begins.
pub open spec fn module_data_at(kernel: Seq<(KernelSegment, Vec<u8>)>, modules: Seq<PackedModule>, m: int) -> int {
    kernel_data_start(kernel, modules) + total(data_lengths(kernel)) + total(
        modules.map_values(|p: PackedModule| total(data_lengths(p.segments@))).take(m),
    )
}

/// The header of the canonical image.
pub open spec fn canonical_header(
    kernel_entry: VirtualAddress,
    kernel: Seq<(KernelSegment, Vec<u8>)>,
    modules: Seq<PackedModule>,
) -> ImageHeader {
    ImageHeader {
        image_size: layout_size(kernel, modules) as u32,
        kernel_segment_table_offset: 64,
        kernel_segment_count: kernel.len() as u32,
        module_table_offset: (64 + kernel.len() * 32) as u32,
        module_count: modules.len() as u32,
        bootstrap_entry_paddr: PhysicalAddress(BOOTSTRAP_ENTRY_PADDR),
        kernel_entry_vaddr: kernel_entry,
        boot_info_paddr: PhysicalAddress(BOOT_INFO_PADDR),
    }
}

/// Every write of the canonical image, in order: the header, the kernel
/// segment table with its data, then each module.
pub open spec fn canonical_writes(
    kernel_entry: VirtualAddress,
    kernel: Seq<(KernelSegment, Vec<u8>)>,
    modules: Seq<PackedModule>,
) -> Seq<(int, Seq<u8>)> {
    seq![(0int, header_bytes(canonical_header(kernel_entry, kernel, modules)))] + kernel_writes(
        assigned_kernel(kernel, kernel_data_start(kernel, modules)),
    ) + module_writes(
        (64 + kernel.len() * 32) as int,
        modules,
        Seq::new(modules.len(), |m: int| name_at(kernel, modules, m) as u32),
        Seq::new(modules.len(), |m: int| segment_table_at(kernel, modules, m) as u32),
        Seq::new(
            modules.len(),
            |m: int| assigned_module_segments(modules[m].segments@, module_data_at(kernel, modules, m)),
        ),
    )
}

/// The bytes of the canonical image: zeros of the layout size with every
/// canonical write applied.
pub open spec fn canonical_bytes(
    kernel_entry: VirtualAddress,
    kernel: Seq<(KernelSegment, Vec<u8>)>,
    modules: Seq<PackedModule>,
) -> Seq<u8> {
    apply_writes(
        Seq::new(layout_size(kernel, modules) as nat, |i: int| 0u8),
        canonical_writes(kernel_entry, kernel, modules),
    )
}

proof fn lemma_total_take<S>(segments: Seq<(S, Vec<u8>)>, k: int)
    requires
        0 <= k < segments.len(),
    ensures
        total(data_lengths(segments).take(k + 1)) == total(data_lengths(segments).take(k)) + segments[k].1@.len(),
{
    assert(data_lengths(segments).take(k + 1).drop_last() =~= data_lengths(segments).take(k));
}

/// Assigns data offsets to every segment with initialized bytes, from
/// `cursor` on, in order; returns the cursor after the last one.
#[verifier::rlimit(50)]
#[verifier::spinoff_prover]
fn assign_kernel_offsets(segments: &mut Vec<(KernelSegment, Vec<u8>)>, from: usize) -> (r: Result<usize>)
    ensures
        data_lengths(final(segments)@) == data_lengths(old(segments)@),
        final(segments)@.len() == old(segments)@.len(),
        r matches Ok(end) ==> end == from + total(data_lengths(old(segments)@)),
        r is Ok ==> kernel_data_from(final(segments)@, from as int),
        r is Ok ==> final(segments)@ == assigned_kernel(old(segments)@, from as int),
        (forall|i: int|
            0 <= i < old(segments)@.len() && (#[trigger] old(segments)@[i]).1@.len() != 0 ==> from + total(
                data_lengths(old(segments)@).take(i),
            ) <= u32::MAX) && from + total(data_lengths(old(segments)@)) <= usize::MAX ==> r is Ok,
{
    let ghost initial = segments@;
    let n = segments.len();
    let mut cursor = from;
    let ghost start = cursor;
    let mut k: usize = 0;
    while k < n
        invariant
            k <= n,
            n == segments@.len(),
            n == initial.len(),
            initial == old(segments)@,
            segments@.len() == n,
            data_lengths(segments@) == data_lengths(initial),
            cursor == start + total(data_lengths(initial).take(k as int)),
            cursor >= start,
            start == from,
            forall|i: int|
                0 <= i < k && (#[trigger] segments@[i]).1@.len() != 0 ==> segments@[i].0.data_offset
                    >= start,
            forall|i: int| k <= i < n ==> #[trigger] segments@[i] == initial[i],
            forall|i: int| 0 <= i < k ==> #[trigger] segments@[i] == assigned_kernel(initial, start as int)[i],
        decreases n - k,
    {
        proof {
            lemma_total_take(initial, k as int);
            assert(data_lengths(segments@)[k as int] == data_lengths(initial)[k as int]);
            lemma_total_takes(data_lengths(initial), k as int, n as int);
            lemma_total_takes(data_lengths(initial), k + 1, n as int);
            assert(data_lengths(initial).take(n as int) =~= data_lengths(initial));
            assert(initial[k as int].1@.len() == data_lengths(initial)[k as int]);
        }
        let length = segments[k].1.len();
        if length != 0 {
            let offset = size32(cursor, "kernel data offset")?;
            let ghost before = segments@;
            let (mut record, data) = segments.remove(k);
            record.data_offset = offset;
            segments.insert(k, (record, data));
            assert(segments@ =~= before.update(k as int, segments@[k as int]));
            assert(data_lengths(segments@) =~= data_lengths(initial));
        }
        cursor = checked_add(cursor, length)?;
        k += 1;
    }
    assert(data_lengths(initial).take(n as int) =~= data_lengths(initial));
    assert(segments@ =~= assigned_kernel(initial, start as int));
    Ok(cursor)
}

/// Assigns data offsets to every module segment with initialized bytes,
/// from `cursor` on, in order; returns the cursor after the last one.
#[verifier::rlimit(50)]
#[verifier::spinoff_prover]
fn assign_module_offsets(segments: &mut Vec<(ModuleSegment, Vec<u8>)>, from: usize) -> (r: Result<usize>)
    ensures
        data_lengths(final(segments)@) == data_lengths(old(segments)@),
        final(segments)@.len() == old(segments)@.len(),
        r matches Ok(end) ==> end == from + total(data_lengths(old(segments)@)),
        r is Ok ==> module_data_from(final(segments)@, from as int),
        r is Ok ==> final(segments)@ == assigned_module_segments(old(segments)@, from as int),
        (forall|i: int|
            0 <= i < old(segments)@.len() && (#[trigger] old(segments)@[i]).1@.len() != 0 ==> from + total(
                data_lengths(old(segments)@).take(i),
            ) <= u32::MAX) && from + total(data_lengths(old(segments)@)) <= usize::MAX ==> r is Ok,
{
    let ghost initial = segments@;
    let n = segments.len();
    let mut cursor = from;
    let ghost start = cursor;
    let mut k: usize = 0;
    while k < n
        invariant
            k <= n,
            n == segments@.len(),
            n == initial.len(),
            initial == old(segments)@,
            segments@.len() == n,
            data_lengths(segments@) == data_lengths(initial),
            cursor == start + total(data_lengths(initial).take(k as int)),
            cursor >= start,
            start == from,
            forall|i: int|
                0 <= i < k && (#[trigger] segments@[i]).1@.len() != 0 ==> segments@[i].0.data_offset
                    >= start,
            forall|i: int| k <= i < n ==> #[trigger] segments@[i] == initial[i],
            forall|i: int| 0 <= i < k ==> #[trigger] segments@[i] == assigned_module_segments(initial, start as int)[i],
        decreases n - k,
    {
        proof {
            lemma_total_take(initial, k as int);
            assert(data_lengths(segments@)[k as int] == data_lengths(initial)[k as int]);
            lemma_total_takes(data_lengths(initial), k as int, n as int);
            lemma_total_takes(data_lengths(initial), k + 1, n as int);
            assert(data_lengths(initial).take(n as int) =~= data_lengths(initial));
            assert(initial[k as int].1@.len() == data_lengths(initial)[k as int]);
        }
        let length = segments[k].1.len();
        if length != 0 {
            let offset = size32(cursor, "module data offset")?;
            let ghost before = segments@;
            let (mut record, data) = segments.remove(k);
            record.data_offset = offset;
            segments.insert(k, (record, data));
            assert(segments@ =~= before.update(k as int, segments@[k as int]));
            assert(data_lengths(segments@) =~= data_lengths(initial));
        }
        cursor = checked_add(cursor, length)?;
        k += 1;
    }
    assert(data_lengths(initial).take(n as int) =~= data_lengths(initial));
    assert(segments@ =~= assigned_module_segments(initial, start as int));
    Ok(cursor)
}

/// Whether two module lists agree in everything but data offsets.
pub open spec fn same_shape(a: Seq<PackedModule>, b: Seq<PackedModule>) -> bool {
    &&& a.len() == b.len()
    &&& forall|i: int|
        0 <= i < a.len() ==> {
            &&& (#[trigger] a[i]).name@ == b[i].name@
            &&& a[i].segments@.len() == b[i].segments@.len()
            &&& data_lengths(a[i].segments@) == data_lengths(b[i].segments@)
        }
}

/// Whether two kernel segment lists hold the same records and bytes.
pub open spec fn same_kernel_views(a: Seq<(KernelSegment, Vec<u8>)>, b: Seq<(KernelSegment, Vec<u8>)>) -> bool {
    &&& a.len() == b.len()
    &&& forall|i: int| 0 <= i < a.len() ==> (#[trigger] a[i]).0 == b[i].0 && a[i].1@ == b[i].1@
}

/// Whether two module segment lists hold the same records and bytes.
pub open spec fn same_segment_views(a: Seq<(ModuleSegment, Vec<u8>)>, b: Seq<(ModuleSegment, Vec<u8>)>) -> bool {
    &&& a.len() == b.len()
    &&& forall|i: int| 0 <= i < a.len() ==> (#[trigger] a[i]).0 == b[i].0 && a[i].1@ == b[i].1@
}

/// Whether two module lists hold the same names, entries and segments.
pub open spec fn same_module_views(a: Seq<PackedModule>, b: Seq<PackedModule>) -> bool {
    &&& a.len() == b.len()
    &&& forall|i: int|
        0 <= i < a.len() ==> (#[trigger] a[i]).name@ == b[i].name@ && a[i].entry == b[i].entry
            && same_segment_views(a[i].segments@, b[i].segments@)
}

proof fn lemma_kernel_writes_congruent(a: Seq<(KernelSegment, Vec<u8>)>, b: Seq<(KernelSegment, Vec<u8>)>)
    requires
        same_kernel_views(a, b),
    ensures
        kernel_writes(a) == kernel_writes(b),
    decreases a.len(),
{
    if a.len() > 0 {
        lemma_kernel_writes_congruent(a.drop_last(), b.drop_last());
        let k = a.len() - 1;
        assert(a[k].0 == b[k].0 && a[k].1@ == b[k].1@);
    }
}

proof fn lemma_segment_writes_congruent(
    table: int,
    a: Seq<(ModuleSegment, Vec<u8>)>,
    b: Seq<(ModuleSegment, Vec<u8>)>,
)
    requires
        same_segment_views(a, b),
    ensures
        module_segment_writes(table, a) == module_segment_writes(table, b),
    decreases a.len(),
{
    if a.len() > 0 {
        lemma_segment_writes_congruent(table, a.drop_last(), b.drop_last());
        let k = a.len() - 1;
        assert(a[k].0 == b[k].0 && a[k].1@ == b[k].1@);
    }
}

proof fn lemma_module_writes_congruent(
    table: int,
    a: Seq<PackedModule>,
    b: Seq<PackedModule>,
    names: Seq<u32>,
    tables: Seq<u32>,
    sa: Seq<Seq<(ModuleSegment, Vec<u8>)>>,
    sb: Seq<Seq<(ModuleSegment, Vec<u8>)>>,
)
    requires
        a.len() == b.len(),
        forall|i: int|
            0 <= i < a.len() ==> (#[trigger] a[i]).name@ == b[i].name@ && a[i].entry == b[i].entry
                && a[i].segments@.len() == b[i].segments@.len(),
        forall|i: int| 0 <= i < a.len() ==> same_segment_views(#[trigger] sa[i], sb[i]),
    ensures
        module_writes(table, a, names, tables, sa) == module_writes(table, b, names, tables, sb),
    decreases a.len(),
{
    if a.len() > 0 {
        lemma_module_writes_congruent(table, a.drop_last(), b.drop_last(), names, tables, sa, sb);
        let m = a.len() - 1;
        assert(same_segment_views(sa[m], sb[m]));
        lemma_segment_writes_congruent(tables[m] as int, sa[m], sb[m]);
        assert(module_record_of(a[m], names[m], tables[m]) == module_record_of(b[m], names[m], tables[m]));
    }
}

/// The canonical bytes depend on the segments and modules only through
/// their records, bytes, names and entries.
pub proof fn lemma_canonical_bytes_congruent(
    kernel_entry: VirtualAddress,
    ka: Seq<(KernelSegment, Vec<u8>)>,
    kb: Seq<(KernelSegment, Vec<u8>)>,
    ma: Seq<PackedModule>,
    mb: Seq<PackedModule>,
)
    requires
        same_kernel_views(ka, kb),
        same_module_views(ma, mb),
    ensures
        canonical_bytes(kernel_entry, ka, ma) == canonical_bytes(kernel_entry, kb, mb),
        layout_size(ka, ma) == layout_size(kb, mb),
{
    assert(data_lengths(ka) =~= data_lengths(kb));
    assert(segment_counts(ma) =~= segment_counts(mb));
    assert(name_lengths(ma) =~= name_lengths(mb));
    assert forall|i: int| 0 <= i < ma.len() implies data_lengths((#[trigger] ma[i]).segments@) == data_lengths(
        mb[i].segments@,
    ) by {
        assert(same_segment_views(ma[i].segments@, mb[i].segments@));
        assert(data_lengths(ma[i].segments@) =~= data_lengths(mb[i].segments@));
    }
    let ta = ma.map_values(|p: PackedModule| total(data_lengths(p.segments@)));
    let tb = mb.map_values(|p: PackedModule| total(data_lengths(p.segments@)));
    assert(ta =~= tb);
    assert(layout_size(ka, ma) == layout_size(kb, mb));
    let floor = kernel_data_start(ka, ma);
    assert(floor == kernel_data_start(kb, mb));
    let aa = assigned_kernel(ka, floor);
    let ab = assigned_kernel(kb, floor);
    assert(same_kernel_views(aa, ab));
    lemma_kernel_writes_congruent(aa, ab);
    let nm = ma.len();
    assert forall|m: int| 0 <= m < nm implies module_data_at(ka, ma, m) == module_data_at(kb, mb, m) by {}
    let sa = Seq::new(nm, |m: int| assigned_module_segments(ma[m].segments@, module_data_at(ka, ma, m)));
    let sb = Seq::new(nm, |m: int| assigned_module_segments(mb[m].segments@, module_data_at(kb, mb, m)));
    assert forall|m: int| 0 <= m < nm implies same_segment_views(#[trigger] sa[m], sb[m]) by {
        assert(same_segment_views(ma[m].segments@, mb[m].segments@));
        assert(data_lengths(ma[m].segments@) =~= data_lengths(mb[m].segments@));
    }
    let na = Seq::new(nm, |m: int| name_at(ka, ma, m) as u32);
    let nb = Seq::new(nm, |m: int| name_at(kb, mb, m) as u32);
    let tba = Seq::new(nm, |m: int| segment_table_at(ka, ma, m) as u32);
    let tbb = Seq::new(nm, |m: int| segment_table_at(kb, mb, m) as u32);
    assert(na =~= nb);
    assert(tba =~= tbb);
    assert forall|i: int| 0 <= i < nm implies (#[trigger] ma[i]).name@ == mb[i].name@ && ma[i].entry == mb[i].entry
        && ma[i].segments@.len() == mb[i].segments@.len() by {
        assert(same_segment_views(ma[i].segments@, mb[i].segments@));
    }
    lemma_module_writes_congruent((64 + ka.len() * 32) as int, ma, mb, na, tba, sa, sb);
    assert(canonical_header(kernel_entry, ka, ma) == canonical_header(kernel_entry, kb, mb));
    assert(canonical_writes(kernel_entry, ka, ma) == canonical_writes(kernel_entry, kb, mb));
}

/// Offsets that fit in 32 bits for one list of segments and modules fit
/// for any other with the same records, bytes, names and entries.
#[verifier::spinoff_prover]
proof fn lemma_offsets_fit_transfer(
    ka: Seq<(KernelSegment, Vec<u8>)>,
    kb: Seq<(KernelSegment, Vec<u8>)>,
    ma: Seq<PackedModule>,
    mb: Seq<PackedModule>,
)
    requires
        same_kernel_views(ka, kb),
        same_module_views(ma, mb),
        offsets_fit(ka, ma),
    ensures
        offsets_fit(kb, mb),
{
    assert(data_lengths(ka) =~= data_lengths(kb));
    assert(segment_counts(ma) =~= segment_counts(mb));
    assert(name_lengths(ma) =~= name_lengths(mb));
    let ta = ma.map_values(|p: PackedModule| total(data_lengths(p.segments@)));
    let tb = mb.map_values(|p: PackedModule| total(data_lengths(p.segments@)));
    assert forall|m: int| 0 <= m < ma.len() implies data_lengths((#[trigger] ma[m]).segments@) == data_lengths(
        mb[m].segments@,
    ) by {
        assert(same_segment_views(ma[m].segments@, mb[m].segments@));
        assert(data_lengths(ma[m].segments@) =~= data_lengths(mb[m].segments@));
    }
    assert(ta =~= tb);
    assert(layout_size(ka, ma) == layout_size(kb, mb));
    assert(kernel_data_start(ka, ma) == kernel_data_start(kb, mb));
    assert forall|m: int| 0 <= m < mb.len() implies #[trigger] segment_table_at(kb, mb, m) <= u32::MAX by {
        assert(segment_table_at(ka, ma, m) == segment_table_at(kb, mb, m));
    }
    assert forall|m: int| 0 <= m < mb.len() implies #[trigger] name_at(kb, mb, m) <= u32::MAX by {
        assert(name_at(ka, ma, m) == name_at(kb, mb, m));
    }
    assert forall|i: int| 0 <= i < kb.len() && (#[trigger] kb[i]).1@.len() != 0 implies kernel_data_start(kb, mb)
        + total(data_lengths(kb).take(i)) <= u32::MAX by {
        assert(ka[i].1@.len() != 0);
    }
    assert forall|m: int, j: int|
        0 <= m < mb.len() && 0 <= j < mb[m].segments@.len() && (#[trigger] mb[m].segments@[j]).1@.len() != 0
            implies module_data_at(kb, mb, m) + total(data_lengths(mb[m].segments@).take(j)) <= u32::MAX by {
        assert(same_segment_views(ma[m].segments@, mb[m].segments@));
        assert(ma[m].segments@[j].1@.len() != 0);
        assert(module_data_at(ka, ma, m) == module_data_at(kb, mb, m));
    }
}

/// A packed module as plain values: its name bytes, entry, and segment
/// records with their initialized bytes.
pub struct ModuleParts {
    pub name: Seq<u8>,
    pub entry: VirtualAddress,
    pub segments: Seq<(ModuleSegment, Seq<u8>)>,
}

/// Kernel segment records with their initialized bytes.
pub open spec fn kernel_parts(s: Seq<(KernelSegment, Vec<u8>)>) -> Seq<(KernelSegment, Seq<u8>)> {
    s.map_values(|p: (KernelSegment, Vec<u8>)| (p.0, p.1@))
}

/// Module segment records with their initialized bytes.
pub open spec fn segment_parts(s: Seq<(ModuleSegment, Vec<u8>)>) -> Seq<(ModuleSegment, Seq<u8>)> {
    s.map_values(|p: (ModuleSegment, Vec<u8>)| (p.0, p.1@))
}

/// The plain values of a packed module.
pub open spec fn module_parts(m: PackedModule) -> ModuleParts {
    ModuleParts { name: m.name@, entry: m.entry, segments: segment_parts(m.segments@) }
}

/// The plain values of packed modules.
pub open spec fn modules_parts(s: Seq<PackedModule>) -> Seq<ModuleParts> {
    s.map_values(|m: PackedModule| module_parts(m))
}

/// The canonical bytes of an image of these kernel segments and modules.
pub open spec fn packed_bytes(
    kernel_entry: VirtualAddress,
    kernel: Seq<(KernelSegment, Seq<u8>)>,
    modules: Seq<ModuleParts>,
) -> Seq<u8> {
    canonical_bytes(
        kernel_entry,
        choose|k: Seq<(KernelSegment, Vec<u8>)>| kernel_parts(k) == kernel,
        choose|m: Seq<PackedModule>| modules_parts(m) == modules,
    )
}

/// The layout size of an image of these kernel segments and modules.
pub open spec fn packed_layout_size(kernel: Seq<(KernelSegment, Seq<u8>)>, modules: Seq<ModuleParts>) -> int {
    layout_size(
        choose|k: Seq<(KernelSegment, Vec<u8>)>| kernel_parts(k) == kernel,
        choose|m: Seq<PackedModule>| modules_parts(m) == modules,
    )
}

/// Whether every offset of the layout of these kernel segments and
/// modules fits in 32 bits.
pub open spec fn packed_offsets_fit(kernel: Seq<(KernelSegment, Seq<u8>)>, modules: Seq<ModuleParts>) -> bool {
    offsets_fit(
        choose|k: Seq<(KernelSegment, Vec<u8>)>| kernel_parts(k) == kernel,
        choose|m: Seq<PackedModule>| modules_parts(m) == modules,
    )
}

/// What packing these kernel segments and modules gives once their layout
/// fits in system ROM.
pub open spec fn packed_result(
    kernel_entry: VirtualAddress,
    kernel: Seq<(KernelSegment, Seq<u8>)>,
    modules: Seq<ModuleParts>,
    r: Result<SystemImage>,
) -> bool {
    packed_outcome(
        kernel_entry,
        choose|k: Seq<(KernelSegment, Vec<u8>)>| kernel_parts(k) == kernel,
        choose|m: Seq<PackedModule>| modules_parts(m) == modules,
        r,
    )
}

/// The values chosen for the plain values of packed values hold the same
/// records and bytes.
#[verifier::spinoff_prover]
proof fn lemma_chosen_views(k: Seq<(KernelSegment, Vec<u8>)>, m: Seq<PackedModule>)
    ensures
        same_kernel_views(choose|kc: Seq<(KernelSegment, Vec<u8>)>| kernel_parts(kc) == kernel_parts(k), k),
        same_module_views(choose|mc: Seq<PackedModule>| modules_parts(mc) == modules_parts(m), m),
{
    let kc = choose|kc: Seq<(KernelSegment, Vec<u8>)>| kernel_parts(kc) == kernel_parts(k);
    let mc = choose|mc: Seq<PackedModule>| modules_parts(mc) == modules_parts(m);
    assert(kernel_parts(kc) == kernel_parts(k));
    assert(modules_parts(mc) == modules_parts(m));
    assert(kc.len() == kernel_parts(kc).len() && k.len() == kernel_parts(k).len());
    assert(mc.len() == modules_parts(mc).len() && m.len() == modules_parts(m).len());
    assert(same_kernel_views(kc, k)) by {
        assert forall|i: int| 0 <= i < kc.len() implies (#[trigger] kc[i]).0 == k[i].0 && kc[i].1@ == k[i].1@ by {
            assert(kernel_parts(kc)[i] == kernel_parts(k)[i]);
        }
    }
    assert(same_module_views(mc, m)) by {
        assert forall|i: int| 0 <= i < mc.len() implies (#[trigger] mc[i]).name@ == m[i].name@ && mc[i].entry
            == m[i].entry && same_segment_views(mc[i].segments@, m[i].segments@) by {
            assert(modules_parts(mc)[i] == modules_parts(m)[i]);
            let a = mc[i].segments@;
            let b = m[i].segments@;
            assert(segment_parts(a) == segment_parts(b));
            assert(a.len() == segment_parts(a).len() && b.len() == segment_parts(b).len());
            assert forall|j: int| 0 <= j < a.len() implies (#[trigger] a[j]).0 == b[j].0 && a[j].1@ == b[j].1@ by {
                assert(segment_parts(a)[j] == segment_parts(b)[j]);
            }
        }
    }
}

/// The canonical bytes, layout size and packing outcome of packed values
/// are those of their plain values.
pub proof fn lemma_packed_bytes(kernel_entry: VirtualAddress, k: Seq<(KernelSegment, Vec<u8>)>, m: Seq<PackedModule>)
    ensures
        canonical_bytes(kernel_entry, k, m) == packed_bytes(kernel_entry, kernel_parts(k), modules_parts(m)),
        layout_size(k, m) == packed_layout_size(kernel_parts(k), modules_parts(m)),
        offsets_fit(k, m) == packed_offsets_fit(kernel_parts(k), modules_parts(m)),
        forall|r: Result<SystemImage>|
            packed_outcome(kernel_entry, k, m, r) == #[trigger] packed_result(
                kernel_entry,
                kernel_parts(k),
                modules_parts(m),
                r,
            ),
{
    let kc = choose|kc: Seq<(KernelSegment, Vec<u8>)>| kernel_parts(kc) == kernel_parts(k);
    let mc = choose|mc: Seq<PackedModule>| modules_parts(mc) == modules_parts(m);
    lemma_chosen_views(k, m);
    lemma_canonical_bytes_congruent(kernel_entry, kc, k, mc, m);
    if offsets_fit(kc, mc) {
        lemma_offsets_fit_transfer(kc, k, mc, m);
    }
    if offsets_fit(k, m) {
        assert(same_kernel_views(k, kc));
        assert(same_module_views(m, mc)) by {
            assert forall|i: int| 0 <= i < m.len() implies same_segment_views(
                (#[trigger] m[i]).segments@,
                mc[i].segments@,
            ) by {
                assert(same_segment_views(mc[i].segments@, m[i].segments@));
            }
        }
        lemma_offsets_fit_transfer(k, kc, m, mc);
    }
    assert(canonical_header(kernel_entry, kc, mc) == canonical_header(kernel_entry, k, m));
    assert forall|r: Result<SystemImage>|
        packed_outcome(kernel_entry, k, m, r) == #[trigger] packed_result(kernel_entry, kernel_parts(k), modules_parts(m), r) by {
        reveal(packed_outcome);
    }
}

/// Whether a write lies inside an image of `size` bytes; an empty write
/// always does.
pub open spec fn write_fits(write: (int, Seq<u8>), size: int) -> bool {
    write.1.len() == 0 || (0 <= write.0 && write.0 + write.1.len() <= size)
}

/// Whether every write lies inside an image of `size` bytes.
pub open spec fn writes_fit(writes: Seq<(int, Seq<u8>)>, size: int) -> bool {
    forall|k: int| 0 <= k < writes.len() ==> #[trigger] write_fits(writes[k], size)
}

/// Applying writes in two runs is applying them all.
proof fn lemma_apply_writes_append(image: Seq<u8>, first: Seq<(int, Seq<u8>)>, then: Seq<(int, Seq<u8>)>)
    ensures
        apply_writes(image, first + then) == apply_writes(apply_writes(image, first), then),
    decreases then.len(),
{
    if then.len() > 0 {
        assert((first + then).drop_last() =~= first + then.drop_last());
        lemma_apply_writes_append(image, first, then.drop_last());
    } else {
        assert(first + then =~= first);
    }
}

/// Module writes depend on each module only through its name, entry and
/// segment count.
proof fn lemma_module_writes_shape(
    table: int,
    a: Seq<PackedModule>,
    b: Seq<PackedModule>,
    names: Seq<u32>,
    tables: Seq<u32>,
    segments: Seq<Seq<(ModuleSegment, Vec<u8>)>>,
)
    requires
        a.len() == b.len(),
        forall|i: int|
            0 <= i < a.len() ==> (#[trigger] a[i]).name@ == b[i].name@ && a[i].entry == b[i].entry
                && a[i].segments@.len() == b[i].segments@.len(),
    ensures
        module_writes(table, a, names, tables, segments) == module_writes(table, b, names, tables, segments),
    decreases a.len(),
{
    if a.len() > 0 {
        lemma_module_writes_shape(table, a.drop_last(), b.drop_last(), names, tables, segments);
        let m = a.len() - 1;
        assert(module_record_of(a[m], names[m], tables[m]) == module_record_of(b[m], names[m], tables[m]));
    }
}

/// Writes the kernel segment table at offset 64 and each segment's data.
fn write_kernel_table(bytes: &mut Vec<u8>, segments: &Vec<(KernelSegment, Vec<u8>)>) -> (r: Result<()>)
    requires
        kernel_data_from(segments@, 64),
    ensures
        final(bytes)@.len() == old(bytes)@.len(),
        forall|i: int| 0 <= i < 64 && i < old(bytes)@.len() ==> final(bytes)@[i] == old(bytes)@[i],
        r is Ok ==> final(bytes)@ == apply_writes(old(bytes)@, kernel_writes(segments@)),
        r is Ok ==> writes_fit(kernel_writes(segments@), old(bytes)@.len() as int),
        r is Ok ==> forall|i: int|
            0 <= i < segments@.len() ==> kernel_segment_error(#[trigger] segments@[i].0) is None,
        (forall|i: int| 0 <= i < segments@.len() ==> kernel_segment_error(#[trigger] segments@[i].0) is None)
            && writes_fit(kernel_writes(segments@), old(bytes)@.len() as int) && 64 + 32 * segments@.len()
            <= u32::MAX ==> r is Ok,
{
    let ghost good = (forall|i: int| 0 <= i < segments@.len() ==> kernel_segment_error(#[trigger] segments@[i].0) is None)
        && writes_fit(kernel_writes(segments@), old(bytes)@.len() as int) && 64 + 32 * segments@.len() <= u32::MAX;
    proof {
        lemma_kernel_writes_index(segments@);
    }
    let n = segments.len();
    let mut k: usize = 0;
    assert(segments@.take(0) =~= Seq::<(KernelSegment, Vec<u8>)>::empty());
    while k < n
        invariant
            good == ((forall|i: int| 0 <= i < segments@.len() ==> kernel_segment_error(#[trigger] segments@[i].0) is None)
                && writes_fit(kernel_writes(segments@), old(bytes)@.len() as int) && 64 + 32 * segments@.len()
                <= u32::MAX),
            kernel_writes(segments@).len() == 2 * segments@.len(),
            forall|j: int|
                0 <= j < segments@.len() ==> kernel_writes(segments@)[2 * j] == (
                    64 + 32 * j,
                    kernel_segment_bytes((#[trigger] segments@[j]).0),
                ) && kernel_writes(segments@)[2 * j + 1] == (segments@[j].0.data_offset as int, segments@[j].1@),
            k <= n,
            n == segments@.len(),
            bytes@.len() == old(bytes)@.len(),
            forall|i: int| 0 <= i < 64 && i < old(bytes)@.len() ==> bytes@[i] == old(bytes)@[i],
            bytes@ == apply_writes(old(bytes)@, kernel_writes(segments@.take(k as int))),
            kernel_data_from(segments@, 64),
            writes_fit(kernel_writes(segments@.take(k as int)), old(bytes)@.len() as int),
            forall|i: int| 0 <= i < k ==> kernel_segment_error(#[trigger] segments@[i].0) is None,
        decreases n - k,
    {
        proof {
            if good {
                assert(write_fits(kernel_writes(segments@)[2 * k], old(bytes)@.len() as int));
                assert(write_fits(kernel_writes(segments@)[2 * k + 1], old(bytes)@.len() as int));
                assert(kernel_segment_bytes(segments@[k as int].0).len() == 32);
            }
        }
        let offset = checked_add(IMAGE_HEADER_SIZE, checked_mul(k, KERNEL_SEGMENT_SIZE)?)?;
        let encoded = match segments[k].0.encode() {
            Ok(encoded) => encoded,
            Err(e) => return Err(ImageError::Platform(e)),
        };
        let ghost before = bytes@;
        copy_data(bytes, size32(offset, "kernel table offset")?, encoded.as_slice())?;
        let ghost middle = bytes@;
        assert(segments@[k as int].1@.len() != 0 ==> segments@[k as int].0.data_offset >= 64);
        copy_data(bytes, segments[k].0.data_offset, segments[k].1.as_slice())?;
        proof {
            let done = segments@.take(k as int);
            let next = segments@.take(k + 1);
            assert(next.drop_last() =~= done);
            let first = (64 + 32 * k, kernel_segment_bytes(segments@[k as int].0));
            let second = (segments@[k as int].0.data_offset as int, segments@[k as int].1@);
            assert(kernel_writes(next) == kernel_writes(done) + seq![first, second]);
            assert(write_fits(first, old(bytes)@.len() as int));
            assert(write_fits(second, old(bytes)@.len() as int));
            assert(writes_fit(kernel_writes(next), old(bytes)@.len() as int)) by {
                let w = kernel_writes(next);
                let d = kernel_writes(done);
                assert forall|j: int| 0 <= j < w.len() implies #[trigger] write_fits(w[j], old(bytes)@.len() as int) by {
                    if j < d.len() {
                        assert(w[j] == d[j]);
                    } else if j == d.len() {
                        assert(w[j] == first);
                    } else {
                        assert(w[j] == second);
                    }
                }
            }
            lemma_apply_writes_append(old(bytes)@, kernel_writes(done), seq![first, second]);
            assert(seq![first, second].drop_last() =~= seq![first]);
            assert(seq![first].drop_last() =~= Seq::<(int, Seq<u8>)>::empty());
            assert(middle == apply_write(before, first));
            assert(bytes@ == apply_write(middle, second));
            assert(apply_writes(before, seq![first]) == apply_write(apply_writes(before, Seq::empty()), first));
            assert(apply_writes(before, seq![first, second]) == apply_write(
                apply_writes(before, seq![first]),
                second,
            ));
        }
        k += 1;
    }
    assert(segments@.take(n as int) =~= segments@);
    Ok(())
}

/// Writes a module segment table at `table` and each segment's data.
fn write_module_segments(bytes: &mut Vec<u8>, table: u32, segments: &Vec<(ModuleSegment, Vec<u8>)>) -> (r:
    Result<()>)
    requires
        table >= 64,
        module_data_from(segments@, 64),
    ensures
        final(bytes)@.len() == old(bytes)@.len(),
        forall|i: int| 0 <= i < 64 && i < old(bytes)@.len() ==> final(bytes)@[i] == old(bytes)@[i],
        r is Ok ==> final(bytes)@ == apply_writes(old(bytes)@, module_segment_writes(table as int, segments@)),
        r is Ok ==> writes_fit(module_segment_writes(table as int, segments@), old(bytes)@.len() as int),
        r is Ok ==> forall|i: int| 0 <= i < segments@.len() ==> module_segment_valid(#[trigger] segments@[i].0),
        (forall|i: int| 0 <= i < segments@.len() ==> module_segment_valid(#[trigger] segments@[i].0))
            && writes_fit(module_segment_writes(table as int, segments@), old(bytes)@.len() as int) && table + 32
            * segments@.len() <= u32::MAX ==> r is Ok,
{
    let ghost good = (forall|i: int| 0 <= i < segments@.len() ==> module_segment_valid(#[trigger] segments@[i].0))
        && writes_fit(module_segment_writes(table as int, segments@), old(bytes)@.len() as int) && table + 32
        * segments@.len() <= u32::MAX;
    proof {
        lemma_segment_writes_index(table as int, segments@);
    }
    let n = segments.len();
    let mut k: usize = 0;
    assert(segments@.take(0) =~= Seq::<(ModuleSegment, Vec<u8>)>::empty());
    while k < n
        invariant
            good == ((forall|i: int| 0 <= i < segments@.len() ==> module_segment_valid(#[trigger] segments@[i].0))
                && writes_fit(module_segment_writes(table as int, segments@), old(bytes)@.len() as int) && table
                + 32 * segments@.len() <= u32::MAX),
            module_segment_writes(table as int, segments@).len() == 2 * segments@.len(),
            forall|j: int|
                0 <= j < segments@.len() ==> module_segment_writes(table as int, segments@)[2 * j] == (
                    table + 32 * j,
                    module_segment_bytes((#[trigger] segments@[j]).0),
                ) && module_segment_writes(table as int, segments@)[2 * j + 1] == (
                    segments@[j].0.data_offset as int,
                    segments@[j].1@,
                ),
            k <= n,
            n == segments@.len(),
            table >= 64,
            bytes@.len() == old(bytes)@.len(),
            forall|i: int| 0 <= i < 64 && i < old(bytes)@.len() ==> bytes@[i] == old(bytes)@[i],
            bytes@ == apply_writes(old(bytes)@, module_segment_writes(table as int, segments@.take(k as int))),
            module_data_from(segments@, 64),
            writes_fit(module_segment_writes(table as int, segments@.take(k as int)), old(bytes)@.len() as int),
            forall|i: int| 0 <= i < k ==> module_segment_valid(#[trigger] segments@[i].0),
        decreases n - k,
    {
        proof {
            if good {
                assert(write_fits(module_segment_writes(table as int, segments@)[2 * k], old(bytes)@.len() as int));
                assert(write_fits(module_segment_writes(table as int, segments@)[2 * k + 1], old(bytes)@.len() as int));
                assert(module_segment_bytes(segments@[k as int].0).len() == 32);
            }
        }
        let offset = checked_add(table as usize, checked_mul(k, MODULE_SEGMENT_SIZE)?)?;
        let encoded = match segments[k].0.encode() {
            Ok(encoded) => encoded,
            Err(e) => return Err(ImageError::Platform(e)),
        };
        let ghost before = bytes@;
        copy_data(bytes, size32(offset, "module segment table offset")?, encoded.as_slice())?;
        let ghost middle = bytes@;
        assert(segments@[k as int].1@.len() != 0 ==> segments@[k as int].0.data_offset >= 64);
        copy_data(bytes, segments[k].0.data_offset, segments[k].1.as_slice())?;
        proof {
            let done = segments@.take(k as int);
            let next = segments@.take(k + 1);
            assert(next.drop_last() =~= done);
            let first = (table + 32 * k, module_segment_bytes(segments@[k as int].0));
            let second = (segments@[k as int].0.data_offset as int, segments@[k as int].1@);
            assert(module_segment_writes(table as int, next) == module_segment_writes(table as int, done) + seq![first, second]);
            assert(write_fits(first, old(bytes)@.len() as int));
            assert(write_fits(second, old(bytes)@.len() as int));
            assert(writes_fit(module_segment_writes(table as int, next), old(bytes)@.len() as int)) by {
                let w = module_segment_writes(table as int, next);
                let d = module_segment_writes(table as int, done);
                assert forall|j: int| 0 <= j < w.len() implies #[trigger] write_fits(w[j], old(bytes)@.len() as int) by {
                    if j < d.len() {
                        assert(w[j] == d[j]);
                    } else if j == d.len() {
                        assert(w[j] == first);
                    } else {
                        assert(w[j] == second);
                    }
                }
            }
            lemma_apply_writes_append(old(bytes)@, module_segment_writes(table as int, done), seq![first, second]);
            assert(seq![first, second].drop_last() =~= seq![first]);
            assert(seq![first].drop_last() =~= Seq::<(int, Seq<u8>)>::empty());
            assert(middle == apply_write(before, first));
            assert(bytes@ == apply_write(middle, second));
            assert(apply_writes(before, seq![first]) == apply_write(apply_writes(before, Seq::empty()), first));
            assert(apply_writes(before, seq![first, second]) == apply_write(
                apply_writes(before, seq![first]),
                second,
            ));
        }
        k += 1;
    }
    assert(segments@.take(n as int) =~= segments@);
    Ok(())
}

/// Whether a module table can be written whole into an image of `size`
/// bytes: every segment is valid, every write fits, and every offset,
/// length and count fits in 32 bits.
pub open spec fn module_table_writable(
    table: int,
    modules: Seq<PackedModule>,
    names: Seq<u32>,
    tables: Seq<u32>,
    size: int,
) -> bool {
    &&& forall|i: int, j: int|
        0 <= i < modules.len() && 0 <= j < modules[i].segments@.len() ==> module_segment_valid(
            (#[trigger] modules[i].segments@[j]).0,
        )
    &&& writes_fit(module_writes(table, modules, names, tables, modules.map_values(|p: PackedModule| p.segments@)), size)
    &&& table + 32 * modules.len() <= u32::MAX
    &&& forall|i: int|
        0 <= i < modules.len() ==> (#[trigger] modules[i]).name@.len() <= u32::MAX && modules[i].segments@.len()
            <= u32::MAX && tables[i] + 32 * modules[i].segments@.len() <= u32::MAX
}

/// Writes the module table at `table`: each module's record, with its
/// name and segment table at the given offsets, then its name, then its
/// segment table and data.
fn write_module_table(
    bytes: &mut Vec<u8>,
    table: usize,
    modules: &Vec<PackedModule>,
    names: &Vec<u32>,
    tables: &Vec<u32>,
) -> (r: Result<()>)
    requires
        table >= 64,
        names@.len() == modules@.len(),
        tables@.len() == modules@.len(),
        forall|i: int| 0 <= i < names@.len() ==> #[trigger] names@[i] >= 64,
        forall|i: int| 0 <= i < tables@.len() ==> #[trigger] tables@[i] >= 64,
        forall|i: int| 0 <= i < modules@.len() ==> module_data_from((#[trigger] modules@[i]).segments@, 64),
    ensures
        final(bytes)@.len() == old(bytes)@.len(),
        forall|i: int| 0 <= i < 64 && i < old(bytes)@.len() ==> final(bytes)@[i] == old(bytes)@[i],
        r is Ok ==> final(bytes)@ == apply_writes(
            old(bytes)@,
            module_writes(
                table as int,
                modules@,
                names@,
                tables@,
                modules@.map_values(|p: PackedModule| p.segments@),
            ),
        ),
        r is Ok ==> writes_fit(
            module_writes(
                table as int,
                modules@,
                names@,
                tables@,
                modules@.map_values(|p: PackedModule| p.segments@),
            ),
            old(bytes)@.len() as int,
        ),
        r is Ok ==> forall|i: int, j: int|
            0 <= i < modules@.len() && 0 <= j < modules@[i].segments@.len() ==> module_segment_valid(
                (#[trigger] modules@[i].segments@[j]).0,
            ),
        module_table_writable(table as int, modules@, names@, tables@, old(bytes)@.len() as int) ==> r is Ok,
{
    let ghost segments = modules@.map_values(|p: PackedModule| p.segments@);
    let ghost good = module_table_writable(table as int, modules@, names@, tables@, old(bytes)@.len() as int);
    let n = modules.len();
    let mut m: usize = 0;
    assert(modules@.take(0) =~= Seq::<PackedModule>::empty());
    while m < n
        invariant
            m <= n,
            n == modules@.len(),
            table >= 64,
            names@.len() == n,
            tables@.len() == n,
            forall|i: int| 0 <= i < names@.len() ==> #[trigger] names@[i] >= 64,
            forall|i: int| 0 <= i < tables@.len() ==> #[trigger] tables@[i] >= 64,
            forall|i: int| 0 <= i < modules@.len() ==> module_data_from((#[trigger] modules@[i]).segments@, 64),
            segments == modules@.map_values(|p: PackedModule| p.segments@),
            bytes@.len() == old(bytes)@.len(),
            forall|i: int| 0 <= i < 64 && i < old(bytes)@.len() ==> bytes@[i] == old(bytes)@[i],
            bytes@ == apply_writes(old(bytes)@, module_writes(table as int, modules@.take(m as int), names@, tables@, segments)),
            writes_fit(module_writes(table as int, modules@.take(m as int), names@, tables@, segments), old(bytes)@.len() as int),
            forall|i: int, j: int|
                0 <= i < m && 0 <= j < modules@[i].segments@.len() ==> module_segment_valid(
                    (#[trigger] modules@[i].segments@[j]).0,
                ),
            good == module_table_writable(table as int, modules@, names@, tables@, old(bytes)@.len() as int),
        decreases n - m,
    {
        proof {
            if good {
                let p = |w: (int, Seq<u8>)| true;
                lemma_module_writes_split(table as int, modules@, names@, tables@, segments, m as int, p);
                let own = module_own_writes(table as int, modules@, names@, tables@, segments, m as int);
                let done = module_writes(table as int, modules@.take(m as int), names@, tables@, segments);
                let mw = module_writes(table as int, modules@, names@, tables@, segments);
                assert forall|i: int| 0 <= i < own.len() implies #[trigger] write_fits(own[i], old(bytes)@.len() as int) by {
                    assert(mw[done.len() + i] == own[i]);
                    assert(write_fits(mw[done.len() + i], old(bytes)@.len() as int));
                }
                let sw = module_segment_writes(tables@[m as int] as int, segments[m as int]);
                assert forall|i: int| 0 <= i < sw.len() implies #[trigger] write_fits(sw[i], old(bytes)@.len() as int) by {
                    assert(own[2 + i] == sw[i]);
                }
                assert(segments[m as int] == modules@[m as int].segments@);
                assert(module_record_bytes(module_record_of(modules@[m as int], names@[m as int], tables@[m as int])).len() == 32);
                assert(write_fits(own[0], old(bytes)@.len() as int));
                assert(write_fits(own[1], old(bytes)@.len() as int));
                assert forall|j: int| 0 <= j < modules@[m as int].segments@.len() implies module_segment_valid(
                    #[trigger] modules@[m as int].segments@[j].0,
                ) by {}
            }
        }
        let module = &modules[m];
        let record = ModuleRecord {
            name_offset: names[m],
            name_length: size32(module.name.len(), "module name length")?,
            segment_table_offset: tables[m],
            segment_count: size32(module.segments.len(), "module segment count")?,
            entry_virtual_address: module.entry,
        };
        let offset = checked_add(table, checked_mul(m, MODULE_RECORD_SIZE)?)?;
        let encoded = record.encode();
        let ghost before = bytes@;
        copy_data(bytes, size32(offset, "module table offset")?, encoded.as_slice())?;
        let ghost middle = bytes@;
        assert(names@[m as int] >= 64);
        copy_data(bytes, record.name_offset, module.name.as_slice())?;
        let ghost after_name = bytes@;
        assert(tables@[m as int] >= 64);
        assert(module_data_from(modules@[m as int].segments@, 64));
        write_module_segments(bytes, record.segment_table_offset, &module.segments)?;
        proof {
            let done = modules@.take(m as int);
            let next = modules@.take(m + 1);
            assert(next.drop_last() =~= done);
            let first = (table + 32 * m, module_record_bytes(module_record_of(modules@[m as int], names@[m as int], tables@[m as int])));
            let second = (names@[m as int] as int, modules@[m as int].name@);
            let rest = module_segment_writes(tables@[m as int] as int, segments[m as int]);
            assert(record == module_record_of(modules@[m as int], names@[m as int], tables@[m as int]));
            assert(module_writes(table as int, next, names@, tables@, segments) == module_writes(
                table as int,
                done,
                names@,
                tables@,
                segments,
            ) + seq![first, second] + rest);
            assert(write_fits(first, old(bytes)@.len() as int));
            assert(write_fits(second, old(bytes)@.len() as int));
            assert(writes_fit(module_writes(table as int, next, names@, tables@, segments), old(bytes)@.len() as int)) by {
                let w = module_writes(table as int, next, names@, tables@, segments);
                let d = module_writes(table as int, done, names@, tables@, segments);
                assert forall|j: int| 0 <= j < w.len() implies #[trigger] write_fits(w[j], old(bytes)@.len() as int) by {
                    if j < d.len() {
                        assert(w[j] == d[j]);
                    } else if j == d.len() {
                        assert(w[j] == first);
                    } else if j == d.len() + 1 {
                        assert(w[j] == second);
                    } else {
                        assert(w[j] == rest[j - d.len() - 2]);
                    }
                }
            }
            lemma_apply_writes_append(
                old(bytes)@,
                module_writes(table as int, done, names@, tables@, segments) + seq![first, second],
                rest,
            );
            lemma_apply_writes_append(old(bytes)@, module_writes(table as int, done, names@, tables@, segments), seq![first, second]);
            assert(seq![first, second].drop_last() =~= seq![first]);
            assert(seq![first].drop_last() =~= Seq::<(int, Seq<u8>)>::empty());
            assert(apply_writes(before, seq![first]) == apply_write(apply_writes(before, Seq::empty()), first));
            assert(apply_writes(before, seq![first, second]) == apply_write(
                apply_writes(before, seq![first]),
                second,
            ));
            assert(middle == apply_write(before, first));
            assert(after_name == apply_write(middle, second));
        }
        m += 1;
    }
    assert(modules@.take(n as int) =~= modules@);
    Ok(())
}

/// Whether a write leaves the bytes from `lo` to `hi` alone.
pub open spec fn write_misses(write: (int, Seq<u8>), lo: int, hi: int) -> bool {
    write.1.len() == 0 || write.0 + write.1.len() <= lo || hi <= write.0
}

/// Whether a write lies at or above `lo`.
pub open spec fn write_above(write: (int, Seq<u8>), lo: int) -> bool {
    write.1.len() == 0 || write.0 >= lo
}

/// Writes that fit keep the image's length.
proof fn lemma_apply_writes_len(image: Seq<u8>, writes: Seq<(int, Seq<u8>)>)
    requires
        writes_fit(writes, image.len() as int),
    ensures
        apply_writes(image, writes).len() == image.len(),
    decreases writes.len(),
{
    if writes.len() > 0 {
        let prefix = writes.drop_last();
        assert forall|k: int| 0 <= k < prefix.len() implies #[trigger] write_fits(prefix[k], image.len() as int) by {
            assert(prefix[k] == writes[k]);
        }
        lemma_apply_writes_len(image, prefix);
        assert(write_fits(writes[writes.len() - 1], image.len() as int));
    }
}

/// Writes that fit and miss a span leave it as it was.
proof fn lemma_apply_writes_frame(image: Seq<u8>, writes: Seq<(int, Seq<u8>)>, lo: int, hi: int)
    requires
        writes_fit(writes, image.len() as int),
        0 <= lo <= hi <= image.len(),
        forall|k: int| 0 <= k < writes.len() ==> #[trigger] write_misses(writes[k], lo, hi),
    ensures
        apply_writes(image, writes).subrange(lo, hi) == image.subrange(lo, hi),
    decreases writes.len(),
{
    if writes.len() > 0 {
        let prefix = writes.drop_last();
        assert forall|k: int| 0 <= k < prefix.len() implies #[trigger] write_fits(prefix[k], image.len() as int)
            && write_misses(prefix[k], lo, hi) by {
            assert(prefix[k] == writes[k]);
            assert(write_misses(writes[k], lo, hi));
        }
        lemma_apply_writes_frame(image, prefix, lo, hi);
        lemma_apply_writes_len(image, prefix);
        let before = apply_writes(image, prefix);
        let w = writes[writes.len() - 1];
        assert(write_fits(w, image.len() as int));
        assert(write_misses(w, lo, hi));
        if w.1.len() != 0 {
            let after = splice(before, w.0, w.1);
            assert(after.subrange(lo, hi) =~= before.subrange(lo, hi)) by {
                assert forall|x: int| lo <= x < hi implies after[x] == before[x] by {
                    if x < w.0 {
                        assert(after[x] == before.subrange(0, w.0)[x]);
                    } else {
                        assert(x >= w.0 + w.1.len());
                        assert(after[x] == before.subrange(w.0 + w.1.len(), before.len() as int)[x - w.0
                            - w.1.len()]);
                    }
                }
            }
        }
    }
}

/// A write that fits covers its own span.
proof fn lemma_apply_write_covers(image: Seq<u8>, write: (int, Seq<u8>))
    requires
        0 <= write.0,
        write.0 + write.1.len() <= image.len(),
    ensures
        apply_write(image, write).subrange(write.0, write.0 + write.1.len()) == write.1,
        apply_write(image, write).len() == image.len(),
{
    if write.1.len() != 0 {
        let after = splice(image, write.0, write.1);
        assert(after.subrange(write.0, write.0 + write.1.len()) =~= write.1);
    } else {
        assert(image.subrange(write.0, write.0) =~= write.1);
    }
}

/// Where the writes of a kernel table lie: record `j` at `64 + 32 j`, then
/// its data.
proof fn lemma_kernel_writes_index(segments: Seq<(KernelSegment, Vec<u8>)>)
    ensures
        kernel_writes(segments).len() == 2 * segments.len(),
        forall|j: int|
            0 <= j < segments.len() ==> kernel_writes(segments)[2 * j] == (
                64 + 32 * j,
                kernel_segment_bytes((#[trigger] segments[j]).0),
            ) && kernel_writes(segments)[2 * j + 1] == (segments[j].0.data_offset as int, segments[j].1@),
    decreases segments.len(),
{
    if segments.len() > 0 {
        let prefix = segments.drop_last();
        lemma_kernel_writes_index(prefix);
        assert forall|j: int| 0 <= j < segments.len() implies kernel_writes(segments)[2 * j] == (
            64 + 32 * j,
            kernel_segment_bytes((#[trigger] segments[j]).0),
        ) && kernel_writes(segments)[2 * j + 1] == (segments[j].0.data_offset as int, segments[j].1@) by {
            if j < prefix.len() {
                assert(prefix[j] == segments[j]);
            }
        }
    }
}

/// The writes of a module segment table at or above `lo`, with data at or
/// above `lo`, all lie at or above `lo`.
proof fn lemma_segment_writes_above(table: int, segments: Seq<(ModuleSegment, Vec<u8>)>, lo: int)
    requires
        table >= lo,
        forall|s: int|
            0 <= s < segments.len() ==> (#[trigger] segments[s]).1@.len() == 0 || segments[s].0.data_offset >= lo,
    ensures
        forall|k: int|
            0 <= k < module_segment_writes(table, segments).len() ==> #[trigger] write_above(
                module_segment_writes(table, segments)[k],
                lo,
            ),
    decreases segments.len(),
{
    if segments.len() > 0 {
        let prefix = segments.drop_last();
        assert forall|s: int| 0 <= s < prefix.len() implies (#[trigger] prefix[s]).1@.len() == 0 || prefix[s].0.data_offset
            >= lo by {
            assert(prefix[s] == segments[s]);
        }
        lemma_segment_writes_above(table, prefix, lo);
        let w = module_segment_writes(table, segments);
        let d = module_segment_writes(table, prefix);
        let last = segments[segments.len() - 1];
        assert forall|k: int| 0 <= k < w.len() implies #[trigger] write_above(w[k], lo) by {
            if k < d.len() {
                assert(w[k] == d[k]);
            }
        }
    }
}

/// The writes of a module table whose records, names, segment tables and
/// data lie at or above `lo` all lie at or above `lo`.
proof fn lemma_module_writes_above(
    table: int,
    modules: Seq<PackedModule>,
    names: Seq<u32>,
    tables: Seq<u32>,
    segments: Seq<Seq<(ModuleSegment, Vec<u8>)>>,
    lo: int,
)
    requires
        table >= lo,
        modules.len() <= names.len(),
        modules.len() <= tables.len(),
        modules.len() <= segments.len(),
        forall|m: int| 0 <= m < modules.len() ==> #[trigger] names[m] >= lo && tables[m] >= lo,
        forall|m: int, s: int|
            0 <= m < modules.len() && 0 <= s < segments[m].len() ==> (#[trigger] segments[m][s]).1@.len() == 0
                || segments[m][s].0.data_offset >= lo,
    ensures
        forall|k: int|
            0 <= k < module_writes(table, modules, names, tables, segments).len() ==> #[trigger] write_above(
                module_writes(table, modules, names, tables, segments)[k],
                lo,
            ),
    decreases modules.len(),
{
    if modules.len() > 0 {
        let prefix = modules.drop_last();
        let m = modules.len() - 1;
        lemma_module_writes_above(table, prefix, names, tables, segments, lo);
        assert(names[m] >= lo && tables[m] >= lo);
        assert forall|s: int| 0 <= s < segments[m].len() implies (#[trigger] segments[m][s]).1@.len() == 0
            || segments[m][s].0.data_offset >= lo by {}
        lemma_segment_writes_above(tables[m] as int, segments[m], lo);
        let w = module_writes(table, modules, names, tables, segments);
        let d = module_writes(table, prefix, names, tables, segments);
        let rest = module_segment_writes(tables[m] as int, segments[m]);
        assert(w == d + seq![
            (table + 32 * m, module_record_bytes(module_record_of(modules[m], names[m], tables[m]))),
            (names[m] as int, modules[m].name@),
        ] + rest);
        assert forall|k: int| 0 <= k < w.len() implies #[trigger] write_above(w[k], lo) by {
            if k < d.len() {
                assert(w[k] == d[k]);
            } else if k >= d.len() + 2 {
                assert(w[k] == rest[k - d.len() - 2]);
            }
        }
    }
}

/// `value` rounded up to four lies between it and three more, and rounding
/// keeps order.
proof fn lemma_align4(value: int, other: int)
    requires
        0 <= value <= other,
    ensures
        value <= align4_spec(value) <= value + 3,
        align4_spec(value) <= align4_spec(other),
{
    assert((value + 3) / 4 * 4 <= value + 3 && (value + 3) / 4 * 4 > value - 1) by (nonlinear_arith)
        requires
            value >= 0,
    ;
    assert((value + 3) / 4 * 4 <= (other + 3) / 4 * 4) by (nonlinear_arith)
        requires
            0 <= value <= other,
    ;
}

/// A prefix of lengths sums to no more than all of them.
proof fn lemma_total_prefix(lengths: Seq<nat>, m: int)
    requires
        0 <= m <= lengths.len(),
    ensures
        total(lengths.take(m)) <= total(lengths),
    decreases lengths.len() - m,
{
    if m < lengths.len() {
        assert(lengths.take(m + 1).drop_last() =~= lengths.take(m));
        lemma_total_prefix(lengths, m + 1);
    } else {
        assert(lengths.take(m) =~= lengths);
    }
}

/// The segment tables laid out for a prefix of the modules begin no earlier
/// than `cursor` and end no later than those of all of them.
proof fn lemma_tables_prefix(cursor: int, counts: Seq<nat>, m: int)
    requires
        0 <= cursor,
        0 <= m <= counts.len(),
    ensures
        cursor <= segment_tables_end(cursor, counts.take(m)) <= segment_tables_end(cursor, counts),
    decreases counts.len() - m,
{
    lemma_tables_from(cursor, counts.take(m));
    if m < counts.len() {
        assert(counts.take(m + 1).drop_last() =~= counts.take(m));
        let before = segment_tables_end(cursor, counts.take(m));
        lemma_align4(before, before);
        lemma_tables_prefix(cursor, counts, m + 1);
    } else {
        assert(counts.take(m) =~= counts);
    }
}

/// Segment tables end no earlier than they begin.
proof fn lemma_tables_from(cursor: int, counts: Seq<nat>)
    requires
        0 <= cursor,
    ensures
        cursor <= segment_tables_end(cursor, counts),
    decreases counts.len(),
{
    if counts.len() > 0 {
        lemma_tables_from(cursor, counts.drop_last());
        let before = segment_tables_end(cursor, counts.drop_last());
        lemma_align4(before, before);
    }
}

/// Everything after the kernel segment table lies at or above its end:
/// the kernel's data, the module records, names, segment tables and data.
#[verifier::rlimit(50)]
#[verifier::spinoff_prover]
proof fn lemma_layout_above_kernel_table(
    kernel_entry: VirtualAddress,
    kernel: Seq<(KernelSegment, Vec<u8>)>,
    modules: Seq<PackedModule>,
)
    requires
        layout_size(kernel, modules) <= SYSTEM_ROM_SIZE,
    ensures
        ({
            let lo = (64 + 32 * kernel.len()) as int;
            let floor = kernel_data_start(kernel, modules);
            let assigned = assigned_kernel(kernel, floor);
            let nm = modules.len();
            let names = Seq::new(nm, |m: int| name_at(kernel, modules, m) as u32);
            let tables = Seq::new(nm, |m: int| segment_table_at(kernel, modules, m) as u32);
            let segments = Seq::new(
                nm,
                |m: int| assigned_module_segments(modules[m].segments@, module_data_at(kernel, modules, m)),
            );
            &&& floor >= lo
            &&& forall|j: int|
                0 <= j < assigned.len() ==> (#[trigger] assigned[j]).1@.len() == 0 || assigned[j].0.data_offset
                    >= lo
            &&& forall|k: int|
                0 <= k < module_writes(lo, modules, names, tables, segments).len() ==> #[trigger] write_above(
                    module_writes(lo, modules, names, tables, segments)[k],
                    lo,
                )
        }),
{
    let lo = (64 + 32 * kernel.len()) as int;
    let ts = tables_start(kernel, modules);
    let counts = segment_counts(modules);
    let lengths = name_lengths(modules);
    let size = layout_size(kernel, modules);
    let nm = modules.len();
    lemma_tables_from(ts, counts);
    let tables_end = segment_tables_end(ts, counts);
    lemma_align4(tables_end, tables_end);
    let start = names_start(kernel, modules);
    let names_end = start + total(lengths);
    lemma_align4(names_end, names_end);
    let floor = kernel_data_start(kernel, modules);
    let kernel_total = total(data_lengths(kernel));
    let totals = modules.map_values(|p: PackedModule| total(data_lengths(p.segments@)));
    assert(size == floor + kernel_total + total(totals));
    let assigned = assigned_kernel(kernel, floor);
    assert forall|j: int| 0 <= j < assigned.len() implies (#[trigger] assigned[j]).1@.len() == 0
        || assigned[j].0.data_offset >= lo by {
        if kernel[j].1@.len() != 0 {
            lemma_total_prefix(data_lengths(kernel), j);
        }
    }
    let names = Seq::new(nm, |m: int| name_at(kernel, modules, m) as u32);
    let tables = Seq::new(nm, |m: int| segment_table_at(kernel, modules, m) as u32);
    let segments = Seq::new(
        nm,
        |m: int| assigned_module_segments(modules[m].segments@, module_data_at(kernel, modules, m)),
    );
    assert forall|m: int| 0 <= m < nm implies #[trigger] names[m] >= lo && tables[m] >= lo by {
        lemma_total_prefix(lengths, m);
        lemma_tables_prefix(ts, counts, m);
        let cut = segment_tables_end(ts, counts.take(m));
        lemma_align4(cut, tables_end);
    }
    assert forall|m: int, s: int|
        0 <= m < nm && 0 <= s < segments[m].len() implies (#[trigger] segments[m][s]).1@.len() == 0
        || segments[m][s].0.data_offset >= lo by {
        let own = modules[m].segments@;
        if own[s].1@.len() != 0 {
            lemma_total_prefix(totals, m);
            lemma_total_prefix(totals, m + 1);
            assert(totals.take(m + 1).drop_last() =~= totals.take(m));
            lemma_total_prefix(data_lengths(own), s);
            assert(totals[m] == total(data_lengths(own)));
        }
    }
    lemma_module_writes_above(lo, modules, names, tables, segments, lo);
}

/// Every write of a kernel table after record `i` misses that record,
/// when the data lie at or above the end of the table.
proof fn lemma_kernel_writes_after(segments: Seq<(KernelSegment, Vec<u8>)>, i: int)
    requires
        0 <= i < segments.len(),
        forall|j: int|
            0 <= j < segments.len() ==> (#[trigger] segments[j]).1@.len() == 0 || segments[j].0.data_offset
                >= 64 + 32 * segments.len(),
    ensures
        forall|q: int|
            2 * i + 1 <= q < kernel_writes(segments).len() ==> #[trigger] write_misses(
                kernel_writes(segments)[q],
                64 + 32 * i,
                96 + 32 * i,
            ),
    decreases segments.len(),
{
    let n = segments.len();
    let prefix = segments.drop_last();
    lemma_kernel_writes_index(segments);
    lemma_kernel_writes_index(prefix);
    let w = kernel_writes(segments);
    let d = kernel_writes(prefix);
    if i < n - 1 {
        assert forall|j: int| 0 <= j < prefix.len() implies (#[trigger] prefix[j]).1@.len() == 0
            || prefix[j].0.data_offset >= 64 + 32 * prefix.len() by {
            assert(prefix[j] == segments[j]);
        }
        lemma_kernel_writes_after(prefix, i);
    }
    assert forall|q: int| 2 * i + 1 <= q < w.len() implies #[trigger] write_misses(w[q], 64 + 32 * i, 96 + 32 * i) by {
        if q < d.len() {
            assert(w[q] == d[q]);
        } else if q == d.len() {
            assert(w[q] == w[2 * (n - 1)]);
        } else {
            assert(w[q] == w[2 * (n - 1) + 1]);
            assert(segments[n - 1].1@.len() == 0 || segments[n - 1].0.data_offset >= 64 + 32 * n);
        }
    }
}

/// The bytes of a write stay in place when every write after it misses
/// them.
proof fn lemma_write_survives(
    image: Seq<u8>,
    head: Seq<(int, Seq<u8>)>,
    rest: Seq<(int, Seq<u8>)>,
    lo: int,
    hi: int,
)
    requires
        writes_fit(head + rest, image.len() as int),
        head.len() > 0,
        head.last().0 == lo,
        head.last().1.len() == hi - lo,
        0 <= lo <= hi <= image.len(),
        forall|k: int| 0 <= k < rest.len() ==> #[trigger] write_misses(rest[k], lo, hi),
    ensures
        apply_writes(image, head + rest).subrange(lo, hi) == head.last().1,
{
    let all = head + rest;
    let size = image.len() as int;
    let earlier = head.drop_last();
    assert forall|k: int| 0 <= k < earlier.len() implies #[trigger] write_fits(earlier[k], size) by {
        assert(earlier[k] == all[k]);
    }
    lemma_apply_writes_len(image, earlier);
    let before = apply_writes(image, earlier);
    let covered = apply_writes(image, head);
    assert(covered == apply_write(before, head.last()));
    lemma_apply_write_covers(before, head.last());
    assert forall|k: int| 0 <= k < rest.len() implies #[trigger] write_fits(rest[k], covered.len() as int) by {
        assert(rest[k] == all[head.len() + k]);
    }
    lemma_apply_writes_append(image, head, rest);
    lemma_apply_writes_frame(covered, rest, lo, hi);
}

/// The bytes of write `q` stay in place when every later write misses
/// them.
proof fn lemma_write_at_survives(image: Seq<u8>, writes: Seq<(int, Seq<u8>)>, q: int)
    requires
        writes_fit(writes, image.len() as int),
        0 <= q < writes.len(),
        0 <= writes[q].0,
        writes[q].0 + writes[q].1.len() <= image.len(),
        forall|k: int|
            q < k < writes.len() ==> #[trigger] write_misses(writes[k], writes[q].0, writes[q].0 + writes[q].1.len()),
    ensures
        apply_writes(image, writes).subrange(writes[q].0, writes[q].0 + writes[q].1.len()) == writes[q].1,
{
    let head = writes.take(q + 1);
    let rest = writes.skip(q + 1);
    assert(writes =~= head + rest);
    assert(head.last() == writes[q]);
    let lo = writes[q].0;
    let hi = writes[q].0 + writes[q].1.len();
    assert forall|k: int| 0 <= k < rest.len() implies #[trigger] write_misses(rest[k], lo, hi) by {
        assert(rest[k] == writes[q + 1 + k]);
    }
    lemma_write_survives(image, head, rest, lo, hi);
}

/// Where the writes of a module segment table lie: record `j` at
/// `table + 32 j`, then its data.
proof fn lemma_segment_writes_index(table: int, segments: Seq<(ModuleSegment, Vec<u8>)>)
    ensures
        module_segment_writes(table, segments).len() == 2 * segments.len(),
        forall|j: int|
            0 <= j < segments.len() ==> module_segment_writes(table, segments)[2 * j] == (
                table + 32 * j,
                module_segment_bytes((#[trigger] segments[j]).0),
            ) && module_segment_writes(table, segments)[2 * j + 1] == (
                segments[j].0.data_offset as int,
                segments[j].1@,
            ),
    decreases segments.len(),
{
    if segments.len() > 0 {
        let prefix = segments.drop_last();
        lemma_segment_writes_index(table, prefix);
        let w = module_segment_writes(table, segments);
        let d = module_segment_writes(table, prefix);
        assert forall|j: int| 0 <= j < segments.len() implies w[2 * j] == (
            table + 32 * j,
            module_segment_bytes((#[trigger] segments[j]).0),
        ) && w[2 * j + 1] == (segments[j].0.data_offset as int, segments[j].1@) by {
            if j < prefix.len() {
                assert(prefix[j] == segments[j]);
                assert(w[2 * j] == d[2 * j]);
                assert(w[2 * j + 1] == d[2 * j + 1]);
            }
        }
    }
}

/// The writes of module `m` of a module table: its record, its name, then
/// its segment table and data.
pub open spec fn module_own_writes(
    table: int,
    modules: Seq<PackedModule>,
    names: Seq<u32>,
    tables: Seq<u32>,
    segments: Seq<Seq<(ModuleSegment, Vec<u8>)>>,
    m: int,
) -> Seq<(int, Seq<u8>)> {
    seq![
        (table + 32 * m, module_record_bytes(module_record_of(modules[m], names[m], tables[m]))),
        (names[m] as int, modules[m].name@),
    ] + module_segment_writes(tables[m] as int, segments[m])
}

/// The writes of the first `k + 1` modules are those of the first `k`
/// followed by module `k`'s own.
proof fn lemma_module_writes_step(
    table: int,
    modules: Seq<PackedModule>,
    names: Seq<u32>,
    tables: Seq<u32>,
    segments: Seq<Seq<(ModuleSegment, Vec<u8>)>>,
    k: int,
)
    requires
        0 <= k < modules.len(),
    ensures
        module_writes(table, modules.take(k + 1), names, tables, segments) == module_writes(
            table,
            modules.take(k),
            names,
            tables,
            segments,
        ) + module_own_writes(table, modules, names, tables, segments, k),
{
    let next = modules.take(k + 1);
    assert(next.drop_last() =~= modules.take(k));
    assert(next[k] == modules[k]);
    assert(module_writes(table, next, names, tables, segments) =~= module_writes(
        table,
        modules.take(k),
        names,
        tables,
        segments,
    ) + module_own_writes(table, modules, names, tables, segments, k));
}

/// The writes of the first `k` modules begin the writes of all of them.
proof fn lemma_module_writes_prefix(
    table: int,
    modules: Seq<PackedModule>,
    names: Seq<u32>,
    tables: Seq<u32>,
    segments: Seq<Seq<(ModuleSegment, Vec<u8>)>>,
    k: int,
)
    requires
        0 <= k <= modules.len(),
    ensures
        module_writes(table, modules.take(k), names, tables, segments).len() <= module_writes(
            table,
            modules,
            names,
            tables,
            segments,
        ).len(),
        forall|q: int|
            0 <= q < module_writes(table, modules.take(k), names, tables, segments).len() ==> module_writes(
                table,
                modules.take(k),
                names,
                tables,
                segments,
            )[q] == #[trigger] module_writes(table, modules, names, tables, segments)[q],
    decreases modules.len() - k,
{
    if k == modules.len() {
        assert(modules.take(k) =~= modules);
    } else {
        lemma_module_writes_prefix(table, modules, names, tables, segments, k + 1);
        lemma_module_writes_step(table, modules, names, tables, segments, k);
        let small = module_writes(table, modules.take(k), names, tables, segments);
        let big = module_writes(table, modules.take(k + 1), names, tables, segments);
        assert forall|q: int| 0 <= q < small.len() implies small[q] == #[trigger] module_writes(
            table,
            modules,
            names,
            tables,
            segments,
        )[q] by {
            assert(big[q] == small[q]);
        }
    }
}

/// Every write of the modules from `k` on has a property when every own
/// write of each of those modules has it.
proof fn lemma_module_writes_tail(
    table: int,
    modules: Seq<PackedModule>,
    names: Seq<u32>,
    tables: Seq<u32>,
    segments: Seq<Seq<(ModuleSegment, Vec<u8>)>>,
    k: int,
    p: spec_fn((int, Seq<u8>)) -> bool,
)
    requires
        0 <= k <= modules.len(),
        forall|m: int, i: int|
            k <= m < modules.len() && 0 <= i < module_own_writes(table, modules, names, tables, segments, m).len()
                ==> p(#[trigger] module_own_writes(table, modules, names, tables, segments, m)[i]),
    ensures
        forall|q: int|
            module_writes(table, modules.take(k), names, tables, segments).len() <= q < module_writes(
                table,
                modules,
                names,
                tables,
                segments,
            ).len() ==> p(#[trigger] module_writes(table, modules, names, tables, segments)[q]),
    decreases modules.len(),
{
    if k < modules.len() {
        let n = modules.len();
        let prefix = modules.drop_last();
        assert(prefix.take(k) =~= modules.take(k));
        assert forall|m: int, i: int|
            k <= m < prefix.len() && 0 <= i < module_own_writes(table, prefix, names, tables, segments, m).len()
                implies p(#[trigger] module_own_writes(table, prefix, names, tables, segments, m)[i]) by {
            assert(prefix[m] == modules[m]);
            assert(module_own_writes(table, prefix, names, tables, segments, m) == module_own_writes(
                table,
                modules,
                names,
                tables,
                segments,
                m,
            ));
        }
        lemma_module_writes_tail(table, prefix, names, tables, segments, k, p);
        let w = module_writes(table, modules, names, tables, segments);
        let d = module_writes(table, prefix, names, tables, segments);
        let own = module_own_writes(table, modules, names, tables, segments, n - 1);
        assert(w =~= d + own);
        assert forall|q: int| module_writes(table, modules.take(k), names, tables, segments).len() <= q < w.len()
            implies p(#[trigger] w[q]) by {
            if q < d.len() {
                assert(w[q] == d[q]);
            } else {
                assert(w[q] == own[q - d.len()]);
            }
        }
    } else {
        assert(modules.take(k) =~= modules);
    }
}

/// A shorter prefix of lengths sums to no more than a longer one, and one
/// more length adds exactly that length.
proof fn lemma_total_takes(lengths: Seq<nat>, a: int, b: int)
    requires
        0 <= a <= b <= lengths.len(),
    ensures
        total(lengths.take(a)) <= total(lengths.take(b)),
        a < lengths.len() ==> total(lengths.take(a + 1)) == total(lengths.take(a)) + lengths[a],
{
    assert(lengths.take(b).take(a) =~= lengths.take(a));
    lemma_total_prefix(lengths.take(b), a);
    if a < lengths.len() {
        assert(lengths.take(a + 1).drop_last() =~= lengths.take(a));
    }
}

/// Segment tables laid out for a shorter prefix of the modules end no
/// later than those for a longer one.
proof fn lemma_tables_takes(cursor: int, counts: Seq<nat>, a: int, b: int)
    requires
        0 <= cursor,
        0 <= a <= b <= counts.len(),
    ensures
        segment_tables_end(cursor, counts.take(a)) <= segment_tables_end(cursor, counts.take(b)),
{
    assert(counts.take(b).take(a) =~= counts.take(a));
    lemma_tables_prefix(cursor, counts.take(b), a);
}

/// Where module `m`'s record, segment table, name and data lie in the
/// canonical layout: the segment table after the module table and before
/// the names, the name among the names, the data after the kernel's.
proof fn lemma_module_layout_at(kernel: Seq<(KernelSegment, Vec<u8>)>, modules: Seq<PackedModule>, m: int)
    requires
        0 <= m < modules.len(),
    ensures
        tables_start(kernel, modules) <= segment_table_at(kernel, modules, m),
        segment_table_at(kernel, modules, m) + 32 * modules[m].segments@.len() == segment_tables_end(
            tables_start(kernel, modules),
            segment_counts(modules).take(m + 1),
        ),
        segment_table_at(kernel, modules, m) + 32 * modules[m].segments@.len() <= names_start(kernel, modules),
        names_start(kernel, modules) <= name_at(kernel, modules, m),
        name_at(kernel, modules, m) + modules[m].name@.len() <= kernel_data_start(kernel, modules),
        kernel_data_start(kernel, modules) + total(data_lengths(kernel)) <= module_data_at(kernel, modules, m),
        module_data_at(kernel, modules, m) + total(data_lengths(modules[m].segments@)) <= layout_size(
            kernel,
            modules,
        ),
{
    let ts = tables_start(kernel, modules);
    let counts = segment_counts(modules);
    let lengths = name_lengths(modules);
    let totals = modules.map_values(|p: PackedModule| total(data_lengths(p.segments@)));
    lemma_tables_takes(ts, counts, m, m + 1);
    assert(counts.take(m + 1).drop_last() =~= counts.take(m));
    let before = segment_tables_end(ts, counts.take(m));
    lemma_tables_from(ts, counts.take(m));
    lemma_align4(before, before);
    lemma_tables_prefix(ts, counts, m + 1);
    let tables_end = segment_tables_end(ts, counts);
    lemma_tables_from(ts, counts);
    lemma_align4(tables_end, tables_end);
    lemma_total_takes(lengths, m + 1, lengths.len() as int);
    assert(lengths.take(lengths.len() as int) =~= lengths);
    lemma_total_takes(lengths, m, m + 1);
    assert(lengths[m] == modules[m].name@.len());
    let names_end = names_start(kernel, modules) + total(lengths);
    lemma_align4(names_end, names_end);
    lemma_total_takes(totals, m, totals.len() as int);
    lemma_total_takes(totals, m + 1, totals.len() as int);
    assert(totals.take(totals.len() as int) =~= totals);
}

/// Module `m`'s segment table, name and data lie before those of any
/// later module `k`.
proof fn lemma_module_layout_pair(kernel: Seq<(KernelSegment, Vec<u8>)>, modules: Seq<PackedModule>, m: int, k: int)
    requires
        0 <= m < k < modules.len(),
    ensures
        segment_table_at(kernel, modules, m) + 32 * modules[m].segments@.len() <= segment_table_at(
            kernel,
            modules,
            k,
        ),
        name_at(kernel, modules, m) + modules[m].name@.len() <= name_at(kernel, modules, k),
        module_data_at(kernel, modules, m) + total(data_lengths(modules[m].segments@)) <= module_data_at(
            kernel,
            modules,
            k,
        ),
{
    let ts = tables_start(kernel, modules);
    let counts = segment_counts(modules);
    let lengths = name_lengths(modules);
    let totals = modules.map_values(|p: PackedModule| total(data_lengths(p.segments@)));
    lemma_module_layout_at(kernel, modules, m);
    lemma_tables_takes(ts, counts, m + 1, k);
    let at_k = segment_tables_end(ts, counts.take(k));
    lemma_tables_from(ts, counts.take(k));
    lemma_align4(at_k, at_k);
    lemma_total_takes(lengths, m, m + 1);
    lemma_total_takes(lengths, m + 1, k);
    lemma_total_takes(totals, m, m + 1);
    lemma_total_takes(totals, m + 1, k);
}

/// Whether a write lies from `lo` up to `hi`.
pub open spec fn write_within(write: (int, Seq<u8>), lo: int, hi: int) -> bool {
    write.1.len() == 0 || (lo <= write.0 && write.0 + write.1.len() <= hi)
}

/// The name offsets of the canonical layout.
pub open spec fn canonical_names(kernel: Seq<(KernelSegment, Vec<u8>)>, modules: Seq<PackedModule>) -> Seq<u32> {
    Seq::new(modules.len(), |m: int| name_at(kernel, modules, m) as u32)
}

/// The segment table offsets of the canonical layout.
pub open spec fn canonical_tables(kernel: Seq<(KernelSegment, Vec<u8>)>, modules: Seq<PackedModule>) -> Seq<u32> {
    Seq::new(modules.len(), |m: int| segment_table_at(kernel, modules, m) as u32)
}

/// The module segments of the canonical layout, with their data offsets.
pub open spec fn canonical_segments(kernel: Seq<(KernelSegment, Vec<u8>)>, modules: Seq<PackedModule>) -> Seq<
    Seq<(ModuleSegment, Vec<u8>)>,
> {
    Seq::new(
        modules.len(),
        |m: int| assigned_module_segments(modules[m].segments@, module_data_at(kernel, modules, m)),
    )
}

/// The canonical writes of module `m`.
pub open spec fn canonical_module_writes(
    kernel: Seq<(KernelSegment, Vec<u8>)>,
    modules: Seq<PackedModule>,
    m: int,
) -> Seq<(int, Seq<u8>)> {
    module_own_writes(
        (64 + kernel.len() * 32) as int,
        modules,
        canonical_names(kernel, modules),
        canonical_tables(kernel, modules),
        canonical_segments(kernel, modules),
        m,
    )
}

/// What module `m` writes in the canonical layout: its record, its name,
/// its segment records in its segment table and its data in its data span.
#[verifier::rlimit(100)]
#[verifier::spinoff_prover]
proof fn lemma_module_own_zones(kernel: Seq<(KernelSegment, Vec<u8>)>, modules: Seq<PackedModule>, m: int)
    requires
        layout_size(kernel, modules) <= SYSTEM_ROM_SIZE,
        0 <= m < modules.len(),
    ensures
        ({
            let own = canonical_module_writes(kernel, modules, m);
            let count = modules[m].segments@.len();
            let table = segment_table_at(kernel, modules, m);
            let data = module_data_at(kernel, modules, m);
            &&& canonical_names(kernel, modules)[m] == name_at(kernel, modules, m)
            &&& canonical_tables(kernel, modules)[m] == table
            &&& own.len() == 2 + 2 * count
            &&& own[0] == (
                64 + kernel.len() * 32 + 32 * m,
                module_record_bytes(
                    module_record_of(modules[m], name_at(kernel, modules, m) as u32, table as u32),
                ),
            )
            &&& own[1] == (name_at(kernel, modules, m), modules[m].name@)
            &&& forall|j: int|
                0 <= j < count ==> own[2 + 2 * j] == (
                    table + 32 * j,
                    module_segment_bytes((#[trigger] canonical_segments(kernel, modules)[m][j]).0),
                ) && write_within(own[3 + 2 * j], data, data + total(data_lengths(modules[m].segments@)))
        }),
{
    let own = canonical_module_writes(kernel, modules, m);
    let segs = canonical_segments(kernel, modules)[m];
    let initial = modules[m].segments@;
    let table = segment_table_at(kernel, modules, m);
    let data = module_data_at(kernel, modules, m);
    let lengths = data_lengths(initial);
    lemma_module_layout_at(kernel, modules, m);
    lemma_tables_from(tables_start(kernel, modules), segment_counts(modules).take(m));
    lemma_align4(
        segment_tables_end(tables_start(kernel, modules), segment_counts(modules).take(m)),
        segment_tables_end(tables_start(kernel, modules), segment_counts(modules).take(m)),
    );
    assert(table <= layout_size(kernel, modules));
    assert(table as u32 as int == table);
    lemma_segment_writes_index(table, segs);
    let sw = module_segment_writes(table, segs);
    assert(own =~= seq![own[0], own[1]] + sw);
    assert(segs.len() == initial.len());
    assert forall|j: int| 0 <= j < initial.len() implies own[2 + 2 * j] == (
        table + 32 * j,
        module_segment_bytes((#[trigger] canonical_segments(kernel, modules)[m][j]).0),
    ) && write_within(own[3 + 2 * j], data, data + total(lengths)) by {
        assert(own[2 + 2 * j] == sw[2 * j]);
        assert(own[3 + 2 * j] == sw[2 * j + 1]);
        assert(sw[2 * j] == (table + 32 * j, module_segment_bytes(segs[j].0)));
        if initial[j].1@.len() != 0 {
            lemma_total_takes(lengths, j, lengths.len() as int);
            lemma_total_takes(lengths, j + 1, lengths.len() as int);
            assert(lengths.take(lengths.len() as int) =~= lengths);
            assert(lengths[j] == initial[j].1@.len());
            let offset = data + total(lengths.take(j));
            assert(offset + initial[j].1@.len() <= data + total(lengths));
            assert(offset <= layout_size(kernel, modules));
            assert(segs[j].0.data_offset == offset as u32);
            assert(segs[j].0.data_offset as int == offset);
        }
    }
}

/// The canonical writes: the header, the kernel table and data, then the
/// writes of each module in the canonical layout.
proof fn lemma_canonical_split(
    kernel_entry: VirtualAddress,
    kernel: Seq<(KernelSegment, Vec<u8>)>,
    modules: Seq<PackedModule>,
)
    ensures
        canonical_writes(kernel_entry, kernel, modules) == seq![
            (0int, header_bytes(canonical_header(kernel_entry, kernel, modules))),
        ] + kernel_writes(assigned_kernel(kernel, kernel_data_start(kernel, modules))) + module_writes(
            (64 + kernel.len() * 32) as int,
            modules,
            canonical_names(kernel, modules),
            canonical_tables(kernel, modules),
            canonical_segments(kernel, modules),
        ),
        kernel_writes(assigned_kernel(kernel, kernel_data_start(kernel, modules))).len() == 2 * kernel.len(),
{
    lemma_kernel_writes_index(assigned_kernel(kernel, kernel_data_start(kernel, modules)));
    assert(Seq::new(modules.len(), |m: int| name_at(kernel, modules, m) as u32) =~= canonical_names(kernel, modules));
    assert(Seq::new(modules.len(), |m: int| segment_table_at(kernel, modules, m) as u32) =~= canonical_tables(
        kernel,
        modules,
    ));
}

/// The module writes of the canonical layout.
pub open spec fn canonical_module_table_writes(
    kernel: Seq<(KernelSegment, Vec<u8>)>,
    modules: Seq<PackedModule>,
) -> Seq<(int, Seq<u8>)> {
    module_writes(
        (64 + kernel.len() * 32) as int,
        modules,
        canonical_names(kernel, modules),
        canonical_tables(kernel, modules),
        canonical_segments(kernel, modules),
    )
}

/// Where module `m`'s writes begin among the canonical module writes.
pub open spec fn module_base(kernel: Seq<(KernelSegment, Vec<u8>)>, modules: Seq<PackedModule>, m: int) -> int {
    canonical_module_table_writes(kernel, modules.take(m)).len() as int
}

/// Module `m`'s own writes follow the writes of the modules before it,
/// and every write after them has a property that every own write of each
/// later module has.
proof fn lemma_module_writes_split(
    table: int,
    modules: Seq<PackedModule>,
    names: Seq<u32>,
    tables: Seq<u32>,
    segments: Seq<Seq<(ModuleSegment, Vec<u8>)>>,
    m: int,
    p: spec_fn((int, Seq<u8>)) -> bool,
)
    requires
        0 <= m < modules.len(),
        forall|k: int, i: int|
            m < k < modules.len() && 0 <= i < module_own_writes(table, modules, names, tables, segments, k).len()
                ==> p(#[trigger] module_own_writes(table, modules, names, tables, segments, k)[i]),
    ensures
        ({
            let mw = module_writes(table, modules, names, tables, segments);
            let own = module_own_writes(table, modules, names, tables, segments, m);
            let done = module_writes(table, modules.take(m), names, tables, segments);
            &&& done.len() + own.len() <= mw.len()
            &&& forall|i: int| 0 <= i < own.len() ==> mw[done.len() + i] == #[trigger] own[i]
            &&& forall|q: int| done.len() + own.len() <= q < mw.len() ==> p(#[trigger] mw[q])
        }),
{
    let mw = module_writes(table, modules, names, tables, segments);
    let own = module_own_writes(table, modules, names, tables, segments, m);
    lemma_module_writes_step(table, modules, names, tables, segments, m);
    lemma_module_writes_prefix(table, modules, names, tables, segments, m + 1);
    let done = module_writes(table, modules.take(m), names, tables, segments);
    let next = module_writes(table, modules.take(m + 1), names, tables, segments);
    assert forall|i: int| 0 <= i < own.len() implies mw[done.len() + i] == #[trigger] own[i] by {
        assert(next[done.len() + i] == own[i]);
    }
    lemma_module_writes_tail(table, modules, names, tables, segments, m + 1, p);
}

/// Whether a write of module `k` in the canonical layout is its record, its
/// name, or lies in its segment table or in its data.
pub open spec fn in_module_zones(
    write: (int, Seq<u8>),
    kernel: Seq<(KernelSegment, Vec<u8>)>,
    modules: Seq<PackedModule>,
    k: int,
) -> bool {
    let table = segment_table_at(kernel, modules, k);
    let data = module_data_at(kernel, modules, k);
    ||| write.0 == 64 + kernel.len() * 32 + 32 * k && write.1.len() == 32
    ||| write.0 == name_at(kernel, modules, k) && write.1.len() == modules[k].name@.len()
    ||| write_within(write, table, table + 32 * modules[k].segments@.len())
    ||| write_within(write, data, data + total(data_lengths(modules[k].segments@)))
}

/// Every canonical write of module `k` lies in one of its zones.
proof fn lemma_own_in_zones(kernel: Seq<(KernelSegment, Vec<u8>)>, modules: Seq<PackedModule>, k: int)
    requires
        layout_size(kernel, modules) <= SYSTEM_ROM_SIZE,
        0 <= k < modules.len(),
    ensures
        forall|i: int|
            0 <= i < canonical_module_writes(kernel, modules, k).len() ==> in_module_zones(
                #[trigger] canonical_module_writes(kernel, modules, k)[i],
                kernel,
                modules,
                k,
            ),
{
    let own = canonical_module_writes(kernel, modules, k);
    lemma_module_own_zones(kernel, modules, k);
    assert(module_record_bytes(
        module_record_of(
            modules[k],
            name_at(kernel, modules, k) as u32,
            segment_table_at(kernel, modules, k) as u32,
        ),
    ).len() == 32);
    assert forall|i: int| 0 <= i < own.len() implies in_module_zones(#[trigger] own[i], kernel, modules, k) by {
        if i >= 2 {
            let j = (i - 2) / 2;
            let seg = canonical_segments(kernel, modules)[k][j];
            assert(module_segment_bytes(seg.0).len() == 32);
            if i == 2 + 2 * j {
                assert(own[2 + 2 * j] == (
                    segment_table_at(kernel, modules, k) + 32 * j,
                    module_segment_bytes(seg.0),
                ));
            } else {
                assert(i == 3 + 2 * j);
            }
        }
    }
}

/// The bytes of write `i` of a run `own` that stands at `start` among the
/// writes after `prefix` stay in place when every later write misses them.
proof fn lemma_run_write_survives(
    image: Seq<u8>,
    prefix: Seq<(int, Seq<u8>)>,
    rest: Seq<(int, Seq<u8>)>,
    start: int,
    own: Seq<(int, Seq<u8>)>,
    i: int,
)
    requires
        writes_fit(prefix + rest, image.len() as int),
        0 <= start,
        start + own.len() <= rest.len(),
        forall|j: int| 0 <= j < own.len() ==> rest[start + j] == #[trigger] own[j],
        0 <= i < own.len(),
        0 <= own[i].0,
        own[i].0 + own[i].1.len() <= image.len(),
        forall|j: int| i < j < own.len() ==> #[trigger] write_misses(own[j], own[i].0, own[i].0 + own[i].1.len()),
        forall|q: int|
            start + own.len() <= q < rest.len() ==> #[trigger] write_misses(rest[q], own[i].0, own[i].0 + own[i].1.len()),
    ensures
        apply_writes(image, prefix + rest).subrange(own[i].0, own[i].0 + own[i].1.len()) == own[i].1,
{
    let writes = prefix + rest;
    let lo = own[i].0;
    let hi = own[i].0 + own[i].1.len();
    let q = prefix.len() + start + i;
    assert(writes[q] == rest[start + i]);
    assert forall|k: int| q < k < writes.len() implies #[trigger] write_misses(writes[k], lo, hi) by {
        let at = k - prefix.len();
        assert(writes[k] == rest[at]);
        if at < start + own.len() {
            assert(rest[at] == own[at - start]);
        }
    }
    lemma_write_at_survives(image, writes, q);
}

/// The bytes of write `i` of module `m` stay in the canonical image when
/// every later write of that module and of the modules after it misses
/// them.
#[verifier::rlimit(100)]
#[verifier::spinoff_prover]
proof fn lemma_module_write_survives(
    kernel_entry: VirtualAddress,
    kernel: Seq<(KernelSegment, Vec<u8>)>,
    modules: Seq<PackedModule>,
    m: int,
    i: int,
    lo: int,
    hi: int,
)
    requires
        writes_fit(canonical_writes(kernel_entry, kernel, modules), layout_size(kernel, modules)),
        0 <= m < modules.len(),
        0 <= i < canonical_module_writes(kernel, modules, m).len(),
        lo == canonical_module_writes(kernel, modules, m)[i].0,
        hi == lo + canonical_module_writes(kernel, modules, m)[i].1.len(),
        0 <= lo,
        hi <= layout_size(kernel, modules),
        forall|j: int|
            i < j < canonical_module_writes(kernel, modules, m).len() ==> #[trigger] write_misses(
                canonical_module_writes(kernel, modules, m)[j],
                lo,
                hi,
            ),
        forall|k: int, j: int|
            m < k < modules.len() && 0 <= j < canonical_module_writes(kernel, modules, k).len() ==> write_misses(
                #[trigger] canonical_module_writes(kernel, modules, k)[j],
                lo,
                hi,
            ),
    ensures
        canonical_bytes(kernel_entry, kernel, modules).subrange(lo, hi) == canonical_module_writes(
            kernel,
            modules,
            m,
        )[i].1,
{
    let table = (64 + kernel.len() * 32) as int;
    let names = canonical_names(kernel, modules);
    let tables = canonical_tables(kernel, modules);
    let segments = canonical_segments(kernel, modules);
    let own = canonical_module_writes(kernel, modules, m);
    let p = |w: (int, Seq<u8>)| write_misses(w, lo, hi);
    assert forall|k: int, j: int|
        m < k < modules.len() && 0 <= j < module_own_writes(table, modules, names, tables, segments, k).len()
            implies p(#[trigger] module_own_writes(table, modules, names, tables, segments, k)[j]) by {
        assert(module_own_writes(table, modules, names, tables, segments, k) == canonical_module_writes(
            kernel,
            modules,
            k,
        ));
        assert(write_misses(canonical_module_writes(kernel, modules, k)[j], lo, hi));
    }
    lemma_module_writes_split(table, modules, names, tables, segments, m, p);
    lemma_canonical_split(kernel_entry, kernel, modules);
    let hw = seq![(0int, header_bytes(canonical_header(kernel_entry, kernel, modules)))];
    let kw = kernel_writes(assigned_kernel(kernel, kernel_data_start(kernel, modules)));
    let mw = module_writes(table, modules, names, tables, segments);
    let done = module_writes(table, modules.take(m), names, tables, segments);
    assert(canonical_writes(kernel_entry, kernel, modules) == (hw + kw) + mw);
    assert forall|q: int| done.len() + own.len() <= q < mw.len() implies #[trigger] write_misses(mw[q], lo, hi) by {
        assert(p(mw[q]));
    }
    lemma_run_write_survives(
        Seq::new(layout_size(kernel, modules) as nat, |i: int| 0u8),
        hw + kw,
        mw,
        done.len() as int,
        own,
        i,
    );
}

/// In the canonical bytes, module record `m` holds module `m`'s record.
#[verifier::rlimit(100)]
#[verifier::spinoff_prover]
proof fn lemma_module_record_in_image(
    kernel_entry: VirtualAddress,
    kernel: Seq<(KernelSegment, Vec<u8>)>,
    modules: Seq<PackedModule>,
    m: int,
)
    requires
        layout_size(kernel, modules) <= SYSTEM_ROM_SIZE,
        writes_fit(canonical_writes(kernel_entry, kernel, modules), layout_size(kernel, modules)),
        0 <= m < modules.len(),
    ensures
        record_at(canonical_bytes(kernel_entry, kernel, modules), (64 + kernel.len() * 32) as u32, m, 32)
            == module_record_bytes(
            module_record_of(
                modules[m],
                name_at(kernel, modules, m) as u32,
                segment_table_at(kernel, modules, m) as u32,
            ),
        ),
{
    let own = canonical_module_writes(kernel, modules, m);
    let lo = 64 + kernel.len() * 32 + 32 * m;
    let hi = lo + 32;
    lemma_module_own_zones(kernel, modules, m);
    lemma_module_layout_at(kernel, modules, m);
    let ts = tables_start(kernel, modules);
    assert(hi <= ts);
    let record = module_record_of(
        modules[m],
        name_at(kernel, modules, m) as u32,
        segment_table_at(kernel, modules, m) as u32,
    );
    assert(module_record_bytes(record).len() == 32);
    assert(own[0] == (lo, module_record_bytes(record)));
    assert forall|j: int| 0 < j < own.len() implies #[trigger] write_misses(own[j], lo, hi) by {
        if j >= 2 {
            let i = (j - 2) / 2;
            let seg = canonical_segments(kernel, modules)[m][i];
            assert(module_segment_bytes(seg.0).len() == 32);
        }
    }
    assert forall|k: int, j: int|
        m < k < modules.len() && 0 <= j < canonical_module_writes(kernel, modules, k).len() implies write_misses(
            #[trigger] canonical_module_writes(kernel, modules, k)[j],
            lo,
            hi,
        ) by {
        lemma_own_in_zones(kernel, modules, k);
        lemma_module_layout_at(kernel, modules, k);
        assert(in_module_zones(canonical_module_writes(kernel, modules, k)[j], kernel, modules, k));
    }
    lemma_module_write_survives(kernel_entry, kernel, modules, m, 0, lo, hi);
    assert(((64 + kernel.len() * 32) as u32) as int == 64 + kernel.len() * 32);
}

/// In the canonical bytes, module `m`'s name stands at its name offset.
#[verifier::rlimit(100)]
#[verifier::spinoff_prover]
proof fn lemma_module_name_in_image(
    kernel_entry: VirtualAddress,
    kernel: Seq<(KernelSegment, Vec<u8>)>,
    modules: Seq<PackedModule>,
    m: int,
)
    requires
        layout_size(kernel, modules) <= SYSTEM_ROM_SIZE,
        writes_fit(canonical_writes(kernel_entry, kernel, modules), layout_size(kernel, modules)),
        0 <= m < modules.len(),
    ensures
        canonical_bytes(kernel_entry, kernel, modules).subrange(
            name_at(kernel, modules, m),
            name_at(kernel, modules, m) + modules[m].name@.len(),
        ) == modules[m].name@,
{
    let own = canonical_module_writes(kernel, modules, m);
    let lo = name_at(kernel, modules, m);
    let hi = lo + modules[m].name@.len();
    lemma_module_own_zones(kernel, modules, m);
    lemma_module_layout_at(kernel, modules, m);
    assert forall|j: int| 1 < j < own.len() implies #[trigger] write_misses(own[j], lo, hi) by {
        let i = (j - 2) / 2;
        let seg = canonical_segments(kernel, modules)[m][i];
        assert(module_segment_bytes(seg.0).len() == 32);
    }
    assert forall|k: int, j: int|
        m < k < modules.len() && 0 <= j < canonical_module_writes(kernel, modules, k).len() implies write_misses(
            #[trigger] canonical_module_writes(kernel, modules, k)[j],
            lo,
            hi,
        ) by {
        lemma_own_in_zones(kernel, modules, k);
        lemma_module_layout_at(kernel, modules, k);
        lemma_module_layout_pair(kernel, modules, m, k);
        assert(in_module_zones(canonical_module_writes(kernel, modules, k)[j], kernel, modules, k));
    }
    lemma_module_write_survives(kernel_entry, kernel, modules, m, 1, lo, hi);
}

/// In the canonical bytes, record `s` of module `m`'s segment table holds
/// that segment with its data offset assigned.
#[verifier::rlimit(100)]
#[verifier::spinoff_prover]
proof fn lemma_module_segment_in_image(
    kernel_entry: VirtualAddress,
    kernel: Seq<(KernelSegment, Vec<u8>)>,
    modules: Seq<PackedModule>,
    m: int,
    s: int,
)
    requires
        layout_size(kernel, modules) <= SYSTEM_ROM_SIZE,
        writes_fit(canonical_writes(kernel_entry, kernel, modules), layout_size(kernel, modules)),
        0 <= m < modules.len(),
        0 <= s < modules[m].segments@.len(),
    ensures
        record_at(
            canonical_bytes(kernel_entry, kernel, modules),
            segment_table_at(kernel, modules, m) as u32,
            s,
            32,
        ) == module_segment_bytes(canonical_segments(kernel, modules)[m][s].0),
{
    let own = canonical_module_writes(kernel, modules, m);
    let table = segment_table_at(kernel, modules, m);
    let lo = table + 32 * s;
    let hi = lo + 32;
    lemma_module_own_zones(kernel, modules, m);
    lemma_module_layout_at(kernel, modules, m);
    let seg = canonical_segments(kernel, modules)[m][s];
    assert(module_segment_bytes(seg.0).len() == 32);
    assert(own[2 + 2 * s] == (lo, module_segment_bytes(seg.0)));
    assert forall|j: int| 2 + 2 * s < j < own.len() implies #[trigger] write_misses(own[j], lo, hi) by {
        let i = (j - 2) / 2;
        let other = canonical_segments(kernel, modules)[m][i];
        assert(module_segment_bytes(other.0).len() == 32);
    }
    assert forall|k: int, j: int|
        m < k < modules.len() && 0 <= j < canonical_module_writes(kernel, modules, k).len() implies write_misses(
            #[trigger] canonical_module_writes(kernel, modules, k)[j],
            lo,
            hi,
        ) by {
        lemma_own_in_zones(kernel, modules, k);
        lemma_module_layout_at(kernel, modules, k);
        lemma_module_layout_pair(kernel, modules, m, k);
        assert(in_module_zones(canonical_module_writes(kernel, modules, k)[j], kernel, modules, k));
    }
    lemma_module_write_survives(kernel_entry, kernel, modules, m, 2 + 2 * s, lo, hi);
}

/// What the parser reads back of module `m` of a canonical image: its
/// record, its name and its segments with their data offsets assigned.
pub open spec fn module_read_back(
    kernel: Seq<(KernelSegment, Vec<u8>)>,
    modules: Seq<PackedModule>,
    m: int,
    v: ModuleView,
) -> bool {
    &&& v.record == module_record_of(
        modules[m],
        name_at(kernel, modules, m) as u32,
        segment_table_at(kernel, modules, m) as u32,
    )
    &&& v.name == decode_utf8(modules[m].name@)
    &&& v.segments == canonical_segments(kernel, modules)[m].map_values(|p: (ModuleSegment, Vec<u8>)| p.0)
}

/// Packing then parsing gives back module `m`.
#[verifier::rlimit(100)]
#[verifier::spinoff_prover]
proof fn lemma_module_read_back_at(
    kernel_entry: VirtualAddress,
    kernel: Seq<(KernelSegment, Vec<u8>)>,
    modules: Seq<PackedModule>,
    m: int,
    v: ModuleView,
)
    requires
        layout_size(kernel, modules) <= SYSTEM_ROM_SIZE,
        writes_fit(canonical_writes(kernel_entry, kernel, modules), layout_size(kernel, modules)),
        0 <= m < modules.len(),
        forall|s: int|
            0 <= s < modules[m].segments@.len() ==> module_segment_valid(
                (#[trigger] canonical_segments(kernel, modules)[m][s]).0,
            ),
        module_parsed_from(
            canonical_bytes(kernel_entry, kernel, modules),
            (64 + kernel.len() * 32) as u32,
            m,
            v,
        ),
    ensures
        module_read_back(kernel, modules, m, v),
{
    let bytes = canonical_bytes(kernel_entry, kernel, modules);
    let record = module_record_of(
        modules[m],
        name_at(kernel, modules, m) as u32,
        segment_table_at(kernel, modules, m) as u32,
    );
    lemma_module_layout_at(kernel, modules, m);
    lemma_tables_from(tables_start(kernel, modules), segment_counts(modules).take(m));
    lemma_align4(
        segment_tables_end(tables_start(kernel, modules), segment_counts(modules).take(m)),
        segment_tables_end(tables_start(kernel, modules), segment_counts(modules).take(m)),
    );
    lemma_module_record_in_image(kernel_entry, kernel, modules, m);
    lemma_module_record_round_trip(record);
    assert(v.record == record);
    lemma_module_name_in_image(kernel_entry, kernel, modules, m);
    assert(record.name_offset as int == name_at(kernel, modules, m));
    assert(record.name_length as int == modules[m].name@.len());
    let segments = canonical_segments(kernel, modules)[m].map_values(|p: (ModuleSegment, Vec<u8>)| p.0);
    assert(record.segment_count as int == modules[m].segments@.len());
    assert(record.segment_table_offset == segment_table_at(kernel, modules, m) as u32);
    assert forall|s: int| 0 <= s < segments.len() implies v.segments[s] == #[trigger] segments[s] by {
        lemma_module_segment_in_image(kernel_entry, kernel, modules, m, s);
        lemma_module_segment_round_trip(canonical_segments(kernel, modules)[m][s].0);
        assert(decode_module_segment_spec(record_at(bytes, record.segment_table_offset, s, 32))
            == Ok::<ModuleSegment, PlatformError>(v.segments[s]));
    }
    assert(v.segments =~= segments);
}

/// Packing then parsing gives back every module: its record, its name and
/// its segments with their data offsets assigned.
proof fn lemma_module_read_back(
    kernel_entry: VirtualAddress,
    kernel: Seq<(KernelSegment, Vec<u8>)>,
    modules: Seq<PackedModule>,
    view: ImageView,
)
    requires
        layout_size(kernel, modules) <= SYSTEM_ROM_SIZE,
        writes_fit(canonical_writes(kernel_entry, kernel, modules), layout_size(kernel, modules)),
        forall|m: int, s: int|
            0 <= m < modules.len() && 0 <= s < modules[m].segments@.len() ==> module_segment_valid(
                (#[trigger] canonical_segments(kernel, modules)[m][s]).0,
            ),
        parse_spec(canonical_bytes(kernel_entry, kernel, modules)) == Ok::<ImageView, ImageError>(view),
        view.header.module_table_offset == 64 + kernel.len() * 32,
        view.header.module_count == modules.len(),
    ensures
        view.modules.len() == modules.len(),
        forall|m: int| 0 <= m < modules.len() ==> module_read_back(kernel, modules, m, #[trigger] view.modules[m]),
{
    lemma_parsed_module_records(canonical_bytes(kernel_entry, kernel, modules), view);
    assert forall|m: int| 0 <= m < modules.len() implies module_read_back(
        kernel,
        modules,
        m,
        #[trigger] view.modules[m],
    ) by {
        lemma_module_read_back_at(kernel_entry, kernel, modules, m, view.modules[m]);
    }
}

/// Every canonical write lies inside an image of the layout's size, when
/// the layout fits in system ROM.
#[verifier::rlimit(100)]
#[verifier::spinoff_prover]
proof fn lemma_canonical_writes_fit(
    kernel_entry: VirtualAddress,
    kernel: Seq<(KernelSegment, Vec<u8>)>,
    modules: Seq<PackedModule>,
)
    requires
        layout_size(kernel, modules) <= SYSTEM_ROM_SIZE,
    ensures
        writes_fit(canonical_writes(kernel_entry, kernel, modules), layout_size(kernel, modules)),
        64 + 32 * kernel.len() + 32 * modules.len() <= layout_size(kernel, modules),
{
    let size = layout_size(kernel, modules);
    let table = (64 + kernel.len() * 32) as int;
    let names = canonical_names(kernel, modules);
    let tables = canonical_tables(kernel, modules);
    let segments = canonical_segments(kernel, modules);
    let floor = kernel_data_start(kernel, modules);
    let assigned = assigned_kernel(kernel, floor);
    let hw = seq![(0int, header_bytes(canonical_header(kernel_entry, kernel, modules)))];
    let kw = kernel_writes(assigned);
    let mw = module_writes(table, modules, names, tables, segments);
    lemma_canonical_split(kernel_entry, kernel, modules);
    lemma_kernel_writes_index(assigned);
    let ts = tables_start(kernel, modules);
    let counts = segment_counts(modules);
    let lengths = name_lengths(modules);
    lemma_tables_from(ts, counts);
    let tables_end = segment_tables_end(ts, counts);
    lemma_align4(tables_end, tables_end);
    let names_end = names_start(kernel, modules) + total(lengths);
    lemma_align4(names_end, names_end);
    let kl = data_lengths(kernel);
    let totals = modules.map_values(|p: PackedModule| total(data_lengths(p.segments@)));
    assert(size == floor + total(kl) + total(totals));
    assert(ts <= size);
    assert(header_bytes(canonical_header(kernel_entry, kernel, modules)).len() == 64);
    assert forall|k: int| 0 <= k < hw.len() implies #[trigger] write_fits(hw[k], size) by {}
    assert forall|k: int| 0 <= k < kw.len() implies #[trigger] write_fits(kw[k], size) by {
        let i = k / 2;
        assert(kernel_segment_bytes(assigned[i].0).len() == 32);
        if k == 2 * i + 1 && kernel[i].1@.len() != 0 {
            lemma_total_takes(kl, i, kl.len() as int);
            lemma_total_takes(kl, i + 1, kl.len() as int);
            assert(kl.take(kl.len() as int) =~= kl);
            assert(kl[i] == kernel[i].1@.len());
            assert(floor + total(kl.take(i)) <= size);
        }
    }
    let p = |w: (int, Seq<u8>)| write_fits(w, size);
    assert forall|m: int, i: int|
        0 <= m < modules.len() && 0 <= i < module_own_writes(table, modules, names, tables, segments, m).len()
            implies p(#[trigger] module_own_writes(table, modules, names, tables, segments, m)[i]) by {
        lemma_own_in_zones(kernel, modules, m);
        lemma_module_layout_at(kernel, modules, m);
        assert(module_own_writes(table, modules, names, tables, segments, m) == canonical_module_writes(
            kernel,
            modules,
            m,
        ));
        assert(in_module_zones(canonical_module_writes(kernel, modules, m)[i], kernel, modules, m));
    }
    lemma_module_writes_tail(table, modules, names, tables, segments, 0, p);
    assert(modules.take(0) =~= Seq::<PackedModule>::empty());
    assert forall|k: int| 0 <= k < mw.len() implies #[trigger] write_fits(mw[k], size) by {
        assert(p(mw[k]));
    }
    lemma_writes_fit_concat(hw, kw, size);
    lemma_writes_fit_concat(hw + kw, mw, size);
}

/// In the canonical bytes, kernel record `i` holds the `i`-th assigned
/// kernel segment: no later write reaches it.
#[verifier::rlimit(100)]
#[verifier::spinoff_prover]
proof fn lemma_kernel_record_bytes(
    kernel_entry: VirtualAddress,
    kernel: Seq<(KernelSegment, Vec<u8>)>,
    modules: Seq<PackedModule>,
    i: int,
)
    requires
        layout_size(kernel, modules) <= SYSTEM_ROM_SIZE,
        writes_fit(canonical_writes(kernel_entry, kernel, modules), layout_size(kernel, modules)),
        0 <= i < kernel.len(),
    ensures
        record_at(canonical_bytes(kernel_entry, kernel, modules), 64, i, 32) == kernel_segment_bytes(
            assigned_kernel(kernel, kernel_data_start(kernel, modules))[i].0,
        ),
{
    let size = layout_size(kernel, modules);
    let zeros = Seq::new(size as nat, |i: int| 0u8);
    let writes = canonical_writes(kernel_entry, kernel, modules);
    let floor = kernel_data_start(kernel, modules);
    let assigned = assigned_kernel(kernel, floor);
    let nk = kernel.len();
    let lo = (64 + 32 * nk) as int;
    let nm = modules.len();
    let header = canonical_header(kernel_entry, kernel, modules);
    let hw = seq![(0int, header_bytes(header))];
    let kw = kernel_writes(assigned);
    let mw = module_writes(
        lo,
        modules,
        Seq::new(nm, |m: int| name_at(kernel, modules, m) as u32),
        Seq::new(nm, |m: int| segment_table_at(kernel, modules, m) as u32),
        Seq::new(
            nm,
            |m: int| assigned_module_segments(modules[m].segments@, module_data_at(kernel, modules, m)),
        ),
    );
    assert(writes == hw + kw + mw);
    lemma_layout_above_kernel_table(kernel_entry, kernel, modules);
    lemma_kernel_writes_index(assigned);
    lemma_kernel_writes_after(assigned, i);
    let head = hw + kw.take(2 * i + 1);
    let rest = kw.skip(2 * i + 1) + mw;
    assert(writes =~= head + rest);
    assert(head.last() == kw[2 * i]);
    assert(kw[2 * i] == (64 + 32 * i, kernel_segment_bytes(assigned[i].0)));
    assert(kernel_segment_bytes(assigned[i].0).len() == 32);
    assert(write_fits(writes[2 * i + 1], size));
    assert forall|k: int| 0 <= k < rest.len() implies #[trigger] write_misses(rest[k], 64 + 32 * i, 96 + 32 * i) by {
        if k < kw.len() - (2 * i + 1) {
            assert(rest[k] == kw[2 * i + 1 + k]);
        } else {
            assert(rest[k] == mw[k - (kw.len() - (2 * i + 1))]);
            assert(write_above(mw[k - (kw.len() - (2 * i + 1))], lo));
        }
    }
    lemma_write_survives(zeros, head, rest, 64 + 32 * i, 96 + 32 * i);
}

/// A parsed image whose kernel table holds the encodings of valid records
/// has exactly those records as its kernel segments.
#[verifier::rlimit(100)]
#[verifier::spinoff_prover]
proof fn lemma_records_read_back(bytes: Seq<u8>, view: ImageView, records: Seq<KernelSegment>)
    requires
        parse_spec(bytes) == Ok::<ImageView, ImageError>(view),
        view.header.kernel_segment_table_offset == 64,
        view.header.kernel_segment_count == records.len(),
        forall|i: int|
            0 <= i < records.len() ==> kernel_segment_error(#[trigger] records[i]) is None
                && record_at(bytes, 64, i, 32) == kernel_segment_bytes(records[i]),
    ensures
        view.kernel_segments == records,
{
    lemma_parsed_kernel_records(bytes, view);
    assert forall|i: int| 0 <= i < records.len() implies view.kernel_segments[i] == #[trigger] records[i] by {
        lemma_kernel_segment_round_trip(records[i]);
        assert(decode_kernel_segment_spec(record_at(bytes, 64, i, 32)) == Ok::<KernelSegment, PlatformError>(
            view.kernel_segments[i],
        ));
    }
    assert(view.kernel_segments =~= records);
}

/// Packing then parsing gives back the kernel segment table: segment `i`
/// of the parsed canonical image is the `i`-th kernel record with its data
/// offset assigned.
#[verifier::rlimit(100)]
#[verifier::spinoff_prover]
proof fn lemma_kernel_read_back(
    kernel_entry: VirtualAddress,
    kernel: Seq<(KernelSegment, Vec<u8>)>,
    modules: Seq<PackedModule>,
    view: ImageView,
)
    requires
        kernel.len() <= u32::MAX,
        layout_size(kernel, modules) <= SYSTEM_ROM_SIZE,
        writes_fit(canonical_writes(kernel_entry, kernel, modules), layout_size(kernel, modules)),
        forall|i: int|
            0 <= i < kernel.len() ==> kernel_segment_error(
                (#[trigger] assigned_kernel(kernel, kernel_data_start(kernel, modules))[i]).0,
            ) is None,
        parse_spec(canonical_bytes(kernel_entry, kernel, modules)) == Ok::<ImageView, ImageError>(view),
        view.header.kernel_segment_table_offset == 64,
        view.header.kernel_segment_count == kernel.len(),
    ensures
        view.kernel_segments == assigned_kernel(kernel, kernel_data_start(kernel, modules)).map_values(
            |p: (KernelSegment, Vec<u8>)| p.0,
        ),
{
    let bytes = canonical_bytes(kernel_entry, kernel, modules);
    let assigned = assigned_kernel(kernel, kernel_data_start(kernel, modules));
    let records = assigned.map_values(|p: (KernelSegment, Vec<u8>)| p.0);
    assert(records.len() == kernel.len());
    assert forall|i: int| 0 <= i < records.len() implies kernel_segment_error(#[trigger] records[i]) is None
        && record_at(bytes, 64, i, 32) == kernel_segment_bytes(records[i]) by {
        assert(records[i] == assigned[i].0);
        lemma_kernel_record_bytes(kernel_entry, kernel, modules, i);
    }
    lemma_records_read_back(bytes, view, records);
}

/// Whether every offset the packer stores in 32 bits while laying out
/// the image fits there, and the layout's size leaves room to align: the
/// segment table and name offsets of every module and the data offset of
/// every segment with initialized bytes.
pub open spec fn offsets_fit(kernel: Seq<(KernelSegment, Vec<u8>)>, modules: Seq<PackedModule>) -> bool {
    &&& layout_size(kernel, modules) + 3 <= usize::MAX
    &&& forall|m: int| 0 <= m < modules.len() ==> #[trigger] segment_table_at(kernel, modules, m) <= u32::MAX
    &&& forall|m: int| 0 <= m < modules.len() ==> #[trigger] name_at(kernel, modules, m) <= u32::MAX
    &&& forall|i: int|
        0 <= i < kernel.len() && (#[trigger] kernel[i]).1@.len() != 0 ==> kernel_data_start(kernel, modules) + total(
            data_lengths(kernel).take(i),
        ) <= u32::MAX
    &&& forall|m: int, j: int|
        0 <= m < modules.len() && 0 <= j < modules[m].segments@.len() && (#[trigger] modules[m].segments@[j]).1@.len()
            != 0 ==> module_data_at(kernel, modules, m) + total(data_lengths(modules[m].segments@).take(j))
            <= u32::MAX
}

/// What packing gives once the layout fits in system ROM: the refusal of
/// the canonical header if it is invalid, and otherwise the parse of the
/// canonical bytes.
#[verifier::opaque]
pub open spec fn packed_outcome(
    kernel_entry: VirtualAddress,
    kernel: Seq<(KernelSegment, Vec<u8>)>,
    modules: Seq<PackedModule>,
    r: Result<SystemImage>,
) -> bool {
    match header_error(canonical_header(kernel_entry, kernel, modules)) {
        Some(e) => r == Err::<SystemImage, ImageError>(ImageError::Platform(e)),
        None => match parse_spec(canonical_bytes(kernel_entry, kernel, modules)) {
            Ok(view) => r matches Ok(image) && image@ == view,
            Err(e) => r == Err::<SystemImage, ImageError>(e),
        },
    }
}

#[verifier::rlimit(100)]
#[verifier::spinoff_prover]
#[verifier::loop_isolation(false)]
/// Lays out and encodes a canonical image, then parses it back: the
/// header, the kernel segment table, the module table, each module's
/// segment table, the module names and all initialized data, each at the
/// offsets of the canonical layout.
pub fn build_image(
    kernel_entry: VirtualAddress,
    kernel_segments: Vec<(KernelSegment, Vec<u8>)>,
    modules: Vec<PackedModule>,
) -> (r: Result<SystemImage>)
    requires
        forall|i: int| 0 <= i < kernel_segments@.len() ==> kernel_segment_error(#[trigger] kernel_segments@[i].0) is None,
        forall|m: int, j: int|
            0 <= m < modules@.len() && 0 <= j < modules@[m].segments@.len() ==> module_segment_valid(
                (#[trigger] modules@[m].segments@[j]).0,
            ),
    ensures
        layout_size(kernel_segments@, modules@) > SYSTEM_ROM_SIZE ==> r is Err,
        SYSTEM_ROM_SIZE < layout_size(kernel_segments@, modules@) && offsets_fit(kernel_segments@, modules@) ==> r
            == Err::<SystemImage, ImageError>(ImageError::RomOverflow),
        layout_size(kernel_segments@, modules@) <= SYSTEM_ROM_SIZE ==> packed_outcome(
            kernel_entry,
            kernel_segments@,
            modules@,
            r,
        ),
        r matches Ok(image) ==> image.parsed() && image@.bytes.len() == layout_size(
            kernel_segments@,
            modules@,
        ) && image@.header == (ImageHeader {
            image_size: layout_size(kernel_segments@, modules@) as u32,
            kernel_segment_table_offset: 64,
            kernel_segment_count: kernel_segments@.len() as u32,
            module_table_offset: (64 + kernel_segments@.len() * 32) as u32,
            module_count: modules@.len() as u32,
            bootstrap_entry_paddr: PhysicalAddress(BOOTSTRAP_ENTRY_PADDR),
            kernel_entry_vaddr: kernel_entry,
            boot_info_paddr: PhysicalAddress(BOOT_INFO_PADDR),
        }),
        r matches Ok(image) ==> image@.bytes == canonical_bytes(kernel_entry, kernel_segments@, modules@),
        r matches Ok(image) ==> image@.kernel_segments == assigned_kernel(
            kernel_segments@,
            kernel_data_start(kernel_segments@, modules@),
        ).map_values(|p: (KernelSegment, Vec<u8>)| p.0),
        r matches Ok(image) ==> image@.modules.len() == modules@.len() && forall|m: int|
            0 <= m < modules@.len() ==> module_read_back(kernel_segments@, modules@, m, #[trigger] image@.modules[m]),
{
    let ghost kernel_in = kernel_segments@;
    let ghost modules_in = modules@;
    let ghost small = offsets_fit(kernel_in, modules_in);
    proof {
        lemma_layout_bounds(kernel_in, modules_in);
    }
    let mut kernel_segments = kernel_segments;
    let mut modules = modules;
    let nk = kernel_segments.len();
    let nm = modules.len();
    let kernel_table_offset = IMAGE_HEADER_SIZE;
    let module_table_offset = checked_add(kernel_table_offset, checked_mul(nk, KERNEL_SEGMENT_SIZE)?)?;
    let mut cursor = checked_add(module_table_offset, checked_mul(nm, MODULE_RECORD_SIZE)?)?;
    let ghost table_start = cursor as int;
    let ghost counts = segment_counts(modules_in);
    let mut module_segment_offsets: Vec<u32> = Vec::with_capacity(nm);
    let mut m: usize = 0;
    while m < nm
        invariant
            m <= nm,
            nm == modules@.len(),
            modules@ == modules_in,
            counts == segment_counts(modules_in),
            module_segment_offsets@.len() == m,
            cursor == segment_tables_end(table_start, counts.take(m as int)),
            cursor >= 64,
            forall|i: int| 0 <= i < m ==> #[trigger] module_segment_offsets@[i] >= 64,
            table_start == tables_start(kernel_in, modules_in),
            small == offsets_fit(kernel_in, modules_in),
            segment_tables_end(table_start, counts) <= layout_size(kernel_in, modules_in),
            forall|i: int| 0 <= i < m ==> #[trigger] module_segment_offsets@[i] == segment_table_at(
                kernel_in,
                modules_in,
                i,
            ) as u32,
        decreases nm - m,
    {
        proof {
            assert(counts.take(m + 1).drop_last() =~= counts.take(m as int));
            lemma_tables_takes(table_start, counts, m as int, nm as int);
            lemma_tables_takes(table_start, counts, m + 1, nm as int);
            assert(counts.take(nm as int) =~= counts);
            lemma_tables_from(table_start, counts.take(m as int));
            lemma_align4(cursor as int, cursor as int);
            assert(counts[m as int] == modules@[m as int].segments@.len());
            assert(counts.take(m + 1).last() == counts[m as int]);
            assert(segment_tables_end(table_start, counts.take(m + 1)) == align4_spec(cursor as int) + counts[m as int] * 32);
            assert(segment_tables_end(table_start, counts.take(m + 1)) <= layout_size(kernel_in, modules_in));
            assert(align4_spec(cursor as int) == segment_table_at(kernel_in, modules_in, m as int));
        }
        cursor = align4(cursor)?;
        module_segment_offsets.push(size32(cursor, "module segment table offset")?);
        cursor = checked_add(cursor, checked_mul(modules[m].segments.len(), MODULE_SEGMENT_SIZE)?)?;
        m += 1;
    }
    assert(counts.take(nm as int) =~= counts);
    cursor = align4(cursor)?;
    let ghost names_base = cursor as int;
    let ghost lengths = name_lengths(modules_in);
    let mut module_name_offsets: Vec<u32> = Vec::with_capacity(nm);
    let mut m: usize = 0;
    while m < nm
        invariant
            m <= nm,
            nm == modules@.len(),
            modules@ == modules_in,
            lengths == name_lengths(modules_in),
            module_name_offsets@.len() == m,
            cursor == names_base + total(lengths.take(m as int)),
            cursor >= 64,
            forall|i: int| 0 <= i < m ==> #[trigger] module_name_offsets@[i] >= 64,
            module_segment_offsets@.len() == nm,
            forall|i: int| 0 <= i < nm ==> #[trigger] module_segment_offsets@[i] >= 64,
            names_base == names_start(kernel_in, modules_in),
            small == offsets_fit(kernel_in, modules_in),
            names_base + total(lengths) <= layout_size(kernel_in, modules_in),
            forall|i: int| 0 <= i < nm ==> #[trigger] module_segment_offsets@[i] == segment_table_at(
                kernel_in,
                modules_in,
                i,
            ) as u32,
            forall|i: int| 0 <= i < m ==> #[trigger] module_name_offsets@[i] == name_at(
                kernel_in,
                modules_in,
                i,
            ) as u32,
        decreases nm - m,
    {
        proof {
            assert(lengths.take(m + 1).drop_last() =~= lengths.take(m as int));
            lemma_total_takes(lengths, m as int, nm as int);
            lemma_total_takes(lengths, m + 1, nm as int);
            assert(lengths.take(nm as int) =~= lengths);
            assert(lengths[m as int] == modules@[m as int].name@.len());
            assert(cursor + modules@[m as int].name@.len() <= layout_size(kernel_in, modules_in));
            assert(cursor == name_at(kernel_in, modules_in, m as int));
        }
        module_name_offsets.push(size32(cursor, "module name offset")?);
        cursor = checked_add(cursor, modules[m].name.len())?;
        m += 1;
    }
    assert(lengths.take(nm as int) =~= lengths);
    cursor = align4(cursor)?;
    let ghost kernel_floor = cursor as int;
    assert(kernel_floor == kernel_data_start(kernel_in, modules_in));
    assert(kernel_segments@ == kernel_in);
    assert(small ==> (forall|i: int|
        0 <= i < kernel_segments@.len() && (#[trigger] kernel_segments@[i]).1@.len() != 0 ==> cursor + total(
            data_lengths(kernel_segments@).take(i),
        ) <= u32::MAX) && cursor + total(data_lengths(kernel_segments@)) <= usize::MAX) by {
        if small {
            assert forall|i: int|
                0 <= i < kernel_segments@.len() && (#[trigger] kernel_segments@[i]).1@.len() != 0 implies cursor + total(
                    data_lengths(kernel_segments@).take(i),
                ) <= u32::MAX by {
                assert(kernel_in[i].1@.len() != 0);
            }
        }
    }
    assert(layout_size(kernel_in, modules_in) <= SYSTEM_ROM_SIZE ==> (forall|i: int|
        0 <= i < kernel_segments@.len() && (#[trigger] kernel_segments@[i]).1@.len() != 0 ==> cursor + total(
            data_lengths(kernel_segments@).take(i),
        ) <= u32::MAX) && cursor + total(data_lengths(kernel_segments@)) <= usize::MAX) by {
        let n = kernel_segments@.len() as int;
        assert(data_lengths(kernel_segments@).take(n) =~= data_lengths(kernel_segments@));
        assert forall|i: int|
            0 <= i < kernel_segments@.len() && (#[trigger] kernel_segments@[i]).1@.len() != 0 implies cursor + total(
                data_lengths(kernel_segments@).take(i),
            ) <= cursor + total(data_lengths(kernel_segments@)) by {
            lemma_total_takes(data_lengths(kernel_segments@), i, n);
        }
    }
    cursor = match assign_kernel_offsets(&mut kernel_segments, cursor) {
        Ok(end) => end,
        Err(e) => {
            assert(!small);
            assert(layout_size(kernel_in, modules_in) > SYSTEM_ROM_SIZE);
            return Err(e);
        },
    };
    assert(kernel_data_from(kernel_segments@, 64)) by {
        assert forall|i: int|
            0 <= i < kernel_segments@.len() && (#[trigger] kernel_segments@[i]).1@.len() != 0 implies kernel_segments@[i].0.data_offset
            >= 64 by {
            assert(kernel_segments@[i].0.data_offset >= kernel_floor);
        }
    }
    assert(kernel_floor == kernel_data_start(kernel_in, modules_in));
    let ghost data_start = cursor as int;
    assert(data_start + module_data_total(modules_in) == layout_size(kernel_in, modules_in));
    let ghost totals = modules_in.map_values(|p: PackedModule| total(data_lengths(p.segments@)));
    let mut m: usize = 0;
    while m < nm
        invariant
            m <= nm,
            nm == modules@.len(),
            nm == modules_in.len(),
            same_shape(modules@, modules_in),
            totals == modules_in.map_values(|p: PackedModule| total(data_lengths(p.segments@))),
            cursor == data_start + total(totals.take(m as int)),
            cursor >= data_start,
            data_start >= 64,
            data_start == kernel_data_start(kernel_in, modules_in) + total(data_lengths(kernel_in)),
            forall|i: int| 0 <= i < m ==> module_data_from((#[trigger] modules@[i]).segments@, 64),
            forall|i: int| 0 <= i < nm ==> (#[trigger] modules@[i]).entry == modules_in[i].entry,
            forall|i: int| 0 <= i < m ==> (#[trigger] modules@[i]).segments@ == assigned_module_segments(
                modules_in[i].segments@,
                module_data_at(kernel_in, modules_in, i),
            ),
            forall|i: int| m <= i < nm ==> (#[trigger] modules@[i]).segments@ == modules_in[i].segments@,
            kernel_data_from(kernel_segments@, 64),
            kernel_segments@.len() == nk,
            module_name_offsets@.len() == nm,
            forall|i: int| 0 <= i < nm ==> #[trigger] module_name_offsets@[i] >= 64,
            module_segment_offsets@.len() == nm,
            forall|i: int| 0 <= i < nm ==> #[trigger] module_segment_offsets@[i] >= 64,
            small == offsets_fit(kernel_in, modules_in),
            data_start + total(totals) == layout_size(kernel_in, modules_in),
        decreases nm - m,
    {
        proof {
            assert(totals.take(m + 1).drop_last() =~= totals.take(m as int));
            lemma_total_takes(totals, m + 1, nm as int);
            assert(totals.take(nm as int) =~= totals);
            assert(totals[m as int] == total(data_lengths(modules_in[m as int].segments@)));
        }
        let ghost before = modules@;
        let mut module = modules.remove(m);
        let mut segments = Vec::new();
        std::mem::swap(&mut segments, &mut module.segments);
        let ghost floor = cursor as int;
        assert(floor == module_data_at(kernel_in, modules_in, m as int));
        assert(segments@ == modules_in[m as int].segments@);
        assert(cursor + total(data_lengths(segments@)) <= layout_size(kernel_in, modules_in));
        assert(small ==> forall|j: int|
            0 <= j < segments@.len() && (#[trigger] segments@[j]).1@.len() != 0 ==> cursor + total(
                data_lengths(segments@).take(j),
            ) <= u32::MAX) by {
            if small {
                assert forall|j: int|
                    0 <= j < segments@.len() && (#[trigger] segments@[j]).1@.len() != 0 implies cursor + total(
                        data_lengths(segments@).take(j),
                    ) <= u32::MAX by {
                    assert(modules_in[m as int].segments@[j].1@.len() != 0);
                }
            }
        }
        assert(layout_size(kernel_in, modules_in) <= SYSTEM_ROM_SIZE ==> forall|j: int|
            0 <= j < segments@.len() && (#[trigger] segments@[j]).1@.len() != 0 ==> cursor + total(
                data_lengths(segments@).take(j),
            ) <= u32::MAX) by {
            let n = segments@.len() as int;
            assert(data_lengths(segments@).take(n) =~= data_lengths(segments@));
            assert forall|j: int|
                0 <= j < segments@.len() && (#[trigger] segments@[j]).1@.len() != 0 implies cursor + total(
                    data_lengths(segments@).take(j),
                ) <= cursor + total(data_lengths(segments@)) by {
                lemma_total_takes(data_lengths(segments@), j, n);
            }
        }
        cursor = match assign_module_offsets(&mut segments, cursor) {
            Ok(end) => end,
            Err(e) => {
                assert(!small);
                assert(layout_size(kernel_in, modules_in) > SYSTEM_ROM_SIZE);
                return Err(e);
            },
        };
        assert(module_data_from(segments@, 64)) by {
            assert forall|i: int|
                0 <= i < segments@.len() && (#[trigger] segments@[i]).1@.len() != 0 implies segments@[i].0.data_offset
                >= 64 by {
                assert(segments@[i].0.data_offset >= floor);
            }
        }
        module.segments = segments;
        modules.insert(m, module);
        proof {
            assert(modules@ =~= before.update(m as int, module));
            assert(same_shape(modules@, modules_in));
            assert forall|i: int| 0 <= i < m + 1 implies module_data_from(
                (#[trigger] modules@[i]).segments@,
                64,
            ) by {
                if i < m {
                    assert(modules@[i] == before[i]);
                }
            }
        }
        m += 1;
    }
    proof {
        assert(totals.take(nm as int) =~= totals);
        assert(kernel_in.len() == nk);
        assert(modules_in.len() == nm);
    }
    if cursor > MemRegion::SystemRom.size() as usize {
        return Err(ImageError::RomOverflow);
    }
    proof {
        assert forall|i: int| 0 <= i < nm implies (#[trigger] modules@[i]).name@ == modules_in[i].name@
            && modules@[i].entry == modules_in[i].entry && modules@[i].segments@ == assigned_module_segments(
            modules_in[i].segments@,
            module_data_at(kernel_in, modules_in, i),
        ) by {}
        lemma_build_image_writable(
            kernel_entry,
            kernel_in,
            modules_in,
            kernel_segments@,
            modules@,
            module_name_offsets@,
            module_segment_offsets@,
        );
    }
    let header = ImageHeader {
        image_size: size32(cursor, "image size")?,
        kernel_segment_table_offset: size32(kernel_table_offset, "kernel table offset")?,
        kernel_segment_count: size32(nk, "kernel segment count")?,
        module_table_offset: size32(module_table_offset, "module table offset")?,
        module_count: size32(nm, "module count")?,
        bootstrap_entry_paddr: PhysicalAddress::new(BOOTSTRAP_ENTRY_PADDR),
        kernel_entry_vaddr: kernel_entry,
        boot_info_paddr: PhysicalAddress::new(BOOT_INFO_PADDR),
    };
    let mut bytes: Vec<u8> = Vec::with_capacity(cursor);
    bytes.resize(cursor, 0u8);
    let ghost zeros = bytes@;
    assert(zeros =~= Seq::new(cursor as nat, |i: int| 0u8));
    assert(cursor == layout_size(kernel_in, modules_in));
    assert(header == canonical_header(kernel_entry, kernel_in, modules_in));
    let encoded = match header.encode() {
        Ok(encoded) => encoded,
        Err(e) => {
            assert(packed_outcome(kernel_entry, kernel_in, modules_in, Err(ImageError::Platform(e)))) by {
                reveal(packed_outcome);
            }
            return Err(ImageError::Platform(e));
        },
    };
    copy_data(&mut bytes, 0, encoded.as_slice())?;
    let ghost expected = header_bytes(header);
    assert(bytes@.subrange(0, 64) =~= expected);
    let ghost header_written = bytes@;
    write_kernel_table(&mut bytes, &kernel_segments)?;
    let ghost kernel_written = bytes@;
    write_module_table(&mut bytes, module_table_offset, &modules, &module_name_offsets, &module_segment_offsets)?;
    proof {
        assert(bytes@.subrange(0, 64) =~= expected);
        assert(expected.subrange(0, 64) =~= expected);
        lemma_header_round_trip(header);
        lemma_header_prefix(bytes@, expected);
        lemma_build_image_writes(
            kernel_entry,
            kernel_in,
            modules_in,
            header,
            kernel_segments@,
            modules@,
            module_name_offsets@,
            module_segment_offsets@,
            zeros,
            header_written,
            kernel_written,
            bytes@,
        );
    }
    assert(bytes@ == canonical_bytes(kernel_entry, kernel_in, modules_in));
    let image = match SystemImage::parse(bytes.as_slice()) {
        Ok(image) => image,
        Err(e) => {
            assert(packed_outcome(kernel_entry, kernel_in, modules_in, Err(e))) by {
                reveal(packed_outcome);
            }
            return Err(e);
        },
    };
    assert(packed_outcome(kernel_entry, kernel_in, modules_in, Ok(image))) by {
        reveal(packed_outcome);
    }
    proof {
        lemma_kernel_read_back(kernel_entry, kernel_in, modules_in, image@);
        assert forall|i: int, j: int|
            0 <= i < modules_in.len() && 0 <= j < modules_in[i].segments@.len() implies module_segment_valid(
                (#[trigger] canonical_segments(kernel_in, modules_in)[i][j]).0,
            ) by {
            assert(canonical_segments(kernel_in, modules_in)[i] == modules@[i].segments@);
            assert(module_segment_valid(modules@[i].segments@[j].0));
        }
        lemma_module_read_back(kernel_entry, kernel_in, modules_in, image@);
    }
    Ok(image)
}

/// Writes that fit an image as one run fit it as two.
proof fn lemma_writes_fit_parts(first: Seq<(int, Seq<u8>)>, then: Seq<(int, Seq<u8>)>, size: int)
    requires
        writes_fit(first + then, size),
    ensures
        writes_fit(first, size),
        writes_fit(then, size),
{
    let all = first + then;
    assert forall|k: int| 0 <= k < first.len() implies #[trigger] write_fits(first[k], size) by {
        assert(all[k] == first[k]);
    }
    assert forall|k: int| 0 <= k < then.len() implies #[trigger] write_fits(then[k], size) by {
        assert(all[first.len() + k] == then[k]);
    }
}

/// Where the canonical layout lies: the tables after the header, then the
/// names, the kernel's data and the modules' data, up to the layout's end.
proof fn lemma_layout_bounds(kernel: Seq<(KernelSegment, Vec<u8>)>, modules: Seq<PackedModule>)
    ensures
        tables_start(kernel, modules) == 64 + 32 * kernel.len() + 32 * modules.len(),
        tables_start(kernel, modules) <= segment_tables_end(tables_start(kernel, modules), segment_counts(modules)),
        segment_tables_end(tables_start(kernel, modules), segment_counts(modules)) <= names_start(kernel, modules),
        names_start(kernel, modules) + total(name_lengths(modules)) <= kernel_data_start(kernel, modules),
        kernel_data_start(kernel, modules) + total(data_lengths(kernel)) + module_data_total(modules)
            == layout_size(kernel, modules),
{
    let ts = tables_start(kernel, modules);
    let counts = segment_counts(modules);
    lemma_tables_from(ts, counts);
    let tables_end = segment_tables_end(ts, counts);
    lemma_align4(tables_end, tables_end);
    let names_end = names_start(kernel, modules) + total(name_lengths(modules));
    lemma_align4(names_end, names_end);
}

/// The module writes `build_image` makes are the canonical ones.
proof fn lemma_actual_module_writes(
    kernel_in: Seq<(KernelSegment, Vec<u8>)>,
    modules_in: Seq<PackedModule>,
    modules: Seq<PackedModule>,
    names: Seq<u32>,
    tables: Seq<u32>,
)
    requires
        modules.len() == modules_in.len(),
        names.len() == modules_in.len(),
        tables.len() == modules_in.len(),
        forall|i: int| 0 <= i < modules.len() ==> (#[trigger] modules[i]).name@ == modules_in[i].name@
            && modules[i].entry == modules_in[i].entry && modules[i].segments@
            == assigned_module_segments(modules_in[i].segments@, module_data_at(kernel_in, modules_in, i)),
        forall|i: int| 0 <= i < names.len() ==> #[trigger] names[i] == name_at(kernel_in, modules_in, i) as u32,
        forall|i: int| 0 <= i < tables.len() ==> #[trigger] tables[i] == segment_table_at(kernel_in, modules_in, i) as u32,
    ensures
        module_writes(
            (64 + kernel_in.len() * 32) as int,
            modules,
            names,
            tables,
            modules.map_values(|p: PackedModule| p.segments@),
        ) == canonical_module_table_writes(kernel_in, modules_in),
{
    let table = (64 + kernel_in.len() * 32) as int;
    assert(names =~= canonical_names(kernel_in, modules_in));
    assert(tables =~= canonical_tables(kernel_in, modules_in));
    assert(modules.map_values(|p: PackedModule| p.segments@) =~= canonical_segments(kernel_in, modules_in));
    lemma_module_writes_shape(table, modules, modules_in, names, tables, canonical_segments(kernel_in, modules_in));
}

/// Once the layout fits in system ROM, the records `build_image` writes
/// are valid and every write it makes fits the image.
#[verifier::rlimit(100)]
#[verifier::spinoff_prover]
proof fn lemma_build_image_writable(
    kernel_entry: VirtualAddress,
    kernel_in: Seq<(KernelSegment, Vec<u8>)>,
    modules_in: Seq<PackedModule>,
    kernel: Seq<(KernelSegment, Vec<u8>)>,
    modules: Seq<PackedModule>,
    names: Seq<u32>,
    tables: Seq<u32>,
)
    requires
        layout_size(kernel_in, modules_in) <= SYSTEM_ROM_SIZE,
        kernel == assigned_kernel(kernel_in, kernel_data_start(kernel_in, modules_in)),
        forall|i: int| 0 <= i < kernel_in.len() ==> kernel_segment_error(#[trigger] kernel_in[i].0) is None,
        forall|m: int, j: int|
            0 <= m < modules_in.len() && 0 <= j < modules_in[m].segments@.len() ==> module_segment_valid(
                (#[trigger] modules_in[m].segments@[j]).0,
            ),
        modules.len() == modules_in.len(),
        names.len() == modules_in.len(),
        tables.len() == modules_in.len(),
        forall|i: int| 0 <= i < modules.len() ==> (#[trigger] modules[i]).name@ == modules_in[i].name@
            && modules[i].entry == modules_in[i].entry && modules[i].segments@
            == assigned_module_segments(modules_in[i].segments@, module_data_at(kernel_in, modules_in, i)),
        forall|i: int| 0 <= i < names.len() ==> #[trigger] names[i] == name_at(kernel_in, modules_in, i) as u32,
        forall|i: int| 0 <= i < tables.len() ==> #[trigger] tables[i] == segment_table_at(kernel_in, modules_in, i) as u32,
    ensures
        forall|i: int| 0 <= i < kernel.len() ==> kernel_segment_error(#[trigger] kernel[i].0) is None,
        writes_fit(kernel_writes(kernel), layout_size(kernel_in, modules_in)),
        64 + 32 * kernel.len() <= u32::MAX,
        module_table_writable(
            (64 + 32 * kernel_in.len()) as int,
            modules,
            names,
            tables,
            layout_size(kernel_in, modules_in),
        ),
{
    lemma_canonical_writes_fit(kernel_entry, kernel_in, modules_in);
    lemma_canonical_split(kernel_entry, kernel_in, modules_in);
    let size = layout_size(kernel_in, modules_in);
    let hw = seq![(0int, header_bytes(canonical_header(kernel_entry, kernel_in, modules_in)))];
    let kw = kernel_writes(kernel);
    let mw = canonical_module_table_writes(kernel_in, modules_in);
    lemma_writes_fit_parts(hw + kw, mw, size);
    lemma_writes_fit_parts(hw, kw, size);
    assert forall|i: int| 0 <= i < kernel.len() implies kernel_segment_error(#[trigger] kernel[i].0) is None by {
        assert(kernel_segment_error(kernel_in[i].0) is None);
    }
    assert forall|i: int, j: int|
        0 <= i < modules.len() && 0 <= j < modules[i].segments@.len() implies module_segment_valid(
            (#[trigger] modules[i].segments@[j]).0,
        ) by {
        assert(module_segment_valid(modules_in[i].segments@[j].0));
    }
    lemma_actual_module_writes(kernel_in, modules_in, modules, names, tables);
    assert forall|i: int| 0 <= i < modules.len() implies (#[trigger] modules[i]).name@.len() <= u32::MAX
        && modules[i].segments@.len() <= u32::MAX && tables[i] + 32 * modules[i].segments@.len() <= u32::MAX by {
        lemma_module_layout_at(kernel_in, modules_in, i);
        lemma_tables_from(tables_start(kernel_in, modules_in), segment_counts(modules_in).take(i));
        lemma_align4(
            segment_tables_end(tables_start(kernel_in, modules_in), segment_counts(modules_in).take(i)),
            segment_tables_end(tables_start(kernel_in, modules_in), segment_counts(modules_in).take(i)),
        );
    }
}

/// The writes `build_image` makes are the canonical ones.
proof fn lemma_build_image_writes(
    kernel_entry: VirtualAddress,
    kernel_in: Seq<(KernelSegment, Vec<u8>)>,
    modules_in: Seq<PackedModule>,
    header: ImageHeader,
    kernel: Seq<(KernelSegment, Vec<u8>)>,
    modules: Seq<PackedModule>,
    names: Seq<u32>,
    tables: Seq<u32>,
    zeros: Seq<u8>,
    header_written: Seq<u8>,
    kernel_written: Seq<u8>,
    done: Seq<u8>,
)
    requires
        header == canonical_header(kernel_entry, kernel_in, modules_in),
        zeros == Seq::new(layout_size(kernel_in, modules_in) as nat, |i: int| 0u8),
        header_written == apply_write(zeros, (0int, header_bytes(header))),
        kernel == assigned_kernel(kernel_in, kernel_data_start(kernel_in, modules_in)),
        kernel_written == apply_writes(header_written, kernel_writes(kernel)),
        modules.len() == modules_in.len(),
        names.len() == modules_in.len(),
        tables.len() == modules_in.len(),
        forall|i: int| 0 <= i < modules.len() ==> (#[trigger] modules[i]).name@ == modules_in[i].name@
            && modules[i].entry == modules_in[i].entry && modules[i].segments@
            == assigned_module_segments(modules_in[i].segments@, module_data_at(kernel_in, modules_in, i)),
        forall|i: int| 0 <= i < names.len() ==> #[trigger] names[i] == name_at(kernel_in, modules_in, i) as u32,
        forall|i: int| 0 <= i < tables.len() ==> #[trigger] tables[i] == segment_table_at(kernel_in, modules_in, i) as u32,
        done == apply_writes(
            kernel_written,
            module_writes(
                (64 + kernel_in.len() * 32) as int,
                modules,
                names,
                tables,
                modules.map_values(|p: PackedModule| p.segments@),
            ),
        ),
        64 <= layout_size(kernel_in, modules_in),
        writes_fit(kernel_writes(kernel), zeros.len() as int),
        writes_fit(
            module_writes(
                (64 + kernel_in.len() * 32) as int,
                modules,
                names,
                tables,
                modules.map_values(|p: PackedModule| p.segments@),
            ),
            zeros.len() as int,
        ),
    ensures
        done == canonical_bytes(kernel_entry, kernel_in, modules_in),
        writes_fit(canonical_writes(kernel_entry, kernel_in, modules_in), layout_size(kernel_in, modules_in)),
{
    let nm = modules_in.len();
    let canonical_names = Seq::new(nm, |m: int| name_at(kernel_in, modules_in, m) as u32);
    let canonical_tables = Seq::new(nm, |m: int| segment_table_at(kernel_in, modules_in, m) as u32);
    let canonical_segments = Seq::new(
        nm,
        |m: int| assigned_module_segments(modules_in[m].segments@, module_data_at(kernel_in, modules_in, m)),
    );
    assert(names =~= canonical_names);
    assert(tables =~= canonical_tables);
    assert(modules.map_values(|p: PackedModule| p.segments@) =~= canonical_segments);
    let table = (64 + kernel_in.len() * 32) as int;
    lemma_module_writes_shape(table, modules, modules_in, names, tables, canonical_segments);
    let hw = seq![(0int, header_bytes(header))];
    let kw = kernel_writes(kernel);
    let mw = module_writes(table, modules_in, canonical_names, canonical_tables, canonical_segments);
    assert(hw.drop_last() =~= Seq::<(int, Seq<u8>)>::empty());
    assert(apply_writes(zeros, Seq::<(int, Seq<u8>)>::empty()) == zeros);
    assert(apply_writes(zeros, hw) == header_written);
    lemma_apply_writes_append(zeros, hw, kw);
    lemma_apply_writes_append(zeros, hw + kw, mw);
    assert(canonical_writes(kernel_entry, kernel_in, modules_in) == hw + kw + mw);
    let size = zeros.len() as int;
    assert(size == layout_size(kernel_in, modules_in));
    assert(module_writes(table, modules, names, tables, modules.map_values(|p: PackedModule| p.segments@)) == mw);
    assert(write_fits(hw[0], size));
    lemma_writes_fit_concat(hw, kw, size);
    lemma_writes_fit_concat(hw + kw, mw, size);
}

/// Two runs of writes that fit an image make one run that fits it.
proof fn lemma_writes_fit_concat(first: Seq<(int, Seq<u8>)>, then: Seq<(int, Seq<u8>)>, size: int)
    requires
        writes_fit(first, size),
        writes_fit(then, size),
    ensures
        writes_fit(first + then, size),
{
    let all = first + then;
    assert forall|k: int| 0 <= k < all.len() implies #[trigger] write_fits(all[k], size) by {
        if k < first.len() {
            assert(all[k] == first[k]);
        } else {
            assert(all[k] == then[k - first.len()]);
        }
    }
}

} // verus!
