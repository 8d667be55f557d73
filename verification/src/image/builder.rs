use vstd::prelude::*;

use crate::platform::address::{PhysicalAddress, VirtualAddress};
use crate::platform::image::{KernelSegment, ModuleSegment};
use crate::platform::mmap::{MemRegion, direct_map_physical};

use vstd::utf8::encode_utf8;

use crate::platform::error::PlatformError;
use crate::platform::image::{kernel_segment_error, module_segment_valid};
use crate::platform::mmap::{in_direct_map, RAM_BASE, RAM_SIZE, SYSTEM_ROM_SIZE};
use crate::platform::address::{PhysicalRange};

use super::elf::{ElfSegment, ElfSegmentView, elf_segment_view, parse_elf, parse_elf_spec};
use super::pack::{
    ModuleParts, kernel_parts, module_parts, modules_parts, packed_bytes, packed_layout_size, packed_offsets_fit, packed_outcome, packed_result,
    segment_parts, lemma_packed_bytes,
};
use super::validation::{kernel_records_error, module_records_error};
use super::error::{ImageError, Result};
use super::format::SystemImage;
use super::pack::{PackedModule, build_image};
use super::validation::{validate_kernel_segments, validate_module_segments};

verus! {

broadcast use vstd::seq_lib::group_to_multiset_ensures;

/// Whether `a` is at most `b` in lexicographic byte order.
pub open spec fn lex_le(a: Seq<u8>, b: Seq<u8>) -> bool
    decreases a.len(),
{
    if a.len() == 0 {
        true
    } else if b.len() == 0 {
        false
    } else if a[0] < b[0] {
        true
    } else if a[0] > b[0] {
        false
    } else {
        lex_le(a.drop_first(), b.drop_first())
    }
}

/// Lexicographic order is total.
pub proof fn lemma_lex_total(a: Seq<u8>, b: Seq<u8>)
    ensures
        lex_le(a, b) || lex_le(b, a),
    decreases a.len(),
{
    if a.len() > 0 && b.len() > 0 && a[0] == b[0] {
        lemma_lex_total(a.drop_first(), b.drop_first());
    }
}

/// Lexicographic order is transitive.
pub proof fn lemma_lex_transitive(a: Seq<u8>, b: Seq<u8>, c: Seq<u8>)
    requires
        lex_le(a, b),
        lex_le(b, c),
    ensures
        lex_le(a, c),
    decreases a.len(),
{
    if a.len() > 0 && b.len() > 0 && c.len() > 0 && a[0] == b[0] && b[0] == c[0] {
        lemma_lex_transitive(a.drop_first(), b.drop_first(), c.drop_first());
    }
}

/// Lexicographic order is antisymmetric.
pub proof fn lemma_lex_antisymmetric(a: Seq<u8>, b: Seq<u8>)
    requires
        lex_le(a, b),
        lex_le(b, a),
    ensures
        a == b,
    decreases a.len(),
{
    if a.len() > 0 && b.len() > 0 {
        lemma_lex_antisymmetric(a.drop_first(), b.drop_first());
        assert(a =~= seq![a[0]] + a.drop_first());
        assert(b =~= seq![b[0]] + b.drop_first());
    }
}

/// Compares two byte strings lexicographically.
fn lex_less_equal(a: &[u8], b: &[u8]) -> (r: bool)
    ensures
        r == lex_le(a@, b@),
{
    let n = a.len();
    let m = b.len();
    let mut i: usize = 0;
    assert(a@.skip(0) =~= a@);
    assert(b@.skip(0) =~= b@);
    while i < n && i < m
        invariant
            i <= n,
            i <= m,
            n == a@.len(),
            m == b@.len(),
            lex_le(a@, b@) == lex_le(a@.skip(i as int), b@.skip(i as int)),
        decreases n - i,
    {
        if a[i] < b[i] {
            return true;
        }
        if a[i] > b[i] {
            return false;
        }
        assert(a@.skip(i as int).drop_first() =~= a@.skip(i + 1));
        assert(b@.skip(i as int).drop_first() =~= b@.skip(i + 1));
        i += 1;
    }
    i == n
}

/// `s` with `x` placed after every element ordered at or before it.
pub open spec fn insert_ordered<T>(s: Seq<T>, x: T, le: spec_fn(T, T) -> bool) -> Seq<T>
    decreases s.len(),
{
    if s.len() == 0 {
        seq![x]
    } else if le(s.last(), x) {
        s.push(x)
    } else {
        insert_ordered(s.drop_last(), x, le).push(s.last())
    }
}

/// `s` stably sorted by `le`: elements ordered alike keep their order.
pub open spec fn sort_by<T>(s: Seq<T>, le: spec_fn(T, T) -> bool) -> Seq<T>
    decreases s.len(),
{
    if s.len() == 0 {
        s
    } else {
        insert_ordered(sort_by(s.drop_last(), le), s.last(), le)
    }
}

/// Inserting into an ordered sequence places the element just before the
/// first element not ordered at or before it.
pub(crate) proof fn lemma_insert_ordered<T>(s: Seq<T>, x: T, le: spec_fn(T, T) -> bool, p: int)
    requires
        0 <= p <= s.len(),
        forall|i: int, j: int| 0 <= i < j < s.len() ==> #[trigger] le(s[i], s[j]),
        forall|a: T, b: T, c: T| #[trigger] le(a, b) && #[trigger] le(b, c) ==> le(a, c),
        forall|i: int| 0 <= i < p ==> #[trigger] le(s[i], x),
        p < s.len() ==> !le(s[p], x),
    ensures
        insert_ordered(s, x, le) == s.insert(p, x),
    decreases s.len(),
{
    if s.len() == 0 {
        assert(s.insert(p, x) =~= seq![x]);
    } else if le(s.last(), x) {
        if p < s.len() {
            assert(le(s[p], s[s.len() - 1]));
        }
        assert(s.insert(p, x) =~= s.push(x));
    } else {
        assert(p < s.len());
        let rest = s.drop_last();
        if p < rest.len() {
            assert(rest[p] == s[p]);
        }
        lemma_insert_ordered(rest, x, le, p);
        assert(rest.insert(p, x).push(s.last()) =~= s.insert(p, x));
    }
}

/// Inserting keeps a property that the element and every element of the
/// sequence have.
proof fn lemma_insert_ordered_all<T>(s: Seq<T>, x: T, le: spec_fn(T, T) -> bool, p: spec_fn(T) -> bool)
    requires
        p(x),
        forall|i: int| 0 <= i < s.len() ==> #[trigger] p(s[i]),
    ensures
        insert_ordered(s, x, le).len() == s.len() + 1,
        forall|i: int| 0 <= i < insert_ordered(s, x, le).len() ==> #[trigger] p(insert_ordered(s, x, le)[i]),
    decreases s.len(),
{
    if s.len() > 0 && !le(s.last(), x) {
        let rest = s.drop_last();
        assert forall|i: int| 0 <= i < rest.len() implies #[trigger] p(rest[i]) by {
            assert(rest[i] == s[i]);
        }
        lemma_insert_ordered_all(rest, x, le, p);
        let t = insert_ordered(rest, x, le);
        assert forall|i: int| 0 <= i < t.push(s.last()).len() implies #[trigger] p(t.push(s.last())[i]) by {
            if i < t.len() {
                assert(t.push(s.last())[i] == t[i]);
            }
        }
    } else if s.len() > 0 {
        assert forall|i: int| 0 <= i < s.push(x).len() implies #[trigger] p(s.push(x)[i]) by {
            if i < s.len() {
                assert(s.push(x)[i] == s[i]);
            }
        }
    }
}

/// Sorting keeps a property that every element has.
pub(crate) proof fn lemma_sort_by_all<T>(s: Seq<T>, le: spec_fn(T, T) -> bool, p: spec_fn(T) -> bool)
    requires
        forall|i: int| 0 <= i < s.len() ==> #[trigger] p(s[i]),
    ensures
        sort_by(s, le).len() == s.len(),
        forall|i: int| 0 <= i < sort_by(s, le).len() ==> #[trigger] p(sort_by(s, le)[i]),
    decreases s.len(),
{
    if s.len() > 0 {
        let rest = s.drop_last();
        assert forall|i: int| 0 <= i < rest.len() implies #[trigger] p(rest[i]) by {
            assert(rest[i] == s[i]);
        }
        lemma_sort_by_all(rest, le, p);
        lemma_insert_ordered_all(sort_by(rest, le), s.last(), le, p);
    }
}

/// Every kernel record of ELF segments is ABI-valid.
proof fn lemma_kernel_records_valid(segments: Seq<ElfSegmentView>)
    requires
        kernel_records_spec(segments) is Ok,
    ensures
        forall|i: int|
            0 <= i < kernel_records_spec(segments)->Ok_0.len() ==> kernel_segment_error(
                (#[trigger] kernel_records_spec(segments)->Ok_0[i]).0,
            ) is None,
    decreases segments.len(),
{
    if segments.len() > 0 {
        lemma_kernel_records_valid(segments.drop_last());
        let done = kernel_records_spec(segments.drop_last())->Ok_0;
        let all = kernel_records_spec(segments)->Ok_0;
        assert forall|i: int| 0 <= i < all.len() implies kernel_segment_error((#[trigger] all[i]).0) is None by {
            if i < done.len() {
                assert(all[i] == done[i]);
            }
        }
    }
}

/// Every module segment record of ELF segments is valid.
proof fn lemma_module_records_valid(segments: Seq<ElfSegmentView>)
    requires
        module_records_spec(segments) is Ok,
    ensures
        forall|i: int|
            0 <= i < module_records_spec(segments)->Ok_0.len() ==> module_segment_valid(
                (#[trigger] module_records_spec(segments)->Ok_0[i]).0,
            ),
    decreases segments.len(),
{
    if segments.len() > 0 {
        lemma_module_records_valid(segments.drop_last());
        let done = module_records_spec(segments.drop_last())->Ok_0;
        let all = module_records_spec(segments)->Ok_0;
        assert forall|i: int| 0 <= i < all.len() implies module_segment_valid((#[trigger] all[i]).0) by {
            if i < done.len() {
                assert(all[i] == done[i]);
            }
        }
    }
}

/// Whether every segment of a packed module is valid.
pub open spec fn parts_segments_valid(m: ModuleParts) -> bool {
    forall|j: int| 0 <= j < m.segments.len() ==> module_segment_valid((#[trigger] m.segments[j]).0)
}

/// Every segment of every packed module input is valid.
proof fn lemma_pack_modules_valid(inputs: Seq<(Seq<char>, Seq<u8>)>)
    requires
        pack_modules_spec(inputs) is Ok,
    ensures
        forall|m: int|
            0 <= m < pack_modules_spec(inputs)->Ok_0.len() ==> parts_segments_valid(
                #[trigger] pack_modules_spec(inputs)->Ok_0[m],
            ),
    decreases inputs.len(),
{
    if inputs.len() > 0 {
        lemma_pack_modules_valid(inputs.drop_last());
        let done = pack_modules_spec(inputs.drop_last())->Ok_0;
        let all = pack_modules_spec(inputs)->Ok_0;
        let (name, elf) = inputs.last();
        let segments = parse_elf_spec(elf)->Ok_0.1;
        lemma_module_records_valid(segments);
        let records = module_records_spec(segments)->Ok_0;
        let p = |q: (ModuleSegment, Seq<u8>)| module_segment_valid(q.0);
        assert forall|i: int| 0 <= i < records.len() implies #[trigger] p(records[i]) by {}
        lemma_sort_by_all(records, segment_part_le(), p);
        assert forall|m: int| 0 <= m < all.len() implies parts_segments_valid(#[trigger] all[m]) by {
            if m < done.len() {
                assert(all[m] == done[m]);
            } else {
                let sorted = sort_by(records, segment_part_le());
                assert forall|j: int| 0 <= j < all[m].segments.len() implies module_segment_valid(
                    (#[trigger] all[m].segments[j]).0,
                ) by {
                    assert(p(sorted[j]));
                }
            }
        }
    }
}

/// The records the builder packs are valid: every kernel segment and
/// every module segment.
proof fn lemma_build_inputs_valid(
    views: Seq<ElfSegmentView>,
    records: Seq<(KernelSegment, Seq<u8>)>,
    parts: Seq<(Seq<char>, Seq<u8>)>,
    module_list: Seq<ModuleParts>,
    final_kernel: Seq<(KernelSegment, Vec<u8>)>,
    final_modules: Seq<PackedModule>,
)
    requires
        kernel_records_spec(views) == Ok::<Seq<(KernelSegment, Seq<u8>)>, ImageError>(records),
        kernel_parts(final_kernel) == sort_by(records, kernel_part_le()),
        pack_modules_spec(parts) == Ok::<Seq<ModuleParts>, ImageError>(module_list),
        modules_parts(final_modules) == sort_by(module_list, module_part_le()),
    ensures
        forall|i: int| 0 <= i < final_kernel.len() ==> kernel_segment_error(#[trigger] final_kernel[i].0) is None,
        forall|m: int, j: int|
            0 <= m < final_modules.len() && 0 <= j < final_modules[m].segments@.len() ==> module_segment_valid(
                (#[trigger] final_modules[m].segments@[j]).0,
            ),
{
    lemma_kernel_records_valid(views);
    let kp = |q: (KernelSegment, Seq<u8>)| kernel_segment_error(q.0) is None;
    assert forall|i: int| 0 <= i < records.len() implies #[trigger] kp(records[i]) by {}
    lemma_sort_by_all(records, kernel_part_le(), kp);
    assert forall|i: int| 0 <= i < final_kernel.len() implies kernel_segment_error(
        #[trigger] final_kernel[i].0,
    ) is None by {
        assert(kernel_parts(final_kernel)[i].0 == final_kernel[i].0);
        assert(kp(sort_by(records, kernel_part_le())[i]));
    }
    lemma_pack_modules_valid(parts);
    let mp = |q: ModuleParts| parts_segments_valid(q);
    assert forall|i: int| 0 <= i < module_list.len() implies #[trigger] mp(module_list[i]) by {
        assert(parts_segments_valid(pack_modules_spec(parts)->Ok_0[i]));
    }
    lemma_sort_by_all(module_list, module_part_le(), mp);
    assert forall|m: int, j: int|
        0 <= m < final_modules.len() && 0 <= j < final_modules[m].segments@.len() implies module_segment_valid(
            (#[trigger] final_modules[m].segments@[j]).0,
        ) by {
        let part = module_parts(final_modules[m]);
        assert(modules_parts(final_modules)[m] == part);
        assert(mp(sort_by(module_list, module_part_le())[m]));
        assert(parts_segments_valid(part));
        assert(part.segments.len() == final_modules[m].segments@.len());
        assert(part.segments[j].0 == final_modules[m].segments@[j].0);
        assert(module_segment_valid(part.segments[j].0));
    }
}

/// Sorting commutes with a map that preserves the order.
proof fn lemma_sort_by_map<T, V>(s: Seq<T>, le: spec_fn(T, T) -> bool, lev: spec_fn(V, V) -> bool, f: spec_fn(T) -> V)
    requires
        forall|a: T, b: T| #[trigger] le(a, b) == lev(f(a), f(b)),
    ensures
        sort_by(s, le).map_values(f) == sort_by(s.map_values(f), lev),
    decreases s.len(),
{
    if s.len() > 0 {
        assert(s.map_values(f).drop_last() =~= s.drop_last().map_values(f));
        lemma_sort_by_map(s.drop_last(), le, lev, f);
        lemma_insert_ordered_map(sort_by(s.drop_last(), le), s.last(), le, lev, f);
    }
}

/// Inserting commutes with a map that preserves the order.
proof fn lemma_insert_ordered_map<T, V>(
    s: Seq<T>,
    x: T,
    le: spec_fn(T, T) -> bool,
    lev: spec_fn(V, V) -> bool,
    f: spec_fn(T) -> V,
)
    requires
        forall|a: T, b: T| #[trigger] le(a, b) == lev(f(a), f(b)),
    ensures
        insert_ordered(s, x, le).map_values(f) == insert_ordered(s.map_values(f), f(x), lev),
    decreases s.len(),
{
    if s.len() == 0 {
        assert(seq![x].map_values(f) =~= seq![f(x)]);
    } else {
        assert(s.map_values(f).last() == f(s.last()));
        assert(s.map_values(f).drop_last() =~= s.drop_last().map_values(f));
        assert(le(s.last(), x) == lev(f(s.last()), f(x)));
        if le(s.last(), x) {
            assert(s.push(x).map_values(f) =~= s.map_values(f).push(f(x)));
        } else {
            lemma_insert_ordered_map(s.drop_last(), x, le, lev, f);
            assert(insert_ordered(s.drop_last(), x, le).push(s.last()).map_values(f) =~= insert_ordered(
                s.drop_last(),
                x,
                le,
            ).map_values(f).push(f(s.last())));
        }
    }
}

/// Module segments ordered by virtual address.
pub open spec fn module_segment_le() -> spec_fn((ModuleSegment, Vec<u8>), (ModuleSegment, Vec<u8>)) -> bool {
    |a: (ModuleSegment, Vec<u8>), b: (ModuleSegment, Vec<u8>)| a.0.virtual_address.0 <= b.0.virtual_address.0
}

/// Modules ordered by name.
pub open spec fn module_le() -> spec_fn(PackedModule, PackedModule) -> bool {
    |a: PackedModule, b: PackedModule| lex_le(a.name@, b.name@)
}

/// Kernel segments ordered by virtual address.
pub open spec fn kernel_le() -> spec_fn((KernelSegment, Vec<u8>), (KernelSegment, Vec<u8>)) -> bool {
    |a: (KernelSegment, Vec<u8>), b: (KernelSegment, Vec<u8>)| a.0.virtual_address.0 <= b.0.virtual_address.0
}

/// The kernel table record of an ELF segment: identity-mapped when it
/// lies in RAM, else translated through the kernel direct map.
pub open spec fn kernel_record_spec(s: ElfSegmentView) -> Result<KernelSegment> {
    let physical: Result<u32> = if RAM_BASE <= s.address < RAM_BASE + RAM_SIZE {
        Ok(s.address)
    } else if in_direct_map(s.address as int) {
        Ok((s.address - 0x8000_0000) as u32)
    } else {
        Err(ImageError::Platform(PlatformError::AddressOutsideRam(s.address)))
    };
    match physical {
        Err(e) => Err(e),
        Ok(p) => if s.bytes.len() > u32::MAX {
            Err(ImageError::InvalidElf("kernel segment size"))
        } else {
            let record = KernelSegment {
                data_offset: 0,
                physical_address: PhysicalAddress(p),
                virtual_address: VirtualAddress(s.address),
                file_size: s.bytes.len() as u32,
                memory_size: s.memory_size,
                flags: s.flags,
            };
            match kernel_segment_error(record) {
                Some(e) => Err(ImageError::Platform(e)),
                None => Ok(record),
            }
        },
    }
}

/// The kernel table records of ELF segments with their bytes, in order,
/// or the refusal of the first segment refused.
pub open spec fn kernel_records_spec(segments: Seq<ElfSegmentView>) -> Result<Seq<(KernelSegment, Seq<u8>)>>
    decreases segments.len(),
{
    if segments.len() == 0 {
        Ok(Seq::empty())
    } else {
        match kernel_records_spec(segments.drop_last()) {
            Err(e) => Err(e),
            Ok(done) => match kernel_record_spec(segments.last()) {
                Err(e) => Err(e),
                Ok(record) => Ok(done.push((record, segments.last().bytes))),
            },
        }
    }
}

/// The module segment record of an ELF segment.
pub open spec fn module_record_spec(s: ElfSegmentView) -> Result<ModuleSegment> {
    if s.bytes.len() > u32::MAX {
        Err(ImageError::InvalidElf("module segment size"))
    } else {
        let record = ModuleSegment {
            data_offset: 0,
            virtual_address: VirtualAddress(s.address),
            file_size: s.bytes.len() as u32,
            memory_size: s.memory_size,
            flags: s.flags,
        };
        if module_segment_valid(record) {
            Ok(record)
        } else {
            Err(ImageError::Platform(PlatformError::InvalidImageField("module segment")))
        }
    }
}

/// The module segment records of ELF segments with their bytes, in order,
/// or the refusal of the first segment refused.
pub open spec fn module_records_spec(segments: Seq<ElfSegmentView>) -> Result<Seq<(ModuleSegment, Seq<u8>)>>
    decreases segments.len(),
{
    if segments.len() == 0 {
        Ok(Seq::empty())
    } else {
        match module_records_spec(segments.drop_last()) {
            Err(e) => Err(e),
            Ok(done) => match module_record_spec(segments.last()) {
                Err(e) => Err(e),
                Ok(record) => Ok(done.push((record, segments.last().bytes))),
            },
        }
    }
}

/// Once a prefix of the kernel segments is refused, every longer prefix is
/// refused the same way.
proof fn lemma_kernel_records_error(segments: Seq<ElfSegmentView>, k: int)
    requires
        0 <= k <= segments.len(),
        kernel_records_spec(segments.take(k)) is Err,
    ensures
        kernel_records_spec(segments) == kernel_records_spec(segments.take(k)),
    decreases segments.len() - k,
{
    if k < segments.len() {
        assert(segments.take(k + 1).drop_last() =~= segments.take(k));
        lemma_kernel_records_error(segments, k + 1);
    } else {
        assert(segments.take(k) =~= segments);
    }
}

/// Once a prefix of the module segments is refused, every longer prefix is
/// refused the same way.
proof fn lemma_module_records_error(segments: Seq<ElfSegmentView>, k: int)
    requires
        0 <= k <= segments.len(),
        module_records_spec(segments.take(k)) is Err,
    ensures
        module_records_spec(segments) == module_records_spec(segments.take(k)),
    decreases segments.len() - k,
{
    if k < segments.len() {
        assert(segments.take(k + 1).drop_last() =~= segments.take(k));
        lemma_module_records_error(segments, k + 1);
    } else {
        assert(segments.take(k) =~= segments);
    }
}

/// Once a prefix of the module inputs is refused, every longer prefix is
/// refused the same way.
proof fn lemma_pack_modules_error(inputs: Seq<(Seq<char>, Seq<u8>)>, k: int)
    requires
        0 <= k <= inputs.len(),
        pack_modules_spec(inputs.take(k)) is Err,
    ensures
        pack_modules_spec(inputs) == pack_modules_spec(inputs.take(k)),
    decreases inputs.len() - k,
{
    if k < inputs.len() {
        assert(inputs.take(k + 1).drop_last() =~= inputs.take(k));
        lemma_pack_modules_error(inputs, k + 1);
    } else {
        assert(inputs.take(k) =~= inputs);
    }
}

/// Kernel records ordered by virtual address.
pub open spec fn kernel_part_le() -> spec_fn((KernelSegment, Seq<u8>), (KernelSegment, Seq<u8>)) -> bool {
    |a: (KernelSegment, Seq<u8>), b: (KernelSegment, Seq<u8>)| a.0.virtual_address.0 <= b.0.virtual_address.0
}

/// Module segment records ordered by virtual address.
pub open spec fn segment_part_le() -> spec_fn((ModuleSegment, Seq<u8>), (ModuleSegment, Seq<u8>)) -> bool {
    |a: (ModuleSegment, Seq<u8>), b: (ModuleSegment, Seq<u8>)| a.0.virtual_address.0 <= b.0.virtual_address.0
}

/// Modules ordered by name.
pub open spec fn module_part_le() -> spec_fn(ModuleParts, ModuleParts) -> bool {
    |a: ModuleParts, b: ModuleParts| lex_le(a.name, b.name)
}

/// One user module as packed: a nonempty name, a valid ELF whose segments,
/// ordered by address, form a valid module table, and its entry.
pub open spec fn pack_module_spec(name: Seq<char>, elf: Seq<u8>) -> Result<ModuleParts> {
    if name.len() == 0 {
        Err(ImageError::InvalidImage("module name"))
    } else {
        match parse_elf_spec(elf) {
            Err(e) => Err(e),
            Ok((entry, segments)) => match module_records_spec(segments) {
                Err(e) => Err(e),
                Ok(records) => {
                    let sorted = sort_by(records, segment_part_le());
                    match module_records_error(
                        sorted.map_values(|p: (ModuleSegment, Seq<u8>)| p.0),
                        entry,
                    ) {
                        Some(e) => Err(e),
                        None => Ok(
                            ModuleParts {
                                name: encode_utf8(name),
                                entry: VirtualAddress(entry),
                                segments: sorted,
                            },
                        ),
                    }
                },
            },
        }
    }
}

/// The packed modules of named ELF inputs, in order, or the refusal of the
/// first input refused.
pub open spec fn pack_modules_spec(inputs: Seq<(Seq<char>, Seq<u8>)>) -> Result<Seq<ModuleParts>>
    decreases inputs.len(),
{
    if inputs.len() == 0 {
        Ok(Seq::empty())
    } else {
        match pack_modules_spec(inputs.drop_last()) {
            Err(e) => Err(e),
            Ok(done) => match pack_module_spec(inputs.last().0, inputs.last().1) {
                Err(e) => Err(e),
                Ok(m) => Ok(done.push(m)),
            },
        }
    }
}

/// Whether two packed modules share a name.
pub open spec fn parts_repeat(s: Seq<ModuleParts>) -> bool {
    exists|i: int, j: int| 0 <= i < j < s.len() && s[i].name == s[j].name
}

/// What the packer lays out for a kernel ELF and named module ELFs: the
/// kernel entry, the kernel's segment records ordered by address, and the
/// modules ordered by name; or the first refusal, in the order the checks
/// are made.
pub open spec fn build_spec(kernel: Seq<u8>, inputs: Seq<(Seq<char>, Seq<u8>)>) -> Result<
    (VirtualAddress, Seq<(KernelSegment, Seq<u8>)>, Seq<ModuleParts>),
> {
    match parse_elf_spec(kernel) {
        Err(e) => Err(e),
        Ok((entry, segments)) => match kernel_records_spec(segments) {
            Err(e) => Err(e),
            Ok(records) => {
                let sorted = sort_by(records, kernel_part_le());
                match kernel_records_error(sorted.map_values(|p: (KernelSegment, Seq<u8>)| p.0), entry) {
                    Some(e) => Err(e),
                    None => match pack_modules_spec(inputs) {
                        Err(e) => Err(e),
                        Ok(modules) => {
                            let ordered = sort_by(modules, module_part_le());
                            if parts_repeat(ordered) {
                                Err(ImageError::InvalidImage("duplicate module name"))
                            } else {
                                Ok((VirtualAddress(entry), sorted, ordered))
                            }
                        },
                    },
                }
            },
        },
    }
}

/// Whether `r` is what packing a kernel ELF and named module ELFs gives:
/// the first refusal of the inputs; otherwise, for a layout too large for
/// system ROM, a refusal (the ROM overflow whenever every offset of the
/// layout fits in 32 bits); otherwise the refusal of the canonical header or the parse of
/// the canonical bytes.
pub open spec fn built(kernel: Seq<u8>, inputs: Seq<(Seq<char>, Seq<u8>)>, r: Result<SystemImage>) -> bool {
    match build_spec(kernel, inputs) {
        Err(e) => r == Err::<SystemImage, ImageError>(e),
        Ok((entry, kernel_parts, module_parts)) => {
            &&& r matches Ok(image) ==> image.parsed() && image@.bytes == packed_bytes(entry, kernel_parts, module_parts)
            &&& packed_layout_size(kernel_parts, module_parts) > SYSTEM_ROM_SIZE ==> r is Err
            &&& SYSTEM_ROM_SIZE < packed_layout_size(kernel_parts, module_parts) && packed_offsets_fit(
                kernel_parts,
                module_parts,
            ) ==> r == Err::<SystemImage, ImageError>(ImageError::RomOverflow)
            &&& packed_layout_size(kernel_parts, module_parts) <= SYSTEM_ROM_SIZE ==> packed_result(
                entry,
                kernel_parts,
                module_parts,
                r,
            )
        },
    }
}

/// Whether kernel segments are ordered by virtual address.
pub open spec fn kernel_sorted(s: Seq<(KernelSegment, Vec<u8>)>) -> bool {
    forall|i: int, j: int|
        0 <= i < j < s.len() ==> s[i].0.virtual_address.0 <= s[j].0.virtual_address.0
}

/// Whether module segments are ordered by virtual address.
pub open spec fn module_segments_sorted(s: Seq<(ModuleSegment, Vec<u8>)>) -> bool {
    forall|i: int, j: int|
        0 <= i < j < s.len() ==> s[i].0.virtual_address.0 <= s[j].0.virtual_address.0
}

/// Whether modules are ordered by name.
pub open spec fn modules_sorted(s: Seq<PackedModule>) -> bool {
    forall|i: int, j: int| 0 <= i < j < s.len() ==> lex_le(s[i].name@, s[j].name@)
}

/// Stably sorts kernel segments by virtual address.
fn sort_kernel_segments(items: Vec<(KernelSegment, Vec<u8>)>) -> (r: Vec<(KernelSegment, Vec<u8>)>)
    ensures
        r@ == sort_by(items@, kernel_le()),
        r@.to_multiset() == items@.to_multiset(),
        kernel_sorted(r@),
{
    let mut rest = items;
    let mut sorted: Vec<(KernelSegment, Vec<u8>)> = Vec::new();
    assert(items@.take(0) =~= Seq::<(KernelSegment, Vec<u8>)>::empty());
    assert(rest@ =~= items@.skip(0));
    while rest.len() > 0
        invariant
            sorted@.to_multiset().add(rest@.to_multiset()) == items@.to_multiset(),
            kernel_sorted(sorted@),
            sorted@.len() + rest@.len() == items@.len(),
            rest@ == items@.skip(sorted@.len() as int),
            sorted@ == sort_by(items@.take(sorted@.len() as int), kernel_le()),
        decreases rest@.len(),
    {
        let ghost done = sorted@.len() as int;
        let item = rest.remove(0);
        let key = item.0.virtual_address.get();
        let mut p: usize = 0;
        while p < sorted.len() && sorted[p].0.virtual_address.get() <= key
            invariant
                p <= sorted@.len(),
                forall|i: int| 0 <= i < p ==> sorted@[i].0.virtual_address.0 <= key,
            decreases sorted@.len() - p,
        {
            p += 1;
        }
        let ghost before = sorted@;
        sorted.insert(p, item);
        proof {
            assert forall|i: int, j: int| 0 <= i < j < sorted@.len() implies sorted@[i].0.virtual_address.0
                <= sorted@[j].0.virtual_address.0 by {
                if p < before.len() {
                    assert(before[p as int].0.virtual_address.0 > key);
                }
            }
            assert(sorted@.to_multiset() =~= before.to_multiset().insert(item));
            assert(item == items@[done]);
            assert(items@.take(done + 1).drop_last() =~= items@.take(done));
            assert(rest@ =~= items@.skip(done + 1));
            lemma_insert_ordered(before, item, kernel_le(), p as int);
        }
    }
    sorted
}

/// Stably sorts module segments by virtual address.
fn sort_module_segments(items: Vec<(ModuleSegment, Vec<u8>)>) -> (r: Vec<(ModuleSegment, Vec<u8>)>)
    ensures
        r@ == sort_by(items@, module_segment_le()),
        r@.to_multiset() == items@.to_multiset(),
        module_segments_sorted(r@),
{
    let mut rest = items;
    let mut sorted: Vec<(ModuleSegment, Vec<u8>)> = Vec::new();
    assert(items@.take(0) =~= Seq::<(ModuleSegment, Vec<u8>)>::empty());
    assert(rest@ =~= items@.skip(0));
    while rest.len() > 0
        invariant
            sorted@.to_multiset().add(rest@.to_multiset()) == items@.to_multiset(),
            module_segments_sorted(sorted@),
            sorted@.len() + rest@.len() == items@.len(),
            rest@ == items@.skip(sorted@.len() as int),
            sorted@ == sort_by(items@.take(sorted@.len() as int), module_segment_le()),
        decreases rest@.len(),
    {
        let ghost done = sorted@.len() as int;
        let item = rest.remove(0);
        let key = item.0.virtual_address.get();
        let mut p: usize = 0;
        while p < sorted.len() && sorted[p].0.virtual_address.get() <= key
            invariant
                p <= sorted@.len(),
                forall|i: int| 0 <= i < p ==> sorted@[i].0.virtual_address.0 <= key,
            decreases sorted@.len() - p,
        {
            p += 1;
        }
        let ghost before = sorted@;
        sorted.insert(p, item);
        proof {
            assert forall|i: int, j: int| 0 <= i < j < sorted@.len() implies sorted@[i].0.virtual_address.0
                <= sorted@[j].0.virtual_address.0 by {
                if p < before.len() {
                    assert(before[p as int].0.virtual_address.0 > key);
                }
            }
            assert(sorted@.to_multiset() =~= before.to_multiset().insert(item));
            assert(item == items@[done]);
            assert(items@.take(done + 1).drop_last() =~= items@.take(done));
            assert(rest@ =~= items@.skip(done + 1));
            lemma_insert_ordered(before, item, module_segment_le(), p as int);
        }
    }
    sorted
}

/// Stably sorts modules by name.
fn sort_modules(items: Vec<PackedModule>) -> (r: Vec<PackedModule>)
    ensures
        r@ == sort_by(items@, module_le()),
        r@.to_multiset() == items@.to_multiset(),
        modules_sorted(r@),
{
    let mut rest = items;
    let mut sorted: Vec<PackedModule> = Vec::new();
    assert(items@.take(0) =~= Seq::<PackedModule>::empty());
    assert(rest@ =~= items@.skip(0));
    while rest.len() > 0
        invariant
            sorted@.to_multiset().add(rest@.to_multiset()) == items@.to_multiset(),
            modules_sorted(sorted@),
            sorted@.len() + rest@.len() == items@.len(),
            rest@ == items@.skip(sorted@.len() as int),
            sorted@ == sort_by(items@.take(sorted@.len() as int), module_le()),
        decreases rest@.len(),
    {
        let ghost done = sorted@.len() as int;
        let item = rest.remove(0);
        let mut p: usize = 0;
        while p < sorted.len() && lex_less_equal(sorted[p].name.as_slice(), item.name.as_slice())
            invariant
                p <= sorted@.len(),
                forall|i: int| 0 <= i < p ==> lex_le(sorted@[i].name@, item.name@),
            decreases sorted@.len() - p,
        {
            p += 1;
        }
        let ghost before = sorted@;
        let ghost key = item.name@;
        sorted.insert(p, item);
        proof {
            assert forall|i: int, j: int| 0 <= i < j < sorted@.len() implies lex_le(
                sorted@[i].name@,
                sorted@[j].name@,
            ) by {
                if i == p {
                    lemma_lex_total(before[p as int].name@, key);
                    if j - 1 > p {
                        lemma_lex_transitive(key, before[p as int].name@, before[j - 1].name@);
                    }
                }
            }
            assert(sorted@.to_multiset() =~= before.to_multiset().insert(item));
            assert(item == items@[done]);
            assert(items@.take(done + 1).drop_last() =~= items@.take(done));
            assert(rest@ =~= items@.skip(done + 1));
            assert forall|a: PackedModule, b: PackedModule, c: PackedModule|
                #[trigger] module_le()(a, b) && #[trigger] module_le()(b, c) implies module_le()(a, c) by {
                lemma_lex_transitive(a.name@, b.name@, c.name@);
            }
            assert forall|i: int, j: int| 0 <= i < j < before.len() implies #[trigger] module_le()(
                before[i],
                before[j],
            ) by {}
            assert forall|i: int| 0 <= i < p implies #[trigger] module_le()(before[i], item) by {}
            lemma_insert_ordered(before, item, module_le(), p as int);
        }
    }
    sorted
}

/// Whether some two modules share a name.
pub open spec fn names_repeat(s: Seq<PackedModule>) -> bool {
    exists|i: int, j: int| 0 <= i < j < s.len() && s[i].name@ == s[j].name@
}

/// Whether two adjacent modules share a name.
fn adjacent_names_repeat(modules: &Vec<PackedModule>) -> (r: bool)
    requires
        modules_sorted(modules@),
    ensures
        r == names_repeat(modules@),
{
    let n = modules.len();
    if n < 2 {
        return false;
    }
    let mut i: usize = 0;
    while i + 1 < n
        invariant
            n == modules@.len(),
            n >= 2,
            i + 1 <= n,
            modules_sorted(modules@),
            forall|k: int| 0 <= k < i ==> (#[trigger] modules@[k]).name@ != modules@[k + 1].name@,
        decreases n - i,
    {
        if lex_less_equal(modules[i + 1].name.as_slice(), modules[i].name.as_slice()) {
            proof {
                lemma_lex_antisymmetric(modules@[i as int].name@, modules@[i + 1].name@);
            }
            return true;
        }
        i += 1;
    }
    proof {
        assert forall|a: int, b: int| 0 <= a < b < n implies modules@[a].name@ != modules@[b].name@ by {
            if modules@[a].name@ == modules@[b].name@ {
                // a < a + 1 <= b: the name at a + 1 lies between equal names.
                assert(lex_le(modules@[a].name@, modules@[a + 1].name@));
                assert(lex_le(modules@[a + 1].name@, modules@[b].name@) || a + 1 == b);
                if a + 1 < b {
                    lemma_lex_antisymmetric(modules@[a].name@, modules@[a + 1].name@);
                }
            }
        }
    }
    false
}

/// One independently linked fixed-address user ELF supplied to the packer.
#[derive(Clone, Copy, Debug)]
pub struct ModuleInput<'a> {
    pub name: &'a str,
    pub elf: &'a [u8],
}

/// Canonically packages a kernel ELF and zero or more user-module ELFs.
pub struct ImageBuilder<'a> {
    kernel: &'a [u8],
    modules: Vec<ModuleInput<'a>>,
}

impl<'a> ImageBuilder<'a> {
    /// The kernel ELF.
    pub closed spec fn kernel_view(&self) -> Seq<u8> {
        self.kernel@
    }

    /// The module inputs, in the order they were added.
    pub closed spec fn inputs(&self) -> Seq<ModuleInput<'a>> {
        self.modules@
    }

    pub fn new(kernel: &'a [u8]) -> (r: Self)
        ensures
            r.kernel_view() == kernel@,
            r.inputs() == Seq::<ModuleInput<'a>>::empty(),
    {
        ImageBuilder { kernel, modules: Vec::new() }
    }

    pub fn add_module(self, module: ModuleInput<'a>) -> (r: Self)
        ensures
            r.kernel_view() == self.kernel_view(),
            r.inputs() == self.inputs().push(module),
    {
        let mut builder = self;
        builder.modules.push(module);
        builder
    }

    /// Places a kernel segment at its own address when that lies in RAM,
    /// else at the physical alias of its direct-map address.
    fn kernel_record(segment: &ElfSegment) -> (r: Result<KernelSegment>)
        ensures
            r == kernel_record_spec(elf_segment_view(*segment)),
    {
        let virtual_address = VirtualAddress::new(segment.address);
        let physical_address = if MemRegion::Ram.range().contains_address(
            PhysicalAddress::new(segment.address),
        ) {
            PhysicalAddress::new(segment.address)
        } else {
            match direct_map_physical(virtual_address) {
                Ok(physical) => physical,
                Err(e) => return Err(ImageError::Platform(e)),
            }
        };
        if segment.bytes.len() > u32::MAX as usize {
            return Err(ImageError::InvalidElf("kernel segment size"));
        }
        let record = KernelSegment {
            data_offset: 0,
            physical_address,
            virtual_address,
            file_size: segment.bytes.len() as u32,
            memory_size: segment.memory_size,
            flags: segment.flags,
        };
        match record.validate() {
            Ok(()) => Ok(record),
            Err(e) => Err(ImageError::Platform(e)),
        }
    }

    /// Packs one module input: a nonempty name and a valid fixed-address ELF.
    fn pack_module(input: ModuleInput<'a>) -> (r: Result<PackedModule>)
        ensures
            match pack_module_spec(input.name@, input.elf@) {
                Ok(parts) => r matches Ok(m) && module_parts(m) == parts,
                Err(e) => r == Err::<PackedModule, ImageError>(e),
            },
    {
        if input.name.is_empty() {
            return Err(ImageError::InvalidImage("module name"));
        }
        let (entry, segments) = parse_elf(input.elf)?;
        let ghost views = segments@.map_values(|s: ElfSegment| elf_segment_view(s));
        let ghost initial = segments@;
        let mut records: Vec<(ModuleSegment, Vec<u8>)> = Vec::new();
        let mut segments = segments;
        let ghost n = initial.len() as int;
        assert(views.take(0) =~= Seq::<ElfSegmentView>::empty());
        assert(segment_parts(records@) =~= Seq::<(ModuleSegment, Seq<u8>)>::empty());
        assert(segments@ =~= initial.skip(0));
        assert(parse_elf_spec(input.elf@) == Ok::<(u32, Seq<ElfSegmentView>), ImageError>((entry, views)));
        while segments.len() > 0
            invariant
                input.name@.len() > 0,
                parse_elf_spec(input.elf@) == Ok::<(u32, Seq<ElfSegmentView>), ImageError>((entry, views)),
                views == initial.map_values(|s: ElfSegment| elf_segment_view(s)),
                n == initial.len(),
                records@.len() + segments@.len() == n,
                segments@ == initial.skip(records@.len() as int),
                module_records_spec(views.take(records@.len() as int)) == Ok::<Seq<(ModuleSegment, Seq<u8>)>, ImageError>(
                    segment_parts(records@),
                ),
            decreases segments@.len(),
        {
            let ghost done = records@.len() as int;
            let segment = segments.remove(0);
            proof {
                assert(segment == initial[done]);
                assert(views[done] == elf_segment_view(segment));
                assert(views.take(done + 1).drop_last() =~= views.take(done));
                assert(segments@ =~= initial.skip(done + 1));
            }
            if segment.bytes.len() > u32::MAX as usize {
                proof { lemma_module_records_error(views, done + 1); }
                return Err(ImageError::InvalidElf("module segment size"));
            }
            let record = ModuleSegment {
                data_offset: 0,
                virtual_address: VirtualAddress::new(segment.address),
                file_size: segment.bytes.len() as u32,
                memory_size: segment.memory_size,
                flags: segment.flags,
            };
            match record.validate() {
                Ok(()) => {},
                Err(e) => {
                    proof { lemma_module_records_error(views, done + 1); }
                    return Err(ImageError::Platform(e));
                },
            }
            let ghost before = records@;
            records.push((record, segment.bytes));
            assert(segment_parts(records@) =~= segment_parts(before).push((record, views[done].bytes)));
        }
        proof {
            assert(views.take(n) =~= views);
        }
        let ghost unsorted = records@;
        let records = sort_module_segments(records);
        proof {
            lemma_sort_by_map(
                unsorted,
                module_segment_le(),
                segment_part_le(),
                |p: (ModuleSegment, Vec<u8>)| (p.0, p.1@),
            );
            assert(records@.map_values(|p: (ModuleSegment, Vec<u8>)| p.0) =~= segment_parts(records@).map_values(
                |p: (ModuleSegment, Seq<u8>)| p.0,
            ));
        }
        validate_module_segments(records.as_slice(), VirtualAddress::new(entry))?;
        let name = input.name.as_bytes();
        let mut bytes: Vec<u8> = Vec::new();
        let n = name.len();
        let mut i: usize = 0;
        while i < n
            invariant
                i <= n,
                n == name@.len(),
                bytes@ == name@.subrange(0, i as int),
            decreases n - i,
        {
            bytes.push(name[i]);
            i += 1;
            assert(bytes@ =~= name@.subrange(0, i as int));
        }
        assert(bytes@ =~= name@);
        Ok(PackedModule { name: bytes, entry: VirtualAddress::new(entry), segments: records })
    }

    /// The module inputs as plain values: each name and ELF.
    pub open spec fn input_parts(&self) -> Seq<(Seq<char>, Seq<u8>)> {
        self.inputs().map_values(|m: ModuleInput<'a>| (m.name@, m.elf@))
    }

    /// Packs the kernel and modules into a canonical system image.
    pub fn build(self) -> (r: Result<SystemImage>)
        ensures
            built(self.kernel_view(), self.input_parts(), r),
    {
        let ghost parts = self.input_parts();
        let (kernel_entry, kernel_segments) = parse_elf(self.kernel)?;
        let ghost views = kernel_segments@.map_values(|s: ElfSegment| elf_segment_view(s));
        let ghost initial = kernel_segments@;
        let ghost n = initial.len() as int;
        let mut packed_kernel: Vec<(KernelSegment, Vec<u8>)> = Vec::new();
        let mut kernel_segments = kernel_segments;
        assert(views.take(0) =~= Seq::<ElfSegmentView>::empty());
        assert(kernel_parts(packed_kernel@) =~= Seq::<(KernelSegment, Seq<u8>)>::empty());
        assert(kernel_segments@ =~= initial.skip(0));
        assert(parse_elf_spec(self.kernel@) == Ok::<(u32, Seq<ElfSegmentView>), ImageError>((kernel_entry, views)));
        while kernel_segments.len() > 0
            invariant
                parse_elf_spec(self.kernel@) == Ok::<(u32, Seq<ElfSegmentView>), ImageError>((kernel_entry, views)),
                views == initial.map_values(|s: ElfSegment| elf_segment_view(s)),
                n == initial.len(),
                packed_kernel@.len() + kernel_segments@.len() == n,
                kernel_segments@ == initial.skip(packed_kernel@.len() as int),
                kernel_records_spec(views.take(packed_kernel@.len() as int)) == Ok::<Seq<(KernelSegment, Seq<u8>)>, ImageError>(
                    kernel_parts(packed_kernel@),
                ),
            decreases kernel_segments@.len(),
        {
            let ghost done = packed_kernel@.len() as int;
            let segment = kernel_segments.remove(0);
            proof {
                assert(segment == initial[done]);
                assert(views[done] == elf_segment_view(segment));
                assert(views.take(done + 1).drop_last() =~= views.take(done));
                assert(kernel_segments@ =~= initial.skip(done + 1));
            }
            let record = match Self::kernel_record(&segment) {
                Ok(record) => record,
                Err(e) => {
                    proof { lemma_kernel_records_error(views, done + 1); }
                    return Err(e);
                },
            };
            let ghost before = packed_kernel@;
            packed_kernel.push((record, segment.bytes));
            assert(kernel_parts(packed_kernel@) =~= kernel_parts(before).push((record, views[done].bytes)));
        }
        proof {
            assert(views.take(n) =~= views);
        }
        let ghost unsorted = packed_kernel@;
        let ghost records = kernel_parts(unsorted);
        let packed_kernel = sort_kernel_segments(packed_kernel);
        proof {
            lemma_sort_by_map(
                unsorted,
                kernel_le(),
                kernel_part_le(),
                |p: (KernelSegment, Vec<u8>)| (p.0, p.1@),
            );
            assert(kernel_parts(packed_kernel@) =~= sort_by(unsorted, kernel_le()).map_values(
                |p: (KernelSegment, Vec<u8>)| (p.0, p.1@),
            ));
            assert(unsorted.map_values(|p: (KernelSegment, Vec<u8>)| (p.0, p.1@)) =~= records);
            assert(packed_kernel@.map_values(|p: (KernelSegment, Vec<u8>)| p.0) =~= kernel_parts(packed_kernel@).map_values(
                |p: (KernelSegment, Seq<u8>)| p.0,
            ));
        }
        validate_kernel_segments(packed_kernel.as_slice(), VirtualAddress::new(kernel_entry))?;
        let mut packed_modules: Vec<PackedModule> = Vec::new();
        let count = self.modules.len();
        let mut i: usize = 0;
        assert(parts.take(0) =~= Seq::<(Seq<char>, Seq<u8>)>::empty());
        assert(modules_parts(packed_modules@) =~= Seq::<ModuleParts>::empty());
        while i < count
            invariant
                i <= count,
                count == self.modules@.len(),
                parts == self.input_parts(),
                parse_elf_spec(self.kernel@) == Ok::<(u32, Seq<ElfSegmentView>), ImageError>((kernel_entry, views)),
                kernel_records_spec(views) == Ok::<Seq<(KernelSegment, Seq<u8>)>, ImageError>(records),
                kernel_parts(packed_kernel@) == sort_by(records, kernel_part_le()),
                kernel_records_error(
                    kernel_parts(packed_kernel@).map_values(|p: (KernelSegment, Seq<u8>)| p.0),
                    kernel_entry,
                ) is None,
                pack_modules_spec(parts.take(i as int)) == Ok::<Seq<ModuleParts>, ImageError>(
                    modules_parts(packed_modules@),
                ),
            decreases count - i,
        {
            proof {
                assert(parts[i as int] == (self.modules@[i as int].name@, self.modules@[i as int].elf@));
                assert(parts.take(i + 1).drop_last() =~= parts.take(i as int));
            }
            let module = match Self::pack_module(self.modules[i]) {
                Ok(module) => module,
                Err(e) => {
                    proof { lemma_pack_modules_error(parts, i + 1); }
                    return Err(e);
                },
            };
            let ghost before = packed_modules@;
            packed_modules.push(module);
            assert(modules_parts(packed_modules@) =~= modules_parts(before).push(module_parts(module)));
            i += 1;
        }
        proof {
            assert(parts.take(count as int) =~= parts);
        }
        let ghost unsorted_modules = packed_modules@;
        let ghost module_list = modules_parts(unsorted_modules);
        let packed_modules = sort_modules(packed_modules);
        proof {
            lemma_sort_by_map(unsorted_modules, module_le(), module_part_le(), |m: PackedModule| module_parts(m));
            assert(modules_parts(packed_modules@) =~= sort_by(unsorted_modules, module_le()).map_values(
                |m: PackedModule| module_parts(m),
            ));
            assert(unsorted_modules.map_values(|m: PackedModule| module_parts(m)) =~= module_list);
        }
        let repeated = adjacent_names_repeat(&packed_modules);
        proof {
            let ordered = modules_parts(packed_modules@);
            if parts_repeat(ordered) {
                let (a, b) = choose|a: int, b: int| 0 <= a < b < ordered.len() && ordered[a].name == ordered[b].name;
                assert(packed_modules@[a].name@ == packed_modules@[b].name@);
            }
            if names_repeat(packed_modules@) {
                let (a, b) = choose|a: int, b: int|
                    0 <= a < b < packed_modules@.len() && packed_modules@[a].name@ == packed_modules@[b].name@;
                assert(ordered[a].name == ordered[b].name);
            }
        }
        if repeated {
            return Err(ImageError::InvalidImage("duplicate module name"));
        }
        let ghost final_kernel = packed_kernel@;
        let ghost final_modules = packed_modules@;
        proof {
            assert(pack_modules_spec(parts) == Ok::<Seq<ModuleParts>, ImageError>(module_list));
            lemma_build_inputs_valid(views, records, parts, module_list, final_kernel, final_modules);
        }
        let result = build_image(VirtualAddress::new(kernel_entry), packed_kernel, packed_modules);
        proof {
            lemma_packed_bytes(VirtualAddress(kernel_entry), final_kernel, final_modules);
            assert(packed_outcome(VirtualAddress(kernel_entry), final_kernel, final_modules, result) == packed_result(
                VirtualAddress(kernel_entry),
                kernel_parts(final_kernel),
                modules_parts(final_modules),
                result,
            ));
        }
        result
    }
}

/// Packing is deterministic: two packings of the same kernel and module
/// inputs both succeed with the same image, byte for byte, or both fail
/// with the same refusal (when the layout fits in system ROM or its
/// offsets fit in 32 bits).
pub proof fn lemma_packing_deterministic(
    kernel: Seq<u8>,
    inputs: Seq<(Seq<char>, Seq<u8>)>,
    first: Result<SystemImage>,
    second: Result<SystemImage>,
)
    requires
        built(kernel, inputs, first),
        built(kernel, inputs, second),
        build_spec(kernel, inputs) matches Ok((_, kernel_parts, module_parts)) ==> packed_layout_size(
            kernel_parts,
            module_parts,
        ) <= SYSTEM_ROM_SIZE || packed_offsets_fit(kernel_parts, module_parts),
    ensures
        first is Ok <==> second is Ok,
        first matches Ok(a) ==> second matches Ok(b) && a@ == b@,
        first is Err ==> first == second,
{
    reveal(packed_outcome);
    if first is Ok && second is Ok {
        SystemImage::lemma_parsed(&first->Ok_0);
        SystemImage::lemma_parsed(&second->Ok_0);
    }
}

/// Packages a kernel ELF and user modules without retaining builder state.
pub fn package(kernel: &[u8], modules: &[ModuleInput<'_>]) -> (r: Result<SystemImage>)
    ensures
        built(kernel@, modules@.map_values(|m: ModuleInput<'_>| (m.name@, m.elf@)), r),
{
    let mut builder = ImageBuilder::new(kernel);
    let n = modules.len();
    let mut i: usize = 0;
    while i < n
        invariant
            i <= n,
            n == modules@.len(),
            builder.kernel_view() == kernel@,
            builder.inputs() == modules@.subrange(0, i as int),
        decreases n - i,
    {
        builder = builder.add_module(modules[i]);
        i += 1;
        assert(builder.inputs() =~= modules@.subrange(0, i as int));
    }
    assert(builder.inputs() =~= modules@);
    assert(builder.input_parts() =~= modules@.map_values(|m: ModuleInput<'_>| (m.name@, m.elf@)));
    builder.build()
}

} // verus!
