use vstd::prelude::*;

use object::{Architecture, BinaryFormat, File, Object, ObjectKind, ObjectSection, ObjectSegment};

use super::error::{ImageError, Result};

use object::Error as ObjectError;

verus! {

/// One program segment as the object file reports it: its address, its
/// memory size, its file data, and whether it is readable, writable and
/// executable.
pub struct RawSegment(
    pub u64,
    pub u64,
    pub core::result::Result<Vec<u8>, ObjectError>,
    pub bool,
    pub bool,
    pub bool,
);

/// What the packer reads from an object file.
pub struct ElfFacts {
    /// Whether the file is an ELF file, for 32-bit ARM, an executable, and
    /// little-endian.
    pub header: (bool, bool, bool, bool),
    /// For each section, whether it has relocations.
    pub section_relocations: Vec<bool>,
    pub dynamic_relocations: bool,
    pub segments: Vec<RawSegment>,
    pub entry: u64,
}

/// One program segment as plain values.
pub struct SegmentFacts {
    pub address: u64,
    pub size: u64,
    pub data: core::result::Result<Seq<u8>, ObjectError>,
    pub readable: bool,
    pub writable: bool,
    pub executable: bool,
}

/// The plain values of a reported segment.
pub open spec fn segment_facts(raw: RawSegment) -> SegmentFacts {
    SegmentFacts {
        address: raw.0,
        size: raw.1,
        data: match raw.2 {
            Ok(d) => Ok(d@),
            Err(e) => Err(e),
        },
        readable: raw.3,
        writable: raw.4,
        executable: raw.5,
    }
}

/// What the packer reads from an object file, as plain values.
pub struct ElfFactsView {
    pub header: (bool, bool, bool, bool),
    pub section_relocations: Seq<bool>,
    pub dynamic_relocations: bool,
    pub segments: Seq<SegmentFacts>,
    pub entry: u64,
}

impl View for ElfFacts {
    type V = ElfFactsView;

    open spec fn view(&self) -> ElfFactsView {
        ElfFactsView {
            header: self.header,
            section_relocations: self.section_relocations@,
            dynamic_relocations: self.dynamic_relocations,
            segments: self.segments@.map_values(|r: RawSegment| segment_facts(r)),
            entry: self.entry,
        }
    }
}

/// What the `object` crate reads from the bytes of a file: the facts the
/// packer checks, or the error with which parsing the file fails.
pub uninterp spec fn object_elf_facts(bytes: Seq<u8>) -> core::result::Result<ElfFactsView, ObjectError>;

/// A loadable ELF segment normalized for image construction.
pub struct ElfSegment {
    pub address: u32,
    pub bytes: Vec<u8>,
    pub memory_size: u32,
    pub flags: u32,
}

/// Abstract value of a normalized segment.
pub struct ElfSegmentView {
    pub address: u32,
    pub bytes: Seq<u8>,
    pub memory_size: u32,
    pub flags: u32,
}

pub open spec fn elf_segment_view(s: ElfSegment) -> ElfSegmentView {
    ElfSegmentView { address: s.address, bytes: s.bytes@, memory_size: s.memory_size, flags: s.flags }
}

/// Segment flags from permissions: readable 1, writable 2, executable 4.
pub open spec fn permission_flags(readable: bool, writable: bool, executable: bool) -> u32 {
    ((if readable { 1u32 } else { 0u32 }) + (if writable { 2u32 } else { 0u32 }) + (if executable {
        4u32
    } else {
        0u32
    })) as u32
}

/// A raw segment normalized: `None` when it occupies no memory, else the
/// segment or why it is refused: its address, size and end must fit 32
/// bits, its data must be readable and no longer than its memory image.
pub open spec fn normalize_spec(raw: SegmentFacts) -> Option<Result<ElfSegmentView>> {
    if raw.size == 0 {
        None
    } else if raw.address > u32::MAX {
        Some(Err(ImageError::InvalidElf("segment address")))
    } else if raw.size > u32::MAX {
        Some(Err(ImageError::InvalidElf("segment memory size")))
    } else if raw.address + raw.size > 0x1_0000_0000 {
        Some(Err(ImageError::InvalidElf("segment range")))
    } else {
        match raw.data {
            Err(e) => Some(Err(ImageError::Elf(e))),
            Ok(data) => if data.len() > raw.size {
                Some(Err(ImageError::InvalidElf("segment file size")))
            } else {
                Some(
                    Ok(
                        ElfSegmentView {
                            address: raw.address as u32,
                            bytes: data,
                            memory_size: raw.size as u32,
                            flags: permission_flags(raw.readable, raw.writable, raw.executable),
                        },
                    ),
                )
            },
        }
    }
}

/// The first `n` raw segments normalized in order, stopping at the first
/// refusal.
pub open spec fn segments_prefix(raws: Seq<SegmentFacts>, n: nat) -> Result<Seq<ElfSegmentView>>
    decreases n,
{
    if n == 0 {
        Ok(Seq::empty())
    } else {
        match segments_prefix(raws, (n - 1) as nat) {
            Err(e) => Err(e),
            Ok(done) => match normalize_spec(raws[n - 1]) {
                None => Ok(done),
                Some(Err(e)) => Err(e),
                Some(Ok(s)) => Ok(done.push(s)),
            },
        }
    }
}

/// The kernel or module image an object file describes: it must be a
/// little-endian ARM executable ELF without relocations, with at least
/// one loadable segment and a 32-bit entry point.
pub open spec fn elf_spec(facts: ElfFactsView) -> Result<(u32, Seq<ElfSegmentView>)> {
    if !facts.header.0 || !facts.header.1 || !facts.header.2 || !facts.header.3 {
        Err(ImageError::InvalidElf("expected a little-endian ARM executable ELF"))
    } else if facts.section_relocations.contains(true) || facts.dynamic_relocations {
        Err(ImageError::InvalidElf("relocations are unsupported"))
    } else {
        match segments_prefix(facts.segments, facts.segments.len()) {
            Err(e) => Err(e),
            Ok(segments) => if segments.len() == 0 {
                Err(ImageError::InvalidElf("no loadable segments"))
            } else if facts.entry > u32::MAX {
                Err(ImageError::InvalidElf("entry"))
            } else {
                Ok((facts.entry as u32, segments))
            },
        }
    }
}

/// Whether a normalized segment fits the 32-bit address space and its
/// data fits its memory image.
pub open spec fn elf_segment_valid(s: ElfSegmentView) -> bool {
    &&& s.memory_size != 0
    &&& s.address + s.memory_size <= 0x1_0000_0000
    &&& s.bytes.len() <= s.memory_size
    &&& s.flags <= 7
}

proof fn lemma_segments_prefix_error(raws: Seq<SegmentFacts>, i: nat, n: nat)
    requires
        i <= n,
        segments_prefix(raws, i) is Err,
    ensures
        segments_prefix(raws, n) == segments_prefix(raws, i),
    decreases n - i,
{
    if n > i {
        lemma_segments_prefix_error(raws, i, (n - 1) as nat);
    }
}

/// Every segment that normalization keeps is valid.
pub proof fn lemma_segments_prefix_valid(raws: Seq<SegmentFacts>, n: nat)
    requires
        n <= raws.len(),
        segments_prefix(raws, n) is Ok,
    ensures
        forall|k: int|
            0 <= k < segments_prefix(raws, n)->Ok_0.len() ==> elf_segment_valid(
                #[trigger] segments_prefix(raws, n)->Ok_0[k],
            ),
    decreases n,
{
    if n > 0 {
        lemma_segments_prefix_valid(raws, (n - 1) as nat);
    }
}

fn flags(readable: bool, writable: bool, executable: bool) -> (r: u32)
    ensures
        r == permission_flags(readable, writable, executable),
{
    (if readable { 1u32 } else { 0u32 }) + (if writable { 2u32 } else { 0u32 }) + (if executable {
        4u32
    } else {
        0u32
    })
}

/// Normalizes what an object file reports into the image's entry point
/// and loadable segments.
pub fn elf_image(facts: ElfFacts) -> (r: Result<(u32, Vec<ElfSegment>)>)
    ensures
        match elf_spec(facts@) {
            Ok((entry, segments)) => r matches Ok((e, v)) && e == entry && v@.map_values(
                |s: ElfSegment| elf_segment_view(s),
            ) == segments,
            Err(e) => r matches Err(re) && re == e,
        },
{
    if !facts.header.0 || !facts.header.1 || !facts.header.2 || !facts.header.3 {
        return Err(ImageError::InvalidElf("expected a little-endian ARM executable ELF"));
    }
    let ns = facts.section_relocations.len();
    let mut i: usize = 0;
    while i < ns
        invariant
            i <= ns,
            ns == facts.section_relocations@.len(),
            forall|k: int| 0 <= k < i ==> !facts.section_relocations@[k],
            facts.header.0 && facts.header.1 && facts.header.2 && facts.header.3,
        decreases ns - i,
    {
        if facts.section_relocations[i] {
            assert(facts.section_relocations@[i as int]);
            assert(facts.section_relocations@.contains(true));
            return Err(ImageError::InvalidElf("relocations are unsupported"));
        }
        i += 1;
    }
    if facts.dynamic_relocations {
        return Err(ImageError::InvalidElf("relocations are unsupported"));
    }
    assert(!facts.section_relocations@.contains(true));
    let ghost raws = facts@.segments;
    let ghost reported = facts.segments@;
    let ghost facts_view = facts@;
    let entry = facts.entry;
    let mut raw_segments = facts.segments;
    let n = raw_segments.len();
    let mut segments: Vec<ElfSegment> = Vec::new();
    assert(segments@.map_values(|s: ElfSegment| elf_segment_view(s)) =~= Seq::<ElfSegmentView>::empty());
    assert(raw_segments@ =~= reported.subrange(0, n as int));
    let mut index: usize = 0;
    while index < n
        invariant
            index <= n,
            n == raws.len(),
            raw_segments@ == reported.subrange(index as int, n as int),
            raws == reported.map_values(|r: RawSegment| segment_facts(r)),
            raws == facts_view.segments,
            facts_view == facts@,
            entry == facts_view.entry,
            facts_view.header.0 && facts_view.header.1 && facts_view.header.2 && facts_view.header.3,
            !facts_view.section_relocations.contains(true),
            !facts_view.dynamic_relocations,
            segments_prefix(raws, index as nat) == Ok::<Seq<ElfSegmentView>, ImageError>(
                segments@.map_values(|s: ElfSegment| elf_segment_view(s)),
            ),
        decreases n - index,
    {
        let raw = raw_segments.remove(0);
        assert(raw == reported[index as int]);
        assert(segment_facts(raw) == raws[index as int]);
        assert(raw_segments@ =~= reported.subrange(index + 1, n as int));
        let ghost before = segments@.map_values(|s: ElfSegment| elf_segment_view(s));
        if raw.1 != 0 {
            assert(raws[index as int].size == raw.1 && raws[index as int].address == raw.0);
            if raw.0 > u32::MAX as u64 {
                proof { lemma_segments_prefix_error(raws, (index + 1) as nat, n as nat); }
                return Err(ImageError::InvalidElf("segment address"));
            }
            if raw.1 > u32::MAX as u64 {
                proof { lemma_segments_prefix_error(raws, (index + 1) as nat, n as nat); }
                return Err(ImageError::InvalidElf("segment memory size"));
            }
            if raw.0 + raw.1 > 0x1_0000_0000u64 {
                proof { lemma_segments_prefix_error(raws, (index + 1) as nat, n as nat); }
                return Err(ImageError::InvalidElf("segment range"));
            }
            let readable = raw.3;
            let writable = raw.4;
            let executable = raw.5;
            let data = match raw.2 {
                Ok(data) => data,
                Err(e) => {
                    proof { lemma_segments_prefix_error(raws, (index + 1) as nat, n as nat); }
                    return Err(ImageError::Elf(e));
                },
            };
            if data.len() as u64 > raw.1 {
                proof { lemma_segments_prefix_error(raws, (index + 1) as nat, n as nat); }
                return Err(ImageError::InvalidElf("segment file size"));
            }
            segments.push(
                ElfSegment {
                    address: raw.0 as u32,
                    bytes: data,
                    memory_size: raw.1 as u32,
                    flags: flags(readable, writable, executable),
                },
            );
            assert(segments@.map_values(|s: ElfSegment| elf_segment_view(s)) =~= before.push(
                elf_segment_view(segments@.last()),
            ));
        }
        index += 1;
    }
    if segments.len() == 0 {
        return Err(ImageError::InvalidElf("no loadable segments"));
    }
    if entry > u32::MAX as u64 {
        return Err(ImageError::InvalidElf("entry"));
    }
    Ok((entry as u32, segments))
}

/// Parses `bytes` with `object::File::parse` and reads what the packer
/// checks: the format, architecture, kind and byte order, whether each
/// section has relocations, whether there are dynamic relocations, each
/// segment's address, size, data and permissions, and the entry point.
/// The claim is that these are a function of the bytes alone, named
/// `object_elf_facts`; nothing more is claimed of their values.
#[verifier::external_body]
fn read_elf(bytes: &[u8]) -> (r: core::result::Result<ElfFacts, ObjectError>)
    ensures
        match r {
            Ok(facts) => object_elf_facts(bytes@) == Ok::<ElfFactsView, ObjectError>(facts@),
            Err(e) => object_elf_facts(bytes@) == Err::<ElfFactsView, ObjectError>(e),
        },
{
    let f = File::parse(bytes)?;
    Ok(ElfFacts {
        header: (f.format() == BinaryFormat::Elf, f.architecture() == Architecture::Arm,
            f.kind() == ObjectKind::Executable, f.is_little_endian()),
        section_relocations: f.sections().map(|s| s.relocations().next().is_some()).collect(),
        dynamic_relocations: f.dynamic_relocations().is_some_and(|mut r| r.next().is_some()),
        segments: f.segments().map(|s| RawSegment(s.address(), s.size(), s.data().map(Vec::from),
            s.permissions().readable(), s.permissions().writable(), s.permissions().executable())).collect(),
        entry: f.entry(),
    })
}

/// What parsing an object file yields: the `object` crate's error, or
/// the image its facts describe.
pub open spec fn parse_elf_spec(bytes: Seq<u8>) -> Result<(u32, Seq<ElfSegmentView>)> {
    match object_elf_facts(bytes) {
        Err(e) => Err(ImageError::Elf(e)),
        Ok(facts) => elf_spec(facts),
    }
}

/// Parses an executable ELF into its entry point and loadable segments.
pub fn parse_elf(bytes: &[u8]) -> (r: Result<(u32, Vec<ElfSegment>)>)
    ensures
        match parse_elf_spec(bytes@) {
            Ok((entry, segments)) => r matches Ok((e, v)) && e == entry && v@.map_values(
                |s: ElfSegment| elf_segment_view(s),
            ) == segments,
            Err(e) => r matches Err(re) && re == e,
        },
        r matches Ok((_, segments)) ==> segments@.len() > 0 && forall|k: int|
            0 <= k < segments@.len() ==> elf_segment_valid(
                #[trigger] elf_segment_view(segments@[k]),
            ),
{
    let facts = match read_elf(bytes) {
        Ok(facts) => facts,
        Err(e) => return Err(ImageError::Elf(e)),
    };
    let ghost raws = facts@.segments;
    let r = elf_image(facts);
    proof {
        if r is Ok {
            lemma_segments_prefix_valid(raws, raws.len());
            let views = segments_prefix(raws, raws.len())->Ok_0;
            assert forall|k: int| 0 <= k < r->Ok_0.1@.len() implies elf_segment_valid(
                #[trigger] elf_segment_view(r->Ok_0.1@[k]),
            ) by {
                assert(r->Ok_0.1@.map_values(|s: ElfSegment| elf_segment_view(s))[k] == views[k]);
            }
        }
    }
    r
}

} // verus!
