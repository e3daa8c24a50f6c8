//! Loaded 64-bit ELF images and their address translation.
use vstd::prelude::*;

use super::object_file::{
    object_architecture, object_dynamic_relocations, object_elf64, object_entry,
    object_has_symbols, object_kind, object_little_endian, object_sections, object_segments,
    parse_architecture, parse_dynamic_relocations, parse_entry, parse_has_symbols,
    parse_is_elf64, parse_kind, parse_little_endian, parse_sections, parse_segments, RawRelocation,
    RawSection, RawSegment,
};
use super::{
    is_load, is_load_segment, relocations_sorted, Architecture, BinaryFormat, BinaryImage,
    BinaryKind, Endianness, Permissions, RelativeRelocation, SectionInfo, SegmentInfo,
};
use crate::{Error, Result};

verus! {

/// File offset of `address` inside a loadable segment's file-backed bytes.
pub open spec fn segment_offset(s: SegmentInfo, address: u64) -> Option<u64> {
    if is_load(s) && s.virtual_address <= address && address - s.virtual_address < s.file_size
        && s.file_offset + (address - s.virtual_address) <= u64::MAX {
        Some((s.file_offset + (address - s.virtual_address)) as u64)
    } else {
        None
    }
}

/// Virtual address of file `offset` inside a loadable segment's file-backed bytes.
pub open spec fn segment_address(s: SegmentInfo, offset: u64) -> Option<u64> {
    if is_load(s) && s.file_offset <= offset && offset - s.file_offset < s.file_size
        && s.virtual_address + (offset - s.file_offset) <= u64::MAX {
        Some((s.virtual_address + (offset - s.file_offset)) as u64)
    } else {
        None
    }
}

/// Translation of `address` by the first loadable segment that maps it from the file.
pub open spec fn load_virtual_to_offset(segments: Seq<SegmentInfo>, address: u64) -> Option<u64>
    decreases segments.len(),
{
    if segments.len() == 0 {
        None
    } else {
        match segment_offset(segments[0], address) {
            Some(offset) => Some(offset),
            None => load_virtual_to_offset(segments.drop_first(), address),
        }
    }
}

/// Translation of file `offset` by the first loadable segment that maps it.
pub open spec fn load_offset_to_virtual(segments: Seq<SegmentInfo>, offset: u64) -> Option<u64>
    decreases segments.len(),
{
    if segments.len() == 0 {
        None
    } else {
        match segment_address(segments[0], offset) {
            Some(address) => Some(address),
            None => load_offset_to_virtual(segments.drop_first(), offset),
        }
    }
}

/// The loadable segment `s` maps `size` bytes from `address` both in the file and in memory.
pub open spec fn segment_holds(s: SegmentInfo, address: u64, size: nat) -> bool {
    &&& is_load(s)
    &&& s.virtual_address <= address
    &&& address - s.virtual_address + size <= s.file_size
    &&& address - s.virtual_address + size <= s.virtual_size
}

/// Index of the first segment that holds the range, if any.
pub open spec fn first_holding(segments: Seq<SegmentInfo>, address: u64, size: nat) -> Option<int>
    decreases segments.len(),
{
    if segments.len() == 0 {
        None
    } else if segment_holds(segments[0], address, size) {
        Some(0)
    } else {
        match first_holding(segments.drop_first(), address, size) {
            Some(i) => Some(i + 1),
            None => None,
        }
    }
}

/// The bytes of `data` mapped at `address..address + size` by the first segment that
/// holds the whole range, when they lie inside the file.
pub open spec fn load_read(data: Seq<u8>, segments: Seq<SegmentInfo>, address: u64, size: nat) -> Option<
    Seq<u8>,
> {
    match first_holding(segments, address, size) {
        Some(i) => {
            let s = segments[i];
            let start = s.file_offset + (address - s.virtual_address);
            let end = start + size;
            if end <= u64::MAX && end <= data.len() {
                Some(data.subrange(start, end))
            } else {
                None
            }
        },
        None => None,
    }
}

/// Lowest virtual address of a loadable segment, if there is one.
pub open spec fn lowest_load_address(segments: Seq<SegmentInfo>) -> Option<u64>
    decreases segments.len(),
{
    if segments.len() == 0 {
        None
    } else {
        let rest = lowest_load_address(segments.drop_last());
        if is_load(segments.last()) {
            match rest {
                Some(low) => Some(
                    if segments.last().virtual_address < low {
                        segments.last().virtual_address
                    } else {
                        low
                    },
                ),
                None => Some(segments.last().virtual_address),
            }
        } else {
            rest
        }
    }
}

/// The image base: the lowest loadable address, or zero without loadable segments.
pub open spec fn image_base_of(segments: Seq<SegmentInfo>) -> u64 {
    match lowest_load_address(segments) {
        Some(low) => low,
        None => 0,
    }
}

/// `result` keeps one relocation per address of `input`, increasing by address.
pub open spec fn normalized_relocations(input: Seq<RelativeRelocation>, result: Seq<RelativeRelocation>) -> bool {
    &&& relocations_sorted(result)
    &&& forall|j: int| 0 <= j < result.len() ==> input.contains(#[trigger] result[j])
    &&& forall|i: int|
        0 <= i < input.len() ==> exists|j: int|
            0 <= j < result.len() && #[trigger] result[j].address == #[trigger] input[i].address
}

/// Sorts relocations by address (`slice::sort_unstable_by_key`).
#[verifier::external_body]
fn sort_by_address(relocations: &mut Vec<RelativeRelocation>)
    ensures
        final(relocations)@.to_multiset() == old(relocations)@.to_multiset(),
        forall|i: int, j: int|
            0 <= i <= j < final(relocations)@.len() ==> final(relocations)@[i].address
                <= final(relocations)@[j].address,
{
    relocations.sort_unstable_by_key(|relocation| relocation.address);
}

/// Orders relocations by address and keeps one per address.
#[verifier::spinoff_prover]
#[verifier::rlimit(40)]
pub fn normalize_relocations(relocations: Vec<RelativeRelocation>) -> (r: Vec<RelativeRelocation>)
    ensures
        normalized_relocations(relocations@, r@),
{
    let mut sorted = relocations;
    sort_by_address(&mut sorted);
    let ghost input = relocations@;
    let mut out: Vec<RelativeRelocation> = Vec::new();
    let mut i: usize = 0;
    while i < sorted.len()
        invariant
            i <= sorted@.len(),
            sorted@.to_multiset() == input.to_multiset(),
            forall|a: int, b: int|
                0 <= a <= b < sorted@.len() ==> sorted@[a].address <= sorted@[b].address,
            relocations_sorted(out@),
            forall|j: int| 0 <= j < out@.len() ==> sorted@.contains(#[trigger] out@[j]),
            forall|k: int|
                0 <= k < i ==> exists|j: int|
                    0 <= j < out@.len() && #[trigger] out@[j].address == #[trigger] sorted@[k].address,
            i > 0 ==> out@.len() > 0 && out@.last().address == sorted@[i - 1].address,
            i == 0 ==> out@.len() == 0,
        decreases sorted@.len() - i,
    {
        let current = sorted[i];
        if out.len() == 0 || out[out.len() - 1].address != current.address {
            proof {
                if out@.len() > 0 {
                    assert(sorted@[i - 1].address <= sorted@[i as int].address);
                }
            }
            let ghost before = out@;
            out.push(current);
            proof {
                assert(sorted@.contains(sorted@[i as int]));
                let n = out@.len() - 1;
                assert forall|k: int| 0 <= k < i + 1 implies exists|j: int|
                    0 <= j < out@.len() && #[trigger] out@[j].address
                        == #[trigger] sorted@[k].address by {
                    if k < i {
                        let j = choose|j: int|
                            0 <= j < before.len() && #[trigger] before[j].address
                                == sorted@[k].address;
                        assert(out@[j] == before[j]);
                    } else {
                        assert(out@[n].address == sorted@[k].address);
                    }
                }
            }
        } else {
            proof {
                let n = out@.len() - 1;
                assert forall|k: int| 0 <= k < i + 1 implies exists|j: int|
                    0 <= j < out@.len() && #[trigger] out@[j].address
                        == #[trigger] sorted@[k].address by {
                    if k == i {
                        assert(out@[n].address == sorted@[k].address);
                    }
                }
            }
        }
        i = i + 1;
    }
    proof {
        broadcast use vstd::seq_lib::group_to_multiset_ensures;

        assert forall|j: int| 0 <= j < out@.len() implies input.contains(#[trigger] out@[j]) by {
            let x = out@[j];
            assert(sorted@.contains(x));
            assert(sorted@.to_multiset().count(x) > 0);
            assert(input.to_multiset().count(x) > 0);
        }
        assert forall|k: int| 0 <= k < input.len() implies exists|j: int|
            0 <= j < out@.len() && #[trigger] out@[j].address == #[trigger] input[k].address by {
            let x = input[k];
            assert(input.contains(x));
            assert(input.to_multiset().count(x) > 0);
            assert(sorted@.to_multiset().count(x) > 0);
            assert(sorted@.contains(x));
            let m = choose|m: int| 0 <= m < sorted@.len() && sorted@[m] == x;
            assert(sorted@[m].address == x.address);
        }
    }
    out
}

/// Loaded 64-bit ELF executable image.
#[derive(Debug)]
pub struct ElfImage {
    data: Vec<u8>,
    architecture: Architecture,
    endianness: Endianness,
    kind: BinaryKind,
    entry_point: u64,
    section_count: usize,
    sections: Vec<SectionInfo>,
    segments: Vec<SegmentInfo>,
    relocations: Vec<RelativeRelocation>,
    stripped: bool,
    image_base: u64,
}

impl ElfImage {
    #[verifier::type_invariant]
    closed spec fn well_formed(self) -> bool {
        &&& relocations_sorted(self.relocations@)
        &&& self.image_base == image_base_of(self.segments@)
    }

    /// The file bytes of the image.
    pub closed spec fn bytes(&self) -> Seq<u8> {
        self.data@
    }
}


/// `segment` carries the fields of the loadable segment `raw`.
pub open spec fn segment_from_raw(segment: SegmentInfo, raw: RawSegment) -> bool {
    &&& segment.kind@ == super::load_kind()
    &&& segment.file_offset == raw.file_offset
    &&& segment.file_size == raw.file_size
    &&& segment.virtual_address == raw.address
    &&& segment.virtual_size == raw.size
    &&& segment.alignment == raw.align
    &&& segment.permissions == Permissions {
        read: raw.read,
        write: raw.write,
        execute: raw.execute,
    }
}

/// Program segments for the loadable segments `object` reported, in order.
pub fn segments_from_raw(raw: &[RawSegment]) -> (r: Vec<SegmentInfo>)
    ensures
        r@.len() == raw@.len(),
        forall|i: int| 0 <= i < raw@.len() ==> segment_from_raw(#[trigger] r@[i], raw@[i]),
{
    let mut out: Vec<SegmentInfo> = Vec::new();
    let mut i: usize = 0;
    while i < raw.len()
        invariant
            i <= raw@.len(),
            out@.len() == i,
            forall|k: int| 0 <= k < i ==> segment_from_raw(#[trigger] out@[k], raw@[k]),
        decreases raw@.len() - i,
    {
        let r = raw[i];
        let kind = "LOAD".to_owned();
        proof {
            reveal_strlit("LOAD");
        }
        assert(kind@ =~= super::load_kind());
        out.push(
            SegmentInfo {
                kind,
                file_offset: r.file_offset,
                file_size: r.file_size,
                virtual_address: r.address,
                virtual_size: r.size,
                alignment: r.align,
                permissions: Permissions { read: r.read, write: r.write, execute: r.execute },
            },
        );
        i = i + 1;
    }
    out
}

/// ELF section flag: the section occupies memory at run time.
pub const SHF_ALLOC: u64 = 0x2;

/// ELF section flag: the section is writable.
pub const SHF_WRITE: u64 = 0x1;

/// ELF section flag: the section holds executable instructions.
pub const SHF_EXECINSTR: u64 = 0x4;

/// Permissions described by ELF section flags.
pub open spec fn section_permissions(sh_flags: Option<u64>) -> Permissions {
    match sh_flags {
        Some(flags) => Permissions {
            read: flags & SHF_ALLOC != 0,
            write: flags & SHF_WRITE != 0,
            execute: flags & SHF_EXECINSTR != 0,
        },
        None => Permissions { read: false, write: false, execute: false },
    }
}

/// The sections whose name could be read, in order.
pub open spec fn named_sections(raw: Seq<RawSection>) -> Seq<RawSection>
    decreases raw.len(),
{
    if raw.len() == 0 {
        Seq::empty()
    } else if raw.last().name is Some {
        named_sections(raw.drop_last()).push(raw.last())
    } else {
        named_sections(raw.drop_last())
    }
}

/// `section` carries the name, addresses and permissions of the named section `raw`.
pub open spec fn section_from_raw(section: SectionInfo, raw: RawSection) -> bool {
    &&& raw.name matches Some(name) && section.name@ == name@
    &&& section.file_offset == match raw.file_range {
        Some(range) => Some(range.0),
        None => None::<u64>,
    }
    &&& section.virtual_address == raw.address
    &&& section.size == raw.size
    &&& section.permissions == section_permissions(raw.sh_flags)
}

/// Section descriptions for the sections `object` reported with a readable name.
pub fn sections_from_raw(raw: &[RawSection]) -> (r: Vec<SectionInfo>)
    ensures
        r@.len() == named_sections(raw@).len(),
        forall|i: int|
            0 <= i < r@.len() ==> section_from_raw(#[trigger] r@[i], named_sections(raw@)[i]),
{
    let mut out: Vec<SectionInfo> = Vec::new();
    let mut i: usize = 0;
    while i < raw.len()
        invariant
            i <= raw@.len(),
            out@.len() == named_sections(raw@.take(i as int)).len(),
            forall|k: int|
                0 <= k < out@.len() ==> section_from_raw(
                    #[trigger] out@[k],
                    named_sections(raw@.take(i as int))[k],
                ),
        decreases raw@.len() - i,
    {
        let section = &raw[i];
        assert(raw@.take(i + 1).drop_last() =~= raw@.take(i as int));
        match &section.name {
            Some(name) => {
                let permissions = match section.sh_flags {
                    Some(flags) => Permissions {
                        read: flags & SHF_ALLOC != 0,
                        write: flags & SHF_WRITE != 0,
                        execute: flags & SHF_EXECINSTR != 0,
                    },
                    None => Permissions { read: false, write: false, execute: false },
                };
                let file_offset = match section.file_range {
                    Some(range) => Some(range.0),
                    None => None,
                };
                out.push(
                    SectionInfo {
                        name: name.clone(),
                        file_offset,
                        virtual_address: section.address,
                        size: section.size,
                        permissions,
                    },
                );
            },
            None => {},
        }
        i = i + 1;
    }
    assert(raw@.take(raw@.len() as int) =~= raw@);
    out
}

/// ELF relocation type that adds the image base to an addend on AArch64.
pub const R_AARCH64_RELATIVE: u32 = 1027;

/// ELF relocation type that adds the image base to an addend on x86-64.
pub const R_X86_64_RELATIVE: u32 = 8;

/// The relative relocation type of an architecture.
pub open spec fn relative_type(architecture: Architecture) -> Option<u32> {
    match architecture {
        Architecture::Arm64 => Some(R_AARCH64_RELATIVE),
        Architecture::X86_64 => Some(R_X86_64_RELATIVE),
        Architecture::Unknown => None,
    }
}

/// The relative relocations among `raw`, as address and addend, in order.
pub open spec fn relative_entries(raw: Seq<RawRelocation>, architecture: Architecture) -> Seq<
    RelativeRelocation,
>
    decreases raw.len(),
{
    if raw.len() == 0 {
        Seq::empty()
    } else {
        let rest = relative_entries(raw.drop_last(), architecture);
        let last = raw.last();
        if last.r_type.is_some() && last.r_type == relative_type(architecture) {
            rest.push(RelativeRelocation { address: last.offset, addend: last.addend })
        } else {
            rest
        }
    }
}

/// The relative relocations among the dynamic relocations `object` reported.
pub fn relative_relocations_from_raw(raw: &[RawRelocation], architecture: Architecture) -> (r: Vec<
    RelativeRelocation,
>)
    ensures
        r@ == relative_entries(raw@, architecture),
{
    let wanted: Option<u32> = match architecture {
        Architecture::Arm64 => Some(R_AARCH64_RELATIVE),
        Architecture::X86_64 => Some(R_X86_64_RELATIVE),
        Architecture::Unknown => None,
    };
    let mut out: Vec<RelativeRelocation> = Vec::new();
    let mut i: usize = 0;
    while i < raw.len()
        invariant
            i <= raw@.len(),
            wanted == relative_type(architecture),
            out@ == relative_entries(raw@.take(i as int), architecture),
        decreases raw@.len() - i,
    {
        let relocation = raw[i];
        assert(raw@.take(i + 1).drop_last() =~= raw@.take(i as int));
        match (relocation.r_type, wanted) {
            (Some(found), Some(expected)) => {
                if found == expected {
                    out.push(
                        RelativeRelocation { address: relocation.offset, addend: relocation.addend },
                    );
                }
            },
            _ => {},
        }
        i = i + 1;
    }
    assert(raw@.take(raw@.len() as int) =~= raw@);
    out
}

/// Lowest loadable virtual address, or zero.
fn compute_image_base(segments: &[SegmentInfo]) -> (r: u64)
    ensures
        r == image_base_of(segments@),
{
    let mut low: Option<u64> = None;
    let mut i: usize = 0;
    while i < segments.len()
        invariant
            i <= segments@.len(),
            low == lowest_load_address(segments@.take(i as int)),
        decreases segments@.len() - i,
    {
        let segment = &segments[i];
        assert(segments@.take(i + 1).drop_last() =~= segments@.take(i as int));
        if is_load_segment(segment) {
            low = match low {
                Some(current) => Some(
                    if segment.virtual_address < current {
                        segment.virtual_address
                    } else {
                        current
                    },
                ),
                None => Some(segment.virtual_address),
            };
        }
        i = i + 1;
    }
    assert(segments@.take(segments@.len() as int) =~= segments@);
    match low {
        Some(value) => value,
        None => 0,
    }
}

/// Every query `object` answers about the bytes succeeds, and the file is a 64-bit ELF.
pub open spec fn object_accepts(data: Seq<u8>) -> bool {
    &&& object_elf64(data)
    &&& object_architecture(data) is Some
    &&& object_little_endian(data) is Some
    &&& object_kind(data) is Some
    &&& object_entry(data) is Some
    &&& object_has_symbols(data) is Some
    &&& object_segments(data) is Some
    &&& object_sections(data) is Some
    &&& object_dynamic_relocations(data) is Some
}


impl ElfImage {
    /// Builds an image from its bytes and already-decoded headers.
    ///
    /// Relocations are ordered by address with one kept per address; the image base is the
    /// lowest loadable address.
    pub fn from_parts(
        data: Vec<u8>,
        architecture: Architecture,
        endianness: Endianness,
        kind: BinaryKind,
        entry_point: u64,
        section_count: usize,
        sections: Vec<SectionInfo>,
        segments: Vec<SegmentInfo>,
        relocations: Vec<RelativeRelocation>,
        stripped: bool,
    ) -> (r: ElfImage)
        ensures
            r.bytes() == data@,
            r.spec_format() == BinaryFormat::Elf64,
            r.spec_architecture() == architecture,
            r.spec_endianness() == endianness,
            r.spec_kind() == kind,
            r.spec_entry_point() == entry_point,
            r.spec_section_count() == section_count,
            r.spec_sections() == sections@,
            r.spec_segments() == segments@,
            normalized_relocations(relocations@, r.spec_relocations()),
            r.spec_stripped() == stripped,
    {
        let image_base = compute_image_base(segments.as_slice());
        let relocations = normalize_relocations(relocations);
        ElfImage {
            data,
            architecture,
            endianness,
            kind,
            entry_point,
            section_count,
            sections,
            segments,
            relocations,
            stripped,
            image_base,
        }
    }

    /// Parses a 64-bit ELF image from owned bytes.
    pub fn parse(data: Vec<u8>) -> (r: Result<ElfImage>)
        ensures
            r is Ok <==> object_accepts(data@),
            r matches Err(e) ==> e == Error::InvalidBinary,
            r matches Ok(image) ==> {
                &&& image.bytes() == data@
                &&& Some(image.spec_architecture()) == object_architecture(data@)
                &&& object_little_endian(data@) == Some(
                    image.spec_endianness() == Endianness::Little,
                )
                &&& Some(image.spec_kind()) == object_kind(data@)
                &&& Some(image.spec_entry_point()) == object_entry(data@)
                &&& object_has_symbols(data@) == Some(!image.spec_stripped())
                &&& image.spec_segments().len() == object_segments(data@)->0.len()
                &&& forall|i: int|
                    0 <= i < image.spec_segments().len() ==> segment_from_raw(
                        #[trigger] image.spec_segments()[i],
                        object_segments(data@)->0[i],
                    )
                &&& image.spec_section_count() == object_sections(data@)->0.len()
                &&& image.spec_sections().len() == named_sections(object_sections(data@)->0).len()
                &&& forall|i: int|
                    0 <= i < image.spec_sections().len() ==> section_from_raw(
                        #[trigger] image.spec_sections()[i],
                        named_sections(object_sections(data@)->0)[i],
                    )
                &&& normalized_relocations(
                    relative_entries(
                        object_dynamic_relocations(data@)->0,
                        image.spec_architecture(),
                    ),
                    image.spec_relocations(),
                )
            },
    {
        let bytes = data.as_slice();
        if !parse_is_elf64(bytes) {
            return Err(Error::InvalidBinary);
        }
        let architecture = match parse_architecture(bytes) {
            Some(architecture) => architecture,
            None => return Err(Error::InvalidBinary),
        };
        let endianness = match parse_little_endian(bytes) {
            Some(true) => Endianness::Little,
            Some(false) => Endianness::Big,
            None => return Err(Error::InvalidBinary),
        };
        let kind = match parse_kind(bytes) {
            Some(kind) => kind,
            None => return Err(Error::InvalidBinary),
        };
        let entry_point = match parse_entry(bytes) {
            Some(entry) => entry,
            None => return Err(Error::InvalidBinary),
        };
        let stripped = match parse_has_symbols(bytes) {
            Some(has_symbols) => !has_symbols,
            None => return Err(Error::InvalidBinary),
        };
        let raw_segments = match parse_segments(bytes) {
            Some(raw) => raw,
            None => return Err(Error::InvalidBinary),
        };
        let raw_sections = match parse_sections(bytes) {
            Some(raw) => raw,
            None => return Err(Error::InvalidBinary),
        };
        let raw_relocations = match parse_dynamic_relocations(bytes) {
            Some(raw) => raw,
            None => return Err(Error::InvalidBinary),
        };
        let segments = segments_from_raw(raw_segments.as_slice());
        let sections = sections_from_raw(raw_sections.as_slice());
        let relocations = relative_relocations_from_raw(raw_relocations.as_slice(), architecture);
        let section_count = raw_sections.len();
        Ok(
            ElfImage::from_parts(
                data,
                architecture,
                endianness,
                kind,
                entry_point,
                section_count,
                sections,
                segments,
                relocations,
                stripped,
            ),
        )
    }
}

impl BinaryImage for ElfImage {
    open spec fn spec_format(&self) -> BinaryFormat {
        BinaryFormat::Elf64
    }

    closed spec fn spec_architecture(&self) -> Architecture {
        self.architecture
    }

    closed spec fn spec_endianness(&self) -> Endianness {
        self.endianness
    }

    closed spec fn spec_kind(&self) -> BinaryKind {
        self.kind
    }

    open spec fn spec_file_size(&self) -> u64 {
        self.bytes().len() as u64
    }

    closed spec fn spec_entry_point(&self) -> u64 {
        self.entry_point
    }

    closed spec fn spec_section_count(&self) -> usize {
        self.section_count
    }

    closed spec fn spec_sections(&self) -> Seq<SectionInfo> {
        self.sections@
    }

    closed spec fn spec_segments(&self) -> Seq<SegmentInfo> {
        self.segments@
    }

    closed spec fn spec_relocations(&self) -> Seq<RelativeRelocation> {
        self.relocations@
    }

    closed spec fn spec_stripped(&self) -> bool {
        self.stripped
    }

    open spec fn spec_image_base(&self) -> u64 {
        image_base_of(self.spec_segments())
    }

    open spec fn spec_virtual_to_offset(&self, address: u64) -> Option<u64> {
        load_virtual_to_offset(self.spec_segments(), address)
    }

    open spec fn spec_offset_to_virtual(&self, offset: u64) -> Option<u64> {
        load_offset_to_virtual(self.spec_segments(), offset)
    }

    open spec fn spec_read(&self, address: u64, size: nat) -> Option<Seq<u8>> {
        load_read(self.bytes(), self.spec_segments(), address, size)
    }

    fn format(&self) -> (r: BinaryFormat) {
        BinaryFormat::Elf64
    }

    fn architecture(&self) -> (r: Architecture) {
        self.architecture
    }

    fn endianness(&self) -> (r: Endianness) {
        self.endianness
    }

    fn kind(&self) -> (r: BinaryKind) {
        self.kind
    }

    fn file_size(&self) -> (r: u64) {
        self.data.len() as u64
    }

    fn entry_point(&self) -> (r: u64) {
        self.entry_point
    }

    fn section_count(&self) -> (r: usize) {
        self.section_count
    }

    fn sections(&self) -> (r: &[SectionInfo]) {
        self.sections.as_slice()
    }

    fn segments(&self) -> (r: &[SegmentInfo]) {
        self.segments.as_slice()
    }

    fn relative_relocations(&self) -> (r: &[RelativeRelocation]) {
        proof {
            use_type_invariant(self);
        }
        self.relocations.as_slice()
    }

    fn is_stripped(&self) -> (r: bool) {
        self.stripped
    }

    fn image_base(&self) -> (r: u64) {
        proof {
            use_type_invariant(self);
        }
        self.image_base
    }

    fn virtual_to_offset(&self, address: u64) -> (r: Option<u64>) {
        let mut i: usize = 0;
        assert(self.segments@.skip(0) =~= self.segments@);
        while i < self.segments.len()
            invariant
                i <= self.segments@.len(),
                load_virtual_to_offset(self.segments@, address) == load_virtual_to_offset(
                    self.segments@.skip(i as int),
                    address,
                ),
            decreases self.segments@.len() - i,
        {
            let segment = &self.segments[i];
            if is_load_segment(segment) && segment.virtual_address <= address {
                let relative = address - segment.virtual_address;
                if relative < segment.file_size && relative <= u64::MAX - segment.file_offset {
                    return Some(segment.file_offset + relative);
                }
            }
            assert(self.segments@.skip(i as int).drop_first() =~= self.segments@.skip(i + 1));
            i = i + 1;
        }
        None
    }

    fn offset_to_virtual(&self, offset: u64) -> (r: Option<u64>) {
        let mut i: usize = 0;
        assert(self.segments@.skip(0) =~= self.segments@);
        while i < self.segments.len()
            invariant
                i <= self.segments@.len(),
                load_offset_to_virtual(self.segments@, offset) == load_offset_to_virtual(
                    self.segments@.skip(i as int),
                    offset,
                ),
            decreases self.segments@.len() - i,
        {
            let segment = &self.segments[i];
            if is_load_segment(segment) && segment.file_offset <= offset {
                let relative = offset - segment.file_offset;
                if relative < segment.file_size && relative <= u64::MAX - segment.virtual_address {
                    return Some(segment.virtual_address + relative);
                }
            }
            assert(self.segments@.skip(i as int).drop_first() =~= self.segments@.skip(i + 1));
            i = i + 1;
        }
        None
    }

    fn read_virtual(&self, address: u64, size: usize) -> (r: Result<&[u8]>) {
        let wanted = size as u64;
        let mut i: usize = 0;
        assert(self.segments@.skip(0) =~= self.segments@);
        while i < self.segments.len()
            invariant
                i <= self.segments@.len(),
                wanted == size,
                first_holding(self.segments@, address, size as nat) == match first_holding(
                    self.segments@.skip(i as int),
                    address,
                    size as nat,
                ) {
                    Some(k) => Some(k + i),
                    None => None::<int>,
                },
            decreases self.segments@.len() - i,
        {
            let segment = &self.segments[i];
            if is_load_segment(segment) && segment.virtual_address <= address {
                let relative = address - segment.virtual_address;
                if relative <= segment.file_size && wanted <= segment.file_size - relative
                    && relative <= segment.virtual_size && wanted <= segment.virtual_size
                    - relative {
                    if segment.file_offset > u64::MAX - relative {
                        return Err(Error::AddressTranslationFailed);
                    }
                    let start = segment.file_offset + relative;
                    if start > u64::MAX - wanted {
                        return Err(Error::AddressTranslationFailed);
                    }
                    let end = start + wanted;
                    if end > self.data.len() as u64 {
                        return Err(Error::AddressTranslationFailed);
                    }
                    let bytes = vstd::slice::slice_subrange(
                        self.data.as_slice(),
                        start as usize,
                        end as usize,
                    );
                    return Ok(bytes);
                }
            }
            assert(self.segments@.skip(i as int).drop_first() =~= self.segments@.skip(i + 1));
            i = i + 1;
        }
        Err(Error::AddressTranslationFailed)
    }
}


/// The file-backed bytes of distinct loadable segments do not overlap in the file.
pub open spec fn file_ranges_disjoint(segments: Seq<SegmentInfo>) -> bool {
    forall|i: int, j: int|
        0 <= i < segments.len() && 0 <= j < segments.len() && i != j && is_load(segments[i])
            && is_load(segments[j]) ==> segments[i].file_offset + segments[i].file_size
            <= segments[j].file_offset || segments[j].file_offset + segments[j].file_size
            <= segments[i].file_offset
}

/// The file-backed bytes of distinct loadable segments do not overlap in memory.
pub open spec fn memory_ranges_disjoint(segments: Seq<SegmentInfo>) -> bool {
    forall|i: int, j: int|
        0 <= i < segments.len() && 0 <= j < segments.len() && i != j && is_load(segments[i])
            && is_load(segments[j]) ==> segments[i].virtual_address + segments[i].file_size
            <= segments[j].virtual_address || segments[j].virtual_address + segments[j].file_size
            <= segments[i].virtual_address
}

proof fn lemma_translation_witness(segments: Seq<SegmentInfo>, address: u64)
    ensures
        load_virtual_to_offset(segments, address) matches Some(offset) ==> exists|i: int|
            0 <= i < segments.len() && segment_offset(#[trigger] segments[i], address) == Some(
                offset,
            ),
    decreases segments.len(),
{
    if segments.len() > 0 {
        lemma_translation_witness(segments.drop_first(), address);
        if segment_offset(segments[0], address) is None {
            if load_virtual_to_offset(segments, address) is Some {
                let offset = load_virtual_to_offset(segments, address)->0;
                let k = choose|k: int|
                    0 <= k < segments.drop_first().len() && segment_offset(
                        #[trigger] segments.drop_first()[k],
                        address,
                    ) == Some(offset);
                assert(segments[k + 1] == segments.drop_first()[k]);
            }
        }
    }
}

proof fn lemma_reverse_witness(segments: Seq<SegmentInfo>, offset: u64)
    ensures
        load_offset_to_virtual(segments, offset) matches Some(address) ==> exists|i: int|
            0 <= i < segments.len() && segment_address(#[trigger] segments[i], offset) == Some(
                address,
            ),
    decreases segments.len(),
{
    if segments.len() > 0 {
        lemma_reverse_witness(segments.drop_first(), offset);
        if segment_address(segments[0], offset) is None {
            if load_offset_to_virtual(segments, offset) is Some {
                let address = load_offset_to_virtual(segments, offset)->0;
                let k = choose|k: int|
                    0 <= k < segments.drop_first().len() && segment_address(
                        #[trigger] segments.drop_first()[k],
                        offset,
                    ) == Some(address);
                assert(segments[k + 1] == segments.drop_first()[k]);
            }
        }
    }
}

proof fn lemma_reverse_unique(segments: Seq<SegmentInfo>, offset: u64, i: int, address: u64)
    requires
        0 <= i < segments.len(),
        segment_address(segments[i], offset) == Some(address),
        forall|j: int|
            0 <= j < segments.len() && j != i ==> segment_address(#[trigger] segments[j], offset)
                is None,
    ensures
        load_offset_to_virtual(segments, offset) == Some(address),
    decreases segments.len(),
{
    if i > 0 {
        let rest = segments.drop_first();
        assert forall|j: int| 0 <= j < rest.len() && j != i - 1 implies segment_address(
            #[trigger] rest[j],
            offset,
        ) is None by {
            assert(rest[j] == segments[j + 1]);
        }
        assert(rest[i - 1] == segments[i]);
        lemma_reverse_unique(rest, offset, i - 1, address);
        assert(segment_address(segments[0], offset) is None);
    }
}

proof fn lemma_forward_unique(segments: Seq<SegmentInfo>, address: u64, i: int, offset: u64)
    requires
        0 <= i < segments.len(),
        segment_offset(segments[i], address) == Some(offset),
        forall|j: int|
            0 <= j < segments.len() && j != i ==> segment_offset(#[trigger] segments[j], address)
                is None,
    ensures
        load_virtual_to_offset(segments, address) == Some(offset),
    decreases segments.len(),
{
    if i > 0 {
        let rest = segments.drop_first();
        assert forall|j: int| 0 <= j < rest.len() && j != i - 1 implies segment_offset(
            #[trigger] rest[j],
            address,
        ) is None by {
            assert(rest[j] == segments[j + 1]);
        }
        assert(rest[i - 1] == segments[i]);
        lemma_forward_unique(rest, address, i - 1, offset);
        assert(segment_offset(segments[0], address) is None);
    }
}

/// When loadable segments do not share file bytes, the file offset an address translates to
/// translates back to that address.
pub proof fn law_offset_maps_back(image: ElfImage, address: u64)
    requires
        file_ranges_disjoint(image.spec_segments()),
        image.spec_virtual_to_offset(address) is Some,
    ensures
        image.spec_offset_to_virtual(image.spec_virtual_to_offset(address)->0) == Some(address),
{
    let segments = image.spec_segments();
    let offset = load_virtual_to_offset(segments, address)->0;
    lemma_translation_witness(segments, address);
    let i = choose|i: int|
        0 <= i < segments.len() && segment_offset(#[trigger] segments[i], address) == Some(offset);
    assert forall|j: int| 0 <= j < segments.len() && j != i implies segment_address(
        #[trigger] segments[j],
        offset,
    ) is None by {
        if segment_address(segments[j], offset) is Some {
            assert(segments[j].file_offset <= offset < segments[j].file_offset + segments[j].file_size);
            assert(segments[i].file_offset <= offset < segments[i].file_offset + segments[i].file_size);
        }
    }
    lemma_reverse_unique(segments, offset, i, address);
}

/// When loadable segments do not share memory, the address a file offset translates to
/// translates back to that offset.
pub proof fn law_address_maps_back(image: ElfImage, offset: u64)
    requires
        memory_ranges_disjoint(image.spec_segments()),
        image.spec_offset_to_virtual(offset) is Some,
    ensures
        image.spec_virtual_to_offset(image.spec_offset_to_virtual(offset)->0) == Some(offset),
{
    let segments = image.spec_segments();
    let address = load_offset_to_virtual(segments, offset)->0;
    lemma_reverse_witness(segments, offset);
    let i = choose|i: int|
        0 <= i < segments.len() && segment_address(#[trigger] segments[i], offset) == Some(address);
    assert forall|j: int| 0 <= j < segments.len() && j != i implies segment_offset(
        #[trigger] segments[j],
        address,
    ) is None by {
        if segment_offset(segments[j], address) is Some {
            assert(segments[j].virtual_address <= address < segments[j].virtual_address
                + segments[j].file_size);
            assert(segments[i].virtual_address <= address < segments[i].virtual_address
                + segments[i].file_size);
        }
    }
    lemma_forward_unique(segments, address, i, offset);
}


proof fn lemma_first_holding_range(segments: Seq<SegmentInfo>, address: u64, size: nat)
    ensures
        first_holding(segments, address, size) matches Some(i) ==> 0 <= i < segments.len()
            && segment_holds(segments[i], address, size),
    decreases segments.len(),
{
    if segments.len() > 0 && !segment_holds(segments[0], address, size) {
        lemma_first_holding_range(segments.drop_first(), address, size);
        if first_holding(segments.drop_first(), address, size) is Some {
            let k = first_holding(segments.drop_first(), address, size)->0;
            assert(segments[k + 1] == segments.drop_first()[k]);
        }
    }
}

/// When loadable segments do not share memory, a successful read of at least one byte
/// returns the file bytes that start at the offset its address translates to.
pub proof fn law_read_follows_translation(image: ElfImage, address: u64, size: nat)
    requires
        memory_ranges_disjoint(image.spec_segments()),
        size >= 1,
        image.spec_read(address, size) is Some,
    ensures
        image.spec_virtual_to_offset(address) matches Some(offset) && image.spec_read(
            address,
            size,
        ) == Some(image.bytes().subrange(offset as int, offset + size)),
{
    let segments = image.spec_segments();
    lemma_first_holding_range(segments, address, size);
    let i = first_holding(segments, address, size)->0;
    let s = segments[i];
    let offset = (s.file_offset + (address - s.virtual_address)) as u64;
    assert(segment_offset(s, address) == Some(offset));
    assert forall|j: int| 0 <= j < segments.len() && j != i implies segment_offset(
        #[trigger] segments[j],
        address,
    ) is None by {
        if segment_offset(segments[j], address) is Some {
            assert(segments[j].virtual_address <= address < segments[j].virtual_address
                + segments[j].file_size);
            assert(s.virtual_address <= address < s.virtual_address + s.file_size);
        }
    }
    lemma_forward_unique(segments, address, i, offset);
}

} // verus!
