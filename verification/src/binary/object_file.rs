//! What the `object` crate reports about an executable, as plain values.
use vstd::prelude::*;

use object::{Object, ObjectSection, ObjectSegment};

use super::{Architecture, BinaryKind};

verus! {

/// A loadable segment as reported by `object`.
#[derive(Debug, Clone, Copy, PartialEq, Eq, Structural)]
pub struct RawSegment {
    pub address: u64,
    pub size: u64,
    pub align: u64,
    pub file_offset: u64,
    pub file_size: u64,
    pub read: bool,
    pub write: bool,
    pub execute: bool,
}

/// A section as reported by `object`: its name when readable, and its ELF `sh_flags`.
#[derive(Debug)]
pub struct RawSection {
    pub name: Option<String>,
    pub address: u64,
    pub size: u64,
    pub file_range: Option<(u64, u64)>,
    pub sh_flags: Option<u64>,
}

/// A dynamic relocation as reported by `object`: target offset, ELF `r_type` and addend.
#[derive(Debug, Clone, Copy, PartialEq, Eq, Structural)]
pub struct RawRelocation {
    pub offset: u64,
    pub r_type: Option<u32>,
    pub addend: i64,
}

/// Whether `object::File::parse` recognizes the bytes as a 64-bit ELF file.
pub uninterp spec fn object_elf64(data: Seq<u8>) -> bool;

/// The architecture `Object::architecture` reports for the parsed bytes.
pub uninterp spec fn object_architecture(data: Seq<u8>) -> Option<Architecture>;

/// Whether `Object::is_little_endian` holds for the parsed bytes.
pub uninterp spec fn object_little_endian(data: Seq<u8>) -> Option<bool>;

/// The object kind `Object::kind` reports for the parsed bytes.
pub uninterp spec fn object_kind(data: Seq<u8>) -> Option<BinaryKind>;

/// The entry address `Object::entry` reports for the parsed bytes.
pub uninterp spec fn object_entry(data: Seq<u8>) -> Option<u64>;

/// Whether `Object::symbol_table` finds a symbol table in the parsed bytes.
pub uninterp spec fn object_has_symbols(data: Seq<u8>) -> Option<bool>;

/// The loadable segments `Object::segments` yields for the parsed bytes.
pub uninterp spec fn object_segments(data: Seq<u8>) -> Option<Seq<RawSegment>>;

/// The sections `Object::sections` yields for the parsed bytes.
pub uninterp spec fn object_sections(data: Seq<u8>) -> Option<Seq<RawSection>>;

/// The dynamic relocations `Object::dynamic_relocations` yields for the parsed bytes.
pub uninterp spec fn object_dynamic_relocations(data: Seq<u8>) -> Option<Seq<RawRelocation>>;

/// `object::File::parse` on `data`, telling whether the result is the 64-bit ELF variant.
#[verifier::external_body]
pub(crate) fn parse_is_elf64(data: &[u8]) -> (r: bool)
    ensures
        r == object_elf64(data@),
{
    matches!(object::File::parse(data), Ok(object::File::Elf64(_)))
}

/// `Object::architecture` of the parsed bytes, `None` when parsing fails.
#[verifier::external_body]
pub(crate) fn parse_architecture(data: &[u8]) -> (r: Option<Architecture>)
    ensures
        r == object_architecture(data@),
{
    let file = object::File::parse(data).ok()?;
    match file.architecture() {
        object::Architecture::Aarch64 => Some(Architecture::Arm64),
        object::Architecture::X86_64 => Some(Architecture::X86_64),
        _ => Some(Architecture::Unknown),
    }
}

/// `Object::is_little_endian` of the parsed bytes, `None` when parsing fails.
#[verifier::external_body]
pub(crate) fn parse_little_endian(data: &[u8]) -> (r: Option<bool>)
    ensures
        r == object_little_endian(data@),
{
    let file = object::File::parse(data).ok()?;
    Some(file.is_little_endian())
}

/// `Object::kind` of the parsed bytes, `None` when parsing fails.
#[verifier::external_body]
pub(crate) fn parse_kind(data: &[u8]) -> (r: Option<BinaryKind>)
    ensures
        r == object_kind(data@),
{
    let file = object::File::parse(data).ok()?;
    match file.kind() {
        object::ObjectKind::Dynamic => Some(BinaryKind::SharedObject),
        object::ObjectKind::Executable => Some(BinaryKind::Executable),
        object::ObjectKind::Relocatable => Some(BinaryKind::Relocatable),
        _ => Some(BinaryKind::Unknown),
    }
}

/// `Object::entry` of the parsed bytes, `None` when parsing fails.
#[verifier::external_body]
pub(crate) fn parse_entry(data: &[u8]) -> (r: Option<u64>)
    ensures
        r == object_entry(data@),
{
    let file = object::File::parse(data).ok()?;
    Some(file.entry())
}

/// Whether `Object::symbol_table` is present in the parsed bytes, `None` when parsing fails.
#[verifier::external_body]
pub(crate) fn parse_has_symbols(data: &[u8]) -> (r: Option<bool>)
    ensures
        r == object_has_symbols(data@),
{
    let file = object::File::parse(data).ok()?;
    Some(file.symbol_table().is_some())
}

/// `Object::segments` of the parsed bytes, each segment's fields copied out.
#[verifier::external_body]
pub(crate) fn parse_segments(data: &[u8]) -> (r: Option<Vec<RawSegment>>)
    ensures
        r matches Some(v) ==> object_segments(data@) == Some(v@),
        r is None ==> object_segments(data@).is_none(),
{
    let file = object::File::parse(data).ok()?;
    let mut out = Vec::new();
    for segment in file.segments() {
        let (file_offset, file_size) = segment.file_range();
        let p = segment.permissions();
        out.push(RawSegment {
            address: segment.address(), size: segment.size(), align: segment.align(),
            file_offset, file_size, read: p.readable(), write: p.writable(), execute: p.executable(),
        });
    }
    Some(out)
}

/// `Object::sections` of the parsed bytes, each section's fields copied out.
#[verifier::external_body]
pub(crate) fn parse_sections(data: &[u8]) -> (r: Option<Vec<RawSection>>)
    ensures
        r matches Some(v) ==> object_sections(data@) == Some(v@),
        r is None ==> object_sections(data@).is_none(),
{
    let file = object::File::parse(data).ok()?;
    let mut out = Vec::new();
    for section in file.sections() {
        let sh_flags = match section.flags() {
            object::SectionFlags::Elf { sh_flags, .. } => Some(sh_flags.0),
            _ => None,
        };
        let name = section.name().ok().map(String::from);
        out.push(RawSection {
            name, address: section.address(), size: section.size(),
            file_range: section.file_range(), sh_flags,
        });
    }
    Some(out)
}

/// `Object::dynamic_relocations` of the parsed bytes, each relocation's fields copied out.
#[verifier::external_body]
pub(crate) fn parse_dynamic_relocations(data: &[u8]) -> (r: Option<Vec<RawRelocation>>)
    ensures
        r matches Some(v) ==> object_dynamic_relocations(data@) == Some(v@),
        r is None ==> object_dynamic_relocations(data@).is_none(),
{
    let file = object::File::parse(data).ok()?;
    let mut out = Vec::new();
    for (offset, relocation) in file.dynamic_relocations().into_iter().flatten() {
        let r_type = match relocation.flags() {
            object::RelocationFlags::Elf { r_type } => Some(r_type.0),
            _ => None,
        };
        out.push(RawRelocation { offset, r_type, addend: relocation.addend() });
    }
    Some(out)
}

} // verus!
