//! Executable-format abstractions and format-specific readers.
pub mod elf;
mod object_file;

use vstd::prelude::*;

use crate::text::push_char;
use crate::{Error, Result};

pub use elf::ElfImage;

verus! {

/// CPU architecture reported by a loaded executable.
#[derive(Debug, Clone, Copy, PartialEq, Eq, Hash, Structural)]
pub enum Architecture {
    Arm64,
    X86_64,
    Unknown,
}

impl Architecture {
    /// Human-readable name of the architecture.
    pub fn name(&self) -> (r: &'static str)
        ensures
            match self {
                Architecture::Arm64 => r@ == "AArch64"@,
                Architecture::X86_64 => r@ == "x86_64"@,
                Architecture::Unknown => r@ == "Unknown"@,
            },
    {
        match self {
            Architecture::Arm64 => "AArch64",
            Architecture::X86_64 => "x86_64",
            Architecture::Unknown => "Unknown",
        }
    }
}

/// Executable container format exposed by a loaded project.
#[derive(Debug, Clone, Copy, PartialEq, Eq, Hash, Structural)]
pub enum BinaryFormat {
    Elf64,
}

impl BinaryFormat {
    /// Human-readable name of the format.
    pub fn name(&self) -> (r: &'static str)
        ensures
            r@ == "ELF64"@,
    {
        match self {
            BinaryFormat::Elf64 => "ELF64",
        }
    }
}

/// Byte order used by an executable image.
#[derive(Debug, Clone, Copy, PartialEq, Eq, Hash, Structural)]
pub enum Endianness {
    Little,
    Big,
}

impl Endianness {
    /// Human-readable name of the byte order.
    pub fn name(&self) -> (r: &'static str)
        ensures
            match self {
                Endianness::Little => r@ == "Little"@,
                Endianness::Big => r@ == "Big"@,
            },
    {
        match self {
            Endianness::Little => "Little",
            Endianness::Big => "Big",
        }
    }
}

/// Linker-level ELF object type.
#[derive(Debug, Clone, Copy, PartialEq, Eq, Hash, Structural)]
pub enum BinaryKind {
    SharedObject,
    Executable,
    Relocatable,
    Unknown,
}

impl BinaryKind {
    /// Human-readable name of the object type.
    pub fn name(&self) -> (r: &'static str)
        ensures
            match self {
                BinaryKind::SharedObject => r@ == "Shared Object"@,
                BinaryKind::Executable => r@ == "Executable"@,
                BinaryKind::Relocatable => r@ == "Relocatable"@,
                BinaryKind::Unknown => r@ == "Unknown"@,
            },
    {
        match self {
            BinaryKind::SharedObject => "Shared Object",
            BinaryKind::Executable => "Executable",
            BinaryKind::Relocatable => "Relocatable",
            BinaryKind::Unknown => "Unknown",
        }
    }
}

/// Read, write, and execute permissions for a mapped range.
#[derive(Debug, Clone, Copy, Default, PartialEq, Eq, Hash, Structural)]
pub struct Permissions {
    pub read: bool,
    pub write: bool,
    pub execute: bool,
}

/// The three-letter `RWX` form of a permission set, `-` for each missing right.
pub open spec fn permission_letters(p: Permissions) -> Seq<char> {
    seq![
        if p.read { 'R' } else { '-' },
        if p.write { 'W' } else { '-' },
        if p.execute { 'X' } else { '-' },
    ]
}

impl Permissions {
    /// The permissions as three letters, such as `R-X`.
    pub fn letters(&self) -> (r: String)
        ensures
            r@ == permission_letters(*self),
    {
        let mut text = String::new();
        push_char(&mut text, if self.read { 'R' } else { '-' });
        push_char(&mut text, if self.write { 'W' } else { '-' });
        push_char(&mut text, if self.execute { 'X' } else { '-' });
        assert(text@ =~= permission_letters(*self));
        text
    }
}

/// ELF section information useful to analysis consumers.
#[derive(Debug, Clone, PartialEq, Eq, Hash)]
pub struct SectionInfo {
    pub name: String,
    pub file_offset: Option<u64>,
    pub virtual_address: u64,
    pub size: u64,
    pub permissions: Permissions,
}

/// ELF program-header information.
#[derive(Debug, Clone, PartialEq, Eq, Hash)]
pub struct SegmentInfo {
    pub kind: String,
    pub file_offset: u64,
    pub file_size: u64,
    pub virtual_address: u64,
    pub virtual_size: u64,
    pub alignment: u64,
    pub permissions: Permissions,
}

/// A dynamic relocation that stores `image base + addend` at `address`.
#[derive(Debug, Clone, Copy, PartialEq, Eq, Hash, Structural)]
pub struct RelativeRelocation {
    pub address: u64,
    pub addend: i64,
}

/// The kind name of loadable program segments.
pub open spec fn load_kind() -> Seq<char> {
    seq!['L', 'O', 'A', 'D']
}

/// `segment` is a loadable program segment.
pub open spec fn is_load(segment: SegmentInfo) -> bool {
    segment.kind@ == load_kind()
}

/// Whether a segment is a loadable program segment.
pub fn is_load_segment(segment: &SegmentInfo) -> (r: bool)
    ensures
        r == is_load(*segment),
{
    let mut chars: Vec<char> = Vec::new();
    chars.push('L');
    chars.push('O');
    chars.push('A');
    chars.push('D');
    let kind = crate::text::chars_of(segment.kind.as_str());
    assert(chars@ =~= load_kind());
    crate::text::chars_equal(kind.as_slice(), chars.as_slice())
}

/// Relocation addresses increase strictly, so each address has at most one relocation.
pub open spec fn relocations_sorted(relocations: Seq<RelativeRelocation>) -> bool {
    forall|i: int, j: int|
        0 <= i < j < relocations.len() ==> relocations[i].address < relocations[j].address
}

/// The relocation applied at `address`, if any.
pub open spec fn relocation_at(relocations: Seq<RelativeRelocation>, address: u64) -> Option<
    RelativeRelocation,
> {
    if exists|i: int| 0 <= i < relocations.len() && relocations[i].address == address {
        let i = choose|i: int| 0 <= i < relocations.len() && relocations[i].address == address;
        Some(relocations[i])
    } else {
        None
    }
}

/// Common access interface for executable images.
///
/// Each accessor is described by a specification function of the image; reads go through
/// `spec_read`, which yields the bytes mapped at a virtual address range, if any.
pub trait BinaryImage {
    spec fn spec_format(&self) -> BinaryFormat;

    spec fn spec_architecture(&self) -> Architecture;

    spec fn spec_endianness(&self) -> Endianness;

    spec fn spec_kind(&self) -> BinaryKind;

    spec fn spec_file_size(&self) -> u64;

    spec fn spec_entry_point(&self) -> u64;

    spec fn spec_section_count(&self) -> usize;

    spec fn spec_sections(&self) -> Seq<SectionInfo>;

    spec fn spec_segments(&self) -> Seq<SegmentInfo>;

    spec fn spec_relocations(&self) -> Seq<RelativeRelocation>;

    spec fn spec_stripped(&self) -> bool;

    spec fn spec_image_base(&self) -> u64;

    spec fn spec_virtual_to_offset(&self, address: u64) -> Option<u64>;

    spec fn spec_offset_to_virtual(&self, offset: u64) -> Option<u64>;

    spec fn spec_read(&self, address: u64, size: nat) -> Option<Seq<u8>>;

    fn format(&self) -> (r: BinaryFormat)
        ensures
            r == self.spec_format(),
    ;

    fn architecture(&self) -> (r: Architecture)
        ensures
            r == self.spec_architecture(),
    ;

    fn endianness(&self) -> (r: Endianness)
        ensures
            r == self.spec_endianness(),
    ;

    fn kind(&self) -> (r: BinaryKind)
        ensures
            r == self.spec_kind(),
    ;

    fn file_size(&self) -> (r: u64)
        ensures
            r == self.spec_file_size(),
    ;

    fn entry_point(&self) -> (r: u64)
        ensures
            r == self.spec_entry_point(),
    ;

    fn section_count(&self) -> (r: usize)
        ensures
            r == self.spec_section_count(),
    ;

    fn sections(&self) -> (r: &[SectionInfo])
        ensures
            r@ == self.spec_sections(),
    ;

    fn segments(&self) -> (r: &[SegmentInfo])
        ensures
            r@ == self.spec_segments(),
    ;

    fn relative_relocations(&self) -> (r: &[RelativeRelocation])
        ensures
            r@ == self.spec_relocations(),
            relocations_sorted(r@),
    ;

    fn is_stripped(&self) -> (r: bool)
        ensures
            r == self.spec_stripped(),
    ;

    fn image_base(&self) -> (r: u64)
        ensures
            r == self.spec_image_base(),
    ;

    fn virtual_to_offset(&self, address: u64) -> (r: Option<u64>)
        ensures
            r == self.spec_virtual_to_offset(address),
    ;

    fn offset_to_virtual(&self, offset: u64) -> (r: Option<u64>)
        ensures
            r == self.spec_offset_to_virtual(offset),
    ;

    fn read_virtual(&self, address: u64, size: usize) -> (r: Result<&[u8]>)
        ensures
            match r {
                Ok(bytes) => self.spec_read(address, size as nat) == Some(bytes@) && bytes@.len()
                    == size,
                Err(e) => self.spec_read(address, size as nat).is_none() && e
                    == Error::AddressTranslationFailed,
            },
    ;
}

/// Little-endian unsigned value of the first four bytes.
pub open spec fn le_u32(b: Seq<u8>) -> u32 {
    (b[0] + b[1] * 0x100 + b[2] * 0x1_0000 + b[3] * 0x100_0000) as u32
}

/// Little-endian unsigned value of the first eight bytes.
pub open spec fn le_u64(b: Seq<u8>) -> u64 {
    (b[0] + b[1] * 0x100 + b[2] * 0x1_0000 + b[3] * 0x100_0000 + b[4] * 0x1_0000_0000 + b[5]
        * 0x100_0000_0000 + b[6] * 0x1_0000_0000_0000 + b[7] * 0x100_0000_0000_0000) as u64
}

/// The `u8` mapped at `address`.
pub open spec fn spec_read_u8<B: BinaryImage>(binary: &B, address: u64) -> Result<u8> {
    match binary.spec_read(address, 1) {
        Some(bytes) => Ok(bytes[0]),
        None => Err(Error::AddressTranslationFailed),
    }
}

/// The little-endian `u32` mapped at `address`.
pub open spec fn spec_read_u32<B: BinaryImage>(binary: &B, address: u64) -> Result<u32> {
    match binary.spec_read(address, 4) {
        Some(bytes) => Ok(le_u32(bytes)),
        None => Err(Error::AddressTranslationFailed),
    }
}

/// The little-endian `u64` mapped at `address`.
pub open spec fn spec_read_u64<B: BinaryImage>(binary: &B, address: u64) -> Result<u64> {
    match binary.spec_read(address, 8) {
        Some(bytes) => Ok(le_u64(bytes)),
        None => Err(Error::AddressTranslationFailed),
    }
}

/// The pointer stored at `address`: a relocation's non-negative addend when one applies
/// there, otherwise the little-endian word in the image.
pub open spec fn spec_relocated_pointer<B: BinaryImage>(binary: &B, address: u64) -> Result<u64> {
    match relocation_at(binary.spec_relocations(), address) {
        Some(relocation) => if relocation.addend >= 0 {
            Ok(relocation.addend as u64)
        } else {
            Err(Error::InvalidBinary)
        },
        None => spec_read_u64(binary, address),
    }
}

/// Reads the byte mapped at `address`.
pub fn read_u8<B: BinaryImage>(binary: &B, address: u64) -> (r: Result<u8>)
    ensures
        r == spec_read_u8(binary, address),
{
    let bytes = binary.read_virtual(address, 1)?;
    Ok(bytes[0])
}

/// Reads the little-endian `u32` mapped at `address`.
pub fn read_u32<B: BinaryImage>(binary: &B, address: u64) -> (r: Result<u32>)
    ensures
        r == spec_read_u32(binary, address),
{
    let b = binary.read_virtual(address, 4)?;
    let value = b[0] as u32 + b[1] as u32 * 0x100 + b[2] as u32 * 0x1_0000 + b[3] as u32
        * 0x100_0000;
    Ok(value)
}

/// Reads the little-endian `u64` mapped at `address`.
pub fn read_u64<B: BinaryImage>(binary: &B, address: u64) -> (r: Result<u64>)
    ensures
        r == spec_read_u64(binary, address),
{
    let b = binary.read_virtual(address, 8)?;
    let low = b[0] as u64 + b[1] as u64 * 0x100 + b[2] as u64 * 0x1_0000 + b[3] as u64
        * 0x100_0000;
    let high = b[4] as u64 + b[5] as u64 * 0x100 + b[6] as u64 * 0x1_0000 + b[7] as u64
        * 0x100_0000;
    Ok(low + high * 0x1_0000_0000)
}

/// Index of the relocation applied at `address` in strictly increasing relocations.
pub fn find_relocation(relocations: &[RelativeRelocation], address: u64) -> (r: Option<usize>)
    requires
        relocations_sorted(relocations@),
    ensures
        match r {
            Some(i) => i < relocations@.len() && relocations@[i as int].address == address,
            None => forall|i: int|
                0 <= i < relocations@.len() ==> relocations@[i].address != address,
        },
{
    let mut low: usize = 0;
    let mut high: usize = relocations.len();
    while low < high
        invariant
            low <= high <= relocations@.len(),
            relocations_sorted(relocations@),
            forall|i: int| 0 <= i < low ==> relocations@[i].address < address,
            forall|i: int| high <= i < relocations@.len() ==> relocations@[i].address > address,
        decreases high - low,
    {
        let middle = low + (high - low) / 2;
        let found = relocations[middle].address;
        if found == address {
            return Some(middle);
        } else if found < address {
            low = middle + 1;
        } else {
            high = middle;
        }
    }
    None
}

/// `relocation_at` names the unique relocation found by the search.
pub proof fn lemma_relocation_at(relocations: Seq<RelativeRelocation>, address: u64, i: int)
    requires
        relocations_sorted(relocations),
        0 <= i < relocations.len(),
        relocations[i].address == address,
    ensures
        relocation_at(relocations, address) == Some(relocations[i]),
{
    let j = choose|j: int| 0 <= j < relocations.len() && relocations[j].address == address;
    if j < i {
        assert(relocations[j].address < relocations[i].address);
    } else if i < j {
        assert(relocations[i].address < relocations[j].address);
    }
}

/// Reads the pointer stored at `address`, preferring a relative relocation's addend.
pub fn relocated_pointer<B: BinaryImage>(binary: &B, address: u64) -> (r: Result<u64>)
    ensures
        r == spec_relocated_pointer(binary, address),
{
    let relocations = binary.relative_relocations();
    match find_relocation(relocations, address) {
        Some(index) => {
            proof {
                lemma_relocation_at(relocations@, address, index as int);
            }
            let addend = relocations[index].addend;
            if addend >= 0 {
                Ok(addend as u64)
            } else {
                Err(Error::InvalidBinary)
            }
        },
        None => read_u64(binary, address),
    }
}

} // verus!
