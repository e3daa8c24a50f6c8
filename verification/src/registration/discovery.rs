//! Discovery of Unity 2022.3-style code and metadata registrations in an AArch64 image.
use vstd::prelude::*;
use vstd::utf8::{decode_utf8, valid_utf8};

use super::native::{
    CodeGenModule, RegistrationInfo, METHOD_TOKEN_TYPE, TOKEN_ROW_MASK, TOKEN_TYPE_MASK,
};
use super::Registration;
use crate::binary::{
    find_relocation, is_load, is_load_segment, lemma_relocation_at, read_u32, relocated_pointer,
    relocation_at, relocations_sorted, spec_read_u32, spec_relocated_pointer, Architecture,
    BinaryImage, Endianness, RelativeRelocation, SegmentInfo,
};
use crate::metadata::strings::{copy_range, is_first_nul, spec_c_string, utf8_to_string};
use crate::metadata::Metadata;
use crate::{Error, Result};

verus! {

/// Size of a CodeGenModule record.
pub const CODE_GEN_MODULE_SIZE: usize = 0x88;

/// Offset of the module count in a code registration.
pub const CODE_REGISTRATION_MODULE_COUNT_OFFSET: u64 = 0x78;

/// Offset of the module array pointer in a code registration.
pub const CODE_REGISTRATION_MODULES_OFFSET: u64 = 0x80;

/// Size of a metadata registration record.
pub const METADATA_REGISTRATION_SIZE: usize = 0x80;

/// The pointer-table size the module of one image must have.
#[derive(Debug)]
pub struct ExpectedModule {
    pub name: String,
    pub count: u32,
}

/// Row part of a metadata token.
pub open spec fn token_row(token: u32) -> u32 {
    token & TOKEN_ROW_MASK
}

/// The error the method at position `k` raises when counting pointer slots, if any.
pub open spec fn method_error(metadata: Metadata, k: int) -> Option<Error> {
    let method = metadata.methods@[k];
    if method.declaring_type.0 >= metadata.types@.len() {
        Some(Error::InvalidMetadataTable("method declaring type"))
    } else if metadata.types@[method.declaring_type.0 as int].image.0 >= metadata.images@.len() {
        Some(Error::InvalidMetadataTable("method image"))
    } else if method.token & TOKEN_TYPE_MASK != METHOD_TOKEN_TYPE || token_row(method.token) == 0 {
        Some(Error::InvalidMetadataTable("method token"))
    } else {
        None
    }
}

/// Name of the image that declares the method at position `k`.
pub open spec fn method_image_name(metadata: Metadata, k: int) -> Seq<char> {
    metadata.images@[metadata.types@[metadata.methods@[k].declaring_type.0 as int].image.0 as int].name@
}

/// Largest token row among the first `n` methods of the image named `name`, or zero.
pub open spec fn max_row(metadata: Metadata, name: Seq<char>, n: nat) -> u32
    decreases n,
{
    if n == 0 {
        0
    } else {
        let previous = max_row(metadata, name, (n - 1) as nat);
        let k = n - 1;
        if method_error(metadata, k) is None && method_image_name(metadata, k) == name
            && token_row(metadata.methods@[k].token) > previous {
            token_row(metadata.methods@[k].token)
        } else {
            previous
        }
    }
}

/// The first error among the first `n` methods.
pub open spec fn first_method_error(metadata: Metadata, n: nat) -> Option<Error>
    decreases n,
{
    if n == 0 {
        None
    } else {
        match first_method_error(metadata, (n - 1) as nat) {
            Some(e) => Some(e),
            None => method_error(metadata, n - 1),
        }
    }
}

/// One of the first `bound` images is named `name`.
pub open spec fn image_named(images: Seq<crate::model::Image>, name: Seq<char>, bound: int) -> bool {
    exists|j: int| 0 <= j < bound && images[j].name@ == name
}

/// Some entry is named `name`.
pub open spec fn name_listed(expected: Seq<ExpectedModule>, name: Seq<char>) -> bool {
    exists|i: int| 0 <= i < expected.len() && expected[i].name@ == name
}

/// One entry per distinct image name, each with the largest method row of that image.
pub open spec fn expected_valid(metadata: Metadata, expected: Seq<ExpectedModule>) -> bool {
    &&& forall|i: int, j: int|
        0 <= i < j < expected.len() ==> expected[i].name@ != expected[j].name@
    &&& forall|i: int|
        0 <= i < expected.len() ==> image_named(
            metadata.images@,
            #[trigger] expected[i].name@,
            metadata.images@.len() as int,
        )
    &&& forall|m: int|
        0 <= m < metadata.images@.len() ==> name_listed(expected, #[trigger] metadata.images@[m].name@)
    &&& forall|i: int|
        0 <= i < expected.len() ==> #[trigger] expected[i].count == max_row(
            metadata,
            expected[i].name@,
            metadata.methods@.len(),
        )
}

/// Position of the entry named `name` in entries with distinct names.
pub fn find_expected(expected: &Vec<ExpectedModule>, name: &String) -> (r: Option<usize>)
    requires
        forall|i: int, j: int|
            0 <= i < j < expected@.len() ==> expected@[i].name@ != expected@[j].name@,
    ensures
        r matches Some(k) ==> k < expected@.len() && expected@[k as int].name@ == name@,
        r is None ==> !name_listed(expected@, name@),
{
    let mut i: usize = 0;
    while i < expected.len()
        invariant
            i <= expected@.len(),
            forall|a: int, b: int|
                0 <= a < b < expected@.len() ==> expected@[a].name@ != expected@[b].name@,
            forall|j: int| 0 <= j < i ==> expected@[j].name@ != name@,
        decreases expected@.len() - i,
    {
        if expected[i].name == *name {
            return Some(i);
        }
        i = i + 1;
    }
    None
}

/// Counts the method pointer slots each image's module must have.
pub fn expected_method_counts(metadata: &Metadata) -> (r: Result<Vec<ExpectedModule>>)
    ensures
        match first_method_error(*metadata, metadata.methods@.len()) {
            Some(e) => r matches Err(f) && f == e,
            None => r matches Ok(v) && expected_valid(*metadata, v@),
        },
{
    let mut expected: Vec<ExpectedModule> = Vec::new();
    let mut positions: Vec<usize> = Vec::new();
    let mut m: usize = 0;
    while m < metadata.images.len()
        invariant
            m <= metadata.images@.len(),
            positions@.len() == m,
            forall|i: int, j: int|
                0 <= i < j < expected@.len() ==> expected@[i].name@ != expected@[j].name@,
            forall|j: int|
                0 <= j < m ==> #[trigger] positions@[j] < expected@.len() && expected@[positions@[j] as int].name@
                    == metadata.images@[j].name@,
            forall|i: int|
                0 <= i < expected@.len() ==> image_named(
                    metadata.images@,
                    #[trigger] expected@[i].name@,
                    m as int,
                ),
            forall|i: int| 0 <= i < expected@.len() ==> #[trigger] expected@[i].count == 0,
        decreases metadata.images@.len() - m,
    {
        let name = &metadata.images[m].name;
        let ghost old_positions = positions@;
        match find_expected(&expected, name) {
            Some(position) => {
                positions.push(position);
                proof {
                    assert(expected@[position as int].name@ == metadata.images@[m as int].name@);
                    assert forall|j: int| 0 <= j < m + 1 implies #[trigger] positions@[j]
                        < expected@.len() && expected@[positions@[j] as int].name@
                        == metadata.images@[j].name@ by {
                        if j < m {
                            assert(positions@[j] == old_positions[j]);
                        } else {
                            assert(positions@[j] == position);
                        }
                    }
                }
            },
            None => {
                let ghost before = expected@;
                expected.push(ExpectedModule { name: name.clone(), count: 0 });
                positions.push(expected.len() - 1);
                proof {
                    assert forall|j: int| 0 <= j < m + 1 implies #[trigger] positions@[j]
                        < expected@.len() && expected@[positions@[j] as int].name@
                        == metadata.images@[j].name@ by {
                        if j < m {
                            assert(positions@[j] == old_positions[j]);
                            assert(expected@[positions@[j] as int] == before[positions@[j] as int]);
                        }
                    }
                    assert forall|i: int| 0 <= i < expected@.len() implies image_named(
                        metadata.images@,
                        #[trigger] expected@[i].name@,
                        m + 1,
                    ) by {
                        if i < before.len() {
                            assert(expected@[i] == before[i]);
                            assert(image_named(metadata.images@, before[i].name@, m as int));
                        } else {
                            assert(metadata.images@[m as int].name@ == expected@[i].name@);
                        }
                    }
                }
            },
        }
        m = m + 1;
    }
    let mut k: usize = 0;
    while k < metadata.methods.len()
        invariant
            k <= metadata.methods@.len(),
            positions@.len() == metadata.images@.len(),
            first_method_error(*metadata, k as nat) is None,
            forall|i: int, j: int|
                0 <= i < j < expected@.len() ==> expected@[i].name@ != expected@[j].name@,
            forall|j: int|
                0 <= j < metadata.images@.len() ==> #[trigger] positions@[j] < expected@.len()
                    && expected@[positions@[j] as int].name@ == metadata.images@[j].name@,
            forall|i: int|
                0 <= i < expected@.len() ==> image_named(
                    metadata.images@,
                    #[trigger] expected@[i].name@,
                    metadata.images@.len() as int,
                ),
            forall|i: int|
                0 <= i < expected@.len() ==> #[trigger] expected@[i].count == max_row(
                    *metadata,
                    expected@[i].name@,
                    k as nat,
                ),
        decreases metadata.methods@.len() - k,
    {
        let method = &metadata.methods[k];
        proof {
            lemma_first_error_persists(*metadata, (k + 1) as nat, metadata.methods@.len());
        }
        if method.declaring_type.0 >= metadata.types.len() {
            return Err(Error::InvalidMetadataTable("method declaring type"));
        }
        let image = metadata.types[method.declaring_type.0].image.0;
        if image >= metadata.images.len() {
            return Err(Error::InvalidMetadataTable("method image"));
        }
        let row = method.token & TOKEN_ROW_MASK;
        if method.token & TOKEN_TYPE_MASK != METHOD_TOKEN_TYPE || row == 0 {
            return Err(Error::InvalidMetadataTable("method token"));
        }
        let position = positions[image];
        let ghost before = expected@;
        if row > expected[position].count {
            expected[position].count = row;
        }
        proof {
            assert forall|i: int| 0 <= i < expected@.len() implies #[trigger] expected@[i].count
                == max_row(*metadata, expected@[i].name@, (k + 1) as nat) by {
                if i != position {
                    assert(expected@[i] == before[i]);
                    assert(before[i].name@ != before[position as int].name@);
                }
            }
            assert forall|i: int| 0 <= i < expected@.len() implies image_named(
                metadata.images@,
                #[trigger] expected@[i].name@,
                metadata.images@.len() as int,
            ) by {
                assert(expected@[i].name == before[i].name);
                assert(image_named(metadata.images@, before[i].name@, metadata.images@.len() as int));
            }
        }
        k = k + 1;
    }
    proof {
        assert forall|j: int| 0 <= j < metadata.images@.len() implies name_listed(
            expected@,
            #[trigger] metadata.images@[j].name@,
        ) by {
            assert(positions@[j] < expected@.len());
            assert(expected@[positions@[j] as int].name@ == metadata.images@[j].name@);
        }
    }
    Ok(expected)
}

proof fn lemma_first_error_persists(metadata: Metadata, i: nat, n: nat)
    requires
        i <= n,
    ensures
        first_method_error(metadata, i) is Some ==> first_method_error(metadata, n)
            == first_method_error(metadata, i),
    decreases n - i,
{
    if i < n {
        lemma_first_error_persists(metadata, i + 1, n);
    }
}


/// Index of the first loadable segment whose file-backed bytes contain `address`.
pub open spec fn first_file_segment(segments: Seq<SegmentInfo>, address: u64) -> Option<int>
    decreases segments.len(),
{
    if segments.len() == 0 {
        None
    } else if is_load(segments[0]) && segments[0].virtual_address <= address && address
        - segments[0].virtual_address < segments[0].file_size {
        Some(0)
    } else {
        match first_file_segment(segments.drop_first(), address) {
            Some(i) => Some(i + 1),
            None => None,
        }
    }
}

/// Position of the first loadable segment whose file-backed bytes contain `address`.
fn find_file_segment(segments: &[SegmentInfo], address: u64) -> (r: Option<usize>)
    ensures
        match first_file_segment(segments@, address) {
            Some(i) => r == Some(i as usize) && 0 <= i < segments@.len(),
            None => r is None,
        },
        r matches Some(k) ==> k < segments@.len() && is_load(segments@[k as int])
            && segments@[k as int].virtual_address <= address && address
            - segments@[k as int].virtual_address < segments@[k as int].file_size,
{
    let mut i: usize = 0;
    assert(segments@.skip(0) =~= segments@);
    while i < segments.len()
        invariant
            i <= segments@.len(),
            first_file_segment(segments@, address) == match first_file_segment(
                segments@.skip(i as int),
                address,
            ) {
                Some(k) => Some(k + i),
                None => None::<int>,
            },
        decreases segments@.len() - i,
    {
        let segment = &segments[i];
        if is_load_segment(segment) && segment.virtual_address <= address && address
            - segment.virtual_address < segment.file_size {
            return Some(i);
        }
        assert(segments@.skip(i as int).drop_first() =~= segments@.skip(i + 1));
        i = i + 1;
    }
    None
}

/// The non-empty UTF-8 text before the first zero byte at `address`, reading at most
/// `max_length` bytes and never past the file-backed end of its segment.
pub open spec fn spec_read_c_string<B: BinaryImage>(binary: &B, address: u64, max_length: nat) -> Option<
    Seq<char>,
> {
    match first_file_segment(binary.spec_segments(), address) {
        None => None,
        Some(i) => {
            let segment = binary.spec_segments()[i];
            let available = segment.file_size - (address - segment.virtual_address);
            if available > usize::MAX {
                None
            } else {
                let wanted: nat = if max_length < available {
                    max_length
                } else {
                    available as nat
                };
                match binary.spec_read(address, wanted) {
                    None => None,
                    Some(bytes) => match spec_c_string(bytes) {
                        Some(text) => if valid_utf8(text) && decode_utf8(text).len() > 0 {
                            Some(decode_utf8(text))
                        } else {
                            None
                        },
                        None => None,
                    },
                }
            }
        },
    }
}

/// Reads a non-empty, zero-terminated UTF-8 name mapped at `address`.
pub fn read_c_string<B: BinaryImage>(binary: &B, address: u64, max_length: usize) -> (r: Option<
    String,
>)
    ensures
        match spec_read_c_string(binary, address, max_length as nat) {
            Some(text) => r matches Some(s) && s@ == text,
            None => r is None,
        },
{
    let segments = binary.segments();
    let index = match find_file_segment(segments, address) {
        Some(index) => index,
        None => return None,
    };
    let segment = &segments[index];
    let available = segment.file_size - (address - segment.virtual_address);
    if available > usize::MAX as u64 {
        return None;
    }
    let available = available as usize;
    let wanted = if max_length < available {
        max_length
    } else {
        available
    };
    let bytes = match binary.read_virtual(address, wanted) {
        Ok(bytes) => bytes,
        Err(_) => return None,
    };
    let mut length: usize = 0;
    while length < bytes.len() && bytes[length] != 0
        invariant
            length <= bytes@.len(),
            forall|j: int| 0 <= j < length ==> bytes@[j] != 0,
        decreases bytes@.len() - length,
    {
        length = length + 1;
    }
    if length == bytes.len() {
        assert(!exists|n: int| is_first_nul(bytes@, n));
        return None;
    }
    assert(is_first_nul(bytes@, length as int));
    assert forall|n: int| is_first_nul(bytes@, n) implies n == length by {
        if n < length {
            assert(bytes@[n] != 0);
        } else if n > length {
            assert(bytes@[length as int] == 0);
        }
    }
    let text = copy_range(bytes, 0, length);
    assert(text@ =~= bytes@.take(length as int));
    let name = match utf8_to_string(text) {
        Some(name) => name,
        None => return None,
    };
    if name.as_str().is_empty() {
        None
    } else {
        Some(name)
    }
}

/// The method pointer table a CodeGenModule record at `address` declares, when the record
/// is aligned and mapped, holds `expected` slots and its table is mapped (or absent for an
/// empty module).
pub open spec fn spec_parse_module<B: BinaryImage>(binary: &B, address: u64, expected: u32) -> Option<
    Option<u64>,
> {
    if address % 8 != 0 || binary.spec_read(address, CODE_GEN_MODULE_SIZE as nat) is None
        || address > u64::MAX - 0x10 {
        None
    } else {
        match spec_read_u32(binary, (address + 8) as u64) {
            Err(_) => None,
            Ok(count) => if count != expected {
                None
            } else {
                match spec_relocated_pointer(binary, (address + 0x10) as u64) {
                    Err(_) => None,
                    Ok(pointer) => if pointer == 0 {
                        if count == 0 {
                            Some(None)
                        } else {
                            None
                        }
                    } else if count * 8 > usize::MAX || binary.spec_read(
                        pointer,
                        (count * 8) as nat,
                    ) is None {
                        None
                    } else {
                        Some(Some(pointer))
                    },
                }
            },
        }
    }
}

/// Validates the CodeGenModule record at `address` for the image `name`.
pub fn parse_module<B: BinaryImage>(
    binary: &B,
    address: u64,
    name: &String,
    expected_count: u32,
) -> (r: Option<CodeGenModule>)
    ensures
        match spec_parse_module(binary, address, expected_count) {
            Some(pointers) => r matches Some(m) && m.address == address && m.name@ == name@
                && m.method_pointer_count == expected_count && m.method_pointers == pointers,
            None => r is None,
        },
{
    if address % 8 != 0 {
        return None;
    }
    if binary.read_virtual(address, CODE_GEN_MODULE_SIZE).is_err() {
        return None;
    }
    if address > u64::MAX - 0x10 {
        return None;
    }
    let method_pointer_count = match read_u32(binary, address + 8) {
        Ok(count) => count,
        Err(_) => return None,
    };
    if method_pointer_count != expected_count {
        return None;
    }
    let pointer = match relocated_pointer(binary, address + 0x10) {
        Ok(pointer) => pointer,
        Err(_) => return None,
    };
    let method_pointers = if pointer == 0 {
        if method_pointer_count == 0 {
            None
        } else {
            return None;
        }
    } else {
        if method_pointer_count as u64 > usize::MAX as u64 / 8 {
            return None;
        }
        let table_size = method_pointer_count as usize * 8;
        if binary.read_virtual(pointer, table_size).is_err() {
            return None;
        }
        Some(pointer)
    };
    Some(
        CodeGenModule {
            address,
            name: name.clone(),
            method_pointer_count,
            method_pointers,
        },
    )
}


/// Longest expected name in UTF-8 bytes, plus one for the terminator (saturating).
pub open spec fn max_name_length(expected: Seq<ExpectedModule>) -> nat
    decreases expected.len(),
{
    if expected.len() == 0 {
        1
    } else {
        let rest = max_name_length(expected.drop_last());
        let bytes = vstd::utf8::encode_utf8(expected.last().name@).len() as usize;
        let candidate: nat = if bytes == usize::MAX {
            usize::MAX as nat
        } else {
            (bytes + 1) as nat
        };
        if candidate > rest {
            candidate
        } else {
            rest
        }
    }
}

/// Computes `max_name_length`.
fn longest_name(expected: &Vec<ExpectedModule>) -> (r: usize)
    ensures
        r == max_name_length(expected@),
{
    let mut longest: usize = 1;
    let mut i: usize = 0;
    while i < expected.len()
        invariant
            i <= expected@.len(),
            longest == max_name_length(expected@.take(i as int)),
        decreases expected@.len() - i,
    {
        assert(expected@.take(i + 1).drop_last() =~= expected@.take(i as int));
        let bytes = expected[i].name.as_str().len();
        let candidate = if bytes == usize::MAX {
            usize::MAX
        } else {
            bytes + 1
        };
        if candidate > longest {
            longest = candidate;
        }
        i = i + 1;
    }
    assert(expected@.take(expected@.len() as int) =~= expected@);
    longest
}

/// The module a relocation names: the entry whose name the addend points at, and the
/// pointer table of the record at the relocation's address.
pub open spec fn module_at_relocation<B: BinaryImage>(
    binary: &B,
    relocation: RelativeRelocation,
    expected: Seq<ExpectedModule>,
    max_length: nat,
) -> Option<(int, Option<u64>)> {
    if relocation.addend < 0 {
        None
    } else {
        match spec_read_c_string(binary, relocation.addend as u64, max_length) {
            None => None,
            Some(name) => if name_listed(expected, name) {
                let i = choose|i: int| 0 <= i < expected.len() && expected[i].name@ == name;
                match spec_parse_module(binary, relocation.address, expected[i].count) {
                    None => None,
                    Some(pointers) => Some((i, pointers)),
                }
            } else {
                None
            },
        }
    }
}

/// Modules found among the first `n` relocations, as (relocation position, entry position,
/// pointer table); a second module for the same name fails the search.
pub open spec fn spec_found_modules<B: BinaryImage>(
    binary: &B,
    expected: Seq<ExpectedModule>,
    max_length: nat,
    n: nat,
) -> Result<Seq<(int, int, Option<u64>)>>
    decreases n,
{
    if n == 0 {
        Ok(Seq::empty())
    } else {
        match spec_found_modules(binary, expected, max_length, (n - 1) as nat) {
            Err(e) => Err(e),
            Ok(found) => match module_at_relocation(
                binary,
                binary.spec_relocations()[n - 1],
                expected,
                max_length,
            ) {
                None => Ok(found),
                Some(entry) => if exists|k: int| 0 <= k < found.len() && found[k].1 == entry.0 {
                    Err(Error::RegistrationNotFound)
                } else {
                    Ok(found.push((n - 1, entry.0, entry.1)))
                },
            },
        }
    }
}

/// `module` is the one found as `found` among `relocations`.
pub open spec fn module_is(
    module: CodeGenModule,
    found: (int, int, Option<u64>),
    relocations: Seq<RelativeRelocation>,
    expected: Seq<ExpectedModule>,
) -> bool {
    &&& module.address == relocations[found.0].address
    &&& module.name@ == expected[found.1].name@
    &&& module.method_pointer_count == expected[found.1].count
    &&& module.method_pointers == found.2
}

/// The modules found by `discover_modules`, or why the search failed.
pub open spec fn spec_discover_modules<B: BinaryImage>(binary: &B, expected: Seq<ExpectedModule>) -> Result<
    Seq<(int, int, Option<u64>)>,
> {
    match spec_found_modules(
        binary,
        expected,
        max_name_length(expected),
        binary.spec_relocations().len(),
    ) {
        Err(e) => Err(e),
        Ok(found) => if found.len() != expected.len() {
            Err(Error::RegistrationNotFound)
        } else {
            Ok(found)
        },
    }
}

proof fn lemma_found_error_persists<B: BinaryImage>(
    binary: &B,
    expected: Seq<ExpectedModule>,
    max_length: nat,
    i: nat,
    n: nat,
)
    requires
        i <= n,
    ensures
        spec_found_modules(binary, expected, max_length, i) is Err ==> spec_found_modules(
            binary,
            expected,
            max_length,
            n,
        ) == spec_found_modules(binary, expected, max_length, i),
    decreases n - i,
{
    if i < n {
        lemma_found_error_persists(binary, expected, max_length, i + 1, n);
    }
}

/// Finds one CodeGenModule record per expected image name through the relocations that
/// point at its name.
#[verifier::loop_isolation(false)]
pub fn discover_modules<B: BinaryImage>(binary: &B, expected: &Vec<ExpectedModule>) -> (r: Result<
    Vec<CodeGenModule>,
>)
    requires
        forall|i: int, j: int|
            0 <= i < j < expected@.len() ==> expected@[i].name@ != expected@[j].name@,
    ensures
        match spec_discover_modules(binary, expected@) {
            Err(e) => r matches Err(f) && f == e,
            Ok(found) => r matches Ok(modules) && modules@.len() == found.len() && forall|k: int|
                0 <= k < found.len() ==> module_is(
                    #[trigger] modules@[k],
                    found[k],
                    binary.spec_relocations(),
                    expected@,
                ),
        },
{
    let max_length = longest_name(expected);
    let relocations = binary.relative_relocations();
    let mut modules: Vec<CodeGenModule> = Vec::new();
    let mut used: Vec<usize> = Vec::new();
    let ghost mut found: Seq<(int, int, Option<u64>)> = Seq::empty();
    let mut j: usize = 0;
    while j < relocations.len()
        invariant
            j <= relocations@.len(),
            relocations@ == binary.spec_relocations(),
            max_length == max_name_length(expected@),
            forall|a: int, b: int|
                0 <= a < b < expected@.len() ==> expected@[a].name@ != expected@[b].name@,
            spec_found_modules(binary, expected@, max_length as nat, j as nat) == Ok::<
                Seq<(int, int, Option<u64>)>,
                Error,
            >(found),
            modules@.len() == found.len(),
            used@.len() == found.len(),
            forall|k: int| 0 <= k < found.len() ==> #[trigger] used@[k] == found[k].1,
            forall|k: int|
                0 <= k < found.len() ==> module_is(
                    #[trigger] modules@[k],
                    found[k],
                    relocations@,
                    expected@,
                ),
        decreases relocations@.len() - j,
    {
        proof {
            lemma_found_error_persists(
                binary,
                expected@,
                max_length as nat,
                (j + 1) as nat,
                relocations@.len(),
            );
        }
        let relocation = relocations[j];
        if relocation.addend >= 0 {
            match read_c_string(binary, relocation.addend as u64, max_length) {
                Some(name) => match find_expected(expected, &name) {
                    Some(index) => {
                        proof {
                            let c = choose|c: int|
                                0 <= c < expected@.len() && expected@[c].name@ == name@;
                            if c != index {
                                if c < index {
                                    assert(expected@[c].name@ != expected@[index as int].name@);
                                } else {
                                    assert(expected@[index as int].name@ != expected@[c].name@);
                                }
                            }
                        }
                        match parse_module(
                            binary,
                            relocation.address,
                            &expected[index].name,
                            expected[index].count,
                        ) {
                            Some(module) => {
                                let mut k: usize = 0;
                                while k < used.len()
                                    invariant
                                        k <= used@.len(),
                                        forall|m: int| 0 <= m < k ==> used@[m] != index,
                                    decreases used@.len() - k,
                                {
                                    if used[k] == index {
                                        proof {
                                            assert(found[k as int].1 == index);
                                        }
                                        return Err(Error::RegistrationNotFound);
                                    }
                                    k = k + 1;
                                }
                                proof {
                                    assert(!exists|m: int|
                                        0 <= m < found.len() && found[m].1 == index) by {
                                        assert forall|m: int|
                                            0 <= m < found.len() implies found[m].1 != index by {
                                            assert(used@[m] == found[m].1);
                                        }
                                    }
                                }
                                let ghost old_modules = modules@;
                                let ghost old_used = used@;
                                let ghost entry = (j as int, index as int, module.method_pointers);
                                modules.push(module);
                                used.push(index);
                                proof {
                                    assert forall|k: int| 0 <= k < found.len() + 1 implies module_is(
                                        #[trigger] modules@[k],
                                        found.push(entry)[k],
                                        relocations@,
                                        expected@,
                                    ) by {
                                        if k < found.len() {
                                            assert(modules@[k] == old_modules[k]);
                                        }
                                    }
                                    assert forall|k: int| 0 <= k < found.len() + 1 implies #[trigger] used@[k]
                                        == found.push(entry)[k].1 by {
                                        if k < found.len() {
                                            assert(used@[k] == old_used[k]);
                                        }
                                    }
                                    found = found.push(entry);
                                }
                            },
                            None => {},
                        }
                    },
                    None => {},
                },
                None => {},
            }
        }
        j = j + 1;
    }
    if modules.len() != expected.len() {
        return Err(Error::RegistrationNotFound);
    }
    Ok(modules)
}


/// Index of the first address in `addresses` equal to `address`.
pub open spec fn first_at(addresses: Seq<u64>, address: u64) -> Option<int>
    decreases addresses.len(),
{
    if addresses.len() == 0 {
        None
    } else if addresses[0] == address {
        Some(0)
    } else {
        match first_at(addresses.drop_first(), address) {
            Some(i) => Some(i + 1),
            None => None,
        }
    }
}

/// Position of the first module at `address`.
fn find_module_at(modules: &Vec<CodeGenModule>, address: u64) -> (r: Option<usize>)
    ensures
        match first_at(module_addresses(modules@), address) {
            Some(i) => r matches Some(k) && k == i && 0 <= i < modules@.len(),
            None => r is None,
        },
{
    let ghost addresses = module_addresses(modules@);
    let mut i: usize = 0;
    assert(addresses.skip(0) =~= addresses);
    while i < modules.len()
        invariant
            i <= modules@.len(),
            addresses == module_addresses(modules@),
            first_at(addresses, address) == match first_at(addresses.skip(i as int), address) {
                Some(k) => Some(k + i),
                None => None::<int>,
            },
        decreases modules@.len() - i,
    {
        if modules[i].address == address {
            return Some(i);
        }
        assert(addresses.skip(i as int).drop_first() =~= addresses.skip(i + 1));
        i = i + 1;
    }
    None
}

/// Addresses of the modules, in order.
pub open spec fn module_addresses(modules: Seq<CodeGenModule>) -> Seq<u64> {
    modules.map_values(|m: CodeGenModule| m.address)
}

/// Positions of the modules referenced by the first `n` pointers of an array at `start`,
/// when each points at a distinct known module.
pub open spec fn spec_chain<B: BinaryImage>(binary: &B, start: u64, addresses: Seq<u64>, n: nat) -> Option<
    Seq<int>,
>
    decreases n,
{
    if n == 0 {
        Some(Seq::empty())
    } else {
        match spec_chain(binary, start, addresses, (n - 1) as nat) {
            None => None,
            Some(previous) => if start + (n - 1) * 8 > u64::MAX {
                None
            } else {
                match spec_relocated_pointer(binary, (start + (n - 1) * 8) as u64) {
                    Err(_) => None,
                    Ok(address) => match first_at(addresses, address) {
                        None => None,
                        Some(i) => if previous.contains(i) {
                            None
                        } else {
                            Some(previous.push(i))
                        },
                    },
                }
            },
        }
    }
}

proof fn lemma_chain_fails_after<B: BinaryImage>(
    binary: &B,
    start: u64,
    addresses: Seq<u64>,
    i: nat,
    n: nat,
)
    requires
        i <= n,
        spec_chain(binary, start, addresses, i) is None,
    ensures
        spec_chain(binary, start, addresses, n) is None,
    decreases n - i,
{
    if i < n {
        lemma_chain_fails_after(binary, start, addresses, i + 1, n);
    }
}

proof fn lemma_chain_step<B: BinaryImage>(binary: &B, start: u64, addresses: Seq<u64>, n: nat)
    ensures
        spec_chain(binary, start, addresses, n + 1) == match spec_chain(
            binary,
            start,
            addresses,
            n,
        ) {
            None => None,
            Some(previous) => if start + n * 8 > u64::MAX {
                None
            } else {
                match spec_relocated_pointer(binary, (start + n * 8) as u64) {
                    Err(_) => None,
                    Ok(address) => match first_at(addresses, address) {
                        None => None,
                        Some(i) => if previous.contains(i) {
                            None
                        } else {
                            Some(previous.push(i))
                        },
                    },
                }
            },
        },
{
}

/// Reads the module positions of an array of `count` module pointers at `start`.
#[verifier::loop_isolation(false)]
fn read_chain<B: BinaryImage>(binary: &B, start: u64, modules: &Vec<CodeGenModule>, count: usize) -> (r: Option<
    Vec<usize>,
>)
    ensures
        match spec_chain(binary, start, module_addresses(modules@), count as nat) {
            Some(chain) => r matches Some(v) && v@.len() == chain.len() && forall|k: int|
                0 <= k < chain.len() ==> #[trigger] v@[k] == chain[k],
            None => r is None,
        },
        r matches Some(v) ==> forall|k: int| 0 <= k < v@.len() ==> v@[k] < modules@.len(),
{
    let ghost addresses = module_addresses(modules@);
    let mut chain: Vec<usize> = Vec::new();
    let mut index: usize = 0;
    while index < count
        invariant
            index <= count,
            addresses == module_addresses(modules@),
            spec_chain(binary, start, addresses, index as nat) matches Some(c) && chain@.len()
                == c.len() && forall|k: int| 0 <= k < c.len() ==> #[trigger] chain@[k] == c[k],
            forall|k: int| 0 <= k < chain@.len() ==> chain@[k] < modules@.len(),
        decreases count - index,
    {
        let ghost previous = spec_chain(binary, start, addresses, index as nat)->0;
        proof {
            lemma_chain_step(binary, start, addresses, index as nat);
        }
        if index as u64 > (u64::MAX - start) / 8 {
            proof {
                assert(index * 8 > u64::MAX - start) by (nonlinear_arith)
                    requires
                        index > (u64::MAX - start) / 8,
                ;
                lemma_chain_fails_after(binary, start, addresses, (index + 1) as nat, count as nat);
            }
            return None;
        }
        assert(index * 8 <= u64::MAX - start) by (nonlinear_arith)
            requires
                index <= (u64::MAX - start) / 8,
        ;
        let slot = start + index as u64 * 8;
        let address = match relocated_pointer(binary, slot) {
            Ok(address) => address,
            Err(_) => {
                proof {
                    assert(spec_chain(binary, start, addresses, index as nat) == Some(previous));
                    assert(start + index * 8 <= u64::MAX);
                    assert(spec_relocated_pointer(binary, slot) is Err);
                    assert(slot == (start + index * 8) as u64);
                    assert(spec_chain(binary, start, addresses, (index + 1) as nat) is None);
                    lemma_chain_fails_after(binary, start, addresses, (index + 1) as nat, count as nat);
                }
                return None;
            },
        };
        proof {
            assert(spec_chain(binary, start, addresses, index as nat) == Some(previous));
            assert(start + index * 8 <= u64::MAX);
            assert(slot == (start + index * 8) as u64);
            assert(spec_relocated_pointer(binary, slot) == Ok::<u64, Error>(address));
        }
        let position = match find_module_at(modules, address) {
            Some(position) => position,
            None => {
                proof {
                    lemma_chain_fails_after(binary, start, addresses, (index + 1) as nat, count as nat);
                }
                return None;
            },
        };
        proof {
            assert(first_at(addresses, address) == Some(position as int));
        }
        let mut k: usize = 0;
        while k < chain.len()
            invariant
                k <= chain@.len(),
                chain@.len() == previous.len(),
                forall|m: int| 0 <= m < chain@.len() ==> #[trigger] chain@[m] == previous[m],
                forall|m: int| 0 <= m < k ==> previous[m] != position,
            decreases chain@.len() - k,
        {
            if chain[k] == position {
                proof {
                    assert(previous[k as int] == position);
                    assert(previous.contains(position as int));
                    lemma_chain_fails_after(binary, start, addresses, (index + 1) as nat, count as nat);
                }
                return None;
            }
            k = k + 1;
        }
        proof {
            assert(!previous.contains(position as int)) by {
                if previous.contains(position as int) {
                    let m = choose|m: int| 0 <= m < previous.len() && previous[m] == position;
                    assert(chain@[m] == previous[m]);
                }
            }
        }
        let ghost before = chain@;
        chain.push(position);
        proof {
            let next = previous.push(position as int);
            assert(spec_chain(binary, start, addresses, (index + 1) as nat) == Some(next));
            assert forall|k: int| 0 <= k < next.len() implies #[trigger] chain@[k] == next[k] by {
                if k < previous.len() {
                    assert(chain@[k] == before[k]);
                }
            }
        }
        index = index + 1;
    }
    Some(chain)
}

/// The relocation at `r` starts an array of module pointers: its addend is a known module
/// and the slot before it holds no module pointer.
pub open spec fn array_start<B: BinaryImage>(binary: &B, r: RelativeRelocation, addresses: Seq<u64>) -> bool {
    &&& r.addend >= 0
    &&& first_at(addresses, r.addend as u64) is Some
    &&& !(r.address >= 8 && match relocation_at(binary.spec_relocations(), (r.address - 8) as u64) {
        Some(previous) => previous.addend >= 0 && first_at(addresses, previous.addend as u64)
            is Some,
        None => false,
    })
}

/// The module positions of a complete array of `count` distinct modules starting at `r`.
pub open spec fn array_candidate<B: BinaryImage>(
    binary: &B,
    r: RelativeRelocation,
    addresses: Seq<u64>,
    count: nat,
) -> Option<Seq<int>> {
    if array_start(binary, r, addresses) {
        spec_chain(binary, r.address, addresses, count)
    } else {
        None
    }
}

/// Number of module-array candidates among the first `n` relocations.
pub open spec fn array_candidates<B: BinaryImage>(
    binary: &B,
    addresses: Seq<u64>,
    count: nat,
    n: nat,
) -> nat
    decreases n,
{
    if n == 0 {
        0
    } else {
        array_candidates(binary, addresses, count, (n - 1) as nat) + if array_candidate(
            binary,
            binary.spec_relocations()[n - 1],
            addresses,
            count,
        ) is Some {
            1nat
        } else {
            0nat
        }
    }
}

/// Relocation `i` is a module-array candidate starting at `address` whose chain is `chain`.
pub open spec fn chain_chosen<B: BinaryImage>(
    binary: &B,
    addresses: Seq<u64>,
    count: nat,
    i: int,
    address: u64,
    chain: Seq<usize>,
) -> bool {
    &&& 0 <= i < binary.spec_relocations().len()
    &&& array_candidate(binary, binary.spec_relocations()[i], addresses, count) is Some
    &&& address == binary.spec_relocations()[i].address
    &&& chain.len() == array_candidate(binary, binary.spec_relocations()[i], addresses, count)->0.len()
    &&& forall|k: int|
        0 <= k < chain.len() ==> chain[k] == array_candidate(
            binary,
            binary.spec_relocations()[i],
            addresses,
            count,
        )->0[k]
}

/// Relocation `i` is a module-array candidate starting at `address`.
pub open spec fn array_found<B: BinaryImage>(
    binary: &B,
    addresses: Seq<u64>,
    count: nat,
    i: int,
    address: u64,
) -> bool {
    &&& 0 <= i < binary.spec_relocations().len()
    &&& array_candidate(binary, binary.spec_relocations()[i], addresses, count) is Some
    &&& address == binary.spec_relocations()[i].address
}

/// `ordered` lists the modules of a module-array candidate starting at `address`.
pub open spec fn array_result<B: BinaryImage>(
    binary: &B,
    modules: Seq<CodeGenModule>,
    count: nat,
    address: u64,
    ordered: Seq<CodeGenModule>,
) -> bool {
    exists|i: int|
        #[trigger] array_found(binary, module_addresses(modules), count, i, address)
            && ordered.len() == array_candidate(
            binary,
            binary.spec_relocations()[i],
            module_addresses(modules),
            count,
        )->0.len() && forall|k: int|
            0 <= k < ordered.len() ==> ordered[k] == modules[array_candidate(
                binary,
                binary.spec_relocations()[i],
                module_addresses(modules),
                count,
            )->0[k]]
}

/// Locates the unique array of `expected_count` module pointers.
#[verifier::loop_isolation(false)]
pub fn discover_module_array<B: BinaryImage>(
    binary: &B,
    expected_count: usize,
    modules: &Vec<CodeGenModule>,
) -> (r: Result<(u64, Vec<CodeGenModule>)>)
    ensures
        r is Ok <==> array_candidates(
            binary,
            module_addresses(modules@),
            expected_count as nat,
            binary.spec_relocations().len(),
        ) == 1,
        r matches Err(e) ==> e == Error::RegistrationNotFound,
        r matches Ok(found) ==> array_result(
            binary,
            modules@,
            expected_count as nat,
            found.0,
            found.1@,
        ),
{
    let ghost addresses = module_addresses(modules@);
    let relocations = binary.relative_relocations();
    let mut candidates: usize = 0;
    let mut chosen_address: u64 = 0;
    let mut chosen_chain: Vec<usize> = Vec::new();
    let ghost mut chosen_index: int = 0;
    let mut j: usize = 0;
    while j < relocations.len()
        invariant
            j <= relocations@.len(),
            relocations@ == binary.spec_relocations(),
            relocations_sorted(relocations@),
            addresses == module_addresses(modules@),
            candidates == array_candidates(binary, addresses, expected_count as nat, j as nat),
            candidates <= j,
            candidates > 0 ==> forall|m: int|
                0 <= m < chosen_chain@.len() ==> chosen_chain@[m] < modules@.len(),
            candidates > 0 ==> chosen_index < j && chain_chosen(
                binary,
                addresses,
                expected_count as nat,
                chosen_index,
                chosen_address,
                chosen_chain@,
            ),
        decreases relocations@.len() - j,
    {
        let relocation = relocations[j];
        let ghost is_start = array_start(binary, relocation, addresses);
        let mut start = false;
        if relocation.addend >= 0 {
            if find_module_at(modules, relocation.addend as u64).is_some() {
                start = true;
                if relocation.address >= 8 {
                    match find_relocation(relocations, relocation.address - 8) {
                        Some(p) => {
                            proof {
                                lemma_relocation_at(relocations@, (relocation.address - 8) as u64, p as int);
                            }
                            let previous = relocations[p];
                            if previous.addend >= 0 && find_module_at(
                                modules,
                                previous.addend as u64,
                            ).is_some() {
                                start = false;
                            }
                        },
                        None => {},
                    }
                }
            }
        }
        assert(start == is_start);
        if start {
            match read_chain(binary, relocation.address, modules, expected_count) {
                Some(chain) => {
                    proof {
                        chosen_index = j as int;
                    }
                    chosen_address = relocation.address;
                    chosen_chain = chain;
                    candidates = candidates + 1;
                },
                None => {},
            }
        }
        j = j + 1;
    }
    if candidates != 1 {
        return Err(Error::RegistrationNotFound);
    }
    let mut ordered: Vec<CodeGenModule> = Vec::new();
    let mut k: usize = 0;
    while k < chosen_chain.len()
        invariant
            k <= chosen_chain@.len(),
            ordered@.len() == k,
            forall|m: int| 0 <= m < chosen_chain@.len() ==> chosen_chain@[m] < modules@.len(),
            forall|m: int| 0 <= m < k ==> ordered@[m] == modules@[chosen_chain@[m] as int],
        decreases chosen_chain@.len() - k,
    {
        ordered.push(modules[chosen_chain[k]].clone());
        k = k + 1;
    }
    proof {
        assert(chain_chosen(
            binary,
            addresses,
            expected_count as nat,
            chosen_index,
            chosen_address,
            chosen_chain@,
        ));
        let chain = array_candidate(
            binary,
            relocations@[chosen_index],
            addresses,
            expected_count as nat,
        )->0;
        assert forall|k: int| 0 <= k < ordered@.len() implies ordered@[k] == modules@[chain[k]] by {
            assert(ordered@[k] == modules@[chosen_chain@[k] as int]);
            assert(chosen_chain@[k] == chain[k]);
        }
        assert(array_found(binary, addresses, expected_count as nat, chosen_index, chosen_address));
        assert(ordered@.len() == chain.len());
        assert(addresses == module_addresses(modules@));
        assert(relocations@[chosen_index] == binary.spec_relocations()[chosen_index]);
        assert(array_found(
            binary,
            module_addresses(modules@),
            expected_count as nat,
            chosen_index,
            chosen_address,
        ));
        assert(ordered@.len() == array_candidate(
            binary,
            binary.spec_relocations()[chosen_index],
            module_addresses(modules@),
            expected_count as nat,
        )->0.len());
        assert(forall|k: int|
            0 <= k < ordered@.len() ==> ordered@[k] == modules@[array_candidate(
                binary,
                binary.spec_relocations()[chosen_index],
                module_addresses(modules@),
                expected_count as nat,
            )->0[k]]);
        assert(array_result(binary, modules@, expected_count as nat, chosen_address, ordered@));
    }
    Ok((chosen_address, ordered))
}


proof fn lemma_array_candidates_positive<B: BinaryImage>(
    binary: &B,
    addresses: Seq<u64>,
    count: nat,
    k: int,
    n: nat,
)
    requires
        0 <= k < n,
        array_candidate(binary, binary.spec_relocations()[k], addresses, count) is Some,
    ensures
        array_candidates(binary, addresses, count, n) >= 1,
    decreases n,
{
    if k < n - 1 {
        lemma_array_candidates_positive(binary, addresses, count, k, (n - 1) as nat);
    }
}

proof fn lemma_array_candidate_unique<B: BinaryImage>(
    binary: &B,
    addresses: Seq<u64>,
    count: nat,
    i: int,
    j: int,
    n: nat,
)
    requires
        0 <= i < n,
        0 <= j < n,
        i != j,
        array_candidate(binary, binary.spec_relocations()[i], addresses, count) is Some,
        array_candidate(binary, binary.spec_relocations()[j], addresses, count) is Some,
    ensures
        array_candidates(binary, addresses, count, n) >= 2,
    decreases n,
{
    if i == n - 1 {
        lemma_array_candidates_positive(binary, addresses, count, j, (n - 1) as nat);
    } else if j == n - 1 {
        lemma_array_candidates_positive(binary, addresses, count, i, (n - 1) as nat);
    } else {
        lemma_array_candidate_unique(binary, addresses, count, i, j, (n - 1) as nat);
    }
}

/// The code registration whose module-array pointer is the relocation `r`, when it points
/// at `module_array` and the registration records `module_count` modules.
pub open spec fn code_registration_at<B: BinaryImage>(
    binary: &B,
    r: RelativeRelocation,
    module_array: u64,
    module_count: usize,
) -> Option<u64> {
    if r.addend >= 0 && r.addend as u64 == module_array && r.address
        >= CODE_REGISTRATION_MODULES_OFFSET {
        let base = (r.address - CODE_REGISTRATION_MODULES_OFFSET) as u64;
        if spec_read_u32(binary, (base + CODE_REGISTRATION_MODULE_COUNT_OFFSET) as u64) == Ok::<
            u32,
            Error,
        >(module_count as u32) && binary.spec_read(base, CODE_GEN_MODULE_SIZE as nat) is Some {
            Some(base)
        } else {
            None
        }
    } else {
        None
    }
}

/// Number of code-registration candidates among the first `n` relocations.
pub open spec fn code_registration_candidates<B: BinaryImage>(
    binary: &B,
    module_array: u64,
    module_count: usize,
    n: nat,
) -> nat
    decreases n,
{
    if n == 0 {
        0
    } else {
        code_registration_candidates(binary, module_array, module_count, (n - 1) as nat) + if code_registration_at(
            binary,
            binary.spec_relocations()[n - 1],
            module_array,
            module_count,
        ) is Some {
            1nat
        } else {
            0nat
        }
    }
}

/// Some relocation yields the code registration `address`.
pub open spec fn code_registration_found<B: BinaryImage>(
    binary: &B,
    module_array: u64,
    module_count: usize,
    address: u64,
) -> bool {
    exists|i: int|
        0 <= i < binary.spec_relocations().len() && #[trigger] code_registration_at(
            binary,
            binary.spec_relocations()[i],
            module_array,
            module_count,
        ) == Some(address)
}

/// Locates the unique code registration that points at the module array.
pub fn discover_code_registration<B: BinaryImage>(
    binary: &B,
    module_array: u64,
    module_count: usize,
) -> (r: Result<u64>)
    ensures
        r is Ok <==> code_registration_candidates(
            binary,
            module_array,
            module_count,
            binary.spec_relocations().len(),
        ) == 1,
        r matches Err(e) ==> e == Error::RegistrationNotFound,
        r matches Ok(a) ==> code_registration_found(binary, module_array, module_count, a),
{
    let relocations = binary.relative_relocations();
    let mut candidates: usize = 0;
    let mut chosen: u64 = 0;
    let mut j: usize = 0;
    while j < relocations.len()
        invariant
            j <= relocations@.len(),
            relocations@ == binary.spec_relocations(),
            candidates == code_registration_candidates(binary, module_array, module_count, j as nat),
            candidates <= j,
            candidates > 0 ==> code_registration_found(binary, module_array, module_count, chosen),
        decreases relocations@.len() - j,
    {
        let relocation = relocations[j];
        if relocation.addend >= 0 && relocation.addend as u64 == module_array && relocation.address
            >= CODE_REGISTRATION_MODULES_OFFSET {
            let base = relocation.address - CODE_REGISTRATION_MODULES_OFFSET;
            let count_matches = match read_u32(binary, base + CODE_REGISTRATION_MODULE_COUNT_OFFSET) {
                Ok(count) => count == module_count as u32,
                Err(_) => false,
            };
            if count_matches && binary.read_virtual(base, CODE_GEN_MODULE_SIZE).is_ok() {
                assert(code_registration_at(binary, relocations@[j as int], module_array, module_count)
                    == Some(base));
                chosen = base;
                candidates = candidates + 1;
            }
        }
        j = j + 1;
    }
    if candidates == 1 {
        Ok(chosen)
    } else {
        Err(Error::RegistrationNotFound)
    }
}

proof fn lemma_code_candidates_positive<B: BinaryImage>(
    binary: &B,
    module_array: u64,
    module_count: usize,
    k: int,
    n: nat,
)
    requires
        0 <= k < n,
        code_registration_at(binary, binary.spec_relocations()[k], module_array, module_count)
            is Some,
    ensures
        code_registration_candidates(binary, module_array, module_count, n) >= 1,
    decreases n,
{
    if k < n - 1 {
        lemma_code_candidates_positive(binary, module_array, module_count, k, (n - 1) as nat);
    }
}

proof fn lemma_code_candidate_unique<B: BinaryImage>(
    binary: &B,
    module_array: u64,
    module_count: usize,
    i: int,
    j: int,
    n: nat,
)
    requires
        0 <= i < n,
        0 <= j < n,
        i != j,
        code_registration_at(binary, binary.spec_relocations()[i], module_array, module_count)
            is Some,
        code_registration_at(binary, binary.spec_relocations()[j], module_array, module_count)
            is Some,
    ensures
        code_registration_candidates(binary, module_array, module_count, n) >= 2,
    decreases n,
{
    if i == n - 1 {
        lemma_code_candidates_positive(binary, module_array, module_count, j, (n - 1) as nat);
    } else if j == n - 1 {
        lemma_code_candidates_positive(binary, module_array, module_count, i, (n - 1) as nat);
    } else {
        lemma_code_candidate_unique(binary, module_array, module_count, i, j, (n - 1) as nat);
    }
}

/// The pointer stored at `address` is readable and not null.
pub open spec fn nonzero_pointer<B: BinaryImage>(binary: &B, address: u64) -> bool {
    match spec_relocated_pointer(binary, address) {
        Ok(pointer) => pointer != 0,
        Err(_) => false,
    }
}

/// The `u32` at `address` is readable and at least `minimum`.
pub open spec fn count_at_least<B: BinaryImage>(binary: &B, address: u64, minimum: u32) -> bool {
    match spec_read_u32(binary, address) {
        Ok(count) => count >= minimum,
        Err(_) => false,
    }
}

/// The metadata registration whose field-offset pointer is at relocation `r`, when its
/// counts match the metadata's `type_count` and its tables are present.
pub open spec fn metadata_registration_at<B: BinaryImage>(
    binary: &B,
    r: RelativeRelocation,
    type_count: u32,
) -> Option<u64> {
    if r.address >= 0x58 && r.address - 0x58 + 0x68 <= u64::MAX {
        let base = (r.address - 0x58) as u64;
        if binary.spec_read(base, METADATA_REGISTRATION_SIZE as nat) is Some && spec_read_u32(
            binary,
            (base + 0x50) as u64,
        ) == Ok::<u32, Error>(type_count) && spec_read_u32(binary, (base + 0x60) as u64) == Ok::<
            u32,
            Error,
        >(type_count) && nonzero_pointer(binary, (base + 0x58) as u64) && nonzero_pointer(
            binary,
            (base + 0x68) as u64,
        ) && count_at_least(binary, (base + 0x30) as u64, type_count) && nonzero_pointer(
            binary,
            (base + 0x38) as u64,
        ) {
            Some(base)
        } else {
            None
        }
    } else {
        None
    }
}

/// Number of metadata-registration candidates among the first `n` relocations.
pub open spec fn metadata_registration_candidates<B: BinaryImage>(
    binary: &B,
    type_count: u32,
    n: nat,
) -> nat
    decreases n,
{
    if n == 0 {
        0
    } else {
        metadata_registration_candidates(binary, type_count, (n - 1) as nat) + if metadata_registration_at(
            binary,
            binary.spec_relocations()[n - 1],
            type_count,
        ) is Some {
            1nat
        } else {
            0nat
        }
    }
}

/// The metadata registration the search settles on: the unique candidate, if exactly one.
pub open spec fn spec_metadata_registration_found<B: BinaryImage>(
    binary: &B,
    metadata: Metadata,
    address: u64,
) -> bool {
    exists|i: int|
        0 <= i < binary.spec_relocations().len() && #[trigger] metadata_registration_at(
            binary,
            binary.spec_relocations()[i],
            metadata.types@.len() as u32,
        ) == Some(address)
}

/// Locates the unique metadata registration matching the metadata's type count.
pub fn discover_metadata_registration<B: BinaryImage>(binary: &B, metadata: &Metadata) -> (r: Option<
    u64,
>)
    ensures
        metadata.types@.len() > u32::MAX ==> r is None,
        metadata.types@.len() <= u32::MAX ==> (r is Some <==> metadata_registration_candidates(
            binary,
            metadata.types@.len() as u32,
            binary.spec_relocations().len(),
        ) == 1),
        r matches Some(a) ==> spec_metadata_registration_found(binary, *metadata, a),
{
    if metadata.types.len() > u32::MAX as usize {
        return None;
    }
    let type_count = metadata.types.len() as u32;
    let relocations = binary.relative_relocations();
    let mut candidates: usize = 0;
    let mut chosen: u64 = 0;
    let mut j: usize = 0;
    while j < relocations.len()
        invariant
            j <= relocations@.len(),
            relocations@ == binary.spec_relocations(),
            type_count == metadata.types@.len() as u32,
            candidates == metadata_registration_candidates(binary, type_count, j as nat),
            candidates <= j,
            candidates > 0 ==> spec_metadata_registration_found(binary, *metadata, chosen),
        decreases relocations@.len() - j,
    {
        let relocation = relocations[j];
        if relocation.address >= 0x58 && relocation.address - 0x58 <= u64::MAX - 0x68 {
            let base = relocation.address - 0x58;
            let mut valid = binary.read_virtual(base, METADATA_REGISTRATION_SIZE).is_ok();
            if valid {
                valid = match read_u32(binary, base + 0x50) {
                    Ok(count) => count == type_count,
                    Err(_) => false,
                };
            }
            if valid {
                valid = match read_u32(binary, base + 0x60) {
                    Ok(count) => count == type_count,
                    Err(_) => false,
                };
            }
            if valid {
                valid = match relocated_pointer(binary, base + 0x58) {
                    Ok(pointer) => pointer != 0,
                    Err(_) => false,
                };
            }
            if valid {
                valid = match relocated_pointer(binary, base + 0x68) {
                    Ok(pointer) => pointer != 0,
                    Err(_) => false,
                };
            }
            if valid {
                valid = match read_u32(binary, base + 0x30) {
                    Ok(count) => count >= type_count,
                    Err(_) => false,
                };
            }
            if valid {
                valid = match relocated_pointer(binary, base + 0x38) {
                    Ok(pointer) => pointer != 0,
                    Err(_) => false,
                };
            }
            assert(valid <==> metadata_registration_at(binary, relocations@[j as int], type_count)
                is Some);
            if valid {
                assert(metadata_registration_at(binary, relocations@[j as int], type_count) == Some(
                    base,
                ));
                chosen = base;
                candidates = candidates + 1;
            }
        }
        j = j + 1;
    }
    if candidates == 1 {
        Some(chosen)
    } else {
        None
    }
}


proof fn lemma_first_at_range(addresses: Seq<u64>, address: u64)
    ensures
        first_at(addresses, address) matches Some(i) ==> 0 <= i < addresses.len()
            && addresses[i] == address,
    decreases addresses.len(),
{
    if addresses.len() > 0 {
        lemma_first_at_range(addresses.drop_first(), address);
    }
}

proof fn lemma_chain_facts<B: BinaryImage>(binary: &B, start: u64, addresses: Seq<u64>, n: nat)
    ensures
        spec_chain(binary, start, addresses, n) matches Some(c) ==> c.len() == n && forall|k: int|
            0 <= k < c.len() ==> 0 <= #[trigger] c[k] < addresses.len(),
    decreases n,
{
    if n > 0 {
        lemma_chain_facts(binary, start, addresses, (n - 1) as nat);
        if start + (n - 1) * 8 <= u64::MAX {
            match spec_relocated_pointer(binary, (start + (n - 1) * 8) as u64) {
                Ok(address) => lemma_first_at_range(addresses, address),
                Err(_) => {},
            }
        }
    }
}

/// Addresses of the found modules, in order.
pub open spec fn found_addresses(
    relocations: Seq<RelativeRelocation>,
    found: Seq<(int, int, Option<u64>)>,
) -> Seq<u64> {
    found.map_values(|f: (int, int, Option<u64>)| relocations[f.0].address)
}

/// The metadata registration a search reports: none when the type count exceeds `u32`,
/// otherwise the unique candidate when there is exactly one.
pub open spec fn metadata_registration_matches<B: BinaryImage>(
    binary: &B,
    metadata: Metadata,
    found: Option<u64>,
) -> bool {
    &&& metadata.types@.len() > u32::MAX ==> found is None
    &&& metadata.types@.len() <= u32::MAX ==> (found is Some <==> metadata_registration_candidates(
        binary,
        metadata.types@.len() as u32,
        binary.spec_relocations().len(),
    ) == 1)
    &&& found matches Some(a) ==> spec_metadata_registration_found(binary, metadata, a)
}

/// `info` lists the modules of the array candidate `i` over the found modules.
pub open spec fn registration_built<B: BinaryImage>(
    binary: &B,
    metadata: Metadata,
    expected: Seq<ExpectedModule>,
    found: Seq<(int, int, Option<u64>)>,
    i: int,
    info: RegistrationInfo,
) -> bool {
    let relocations = binary.spec_relocations();
    let addresses = found_addresses(relocations, found);
    let count = metadata.images@.len();
    let chain = array_candidate(binary, relocations[i], addresses, count)->0;
    &&& info.modules@.len() == chain.len()
    &&& forall|k: int|
        0 <= k < chain.len() ==> module_is(
            #[trigger] info.modules@[k],
            found[chain[k]],
            relocations,
            expected,
        )
    &&& code_registration_candidates(
        binary,
        info.codegen_modules,
        count as usize,
        relocations.len(),
    ) == 1
    &&& info.registration.code_registration matches Some(code) && code_registration_found(
        binary,
        info.codegen_modules,
        count as usize,
        code,
    )
    &&& metadata_registration_matches(binary, metadata, info.registration.metadata_registration)
}

/// What discovery yields for the expected module table `expected`: the search's failure, or
/// registrations built from the unique module array and the unique code registration that
/// points at it.
pub open spec fn discovery_matches<B: BinaryImage>(
    binary: &B,
    metadata: Metadata,
    expected: Seq<ExpectedModule>,
    r: Result<RegistrationInfo>,
) -> bool {
    let relocations = binary.spec_relocations();
    match spec_discover_modules(binary, expected) {
        Err(e) => r == Err::<RegistrationInfo, Error>(e),
        Ok(found) => {
            let addresses = found_addresses(relocations, found);
            let count = metadata.images@.len();
            if array_candidates(binary, addresses, count, relocations.len()) != 1 {
                r == Err::<RegistrationInfo, Error>(Error::RegistrationNotFound)
            } else {
                match r {
                    Err(e) => e == Error::RegistrationNotFound && forall|i: int|
                        #[trigger] array_found(binary, addresses, count, i, relocations[i].address)
                            ==> code_registration_candidates(
                            binary,
                            relocations[i].address,
                            count as usize,
                            relocations.len(),
                        ) != 1,
                    Ok(info) => exists|i: int|
                        #[trigger] array_found(binary, addresses, count, i, info.codegen_modules)
                            && registration_built(binary, metadata, expected, found, i, info),
                }
            }
        },
    }
}

/// Some valid expected module table gives the discovery outcome `r`.
pub open spec fn discovered<B: BinaryImage>(binary: &B, metadata: Metadata, r: Result<RegistrationInfo>) -> bool {
    exists|expected: Seq<ExpectedModule>|
        expected_valid(metadata, expected) && #[trigger] discovery_matches(
            binary,
            metadata,
            expected,
            r,
        )
}

/// What discovery promises: only little-endian AArch64 images are searched, a malformed
/// method table fails with its first error, and otherwise the outcome is the search over a
/// valid expected module table.
pub open spec fn discovery_contract<B: BinaryImage>(
    binary: &B,
    metadata: Metadata,
    r: Result<RegistrationInfo>,
) -> bool {
    &&& !(binary.spec_architecture() == Architecture::Arm64 && binary.spec_endianness()
        == Endianness::Little) ==> r == Err::<RegistrationInfo, Error>(
        Error::UnsupportedArchitecture,
    )
    &&& binary.spec_architecture() == Architecture::Arm64 && binary.spec_endianness()
        == Endianness::Little ==> match first_method_error(metadata, metadata.methods@.len()) {
        Some(e) => r == Err::<RegistrationInfo, Error>(e),
        None => discovered(binary, metadata, r),
    }
}

impl RegistrationInfo {
    /// Discovers and validates Unity 2022.3-style registration structures.
    pub fn discover<B: BinaryImage>(binary: &B, metadata: &Metadata) -> (r: Result<RegistrationInfo>)
        ensures
            discovery_contract(binary, *metadata, r),
    {
        if binary.architecture() != Architecture::Arm64 || binary.endianness()
            != Endianness::Little {
            return Err(Error::UnsupportedArchitecture);
        }
        let expected = match expected_method_counts(metadata) {
            Ok(expected) => expected,
            Err(e) => return Err(e),
        };
        let ghost relocations = binary.spec_relocations();
        let ghost count = metadata.images@.len();
        let found_modules = match discover_modules(binary, &expected) {
            Ok(modules) => modules,
            Err(e) => {
                assert(discovery_matches(binary, *metadata, expected@, Err(e)));
                return Err(e);
            },
        };
        let ghost found = spec_discover_modules(binary, expected@)->Ok_0;
        let ghost addresses = found_addresses(relocations, found);
        proof {
            assert(module_addresses(found_modules@) =~= addresses) by {
                assert forall|k: int| 0 <= k < found.len() implies module_addresses(
                    found_modules@,
                )[k] == addresses[k] by {
                    assert(module_is(found_modules@[k], found[k], relocations, expected@));
                }
            }
        }
        let (codegen_modules, modules) = match discover_module_array(
            binary,
            metadata.images.len(),
            &found_modules,
        ) {
            Ok(array) => array,
            Err(e) => {
                assert(discovery_matches(binary, *metadata, expected@, Err(e)));
                return Err(e);
            },
        };
        let ghost witness = choose|i: int|
            #[trigger] array_found(binary, addresses, count, i, codegen_modules) && modules@.len()
                == array_candidate(binary, relocations[i], addresses, count)->0.len() && forall|
                k: int,
            |
                0 <= k < modules@.len() ==> modules@[k] == found_modules@[array_candidate(
                    binary,
                    relocations[i],
                    addresses,
                    count,
                )->0[k]];
        proof {
            lemma_chain_facts(binary, relocations[witness].address, addresses, count);
            assert forall|i: int|
                #[trigger] array_found(binary, addresses, count, i, relocations[i].address)
                    implies i == witness by {
                if i != witness {
                    lemma_array_candidate_unique(
                        binary,
                        addresses,
                        count,
                        i,
                        witness,
                        relocations.len(),
                    );
                }
            }
        }
        let code_registration = match discover_code_registration(
            binary,
            codegen_modules,
            modules.len(),
        ) {
            Ok(code) => code,
            Err(e) => {
                assert(discovery_matches(binary, *metadata, expected@, Err(e)));
                return Err(e);
            },
        };
        let metadata_registration = discover_metadata_registration(binary, metadata);
        let info = RegistrationInfo {
            registration: Registration {
                code_registration: Some(code_registration),
                metadata_registration,
            },
            codegen_modules,
            modules,
        };
        proof {
            let chain = array_candidate(binary, relocations[witness], addresses, count)->0;
            assert forall|k: int| 0 <= k < chain.len() implies module_is(
                #[trigger] info.modules@[k],
                found[chain[k]],
                relocations,
                expected@,
            ) by {
                assert(info.modules@[k] == found_modules@[chain[k]]);
                assert(module_is(found_modules@[chain[k]], found[chain[k]], relocations, expected@));
            }
            assert(registration_built(binary, *metadata, expected@, found, witness, info));
            assert(discovery_matches(binary, *metadata, expected@, Ok(info)));
        }
        Ok(info)
    }
}


// ---------------------------------------------------------------- one outcome

/// The C-string length bound one name contributes to `max_name_length`.
pub open spec fn name_limit(name: Seq<char>) -> nat {
    let bytes = vstd::utf8::encode_utf8(name).len() as usize;
    if bytes == usize::MAX {
        usize::MAX as nat
    } else {
        (bytes + 1) as nat
    }
}

proof fn lemma_max_name_length(e: Seq<ExpectedModule>)
    ensures
        forall|i: int| 0 <= i < e.len() ==> name_limit(#[trigger] e[i].name@) <= max_name_length(e),
        e.len() > 0 ==> exists|i: int|
            0 <= i < e.len() && name_limit(#[trigger] e[i].name@) == max_name_length(e),
        e.len() == 0 ==> max_name_length(e) == 1,
    decreases e.len(),
{
    if e.len() > 0 {
        let rest = e.drop_last();
        lemma_max_name_length(rest);
        let last = e.len() - 1;
        assert(name_limit(e[last].name@) == name_limit(e.last().name@));
        assert forall|i: int| 0 <= i < e.len() implies name_limit(#[trigger] e[i].name@)
            <= max_name_length(e) by {
            if i < last {
                assert(e[i] == rest[i]);
            }
        }
        if max_name_length(e) == name_limit(e.last().name@) {
            assert(name_limit(e[last].name@) == max_name_length(e));
        } else if rest.len() > 0 {
            let i = choose|i: int| 0 <= i < rest.len() && name_limit(#[trigger] rest[i].name@)
                == max_name_length(rest);
            assert(e[i] == rest[i]);
        }
    }
}

/// Two valid expected tables list the same names.
proof fn lemma_same_names(metadata: Metadata, e1: Seq<ExpectedModule>, e2: Seq<ExpectedModule>, name: Seq<char>)
    requires
        expected_valid(metadata, e1),
        expected_valid(metadata, e2),
        name_listed(e1, name),
    ensures
        name_listed(e2, name),
{
    let i = choose|i: int| 0 <= i < e1.len() && e1[i].name@ == name;
    assert(image_named(metadata.images@, e1[i].name@, metadata.images@.len() as int));
    let j = choose|j: int| 0 <= j < metadata.images@.len() && metadata.images@[j].name@ == name;
    assert(name_listed(e2, metadata.images@[j].name@));
}

/// The names of a table.
pub open spec fn expected_names(e: Seq<ExpectedModule>) -> Seq<Seq<char>> {
    e.map_values(|x: ExpectedModule| x.name@)
}

/// Two valid expected tables have the same length and the same name bound.
proof fn lemma_tables_agree(metadata: Metadata, e1: Seq<ExpectedModule>, e2: Seq<ExpectedModule>)
    requires
        expected_valid(metadata, e1),
        expected_valid(metadata, e2),
    ensures
        e1.len() == e2.len(),
        max_name_length(e1) == max_name_length(e2),
{
    let n1 = expected_names(e1);
    let n2 = expected_names(e2);
    assert(n1.no_duplicates()) by {
        assert forall|i: int, j: int| 0 <= i < n1.len() && 0 <= j < n1.len() && i != j implies n1[i] != n1[j] by {
            if i < j {
                assert(e1[i].name@ != e1[j].name@);
            } else {
                assert(e1[j].name@ != e1[i].name@);
            }
        }
    }
    assert(n2.no_duplicates()) by {
        assert forall|i: int, j: int| 0 <= i < n2.len() && 0 <= j < n2.len() && i != j implies n2[i] != n2[j] by {
            if i < j {
                assert(e2[i].name@ != e2[j].name@);
            } else {
                assert(e2[j].name@ != e2[i].name@);
            }
        }
    }
    assert(n1.to_set() =~= n2.to_set()) by {
        assert forall|x: Seq<char>| n1.to_set().contains(x) <==> n2.to_set().contains(x) by {
            if n1.contains(x) {
                let i = choose|i: int| 0 <= i < n1.len() && n1[i] == x;
                assert(e1[i].name@ == x);
                lemma_same_names(metadata, e1, e2, x);
                let j = choose|j: int| 0 <= j < e2.len() && e2[j].name@ == x;
                assert(n2[j] == x);
            }
            if n2.contains(x) {
                let j = choose|j: int| 0 <= j < n2.len() && n2[j] == x;
                assert(e2[j].name@ == x);
                lemma_same_names(metadata, e2, e1, x);
                let i = choose|i: int| 0 <= i < e1.len() && e1[i].name@ == x;
                assert(n1[i] == x);
            }
        }
    }
    n1.unique_seq_to_set();
    n2.unique_seq_to_set();
    lemma_max_name_length(e1);
    lemma_max_name_length(e2);
    if e1.len() > 0 {
        let i = choose|i: int| 0 <= i < e1.len() && name_limit(#[trigger] e1[i].name@) == max_name_length(e1);
        lemma_same_names(metadata, e1, e2, e1[i].name@);
        let j = choose|j: int| 0 <= j < e2.len() && e2[j].name@ == e1[i].name@;
        assert(name_limit(e2[j].name@) <= max_name_length(e2));
        let j2 = choose|j: int| 0 <= j < e2.len() && name_limit(#[trigger] e2[j].name@) == max_name_length(e2);
        lemma_same_names(metadata, e2, e1, e2[j2].name@);
        let i2 = choose|i: int| 0 <= i < e1.len() && e1[i].name@ == e2[j2].name@;
        assert(name_limit(e1[i2].name@) <= max_name_length(e1));
    }
}

/// Found modules under two expected tables agree: same relocations and pointer tables, and
/// entries with the same name and count.
pub open spec fn found_agree(
    f1: Seq<(int, int, Option<u64>)>,
    f2: Seq<(int, int, Option<u64>)>,
    e1: Seq<ExpectedModule>,
    e2: Seq<ExpectedModule>,
) -> bool {
    &&& f1.len() == f2.len()
    &&& forall|k: int|
        0 <= k < f1.len() ==> {
            &&& (#[trigger] f1[k]).0 == f2[k].0
            &&& f1[k].2 == f2[k].2
            &&& 0 <= f1[k].1 < e1.len()
            &&& 0 <= f2[k].1 < e2.len()
            &&& e1[f1[k].1].name@ == e2[f2[k].1].name@
            &&& e1[f1[k].1].count == e2[f2[k].1].count
        }
}

proof fn lemma_found_agree<B: BinaryImage>(
    binary: &B,
    metadata: Metadata,
    e1: Seq<ExpectedModule>,
    e2: Seq<ExpectedModule>,
    max_length: nat,
    n: nat,
)
    requires
        expected_valid(metadata, e1),
        expected_valid(metadata, e2),
        n <= binary.spec_relocations().len(),
    ensures
        match (spec_found_modules(binary, e1, max_length, n), spec_found_modules(binary, e2, max_length, n)) {
            (Err(x), Err(y)) => x == y,
            (Ok(f1), Ok(f2)) => found_agree(f1, f2, e1, e2),
            _ => false,
        },
    decreases n,
{
    if n > 0 {
        lemma_found_agree(binary, metadata, e1, e2, max_length, (n - 1) as nat);
        let r = binary.spec_relocations()[n - 1];
        match (spec_found_modules(binary, e1, max_length, (n - 1) as nat), spec_found_modules(binary, e2, max_length, (n - 1) as nat)) {
            (Ok(f1), Ok(f2)) => {
                let m1 = module_at_relocation(binary, r, e1, max_length);
                let m2 = module_at_relocation(binary, r, e2, max_length);
                if r.addend >= 0 {
                    match spec_read_c_string(binary, r.addend as u64, max_length) {
                        None => {},
                        Some(name) => {
                            if name_listed(e1, name) {
                                lemma_same_names(metadata, e1, e2, name);
                            }
                            if name_listed(e2, name) {
                                lemma_same_names(metadata, e2, e1, name);
                            }
                            if name_listed(e1, name) {
                                let i1 = choose|i: int| 0 <= i < e1.len() && e1[i].name@ == name;
                                let i2 = choose|i: int| 0 <= i < e2.len() && e2[i].name@ == name;
                                assert(e1[i1].count == max_row(metadata, e1[i1].name@, metadata.methods@.len()));
                                assert(e2[i2].count == max_row(metadata, e2[i2].name@, metadata.methods@.len()));
                                if m1 is Some {
                                    let d1 = exists|k: int| 0 <= k < f1.len() && f1[k].1 == i1;
                                    let d2 = exists|k: int| 0 <= k < f2.len() && f2[k].1 == i2;
                                    if d1 {
                                        let k = choose|k: int| 0 <= k < f1.len() && f1[k].1 == i1;
                                        assert(f1[k].0 == f2[k].0);
                                        if f2[k].1 != i2 {
                                            assert(e2[f2[k].1].name@ == e2[i2].name@);
                                            if f2[k].1 < i2 {
                                                assert(e2[f2[k].1].name@ != e2[i2].name@);
                                            } else {
                                                assert(e2[i2].name@ != e2[f2[k].1].name@);
                                            }
                                        }
                                    }
                                    if d2 {
                                        let k = choose|k: int| 0 <= k < f2.len() && f2[k].1 == i2;
                                        assert(f1[k].0 == f2[k].0);
                                        if f1[k].1 != i1 {
                                            assert(e1[f1[k].1].name@ == e1[i1].name@);
                                            if f1[k].1 < i1 {
                                                assert(e1[f1[k].1].name@ != e1[i1].name@);
                                            } else {
                                                assert(e1[i1].name@ != e1[f1[k].1].name@);
                                            }
                                        }
                                    }
                                    if !d1 {
                                        let entry1 = m1->0;
                                        let g1 = f1.push((n - 1, i1, entry1.1));
                                        let entry2 = m2->0;
                                        let g2 = f2.push((n - 1, i2, entry2.1));
                                        assert forall|k: int| 0 <= k < g1.len() implies {
                                            &&& (#[trigger] g1[k]).0 == g2[k].0
                                            &&& g1[k].2 == g2[k].2
                                            &&& 0 <= g1[k].1 < e1.len()
                                            &&& 0 <= g2[k].1 < e2.len()
                                            &&& e1[g1[k].1].name@ == e2[g2[k].1].name@
                                            &&& e1[g1[k].1].count == e2[g2[k].1].count
                                        } by {
                                            if k < f1.len() {
                                                assert(g1[k] == f1[k]);
                                                assert(g2[k] == f2[k]);
                                            }
                                        }
                                    }
                                }
                            }
                        },
                    }
                }
            },
            _ => {},
        }
    }
}

proof fn lemma_metadata_candidates_positive<B: BinaryImage>(binary: &B, type_count: u32, k: int, n: nat)
    requires
        0 <= k < n,
        metadata_registration_at(binary, binary.spec_relocations()[k], type_count) is Some,
    ensures
        metadata_registration_candidates(binary, type_count, n) >= 1,
    decreases n,
{
    if k < n - 1 {
        lemma_metadata_candidates_positive(binary, type_count, k, (n - 1) as nat);
    }
}

proof fn lemma_metadata_candidate_unique<B: BinaryImage>(binary: &B, type_count: u32, i: int, j: int, n: nat)
    requires
        0 <= i < n,
        0 <= j < n,
        i != j,
        metadata_registration_at(binary, binary.spec_relocations()[i], type_count) is Some,
        metadata_registration_at(binary, binary.spec_relocations()[j], type_count) is Some,
    ensures
        metadata_registration_candidates(binary, type_count, n) >= 2,
    decreases n,
{
    if i == n - 1 {
        lemma_metadata_candidates_positive(binary, type_count, j, (n - 1) as nat);
    } else if j == n - 1 {
        lemma_metadata_candidates_positive(binary, type_count, i, (n - 1) as nat);
    } else {
        lemma_metadata_candidate_unique(binary, type_count, i, j, (n - 1) as nat);
    }
}

/// What a module record holds, as plain values.
pub open spec fn module_view(module: CodeGenModule) -> (u64, Seq<char>, u32, Option<u64>) {
    (module.address, module.name@, module.method_pointer_count, module.method_pointers)
}

/// A discovery outcome as plain values: the error, or the registrations, the module array
/// and the modules in array order.
pub open spec fn discovery_view(r: Result<RegistrationInfo>) -> Result<
    (Registration, u64, Seq<(u64, Seq<char>, u32, Option<u64>)>),
> {
    match r {
        Ok(info) => Ok((info.registration, info.codegen_modules, info.modules@.map_values(|m: CodeGenModule| module_view(m)))),
        Err(e) => Err(e),
    }
}

proof fn lemma_matches_agree<B: BinaryImage>(
    binary: &B,
    metadata: Metadata,
    e1: Seq<ExpectedModule>,
    e2: Seq<ExpectedModule>,
    r1: Result<RegistrationInfo>,
    r2: Result<RegistrationInfo>,
)
    requires
        expected_valid(metadata, e1),
        expected_valid(metadata, e2),
        discovery_matches(binary, metadata, e1, r1),
        discovery_matches(binary, metadata, e2, r2),
    ensures
        discovery_view(r1) == discovery_view(r2),
{
    let relocations = binary.spec_relocations();
    let n = relocations.len();
    lemma_tables_agree(metadata, e1, e2);
    let length = max_name_length(e1);
    lemma_found_agree(binary, metadata, e1, e2, length, n);
    match (spec_discover_modules(binary, e1), spec_discover_modules(binary, e2)) {
        (Ok(f1), Ok(f2)) => {
            let addresses = found_addresses(relocations, f1);
            assert(found_addresses(relocations, f2) =~= addresses) by {
                assert forall|k: int| 0 <= k < f1.len() implies found_addresses(relocations, f2)[k]
                    == addresses[k] by {
                    assert(f1[k].0 == f2[k].0);
                }
            }
            let count = metadata.images@.len();
            if array_candidates(binary, addresses, count, n) == 1 {
                match (r1, r2) {
                    (Ok(info1), Ok(info2)) => {
                        let i1 = choose|i: int| #[trigger] array_found(binary, addresses, count, i, info1.codegen_modules)
                            && registration_built(binary, metadata, e1, f1, i, info1);
                        let i2 = choose|i: int| #[trigger] array_found(binary, addresses, count, i, info2.codegen_modules)
                            && registration_built(binary, metadata, e2, f2, i, info2);
                        if i1 != i2 {
                            lemma_array_candidate_unique(binary, addresses, count, i1, i2, n);
                        }
                        let chain = array_candidate(binary, relocations[i1], addresses, count)->0;
                        lemma_chain_facts(binary, relocations[i1].address, addresses, count);
                        let v1 = info1.modules@.map_values(|m: CodeGenModule| module_view(m));
                        let v2 = info2.modules@.map_values(|m: CodeGenModule| module_view(m));
                        assert(v1 =~= v2) by {
                            assert forall|k: int| 0 <= k < v1.len() implies v1[k] == v2[k] by {
                                assert(module_is(info1.modules@[k], f1[chain[k]], relocations, e1));
                                assert(module_is(info2.modules@[k], f2[chain[k]], relocations, e2));
                                assert(0 <= chain[k] < addresses.len());
                                assert(f1[chain[k]].0 == f2[chain[k]].0);
                            }
                        }
                        let c1 = info1.registration.code_registration->0;
                        let c2 = info2.registration.code_registration->0;
                        let j1 = choose|i: int| 0 <= i < n && #[trigger] code_registration_at(
                            binary, relocations[i], info1.codegen_modules, count as usize) == Some(c1);
                        let j2 = choose|i: int| 0 <= i < n && #[trigger] code_registration_at(
                            binary, relocations[i], info2.codegen_modules, count as usize) == Some(c2);
                        if j1 != j2 {
                            lemma_code_candidate_unique(binary, info1.codegen_modules, count as usize, j1, j2, n);
                        }
                        if metadata.types@.len() <= u32::MAX {
                            let tc = metadata.types@.len() as u32;
                            match (info1.registration.metadata_registration, info2.registration.metadata_registration) {
                                (Some(a1), Some(a2)) => {
                                    let k1 = choose|i: int| 0 <= i < n && #[trigger] metadata_registration_at(
                                        binary, relocations[i], tc) == Some(a1);
                                    let k2 = choose|i: int| 0 <= i < n && #[trigger] metadata_registration_at(
                                        binary, relocations[i], tc) == Some(a2);
                                    if k1 != k2 {
                                        lemma_metadata_candidate_unique(binary, tc, k1, k2, n);
                                    }
                                },
                                _ => {},
                            }
                        }
                        assert(info1.registration == info2.registration);
                    },
                    (Err(_), Ok(info2)) => {
                        let i2 = choose|i: int| #[trigger] array_found(binary, addresses, count, i, info2.codegen_modules)
                            && registration_built(binary, metadata, e2, f2, i, info2);
                        assert(array_found(binary, addresses, count, i2, relocations[i2].address));
                    },
                    (Ok(info1), Err(_)) => {
                        let i1 = choose|i: int| #[trigger] array_found(binary, addresses, count, i, info1.codegen_modules)
                            && registration_built(binary, metadata, e1, f1, i, info1);
                        assert(array_found(binary, addresses, count, i1, relocations[i1].address));
                    },
                    _ => {},
                }
            }
        },
        _ => {},
    }
}

/// Discovery has one outcome for an image and its metadata: however a valid expected
/// module table is ordered, the same error, or the same registrations, module array and
/// modules, come out.
pub proof fn law_discovery_has_one_outcome<B: BinaryImage>(
    binary: &B,
    metadata: Metadata,
    r1: Result<RegistrationInfo>,
    r2: Result<RegistrationInfo>,
)
    requires
        discovery_contract(binary, metadata, r1),
        discovery_contract(binary, metadata, r2),
    ensures
        discovery_view(r1) == discovery_view(r2),
{
    if binary.spec_architecture() == Architecture::Arm64 && binary.spec_endianness() == Endianness::Little
        && first_method_error(metadata, metadata.methods@.len()) is None {
        let e1 = choose|e: Seq<ExpectedModule>| expected_valid(metadata, e) && #[trigger] discovery_matches(binary, metadata, e, r1);
        let e2 = choose|e: Seq<ExpectedModule>| expected_valid(metadata, e) && #[trigger] discovery_matches(binary, metadata, e, r2);
        lemma_matches_agree(binary, metadata, e1, e2, r1, r2);
    }
}

} // verus!
