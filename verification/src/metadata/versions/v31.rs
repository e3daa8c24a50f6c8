//! Version 31 metadata layout: header table descriptors and fixed-width records.
use vstd::prelude::*;

use crate::metadata::header::{
    spec_table_name, spec_v31_header, spec_table_at, table_name, MetadataHeader, MetadataTable, HEADER_SIZE, TABLE_COUNT,
};
use crate::metadata::reader::{spec_i16, spec_i32, spec_u16, spec_u32, MetadataReader};
use crate::{Error, Result};

verus! {

pub const VERSION: u32 = 31;

pub const IMAGE_SIZE: usize = 40;
pub const ASSEMBLY_SIZE: usize = 64;
pub const TYPE_DEFINITION_SIZE: usize = 88;
pub const FIELD_SIZE: usize = 12;
pub const METHOD_SIZE: usize = 36;
pub const PARAMETER_SIZE: usize = 12;
pub const PROPERTY_SIZE: usize = 20;
pub const GENERIC_CONTAINER_SIZE: usize = 16;
pub const GENERIC_PARAMETER_SIZE: usize = 16;
pub const TYPE_INDEX_SIZE: usize = 4;
pub const STRING_LITERAL_SIZE: usize = 8;

/// Two tables occupy no common byte.
pub open spec fn tables_disjoint(a: MetadataTable, b: MetadataTable) -> bool {
    a.spec_end() <= b.offset || b.spec_end() <= a.offset
}

/// Every table descriptor of a version 31 header lies inside the file.
pub open spec fn v31_tables_fit(data: Seq<u8>) -> bool {
    forall|i: int| 0 <= i < TABLE_COUNT ==> (#[trigger] spec_table_at(data, i)).fits(data.len() as int)
}

/// Slot `k` holds the first table, in header order, that runs past the end of the file.
pub open spec fn first_unfit(data: Seq<u8>, k: int) -> bool {
    &&& 0 <= k < TABLE_COUNT
    &&& !spec_table_at(data, k).fits(data.len() as int)
    &&& forall|j: int| 0 <= j < k ==> (#[trigger] spec_table_at(data, j)).fits(data.len() as int)
}

/// Non-empty tables start after the header and do not overlap one another.
pub open spec fn v31_tables_ordered(data: Seq<u8>) -> bool {
    &&& forall|i: int|
        0 <= i < TABLE_COUNT && (#[trigger] spec_table_at(data, i)).byte_count > 0
            ==> spec_table_at(data, i).offset >= HEADER_SIZE
    &&& forall|i: int, j: int|
        0 <= i < TABLE_COUNT && 0 <= j < TABLE_COUNT && i != j && (#[trigger] spec_table_at(
            data,
            i,
        )).byte_count > 0 && (#[trigger] spec_table_at(data, j)).byte_count > 0
            ==> tables_disjoint(spec_table_at(data, i), spec_table_at(data, j))
}

/// A well-formed version 31 header.
pub open spec fn v31_header_valid(data: Seq<u8>) -> bool {
    &&& data.len() >= HEADER_SIZE
    &&& v31_tables_fit(data)
    &&& v31_tables_ordered(data)
}

/// The table descriptors of a version 31 header, in slot order.
pub open spec fn spec_tables(data: Seq<u8>) -> Seq<MetadataTable> {
    Seq::new(TABLE_COUNT as nat, |i: int| spec_table_at(data, i))
}

/// Table `u` comes before table `k` when the tables are ordered by offset, slot order
/// breaking ties.
pub open spec fn slot_before(data: Seq<u8>, u: int, k: int) -> bool {
    let a = spec_table_at(data, u);
    let b = spec_table_at(data, k);
    a.offset < b.offset || (a.offset == b.offset && u < k)
}

/// Table `k` is non-empty and either starts inside the header or starts before the end of
/// a non-empty table that comes before it.
pub open spec fn offending(data: Seq<u8>, k: int) -> bool {
    let t = spec_table_at(data, k);
    &&& 0 <= k < TABLE_COUNT
    &&& t.byte_count > 0
    &&& (t.offset < HEADER_SIZE || exists|u: int|
        0 <= u < TABLE_COUNT && u != k && (#[trigger] spec_table_at(data, u)).byte_count > 0
            && slot_before(data, u, k) && spec_table_at(data, u).spec_end() > t.offset)
}

/// Table `k` is the offending table that comes first in offset order.
pub open spec fn first_offending(data: Seq<u8>, k: int) -> bool {
    &&& offending(data, k)
    &&& forall|j: int| #[trigger] offending(data, j) && j != k ==> slot_before(data, k, j)
}

/// The tables are ordered exactly when none offends.
proof fn lemma_ordered_iff_none_offends(data: Seq<u8>)
    ensures
        v31_tables_ordered(data) <==> forall|k: int| !#[trigger] offending(data, k),
{
    if v31_tables_ordered(data) {
        assert forall|k: int| !#[trigger] offending(data, k) by {
            if offending(data, k) {
                let t = spec_table_at(data, k);
                assert(t.offset >= HEADER_SIZE);
                let u = choose|u: int|
                    0 <= u < TABLE_COUNT && u != k && (#[trigger] spec_table_at(data, u)).byte_count
                        > 0 && slot_before(data, u, k) && spec_table_at(data, u).spec_end() > t.offset;
                assert(tables_disjoint(spec_table_at(data, u), t));
            }
        }
    }
    if forall|k: int| !#[trigger] offending(data, k) {
        assert forall|i: int|
            0 <= i < TABLE_COUNT && (#[trigger] spec_table_at(data, i)).byte_count > 0 implies spec_table_at(
            data,
            i,
        ).offset >= HEADER_SIZE by {
            assert(!offending(data, i));
        }
        assert forall|i: int, j: int|
            0 <= i < TABLE_COUNT && 0 <= j < TABLE_COUNT && i != j && (#[trigger] spec_table_at(
                data,
                i,
            )).byte_count > 0 && (#[trigger] spec_table_at(data, j)).byte_count > 0 implies tables_disjoint(
            spec_table_at(data, i),
            spec_table_at(data, j),
        ) by {
            assert(!offending(data, i));
            assert(!offending(data, j));
        }
    }
}

/// Whether table `k` offends, given the descriptors in slot order.
fn is_offending(tables: &Vec<MetadataTable>, k: usize, Ghost(data): Ghost<Seq<u8>>) -> (r: bool)
    requires
        tables@ == spec_tables(data),
        v31_tables_fit(data),
        data.len() <= usize::MAX,
        k < TABLE_COUNT,
    ensures
        r == offending(data, k as int),
{
    let t = tables[k];
    assert(t == spec_table_at(data, k as int));
    if t.byte_count == 0 {
        return false;
    }
    if t.offset < HEADER_SIZE {
        return true;
    }
    let mut u: usize = 0;
    while u < TABLE_COUNT
        invariant
            tables@ == spec_tables(data),
            v31_tables_fit(data),
            data.len() <= usize::MAX,
            k < TABLE_COUNT,
            t == spec_table_at(data, k as int),
            t.byte_count > 0,
            t.offset >= HEADER_SIZE,
            u <= TABLE_COUNT,
            forall|v: int|
                0 <= v < u ==> !(v != k && (#[trigger] spec_table_at(data, v)).byte_count > 0
                    && slot_before(data, v, k as int) && spec_table_at(data, v).spec_end()
                    > t.offset),
        decreases TABLE_COUNT - u,
    {
        let a = tables[u];
        assert(a == spec_table_at(data, u as int));
        assert(a.fits(data.len() as int));
        if u != k && a.byte_count > 0 && (a.offset < t.offset || (a.offset == t.offset && u < k))
            && a.offset + a.byte_count > t.offset {
            return true;
        }
        u = u + 1;
    }
    false
}

/// Reads the table descriptors of a version 31 header, in slot order, without checking
/// where the tables lie.
pub fn read_tables(reader: &MetadataReader) -> (r: Vec<MetadataTable>)
    requires
        reader@.len() >= HEADER_SIZE,
    ensures
        r@ == spec_tables(reader@),
{
    let mut tables: Vec<MetadataTable> = Vec::new();
    let mut i: usize = 0;
    while i < TABLE_COUNT
        invariant
            reader@.len() >= HEADER_SIZE,
            i <= TABLE_COUNT,
            tables@.len() == i,
            forall|k: int| 0 <= k < i ==> #[trigger] tables@[k] == spec_table_at(reader@, k),
        decreases TABLE_COUNT - i,
    {
        let offset = match reader.read_u32(8 + 8 * i) {
            Ok(v) => v,
            Err(_) => 0,
        };
        let byte_count = match reader.read_u32(12 + 8 * i) {
            Ok(v) => v,
            Err(_) => 0,
        };
        tables.push(MetadataTable::from_raw(offset, byte_count));
        i = i + 1;
    }
    assert(tables@ =~= spec_tables(reader@));
    tables
}

/// Parses and validates the table descriptors of a version 31 header.
///
/// Sorting the non-empty tables by offset and asking each to start at or after the end of
/// the previous one (and after the header) is the same as asking them to be pairwise
/// disjoint and to start after the header; the check below uses the pairwise form.
pub fn parse_header(reader: &MetadataReader, sanity: u32, version: u32) -> (r: Result<
    MetadataHeader,
>)
    ensures
        r is Ok <==> v31_header_valid(reader@),
        r matches Ok(h) ==> h.sanity == sanity && h.version == version && h.has_tables(
            spec_tables(reader@),
        ),
        reader@.len() < HEADER_SIZE ==> r == Err::<MetadataHeader, Error>(
            Error::MetadataOutOfBounds { offset: 0, length: HEADER_SIZE },
        ),
        reader@.len() >= HEADER_SIZE && !v31_tables_fit(reader@) ==> exists|k: int|
            #[trigger] first_unfit(reader@, k) && r == Err::<MetadataHeader, Error>(
                Error::MetadataOutOfBounds {
                    offset: spec_table_at(reader@, k).offset,
                    length: spec_table_at(reader@, k).byte_count,
                },
            ),
        reader@.len() >= HEADER_SIZE && v31_tables_fit(reader@) && !v31_tables_ordered(reader@)
            ==> exists|k: int| #[trigger] first_offending(reader@, k) && (r matches Err(
                Error::InvalidMetadataTable(name),
            ) && name@ == spec_table_name(k as usize)),
{
    let file_size = reader.len();
    if file_size < HEADER_SIZE {
        return Err(Error::MetadataOutOfBounds { offset: 0, length: HEADER_SIZE });
    }
    let tables = read_tables(reader);
    let mut i: usize = 0;
    while i < TABLE_COUNT
        invariant
            file_size == reader@.len(),
            file_size >= HEADER_SIZE,
            tables@ == spec_tables(reader@),
            i <= TABLE_COUNT,
            forall|k: int| 0 <= k < i ==> (#[trigger] spec_table_at(reader@, k)).fits(file_size as int),
        decreases TABLE_COUNT - i,
    {
        let table = tables[i];
        assert(table == spec_table_at(reader@, i as int));
        match table.validate(file_size) {
            Ok(_) => {},
            Err(e) => {
                assert(first_unfit(reader@, i as int));
                return Err(e);
            },
        }
        i = i + 1;
    }
    let ghost d = reader@;
    let mut best: Option<usize> = None;
    let mut k: usize = 0;
    while k < TABLE_COUNT
        invariant
            file_size == d.len(),
            d == reader@,
            v31_tables_fit(d),
            tables@ == spec_tables(d),
            k <= TABLE_COUNT,
            best matches Some(b) ==> b < k && offending(d, b as int) && forall|j: int|
                0 <= j < k && #[trigger] offending(d, j) && j != b ==> slot_before(d, b as int, j),
            best is None ==> forall|j: int| 0 <= j < k ==> !#[trigger] offending(d, j),
        decreases TABLE_COUNT - k,
    {
        if is_offending(&tables, k, Ghost(d)) {
            match best {
                None => {
                    best = Some(k);
                },
                Some(b) => {
                    let a = tables[k];
                    let c = tables[b];
                    assert(a == spec_table_at(d, k as int));
                    assert(c == spec_table_at(d, b as int));
                    if a.offset < c.offset {
                        best = Some(k);
                    }
                },
            }
        }
        k = k + 1;
    }
    proof {
        lemma_ordered_iff_none_offends(d);
    }
    if let Some(b) = best {
        let name = table_name(b);
        proof {
            assert forall|j: int| #[trigger] offending(d, j) && j != b implies slot_before(d, b as int, j) by {
                assert(0 <= j < TABLE_COUNT);
            }
            assert(first_offending(d, b as int));
        }
        return Err(Error::InvalidMetadataTable(name));
    }
    Ok(MetadataHeader::from_tables(sanity, version, &tables))
}

/// A header whose prefix words and slots match `data` is the header `data` describes.
pub proof fn lemma_header_is_v31(h: MetadataHeader, data: Seq<u8>)
    requires
        h.sanity == spec_u32(data, 0) as u32,
        h.version == spec_u32(data, 4) as u32,
        h.has_tables(spec_tables(data)),
    ensures
        h == spec_v31_header(data),
{
    assert(h.table(0) == spec_table_at(data, 0));
    assert(h.table(1) == spec_table_at(data, 1));
    assert(h.table(2) == spec_table_at(data, 2));
    assert(h.table(3) == spec_table_at(data, 3));
    assert(h.table(4) == spec_table_at(data, 4));
    assert(h.table(5) == spec_table_at(data, 5));
    assert(h.table(6) == spec_table_at(data, 6));
    assert(h.table(7) == spec_table_at(data, 7));
    assert(h.table(8) == spec_table_at(data, 8));
    assert(h.table(9) == spec_table_at(data, 9));
    assert(h.table(10) == spec_table_at(data, 10));
    assert(h.table(11) == spec_table_at(data, 11));
    assert(h.table(12) == spec_table_at(data, 12));
    assert(h.table(13) == spec_table_at(data, 13));
    assert(h.table(14) == spec_table_at(data, 14));
    assert(h.table(15) == spec_table_at(data, 15));
    assert(h.table(16) == spec_table_at(data, 16));
    assert(h.table(17) == spec_table_at(data, 17));
    assert(h.table(18) == spec_table_at(data, 18));
    assert(h.table(19) == spec_table_at(data, 19));
    assert(h.table(20) == spec_table_at(data, 20));
    assert(h.table(21) == spec_table_at(data, 21));
    assert(h.table(22) == spec_table_at(data, 22));
    assert(h.table(23) == spec_table_at(data, 23));
    assert(h.table(24) == spec_table_at(data, 24));
    assert(h.table(25) == spec_table_at(data, 25));
    assert(h.table(26) == spec_table_at(data, 26));
    assert(h.table(27) == spec_table_at(data, 27));
    assert(h.table(28) == spec_table_at(data, 28));
    assert(h.table(29) == spec_table_at(data, 29));
    assert(h.table(30) == spec_table_at(data, 30));
}

/// Offsets of the `size`-byte records of `table`.
pub fn offsets(table: MetadataTable, size: usize, file_size: usize) -> (r: Result<Vec<usize>>)
    requires
        size > 0,
        table.fits(file_size as int),
    ensures
        table.byte_count % size != 0 ==> r == Err::<Vec<usize>, Error>(Error::InvalidMetadata),
        table.byte_count % size == 0 ==> r is Ok && r->Ok_0@.len() == table.byte_count / size
            && forall|k: int|
            0 <= k < r->Ok_0@.len() ==> #[trigger] r->Ok_0@[k] == table.offset + k * size
                && r->Ok_0@[k] + size <= file_size,
{
    let count = table.entry_count(size, file_size)?;
    let mut result: Vec<usize> = Vec::new();
    let mut current: usize = table.offset;
    let mut i: usize = 0;
    proof {
        lemma_div_mul(table.byte_count as int, size as int);
    }
    while i < count
        invariant
            count == table.byte_count / size,
            count * size == table.byte_count,
            size > 0,
            table.fits(file_size as int),
            i <= count,
            current == table.offset + i * size,
            result@.len() == i,
            forall|k: int|
                0 <= k < i ==> #[trigger] result@[k] == table.offset + k * size && result@[k] + size
                    <= file_size,
        decreases count - i,
    {
        proof {
            lemma_step_le(i as int, count as int, size as int);
        }
        result.push(current);
        current = current + size;
        i = i + 1;
        assert(current == table.offset + i * size) by (nonlinear_arith)
            requires
                current == table.offset + (i - 1) * size + size,
        ;
    }
    Ok(result)
}

proof fn lemma_div_mul(n: int, d: int)
    requires
        n >= 0,
        d > 0,
    ensures
        n % d == 0 ==> (n / d) * d == n,
{
    assert(n % d == 0 ==> (n / d) * d == n) by (nonlinear_arith)
        requires
            n >= 0,
            d > 0,
    ;
}

proof fn lemma_step_le(i: int, count: int, size: int)
    requires
        0 <= i < count,
        size > 0,
    ensures
        i * size + size <= count * size,
{
    assert(i * size + size <= count * size) by (nonlinear_arith)
        requires
            0 <= i < count,
            size > 0,
    ;
}

#[derive(Debug, Clone, Copy, PartialEq, Eq)]
pub struct RawImage {
    pub name_index: u32,
    pub assembly_index: i32,
    pub type_start: i32,
    pub type_count: u32,
}

/// The `RawImage` record stored at byte `offset`.
pub open spec fn spec_record_image(data: Seq<u8>, offset: int) -> RawImage {
    RawImage {
        name_index: spec_u32(data, offset + 0) as u32,
        assembly_index: spec_i32(data, offset + 4) as i32,
        type_start: spec_i32(data, offset + 8) as i32,
        type_count: spec_u32(data, offset + 12) as u32,
    }
}

/// Records of the `images` table, in table order.
pub open spec fn spec_images(data: Seq<u8>, table: MetadataTable) -> Seq<RawImage> {
    Seq::new(
        (table.byte_count / IMAGE_SIZE) as nat,
        |i: int| spec_record_image(data, table.offset + i * IMAGE_SIZE),
    )
}

/// Reads every record of the `images` table.
pub fn parse_images(reader: &MetadataReader, header: &MetadataHeader) -> (r: Result<Vec<RawImage>>)
    requires
        header.images.fits(reader@.len() as int),
    ensures
        header.images.byte_count % IMAGE_SIZE == 0 ==> r is Ok && r->Ok_0@ == spec_images(
            reader@,
            header.images,
        ),
        header.images.byte_count % IMAGE_SIZE != 0 ==> r == Err::<Vec<RawImage>, Error>(
            Error::InvalidMetadata,
        ),
{
    let file_size = reader.len();
    let offsets = offsets(header.images, IMAGE_SIZE, file_size)?;
    let mut records: Vec<RawImage> = Vec::new();
    let mut i: usize = 0;
    while i < offsets.len()
        invariant
            file_size == reader@.len(),
            i <= offsets@.len(),
            offsets@.len() == header.images.byte_count / IMAGE_SIZE,
            forall|k: int|
                0 <= k < offsets@.len() ==> #[trigger] offsets@[k] == header.images.offset + k
                    * IMAGE_SIZE && offsets@[k] + IMAGE_SIZE <= reader@.len(),
            records@.len() == i,
            forall|k: int|
                0 <= k < i ==> #[trigger] records@[k] == spec_record_image(
                    reader@,
                    header.images.offset + k * IMAGE_SIZE,
                ),
        decreases offsets@.len() - i,
    {
        let offset = offsets[i];
        assert(offset + IMAGE_SIZE <= reader@.len());
        let record = RawImage {
            name_index: reader.read_u32(offset + 0)?,
            assembly_index: reader.read_i32(offset + 4)?,
            type_start: reader.read_i32(offset + 8)?,
            type_count: reader.read_u32(offset + 12)?,
        };
        records.push(record);
        i = i + 1;
    }
    assert(records@ =~= spec_images(reader@, header.images));
    Ok(records)
}

#[derive(Debug, Clone, Copy, PartialEq, Eq)]
pub struct RawAssembly {
    pub image_index: i32,
    pub name_index: u32,
}

/// The `RawAssembly` record stored at byte `offset`.
pub open spec fn spec_record_assembly(data: Seq<u8>, offset: int) -> RawAssembly {
    RawAssembly {
        image_index: spec_i32(data, offset + 0) as i32,
        name_index: spec_u32(data, offset + 16) as u32,
    }
}

/// Records of the `assemblies` table, in table order.
pub open spec fn spec_assemblies(data: Seq<u8>, table: MetadataTable) -> Seq<RawAssembly> {
    Seq::new(
        (table.byte_count / ASSEMBLY_SIZE) as nat,
        |i: int| spec_record_assembly(data, table.offset + i * ASSEMBLY_SIZE),
    )
}

/// Reads every record of the `assemblies` table.
pub fn parse_assemblies(reader: &MetadataReader, header: &MetadataHeader) -> (r: Result<Vec<RawAssembly>>)
    requires
        header.assemblies.fits(reader@.len() as int),
    ensures
        header.assemblies.byte_count % ASSEMBLY_SIZE == 0 ==> r is Ok && r->Ok_0@ == spec_assemblies(
            reader@,
            header.assemblies,
        ),
        header.assemblies.byte_count % ASSEMBLY_SIZE != 0 ==> r == Err::<Vec<RawAssembly>, Error>(
            Error::InvalidMetadata,
        ),
{
    let file_size = reader.len();
    let offsets = offsets(header.assemblies, ASSEMBLY_SIZE, file_size)?;
    let mut records: Vec<RawAssembly> = Vec::new();
    let mut i: usize = 0;
    while i < offsets.len()
        invariant
            file_size == reader@.len(),
            i <= offsets@.len(),
            offsets@.len() == header.assemblies.byte_count / ASSEMBLY_SIZE,
            forall|k: int|
                0 <= k < offsets@.len() ==> #[trigger] offsets@[k] == header.assemblies.offset + k
                    * ASSEMBLY_SIZE && offsets@[k] + ASSEMBLY_SIZE <= reader@.len(),
            records@.len() == i,
            forall|k: int|
                0 <= k < i ==> #[trigger] records@[k] == spec_record_assembly(
                    reader@,
                    header.assemblies.offset + k * ASSEMBLY_SIZE,
                ),
        decreases offsets@.len() - i,
    {
        let offset = offsets[i];
        assert(offset + ASSEMBLY_SIZE <= reader@.len());
        let record = RawAssembly {
            image_index: reader.read_i32(offset + 0)?,
            name_index: reader.read_u32(offset + 16)?,
        };
        records.push(record);
        i = i + 1;
    }
    assert(records@ =~= spec_assemblies(reader@, header.assemblies));
    Ok(records)
}

#[derive(Debug, Clone, Copy, PartialEq, Eq)]
pub struct RawTypeDefinition {
    pub name_index: u32,
    pub namespace_index: u32,
    pub byval_type_index: i32,
    pub declaring_type_index: i32,
    pub parent_index: i32,
    pub element_type_index: i32,
    pub generic_container_index: i32,
    pub flags: u32,
    pub field_start: i32,
    pub method_start: i32,
    pub property_start: i32,
    pub nested_types_start: i32,
    pub interfaces_start: i32,
    pub method_count: u16,
    pub property_count: u16,
    pub field_count: u16,
    pub nested_types_count: u16,
    pub interfaces_count: u16,
    pub bitfield: u32,
    pub token: u32,
}

/// The `RawTypeDefinition` record stored at byte `offset`.
pub open spec fn spec_record_typedefinition(data: Seq<u8>, offset: int) -> RawTypeDefinition {
    RawTypeDefinition {
        name_index: spec_u32(data, offset + 0) as u32,
        namespace_index: spec_u32(data, offset + 4) as u32,
        byval_type_index: spec_i32(data, offset + 8) as i32,
        declaring_type_index: spec_i32(data, offset + 12) as i32,
        parent_index: spec_i32(data, offset + 16) as i32,
        element_type_index: spec_i32(data, offset + 20) as i32,
        generic_container_index: spec_i32(data, offset + 24) as i32,
        flags: spec_u32(data, offset + 28) as u32,
        field_start: spec_i32(data, offset + 32) as i32,
        method_start: spec_i32(data, offset + 36) as i32,
        property_start: spec_i32(data, offset + 44) as i32,
        nested_types_start: spec_i32(data, offset + 48) as i32,
        interfaces_start: spec_i32(data, offset + 52) as i32,
        method_count: spec_u16(data, offset + 64) as u16,
        property_count: spec_u16(data, offset + 66) as u16,
        field_count: spec_u16(data, offset + 68) as u16,
        nested_types_count: spec_u16(data, offset + 72) as u16,
        interfaces_count: spec_u16(data, offset + 76) as u16,
        bitfield: spec_u32(data, offset + 80) as u32,
        token: spec_u32(data, offset + 84) as u32,
    }
}

/// Records of the `types` table, in table order.
pub open spec fn spec_types(data: Seq<u8>, table: MetadataTable) -> Seq<RawTypeDefinition> {
    Seq::new(
        (table.byte_count / TYPE_DEFINITION_SIZE) as nat,
        |i: int| spec_record_typedefinition(data, table.offset + i * TYPE_DEFINITION_SIZE),
    )
}

/// Reads every record of the `types` table.
pub fn parse_types(reader: &MetadataReader, header: &MetadataHeader) -> (r: Result<Vec<RawTypeDefinition>>)
    requires
        header.type_definitions.fits(reader@.len() as int),
    ensures
        header.type_definitions.byte_count % TYPE_DEFINITION_SIZE == 0 ==> r is Ok && r->Ok_0@ == spec_types(
            reader@,
            header.type_definitions,
        ),
        header.type_definitions.byte_count % TYPE_DEFINITION_SIZE != 0 ==> r == Err::<Vec<RawTypeDefinition>, Error>(
            Error::InvalidMetadata,
        ),
{
    let file_size = reader.len();
    let offsets = offsets(header.type_definitions, TYPE_DEFINITION_SIZE, file_size)?;
    let mut records: Vec<RawTypeDefinition> = Vec::new();
    let mut i: usize = 0;
    while i < offsets.len()
        invariant
            file_size == reader@.len(),
            i <= offsets@.len(),
            offsets@.len() == header.type_definitions.byte_count / TYPE_DEFINITION_SIZE,
            forall|k: int|
                0 <= k < offsets@.len() ==> #[trigger] offsets@[k] == header.type_definitions.offset + k
                    * TYPE_DEFINITION_SIZE && offsets@[k] + TYPE_DEFINITION_SIZE <= reader@.len(),
            records@.len() == i,
            forall|k: int|
                0 <= k < i ==> #[trigger] records@[k] == spec_record_typedefinition(
                    reader@,
                    header.type_definitions.offset + k * TYPE_DEFINITION_SIZE,
                ),
        decreases offsets@.len() - i,
    {
        let offset = offsets[i];
        assert(offset + TYPE_DEFINITION_SIZE <= reader@.len());
        let record = RawTypeDefinition {
            name_index: reader.read_u32(offset + 0)?,
            namespace_index: reader.read_u32(offset + 4)?,
            byval_type_index: reader.read_i32(offset + 8)?,
            declaring_type_index: reader.read_i32(offset + 12)?,
            parent_index: reader.read_i32(offset + 16)?,
            element_type_index: reader.read_i32(offset + 20)?,
            generic_container_index: reader.read_i32(offset + 24)?,
            flags: reader.read_u32(offset + 28)?,
            field_start: reader.read_i32(offset + 32)?,
            method_start: reader.read_i32(offset + 36)?,
            property_start: reader.read_i32(offset + 44)?,
            nested_types_start: reader.read_i32(offset + 48)?,
            interfaces_start: reader.read_i32(offset + 52)?,
            method_count: reader.read_u16(offset + 64)?,
            property_count: reader.read_u16(offset + 66)?,
            field_count: reader.read_u16(offset + 68)?,
            nested_types_count: reader.read_u16(offset + 72)?,
            interfaces_count: reader.read_u16(offset + 76)?,
            bitfield: reader.read_u32(offset + 80)?,
            token: reader.read_u32(offset + 84)?,
        };
        records.push(record);
        i = i + 1;
    }
    assert(records@ =~= spec_types(reader@, header.type_definitions));
    Ok(records)
}

#[derive(Debug, Clone, Copy, PartialEq, Eq)]
pub struct RawField {
    pub name_index: u32,
    pub type_index: i32,
    pub token: u32,
}

/// The `RawField` record stored at byte `offset`.
pub open spec fn spec_record_field(data: Seq<u8>, offset: int) -> RawField {
    RawField {
        name_index: spec_u32(data, offset + 0) as u32,
        type_index: spec_i32(data, offset + 4) as i32,
        token: spec_u32(data, offset + 8) as u32,
    }
}

/// Records of the `fields` table, in table order.
pub open spec fn spec_fields(data: Seq<u8>, table: MetadataTable) -> Seq<RawField> {
    Seq::new(
        (table.byte_count / FIELD_SIZE) as nat,
        |i: int| spec_record_field(data, table.offset + i * FIELD_SIZE),
    )
}

/// Reads every record of the `fields` table.
pub fn parse_fields(reader: &MetadataReader, header: &MetadataHeader) -> (r: Result<Vec<RawField>>)
    requires
        header.fields.fits(reader@.len() as int),
    ensures
        header.fields.byte_count % FIELD_SIZE == 0 ==> r is Ok && r->Ok_0@ == spec_fields(
            reader@,
            header.fields,
        ),
        header.fields.byte_count % FIELD_SIZE != 0 ==> r == Err::<Vec<RawField>, Error>(
            Error::InvalidMetadata,
        ),
{
    let file_size = reader.len();
    let offsets = offsets(header.fields, FIELD_SIZE, file_size)?;
    let mut records: Vec<RawField> = Vec::new();
    let mut i: usize = 0;
    while i < offsets.len()
        invariant
            file_size == reader@.len(),
            i <= offsets@.len(),
            offsets@.len() == header.fields.byte_count / FIELD_SIZE,
            forall|k: int|
                0 <= k < offsets@.len() ==> #[trigger] offsets@[k] == header.fields.offset + k
                    * FIELD_SIZE && offsets@[k] + FIELD_SIZE <= reader@.len(),
            records@.len() == i,
            forall|k: int|
                0 <= k < i ==> #[trigger] records@[k] == spec_record_field(
                    reader@,
                    header.fields.offset + k * FIELD_SIZE,
                ),
        decreases offsets@.len() - i,
    {
        let offset = offsets[i];
        assert(offset + FIELD_SIZE <= reader@.len());
        let record = RawField {
            name_index: reader.read_u32(offset + 0)?,
            type_index: reader.read_i32(offset + 4)?,
            token: reader.read_u32(offset + 8)?,
        };
        records.push(record);
        i = i + 1;
    }
    assert(records@ =~= spec_fields(reader@, header.fields));
    Ok(records)
}

#[derive(Debug, Clone, Copy, PartialEq, Eq)]
pub struct RawMethod {
    pub name_index: u32,
    pub declaring_type: i32,
    pub return_type: i32,
    pub return_parameter_token: u32,
    pub parameter_start: i32,
    pub generic_container_index: i32,
    pub token: u32,
    pub flags: u16,
    pub iflags: u16,
    pub slot: u16,
    pub parameter_count: u16,
}

/// The `RawMethod` record stored at byte `offset`.
pub open spec fn spec_record_method(data: Seq<u8>, offset: int) -> RawMethod {
    RawMethod {
        name_index: spec_u32(data, offset + 0) as u32,
        declaring_type: spec_i32(data, offset + 4) as i32,
        return_type: spec_i32(data, offset + 8) as i32,
        return_parameter_token: spec_u32(data, offset + 12) as u32,
        parameter_start: spec_i32(data, offset + 16) as i32,
        generic_container_index: spec_i32(data, offset + 20) as i32,
        token: spec_u32(data, offset + 24) as u32,
        flags: spec_u16(data, offset + 28) as u16,
        iflags: spec_u16(data, offset + 30) as u16,
        slot: spec_u16(data, offset + 32) as u16,
        parameter_count: spec_u16(data, offset + 34) as u16,
    }
}

/// Records of the `methods` table, in table order.
pub open spec fn spec_methods(data: Seq<u8>, table: MetadataTable) -> Seq<RawMethod> {
    Seq::new(
        (table.byte_count / METHOD_SIZE) as nat,
        |i: int| spec_record_method(data, table.offset + i * METHOD_SIZE),
    )
}

/// Reads every record of the `methods` table.
pub fn parse_methods(reader: &MetadataReader, header: &MetadataHeader) -> (r: Result<Vec<RawMethod>>)
    requires
        header.methods.fits(reader@.len() as int),
    ensures
        header.methods.byte_count % METHOD_SIZE == 0 ==> r is Ok && r->Ok_0@ == spec_methods(
            reader@,
            header.methods,
        ),
        header.methods.byte_count % METHOD_SIZE != 0 ==> r == Err::<Vec<RawMethod>, Error>(
            Error::InvalidMetadata,
        ),
{
    let file_size = reader.len();
    let offsets = offsets(header.methods, METHOD_SIZE, file_size)?;
    let mut records: Vec<RawMethod> = Vec::new();
    let mut i: usize = 0;
    while i < offsets.len()
        invariant
            file_size == reader@.len(),
            i <= offsets@.len(),
            offsets@.len() == header.methods.byte_count / METHOD_SIZE,
            forall|k: int|
                0 <= k < offsets@.len() ==> #[trigger] offsets@[k] == header.methods.offset + k
                    * METHOD_SIZE && offsets@[k] + METHOD_SIZE <= reader@.len(),
            records@.len() == i,
            forall|k: int|
                0 <= k < i ==> #[trigger] records@[k] == spec_record_method(
                    reader@,
                    header.methods.offset + k * METHOD_SIZE,
                ),
        decreases offsets@.len() - i,
    {
        let offset = offsets[i];
        assert(offset + METHOD_SIZE <= reader@.len());
        let record = RawMethod {
            name_index: reader.read_u32(offset + 0)?,
            declaring_type: reader.read_i32(offset + 4)?,
            return_type: reader.read_i32(offset + 8)?,
            return_parameter_token: reader.read_u32(offset + 12)?,
            parameter_start: reader.read_i32(offset + 16)?,
            generic_container_index: reader.read_i32(offset + 20)?,
            token: reader.read_u32(offset + 24)?,
            flags: reader.read_u16(offset + 28)?,
            iflags: reader.read_u16(offset + 30)?,
            slot: reader.read_u16(offset + 32)?,
            parameter_count: reader.read_u16(offset + 34)?,
        };
        records.push(record);
        i = i + 1;
    }
    assert(records@ =~= spec_methods(reader@, header.methods));
    Ok(records)
}

#[derive(Debug, Clone, Copy, PartialEq, Eq)]
pub struct RawParameter {
    pub name_index: u32,
    pub token: u32,
    pub type_index: i32,
}

/// The `RawParameter` record stored at byte `offset`.
pub open spec fn spec_record_parameter(data: Seq<u8>, offset: int) -> RawParameter {
    RawParameter {
        name_index: spec_u32(data, offset + 0) as u32,
        token: spec_u32(data, offset + 4) as u32,
        type_index: spec_i32(data, offset + 8) as i32,
    }
}

/// Records of the `parameters` table, in table order.
pub open spec fn spec_parameters(data: Seq<u8>, table: MetadataTable) -> Seq<RawParameter> {
    Seq::new(
        (table.byte_count / PARAMETER_SIZE) as nat,
        |i: int| spec_record_parameter(data, table.offset + i * PARAMETER_SIZE),
    )
}

/// Reads every record of the `parameters` table.
pub fn parse_parameters(reader: &MetadataReader, header: &MetadataHeader) -> (r: Result<Vec<RawParameter>>)
    requires
        header.parameters.fits(reader@.len() as int),
    ensures
        header.parameters.byte_count % PARAMETER_SIZE == 0 ==> r is Ok && r->Ok_0@ == spec_parameters(
            reader@,
            header.parameters,
        ),
        header.parameters.byte_count % PARAMETER_SIZE != 0 ==> r == Err::<Vec<RawParameter>, Error>(
            Error::InvalidMetadata,
        ),
{
    let file_size = reader.len();
    let offsets = offsets(header.parameters, PARAMETER_SIZE, file_size)?;
    let mut records: Vec<RawParameter> = Vec::new();
    let mut i: usize = 0;
    while i < offsets.len()
        invariant
            file_size == reader@.len(),
            i <= offsets@.len(),
            offsets@.len() == header.parameters.byte_count / PARAMETER_SIZE,
            forall|k: int|
                0 <= k < offsets@.len() ==> #[trigger] offsets@[k] == header.parameters.offset + k
                    * PARAMETER_SIZE && offsets@[k] + PARAMETER_SIZE <= reader@.len(),
            records@.len() == i,
            forall|k: int|
                0 <= k < i ==> #[trigger] records@[k] == spec_record_parameter(
                    reader@,
                    header.parameters.offset + k * PARAMETER_SIZE,
                ),
        decreases offsets@.len() - i,
    {
        let offset = offsets[i];
        assert(offset + PARAMETER_SIZE <= reader@.len());
        let record = RawParameter {
            name_index: reader.read_u32(offset + 0)?,
            token: reader.read_u32(offset + 4)?,
            type_index: reader.read_i32(offset + 8)?,
        };
        records.push(record);
        i = i + 1;
    }
    assert(records@ =~= spec_parameters(reader@, header.parameters));
    Ok(records)
}

#[derive(Debug, Clone, Copy, PartialEq, Eq)]
pub struct RawProperty {
    pub name_index: u32,
    pub get: i32,
    pub set: i32,
    pub attrs: u32,
    pub token: u32,
}

/// The `RawProperty` record stored at byte `offset`.
pub open spec fn spec_record_property(data: Seq<u8>, offset: int) -> RawProperty {
    RawProperty {
        name_index: spec_u32(data, offset + 0) as u32,
        get: spec_i32(data, offset + 4) as i32,
        set: spec_i32(data, offset + 8) as i32,
        attrs: spec_u32(data, offset + 12) as u32,
        token: spec_u32(data, offset + 16) as u32,
    }
}

/// Records of the `properties` table, in table order.
pub open spec fn spec_properties(data: Seq<u8>, table: MetadataTable) -> Seq<RawProperty> {
    Seq::new(
        (table.byte_count / PROPERTY_SIZE) as nat,
        |i: int| spec_record_property(data, table.offset + i * PROPERTY_SIZE),
    )
}

/// Reads every record of the `properties` table.
pub fn parse_properties(reader: &MetadataReader, header: &MetadataHeader) -> (r: Result<Vec<RawProperty>>)
    requires
        header.properties.fits(reader@.len() as int),
    ensures
        header.properties.byte_count % PROPERTY_SIZE == 0 ==> r is Ok && r->Ok_0@ == spec_properties(
            reader@,
            header.properties,
        ),
        header.properties.byte_count % PROPERTY_SIZE != 0 ==> r == Err::<Vec<RawProperty>, Error>(
            Error::InvalidMetadata,
        ),
{
    let file_size = reader.len();
    let offsets = offsets(header.properties, PROPERTY_SIZE, file_size)?;
    let mut records: Vec<RawProperty> = Vec::new();
    let mut i: usize = 0;
    while i < offsets.len()
        invariant
            file_size == reader@.len(),
            i <= offsets@.len(),
            offsets@.len() == header.properties.byte_count / PROPERTY_SIZE,
            forall|k: int|
                0 <= k < offsets@.len() ==> #[trigger] offsets@[k] == header.properties.offset + k
                    * PROPERTY_SIZE && offsets@[k] + PROPERTY_SIZE <= reader@.len(),
            records@.len() == i,
            forall|k: int|
                0 <= k < i ==> #[trigger] records@[k] == spec_record_property(
                    reader@,
                    header.properties.offset + k * PROPERTY_SIZE,
                ),
        decreases offsets@.len() - i,
    {
        let offset = offsets[i];
        assert(offset + PROPERTY_SIZE <= reader@.len());
        let record = RawProperty {
            name_index: reader.read_u32(offset + 0)?,
            get: reader.read_i32(offset + 4)?,
            set: reader.read_i32(offset + 8)?,
            attrs: reader.read_u32(offset + 12)?,
            token: reader.read_u32(offset + 16)?,
        };
        records.push(record);
        i = i + 1;
    }
    assert(records@ =~= spec_properties(reader@, header.properties));
    Ok(records)
}

#[derive(Debug, Clone, Copy, PartialEq, Eq)]
pub struct RawGenericContainer {
    pub owner_index: i32,
    pub type_argc: i32,
    pub is_method: i32,
    pub generic_parameter_start: i32,
}

/// The `RawGenericContainer` record stored at byte `offset`.
pub open spec fn spec_record_genericcontainer(data: Seq<u8>, offset: int) -> RawGenericContainer {
    RawGenericContainer {
        owner_index: spec_i32(data, offset + 0) as i32,
        type_argc: spec_i32(data, offset + 4) as i32,
        is_method: spec_i32(data, offset + 8) as i32,
        generic_parameter_start: spec_i32(data, offset + 12) as i32,
    }
}

/// Records of the `generic_containers` table, in table order.
pub open spec fn spec_generic_containers(data: Seq<u8>, table: MetadataTable) -> Seq<RawGenericContainer> {
    Seq::new(
        (table.byte_count / GENERIC_CONTAINER_SIZE) as nat,
        |i: int| spec_record_genericcontainer(data, table.offset + i * GENERIC_CONTAINER_SIZE),
    )
}

/// Reads every record of the `generic_containers` table.
pub fn parse_generic_containers(reader: &MetadataReader, header: &MetadataHeader) -> (r: Result<Vec<RawGenericContainer>>)
    requires
        header.generic_containers.fits(reader@.len() as int),
    ensures
        header.generic_containers.byte_count % GENERIC_CONTAINER_SIZE == 0 ==> r is Ok && r->Ok_0@ == spec_generic_containers(
            reader@,
            header.generic_containers,
        ),
        header.generic_containers.byte_count % GENERIC_CONTAINER_SIZE != 0 ==> r == Err::<Vec<RawGenericContainer>, Error>(
            Error::InvalidMetadata,
        ),
{
    let file_size = reader.len();
    let offsets = offsets(header.generic_containers, GENERIC_CONTAINER_SIZE, file_size)?;
    let mut records: Vec<RawGenericContainer> = Vec::new();
    let mut i: usize = 0;
    while i < offsets.len()
        invariant
            file_size == reader@.len(),
            i <= offsets@.len(),
            offsets@.len() == header.generic_containers.byte_count / GENERIC_CONTAINER_SIZE,
            forall|k: int|
                0 <= k < offsets@.len() ==> #[trigger] offsets@[k] == header.generic_containers.offset + k
                    * GENERIC_CONTAINER_SIZE && offsets@[k] + GENERIC_CONTAINER_SIZE <= reader@.len(),
            records@.len() == i,
            forall|k: int|
                0 <= k < i ==> #[trigger] records@[k] == spec_record_genericcontainer(
                    reader@,
                    header.generic_containers.offset + k * GENERIC_CONTAINER_SIZE,
                ),
        decreases offsets@.len() - i,
    {
        let offset = offsets[i];
        assert(offset + GENERIC_CONTAINER_SIZE <= reader@.len());
        let record = RawGenericContainer {
            owner_index: reader.read_i32(offset + 0)?,
            type_argc: reader.read_i32(offset + 4)?,
            is_method: reader.read_i32(offset + 8)?,
            generic_parameter_start: reader.read_i32(offset + 12)?,
        };
        records.push(record);
        i = i + 1;
    }
    assert(records@ =~= spec_generic_containers(reader@, header.generic_containers));
    Ok(records)
}

#[derive(Debug, Clone, Copy, PartialEq, Eq)]
pub struct RawGenericParameter {
    pub owner_index: i32,
    pub name_index: u32,
    pub constraints_start: i16,
    pub constraints_count: i16,
    pub num: u16,
    pub flags: u16,
}

/// The `RawGenericParameter` record stored at byte `offset`.
pub open spec fn spec_record_genericparameter(data: Seq<u8>, offset: int) -> RawGenericParameter {
    RawGenericParameter {
        owner_index: spec_i32(data, offset + 0) as i32,
        name_index: spec_u32(data, offset + 4) as u32,
        constraints_start: spec_i16(data, offset + 8) as i16,
        constraints_count: spec_i16(data, offset + 10) as i16,
        num: spec_u16(data, offset + 12) as u16,
        flags: spec_u16(data, offset + 14) as u16,
    }
}

/// Records of the `generic_parameters` table, in table order.
pub open spec fn spec_generic_parameters(data: Seq<u8>, table: MetadataTable) -> Seq<RawGenericParameter> {
    Seq::new(
        (table.byte_count / GENERIC_PARAMETER_SIZE) as nat,
        |i: int| spec_record_genericparameter(data, table.offset + i * GENERIC_PARAMETER_SIZE),
    )
}

/// Reads every record of the `generic_parameters` table.
pub fn parse_generic_parameters(reader: &MetadataReader, header: &MetadataHeader) -> (r: Result<Vec<RawGenericParameter>>)
    requires
        header.generic_parameters.fits(reader@.len() as int),
    ensures
        header.generic_parameters.byte_count % GENERIC_PARAMETER_SIZE == 0 ==> r is Ok && r->Ok_0@ == spec_generic_parameters(
            reader@,
            header.generic_parameters,
        ),
        header.generic_parameters.byte_count % GENERIC_PARAMETER_SIZE != 0 ==> r == Err::<Vec<RawGenericParameter>, Error>(
            Error::InvalidMetadata,
        ),
{
    let file_size = reader.len();
    let offsets = offsets(header.generic_parameters, GENERIC_PARAMETER_SIZE, file_size)?;
    let mut records: Vec<RawGenericParameter> = Vec::new();
    let mut i: usize = 0;
    while i < offsets.len()
        invariant
            file_size == reader@.len(),
            i <= offsets@.len(),
            offsets@.len() == header.generic_parameters.byte_count / GENERIC_PARAMETER_SIZE,
            forall|k: int|
                0 <= k < offsets@.len() ==> #[trigger] offsets@[k] == header.generic_parameters.offset + k
                    * GENERIC_PARAMETER_SIZE && offsets@[k] + GENERIC_PARAMETER_SIZE <= reader@.len(),
            records@.len() == i,
            forall|k: int|
                0 <= k < i ==> #[trigger] records@[k] == spec_record_genericparameter(
                    reader@,
                    header.generic_parameters.offset + k * GENERIC_PARAMETER_SIZE,
                ),
        decreases offsets@.len() - i,
    {
        let offset = offsets[i];
        assert(offset + GENERIC_PARAMETER_SIZE <= reader@.len());
        let record = RawGenericParameter {
            owner_index: reader.read_i32(offset + 0)?,
            name_index: reader.read_u32(offset + 4)?,
            constraints_start: reader.read_i16(offset + 8)?,
            constraints_count: reader.read_i16(offset + 10)?,
            num: reader.read_u16(offset + 12)?,
            flags: reader.read_u16(offset + 14)?,
        };
        records.push(record);
        i = i + 1;
    }
    assert(records@ =~= spec_generic_parameters(reader@, header.generic_parameters));
    Ok(records)
}

#[derive(Debug, Clone, Copy, PartialEq, Eq)]
pub struct RawTypeIndexEntry {
    pub type_index: i32,
}

/// The `RawTypeIndexEntry` record stored at byte `offset`.
pub open spec fn spec_record_typeindexentry(data: Seq<u8>, offset: int) -> RawTypeIndexEntry {
    RawTypeIndexEntry {
        type_index: spec_i32(data, offset + 0) as i32,
    }
}

/// Records of the `interfaces` table, in table order.
pub open spec fn spec_interfaces(data: Seq<u8>, table: MetadataTable) -> Seq<RawTypeIndexEntry> {
    Seq::new(
        (table.byte_count / TYPE_INDEX_SIZE) as nat,
        |i: int| spec_record_typeindexentry(data, table.offset + i * TYPE_INDEX_SIZE),
    )
}

/// Reads every record of the `interfaces` table.
pub fn parse_interfaces(reader: &MetadataReader, header: &MetadataHeader) -> (r: Result<Vec<RawTypeIndexEntry>>)
    requires
        header.interfaces.fits(reader@.len() as int),
    ensures
        header.interfaces.byte_count % TYPE_INDEX_SIZE == 0 ==> r is Ok && r->Ok_0@ == spec_interfaces(
            reader@,
            header.interfaces,
        ),
        header.interfaces.byte_count % TYPE_INDEX_SIZE != 0 ==> r == Err::<Vec<RawTypeIndexEntry>, Error>(
            Error::InvalidMetadata,
        ),
{
    let file_size = reader.len();
    let offsets = offsets(header.interfaces, TYPE_INDEX_SIZE, file_size)?;
    let mut records: Vec<RawTypeIndexEntry> = Vec::new();
    let mut i: usize = 0;
    while i < offsets.len()
        invariant
            file_size == reader@.len(),
            i <= offsets@.len(),
            offsets@.len() == header.interfaces.byte_count / TYPE_INDEX_SIZE,
            forall|k: int|
                0 <= k < offsets@.len() ==> #[trigger] offsets@[k] == header.interfaces.offset + k
                    * TYPE_INDEX_SIZE && offsets@[k] + TYPE_INDEX_SIZE <= reader@.len(),
            records@.len() == i,
            forall|k: int|
                0 <= k < i ==> #[trigger] records@[k] == spec_record_typeindexentry(
                    reader@,
                    header.interfaces.offset + k * TYPE_INDEX_SIZE,
                ),
        decreases offsets@.len() - i,
    {
        let offset = offsets[i];
        assert(offset + TYPE_INDEX_SIZE <= reader@.len());
        let record = RawTypeIndexEntry {
            type_index: reader.read_i32(offset + 0)?,
        };
        records.push(record);
        i = i + 1;
    }
    assert(records@ =~= spec_interfaces(reader@, header.interfaces));
    Ok(records)
}

/// Records of the `generic_parameter_constraints` table, in table order.
pub open spec fn spec_generic_parameter_constraints(data: Seq<u8>, table: MetadataTable) -> Seq<RawTypeIndexEntry> {
    Seq::new(
        (table.byte_count / TYPE_INDEX_SIZE) as nat,
        |i: int| spec_record_typeindexentry(data, table.offset + i * TYPE_INDEX_SIZE),
    )
}

/// Reads every record of the `generic_parameter_constraints` table.
pub fn parse_generic_parameter_constraints(reader: &MetadataReader, header: &MetadataHeader) -> (r: Result<Vec<RawTypeIndexEntry>>)
    requires
        header.generic_parameter_constraints.fits(reader@.len() as int),
    ensures
        header.generic_parameter_constraints.byte_count % TYPE_INDEX_SIZE == 0 ==> r is Ok && r->Ok_0@ == spec_generic_parameter_constraints(
            reader@,
            header.generic_parameter_constraints,
        ),
        header.generic_parameter_constraints.byte_count % TYPE_INDEX_SIZE != 0 ==> r == Err::<Vec<RawTypeIndexEntry>, Error>(
            Error::InvalidMetadata,
        ),
{
    let file_size = reader.len();
    let offsets = offsets(header.generic_parameter_constraints, TYPE_INDEX_SIZE, file_size)?;
    let mut records: Vec<RawTypeIndexEntry> = Vec::new();
    let mut i: usize = 0;
    while i < offsets.len()
        invariant
            file_size == reader@.len(),
            i <= offsets@.len(),
            offsets@.len() == header.generic_parameter_constraints.byte_count / TYPE_INDEX_SIZE,
            forall|k: int|
                0 <= k < offsets@.len() ==> #[trigger] offsets@[k] == header.generic_parameter_constraints.offset + k
                    * TYPE_INDEX_SIZE && offsets@[k] + TYPE_INDEX_SIZE <= reader@.len(),
            records@.len() == i,
            forall|k: int|
                0 <= k < i ==> #[trigger] records@[k] == spec_record_typeindexentry(
                    reader@,
                    header.generic_parameter_constraints.offset + k * TYPE_INDEX_SIZE,
                ),
        decreases offsets@.len() - i,
    {
        let offset = offsets[i];
        assert(offset + TYPE_INDEX_SIZE <= reader@.len());
        let record = RawTypeIndexEntry {
            type_index: reader.read_i32(offset + 0)?,
        };
        records.push(record);
        i = i + 1;
    }
    assert(records@ =~= spec_generic_parameter_constraints(reader@, header.generic_parameter_constraints));
    Ok(records)
}

/// Records of the `nested_types` table, in table order.
pub open spec fn spec_nested_types(data: Seq<u8>, table: MetadataTable) -> Seq<RawTypeIndexEntry> {
    Seq::new(
        (table.byte_count / TYPE_INDEX_SIZE) as nat,
        |i: int| spec_record_typeindexentry(data, table.offset + i * TYPE_INDEX_SIZE),
    )
}

/// Reads every record of the `nested_types` table.
pub fn parse_nested_types(reader: &MetadataReader, header: &MetadataHeader) -> (r: Result<Vec<RawTypeIndexEntry>>)
    requires
        header.nested_types.fits(reader@.len() as int),
    ensures
        header.nested_types.byte_count % TYPE_INDEX_SIZE == 0 ==> r is Ok && r->Ok_0@ == spec_nested_types(
            reader@,
            header.nested_types,
        ),
        header.nested_types.byte_count % TYPE_INDEX_SIZE != 0 ==> r == Err::<Vec<RawTypeIndexEntry>, Error>(
            Error::InvalidMetadata,
        ),
{
    let file_size = reader.len();
    let offsets = offsets(header.nested_types, TYPE_INDEX_SIZE, file_size)?;
    let mut records: Vec<RawTypeIndexEntry> = Vec::new();
    let mut i: usize = 0;
    while i < offsets.len()
        invariant
            file_size == reader@.len(),
            i <= offsets@.len(),
            offsets@.len() == header.nested_types.byte_count / TYPE_INDEX_SIZE,
            forall|k: int|
                0 <= k < offsets@.len() ==> #[trigger] offsets@[k] == header.nested_types.offset + k
                    * TYPE_INDEX_SIZE && offsets@[k] + TYPE_INDEX_SIZE <= reader@.len(),
            records@.len() == i,
            forall|k: int|
                0 <= k < i ==> #[trigger] records@[k] == spec_record_typeindexentry(
                    reader@,
                    header.nested_types.offset + k * TYPE_INDEX_SIZE,
                ),
        decreases offsets@.len() - i,
    {
        let offset = offsets[i];
        assert(offset + TYPE_INDEX_SIZE <= reader@.len());
        let record = RawTypeIndexEntry {
            type_index: reader.read_i32(offset + 0)?,
        };
        records.push(record);
        i = i + 1;
    }
    assert(records@ =~= spec_nested_types(reader@, header.nested_types));
    Ok(records)
}

#[derive(Debug, Clone, Copy, PartialEq, Eq)]
pub struct RawStringLiteral {
    pub length: u32,
    pub data_index: u32,
}

/// The `RawStringLiteral` record stored at byte `offset`.
pub open spec fn spec_record_stringliteral(data: Seq<u8>, offset: int) -> RawStringLiteral {
    RawStringLiteral {
        length: spec_u32(data, offset + 0) as u32,
        data_index: spec_u32(data, offset + 4) as u32,
    }
}

/// Records of the `string_literals` table, in table order.
pub open spec fn spec_string_literals(data: Seq<u8>, table: MetadataTable) -> Seq<RawStringLiteral> {
    Seq::new(
        (table.byte_count / STRING_LITERAL_SIZE) as nat,
        |i: int| spec_record_stringliteral(data, table.offset + i * STRING_LITERAL_SIZE),
    )
}

/// Reads every record of the `string_literals` table.
pub fn parse_string_literals(reader: &MetadataReader, header: &MetadataHeader) -> (r: Result<Vec<RawStringLiteral>>)
    requires
        header.string_literals.fits(reader@.len() as int),
    ensures
        header.string_literals.byte_count % STRING_LITERAL_SIZE == 0 ==> r is Ok && r->Ok_0@ == spec_string_literals(
            reader@,
            header.string_literals,
        ),
        header.string_literals.byte_count % STRING_LITERAL_SIZE != 0 ==> r == Err::<Vec<RawStringLiteral>, Error>(
            Error::InvalidMetadata,
        ),
{
    let file_size = reader.len();
    let offsets = offsets(header.string_literals, STRING_LITERAL_SIZE, file_size)?;
    let mut records: Vec<RawStringLiteral> = Vec::new();
    let mut i: usize = 0;
    while i < offsets.len()
        invariant
            file_size == reader@.len(),
            i <= offsets@.len(),
            offsets@.len() == header.string_literals.byte_count / STRING_LITERAL_SIZE,
            forall|k: int|
                0 <= k < offsets@.len() ==> #[trigger] offsets@[k] == header.string_literals.offset + k
                    * STRING_LITERAL_SIZE && offsets@[k] + STRING_LITERAL_SIZE <= reader@.len(),
            records@.len() == i,
            forall|k: int|
                0 <= k < i ==> #[trigger] records@[k] == spec_record_stringliteral(
                    reader@,
                    header.string_literals.offset + k * STRING_LITERAL_SIZE,
                ),
        decreases offsets@.len() - i,
    {
        let offset = offsets[i];
        assert(offset + STRING_LITERAL_SIZE <= reader@.len());
        let record = RawStringLiteral {
            length: reader.read_u32(offset + 0)?,
            data_index: reader.read_u32(offset + 4)?,
        };
        records.push(record);
        i = i + 1;
    }
    assert(records@ =~= spec_string_literals(reader@, header.string_literals));
    Ok(records)
}


/// All fixed-width records of a version 31 file.
pub struct RawRecords {
    pub images: Vec<RawImage>,
    pub assemblies: Vec<RawAssembly>,
    pub types: Vec<RawTypeDefinition>,
    pub fields: Vec<RawField>,
    pub methods: Vec<RawMethod>,
    pub parameters: Vec<RawParameter>,
    pub properties: Vec<RawProperty>,
    pub generic_containers: Vec<RawGenericContainer>,
    pub generic_parameters: Vec<RawGenericParameter>,
    pub interfaces: Vec<RawTypeIndexEntry>,
    pub constraints: Vec<RawTypeIndexEntry>,
    pub nested_types: Vec<RawTypeIndexEntry>,
    pub string_literals: Vec<RawStringLiteral>,
}

/// The records of every table, as sequences.
pub struct RawTables {
    pub images: Seq<RawImage>,
    pub assemblies: Seq<RawAssembly>,
    pub types: Seq<RawTypeDefinition>,
    pub fields: Seq<RawField>,
    pub methods: Seq<RawMethod>,
    pub parameters: Seq<RawParameter>,
    pub properties: Seq<RawProperty>,
    pub generic_containers: Seq<RawGenericContainer>,
    pub generic_parameters: Seq<RawGenericParameter>,
    pub interfaces: Seq<RawTypeIndexEntry>,
    pub constraints: Seq<RawTypeIndexEntry>,
    pub nested_types: Seq<RawTypeIndexEntry>,
    pub string_literals: Seq<RawStringLiteral>,
}

impl View for RawRecords {
    type V = RawTables;

    open spec fn view(&self) -> RawTables {
        RawTables {
            images: self.images@,
            assemblies: self.assemblies@,
            types: self.types@,
            fields: self.fields@,
            methods: self.methods@,
            parameters: self.parameters@,
            properties: self.properties@,
            generic_containers: self.generic_containers@,
            generic_parameters: self.generic_parameters@,
            interfaces: self.interfaces@,
            constraints: self.constraints@,
            nested_types: self.nested_types@,
            string_literals: self.string_literals@,
        }
    }
}

/// The records of every table of `data`, as `header` lays them out.
pub open spec fn spec_raw_tables(data: Seq<u8>, header: MetadataHeader) -> RawTables {
    RawTables {
        images: spec_images(data, header.images),
        assemblies: spec_assemblies(data, header.assemblies),
        types: spec_types(data, header.type_definitions),
        fields: spec_fields(data, header.fields),
        methods: spec_methods(data, header.methods),
        parameters: spec_parameters(data, header.parameters),
        properties: spec_properties(data, header.properties),
        generic_containers: spec_generic_containers(data, header.generic_containers),
        generic_parameters: spec_generic_parameters(data, header.generic_parameters),
        interfaces: spec_interfaces(data, header.interfaces),
        constraints: spec_generic_parameter_constraints(data, header.generic_parameter_constraints),
        nested_types: spec_nested_types(data, header.nested_types),
        string_literals: spec_string_literals(data, header.string_literals),
    }
}

/// Every record table holds a whole number of records.
pub open spec fn record_tables_whole(header: MetadataHeader) -> bool {
    &&& header.images.byte_count % IMAGE_SIZE == 0
    &&& header.assemblies.byte_count % ASSEMBLY_SIZE == 0
    &&& header.type_definitions.byte_count % TYPE_DEFINITION_SIZE == 0
    &&& header.fields.byte_count % FIELD_SIZE == 0
    &&& header.methods.byte_count % METHOD_SIZE == 0
    &&& header.parameters.byte_count % PARAMETER_SIZE == 0
    &&& header.properties.byte_count % PROPERTY_SIZE == 0
    &&& header.generic_containers.byte_count % GENERIC_CONTAINER_SIZE == 0
    &&& header.generic_parameters.byte_count % GENERIC_PARAMETER_SIZE == 0
    &&& header.interfaces.byte_count % TYPE_INDEX_SIZE == 0
    &&& header.generic_parameter_constraints.byte_count % TYPE_INDEX_SIZE == 0
    &&& header.nested_types.byte_count % TYPE_INDEX_SIZE == 0
    &&& header.string_literals.byte_count % STRING_LITERAL_SIZE == 0
}

/// `raw` holds exactly the records of every table.
pub open spec fn records_match(data: Seq<u8>, header: MetadataHeader, raw: RawRecords) -> bool {
    &&& raw.images@ == spec_images(data, header.images)
    &&& raw.assemblies@ == spec_assemblies(data, header.assemblies)
    &&& raw.types@ == spec_types(data, header.type_definitions)
    &&& raw.fields@ == spec_fields(data, header.fields)
    &&& raw.methods@ == spec_methods(data, header.methods)
    &&& raw.parameters@ == spec_parameters(data, header.parameters)
    &&& raw.properties@ == spec_properties(data, header.properties)
    &&& raw.generic_containers@ == spec_generic_containers(data, header.generic_containers)
    &&& raw.generic_parameters@ == spec_generic_parameters(data, header.generic_parameters)
    &&& raw.interfaces@ == spec_interfaces(data, header.interfaces)
    &&& raw.constraints@ == spec_generic_parameter_constraints(data, header.generic_parameter_constraints)
    &&& raw.nested_types@ == spec_nested_types(data, header.nested_types)
    &&& raw.string_literals@ == spec_string_literals(data, header.string_literals)
}

/// Reads every record table.
pub fn parse_records(reader: &MetadataReader, header: &MetadataHeader) -> (r: Result<RawRecords>)
    requires
        forall|i: int| 0 <= i < TABLE_COUNT ==> (#[trigger] header.table(i)).fits(reader@.len() as int),
    ensures
        r is Ok <==> record_tables_whole(*header),
        !record_tables_whole(*header) ==> r == Err::<RawRecords, Error>(Error::InvalidMetadata),
        r matches Ok(raw) ==> records_match(reader@, *header, raw) && raw@ == spec_raw_tables(
            reader@,
            *header,
        ),
{
    assert(header.images == header.table(20));
    assert(header.assemblies == header.table(21));
    assert(header.type_definitions == header.table(19));
    assert(header.fields == header.table(11));
    assert(header.methods == header.table(5));
    assert(header.parameters == header.table(10));
    assert(header.properties == header.table(4));
    assert(header.generic_containers == header.table(14));
    assert(header.generic_parameters == header.table(12));
    assert(header.interfaces == header.table(16));
    assert(header.generic_parameter_constraints == header.table(13));
    assert(header.nested_types == header.table(15));
    assert(header.string_literals == header.table(0));
    Ok(RawRecords {
        images: parse_images(reader, header)?,
        assemblies: parse_assemblies(reader, header)?,
        types: parse_types(reader, header)?,
        fields: parse_fields(reader, header)?,
        methods: parse_methods(reader, header)?,
        parameters: parse_parameters(reader, header)?,
        properties: parse_properties(reader, header)?,
        generic_containers: parse_generic_containers(reader, header)?,
        generic_parameters: parse_generic_parameters(reader, header)?,
        interfaces: parse_interfaces(reader, header)?,
        constraints: parse_generic_parameter_constraints(reader, header)?,
        nested_types: parse_nested_types(reader, header)?,
        string_literals: parse_string_literals(reader, header)?,
    })
}

} // verus!
