use vstd::prelude::*;

use super::header::{
    empty_table, spec_v31_header, MetadataHeader, HEADER_SIZE, METADATA_SANITY, TABLE_COUNT,
};
use super::versions::v31::{lemma_header_is_v31, read_tables, VERSION};
use super::strings::copy_range;
use super::versions::{resolve, spec_resolve};
use super::Metadata;
use crate::{Error, Result};

verus! {

/// Little-endian unsigned 16-bit value stored at `offset`.
pub open spec fn spec_u16(data: Seq<u8>, offset: int) -> int {
    data[offset] + data[offset + 1] * 0x100
}

/// Little-endian unsigned 32-bit value stored at `offset`.
pub open spec fn spec_u32(data: Seq<u8>, offset: int) -> int {
    data[offset] + data[offset + 1] * 0x100 + data[offset + 2] * 0x1_0000 + data[offset + 3]
        * 0x100_0000
}

/// Two's-complement reading of the little-endian 32-bit value stored at `offset`.
pub open spec fn spec_i32(data: Seq<u8>, offset: int) -> int {
    let raw = spec_u32(data, offset);
    if raw < 0x8000_0000 {
        raw
    } else {
        raw - 0x1_0000_0000
    }
}

/// Two's-complement reading of the little-endian 16-bit value stored at `offset`.
pub open spec fn spec_i16(data: Seq<u8>, offset: int) -> int {
    let raw = spec_u16(data, offset);
    if raw < 0x8000 {
        raw
    } else {
        raw - 0x1_0000
    }
}

/// The first eight bytes hold the sanity value.
pub open spec fn prefix_ok(data: Seq<u8>) -> bool {
    data.len() >= 8 && spec_u32(data, 0) == METADATA_SANITY
}

/// `h` carries the prefix words of `data` and no table descriptors.
pub open spec fn is_prefix_header(h: MetadataHeader, data: Seq<u8>) -> bool {
    &&& h.sanity == spec_u32(data, 0)
    &&& h.version == spec_u32(data, 4)
    &&& forall|i: int| 0 <= i < TABLE_COUNT ==> #[trigger] h.table(i) == empty_table()
}

/// The header `header()` reads from `data`: for version 31 with the whole header present,
/// the header `data` describes; otherwise the prefix words alone.
pub open spec fn reads_header(h: MetadataHeader, data: Seq<u8>) -> bool {
    if spec_u32(data, 4) == VERSION && data.len() >= HEADER_SIZE {
        h == spec_v31_header(data)
    } else {
        is_prefix_header(h, data)
    }
}

/// Reader for an unprotected `global-metadata.dat` payload.
#[derive(Debug, Clone, Copy)]
pub struct MetadataReader<'data> {
    data: &'data [u8],
}

impl<'data> View for MetadataReader<'data> {
    type V = Seq<u8>;

    closed spec fn view(&self) -> Seq<u8> {
        self.data@
    }
}

impl<'data> MetadataReader<'data> {
    pub fn new(data: &'data [u8]) -> (reader: Self)
        ensures
            reader@ == data@,
    {
        Self { data }
    }

    pub fn len(&self) -> (n: usize)
        ensures
            n == self@.len(),
    {
        self.data.len()
    }

    /// Reads and validates the version-independent header prefix: the sanity value and the
    /// version word. For version 31, when the file holds the whole header, the table
    /// descriptors are read too; where the tables lie is checked where they are parsed.
    pub fn header(&self) -> (r: Result<MetadataHeader>)
        ensures
            r is Ok <==> prefix_ok(self@),
            r matches Ok(h) ==> reads_header(h, self@),
            !prefix_ok(self@) ==> r == Err::<MetadataHeader, Error>(Error::InvalidMetadata),
    {
        if self.data.len() < 8 {
            return Err(Error::InvalidMetadata);
        }
        let sanity = self.read_u32(0)?;
        let version = self.read_u32(4)?;
        if sanity != METADATA_SANITY {
            return Err(Error::InvalidMetadata);
        }
        if version == VERSION && self.data.len() >= HEADER_SIZE {
            let tables = read_tables(self);
            let h = MetadataHeader::from_tables(sanity, version, &tables);
            proof {
                lemma_header_is_v31(h, self@);
            }
            return Ok(h);
        }
        Ok(MetadataHeader::prefix_only(sanity, version))
    }

    /// Reads the header prefix and resolves its version, without reading any table.
    pub fn read(&self) -> (r: Result<Metadata>)
        ensures
            r is Ok <==> prefix_ok(self@) && spec_resolve(spec_u32(self@, 4) as u32) is Some,
            !prefix_ok(self@) ==> r == Err::<Metadata, Error>(Error::InvalidMetadata),
            prefix_ok(self@) && spec_resolve(spec_u32(self@, 4) as u32) is None ==> r == Err::<
                Metadata,
                Error,
            >(Error::UnsupportedMetadataVersion(spec_u32(self@, 4) as u32)),
            r matches Ok(m) ==> {
                &&& Some(m.version) == spec_resolve(spec_u32(self@, 4) as u32)
                &&& reads_header(m.header, self@)
                &&& m.data@ == self@
                &&& m.assemblies@.len() == 0
                &&& m.images@.len() == 0
                &&& m.types@.len() == 0
                &&& m.methods@.len() == 0
                &&& m.fields@.len() == 0
                &&& m.parameters@.len() == 0
                &&& m.properties@.len() == 0
                &&& m.generic_containers@.len() == 0
                &&& m.generic_parameters@.len() == 0
                &&& m.string_literals@.len() == 0
            },
    {
        let header = self.header()?;
        let version = resolve(header.version)?;
        Ok(Metadata {
            version,
            assemblies: Vec::new(),
            images: Vec::new(),
            types: Vec::new(),
            methods: Vec::new(),
            fields: Vec::new(),
            parameters: Vec::new(),
            properties: Vec::new(),
            generic_containers: Vec::new(),
            generic_parameters: Vec::new(),
            string_literals: Vec::new(),
            header,
            data: copy_range(self.data, 0, self.data.len()),
        })
    }

    /// Reads one byte.
    pub fn read_u8(&self, offset: usize) -> (r: Result<u8>)
        ensures
            offset < self@.len() ==> r == Ok::<u8, Error>(self@[offset as int]),
            offset >= self@.len() ==> r == Err::<u8, Error>(
                Error::MetadataOutOfBounds { offset, length: 1 },
            ),
    {
        if offset < self.data.len() {
            Ok(self.data[offset])
        } else {
            Err(Error::MetadataOutOfBounds { offset, length: 1 })
        }
    }

    /// Reads a little-endian `u16`.
    pub fn read_u16(&self, offset: usize) -> (r: Result<u16>)
        ensures
            offset + 2 <= self@.len() ==> r == Ok::<u16, Error>(spec_u16(self@, offset as int) as u16),
            offset + 2 > self@.len() ==> r == Err::<u16, Error>(
                Error::MetadataOutOfBounds { offset, length: 2 },
            ),
    {
        if offset > self.data.len() || self.data.len() - offset < 2 {
            return Err(Error::MetadataOutOfBounds { offset, length: 2 });
        }
        let b0 = self.data[offset] as u16;
        let b1 = self.data[offset + 1] as u16;
        Ok(b0 + b1 * 0x100)
    }

    /// Reads a little-endian `u32`.
    pub fn read_u32(&self, offset: usize) -> (r: Result<u32>)
        ensures
            offset + 4 <= self@.len() ==> r == Ok::<u32, Error>(spec_u32(self@, offset as int) as u32),
            offset + 4 > self@.len() ==> r == Err::<u32, Error>(
                Error::MetadataOutOfBounds { offset, length: 4 },
            ),
    {
        if offset > self.data.len() || self.data.len() - offset < 4 {
            return Err(Error::MetadataOutOfBounds { offset, length: 4 });
        }
        let b0 = self.data[offset] as u32;
        let b1 = self.data[offset + 1] as u32;
        let b2 = self.data[offset + 2] as u32;
        let b3 = self.data[offset + 3] as u32;
        Ok(b0 + b1 * 0x100 + b2 * 0x1_0000 + b3 * 0x100_0000)
    }

    /// Reads a little-endian two's-complement `i16`.
    pub fn read_i16(&self, offset: usize) -> (r: Result<i16>)
        ensures
            offset + 2 <= self@.len() ==> r == Ok::<i16, Error>(spec_i16(self@, offset as int) as i16),
            offset + 2 > self@.len() ==> r == Err::<i16, Error>(
                Error::MetadataOutOfBounds { offset, length: 2 },
            ),
    {
        let raw = self.read_u16(offset)?;
        if raw < 0x8000 {
            Ok(raw as i16)
        } else {
            let low = (raw - 0x8000) as i16;
            Ok(low - 0x7fff - 1)
        }
    }

    /// Reads a little-endian two's-complement `i32`.
    pub fn read_i32(&self, offset: usize) -> (r: Result<i32>)
        ensures
            offset + 4 <= self@.len() ==> r == Ok::<i32, Error>(spec_i32(self@, offset as int) as i32),
            offset + 4 > self@.len() ==> r == Err::<i32, Error>(
                Error::MetadataOutOfBounds { offset, length: 4 },
            ),
    {
        match self.read_u32(offset) {
            Ok(raw) => {
                if raw < 0x8000_0000 {
                    Ok(raw as i32)
                } else {
                    let low = (raw - 0x8000_0000) as i32;
                    Ok(low - 0x7fff_ffff - 1)
                }
            },
            Err(_) => Err(Error::MetadataOutOfBounds { offset, length: 4 }),
        }
    }
}

} // verus!
