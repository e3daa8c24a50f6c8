//! IL2CPP metadata header parsing and version dispatch.
pub mod header;
pub mod normalize;
pub mod parser;
pub mod ranges;
pub mod reader;
pub mod strings;
pub mod versions;

use vstd::prelude::*;

pub use header::{MetadataHeader, MetadataTable, MetadataVersion, METADATA_SANITY};
pub use reader::MetadataReader;
pub use strings::string_at;

use crate::text::{chars_of, contains_chars, lowercase, seq_contains, to_lowercase};
use crate::{Error, Result};
use crate::model::{
    Assembly, Field, GenericContainer, GenericParameter, Image, Method, Parameter, Property,
    StringLiteral, StringLiteralId, TypeDefinition,
};

verus! {

/// Record widths selected by the metadata-version parser.
#[derive(Debug, Clone, Copy, PartialEq, Eq, Structural)]
pub struct MetadataRecordSizes {
    pub image: usize,
    pub assembly: usize,
    pub type_definition: usize,
    pub field: usize,
    pub method: usize,
    pub parameter: usize,
}

/// The literals of `literals` whose lowercase value contains `query`, in order.
pub open spec fn matching_literals(literals: Seq<StringLiteral>, query: Seq<char>) -> Seq<StringLiteral>
    decreases literals.len(),
{
    if literals.len() == 0 {
        Seq::empty()
    } else {
        let rest = matching_literals(literals.drop_last(), query);
        if seq_contains(lowercase(literals.last().value@), query) {
            rest.push(literals.last())
        } else {
            rest
        }
    }
}

/// The values that a sequence of literal references points to.
pub open spec fn deref_literals(refs: Seq<&StringLiteral>) -> Seq<StringLiteral> {
    refs.map_values(|l: &StringLiteral| *l)
}

/// Normalized metadata exposed to consumers.
#[derive(Debug, Clone, PartialEq, Eq)]
pub struct Metadata {
    pub version: MetadataVersion,
    pub assemblies: Vec<Assembly>,
    pub images: Vec<Image>,
    pub types: Vec<TypeDefinition>,
    pub methods: Vec<Method>,
    pub fields: Vec<Field>,
    pub parameters: Vec<Parameter>,
    pub properties: Vec<Property>,
    pub generic_containers: Vec<GenericContainer>,
    pub generic_parameters: Vec<GenericParameter>,
    pub string_literals: Vec<StringLiteral>,
    /// Validated header of the source file.
    pub header: MetadataHeader,
    /// The bytes the metadata was parsed from.
    pub data: Vec<u8>,
}

impl Metadata {
    /// Parses metadata from bytes.
    pub fn from_bytes(bytes: &[u8]) -> (r: Result<Metadata>)
        ensures
            parser::parse_outcome(bytes@, r),
    {
        let data = strings::copy_range(bytes, 0, bytes.len());
        assert(data@ =~= bytes@);
        Self::from_vec(data)
    }

    fn from_vec(data: Vec<u8>) -> (r: Result<Metadata>)
        ensures
            parser::parse_outcome(data@, r),
    {
        parser::parse(data)
    }

    /// Returns the parsed metadata header.
    pub fn header(&self) -> (h: &MetadataHeader)
        ensures
            *h == self.header,
    {
        &self.header
    }

    /// Returns the source metadata byte length.
    pub fn file_size(&self) -> (n: usize)
        ensures
            n == self.data@.len(),
    {
        self.data.len()
    }

    /// Returns the record widths used to validate this metadata version.
    pub fn record_sizes(&self) -> (r: MetadataRecordSizes)
        ensures
            r == (MetadataRecordSizes {
                image: versions::v31::IMAGE_SIZE,
                assembly: versions::v31::ASSEMBLY_SIZE,
                type_definition: versions::v31::TYPE_DEFINITION_SIZE,
                field: versions::v31::FIELD_SIZE,
                method: versions::v31::METHOD_SIZE,
                parameter: versions::v31::PARAMETER_SIZE,
            }),
    {
        versions::record_sizes()
    }

    /// Returns managed-code string literals, not identifier strings from the `strings` table.
    pub fn string_literals(&self) -> (r: &[StringLiteral])
        ensures
            r@ == self.string_literals@,
    {
        self.string_literals.as_slice()
    }

    /// Returns one managed-code string literal by position.
    pub fn string_literal(&self, id: StringLiteralId) -> (r: Option<&StringLiteral>)
        ensures
            id.0 < self.string_literals@.len() ==> r == Some(&self.string_literals@[id.0 as int]),
            id.0 >= self.string_literals@.len() ==> r is None,
    {
        if id.0 < self.string_literals.len() {
            Some(&self.string_literals[id.0])
        } else {
            None
        }
    }

    /// Literals whose lowercase value contains the lowercase query; none for an empty query.
    pub fn find_string_literals(&self, query: &str) -> (r: Vec<&StringLiteral>)
        ensures
            lowercase(query@).len() == 0 ==> r@.len() == 0,
            lowercase(query@).len() > 0 ==> deref_literals(r@) == matching_literals(
                self.string_literals@,
                lowercase(query@),
            ),
    {
        let query = chars_of(to_lowercase(query).as_str());
        let mut r: Vec<&StringLiteral> = Vec::new();
        if query.len() == 0 {
            return r;
        }
        let mut i: usize = 0;
        while i < self.string_literals.len()
            invariant
                i <= self.string_literals@.len(),
                deref_literals(r@) == matching_literals(self.string_literals@.take(i as int), query@),
            decreases self.string_literals@.len() - i,
        {
            let literal = &self.string_literals[i];
            let value = chars_of(to_lowercase(literal.value.as_str()).as_str());
            assert(self.string_literals@.take(i as int + 1).drop_last() =~= self.string_literals@.take(i as int));
            if contains_chars(value.as_slice(), query.as_slice()) {
                r.push(literal);
                assert(deref_literals(r@) =~= matching_literals(self.string_literals@.take(i as int), query@).push(*literal));
            }
            i = i + 1;
        }
        assert(self.string_literals@.take(i as int) =~= self.string_literals@);
        r
    }

    /// Resolves one null-terminated UTF-8 string within the string-data table.
    pub fn string(&self, index: u32) -> (r: Result<String>)
        ensures
            strings::spec_string_at(self.data@, self.header.strings, index) matches Some(s) ==> r is Ok
                && r->Ok_0@ == s,
            strings::spec_string_at(self.data@, self.header.strings, index) is None ==> r is Err,
            index >= self.header.strings.byte_count ==> r == Err::<String, Error>(
                Error::InvalidMetadataString(index),
            ),
            index < self.header.strings.byte_count && !self.header.strings.fits(
                self.data@.len() as int,
            ) ==> r == Err::<String, Error>(Error::InvalidMetadata),
            index < self.header.strings.byte_count && self.header.strings.fits(
                self.data@.len() as int,
            ) && strings::spec_string_at(self.data@, self.header.strings, index) is None ==> r
                == Err::<String, Error>(Error::InvalidMetadataString(index)),
    {
        string_at(self.data.as_slice(), &self.header, index)
    }
}

} // verus!
