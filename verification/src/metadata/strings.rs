//! Identifier strings and managed string literals.
use vstd::prelude::*;
use vstd::utf8::{decode_utf8, valid_utf8};

use super::header::{MetadataHeader, MetadataTable};
use super::versions::v31::RawStringLiteral;
use crate::model::{StringLiteral, StringLiteralId};
use crate::{Error, Result};

verus! {

/// `n` is the position of the first zero byte of `s`.
pub open spec fn is_first_nul(s: Seq<u8>, n: int) -> bool {
    &&& 0 <= n < s.len()
    &&& s[n] == 0
    &&& forall|j: int| 0 <= j < n ==> s[j] != 0
}

/// The bytes of `s` before its first zero byte, if it has one.
pub open spec fn spec_c_string(s: Seq<u8>) -> Option<Seq<u8>> {
    if exists|n: int| is_first_nul(s, n) {
        Some(s.take(choose|n: int| is_first_nul(s, n)))
    } else {
        None
    }
}

/// The bytes of `table` inside `data`.
pub open spec fn table_bytes(data: Seq<u8>, table: MetadataTable) -> Seq<u8> {
    data.subrange(table.offset as int, table.spec_end())
}

/// The null-terminated UTF-8 identifier that starts `index` bytes into the string table.
pub open spec fn spec_string_at(data: Seq<u8>, strings: MetadataTable, index: u32) -> Option<
    Seq<char>,
> {
    if index >= strings.byte_count || !strings.fits(data.len() as int) {
        None
    } else {
        match spec_c_string(table_bytes(data, strings).skip(index as int)) {
            Some(bytes) => if valid_utf8(bytes) {
                Some(decode_utf8(bytes))
            } else {
                None
            },
            None => None,
        }
    }
}

/// `String::from_utf8`: a string exactly when the bytes are valid UTF-8, holding their
/// decoding.
#[verifier::external_body]
pub(crate) fn utf8_to_string(bytes: Vec<u8>) -> (r: Option<String>)
    ensures
        r is Some <==> valid_utf8(bytes@),
        r matches Some(s) ==> s@ == decode_utf8(bytes@),
{
    String::from_utf8(bytes).ok()
}

/// The characters that `String::from_utf8_lossy` produces for a byte sequence.
pub uninterp spec fn utf8_lossy(bytes: Seq<u8>) -> Seq<char>;

/// `String::from_utf8_lossy`, with invalid sequences replaced by U+FFFD.
#[verifier::external_body]
fn utf8_lossy_string(bytes: &[u8]) -> (r: String)
    ensures
        r@ == utf8_lossy(bytes@),
{
    String::from_utf8_lossy(bytes).into_owned()
}

/// Copies `data[start..end]`.
pub fn copy_range(data: &[u8], start: usize, end: usize) -> (r: Vec<u8>)
    requires
        start <= end <= data@.len(),
    ensures
        r@ == data@.subrange(start as int, end as int),
{
    let mut r: Vec<u8> = Vec::new();
    let mut i = start;
    while i < end
        invariant
            start <= i <= end,
            end <= data@.len(),
            r@ == data@.subrange(start as int, i as int),
        decreases end - i,
    {
        r.push(data[i]);
        i = i + 1;
        assert(r@ =~= data@.subrange(start as int, i as int));
    }
    r
}

/// Resolves one null-terminated UTF-8 string within the string-data table.
pub fn string_at(data: &[u8], header: &MetadataHeader, index: u32) -> (r: Result<String>)
    ensures
        spec_string_at(data@, header.strings, index) matches Some(s) ==> r is Ok && r->Ok_0@ == s,
        spec_string_at(data@, header.strings, index) is None ==> r is Err,
        index >= header.strings.byte_count ==> r == Err::<String, Error>(
            Error::InvalidMetadataString(index),
        ),
        index < header.strings.byte_count && !header.strings.fits(data@.len() as int) ==> r
            == Err::<String, Error>(Error::InvalidMetadata),
        index < header.strings.byte_count && header.strings.fits(data@.len() as int)
            && spec_string_at(data@, header.strings, index) is None ==> r == Err::<String, Error>(
            Error::InvalidMetadataString(index),
        ),
{
    let table = header.strings;
    if index as usize >= table.byte_count {
        return Err(Error::InvalidMetadataString(index));
    }
    if table.offset > data.len() || table.byte_count > data.len() - table.offset {
        return Err(Error::InvalidMetadata);
    }
    let ghost rest = table_bytes(data@, table).skip(index as int);
    let start = table.offset + index as usize;
    let end = table.offset + table.byte_count;
    let mut position = start;
    while position < end && data[position] != 0
        invariant
            start <= position <= end,
            end <= data@.len(),
            start == table.offset + index,
            end == table.offset + table.byte_count,
            rest == data@.subrange(start as int, end as int),
            forall|j: int| 0 <= j < position - start ==> rest[j] != 0,
        decreases end - position,
    {
        position = position + 1;
    }
    assert(rest =~= data@.subrange(start as int, end as int));
    if position == end {
        assert(!exists|n: int| is_first_nul(rest, n));
        return Err(Error::InvalidMetadataString(index));
    }
    let length = position - start;
    assert(is_first_nul(rest, length as int));
    assert forall|n: int| is_first_nul(rest, n) implies n == length by {
        if n < length {
            assert(rest[n] != 0);
        } else if n > length {
            assert(rest[length as int] == 0);
        }
    }
    let bytes = copy_range(data, start, position);
    assert(bytes@ =~= rest.take(length as int));
    match utf8_to_string(bytes) {
        Some(s) => Ok(s),
        None => Err(Error::InvalidMetadataString(index)),
    }
}

/// The literal record `record` (at position `index`) fits inside the literal-data table.
pub open spec fn literal_in_bounds(record: RawStringLiteral, data_table: MetadataTable) -> bool {
    record.data_index + record.length <= data_table.byte_count
}

/// Every literal record fits inside the literal-data table.
pub open spec fn literals_in_bounds(records: Seq<RawStringLiteral>, data_table: MetadataTable) -> bool {
    forall|i: int| 0 <= i < records.len() ==> literal_in_bounds(#[trigger] records[i], data_table)
}

/// The bytes of a literal inside the file.
pub open spec fn literal_bytes(data: Seq<u8>, record: RawStringLiteral, data_table: MetadataTable) -> Seq<u8> {
    data.subrange(
        data_table.offset + record.data_index,
        data_table.offset + record.data_index + record.length,
    )
}

/// `literal` is the decoding of record `index` of the literal table.
pub open spec fn literal_matches(
    data: Seq<u8>,
    records: Seq<RawStringLiteral>,
    data_table: MetadataTable,
    index: int,
    literal: StringLiteral,
) -> bool {
    let record = records[index];
    let bytes = literal_bytes(data, record, data_table);
    &&& literal.id == StringLiteralId(index as usize)
    &&& literal.metadata_index == index
    &&& literal.data_index == record.data_index
    &&& literal.byte_length == record.length
    &&& literal.metadata_file_offset == Some((data_table.offset + record.data_index) as u64)
    &&& literal.valid_utf8 == valid_utf8(bytes)
    &&& literal.value@ == if valid_utf8(bytes) {
        decode_utf8(bytes)
    } else {
        utf8_lossy(bytes)
    }
}

/// Decodes the managed string literals; each must lie inside the literal-data table.
pub fn decode_string_literals(
    data: &[u8],
    records: &Vec<RawStringLiteral>,
    data_table: MetadataTable,
) -> (r: Result<Vec<StringLiteral>>)
    requires
        data_table.fits(data@.len() as int),
    ensures
        r is Ok <==> literals_in_bounds(records@, data_table),
        r matches Ok(literals) ==> literals@.len() == records@.len() && forall|i: int|
            0 <= i < records@.len() ==> literal_matches(
                data@,
                records@,
                data_table,
                i,
                #[trigger] literals@[i],
            ),
        r matches Err(e) ==> exists|i: int|
            0 <= i < records@.len() && !literal_in_bounds(#[trigger] records@[i], data_table) && (
            forall|j: int| 0 <= j < i ==> literal_in_bounds(#[trigger] records@[j], data_table))
                && e == Error::InvalidStringLiteral(i as usize),
{
    let mut literals: Vec<StringLiteral> = Vec::new();
    let mut i: usize = 0;
    let file_size = data.len();
    while i < records.len()
        invariant
            file_size == data@.len(),
            data_table.fits(data@.len() as int),
            i <= records@.len(),
            literals@.len() == i,
            forall|j: int| 0 <= j < i ==> literal_in_bounds(#[trigger] records@[j], data_table),
            forall|j: int|
                0 <= j < i ==> literal_matches(data@, records@, data_table, j, #[trigger] literals@[j]),
        decreases records@.len() - i,
    {
        let record = records[i];
        let length = record.length as usize;
        let data_index = record.data_index as usize;
        if data_index > data_table.byte_count || length > data_table.byte_count - data_index {
            return Err(Error::InvalidStringLiteral(i));
        }
        let start = data_table.offset + data_index;
        let bytes = copy_range(data, start, start + length);
        let (value, valid) = match utf8_to_string(copy_range(data, start, start + length)) {
            Some(s) => (s, true),
            None => (utf8_lossy_string(bytes.as_slice()), false),
        };
        let literal = StringLiteral {
            id: StringLiteralId(i),
            value,
            metadata_index: i,
            data_index: record.data_index,
            byte_length: record.length,
            metadata_file_offset: Some(start as u64),
            valid_utf8: valid,
        };
        literals.push(literal);
        i = i + 1;
    }
    Ok(literals)
}

} // verus!
