use il2cpp_core::metadata::{
    string_at, Metadata, MetadataHeader, MetadataReader, MetadataTable, METADATA_SANITY,
};
use il2cpp_core::model::StringLiteralId;
use il2cpp_core::Error;

fn empty_header(strings: MetadataTable) -> MetadataHeader {
    let mut bytes = vec![0_u8; 256_usize.max(strings.offset + strings.byte_count)];
    bytes[0..4].copy_from_slice(&METADATA_SANITY.to_le_bytes());
    bytes[4..8].copy_from_slice(&31_u32.to_le_bytes());
    bytes[24..28].copy_from_slice(&(strings.offset as u32).to_le_bytes());
    bytes[28..32].copy_from_slice(&(strings.byte_count as u32).to_le_bytes());
    MetadataReader::new(&bytes).header().expect("valid header")
}

#[test]
fn string_lookup_stays_inside_string_table() {
    let header = empty_header(MetadataTable {
        offset: 256,
        byte_count: 4,
    });
    let mut data = vec![0_u8; 260];
    data[256..].copy_from_slice(b"abc\0");

    assert_eq!(string_at(&data, &header, 0).expect("valid string"), "abc");
    assert!(matches!(
        string_at(&data, &header, 4),
        Err(Error::InvalidMetadataString(4))
    ));
}

#[test]
fn string_lookup_requires_terminator_inside_table() {
    let header = empty_header(MetadataTable {
        offset: 256,
        byte_count: 3,
    });
    let mut data = vec![0_u8; 260];
    data[256..260].copy_from_slice(b"abc\0");

    assert!(matches!(
        string_at(&data, &header, 0),
        Err(Error::InvalidMetadataString(0))
    ));
}

fn literal_metadata(records: &[(u32, u32)], literal_data: &[u8]) -> Vec<u8> {
    let records_size = records.len() * 8;
    let data_offset = 256 + records_size;
    let mut bytes = vec![0_u8; data_offset + literal_data.len()];
    bytes[0..4].copy_from_slice(&METADATA_SANITY.to_le_bytes());
    bytes[4..8].copy_from_slice(&31_u32.to_le_bytes());
    bytes[8..12].copy_from_slice(&256_u32.to_le_bytes());
    bytes[12..16].copy_from_slice(&(records_size as u32).to_le_bytes());
    bytes[16..20].copy_from_slice(&(data_offset as u32).to_le_bytes());
    bytes[20..24].copy_from_slice(&(literal_data.len() as u32).to_le_bytes());
    for (index, (length, data_index)) in records.iter().enumerate() {
        let offset = 256 + index * 8;
        bytes[offset..offset + 4].copy_from_slice(&length.to_le_bytes());
        bytes[offset + 4..offset + 8].copy_from_slice(&data_index.to_le_bytes());
    }
    bytes[data_offset..].copy_from_slice(literal_data);
    bytes
}

#[test]
fn parses_length_bounded_literals_including_empty_and_controls() {
    let metadata =
        Metadata::from_bytes(&literal_metadata(&[(0, 0), (5, 0), (3, 5)], b"hello\n\0x"))
            .expect("valid literals");
    assert_eq!(metadata.string_literals().len(), 3);
    assert_eq!(
        metadata.string_literal(StringLiteralId(0)).unwrap().value,
        ""
    );
    assert_eq!(
        metadata.string_literal(StringLiteralId(1)).unwrap().value,
        "hello"
    );
    assert_eq!(
        metadata
            .string_literal(StringLiteralId(2))
            .unwrap()
            .escaped(),
        "\\n\\u{0}x"
    );
}

#[test]
fn rejects_literal_data_outside_dedicated_table() {
    let error = Metadata::from_bytes(&literal_metadata(&[(4, 2)], b"abc"))
        .expect_err("out of bounds literal");
    assert!(matches!(error, Error::InvalidStringLiteral(0)));
}

#[test]
fn keeps_invalid_utf8_literal_without_panicking() {
    let metadata = Metadata::from_bytes(&literal_metadata(&[(2, 0)], &[0xff, 0xfe]))
        .expect("literal record is bounded");
    assert!(!metadata.string_literals()[0].valid_utf8);
    assert!(!metadata.string_literals()[0].value.is_empty());
}
