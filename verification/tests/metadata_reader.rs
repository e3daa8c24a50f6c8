use il2cpp_core::metadata::{MetadataReader, MetadataVersion, METADATA_SANITY};
use il2cpp_core::Error;

fn metadata_prefix(sanity: u32, version: u32) -> Vec<u8> {
    [sanity.to_le_bytes(), version.to_le_bytes()].concat()
}

#[test]
fn reads_supported_header() {
    let bytes = metadata_prefix(METADATA_SANITY, 29);
    let metadata = MetadataReader::new(&bytes).read().expect("valid header");

    assert_eq!(metadata.version, MetadataVersion::V29);
}

#[test]
fn rejects_invalid_sanity() {
    let bytes = metadata_prefix(0, 29);
    let error = MetadataReader::new(&bytes).read().expect_err("bad sanity");

    assert!(matches!(error, Error::InvalidMetadata));
}

#[test]
fn rejects_unsupported_version() {
    let bytes = metadata_prefix(METADATA_SANITY, 30);
    let error = MetadataReader::new(&bytes)
        .read()
        .expect_err("unsupported version");

    assert!(matches!(error, Error::UnsupportedMetadataVersion(30)));
}

#[test]
fn header_reads_only_the_prefix() {
    let bytes = metadata_prefix(METADATA_SANITY, 31);
    let header = MetadataReader::new(&bytes).header().expect("prefix");
    assert_eq!(header.sanity, METADATA_SANITY);
    assert_eq!(header.version, 31);
    let metadata = MetadataReader::new(&bytes).read().expect("version 31");
    assert_eq!(metadata.version, MetadataVersion::V31);
    assert!(matches!(
        MetadataReader::new(&metadata_prefix(METADATA_SANITY, 27)).read(),
        Err(Error::UnsupportedMetadataVersion(27))
    ));
}
