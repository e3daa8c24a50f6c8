use il2cpp_core::analysis::TypeResolver;
use il2cpp_core::binary::{
    Architecture, BinaryKind, ElfImage, Endianness, Permissions, SegmentInfo,
};
use il2cpp_core::metadata::{Metadata, METADATA_SANITY};
use il2cpp_core::model::{TypeIndex, TypeRef};
use il2cpp_core::registration::RuntimeMetadata;
use il2cpp_core::Error;

struct TestImage {
    data: Vec<u8>,
}

impl TestImage {
    fn new(size: usize) -> Self {
        Self { data: vec![0; size] }
    }

    fn write_type(&mut self, address: u64, data: u64, type_code: u8, extra_bits: u32) {
        self.write_u64(address, data);
        self.write_u32(address + 8, u32::from(type_code) << 16 | extra_bits);
    }

    fn write_u8(&mut self, address: u64, value: u8) {
        let offset = (address - 0x1000) as usize;
        self.data[offset] = value;
    }

    fn write_u32(&mut self, address: u64, value: u32) {
        let offset = (address - 0x1000) as usize;
        self.data[offset..offset + 4].copy_from_slice(&value.to_le_bytes());
    }

    fn write_u64(&mut self, address: u64, value: u64) {
        let offset = (address - 0x1000) as usize;
        self.data[offset..offset + 8].copy_from_slice(&value.to_le_bytes());
    }

    fn build(self) -> ElfImage {
        let size = self.data.len() as u64;
        ElfImage::from_parts(
            self.data,
            Architecture::Arm64,
            Endianness::Little,
            BinaryKind::SharedObject,
            0,
            0,
            Vec::new(),
            vec![SegmentInfo {
                kind: "LOAD".to_owned(),
                file_offset: 0,
                file_size: size,
                virtual_address: 0x1000,
                virtual_size: size,
                alignment: 0x1000,
                permissions: Permissions {
                    read: true,
                    write: true,
                    execute: false,
                },
            }],
            Vec::new(),
            true,
        )
    }
}

fn empty_metadata() -> Metadata {
    let mut bytes = vec![0; 256];
    bytes[0..4].copy_from_slice(&METADATA_SANITY.to_le_bytes());
    bytes[4..8].copy_from_slice(&31_u32.to_le_bytes());
    Metadata::from_bytes(&bytes).unwrap()
}

#[test]
fn resolves_primitive_and_composite_runtime_types() {
    let mut image = TestImage::new(0x400);
    image.write_type(0x1000, 0, 0x08, 0);
    image.write_type(0x1010, 0, 0x09, 0);
    image.write_type(0x1020, 0x1000, 0x0f, 0);
    image.write_type(0x1030, 0x1000, 0x1d, 0);
    image.write_type(0x1040, 0, 0x08, 1 << 29);
    image.write_type(0x1050, 0x1100, 0x14, 0);
    image.write_u64(0x1100, 0x1000);
    image.write_u8(0x1108, 2);
    image.write_type(0x1060, 0x1200, 0x15, 0);
    image.write_u64(0x1200, 0x1000);
    image.write_u64(0x1208, 0x1220);
    image.write_u32(0x1220, 1);
    image.write_u64(0x1228, 0x1240);
    image.write_u64(0x1240, 0x1010);
    image.write_type(0x1070, 0, 0x7f, 0);
    let image = image.build();
    let metadata = empty_metadata();
    let runtime = RuntimeMetadata::new(
        vec![
            0x1000, 0x1010, 0x1020, 0x1030, 0x1040, 0x1050, 0x1060, 0x1070,
        ],
        Vec::new(),
    );
    let resolver = TypeResolver::with_runtime(&metadata, &image, &runtime);

    assert_eq!(resolver.resolve(TypeIndex(0)).unwrap(), TypeRef::I32);
    assert_eq!(resolver.resolve(TypeIndex(1)).unwrap(), TypeRef::U32);
    assert_eq!(
        resolver.resolve(TypeIndex(2)).unwrap(),
        TypeRef::Pointer(Box::new(TypeRef::I32))
    );
    assert_eq!(
        resolver.resolve(TypeIndex(3)).unwrap(),
        TypeRef::Array {
            element: Box::new(TypeRef::I32),
            rank: 1,
            zero_based: true,
        }
    );
    assert_eq!(
        resolver.resolve(TypeIndex(4)).unwrap(),
        TypeRef::ByRef(Box::new(TypeRef::I32))
    );
    assert_eq!(
        resolver.resolve(TypeIndex(5)).unwrap(),
        TypeRef::Array {
            element: Box::new(TypeRef::I32),
            rank: 2,
            zero_based: false,
        }
    );
    assert_eq!(
        resolver.resolve(TypeIndex(6)).unwrap(),
        TypeRef::GenericInstance {
            base: Box::new(TypeRef::I32),
            arguments: vec![TypeRef::U32],
        }
    );
    assert_eq!(
        resolver.resolve(TypeIndex(7)).unwrap(),
        TypeRef::Unknown {
            type_index: None,
            raw_type: Some(0x7f),
        }
    );
    assert!(matches!(
        resolver.resolve(TypeIndex(99)),
        Err(Error::InvalidTypeIndex(99))
    ));
}

#[test]
fn rejects_recursive_malformed_runtime_type() {
    let mut image = TestImage::new(0x100);
    image.write_type(0x1000, 0x1000, 0x0f, 0);
    let image = image.build();
    let metadata = empty_metadata();
    let runtime = RuntimeMetadata::new(vec![0x1000], Vec::new());
    let resolver = TypeResolver::with_runtime(&metadata, &image, &runtime);

    assert!(matches!(
        resolver.resolve(TypeIndex(0)),
        Err(Error::RecursiveTypeReference(0x1000))
    ));
}

#[test]
fn attributes_come_from_the_low_half_of_the_record_word() {
    let mut image = TestImage::new(0x100);
    image.write_type(0x1000, 0, 0x08, 0x0006);
    let image = image.build();
    let metadata = empty_metadata();
    let runtime = RuntimeMetadata::new(vec![0x1000], Vec::new());
    let resolver = TypeResolver::with_runtime(&metadata, &image, &runtime);

    assert_eq!(resolver.attributes(TypeIndex(0)).unwrap(), 0x0006);
    assert!(matches!(
        resolver.attributes(TypeIndex(1)),
        Err(Error::InvalidTypeIndex(1))
    ));
}

#[test]
fn metadata_only_resolver_reports_unknown_types() {
    let metadata = empty_metadata();
    let resolver = TypeResolver::<ElfImage>::metadata_only(&metadata);

    assert!(!resolver.has_runtime_types());
    assert_eq!(
        resolver.resolve(TypeIndex(3)).unwrap(),
        TypeRef::Unknown {
            type_index: Some(3),
            raw_type: None,
        }
    );
    assert_eq!(resolver.attributes(TypeIndex(3)).unwrap(), 0);
}

#[test]
fn resolved_table_must_match_its_attributes() {
    let metadata = empty_metadata();
    let types = vec![TypeRef::I32, TypeRef::String];
    let attributes = vec![1_u16];
    assert!(matches!(
        TypeResolver::<ElfImage>::from_resolved(&metadata, &types, Some(&attributes)),
        Err(Error::InvalidMetadataTable(_))
    ));
    let attributes = vec![1_u16, 2];
    let resolver =
        TypeResolver::<ElfImage>::from_resolved(&metadata, &types, Some(&attributes)).unwrap();
    assert_eq!(resolver.resolve(TypeIndex(1)).unwrap(), TypeRef::String);
    assert_eq!(resolver.attributes(TypeIndex(1)).unwrap(), 2);
    assert!(matches!(
        resolver.resolve(TypeIndex(2)),
        Err(Error::InvalidTypeIndex(2))
    ));
}

#[test]
fn resolver_without_an_image_cannot_read_records() {
    let metadata = empty_metadata();
    let image = TestImage::new(0x10).build();
    let runtime = RuntimeMetadata::new(vec![0x5000], Vec::new());
    let resolver = TypeResolver::with_runtime(&metadata, &image, &runtime);
    assert!(matches!(
        resolver.resolve(TypeIndex(0)),
        Err(Error::AddressTranslationFailed)
    ));
}
