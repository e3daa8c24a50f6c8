use il2cpp_core::binary::{
    Architecture, BinaryFormat, BinaryImage, BinaryKind, ElfImage, Endianness, Permissions,
    RelativeRelocation, SegmentInfo,
};
use il2cpp_core::cli::{
    disassembly_window, DisasmAddressError,
    display_rva, ensure_arm64, find_methods, format_native_address, full_method_name,
    full_type_name, inspect_address, list_types, method_signature, parse_address, select_method,
    short_method_name, types_named, validate_method_selector, validate_window_size,
    AddressLookupError, MethodSelectionError,
};
use il2cpp_core::desktop::address::{address_details, nearest_method_before};
use il2cpp_core::desktop::navigation::{AddressTarget, NavigationTarget};
use il2cpp_core::desktop::selection::{
    go_to_address, navigation_title, restore_target, search_results_for, search_target,
    stable_target, AddressKind, Selection, StableTarget,
};
use il2cpp_core::analysis::Il2CppProject;
use il2cpp_core::desktop::state::{SearchMatch, SearchResult};
use il2cpp_core::desktop::views::{property_type_index, resolver};
use il2cpp_core::metadata::{Metadata, METADATA_SANITY};
use il2cpp_core::model::{FieldId, MethodId, TypeId};
use il2cpp_core::registration::{
    CodeGenModule, HeuristicResolver, ManualResolver, MethodAddress, NativeMethodIndex,
    Registration, RegistrationInfo, RegistrationResolver,
    SymbolResolver,
};
use il2cpp_core::Error;

const STRINGS_PAIR: usize = 2;
const PROPERTIES_PAIR: usize = 4;
const METHODS_PAIR: usize = 5;
const PARAMETERS_PAIR: usize = 10;
const FIELDS_PAIR: usize = 11;
const GENERIC_PARAMETERS_PAIR: usize = 12;
const GENERIC_CONSTRAINTS_PAIR: usize = 13;
const GENERIC_CONTAINERS_PAIR: usize = 14;
const INTERFACES_PAIR: usize = 16;
const TYPES_PAIR: usize = 19;
const IMAGES_PAIR: usize = 20;
const ASSEMBLIES_PAIR: usize = 21;

fn segment(kind: &str, offset: u64, size: u64, address: u64, memory: u64) -> SegmentInfo {
    SegmentInfo {
        kind: kind.to_owned(),
        file_offset: offset,
        file_size: size,
        virtual_address: address,
        virtual_size: memory,
        alignment: 0x1000,
        permissions: Permissions { read: true, write: false, execute: true },
    }
}

fn image(data: Vec<u8>, segments: Vec<SegmentInfo>, relocations: Vec<RelativeRelocation>) -> ElfImage {
    ElfImage::from_parts(
        data,
        Architecture::Arm64,
        Endianness::Little,
        BinaryKind::SharedObject,
        0x1010,
        3,
        Vec::new(),
        segments,
        relocations,
        false,
    )
}

fn metadata() -> Metadata {
    Metadata::from_bytes(&minimal_metadata()).expect("minimal metadata")
}

#[test]
fn manual_resolver_keeps_supplied_addresses() {
    let registration = Registration {
        code_registration: Some(0x4000),
        metadata_registration: None,
    };
    let binary = image(vec![0; 16], Vec::new(), Vec::new());
    let metadata = metadata();
    let resolver = ManualResolver::new(registration);
    assert_eq!(resolver.resolve(&binary, &metadata), Ok(registration));
    assert_eq!(
        HeuristicResolver.resolve(&binary, &metadata),
        Err(Error::RegistrationNotFound)
    );
    assert_eq!(SymbolResolver.resolve(&binary, &metadata), Err(Error::RegistrationNotFound));
}

#[test]
fn elf_parts_translate_between_file_and_memory() {
    let data: Vec<u8> = (0..0x40u8).collect();
    let binary = image(
        data,
        vec![
            segment("LOAD", 0x10, 0x20, 0x2000, 0x30),
            segment("LOAD", 0x0, 0x10, 0x1000, 0x10),
            segment("DYNAMIC", 0x0, 0x40, 0x9000, 0x40),
        ],
        vec![
            RelativeRelocation { address: 0x2008, addend: 7 },
            RelativeRelocation { address: 0x2000, addend: 5 },
        ],
    );
    assert_eq!(binary.format(), BinaryFormat::Elf64);
    assert!(ensure_arm64(&binary).is_ok());
    assert_eq!(binary.image_base(), 0x1000);
    assert_eq!(binary.entry_point(), 0x1010);
    assert_eq!(binary.section_count(), 3);
    assert!(!binary.is_stripped());
    assert_eq!(binary.virtual_to_offset(0x2004), Some(0x14));
    assert_eq!(binary.virtual_to_offset(0x1004), Some(0x4));
    assert_eq!(binary.virtual_to_offset(0x2025), None);
    assert_eq!(binary.virtual_to_offset(0x9000), None);
    assert_eq!(binary.offset_to_virtual(0x14), Some(0x2004));
    assert_eq!(binary.offset_to_virtual(0x4), Some(0x1004));
    assert_eq!(binary.offset_to_virtual(0x3f), None);
    assert_eq!(binary.read_virtual(0x2002, 3), Ok(&[0x12u8, 0x13, 0x14][..]));
    assert_eq!(binary.read_virtual(0x201e, 4), Err(Error::AddressTranslationFailed));
    let relocations: Vec<u64> = binary
        .relative_relocations()
        .iter()
        .map(|relocation| relocation.address)
        .collect();
    assert_eq!(relocations, vec![0x2000, 0x2008]);
}

#[test]
fn names_and_permissions_read_as_the_tools_print_them() {
    assert_eq!(Architecture::Arm64.name(), "AArch64");
    assert_eq!(Endianness::Big.name(), "Big");
    assert_eq!(BinaryKind::SharedObject.name(), "Shared Object");
    assert_eq!(BinaryFormat::Elf64.name(), "ELF64");
    let permissions = Permissions { read: true, write: false, execute: true };
    assert_eq!(permissions.letters(), "R-X");
}

#[test]
fn command_line_names_and_addresses() {
    let metadata = metadata();
    assert_eq!(full_type_name(&metadata.types[0]), "Ns.Type");
    let method = &metadata.methods[0];
    assert_eq!(full_method_name(&metadata, method), "Ns.Type::Method");
    assert_eq!(short_method_name(&metadata, method), "Type::Method");
    assert_eq!(method_signature(&metadata, method), "Ns.Type::Method(...)");
    assert_eq!(parse_address("0X1f"), Some(0x1f));
    assert_eq!(parse_address("42"), Some(42));
    assert_eq!(parse_address("0xnope"), None);
    assert_eq!(display_rva(0x1234, 0x1000), 0x234);
    assert_eq!(format_native_address(0x1010, 0x1000), "RVA 0x10");
    assert_eq!(format_native_address(0x5, 0x1000), "VA 0x5");
    assert!(validate_window_size(4).is_ok());
    assert!(validate_window_size(3).is_err());
    assert!(validate_method_selector(None, None).is_err());
    assert!(validate_method_selector(Some("Method"), None).is_ok());
}

#[test]
fn method_lookup_by_index_or_name() {
    let metadata = metadata();
    assert_eq!(find_methods(&metadata, "0").len(), 1);
    assert!(find_methods(&metadata, "7").is_empty());
    assert_eq!(find_methods(&metadata, "TYPE::meth").len(), 1);
    assert!(find_methods(&metadata, "absent").is_empty());
    assert!(select_method(&metadata, None, Some(0)).is_ok());
    assert_eq!(
        select_method(&metadata, None, Some(9)).unwrap_err(),
        MethodSelectionError::OutOfRange(9)
    );
    assert_eq!(
        select_method(&metadata, None, None).unwrap_err(),
        MethodSelectionError::MissingQuery
    );
    assert!(matches!(
        select_method(&metadata, Some("absent"), None),
        Err(MethodSelectionError::NoMatch)
    ));
}

#[test]
fn type_listing_filters_and_limits() {
    let mut metadata = metadata();
    let template = metadata.types[0].clone();
    for index in 1..60 {
        let mut ty = template.clone();
        ty.id = TypeId(index);
        ty.name = format!("Extra{index}");
        metadata.types.push(ty);
    }
    let (shown, total) = list_types(&metadata, None, false);
    assert_eq!(total, 60);
    assert_eq!(shown.len(), 50);
    let (shown, total) = list_types(&metadata, None, true);
    assert_eq!((shown.len(), total), (60, 60));
    let (shown, total) = list_types(&metadata, Some("NS.EXTRA5"), false);
    assert_eq!(total, 11);
    assert_eq!(shown[0], 5);
    assert_eq!(types_named(&metadata, "Type"), vec![0]);
    assert_eq!(types_named(&metadata, "Ns.Extra7"), vec![7]);
    assert!(types_named(&metadata, "Extra").is_empty());
}

#[test]
fn address_inspection_reports_mapping() {
    let metadata = metadata();
    let binary = image(vec![0; 0x40], vec![segment("LOAD", 0, 0x40, 0x1000, 0x80)], Vec::new());
    let registration = RegistrationInfo {
        registration: Registration::default(),
        codegen_modules: 0,
        modules: Vec::new(),
    };
    assert_eq!(
        inspect_address(&binary, &metadata, &registration, 0x800).unwrap_err(),
        AddressLookupError::BelowImageBase
    );
    assert_eq!(
        inspect_address(&binary, &metadata, &registration, 0x1080).unwrap_err(),
        AddressLookupError::NotMapped
    );
    assert_eq!(
        inspect_address(&binary, &metadata, &registration, 0x1050).unwrap_err(),
        AddressLookupError::Resolution(Error::RegistrationNotFound)
    );
    let registration = RegistrationInfo {
        registration: Registration::default(),
        codegen_modules: 0x1000,
        modules: vec![CodeGenModule {
            address: 0x1000,
            name: "Test.dll".to_owned(),
            method_pointer_count: 1,
            method_pointers: None,
        }],
    };
    let report = inspect_address(&binary, &metadata, &registration, 0x1050).expect("mapped");
    assert_eq!(report.virtual_address, 0x1050);
    assert_eq!(report.relative_address, 0x50);
    assert_eq!(report.file_offset, None);
    assert_eq!(report.segment, 0);
    assert!(report.methods.is_empty());
    let report = inspect_address(&binary, &metadata, &registration, 0x1010).expect("mapped");
    assert_eq!(report.file_offset, Some(0x10));
}

#[test]
fn selection_follows_navigation() {
    let metadata = metadata();
    let mut selection = Selection::new();
    selection.apply_selection(Some(&metadata), NavigationTarget::Method(MethodId(0)));
    assert_eq!(selection.selected_type, Some(TypeId(0)));
    assert_eq!(selection.selected_method, Some(MethodId(0)));
    assert_eq!(selection.tree_focus, Some(TypeId(0)));
    selection.apply_selection(Some(&metadata), NavigationTarget::Field(FieldId(0)));
    assert_eq!(selection.selected_method, None);
    assert_eq!(selection.selected_type, Some(TypeId(0)));
    selection.apply_selection(None, NavigationTarget::Address(AddressTarget::Va(9)));
    assert_eq!(selection.selected_address, Some(AddressTarget::Va(9)));
    assert_eq!(selection.selected_type, None);
    selection.apply_selection(None, NavigationTarget::Method(MethodId(0)));
    assert_eq!(selection.selected_address, None);
    assert_eq!(selection.selected_method, None);
}

#[test]
fn tab_titles_name_what_they_show() {
    let metadata = metadata();
    assert_eq!(navigation_title(None, NavigationTarget::ProjectOverview), "Project");
    assert_eq!(navigation_title(Some(&metadata), NavigationTarget::Type(TypeId(0))), "Ns.Type");
    assert_eq!(navigation_title(None, NavigationTarget::Type(TypeId(0))), "Type");
    assert_eq!(navigation_title(Some(&metadata), NavigationTarget::Method(MethodId(5))), "Method");
    assert_eq!(navigation_title(Some(&metadata), NavigationTarget::Method(MethodId(0))), "Method");
    assert_eq!(
        navigation_title(None, NavigationTarget::Address(AddressTarget::Rva(4096))),
        format!("{:?}", AddressTarget::Rva(4096))
    );
    assert_eq!(
        navigation_title(None, NavigationTarget::Address(AddressTarget::FileOffset(0))),
        "FileOffset(0)"
    );
    assert_eq!(
        search_target(SearchResult::Address(7)),
        NavigationTarget::Address(AddressTarget::Rva(7))
    );
}

#[test]
fn selection_survives_reloading() {
    let metadata = metadata();
    let stable = stable_target(Some(&metadata), Some(MethodId(0)), None).expect("method");
    assert!(matches!(stable, StableTarget::Method { parameters: 1, .. }));
    assert_eq!(
        restore_target(Some(&metadata), &stable),
        Some(NavigationTarget::Method(MethodId(0)))
    );
    let ty = stable_target(Some(&metadata), Some(MethodId(4)), Some(TypeId(0))).expect("type");
    assert_eq!(restore_target(Some(&metadata), &ty), Some(NavigationTarget::Type(TypeId(0))));
    assert!(stable_target(None, Some(MethodId(0)), None).is_none());
    let missing = StableTarget::Type { namespace: "Ns".to_owned(), name: "Other".to_owned() };
    assert_eq!(restore_target(Some(&metadata), &missing), None);
}

#[test]
fn address_queries_jump_to_the_address() {
    let entries = vec![SearchMatch {
        result: SearchResult::Type(TypeId(0)),
        label: "Ns.Type".to_owned(),
        kind: "Type",
        searchable: "ns.type".to_owned(),
    }];
    let (hits, limited) = search_results_for(&entries, "addr:0x1f4520");
    assert_eq!(hits.len(), 1);
    assert_eq!(hits[0].result, SearchResult::Address(0x1f4520));
    assert_eq!(hits[0].label, "RVA 0x001F4520");
    assert!(!limited);
    let (hits, _) = search_results_for(&entries, "addr:zz");
    assert!(hits.is_empty());
    let (hits, _) = search_results_for(&entries, "type");
    assert_eq!(hits.len(), 1);
}

fn minimal_metadata() -> Vec<u8> {
    let mut data = vec![0_u8; 256];
    write_u32(&mut data, 0, METADATA_SANITY);
    write_u32(&mut data, 4, 31);

    add_table(
        &mut data,
        STRINGS_PAIR,
        b"\0Test.dll\0Test\0Ns\0Type\0field\0Method\0param\0Property\0T\0",
    );

    let mut property = vec![0_u8; 20];
    write_u32(&mut property, 0, 42);
    write_i32(&mut property, 4, 0);
    write_i32(&mut property, 8, -1);
    write_u32(&mut property, 16, 0x1700_0001);
    add_table(&mut data, PROPERTIES_PAIR, &property);

    let mut method = vec![0_u8; 36];
    write_u32(&mut method, 0, 29);
    write_i32(&mut method, 4, 0);
    write_i32(&mut method, 8, 0);
    write_u32(&mut method, 12, 0x0800_0001);
    write_i32(&mut method, 16, 0);
    write_i32(&mut method, 20, -1);
    write_u32(&mut method, 24, 0x0600_0001);
    write_u16(&mut method, 34, 1);
    add_table(&mut data, METHODS_PAIR, &method);

    let mut parameter = vec![0_u8; 12];
    write_u32(&mut parameter, 0, 36);
    write_u32(&mut parameter, 4, 0x0800_0002);
    write_i32(&mut parameter, 8, 0);
    add_table(&mut data, PARAMETERS_PAIR, &parameter);

    let mut field = vec![0_u8; 12];
    write_u32(&mut field, 0, 23);
    write_i32(&mut field, 4, 0);
    write_u32(&mut field, 8, 0x0400_0001);
    add_table(&mut data, FIELDS_PAIR, &field);

    let mut generic_parameter = vec![0_u8; 16];
    write_i32(&mut generic_parameter, 0, 0);
    write_u32(&mut generic_parameter, 4, 51);
    write_i16(&mut generic_parameter, 8, -1);
    add_table(&mut data, GENERIC_PARAMETERS_PAIR, &generic_parameter);
    add_table(&mut data, GENERIC_CONSTRAINTS_PAIR, &[]);

    let mut generic_container = vec![0_u8; 16];
    write_i32(&mut generic_container, 0, 0);
    write_i32(&mut generic_container, 4, 1);
    write_i32(&mut generic_container, 8, 0);
    write_i32(&mut generic_container, 12, 0);
    add_table(&mut data, GENERIC_CONTAINERS_PAIR, &generic_container);

    let mut interface = vec![0_u8; 4];
    write_i32(&mut interface, 0, 0);
    add_table(&mut data, INTERFACES_PAIR, &interface);

    let mut ty = vec![0_u8; 88];
    write_u32(&mut ty, 0, 18);
    write_u32(&mut ty, 4, 15);
    write_i32(&mut ty, 12, -1);
    write_i32(&mut ty, 16, -1);
    write_i32(&mut ty, 20, -1);
    write_i32(&mut ty, 24, 0);
    write_i32(&mut ty, 32, 0);
    write_i32(&mut ty, 36, 0);
    write_i32(&mut ty, 44, 0);
    write_i32(&mut ty, 52, 0);
    write_u16(&mut ty, 64, 1);
    write_u16(&mut ty, 66, 1);
    write_u16(&mut ty, 68, 1);
    write_u16(&mut ty, 76, 1);
    add_table(&mut data, TYPES_PAIR, &ty);

    let mut image = vec![0_u8; 40];
    write_u32(&mut image, 0, 1);
    write_i32(&mut image, 4, 0);
    write_i32(&mut image, 8, 0);
    write_u32(&mut image, 12, 1);
    add_table(&mut data, IMAGES_PAIR, &image);

    let mut assembly = vec![0_u8; 64];
    write_i32(&mut assembly, 0, 0);
    write_u32(&mut assembly, 16, 10);
    add_table(&mut data, ASSEMBLIES_PAIR, &assembly);
    data
}

fn add_table(data: &mut Vec<u8>, pair: usize, bytes: &[u8]) {
    let offset = data.len() as u32;
    write_u32(data, pair_offset(pair), offset);
    write_u32(data, pair_offset(pair) + 4, bytes.len() as u32);
    data.extend_from_slice(bytes);
}

const fn pair_offset(pair: usize) -> usize {
    8 + pair * 8
}

fn read_u32(data: &[u8], offset: usize) -> u32 {
    u32::from_le_bytes(data[offset..offset + 4].try_into().expect("four bytes"))
}

fn write_u16(data: &mut [u8], offset: usize, value: u16) {
    data[offset..offset + 2].copy_from_slice(&value.to_le_bytes());
}

fn write_i16(data: &mut [u8], offset: usize, value: i16) {
    data[offset..offset + 2].copy_from_slice(&value.to_le_bytes());
}

fn write_u32(data: &mut [u8], offset: usize, value: u32) {
    data[offset..offset + 4].copy_from_slice(&value.to_le_bytes());
}

fn write_i32(data: &mut [u8], offset: usize, value: i32) {
    data[offset..offset + 4].copy_from_slice(&value.to_le_bytes());
}

#[test]
fn property_rows_show_accessor_types() {
    let mut metadata = metadata();
    let property = metadata.properties[0].clone();
    assert_eq!(
        property_type_index(&property, &metadata),
        Some(metadata.methods[0].return_type)
    );
    let mut setter_only = property.clone();
    setter_only.getter = None;
    setter_only.setter = Some(MethodId(0));
    let parameter = metadata.methods[0].parameters[0];
    assert_eq!(
        property_type_index(&setter_only, &metadata),
        Some(metadata.parameters[parameter.0].parameter_type)
    );
    metadata.methods[0].parameters.clear();
    assert_eq!(property_type_index(&setter_only, &metadata), None);
}

#[test]
fn views_resolve_types_from_metadata_without_a_binary() {
    let project = Il2CppProject::load_metadata_only(&minimal_metadata()).expect("project");
    assert!(!resolver(&project).has_runtime_types());
}

#[test]
fn go_to_address_reads_the_chosen_space() {
    assert_eq!(
        go_to_address(" 0x20 ", AddressKind::Va),
        Ok(NavigationTarget::Address(AddressTarget::Va(0x20)))
    );
    assert_eq!(
        go_to_address("20", AddressKind::FileOffset),
        Ok(NavigationTarget::Address(AddressTarget::FileOffset(0x20)))
    );
    assert_eq!(go_to_address("", AddressKind::Rva), Err("Address is required."));
    assert_eq!(go_to_address("0xg", AddressKind::Rva), Err("Invalid hexadecimal address."));
}

#[test]
fn address_details_translate_without_a_binary() {
    let project = Il2CppProject::load_metadata_only(&minimal_metadata()).expect("project");
    let details = address_details(&project, AddressTarget::Rva(0x10));
    assert_eq!(details.relative_address, Some(0x10));
    assert_eq!(details.virtual_address, Some(0x10));
    assert_eq!(details.file_offset, None);
    assert_eq!(details.segment, None);
    assert_eq!(details.exact_method, None);
    assert_eq!(details.nearest_method, None);
    let details = address_details(&project, AddressTarget::FileOffset(4));
    assert_eq!(details.virtual_address, None);
    assert_eq!(details.file_offset, Some(4));
}

fn mapped(method: usize, virtual_address: u64) -> MethodAddress {
    MethodAddress {
        method: MethodId(method),
        module: "Test.dll".to_owned(),
        pointer_index: method as u32,
        virtual_address,
        relative_address: virtual_address - 0x1000,
        file_offset: virtual_address - 0x1000,
    }
}

#[test]
fn nearest_method_is_the_last_highest_start_below() {
    let mut metadata = metadata();
    let template = metadata.methods[0].clone();
    for index in 1..4 {
        let mut method = template.clone();
        method.id = MethodId(index);
        metadata.methods.push(method);
    }
    let index = NativeMethodIndex::from_addresses(
        4,
        vec![mapped(0, 0x1100), mapped(1, 0x1200), mapped(2, 0x1200), mapped(3, 0x1300)],
    );
    assert_eq!(nearest_method_before(&index, &metadata.methods, 0x1250), Some((MethodId(2), 0x1200)));
    assert_eq!(nearest_method_before(&index, &metadata.methods, 0x1100), Some((MethodId(0), 0x1100)));
    assert_eq!(nearest_method_before(&index, &metadata.methods, 0x10ff), None);
}

fn tiny_elf(machine: u16) -> Vec<u8> {
    let mut data = vec![0_u8; 0x100];
    data[0..4].copy_from_slice(b"\x7fELF");
    data[4] = 2;
    data[5] = 1;
    data[6] = 1;
    data[16..18].copy_from_slice(&3_u16.to_le_bytes());
    data[18..20].copy_from_slice(&machine.to_le_bytes());
    data[20..24].copy_from_slice(&1_u32.to_le_bytes());
    data[24..32].copy_from_slice(&0x80_u64.to_le_bytes());
    data[32..40].copy_from_slice(&64_u64.to_le_bytes());
    data[52..54].copy_from_slice(&64_u16.to_le_bytes());
    data[54..56].copy_from_slice(&56_u16.to_le_bytes());
    data[56..58].copy_from_slice(&1_u16.to_le_bytes());
    data[58..60].copy_from_slice(&64_u16.to_le_bytes());
    let header = 64;
    data[header..header + 4].copy_from_slice(&1_u32.to_le_bytes());
    data[header + 4..header + 8].copy_from_slice(&5_u32.to_le_bytes());
    data[header + 16..header + 24].copy_from_slice(&0x1000_u64.to_le_bytes());
    data[header + 24..header + 32].copy_from_slice(&0x1000_u64.to_le_bytes());
    data[header + 32..header + 40].copy_from_slice(&0x100_u64.to_le_bytes());
    data[header + 40..header + 48].copy_from_slice(&0x200_u64.to_le_bytes());
    data[header + 48..header + 56].copy_from_slice(&0x1000_u64.to_le_bytes());
    data
}

#[test]
fn elf_files_parse_into_images() {
    let binary = ElfImage::parse(tiny_elf(183)).expect("tiny ELF");
    assert_eq!(binary.architecture(), Architecture::Arm64);
    assert_eq!(binary.endianness(), Endianness::Little);
    assert_eq!(binary.kind(), BinaryKind::SharedObject);
    assert_eq!(binary.entry_point(), 0x80);
    assert!(binary.is_stripped());
    assert_eq!(binary.segments().len(), 1);
    assert_eq!(binary.segments()[0].kind, "LOAD");
    assert_eq!(binary.segments()[0].virtual_address, 0x1000);
    assert_eq!(binary.segments()[0].permissions.letters(), "R-X");
    assert_eq!(binary.image_base(), 0x1000);
    assert_eq!(binary.virtual_to_offset(0x1010), Some(0x10));
    assert_eq!(binary.read_virtual(0x1000, 4), Ok(&b"\x7fELF"[..]));
    assert!(binary.relative_relocations().is_empty());

    let other = ElfImage::parse(tiny_elf(62)).expect("x86-64 ELF");
    assert_eq!(other.architecture(), Architecture::X86_64);
    assert!(ensure_arm64(&other).is_err());
    assert_eq!(ElfImage::parse(b"not an elf".to_vec()).unwrap_err(), Error::InvalidBinary);

    let project = Il2CppProject::load(tiny_elf(183), &minimal_metadata()).expect("project");
    assert_eq!(project.architecture(), Architecture::Arm64);
    assert!(RegistrationInfo::discover(project.binary(), project.metadata()).is_err());
    assert!(matches!(
        Il2CppProject::load(b"nope".to_vec(), &minimal_metadata()),
        Err(Error::InvalidBinary)
    ));
}

#[test]
fn project_discovery_repeats_the_library_search() {
    let mut project = Il2CppProject::load(tiny_elf(183), &minimal_metadata()).expect("project");
    let direct = RegistrationInfo::discover(project.binary(), project.metadata())
        .map(|info| info.registration);
    let first = project.discover_registration();
    assert_eq!(first, direct);
    assert_eq!(project.discover_registration(), first);
    assert!(project.registration().is_none());
}

#[test]
fn disassembly_window_follows_the_executable_segment() {
    let binary = ElfImage::parse(tiny_elf(183)).expect("tiny ELF");
    assert_eq!(disassembly_window(&binary, Some("0x10"), None, None, 64), Ok((0x1010, 64)));
    assert_eq!(disassembly_window(&binary, None, Some("0xf0"), None, 64), Ok((0x10f0, 16)));
    assert_eq!(disassembly_window(&binary, None, None, Some("4096"), 64), Ok((0x1000, 64)));
    assert_eq!(
        disassembly_window(&binary, None, None, Some("0x1100"), 64),
        Err(DisasmAddressError::NotExecutable)
    );
    assert_eq!(
        disassembly_window(&binary, Some("0x12"), None, None, 64),
        Err(DisasmAddressError::Misaligned)
    );
    assert_eq!(
        disassembly_window(&binary, None, None, None, 64),
        Err(DisasmAddressError::MissingAddress)
    );
    assert_eq!(
        disassembly_window(&binary, Some("0x10"), None, Some("0x1010"), 64),
        Err(DisasmAddressError::AmbiguousAddress)
    );
    assert_eq!(
        disassembly_window(&binary, Some("0x10"), None, None, 2),
        Err(DisasmAddressError::WindowTooSmall)
    );
    assert_eq!(
        disassembly_window(&binary, Some("zz"), None, None, 64),
        Err(DisasmAddressError::InvalidAddress)
    );
    assert_eq!(
        disassembly_window(&binary, None, Some("0xffffffffffffffff"), None, 64),
        Err(DisasmAddressError::RvaOverflow)
    );
}
