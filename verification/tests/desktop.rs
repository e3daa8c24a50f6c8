use il2cpp_core::analysis::Il2CppProject;
use il2cpp_core::desktop::history::NavigationHistory;
use il2cpp_core::desktop::navigation::{
    parse_address, AddressTarget, NavigationTarget, TabClosed, TabState,
};
use il2cpp_core::desktop::recent::{RecentProjects, RECENT_LIMIT};
use il2cpp_core::desktop::state::{
    build_search_entries, display_type_name, format_hex, format_token, search, SearchMatch,
    SearchResult,
};
use il2cpp_core::desktop::tree::{build_namespaces, filter_tree, split_namespace, NavigationIndex};
use il2cpp_core::desktop::views::{literal_preview, StringFilter};
use il2cpp_core::metadata::{Metadata, METADATA_SANITY};
use il2cpp_core::model::{StringLiteral, StringLiteralId};
use il2cpp_core::model::{MethodId, TypeId};

const STRINGS_PAIR: usize = 2;
const PROPERTIES_PAIR: usize = 4;
const METHODS_PAIR: usize = 5;
const PARAMETERS_PAIR: usize = 10;
const FIELDS_PAIR: usize = 11;
const GENERIC_PARAMETERS_PAIR: usize = 12;
const GENERIC_CONSTRAINTS_PAIR: usize = 13;
const GENERIC_CONTAINERS_PAIR: usize = 14;
const INTERFACES_PAIR: usize = 16;
const TYPES_PAIR: usize = 19;
const IMAGES_PAIR: usize = 20;
const ASSEMBLIES_PAIR: usize = 21;

#[test]
fn parses_hex_formats() {
    assert_eq!(parse_address("0x18F4520"), Ok(0x18F4520));
    assert_eq!(parse_address("18F4520"), Ok(0x18F4520));
    assert!(parse_address("oops").is_err());
}

#[test]
fn address_parsing_reports_missing_and_invalid_input() {
    assert_eq!(parse_address("   "), Err("Address is required."));
    assert_eq!(parse_address("0xZZ"), Err("Invalid hexadecimal address."));
    assert_eq!(parse_address("  0X1f  "), Ok(0x1f));
}

#[test]
fn tabs_close_to_neighbour() {
    let mut tabs = TabState::default();
    tabs.open(NavigationTarget::ProjectOverview, "Project".into());
    tabs.open(NavigationTarget::Address(AddressTarget::Rva(1)), "1".into());
    tabs.close(1);
    assert_eq!(tabs.active, Some(0));
}

#[test]
fn reopening_a_target_activates_its_tab() {
    let mut tabs = TabState::default();
    tabs.open(NavigationTarget::ProjectOverview, "Project".into());
    tabs.open(NavigationTarget::Address(AddressTarget::Rva(1)), "1".into());
    tabs.open(NavigationTarget::ProjectOverview, "Again".into());
    assert_eq!(tabs.tabs.len(), 2);
    assert_eq!(tabs.active, Some(0));
    assert_eq!(tabs.tabs[0].title, "Project");
}

#[test]
fn history_back_forward_and_clear() {
    let mut h = NavigationHistory::default();
    h.navigate(NavigationTarget::ProjectOverview);
    h.navigate(NavigationTarget::Address(AddressTarget::Rva(1)));
    assert!(h.can_back());
    assert_eq!(h.back(), Some(NavigationTarget::ProjectOverview));
    assert!(h.can_forward());
    h.navigate(NavigationTarget::Address(AddressTarget::Rva(2)));
    assert!(!h.can_forward());
    assert!(!h.navigate(NavigationTarget::Address(AddressTarget::Rva(2))));
}

#[test]
fn forward_returns_to_where_back_left() {
    let mut h = NavigationHistory::default();
    h.navigate(NavigationTarget::ProjectOverview);
    h.navigate(NavigationTarget::Type(TypeId(3)));
    assert_eq!(h.back(), Some(NavigationTarget::ProjectOverview));
    assert_eq!(h.forward(), Some(NavigationTarget::Type(TypeId(3))));
    assert_eq!(h.forward(), None);
}

#[test]
fn recent_deduplicates_and_limits() {
    let mut recent = RecentProjects::default();
    for index in 0..12 {
        recent.remember(format!("b{index}"), format!("m{index}"), index);
    }
    assert_eq!(recent.projects.len(), RECENT_LIMIT);
}

#[test]
fn remembering_a_pair_again_moves_it_first() {
    let mut recent = RecentProjects::default();
    recent.remember("a".to_owned(), "x".to_owned(), 1);
    recent.remember("b".to_owned(), "y".to_owned(), 2);
    recent.remember("a".to_owned(), "x".to_owned(), 3);
    assert_eq!(recent.projects.len(), 2);
    assert_eq!(recent.projects[0].binary, "a");
    assert_eq!(recent.projects[0].opened_unix_seconds, 3);
    assert_eq!(recent.projects[1].binary, "b");
}

#[test]
fn formats_addresses_consistently() {
    assert_eq!(format_hex(Some(0x18f_4520)), "0x018F4520");
    assert_eq!(format_hex(None), "-");
    assert_eq!(format_token(0x0600_1234), "0x06001234");
}

#[test]
fn search_is_case_insensitive_and_limited() {
    let entries = vec![SearchMatch {
        result: SearchResult::Type(TypeId(0)),
        label: "Game.Player.PlayerController".to_owned(),
        kind: "Type",
        searchable: "game.player.playercontroller".to_owned(),
    }];
    let (matches, limited) = search(&entries, "playercontroller");
    assert_eq!(matches.len(), 1);
    assert!(!limited);
}

#[test]
fn search_prefix_and_ranking_are_deterministic() {
    let entries = vec![
        SearchMatch {
            result: SearchResult::Type(TypeId(0)),
            label: "SomePlayerControllerFactory".to_owned(),
            kind: "Type",
            searchable: "someplayercontrollerfactory".to_owned(),
        },
        SearchMatch {
            result: SearchResult::Type(TypeId(1)),
            label: "PlayerController".to_owned(),
            kind: "Type",
            searchable: "playercontroller".to_owned(),
        },
        SearchMatch {
            result: SearchResult::Method(MethodId(0)),
            label: "PlayerController::Move".to_owned(),
            kind: "Method",
            searchable: "playercontroller::move".to_owned(),
        },
    ];
    let (matches, _) = search(&entries, "type:PlayerController");
    assert_eq!(matches.len(), 2);
    assert_eq!(matches[0].label, "PlayerController");
}

#[test]
fn search_stops_at_its_limit() {
    let entries: Vec<SearchMatch> = (0..150)
        .map(|index| SearchMatch {
            result: SearchResult::Type(TypeId(index)),
            label: format!("Item{index}"),
            kind: "Type",
            searchable: format!("item{index}"),
        })
        .collect();
    let (matches, limited) = search(&entries, "item");
    assert_eq!(matches.len(), 100);
    assert!(limited);
    let (none, limited) = search(&entries, "   ");
    assert!(none.is_empty());
    assert!(!limited);
}

#[test]
fn namespaces_split_at_dots_without_empty_segments() {
    assert_eq!(split_namespace("Game..Player."), vec!["Game".to_owned(), "Player".to_owned()]);
    assert!(split_namespace("").is_empty());
}

fn with_types(names: &[(&str, &str)]) -> Metadata {
    let mut metadata = Metadata::from_bytes(&minimal_metadata()).expect("minimal metadata");
    let template = metadata.types[0].clone();
    metadata.types.clear();
    for (index, (namespace, name)) in names.iter().enumerate() {
        let mut ty = template.clone();
        ty.id = TypeId(index);
        ty.namespace = (*namespace).to_owned();
        ty.name = (*name).to_owned();
        metadata.types.push(ty);
    }
    metadata
}

#[test]
fn namespace_tree_sorts_children_and_types_by_name() {
    let metadata = with_types(&[
        ("Game.Ui", "Window"),
        ("Game", "Zeta"),
        ("", "Root"),
        ("Game", "Alpha"),
        ("Audio", "Mixer"),
        ("Game", "Alpha"),
    ]);
    let ids: Vec<TypeId> = (0..6).map(TypeId).collect();
    let tree = build_namespaces(&ids, &metadata);
    assert_eq!(tree.types, vec![TypeId(2)]);
    let names: Vec<&str> = tree.children.iter().map(|(name, _)| name.as_str()).collect();
    assert_eq!(names, vec!["Audio", "Game"]);
    let game = &tree.children[1].1;
    assert_eq!(game.types, vec![TypeId(3), TypeId(5), TypeId(1)]);
    assert_eq!(game.children.len(), 1);
    assert_eq!(game.children[0].0, "Ui");
    assert_eq!(game.children[0].1.types, vec![TypeId(0)]);
}

#[test]
fn navigation_lists_each_assembly_with_its_namespaces() {
    let project = Il2CppProject::load_metadata_only(&minimal_metadata()).expect("project");
    let navigation = NavigationIndex::build(&project);
    assert_eq!(navigation.assemblies.len(), 1);
    assert_eq!(navigation.assemblies[0].name, "Test");
    let root = &navigation.assemblies[0].namespaces;
    assert!(root.types.is_empty());
    assert_eq!(root.children[0].0, "Ns");
    assert_eq!(root.children[0].1.types, vec![TypeId(0)]);
}

#[test]
fn search_entries_cover_assemblies_types_members() {
    let project = Il2CppProject::load_metadata_only(&minimal_metadata()).expect("project");
    assert_eq!(display_type_name(&project, TypeId(0)), "Ns.Type");
    let entries = build_search_entries(&project);
    let labels: Vec<&str> = entries.iter().map(|entry| entry.label.as_str()).collect();
    assert!(labels.contains(&"Test"));
    assert!(labels.contains(&"Ns.Type"));
    let (hits, _) = search(&entries, "type:ns.type");
    assert_eq!(hits[0].label, "Ns.Type");
}

fn minimal_metadata() -> Vec<u8> {
    let mut data = vec![0_u8; 256];
    write_u32(&mut data, 0, METADATA_SANITY);
    write_u32(&mut data, 4, 31);

    add_table(
        &mut data,
        STRINGS_PAIR,
        b"\0Test.dll\0Test\0Ns\0Type\0field\0Method\0param\0Property\0T\0",
    );

    let mut property = vec![0_u8; 20];
    write_u32(&mut property, 0, 42);
    write_i32(&mut property, 4, 0);
    write_i32(&mut property, 8, -1);
    write_u32(&mut property, 16, 0x1700_0001);
    add_table(&mut data, PROPERTIES_PAIR, &property);

    let mut method = vec![0_u8; 36];
    write_u32(&mut method, 0, 29);
    write_i32(&mut method, 4, 0);
    write_i32(&mut method, 8, 0);
    write_u32(&mut method, 12, 0x0800_0001);
    write_i32(&mut method, 16, 0);
    write_i32(&mut method, 20, -1);
    write_u32(&mut method, 24, 0x0600_0001);
    write_u16(&mut method, 34, 1);
    add_table(&mut data, METHODS_PAIR, &method);

    let mut parameter = vec![0_u8; 12];
    write_u32(&mut parameter, 0, 36);
    write_u32(&mut parameter, 4, 0x0800_0002);
    write_i32(&mut parameter, 8, 0);
    add_table(&mut data, PARAMETERS_PAIR, &parameter);

    let mut field = vec![0_u8; 12];
    write_u32(&mut field, 0, 23);
    write_i32(&mut field, 4, 0);
    write_u32(&mut field, 8, 0x0400_0001);
    add_table(&mut data, FIELDS_PAIR, &field);

    let mut generic_parameter = vec![0_u8; 16];
    write_i32(&mut generic_parameter, 0, 0);
    write_u32(&mut generic_parameter, 4, 51);
    write_i16(&mut generic_parameter, 8, -1);
    add_table(&mut data, GENERIC_PARAMETERS_PAIR, &generic_parameter);
    add_table(&mut data, GENERIC_CONSTRAINTS_PAIR, &[]);

    let mut generic_container = vec![0_u8; 16];
    write_i32(&mut generic_container, 0, 0);
    write_i32(&mut generic_container, 4, 1);
    write_i32(&mut generic_container, 8, 0);
    write_i32(&mut generic_container, 12, 0);
    add_table(&mut data, GENERIC_CONTAINERS_PAIR, &generic_container);

    let mut interface = vec![0_u8; 4];
    write_i32(&mut interface, 0, 0);
    add_table(&mut data, INTERFACES_PAIR, &interface);

    let mut ty = vec![0_u8; 88];
    write_u32(&mut ty, 0, 18);
    write_u32(&mut ty, 4, 15);
    write_i32(&mut ty, 12, -1);
    write_i32(&mut ty, 16, -1);
    write_i32(&mut ty, 20, -1);
    write_i32(&mut ty, 24, 0);
    write_i32(&mut ty, 32, 0);
    write_i32(&mut ty, 36, 0);
    write_i32(&mut ty, 44, 0);
    write_i32(&mut ty, 52, 0);
    write_u16(&mut ty, 64, 1);
    write_u16(&mut ty, 66, 1);
    write_u16(&mut ty, 68, 1);
    write_u16(&mut ty, 76, 1);
    add_table(&mut data, TYPES_PAIR, &ty);

    let mut image = vec![0_u8; 40];
    write_u32(&mut image, 0, 1);
    write_i32(&mut image, 4, 0);
    write_i32(&mut image, 8, 0);
    write_u32(&mut image, 12, 1);
    add_table(&mut data, IMAGES_PAIR, &image);

    let mut assembly = vec![0_u8; 64];
    write_i32(&mut assembly, 0, 0);
    write_u32(&mut assembly, 16, 10);
    add_table(&mut data, ASSEMBLIES_PAIR, &assembly);
    data
}

fn add_table(data: &mut Vec<u8>, pair: usize, bytes: &[u8]) {
    let offset = data.len() as u32;
    write_u32(data, pair_offset(pair), offset);
    write_u32(data, pair_offset(pair) + 4, bytes.len() as u32);
    data.extend_from_slice(bytes);
}

const fn pair_offset(pair: usize) -> usize {
    8 + pair * 8
}

fn read_u32(data: &[u8], offset: usize) -> u32 {
    u32::from_le_bytes(data[offset..offset + 4].try_into().expect("four bytes"))
}

fn write_u16(data: &mut [u8], offset: usize, value: u16) {
    data[offset..offset + 2].copy_from_slice(&value.to_le_bytes());
}

fn write_i16(data: &mut [u8], offset: usize, value: i16) {
    data[offset..offset + 2].copy_from_slice(&value.to_le_bytes());
}

fn write_u32(data: &mut [u8], offset: usize, value: u32) {
    data[offset..offset + 4].copy_from_slice(&value.to_le_bytes());
}

fn write_i32(data: &mut [u8], offset: usize, value: i32) {
    data[offset..offset + 4].copy_from_slice(&value.to_le_bytes());
}

#[test]
fn displayed_addresses_parse_back() {
    for value in [0_u64, 0x18f_4520, 0xffff_ffff, 0x1_0000_0000, u64::MAX] {
        assert_eq!(parse_address(&format_hex(Some(value))), Ok(value));
    }
}

#[test]
fn tree_membership_and_filter() {
    let metadata = with_types(&[("Game.Ui", "Window"), ("", "Root")]);
    let ids: Vec<TypeId> = (0..2).map(TypeId).collect();
    let tree = build_namespaces(&ids, &metadata);
    assert!(tree.contains(TypeId(0)));
    assert!(tree.contains(TypeId(1)));
    assert!(!tree.contains(TypeId(7)));
    assert!(tree.children[0].1.contains(TypeId(0)));
    assert!(!tree.children[0].1.contains(TypeId(1)));

    let project = Il2CppProject::load_metadata_only(&minimal_metadata()).expect("project");
    let navigation = NavigationIndex::build(&project);
    assert_eq!(
        filter_tree(&project, &navigation.assemblies, "  NS.t "),
        Some(vec![(TypeId(0), "Test: ns.type".to_owned())])
    );
    assert_eq!(filter_tree(&project, &navigation.assemblies, "   "), None);
    assert_eq!(filter_tree(&project, &navigation.assemblies, "zzz"), Some(Vec::new()));
}

fn literal(value: &str) -> StringLiteral {
    StringLiteral {
        id: StringLiteralId(0),
        value: value.to_owned(),
        metadata_index: 0,
        data_index: 0,
        byte_length: value.len() as u32,
        metadata_file_offset: None,
        valid_utf8: true,
    }
}

#[test]
fn strings_view_filters_and_previews_literals() {
    let url = literal("https://example.com");
    let empty = literal("");
    let text = literal("line\nnext");
    assert!(StringFilter::All.accepts(&empty));
    assert!(!StringFilter::NonEmpty.accepts(&empty));
    assert!(StringFilter::NonEmpty.accepts(&text));
    assert!(StringFilter::Urls.accepts(&url));
    assert!(!StringFilter::Urls.accepts(&text));
    assert_eq!(literal_preview(&empty), "<empty>");
    assert_eq!(literal_preview(&text), "line\\nnext");
    let long = literal(&"a".repeat(90));
    assert_eq!(literal_preview(&long), format!("{}...", "a".repeat(80)));
}

#[test]
fn remembering_compares_paths_by_component() {
    let mut recent = RecentProjects::default();
    recent.remember("game/lib/".to_owned(), "data//meta.dat".to_owned(), 1);
    recent.remember("game/lib".to_owned(), "data/meta.dat".to_owned(), 2);
    assert_eq!(recent.projects.len(), 1);
    assert_eq!(recent.projects[0].binary, "game/lib");
    assert_eq!(recent.projects[0].opened_unix_seconds, 2);
}

#[test]
fn tab_ids_increase_with_each_new_tab() {
    let mut tabs = TabState::default();
    tabs.open(NavigationTarget::ProjectOverview, "Project".into());
    tabs.open(NavigationTarget::Address(AddressTarget::Rva(1)), "1".into());
    tabs.open(NavigationTarget::ProjectOverview, "Again".into());
    assert_eq!(tabs.tabs[0].id, 1);
    assert_eq!(tabs.tabs[1].id, 2);
    assert_eq!(tabs.next_id, 2);
    tabs.close(0);
    tabs.replace_active(NavigationTarget::Address(AddressTarget::Va(5)), "5".into());
    assert_eq!(tabs.tabs[0].id, 2);
    assert_eq!(tabs.next_id, 2);
}

#[test]
fn closing_the_active_tab_shows_the_next_one() {
    let mut tabs = TabState::default();
    assert_eq!(tabs.close_active(), TabClosed::NothingActive);
    tabs.open(NavigationTarget::ProjectOverview, "Project".into());
    tabs.open(NavigationTarget::Type(TypeId(3)), "T".into());
    tabs.open(NavigationTarget::Method(MethodId(7)), "M".into());
    tabs.active = Some(1);
    assert_eq!(
        tabs.close_active(),
        TabClosed::Show(NavigationTarget::Method(MethodId(7)))
    );
    assert_eq!(tabs.active, Some(1));
    assert_eq!(
        tabs.close_active(),
        TabClosed::Show(NavigationTarget::ProjectOverview)
    );
    assert_eq!(tabs.active, Some(0));
    assert_eq!(tabs.close_active(), TabClosed::Overview);
    assert!(tabs.tabs.is_empty());
    assert_eq!(tabs.active, None);
    assert_eq!(tabs.next_id, 3);
}
