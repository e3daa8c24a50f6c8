use il2cpp_core::model::MethodId;
use il2cpp_core::registration::{
    method_pointer_index, MethodAddress, NativeMethodIndex,
};

#[test]
fn method_tokens_map_to_zero_based_module_slots() {
    assert_eq!(method_pointer_index(0x0600_0001), Some(0));
    assert_eq!(method_pointer_index(0x0600_0042), Some(0x41));
    assert_eq!(method_pointer_index(0x0200_0001), None);
    assert_eq!(method_pointer_index(0x0600_0000), None);
}

fn address(method: usize, virtual_address: u64) -> MethodAddress {
    MethodAddress {
        method: MethodId(method),
        module: "Test.dll".to_owned(),
        pointer_index: method as u32,
        virtual_address,
        relative_address: virtual_address - 0x1000,
        file_offset: virtual_address - 0x1000,
    }
}

#[test]
fn native_method_index_supports_exact_and_next_lookups() {
    let index = NativeMethodIndex::from_addresses(
        4,
        vec![address(0, 0x1100), address(1, 0x1180), address(2, 0x1180)],
    );

    assert_eq!(index.method_at_address(0x1100), Some(MethodId(0)));
    assert_eq!(
        index.methods_at_address(0x1180),
        &[MethodId(1), MethodId(2)]
    );
    assert_eq!(
        index.address_of(MethodId(2)).unwrap().virtual_address,
        0x1180
    );
    assert_eq!(index.address_of(MethodId(3)), None);
    assert_eq!(index.next_address_after(0x1100), Some(0x1180));
    assert_eq!(index.next_address_after(0x1180), None);
    assert_eq!(index.mapped_method_count(), 3);
}

#[test]
fn later_address_for_a_method_replaces_the_earlier_one() {
    let index = NativeMethodIndex::from_addresses(1, vec![address(0, 0x1100), address(0, 0x1200)]);

    assert_eq!(index.address_of(MethodId(0)).unwrap().virtual_address, 0x1200);
    assert_eq!(index.methods_at_address(0x1100), &[MethodId(0)]);
    assert_eq!(index.methods_at_address(0x1200), &[MethodId(0)]);
    assert_eq!(index.mapped_method_count(), 1);
}

#[test]
fn index_grows_for_methods_beyond_the_declared_count() {
    let index = NativeMethodIndex::from_addresses(0, vec![address(5, 0x1300)]);

    assert_eq!(index.address_of(MethodId(5)).unwrap().file_offset, 0x300);
    assert_eq!(index.address_of(MethodId(4)), None);
    assert_eq!(index.next_address_after(0), Some(0x1300));
    assert_eq!(index.method_at_address(0x1301), None);
}

#[test]
fn empty_index_answers_nothing() {
    let index = NativeMethodIndex::default();

    assert_eq!(index.method_at_address(0x1000), None);
    assert!(index.methods_at_address(0x1000).is_empty());
    assert_eq!(index.next_address_after(0), None);
    assert_eq!(index.mapped_method_count(), 0);
}

#[test]
fn index_answers_follow_the_input_list() {
    let index = NativeMethodIndex::from_addresses(
        4,
        vec![address(0, 0x1100), address(1, 0x1180), address(2, 0x1180)],
    );
    assert_eq!(index.next_address_after(0x1100), Some(0x1180));
    assert_eq!(index.next_address_after(0x1180), None);
    assert_eq!(index.next_address_after(0), Some(0x1100));
    assert_eq!(index.mapped_method_count(), 3);
}
