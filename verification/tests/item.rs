use pumpkin_java_multiversion::api::rewriter::item::{
    client_component_is_empty, native_enchantments, shape_floor, skip_client_payload, skip_holder_with_inline,
};
use pumpkin_java_multiversion::api::rewriter::item_shape::DataComponent;
use pumpkin_java_multiversion::codec::{write_prefixed, write_var_int};
use pumpkin_java_multiversion::data::mappings::IdMapping;
use pumpkin_java_multiversion::version::JavaMinecraftVersion as V;

fn registry() -> Vec<DataComponent> {
    vec![DataComponent::Damage, DataComponent::Enchantments, DataComponent::ItemModel]
}

#[test]
fn enchantments_the_client_lacks_are_left_out_and_the_rest_renumbered() {
    let mut native = Vec::new();
    write_var_int(&mut native, 3);
    for (id, level) in [(0, 5), (1, 2), (2, 7)] {
        write_var_int(&mut native, id);
        write_var_int(&mut native, level);
    }
    let enchantments = IdMapping::from_table(vec![4, -1, 9]);
    let out = native_enchantments(&native, &enchantments).unwrap();
    assert_eq!(out, vec![2, 4, 5, 9, 7]);
    assert!(native_enchantments(&native[..4], &enchantments).is_none());
    assert_eq!(native_enchantments(&[0x7f, 0xff, 0xff, 0xff, 0x0f], &enchantments), None);
}

#[test]
fn a_negative_enchantment_count_reads_no_entries() {
    let mut native = Vec::new();
    write_var_int(&mut native, -3);
    assert_eq!(native_enchantments(&native, &IdMapping::identity()), Some(vec![0]));
}

#[test]
fn the_shape_floor_is_where_the_newest_shape_starts() {
    assert_eq!(shape_floor(DataComponent::AttributeModifiers), V::V_26_2);
    assert_eq!(shape_floor(DataComponent::Profile), V::V_1_21_9);
    assert_eq!(shape_floor(DataComponent::Tool), V::V_1_21_5);
    assert_eq!(shape_floor(DataComponent::Food), V::V_1_21_2);
    assert_eq!(shape_floor(DataComponent::Damage), V::V_1_20_5);
}

#[test]
fn the_empty_components_the_newest_version_dropped_are_known_by_id() {
    assert!(client_component_is_empty(14, V::V_1_21));
    assert!(client_component_is_empty(21, V::V_1_20_5));
    assert!(!client_component_is_empty(16, V::V_1_21));
    assert!(client_component_is_empty(16, V::V_1_21_4));
    assert!(!client_component_is_empty(15, V::V_1_21_5));
}

#[test]
fn an_older_tool_is_measured_rule_by_rule() {
    let mut bytes = Vec::new();
    write_var_int(&mut bytes, 1);
    write_var_int(&mut bytes, 2);
    write_var_int(&mut bytes, 5);
    bytes.push(1);
    bytes.extend([0, 0, 0, 0]);
    bytes.push(0);
    bytes.extend([0x3f, 0x80, 0, 0]);
    write_var_int(&mut bytes, 1);
    let end = bytes.len();
    bytes.push(0xee);
    assert_eq!(skip_client_payload(&registry(), DataComponent::Tool, &bytes, 0, V::V_1_21_4), Some(end));
    assert_eq!(skip_client_payload(&registry(), DataComponent::Tool, &bytes[..end - 1], 0, V::V_1_21_4), None);
}

#[test]
fn attribute_modifiers_carry_a_uuid_up_to_1_20_5_and_a_flag_up_to_1_21_4() {
    let entry = |uuid: bool| {
        let mut bytes = Vec::new();
        write_var_int(&mut bytes, 1);
        write_var_int(&mut bytes, 3);
        if uuid {
            bytes.extend([0; 16]);
        }
        write_prefixed(&mut bytes, b"speed");
        bytes.extend([0; 8]);
        write_var_int(&mut bytes, 0);
        write_var_int(&mut bytes, 0);
        bytes.push(1);
        bytes
    };
    let with_uuid = entry(true);
    assert_eq!(skip_client_payload(&registry(), DataComponent::AttributeModifiers, &with_uuid, 0, V::V_1_20_5), Some(with_uuid.len()));
    let without = entry(false);
    assert_eq!(skip_client_payload(&registry(), DataComponent::AttributeModifiers, &without, 0, V::V_1_21_4), Some(without.len()));
    assert_eq!(skip_client_payload(&registry(), DataComponent::AttributeModifiers, &without, 0, V::V_1_21_5), Some(without.len() - 1));
}

#[test]
fn a_component_with_no_reader_is_refused() {
    assert_eq!(skip_client_payload(&registry(), DataComponent::Damage, &[0], 0, V::V_1_21), None);
}

#[test]
fn a_food_item_reads_its_convert_stack_in_the_clients_form() {
    let mut bytes = Vec::new();
    write_var_int(&mut bytes, 4);
    bytes.extend([0, 0, 0, 0]);
    bytes.push(0);
    bytes.extend([0, 0, 0, 0]);
    // A stack of one item with a damage component.
    write_var_int(&mut bytes, 1);
    write_var_int(&mut bytes, 9);
    write_var_int(&mut bytes, 1);
    write_var_int(&mut bytes, 0);
    write_var_int(&mut bytes, 0);
    write_var_int(&mut bytes, 3);
    // No effects.
    write_var_int(&mut bytes, 0);
    assert_eq!(skip_client_payload(&registry(), DataComponent::Food, &bytes, 0, V::V_1_21), Some(bytes.len()));
}

#[test]
fn an_inline_trim_holder_carries_its_overrides_and_description() {
    let mut bytes = Vec::new();
    write_var_int(&mut bytes, 0);
    write_prefixed(&mut bytes, b"gold");
    write_var_int(&mut bytes, 5);
    write_var_int(&mut bytes, 1);
    write_prefixed(&mut bytes, b"a");
    write_prefixed(&mut bytes, b"b");
    bytes.push(0);
    assert_eq!(skip_holder_with_inline(&bytes, 0, V::V_1_21_4), Some(bytes.len()));
    assert_eq!(skip_holder_with_inline(&[4], 0, V::V_1_21_4), Some(1));
}
