use pumpkin_java_multiversion::api::rewriter::item_component::{
    adapt, attribute_ids, attribute_modifiers, equippable, holder_id, is_empty_holder, leading_id,
    legacy_modifier_uuid, profile, to_version,
};
use pumpkin_java_multiversion::data::mappings::ComposedMappings;
use pumpkin_java_multiversion::api::rewriter::item_shape::DataComponent;
use pumpkin_java_multiversion::codec::{write_bool, write_i64, write_prefixed, write_var_int};
use pumpkin_java_multiversion::data::mappings::IdMapping;
use pumpkin_java_multiversion::version::JavaMinecraftVersion as V;

/// 1.21.4 ends `enchantments` with a tooltip flag; 1.21.5 does not.
#[test]
fn enchantments_gain_a_tooltip_flag_below_1_21_5() {
    let ids = ComposedMappings::identity();
    let native = vec![1, 33, 5];
    assert_eq!(to_version(&[], DataComponent::Enchantments, &native, V::V_1_21_4, &ids), Some(vec![1, 33, 5, 1]));
    assert_eq!(to_version(&[], DataComponent::Enchantments, &native, V::V_1_21_5, &ids), Some(native));
}

/// 1.21.4 writes `unbreakable` as a bool, 1.21.5 as nothing.
#[test]
fn unbreakable_is_a_bool_below_1_21_5() {
    let ids = ComposedMappings::identity();
    assert_eq!(to_version(&[], DataComponent::Unbreakable, &[], V::V_1_21_4, &ids), Some(vec![1]));
}

/// 1.21.9 prefixes `entity_data` with the entity type; 1.21.8 starts at
/// the NBT.
#[test]
fn entity_data_loses_its_type_prefix_below_1_21_9() {
    let ids = ComposedMappings::identity();
    assert_eq!(to_version(&[], DataComponent::EntityData, &[7, 0], V::V_1_21_7, &ids), Some(vec![0]));
}

/// 1.21.4 has no `can_place_on` that matches 26.3's, and nothing
/// converts it, so it must not be sent as it is.
#[test]
fn a_component_without_a_converter_is_dropped() {
    let ids = ComposedMappings::identity();
    assert_eq!(to_version(&[], DataComponent::CanPlaceOn, &[0, 1], V::V_1_21_4, &ids), None);
    assert_eq!(adapt(DataComponent::CanPlaceOn, vec![0, 1], V::V_1_21_4), None);
}

/// Core writes both as an inline holder with no inline data.
#[test]
fn trim_and_instrument_never_reach_an_older_client() {
    let ids = ComposedMappings::identity();
    assert_eq!(to_version(&[], DataComponent::Trim, &[0, 0], V::V_1_21_5, &ids), None);
    assert_eq!(to_version(&[], DataComponent::Instrument, &[0], V::V_26_2, &ids), None);
    assert!(is_empty_holder(DataComponent::Trim));
    assert!(!is_empty_holder(DataComponent::Food));
    assert_eq!(to_version(&[], DataComponent::Trim, &[0, 0], V::V_26_3, &ids), Some(vec![0, 0]));
}

/// A bundle's stacks are put in the target's form one by one: here the
/// item is renumbered and a component the target lacks leaves its stack.
#[test]
fn a_bundle_puts_its_stacks_in_the_targets_form() {
    let reg = vec![DataComponent::Damage, DataComponent::BundleContents, DataComponent::Container];
    let mut ids = ComposedMappings::identity();
    ids.items = IdMapping::from_table(vec![0, 1, 2, 3, 4, 5, 6, 40]);
    ids.data_component_type = IdMapping::from_table(vec![-1, 1, 2]);
    // One template stack: item 7, count 2, one damage component of 3, no removals.
    let native = vec![1, 7, 2, 1, 0, 0, 3];
    assert_eq!(
        to_version(&reg, DataComponent::BundleContents, &native, V::V_1_21_5, &ids),
        Some(vec![1, 40, 2, 0, 0])
    );
    // A container flags each slot; an empty slot stays empty.
    let native = vec![2, 0, 1, 7, 2, 0, 0];
    assert_eq!(
        to_version(&reg, DataComponent::Container, &native, V::V_1_21_5, &ids),
        Some(vec![2, 0, 1, 40, 2, 0, 0])
    );
    // A version that carries stacks as NBT has no nested form of one.
    assert_eq!(
        to_version(&reg, DataComponent::BundleContents, &vec![1, 7, 2, 0, 0], V::V_1_20_3, &ids),
        None
    );
    assert_eq!(
        to_version(&reg, DataComponent::BundleContents, &vec![1, 7, 2, 0, 0], V::V_1_20_5, &ids),
        Some(vec![1, 40, 2, 0, 0])
    );
}

#[test]
fn a_tool_loses_its_last_flag_and_a_song_gains_its_own() {
    assert_eq!(adapt(DataComponent::Tool, vec![0, 1, 1], V::V_1_21_4), Some(vec![0, 1]));
    assert_eq!(adapt(DataComponent::JukeboxPlayable, vec![3], V::V_1_21_4), Some(vec![1, 3, 1]));
    assert_eq!(adapt(DataComponent::JukeboxPlayable, vec![3], V::V_1_21_5), Some(vec![1, 3]));
    assert_eq!(adapt(DataComponent::JukeboxPlayable, vec![3], V::V_1_20_5), None);
}

#[test]
fn the_modifier_uuid_is_the_fnv_hash_of_its_name() {
    let mut hash: u64 = 0xcbf2_9ce4_8422_2325;
    for byte in b"armor" {
        hash ^= u64::from(*byte);
        hash = hash.wrapping_mul(0x0000_0100_0000_01b3);
    }
    let low = hash.rotate_left(32).wrapping_add(3u64.wrapping_mul(0x0000_0100_0000_01b3));
    assert_eq!(legacy_modifier_uuid(b"armor", -3), (u128::from(hash) << 64) | u128::from(low));
    assert_ne!(legacy_modifier_uuid(b"armor", 0), legacy_modifier_uuid(b"armor", 1));
}

fn modifier(out: &mut Vec<u8>, attribute: i32, name: &[u8], slot: i32, display: &[u8]) {
    write_var_int(out, attribute);
    write_prefixed(out, name);
    write_i64(out, 0x3ff0_0000_0000_0000);
    write_var_int(out, 0);
    write_var_int(out, slot);
    out.extend_from_slice(display);
}

#[test]
fn attribute_modifiers_take_a_uuid_on_1_20_5_and_a_flag_up_to_1_21_4() {
    let mut native = Vec::new();
    write_var_int(&mut native, 1);
    modifier(&mut native, 4, b"speed", 10, &[2, 10, 0]);

    let mut expected = Vec::new();
    write_var_int(&mut expected, 1);
    write_var_int(&mut expected, 4);
    expected.extend_from_slice(&legacy_modifier_uuid(b"speed", 0).to_be_bytes());
    write_prefixed(&mut expected, b"speed");
    write_i64(&mut expected, 0x3ff0_0000_0000_0000);
    write_var_int(&mut expected, 0);
    write_var_int(&mut expected, 9);
    expected.push(1);
    assert_eq!(attribute_modifiers(&native, V::V_1_20_5), Some(expected));

    let out = attribute_modifiers(&native, V::V_1_21_11).unwrap();
    assert_eq!(out[out.len() - 2..], [10, 0]);
    assert_eq!(attribute_modifiers(&native[..native.len() - 1], V::V_1_21_11), None);
}

#[test]
fn attributes_the_client_lacks_take_their_entry_with_them() {
    let mut native = Vec::new();
    write_var_int(&mut native, 2);
    modifier(&mut native, 1, b"a", 0, &[0]);
    modifier(&mut native, 2, b"b", 0, &[0]);
    let attributes = IdMapping::from_table(vec![0, -1, 7]);
    let mut expected = Vec::new();
    write_var_int(&mut expected, 1);
    modifier(&mut expected, 7, b"b", 0, &[0]);
    assert_eq!(attribute_ids(&native, &attributes), Some(expected));
}

#[test]
fn an_equippable_keeps_the_prefix_the_client_reads() {
    let mut native = Vec::new();
    write_var_int(&mut native, 3);
    write_var_int(&mut native, 5);
    write_bool(&mut native, false);
    write_bool(&mut native, false);
    write_bool(&mut native, true);
    write_var_int(&mut native, 0);
    write_prefixed(&mut native, b"minecraft:horses");
    native.extend_from_slice(&[1, 1, 0, 1, 1, 0]);
    let out = equippable(&native, V::V_1_21_4).unwrap();
    assert_eq!(out, native[..native.len() - 3].to_vec());
    assert_eq!(equippable(&native, V::V_1_21_5).unwrap(), native[..native.len() - 2].to_vec());
    let mut saddle = native.clone();
    saddle[0] = 7;
    assert_eq!(equippable(&saddle, V::V_1_21_4), None);
}

#[test]
fn a_profile_loses_its_kind_below_1_21_9() {
    let mut native = vec![1];
    write_bool(&mut native, true);
    write_prefixed(&mut native, b"Steve");
    write_bool(&mut native, false);
    write_var_int(&mut native, 1);
    write_prefixed(&mut native, b"textures");
    write_prefixed(&mut native, b"abc");
    write_bool(&mut native, false);
    native.push(9);
    assert_eq!(profile(&native), Some(native[1..native.len() - 1].to_vec()));
}

#[test]
fn ids_in_front_of_a_payload_are_renumbered() {
    let mapping = IdMapping::from_table(vec![0, 4, -1]);
    assert_eq!(leading_id(&[1, 9, 9], &mapping), Some(vec![4, 9, 9]));
    assert_eq!(leading_id(&[2, 9], &mapping), Some(vec![0, 9]));
    assert_eq!(holder_id(&[2, 8], &mapping), Some(vec![5, 8]));
    assert_eq!(holder_id(&[3, 8], &mapping), Some(vec![0, 8]));
    assert_eq!(holder_id(&[0, 8], &mapping), Some(vec![0, 8]));
}
