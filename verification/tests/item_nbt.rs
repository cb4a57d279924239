use pumpkin_java_multiversion::api::item::ItemComponent;
use pumpkin_java_multiversion::api::rewriter::item_nbt::{
    components_to_nbt, key_for, legacy_enchantment_name, nbt_to_components, EnchantmentKey,
};
use pumpkin_java_multiversion::api::rewriter::item_shape::DataComponent;
use pumpkin_java_multiversion::version::JavaMinecraftVersion as V;

fn registry() -> Vec<DataComponent> {
    vec![DataComponent::CustomData, DataComponent::Damage, DataComponent::Enchantments]
}

#[test]
fn sweeping_is_renamed_in_both_directions() {
    assert_eq!(legacy_enchantment_name(EnchantmentKey::SweepingEdge, V::V_1_20), Some("sweeping"));
    assert_eq!(key_for(b"minecraft:sweeping"), Some(EnchantmentKey::SweepingEdge));
    assert_eq!(key_for(b"minecraft:sweeping_edge"), Some(EnchantmentKey::SweepingEdge));
}

#[test]
fn enchantments_the_client_lacks_are_dropped() {
    // `breach` arrives in 1.21, so no client in the NBT range has the name.
    assert_eq!(legacy_enchantment_name(EnchantmentKey::Newer, V::V_1_20), None);
    assert_eq!(legacy_enchantment_name(EnchantmentKey::Sharpness, V::V_1_16_2), Some("sharpness"));
}

#[test]
fn swift_sneak_starts_at_1_19() {
    assert_eq!(legacy_enchantment_name(EnchantmentKey::SwiftSneak, V::V_1_18_2), None);
    assert_eq!(legacy_enchantment_name(EnchantmentKey::SwiftSneak, V::V_1_19), Some("swift_sneak"));
}

#[test]
fn unknown_tags_round_trip_through_custom_data() {
    let mut hide_flags = vec![3u8, 0, 9];
    hide_flags.extend(b"HideFlags");
    hide_flags.extend([0, 0, 0, 63]);
    let mut damage = vec![3u8, 0, 6];
    damage.extend(b"Damage");
    damage.extend([0, 0, 0, 3]);
    let mut doc = vec![10u8, 0, 0];
    doc.extend(&hide_flags);
    doc.extend(&damage);
    doc.push(0);

    let components = nbt_to_components(&registry(), &doc, V::V_1_16_2, &[]);
    let mut custom = vec![10u8];
    custom.extend(&hide_flags);
    custom.push(0);
    assert_eq!(
        components,
        vec![ItemComponent { id: 1, data: vec![3] }, ItemComponent { id: 0, data: custom }]
    );

    let back = components_to_nbt(&registry(), &components, V::V_1_16_2, &[]).unwrap();
    assert_eq!(back, doc);
}

#[test]
fn a_stack_with_nothing_to_say_has_no_document() {
    let components = vec![ItemComponent { id: 2, data: vec![1, 40, 1] }];
    // Enchantment 40 is not in the (empty) registry, so nothing is left.
    assert_eq!(components_to_nbt(&registry(), &components, V::V_1_20_3, &[]), None);
    assert_eq!(nbt_to_components(&registry(), &[10, 0], V::V_1_20_3, &[]), vec![]);
    assert_eq!(nbt_to_components(&registry(), &[8, 0], V::V_1_20_3, &[]), vec![]);
}

#[test]
fn a_damage_comes_back_from_the_nbt_form() {
    let components = vec![ItemComponent { id: 1, data: vec![0x80, 0x02] }];
    for version in [V::V_1_16_2, V::V_1_20_3] {
        let doc = components_to_nbt(&registry(), &components, version, &[]).unwrap();
        assert_eq!(nbt_to_components(&registry(), &doc, version, &[]), components);
    }
}
