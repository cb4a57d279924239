use pumpkin_java_multiversion::api::item::{
    read_nbt_item, read_structured, write_nbt_item, write_structured, HashedItem, Item, ItemComponent, ItemT,
    HASHED_ITEM, ITEM_COST, TEMPLATE_ITEM,
};
use pumpkin_java_multiversion::api::rewriter::item::{
    read_client_item, rewrite_item, rewrite_item_value, StructuredItemRewriter,
};
use pumpkin_java_multiversion::api::rewriter::item_nbt::EnchantmentKey;
use pumpkin_java_multiversion::api::rewriter::item_shape::DataComponent;
use pumpkin_java_multiversion::api::TranslateError;
use pumpkin_java_multiversion::data::mappings::{ComposedMappings, IdMapping};
use pumpkin_java_multiversion::version::JavaMinecraftVersion as V;

const SWORD: i32 = 7;

/// The components the tests' registry lists, by id.
fn registry() -> Vec<DataComponent> {
    vec![
        DataComponent::Enchantments,
        DataComponent::Unbreakable,
        DataComponent::Damage,
        DataComponent::BundleContents,
        DataComponent::Container,
        DataComponent::Weapon,
        DataComponent::EntityData,
    ]
}

/// Tables of a client that numbers the sword 9 and the components from 3.
fn ids() -> ComposedMappings {
    let mut ids = ComposedMappings::identity();
    ids.items = IdMapping::from_table(vec![0, 1, 2, 3, 4, 5, 6, 9]);
    ids.data_component_type = IdMapping::from_table(vec![3, 4, 5, 6, 7, -1, 8]);
    ids.enchantment_keys = enchantment_registry();
    ids
}

/// The start of the newest enchantment registry, sharpness at 12.
fn enchantment_registry() -> Vec<EnchantmentKey> {
    vec![
        EnchantmentKey::Protection,
        EnchantmentKey::FireProtection,
        EnchantmentKey::FeatherFalling,
        EnchantmentKey::BlastProtection,
        EnchantmentKey::ProjectileProtection,
        EnchantmentKey::Respiration,
        EnchantmentKey::AquaAffinity,
        EnchantmentKey::Thorns,
        EnchantmentKey::DepthStrider,
        EnchantmentKey::FrostWalker,
        EnchantmentKey::BindingCurse,
        EnchantmentKey::SoulSpeed,
        EnchantmentKey::Sharpness,
        EnchantmentKey::SweepingEdge,
        EnchantmentKey::Newer,
    ]
}

/// The document a 1.20.3 client gets for the sword: its sharpness list and
/// the unbreakable flag.
fn sword_document() -> Vec<u8> {
    let mut doc = vec![10u8];
    doc.extend([9, 0, 12]);
    doc.extend(b"Enchantments");
    doc.extend([10, 0, 0, 0, 1]);
    doc.extend([8, 0, 2]);
    doc.extend(b"id");
    doc.extend([0, 19]);
    doc.extend(b"minecraft:sharpness");
    doc.extend([2, 0, 3]);
    doc.extend(b"lvl");
    doc.extend([0, 5, 0]);
    doc.extend([1, 0, 11]);
    doc.extend(b"Unbreakable");
    doc.extend([1, 0]);
    doc
}

/// A sharpness 5 diamond sword as core writes it.
fn native_sword() -> Item {
    Item::Structured {
        count: 1,
        id: SWORD,
        added: vec![
            ItemComponent { id: 0, data: vec![1, 12, 5] },
            ItemComponent { id: 1, data: Vec::new() },
        ],
        removed: Vec::new(),
    }
}

fn diamond_sword(target: V) -> Item {
    StructuredItemRewriter::to_version(&registry(), &native_sword(), target, &ids())
}

fn added(item: &Item) -> Vec<ItemComponent> {
    match item {
        Item::Structured { added, .. } => added.clone(),
        _ => panic!("structured, got {item:?}"),
    }
}

#[test]
fn a_sword_keeps_its_components_from_1_21_5_up() {
    let item = diamond_sword(V::V_1_21_5);
    let added = added(&item);
    assert_eq!(added.len(), 2);
    assert_eq!(added[0].data, vec![1, 12, 5]);
    assert_eq!(added[1].data, Vec::<u8>::new(), "unbreakable is empty");
}

#[test]
fn a_sword_gains_the_1_21_4_flags() {
    let added = added(&diamond_sword(V::V_1_21_4));
    assert_eq!(added[0].data.last(), Some(&1), "tooltip flag");
    assert_eq!(added[1].data, vec![1], "unbreakable as a bool");
}

#[test]
fn a_sword_becomes_the_nbt_form_below_1_20_5() {
    let item = diamond_sword(V::V_1_20_3);
    let Item::Nbt { id, count, nbt } = &item else {
        panic!("nbt form, got {item:?}");
    };
    assert_eq!(*id, 9);
    assert_eq!(*count, 1);
    assert_eq!(nbt.as_deref(), Some(&sword_document()[..]));
}

#[test]
fn the_1_20_3_bytes_are_the_nbt_form() {
    let target = V::V_1_20_3;
    let mut bytes = Vec::new();
    assert!(ItemT::for_version(target).write(&mut bytes, &diamond_sword(target)));
    assert_eq!(&bytes[..3], &[1, 9, 1], "present, the item and its count");
    assert_eq!(bytes[3], 10, "a compound follows");
    assert_eq!(&bytes[3..], &sword_document()[..]);
}

#[test]
fn below_1_20_2_the_document_has_a_root_name() {
    let item = diamond_sword(V::V_1_20);
    let Item::Nbt { nbt: Some(doc), .. } = &item else {
        panic!("nbt form, got {item:?}");
    };
    assert_eq!(&doc[..3], &[10, 0, 0]);
    assert_eq!(&doc[3..], &sword_document()[1..]);
}

#[test]
fn an_enchantment_the_client_lacks_is_left_out_of_the_nbt_form() {
    // Swift sneak (index 13 is sweeping edge, which 1.16 calls sweeping) and
    // the newer one at 14 have no place before their versions.
    let item = Item::Structured {
        count: 200,
        id: SWORD,
        added: vec![ItemComponent { id: 0, data: vec![2, 13, 3, 14, 1] }, ItemComponent { id: 2, data: vec![7] }],
        removed: Vec::new(),
    };
    let Item::Nbt { count, nbt: Some(doc), .. } = StructuredItemRewriter::to_version(&registry(), &item, V::V_1_16_2, &ids())
    else {
        panic!("nbt form");
    };
    assert_eq!(count, 127, "a count past a byte is the largest byte");
    let mut expected = vec![10u8, 0, 0, 9, 0, 12];
    expected.extend(b"Enchantments");
    expected.extend([10, 0, 0, 0, 1, 8, 0, 2]);
    expected.extend(b"id");
    expected.extend([0, 18]);
    expected.extend(b"minecraft:sweeping");
    expected.extend([2, 0, 3]);
    expected.extend(b"lvl");
    expected.extend([0, 3, 0, 3, 0, 6]);
    expected.extend(b"Damage");
    expected.extend([0, 0, 0, 7, 0]);
    assert_eq!(doc, expected);
}

#[test]
fn the_1_21_5_bytes_are_the_whole_stack() {
    let target = V::V_1_21_5;
    let mut bytes = Vec::new();
    assert!(ItemT::for_version(target).write(&mut bytes, &diamond_sword(target)));
    assert_eq!(bytes, vec![1, 9, 2, 0, 3, 1, 12, 5, 4]);
}

#[test]
fn the_1_21_4_bytes_carry_the_extra_flags() {
    let added = added(&diamond_sword(V::V_1_21_4));
    assert_eq!(added[0].data.len(), 4);
    assert_eq!(added[0].data[0], 1, "one enchantment");
    assert_eq!(added[0].data[3], 1, "the tooltip flag");
    assert_eq!(added[1].data, vec![1]);
}

#[test]
fn the_1_20_5_component_ids_are_the_targets_own() {
    let added = added(&diamond_sword(V::V_1_20_5));
    assert_eq!(added[0].id, 3);
    assert_eq!(added[1].id, 4);
}

#[test]
fn the_26_2_component_payloads_are_unchanged() {
    let native = added(&diamond_sword(V::V_26_3));
    let target = added(&diamond_sword(V::V_26_2));
    assert_eq!(
        native.iter().map(|c| c.data.clone()).collect::<Vec<_>>(),
        target.iter().map(|c| c.data.clone()).collect::<Vec<_>>()
    );
}

#[test]
fn a_component_the_target_lacks_leaves_the_stack() {
    let item = Item::Structured {
        count: 1,
        id: SWORD,
        added: vec![ItemComponent { id: 5, data: vec![0, 0, 0, 0, 0] }],
        removed: vec![5, 2],
    };
    let out = StructuredItemRewriter::to_version(&registry(), &item, V::V_1_20_5, &ids());
    assert_eq!(out, Item::Structured { count: 1, id: 9, added: Vec::new(), removed: vec![5] });
}

#[test]
fn an_empty_stack_stays_empty_in_every_form() {
    for target in [V::V_26_2, V::V_1_21_5, V::V_1_20_3, V::V_1_16_2] {
        let out = StructuredItemRewriter::to_version(&registry(), &Item::Empty, target, &ids());
        assert!(out.is_empty(), "{target:?}");
        let mut bytes = Vec::new();
        assert!(ItemT::for_version(target).write(&mut bytes, &out));
        assert_eq!(bytes, vec![0], "{target:?}");
    }
}

#[test]
fn an_item_the_target_lacks_becomes_an_empty_stack() {
    let item = Item::Structured { count: 1, id: 8, added: Vec::new(), removed: Vec::new() };
    for target in [V::V_1_21_4, V::V_1_20_3] {
        let out = StructuredItemRewriter::to_version(&registry(), &item, target, &ids());
        assert!(out.is_empty());
        assert_eq!(out.item_id(), None);
    }
}

#[test]
fn the_structured_form_round_trips_through_the_wire() {
    for target in [V::V_26_3, V::V_1_21_5, V::V_1_21_4, V::V_1_20_5] {
        let item = diamond_sword(target);
        let mut bytes = Vec::new();
        assert!(write_structured(&mut bytes, &item, true));
        bytes.push(42);
        let (back, end) = read_structured(&registry(), &bytes, 0, true).unwrap();
        assert_eq!(back, item, "{target:?}");
        assert_eq!(end, bytes.len() - 1);
    }
}

#[test]
fn the_newest_form_is_measured_by_each_components_shape() {
    let bytes = vec![2, 7, 1, 2, 0, 1, 12, 5, 2, 9, 99];
    let (item, end) = read_structured(&registry(), &bytes, 0, false).unwrap();
    assert_eq!(end, 10);
    assert_eq!(
        item,
        Item::Structured {
            count: 2,
            id: 7,
            added: vec![ItemComponent { id: 0, data: vec![1, 12, 5] }],
            removed: vec![2, 9],
        }
    );
    assert_eq!(read_structured(&registry(), &[0, 5], 0, false), Some((Item::Empty, 1)));
    // More components than a stack may carry.
    assert_eq!(read_structured(&registry(), &[1, 7, 0x81, 0x02, 0], 0, false), None);
    // A component the registry does not list cannot be measured.
    assert_eq!(read_structured(&registry(), &[1, 7, 1, 0, 40, 0], 0, false), None);
}

#[test]
fn a_nested_stack_leads_with_its_id_and_cannot_be_empty() {
    let mut bytes = Vec::new();
    TEMPLATE_ITEM.write(&mut bytes, &Item::Empty);
    assert_eq!(bytes, vec![0, 1, 0, 0]);
    let item = Item::Structured { count: 3, id: 7, added: vec![ItemComponent { id: 2, data: vec![4] }], removed: vec![] };
    let mut bytes = Vec::new();
    TEMPLATE_ITEM.write(&mut bytes, &item);
    assert_eq!(bytes, vec![7, 3, 1, 0, 2, 4]);
    assert_eq!(TEMPLATE_ITEM.read(&registry(), &bytes, 0), Some((item, 6)));
}

#[test]
fn the_nbt_form_keeps_its_document_as_it_arrived() {
    // Present, item 5, a count of 2, and an empty compound in the network form.
    let bytes = vec![1, 5, 2, 10, 0];
    let (item, end) = read_nbt_item(&bytes, 0, V::V_1_20_3).unwrap();
    assert_eq!(end, 5);
    assert_eq!(item, Item::Nbt { id: 5, count: 2, nbt: Some(vec![10, 0]) });
    let mut out = Vec::new();
    write_nbt_item(&mut out, &item);
    assert_eq!(out, bytes);
    // A lone end tag is no document.
    assert_eq!(read_nbt_item(&[1, 5, 2, 0], 0, V::V_1_20_3), Some((Item::Nbt { id: 5, count: 2, nbt: None }, 4)));
    // Below 1.20.2 the root carries a name.
    assert_eq!(
        ItemT::for_version(V::V_1_20).read(&registry(), &[1, 5, 2, 10, 0, 0, 0], 0),
        Some((Item::Nbt { id: 5, count: 2, nbt: Some(vec![10, 0, 0, 0]) }, 7))
    );
    assert_eq!(ItemT::for_version(V::V_1_16_2).read(&registry(), &[0], 0), Some((Item::Empty, 1)));
}

#[test]
fn a_trade_cost_is_never_empty_and_removes_nothing() {
    let bytes = vec![7, 3, 1, 2, 6];
    let (cost, end) = ITEM_COST.read(&registry(), &bytes, 0).unwrap();
    assert_eq!(end, 5);
    assert_eq!(cost, Item::Structured { count: 3, id: 7, added: vec![ItemComponent { id: 2, data: vec![6] }], removed: vec![] });
    let mut out = Vec::new();
    ITEM_COST.write(&mut out, &cost);
    assert_eq!(out, bytes);
    let mut out = Vec::new();
    ITEM_COST.write(&mut out, &Item::Empty);
    assert_eq!(out, vec![0, 0, 0]);
}

#[test]
fn a_hashed_stack_carries_a_hash_per_component() {
    let bytes = vec![1, 7, 2, 1, 3, 0, 0, 1, 0, 1, 4];
    let (hashed, end) = HASHED_ITEM.read(&bytes, 0).unwrap();
    assert_eq!(end, bytes.len());
    let item = HashedItem { id: 7, count: 2, added: vec![(3, 256)], removed: vec![4] };
    assert_eq!(hashed, Some(item.clone()));
    let mut out = Vec::new();
    HASHED_ITEM.write(&mut out, &Some(item));
    assert_eq!(out, bytes);
    assert_eq!(HASHED_ITEM.read(&[0], 0), Some((None, 1)));
    let mut out = Vec::new();
    HASHED_ITEM.write(&mut out, &None);
    assert_eq!(out, vec![0]);
}

#[test]
fn a_stack_is_rewritten_from_the_newest_form() {
    let mut bytes = Vec::new();
    assert!(write_structured(&mut bytes, &native_sword(), false));
    let mut out = vec![0xaa];
    assert_eq!(rewrite_item(&bytes, 0, &mut out, V::V_1_21_4, &registry(), &ids()), Ok(bytes.len()));
    assert_eq!(out, vec![0xaa, 1, 9, 2, 0, 3, 1, 12, 5, 1, 4, 1]);
    assert_eq!(
        rewrite_item_value(&bytes, 0, V::V_1_21_5, &registry(), &ids()),
        Some((vec![1, 9, 2, 0, 3, 1, 12, 5, 4], bytes.len()))
    );
    let mut out = Vec::new();
    assert_eq!(rewrite_item(&bytes, 0, &mut out, V::V_1_20_3, &registry(), &ids()), Ok(bytes.len()));
    let mut expected = vec![1, 9, 1];
    expected.extend(sword_document());
    assert_eq!(out, expected);
    let mut out = Vec::new();
    assert_eq!(rewrite_item(&[1], 0, &mut out, V::V_1_21_5, &registry(), &ids()), Err(TranslateError::Read));
    assert_eq!(rewrite_item_value(&[1], 0, V::V_1_21_5, &registry(), &ids()), None);
}

#[test]
fn a_client_stack_comes_back_with_26_3_ids() {
    let source = V::V_1_21_4;
    let mut bytes = Vec::new();
    assert!(ItemT::for_version(source).write(&mut bytes, &diamond_sword(source)));
    let (native, end) = read_client_item(&registry(), &bytes, 0, source, false, &ids()).unwrap();
    assert_eq!(end, bytes.len());
    assert_eq!(native.item_id(), Some(SWORD));
    let added = added(&native);
    assert_eq!(added[0], ItemComponent { id: 0, data: vec![1, 12, 5] });
    assert_eq!(added[1].data, Vec::<u8>::new(), "unbreakable is empty again");
}

#[test]
fn a_length_prefixed_client_stack_comes_back_with_26_3_ids() {
    let source = V::V_1_21_5;
    let mut bytes = Vec::new();
    assert!(ItemT::length_prefixed(source).write(&mut bytes, &diamond_sword(source)));
    let (native, end) = read_client_item(&registry(), &bytes, 0, source, true, &ids()).unwrap();
    assert_eq!(end, bytes.len());
    assert_eq!(native, native_sword());
}

#[test]
fn a_client_component_the_newest_version_lacks_is_skipped_or_refused() {
    let source = V::V_1_21_4;
    // Component 15 maps to nothing the newest protocol has; on 1.21.4 it is
    // an empty flag.
    let bytes = vec![1, 9, 1, 0, 15];
    let (native, end) = read_client_item(&registry(), &bytes, 0, source, false, &ids()).unwrap();
    assert_eq!(end, 5);
    assert_eq!(native, Item::Structured { count: 1, id: SWORD, added: vec![], removed: vec![] });
    assert_eq!(read_client_item(&registry(), &[1, 9, 1, 0, 40], 0, source, false, &ids()), Err(TranslateError::Read));
    // An item the newest protocol lacks comes back empty.
    assert_eq!(read_client_item(&registry(), &[1, 8, 0, 0], 0, source, false, &ids()).unwrap().0, Item::Empty);
    // Below 1.20.5 a stack without a document has no components.
    assert_eq!(read_client_item(&registry(), &[0], 0, V::V_1_20_3, false, &ids()), Ok((Item::Empty, 1)));
    assert_eq!(
        read_client_item(&registry(), &[1, 9, 1, 0], 0, V::V_1_20_3, false, &ids()),
        Ok((Item::Structured { count: 1, id: SWORD, added: vec![], removed: vec![] }, 4))
    );
}

#[test]
fn a_client_stack_is_renumbered_back() {
    let stack = Item::Structured {
        count: 4,
        id: 9,
        added: vec![ItemComponent { id: 5, data: vec![1] }, ItemComponent { id: 4, data: vec![] }],
        removed: vec![7, 100],
    };
    let native = StructuredItemRewriter::to_native(&registry(), &stack, V::V_1_21_4, &ids());
    assert_eq!(
        native,
        Item::Structured { count: 4, id: SWORD, added: vec![ItemComponent { id: 2, data: vec![1] }, ItemComponent { id: 1, data: vec![] }], removed: vec![4] }
    );
    assert_eq!(
        StructuredItemRewriter::to_native(&registry(), &Item::Nbt { id: 9, count: 1, nbt: None }, V::V_1_20_3, &ids()),
        Item::Structured { count: 1, id: SWORD, added: vec![], removed: vec![] }
    );
    assert_eq!(
        StructuredItemRewriter::to_native(&registry(), &Item::Nbt { id: 8, count: 1, nbt: None }, V::V_1_20_3, &ids()),
        Item::Empty
    );
}

#[test]
fn the_nbt_form_round_trips_back_to_components() {
    let source = V::V_1_20_3;
    let mut bytes = Vec::new();
    assert!(ItemT::for_version(source).write(&mut bytes, &diamond_sword(source)));
    let (native, end) = read_client_item(&registry(), &bytes, 0, source, false, &ids()).unwrap();
    assert_eq!(end, bytes.len());
    let Item::Structured { id, added, .. } = &native else {
        panic!("structured, got {native:?}");
    };
    assert_eq!(*id, SWORD);
    assert!(added.iter().any(|c| c.id == 0), "the enchantments come back");
    assert_eq!(
        added,
        &vec![ItemComponent { id: 1, data: vec![] }, ItemComponent { id: 0, data: vec![1, 12, 5] }]
    );
}

#[test]
fn a_client_document_names_enchantments_either_way() {
    // `minecraft:sweeping` and a bare `sweeping_edge` are the same
    // enchantment, a level given as a byte is a level, and an unknown name
    // is left out.
    let mut doc = vec![10u8, 0, 0, 9, 0, 12];
    doc.extend(b"Enchantments");
    doc.extend([10, 0, 0, 0, 3]);
    doc.extend([8, 0, 2]);
    doc.extend(b"id");
    doc.extend([0, 18]);
    doc.extend(b"minecraft:sweeping");
    doc.extend([1, 0, 3]);
    doc.extend(b"lvl");
    doc.extend([2, 0]);
    doc.extend([8, 0, 2]);
    doc.extend(b"id");
    doc.extend([0, 13]);
    doc.extend(b"sweeping_edge");
    doc.extend([0]);
    doc.extend([8, 0, 2]);
    doc.extend(b"id");
    doc.extend([0, 4]);
    doc.extend(b"nope");
    doc.extend([0]);
    doc.extend([3, 0, 6]);
    doc.extend(b"Damage");
    doc.extend([0, 0, 1, 0, 0]);
    let item = Item::Nbt { id: 9, count: 2, nbt: Some(doc) };
    let native = StructuredItemRewriter::to_native(&registry(), &item, V::V_1_16_2, &ids());
    assert_eq!(
        native,
        Item::Structured {
            count: 2,
            id: SWORD,
            added: vec![
                ItemComponent { id: 2, data: vec![0x80, 0x02] },
                ItemComponent { id: 0, data: vec![2, 13, 2, 13, 1] },
            ],
            removed: vec![],
        }
    );
}
