use pumpkin_java_multiversion::api::connection::UserConnection;
use pumpkin_java_multiversion::api::item::{write_structured, Item, ItemComponent, ItemT, HASHED_ITEM, ITEM_COST};
use pumpkin_java_multiversion::codec::{read_i16, read_u8, read_var_int};
use pumpkin_java_multiversion::api::rewriter::item::{item_pass, StructuredItemRewriter};
use pumpkin_java_multiversion::api::rewriter::item_shape::DataComponent;
use pumpkin_java_multiversion::api::wrapper::PacketWrapper;
use pumpkin_java_multiversion::api::TranslateError;
use pumpkin_java_multiversion::data::mappings::{ComposedMappings, IdMapping};
use pumpkin_java_multiversion::packet::mappings::PacketId;
use pumpkin_java_multiversion::pipeline::item_pass::{
    advancements, click_container, click_frame, container_content, container_slot, creative_slot, cursor_item,
    equipment, merchant_offers, player_inventory,
};
use pumpkin_java_multiversion::version::JavaMinecraftVersion as V;

const PACKET: PacketId = PacketId { key: 1, v26_3: 1 };

fn registry() -> Vec<DataComponent> {
    vec![DataComponent::Enchantments, DataComponent::Unbreakable, DataComponent::Damage]
}

/// Tables of a client that numbers the sword 9 and the components from 3.
fn ids() -> ComposedMappings {
    let mut ids = ComposedMappings::identity();
    ids.items = IdMapping::from_table(vec![0, 1, 2, 3, 4, 5, 6, 9]);
    ids.data_component_type = IdMapping::from_table(vec![3, 4, 5]);
    ids
}

fn native_sword() -> Item {
    Item::Structured {
        count: 1,
        id: 7,
        added: vec![ItemComponent { id: 0, data: vec![1, 12, 5] }, ItemComponent { id: 1, data: Vec::new() }],
        removed: Vec::new(),
    }
}

/// The sword as core writes it.
fn native_bytes() -> Vec<u8> {
    let mut bytes = Vec::new();
    assert!(write_structured(&mut bytes, &native_sword(), false));
    bytes
}

/// The sword as a client on `layout` reads it.
fn client_bytes(layout: V) -> Vec<u8> {
    let item = StructuredItemRewriter::to_version(&registry(), &native_sword(), layout, &ids());
    let mut bytes = Vec::new();
    assert!(ItemT::for_version(layout).write(&mut bytes, &item));
    bytes
}

fn run(
    payload: &[u8],
    pass: impl Fn(&mut PacketWrapper) -> Result<(), TranslateError>,
) -> Result<Vec<u8>, TranslateError> {
    let mut wrapper = PacketWrapper::new(PACKET, payload);
    pass(&mut wrapper)?;
    Ok(wrapper.finish()?.unwrap().payload)
}

#[test]
fn a_single_stack_is_put_in_the_clients_form() {
    let layout = V::V_1_21_5;
    let out = run(&native_bytes(), |w| item_pass(w, layout, &registry(), &ids())).unwrap();
    assert_eq!(out, client_bytes(layout));
    assert_eq!(out, vec![1, 9, 2, 0, 3, 1, 12, 5, 4]);
    let out = run(&native_bytes(), |w| cursor_item(w, layout, &registry(), &ids())).unwrap();
    assert_eq!(out, client_bytes(layout));
}

#[test]
fn container_contents_carry_every_slot_and_the_cursor() {
    let layout = V::V_1_21_5;
    let mut payload = vec![1, 5, 1];
    payload.extend(native_bytes());
    payload.push(0);
    let mut expected = vec![1, 5, 1];
    expected.extend(client_bytes(layout));
    expected.push(0);
    assert_eq!(run(&payload, |w| container_content(w, layout, &registry(), &ids())), Ok(expected));

    // Below 1.17.1 a byte id, a two byte count and no carried stack.
    let payload = vec![3, 0, 2, 0, 0];
    assert_eq!(run(&payload, |w| container_content(w, V::V_1_16_2, &registry(), &ids())), Ok(payload.clone()));

    // A count past 4096 is refused and the wrapper left as it was.
    let payload = vec![1, 5, 0x81, 0x20];
    let mut wrapper = PacketWrapper::new(PACKET, &payload);
    assert_eq!(
        container_content(&mut wrapper, layout, &registry(), &ids()),
        Err(TranslateError::Unsupported("container slot count"))
    );
    assert_eq!(wrapper.remaining(), &payload[..]);
}

#[test]
fn a_slot_and_an_inventory_slot_rewrite_their_stack() {
    let layout = V::V_1_21_5;
    let mut payload = vec![1, 5, 0, 3];
    payload.extend(native_bytes());
    let mut expected = vec![1, 5, 0, 3];
    expected.extend(client_bytes(layout));
    assert_eq!(run(&payload, |w| container_slot(w, layout, &registry(), &ids())), Ok(expected));

    let mut payload = vec![36];
    payload.extend(native_bytes());
    let mut expected = vec![36];
    expected.extend(client_bytes(layout));
    assert_eq!(run(&payload, |w| player_inventory(w, layout, &registry(), &ids())), Ok(expected));
}

#[test]
fn equipment_entries_run_until_a_slot_without_the_top_bit() {
    let layout = V::V_1_21_5;
    let mut payload = vec![4, 0x80, 0, 2];
    payload.extend(native_bytes());
    let mut expected = vec![4, 0x80, 0, 2];
    expected.extend(client_bytes(layout));
    assert_eq!(run(&payload, |w| equipment(w, layout, &registry(), &ids())), Ok(expected));

    // Below 1.16 one slot: a `VarInt` from 1.9, two bytes below.
    assert_eq!(run(&[4, 2, 0], |w| equipment(w, V::V_1_9, &registry(), &ids())), Ok(vec![4, 2, 0]));
    assert_eq!(run(&[4, 0, 2, 0], |w| equipment(w, V::V_1_8, &registry(), &ids())), Ok(vec![4, 0, 2, 0]));
    // Up to 1.7.6 the entity id is an `Int`.
    assert_eq!(
        run(&[0, 0, 0, 4, 0, 2, 0], |w| equipment(w, V::V_1_7_6, &registry(), &ids())),
        Ok(vec![0, 0, 0, 4, 0, 2, 0])
    );
    // A last entry that promises another with nothing after it.
    assert_eq!(run(&[4, 0x80, 0], |w| equipment(w, layout, &registry(), &ids())), Err(TranslateError::Read));
}

#[test]
fn a_trade_puts_its_costs_and_result_in_the_clients_form() {
    let layout = V::V_1_21_5;
    let mut payload = vec![1, 1, 7, 2, 0];
    payload.extend(native_bytes());
    payload.extend([0, 0]);
    payload.extend([0u8; 24]);
    payload.extend([3, 4, 1, 0]);
    let mut expected = vec![1, 1, 9, 2, 0];
    expected.extend(client_bytes(layout));
    expected.extend([0, 0]);
    expected.extend([0u8; 24]);
    expected.extend([3, 4, 1, 0]);
    assert_eq!(run(&payload, |w| merchant_offers(w, layout, &registry(), &ids())), Ok(expected));

    let payload = vec![1, 0x81, 0x02];
    assert_eq!(
        run(&payload, |w| merchant_offers(w, layout, &registry(), &ids())),
        Err(TranslateError::Unsupported("merchant offer count"))
    );
}

#[test]
fn a_click_is_renumbered_for_the_server() {
    let connection = UserConnection::new(0, V::V_1_21_5);
    let frame = vec![1, 5, 0, 3, 0, 0];
    let mut payload = frame.clone();
    payload.extend([1, 0, 3, 1, 9, 1, 1, 3, 0, 0, 0, 7, 0, 0]);
    let mut expected = frame.clone();
    expected.extend([1, 0, 3, 1, 7, 1, 1, 0, 0, 0, 0, 7, 0, 0]);
    assert_eq!(run(&payload, |w| click_container(w, &connection, &ids())), Ok(expected));

    assert_eq!(run(&frame, |w| click_frame(w, V::V_1_21_5)), Ok(frame.clone()));
    // Below 1.21.2 the container id is one byte, below 1.17.1 the state id two.
    let old_frame = vec![1, 0, 5, 0, 3, 0, 0];
    assert_eq!(run(&old_frame, |w| click_frame(w, V::V_1_16_2)), Ok(old_frame.clone()));

    // An item the server has no counterpart for is no stack at all.
    let mut payload = frame.clone();
    payload.extend([0, 1, 8, 1, 0, 0]);
    let mut expected = frame.clone();
    expected.extend([0, 0]);
    assert_eq!(run(&payload, |w| click_container(w, &connection, &ids())), Ok(expected));
}

#[test]
fn an_advancement_icon_is_put_in_the_clients_form() {
    let layout = V::V_1_21_5;
    let head = vec![1, 1, 1, b'a', 0, 1, 0, 0];
    let tail = {
        let mut t = vec![0, 0, 0, 0, 1, 1, b'b'];
        t.extend([0u8; 8]);
        t.extend([1, 1, 1, b'c', 0, 0, 0, 0]);
        t
    };
    let mut payload = head.clone();
    payload.extend(native_bytes());
    payload.extend(tail.clone());
    let mut expected = head.clone();
    expected.extend(client_bytes(layout));
    expected.extend(tail);
    assert_eq!(run(&payload, |w| advancements(w, layout, &registry(), &ids())), Ok(expected));

    assert_eq!(
        run(&[0, 0x81, 0x20], |w| advancements(w, layout, &registry(), &ids())),
        Err(TranslateError::Unsupported("advancement count"))
    );
}

#[test]
fn a_creative_slot_comes_back_in_the_newest_form() {
    let mut payload = vec![0, 3];
    payload.extend(client_bytes(V::V_1_21_4));
    let mut expected = vec![0, 3];
    expected.extend(native_bytes());
    assert_eq!(run(&payload, |w| creative_slot(w, V::V_1_21_4, &registry(), &ids())), Ok(expected));

    // From 1.21.5 every payload comes after its length, and goes on so.
    let mut payload = vec![0, 3, 1, 9, 2, 0, 3, 3, 1, 12, 5, 4, 0];
    let expected = vec![0, 3, 1, 7, 2, 0, 0, 3, 1, 12, 5, 1, 0];
    assert_eq!(run(&payload, |w| creative_slot(w, V::V_1_21_5, &registry(), &ids())), Ok(expected));
}

/// A sharpness 5 sword in the newest form, as core writes it.
fn enchanted_sword() -> Item {
    Item::Structured {
        count: 1,
        id: 7,
        added: vec![ItemComponent { id: 0, data: vec![1, 12, 5] }],
        removed: Vec::new(),
    }
}

/// The components as the client numbers them: from 3 on, in the newest order.
fn client_registry() -> Vec<DataComponent> {
    vec![
        DataComponent::Damage,
        DataComponent::Damage,
        DataComponent::Damage,
        DataComponent::Enchantments,
        DataComponent::Unbreakable,
        DataComponent::Damage,
    ]
}

fn newest_bytes(item: &Item) -> Vec<u8> {
    let mut out = Vec::new();
    assert!(ItemT::for_version(V::V_26_3).write(&mut out, item));
    out
}

#[test]
fn container_content_keeps_its_frame_and_rewrites_every_slot() {
    let layout = V::V_1_21_2;
    let mut payload = vec![3, 9, 2];
    payload.extend(newest_bytes(&enchanted_sword()));
    payload.extend(newest_bytes(&Item::Empty));
    payload.extend(newest_bytes(&Item::Empty));

    let out = run(&payload, |w| container_content(w, layout, &registry(), &ids())).unwrap();
    let (window, p) = read_var_int(&out, 0).unwrap();
    assert_eq!(window, 3);
    let (state, p) = read_var_int(&out, p).unwrap();
    assert_eq!(state, 9);
    let (count, p) = read_var_int(&out, p).unwrap();
    assert_eq!(count, 2);
    let (sword, _) = ItemT::for_version(layout).read(&client_registry(), &out, p).unwrap();
    assert_eq!(sword.item_id(), ids().items.map(7).map(|id| id as i32));
}

#[test]
fn merchant_offers_rewrite_both_cost_forms() {
    let layout = V::V_1_21_2;
    let sword = enchanted_sword();
    let mut payload = vec![1, 1];
    ITEM_COST.write(&mut payload, &sword);
    payload.extend(newest_bytes(&sword));
    payload.push(0);
    payload.push(1);
    payload.extend([0, 0, 0, 1, 0, 0, 0, 2, 0, 0, 0, 3, 0, 0, 0, 4]);
    payload.extend([0, 0, 0, 0]);
    payload.extend([0, 0, 0, 5]);
    payload.extend([1, 0, 1, 0]);

    let out = run(&payload, |w| merchant_offers(w, layout, &registry(), &ids())).unwrap();
    let (container, p) = read_var_int(&out, 0).unwrap();
    assert_eq!(container, 1);
    let (offers, p) = read_var_int(&out, p).unwrap();
    assert_eq!(offers, 1);
    let (cost, _) = ITEM_COST.read(&client_registry(), &out, p).unwrap();
    assert!(cost.item_id().is_some());
}

#[test]
fn a_creative_slot_comes_back_in_the_26_3_form() {
    let layout = V::V_1_21_4;
    let client = StructuredItemRewriter::to_version(&registry(), &enchanted_sword(), layout, &ids());
    let mut payload = vec![0, 36];
    assert!(ItemT::for_version(layout).write(&mut payload, &client));

    let out = run(&payload, |w| creative_slot(w, layout, &registry(), &ids())).unwrap();
    let (slot, p) = read_i16(&out, 0).unwrap();
    assert_eq!(slot, 36);
    let (native, p) = ItemT::for_version(V::V_26_3).read(&registry(), &out, p).unwrap();
    assert_eq!(native.item_id(), Some(7));
    assert_eq!(p, out.len());
}

#[test]
fn a_click_maps_the_hashes_back_to_26_3_ids() {
    let layout = V::V_1_21_5;
    let connection = UserConnection::new(0, layout);
    let sword = ids().items.map(7).unwrap();
    let mut payload = vec![1, 9, 0, 36, 0, 0, 0];
    payload.push(1);
    payload.push(sword as u8);
    payload.extend([1, 0, 0]);

    let out = run(&payload, |w| click_container(w, &connection, &ids())).unwrap();
    let (_, p) = read_var_int(&out, 0).unwrap();
    let (_, p) = read_var_int(&out, p).unwrap();
    let (_, p) = read_i16(&out, p).unwrap();
    let (_, p) = read_u8(&out, p).unwrap();
    let (_, p) = read_var_int(&out, p).unwrap();
    let (changed, p) = read_var_int(&out, p).unwrap();
    assert_eq!(changed, 0, "no changed slots");
    let (carried, p) = HASHED_ITEM.read(&out, p).unwrap();
    assert_eq!(carried.unwrap().id, 7);
    assert_eq!(p, out.len());
}

#[test]
fn container_content_on_1_16_has_a_short_count_and_no_carried_item() {
    let layout = V::V_1_16_2;
    let mut payload = vec![3, 0, 1];
    payload.extend(newest_bytes(&enchanted_sword()));

    let out = run(&payload, |w| container_content(w, layout, &registry(), &ids())).unwrap();
    let (window, p) = read_u8(&out, 0).unwrap();
    assert_eq!(window, 3);
    let (count, p) = read_i16(&out, p).unwrap();
    assert_eq!(count, 1);
    let (sword, p) = ItemT::for_version(layout).read(&client_registry(), &out, p).unwrap();
    assert!(matches!(sword, Item::Nbt { .. }), "the nbt form");
    assert_eq!(p, out.len());
}

#[test]
fn a_container_slot_keeps_the_state_id() {
    let layout = V::V_1_20_2;
    let mut payload = vec![1, 9, 0, 5];
    payload.extend(newest_bytes(&enchanted_sword()));

    let out = run(&payload, |w| container_slot(w, layout, &registry(), &ids())).unwrap();
    assert_eq!(&out[..4], &[1, 9, 0, 5]);
}

#[test]
fn equipment_stops_at_the_terminator() {
    let layout = V::V_1_20_2;
    let mut payload = vec![42, 4 | 0x80];
    payload.extend(newest_bytes(&enchanted_sword()));
    payload.push(3);
    payload.extend(newest_bytes(&Item::Empty));

    let out = run(&payload, |w| equipment(w, layout, &registry(), &ids())).unwrap();
    let (entity, p) = read_var_int(&out, 0).unwrap();
    assert_eq!(entity, 42);
    let (slot, p) = read_u8(&out, p).unwrap();
    assert_eq!(slot, 4 | 0x80);
    let (_, p) = ItemT::for_version(layout).read(&client_registry(), &out, p).unwrap();
    let (slot, p) = read_u8(&out, p).unwrap();
    assert_eq!(slot, 3);
    let (_, p) = ItemT::for_version(layout).read(&client_registry(), &out, p).unwrap();
    assert_eq!(p, out.len());
}
