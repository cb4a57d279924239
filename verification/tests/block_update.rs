use pumpkin_java_multiversion::api::wrapper::PacketWrapper;
use pumpkin_java_multiversion::api::TranslateError;
use pumpkin_java_multiversion::codec::{read_var_long, write_bool, write_i32, write_i64, write_var_int, write_var_long};
use pumpkin_java_multiversion::data::mappings::{ComposedMappings, IdMapping};
use pumpkin_java_multiversion::packet::block_update::{remap_block_update, remap_level_event, remap_section_blocks_update};
use pumpkin_java_multiversion::packet::entity::remap_spawn_entity;
use pumpkin_java_multiversion::packet::mappings::PacketId;
use pumpkin_java_multiversion::pipeline::id_pass::{block_update_pass, level_event};
use pumpkin_java_multiversion::version::JavaMinecraftVersion;

const LEVEL_EVENT: PacketId = PacketId { key: 60, v26_3: 42 };
const BLOCK_UPDATE: PacketId = PacketId { key: 61, v26_3: 8 };

fn states() -> IdMapping {
    IdMapping::from_table(vec![0, 7, 3, -1])
}

#[test]
fn a_block_update_gets_its_state_renumbered() {
    let mut payload = Vec::new();
    write_i64(&mut payload, 0x0102_0304_0506);
    write_var_int(&mut payload, 1);
    let mut expected = Vec::new();
    write_i64(&mut expected, 0x0102_0304_0506);
    write_var_int(&mut expected, 7);
    assert_eq!(remap_block_update(&payload, &states()), Some(expected));

    // A state the client lacks becomes air; one beyond sixteen bits is refused.
    let mut missing = Vec::new();
    write_i64(&mut missing, 1);
    write_var_int(&mut missing, 3);
    assert_eq!(remap_block_update(&missing, &states()).unwrap()[8], 0);
    let mut wide = Vec::new();
    write_i64(&mut wide, 1);
    write_var_int(&mut wide, 70_000);
    assert_eq!(remap_block_update(&wide, &states()), None);
}

#[test]
fn each_section_change_keeps_its_position_and_renumbers_its_state() {
    let mut payload = Vec::new();
    write_i64(&mut payload, 9);
    write_var_int(&mut payload, 2);
    write_var_long(&mut payload, (1 << 12) | 0x123);
    write_var_long(&mut payload, (2 << 12) | 0xfff);
    let out = remap_section_blocks_update(&payload, &states()).unwrap();
    assert_eq!(&out[..9], &payload[..9]);
    let (first, p) = read_var_long(&out, 9).unwrap();
    let (second, end) = read_var_long(&out, p).unwrap();
    assert_eq!(first, (7 << 12) | 0x123);
    assert_eq!(second, (3 << 12) | 0xfff);
    assert_eq!(end, out.len());

    let mut truncated = payload.clone();
    truncated.pop();
    assert_eq!(remap_section_blocks_update(&truncated, &states()), None);
}

fn level_event_payload(event: i32, data: i32) -> Vec<u8> {
    let mut payload = Vec::new();
    write_i32(&mut payload, event);
    write_i64(&mut payload, 5);
    write_i32(&mut payload, data);
    write_bool(&mut payload, false);
    payload
}

#[test]
fn only_the_block_break_event_carries_a_state() {
    assert_eq!(remap_level_event(&level_event_payload(2001, 2), &states()), Some(level_event_payload(2001, 3)));
    assert_eq!(remap_level_event(&level_event_payload(1000, 2), &states()), None);

    let mut ids = ComposedMappings::identity();
    ids.blockstates = states();
    let version = JavaMinecraftVersion::V_1_21;
    let other = level_event_payload(1000, 2);
    let mut wrapper = PacketWrapper::new(LEVEL_EVENT, &other);
    level_event(&mut wrapper, version, &ids).unwrap();
    assert_eq!(wrapper.finish().unwrap().unwrap().payload, other);

    let broken = level_event_payload(2001, 1);
    let mut wrapper = PacketWrapper::new(LEVEL_EVENT, &broken);
    level_event(&mut wrapper, version, &ids).unwrap();
    assert_eq!(wrapper.finish().unwrap().unwrap().payload, level_event_payload(2001, 7));
}

#[test]
fn a_block_update_the_client_cannot_read_is_refused() {
    let mut ids = ComposedMappings::identity();
    ids.blockstates = states();
    let payload = [0u8; 4];
    let mut wrapper = PacketWrapper::new(BLOCK_UPDATE, &payload);
    assert!(matches!(
        block_update_pass(&mut wrapper, JavaMinecraftVersion::V_1_21, &ids),
        Err(TranslateError::Unsupported("block update"))
    ));
    let mut wrapper = PacketWrapper::new(BLOCK_UPDATE, &payload);
    block_update_pass(&mut wrapper, JavaMinecraftVersion::V_1_17_1, &ids).unwrap();
    assert_eq!(wrapper.finish().unwrap().unwrap().payload, payload);
}

#[test]
fn a_spawn_has_only_its_type_renumbered() {
    let mut payload = Vec::new();
    write_var_int(&mut payload, 11);
    payload.extend_from_slice(&[9; 16]);
    write_var_int(&mut payload, 2);
    payload.extend_from_slice(&[1, 2, 3]);
    let entities = IdMapping::from_table(vec![0, 1, 200]);
    let mut expected = Vec::new();
    write_var_int(&mut expected, 11);
    expected.extend_from_slice(&[9; 16]);
    write_var_int(&mut expected, 200);
    expected.extend_from_slice(&[1, 2, 3]);
    assert_eq!(remap_spawn_entity(&payload, &entities), Some(expected));
    assert_eq!(remap_spawn_entity(&payload[..10], &entities), None);
    assert_eq!(remap_spawn_entity(&payload, &IdMapping::from_table(vec![0, 1])), None);
}
