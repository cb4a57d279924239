use pumpkin_java_multiversion::api::rewriter::screen::{decoration, map_item_data, open_screen, FIRST_OPTIONAL_ICONS};
use pumpkin_java_multiversion::api::wrapper::PacketWrapper;
use pumpkin_java_multiversion::codec::write_var_int;
use pumpkin_java_multiversion::data::mappings::{ComposedMappings, IdMapping};
use pumpkin_java_multiversion::packet::mappings::PacketId;
use pumpkin_java_multiversion::version::JavaMinecraftVersion;

const OPEN_SCREEN: PacketId = PacketId { key: 50, v26_3: 57 };
const MAP_ITEM_DATA: PacketId = PacketId { key: 51, v26_3: 46 };

/// Menus as 1.20.2 numbers them: the crafter at 21 stands in as the
/// menu before it, and every later menu is one lower.
fn ids(version: JavaMinecraftVersion) -> ComposedMappings {
    let mut ids = ComposedMappings::identity();
    if version.older_than(JavaMinecraftVersion::V_1_20_3) {
        let menus: Vec<i32> = (0..25).map(|id| if id <= 20 { id } else { id - 1 }).collect();
        ids.menus = IdMapping::from_table(menus);
    } else if version != JavaMinecraftVersion::V_26_3 {
        ids.menus = IdMapping::bounded(25);
    }
    ids
}

fn run_screen(payload: &[u8], version: JavaMinecraftVersion) -> Option<Vec<u8>> {
    let mut wrapper = PacketWrapper::new(OPEN_SCREEN, payload);
    open_screen(&mut wrapper, &ids(version)).unwrap();
    wrapper.finish().unwrap().map(|out| out.payload)
}

fn run_map(payload: &[u8], version: JavaMinecraftVersion) -> Option<Vec<u8>> {
    let mut wrapper = PacketWrapper::new(MAP_ITEM_DATA, payload);
    map_item_data(&mut wrapper, version).unwrap();
    wrapper.finish().unwrap().map(|out| out.payload)
}

/// 1.20.3 put the crafter in the middle of the menu registry, so every
/// later menu is one lower on 1.20.2 and unchanged above it.
#[test]
fn the_menu_type_is_renumbered() {
    for version in [JavaMinecraftVersion::V_26_2, JavaMinecraftVersion::V_1_21, JavaMinecraftVersion::V_1_20_2] {
        let ids = ids(version);
        let payload = [1u8, 20, 0];
        let out = run_screen(&payload, version).unwrap();
        assert_eq!(out[1] as u32, ids.menus.map(20).unwrap(), "{}", version.name());
        assert_eq!(out[2], 0, "{}", version.name());
    }
    assert_eq!(run_screen(&[1, 21, 0], JavaMinecraftVersion::V_1_20_2).unwrap(), vec![1, 20, 0]);
}

/// A menu past the end of the 1.20.2 registry has no stand in.
#[test]
fn a_menu_the_client_lacks_drops_the_packet() {
    let version = JavaMinecraftVersion::V_1_20_2;
    let absent = ids(version).menus.len() as i32;
    let mut payload = vec![1u8];
    write_var_int(&mut payload, absent);
    payload.push(0);
    assert!(run_screen(&payload, version).is_none());
}

fn map_payload(icon: i32, version: JavaMinecraftVersion) -> Vec<u8> {
    let mut payload = vec![7u8, 0];
    if version.older_than(FIRST_OPTIONAL_ICONS) {
        payload.push(1);
    }
    payload.push(0);
    if version.at_least(FIRST_OPTIONAL_ICONS) {
        payload.push(1);
    }
    write_var_int(&mut payload, 1);
    write_var_int(&mut payload, icon);
    payload.extend_from_slice(&[1, 2, 3, 0]);
    // An empty patch.
    payload.push(0);
    payload
}

/// The decoration list is the same up to 1.20.1, so only the newest
/// markers move; the display name is NBT from 1.20.3 and a string below.
#[test]
fn map_decorations_fall_back_per_version() {
    for (version, icon, expected) in [
        (JavaMinecraftVersion::V_26_2, 34, 34),
        (JavaMinecraftVersion::V_1_21, 40, 34),
        (JavaMinecraftVersion::V_1_20_3, 34, 32),
        (JavaMinecraftVersion::V_1_16_2, 30, 2),
        (JavaMinecraftVersion::V_1_16_2, 26, 26),
    ] {
        let out = run_map(&map_payload(icon, version), version).unwrap();
        assert_eq!(out, map_payload(expected, version), "{} {icon}", version.name());
    }
}

#[test]
fn a_map_without_icons_is_copied() {
    let version = JavaMinecraftVersion::V_1_21;
    let payload = [7u8, 0, 0, 0, 0];
    assert_eq!(run_map(&payload, version).unwrap(), payload);
}

#[test]
fn the_newest_protocol_keeps_every_decoration() {
    assert_eq!(decoration(99, JavaMinecraftVersion::V_26_3), 99);
    assert_eq!(decoration(-1, JavaMinecraftVersion::V_1_21), 34);
    assert_eq!(decoration(40, JavaMinecraftVersion::V_1_12_2), 40);
}

#[test]
fn a_named_decoration_carries_its_nbt_from_1_20_3() {
    let version = JavaMinecraftVersion::V_1_20_3;
    let mut payload = vec![7u8, 0, 0, 1];
    write_var_int(&mut payload, 1);
    write_var_int(&mut payload, 3);
    payload.extend_from_slice(&[1, 2, 3, 1]);
    // A string tag holding "x".
    payload.extend_from_slice(&[8, 0, 1, b'x']);
    assert_eq!(run_map(&payload, version).unwrap(), payload);
    let mut truncated = payload.clone();
    truncated.pop();
    let mut wrapper = PacketWrapper::new(MAP_ITEM_DATA, &truncated);
    assert!(map_item_data(&mut wrapper, version).is_err());
}
