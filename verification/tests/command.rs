use pumpkin_java_multiversion::api::rewriter::command::{commands, native};
use pumpkin_java_multiversion::api::wrapper::PacketWrapper;
use pumpkin_java_multiversion::api::TranslateError;
use pumpkin_java_multiversion::codec::{write_prefixed, write_u8, write_var_int};
use pumpkin_java_multiversion::data::mappings::{ComposedMappings, IdMapping};
use pumpkin_java_multiversion::packet::mappings::PacketId;
use pumpkin_java_multiversion::version::JavaMinecraftVersion;

const COMMANDS: PacketId = PacketId { key: 16, v26_3: 16 };

/// Argument types as the client numbers them: 1.20.2 stands the string
/// parser in for `minecraft:hex_color` (17) and has every later one a place
/// lower.
fn ids(version: JavaMinecraftVersion) -> ComposedMappings {
    let mut ids = ComposedMappings::identity();
    if version == JavaMinecraftVersion::V_1_20_2 {
        let table: Vec<i32> = (0..62).map(|id| if id <= 16 { id } else if id == 17 { 5 } else { id - 1 }).collect();
        ids.argumenttypes = IdMapping::from_table(table);
    } else if version != JavaMinecraftVersion::V_26_3 {
        ids.argumenttypes = IdMapping::bounded(62);
    }
    ids
}

/// One root with one argument child, the smallest tree core writes.
fn payload(parser: i32, properties: &[u8]) -> Vec<u8> {
    let mut out = Vec::new();
    write_var_int(&mut out, 2);
    write_u8(&mut out, 0);
    write_var_int(&mut out, 1);
    write_var_int(&mut out, 1);
    write_u8(&mut out, 2 | 4);
    write_var_int(&mut out, 0);
    write_prefixed(&mut out, b"arg");
    write_var_int(&mut out, parser);
    out.extend_from_slice(properties);
    write_var_int(&mut out, 0);
    out
}

fn run(payload: &[u8], version: JavaMinecraftVersion) -> Vec<u8> {
    let ids = ids(version);
    let mut wrapper = PacketWrapper::new(COMMANDS, payload);
    commands(&mut wrapper, version, &ids).unwrap();
    wrapper.finish().unwrap().unwrap().payload
}

/// 1.20.3 added `minecraft:style`, so every parser above it is one lower
/// on 1.20.2.
#[test]
fn a_known_parser_keeps_its_properties() {
    for version in [JavaMinecraftVersion::V_26_2, JavaMinecraftVersion::V_1_21, JavaMinecraftVersion::V_1_20_2] {
        let ids = ids(version);
        let mapped = ids.argumenttypes.map(3).unwrap() as i32;
        // An integer with a minimum of 1.
        let out = run(&payload(3, &[1, 0, 0, 0, 1]), version);
        assert_eq!(out, payload(mapped, &[1, 0, 0, 0, 1]), "{}", version.name());
    }
}

/// Below 1.19 core writes the parser identifier, so the tree is copied.
#[test]
fn the_string_form_is_left_alone() {
    let version = JavaMinecraftVersion::V_1_18_2;
    let mut out = Vec::new();
    write_var_int(&mut out, 1);
    write_u8(&mut out, 0);
    write_var_int(&mut out, 0);
    write_var_int(&mut out, 0);
    assert_eq!(run(&out, version), out);
}

/// `minecraft:hex_color` is 26.x only, so on 1.20.2 the node becomes a
/// single word string and its properties go with it.
#[test]
fn a_parser_the_client_lacks_becomes_a_string() {
    let version = JavaMinecraftVersion::V_1_20_2;
    let ids = ids(version);
    assert_eq!(ids.argumenttypes.map(17), Some(5));

    let out = run(&payload(17, &[]), version);
    let string = ids.argumenttypes.map(5).unwrap() as i32;
    assert_eq!(out, payload(string, &[0]));
}

/// Core writes dialog as 55 and uuid as 56, the 26.2 numbering.
#[test]
fn the_core_numbering_of_dialog_and_uuid_is_corrected() {
    let version = JavaMinecraftVersion::V_1_21_6;
    let ids = ids(version);
    for (parser, expected) in [(55, 58), (56, 61)] {
        assert_eq!(native(parser), expected);
        let mapped = ids.argumenttypes.map(expected as u32).unwrap() as i32;
        assert_eq!(run(&payload(parser, &[]), version), payload(mapped, &[]));
    }
}

#[test]
fn a_dropped_parser_reads_past_its_bounds() {
    let version = JavaMinecraftVersion::V_1_20_2;
    let mut ids = ids(version);
    ids.argumenttypes = IdMapping::from_table(vec![0, 1, 2, -1, 4, 5]);
    // An integer between 1 and 9 the client cannot parse.
    let bytes = payload(3, &[3, 0, 0, 0, 1, 0, 0, 0, 9]);
    let mut wrapper = PacketWrapper::new(COMMANDS, &bytes);
    commands(&mut wrapper, version, &ids).unwrap();
    assert_eq!(wrapper.finish().unwrap().unwrap().payload, payload(5, &[0]));
}

#[test]
fn a_client_without_a_string_parser_cannot_be_told_the_tree() {
    let mut ids = ComposedMappings::identity();
    ids.argumenttypes = IdMapping::bounded(5);
    let bytes = payload(3, &[0]);
    let mut wrapper = PacketWrapper::new(COMMANDS, &bytes);
    assert!(matches!(
        commands(&mut wrapper, JavaMinecraftVersion::V_1_21, &ids),
        Err(TranslateError::Unsupported("string argument type"))
    ));
}
