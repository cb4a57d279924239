use pumpkin_java_multiversion::codec::{write_i32, write_i64, write_prefixed, write_var_int};
use pumpkin_java_multiversion::packet::join::{login_codec, respawn_world, rewrite_login, rewrite_respawn};
use pumpkin_java_multiversion::version::JavaMinecraftVersion as V;

const TIER: &[V] = &[
    V::V_1_16_2,
    V::V_1_16_3,
    V::V_1_16_4,
    V::V_1_17,
    V::V_1_17_1,
    V::V_1_18,
    V::V_1_18_2,
    V::V_1_19,
    V::V_1_19_1,
    V::V_1_19_3,
    V::V_1_19_4,
    V::V_1_20,
];

const WORLD: &[u8] = b"minecraft:overworld";

/// The server's codec: a compound named by the empty string holding a byte.
fn server_codec() -> Vec<u8> {
    vec![10, 0, 0, 1, 0, 1, b'a', 5, 0]
}

/// The body the version's own registry data gives the codec.
fn client_codec_body() -> Vec<u8> {
    vec![3, 0, 1, b'b', 0, 0, 0, 9, 0]
}

/// The version's dimension element, an unnamed compound.
fn client_element() -> Vec<u8> {
    vec![10, 8, 0, 1, b'n', 0, 1, b'x', 0]
}

fn head() -> Vec<u8> {
    let mut out = Vec::new();
    write_i32(&mut out, 7);
    out.extend([0, 0, 0xff]);
    write_var_int(&mut out, 1);
    write_prefixed(&mut out, WORLD);
    out
}

fn tail(version: V) -> Vec<u8> {
    let mut out = Vec::new();
    write_prefixed(&mut out, WORLD);
    write_i64(&mut out, 1234);
    write_var_int(&mut out, 20);
    write_var_int(&mut out, 10);
    if version.at_least(V::V_1_18) {
        write_var_int(&mut out, 10);
    }
    out.extend([0, 1, 0, 0]);
    if version.at_least(V::V_1_19) {
        out.push(0);
    }
    if version.at_least(V::V_1_20) {
        write_var_int(&mut out, 0);
    }
    out
}

/// A join packet the way the server writes it for `version`.
fn server_login(version: V) -> Vec<u8> {
    let mut out = head();
    out.extend(server_codec());
    if version.older_than(V::V_1_19) {
        out.extend([10, 0, 0, 1, 0, 1, b'm', 1, 0]);
    } else {
        write_prefixed(&mut out, WORLD);
    }
    out.extend(tail(version));
    out
}

#[test]
fn every_tier_version_keeps_the_layout_and_replaces_the_codec() {
    for &version in TIER {
        let payload = server_login(version);
        let out = rewrite_login(&payload, version, &client_codec_body(), Some(&client_element())).unwrap();
        let mut expected = head();
        expected.extend([10, 0, 0]);
        expected.extend(client_codec_body());
        if version.older_than(V::V_1_19) {
            expected.extend([10, 0, 0, 8, 0, 1, b'n', 0, 1, b'x', 0]);
        } else {
            write_prefixed(&mut expected, WORLD);
        }
        expected.extend(tail(version));
        assert_eq!(out, expected, "{version:?}");
        assert_eq!(login_codec(&payload, version), Some((server_codec(), WORLD.to_vec())), "{version:?}");
    }
}

#[test]
fn tail_fields_survive_the_rewrite() {
    let version = V::V_1_20;
    let mut payload = head();
    payload.extend(server_codec());
    write_prefixed(&mut payload, WORLD);
    write_prefixed(&mut payload, WORLD);
    write_i64(&mut payload, -99);
    write_var_int(&mut payload, 100);
    write_var_int(&mut payload, 12);
    write_var_int(&mut payload, 8);
    payload.extend([1, 0, 1, 1]);
    payload.push(1);
    write_prefixed(&mut payload, b"minecraft:the_nether");
    write_i64(&mut payload, 0x0102_0304_0506_0708);
    write_var_int(&mut payload, 40);
    let out = rewrite_login(&payload, version, &server_codec()[3..], None).unwrap();
    assert_eq!(out, payload);
}

#[test]
fn a_short_or_long_payload_is_dropped() {
    for &version in TIER {
        let payload = server_login(version);
        assert!(rewrite_login(&payload[..payload.len() - 1], version, &client_codec_body(), Some(&client_element())).is_none());
        let mut long = payload.clone();
        long.push(0);
        assert!(rewrite_login(&long, version, &client_codec_body(), Some(&client_element())).is_none());
    }
}

#[test]
fn versions_outside_the_tier_are_not_touched() {
    for version in [V::V_1_16_1, V::V_1_20_2, V::V_26_3] {
        assert!(rewrite_login(&server_login(V::V_1_20), version, &client_codec_body(), None).is_none());
        assert!(login_codec(&server_login(V::V_1_20), version).is_none());
    }
    assert!(rewrite_respawn(&[10, 0, 0, 0], V::V_1_19, Some(&client_element())).is_none());
}

#[test]
fn a_missing_element_drops_the_join_below_1_19() {
    let payload = server_login(V::V_1_18_2);
    assert!(rewrite_login(&payload, V::V_1_18_2, &client_codec_body(), None).is_none());
    assert!(rewrite_login(&payload, V::V_1_18_2, &client_codec_body(), Some(&[8, 0])).is_none());
}

fn server_respawn() -> Vec<u8> {
    let mut out = vec![10, 0, 0, 1, 0, 1, b'm', 1, 0];
    write_prefixed(&mut out, WORLD);
    out.extend([0, 0, 0, 0, 0, 0, 4, 210, 1, 0xff, 0, 0, 1]);
    out
}

#[test]
fn respawn_dimension_is_this_versions_own() {
    let payload = server_respawn();
    assert_eq!(respawn_world(&payload), Some(WORLD.to_vec()));
    let out = rewrite_respawn(&payload, V::V_1_17_1, Some(&client_element())).unwrap();
    let mut expected = vec![10, 0, 0, 8, 0, 1, b'n', 0, 1, b'x', 0];
    write_prefixed(&mut expected, WORLD);
    expected.extend([0, 0, 0, 0, 0, 0, 4, 210, 1, 0xff, 0, 0, 1]);
    assert_eq!(out, expected);
}

#[test]
fn a_respawn_with_a_wrong_tail_is_dropped() {
    let mut payload = server_respawn();
    payload.push(0);
    assert!(rewrite_respawn(&payload, V::V_1_17_1, Some(&client_element())).is_none());
    assert!(rewrite_respawn(&payload[..payload.len() - 2], V::V_1_17_1, Some(&client_element())).is_none());
}
