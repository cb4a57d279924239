use pumpkin_java_multiversion::packet::legacy::spawn_painting::direction_2d_from_3d_index;
use pumpkin_java_multiversion::packet::score::rewrite_reset_score;
use pumpkin_java_multiversion::packet::{is_version_supported, LOWEST_SUPPORTED, HIGHEST_SUPPORTED};
use pumpkin_java_multiversion::version::JavaMinecraftVersion;

#[test]
fn the_four_horizontal_facings_map_onto_their_2d_values() {
    assert_eq!(direction_2d_from_3d_index(3), Some(0));
    assert_eq!(direction_2d_from_3d_index(4), Some(1));
    assert_eq!(direction_2d_from_3d_index(2), Some(2));
    assert_eq!(direction_2d_from_3d_index(5), Some(3));
}

#[test]
fn vertical_and_out_of_range_facings_are_dropped() {
    for index in [-1, 0, 1, 6, 7, 1000] {
        assert_eq!(direction_2d_from_3d_index(index), None, "index {index} should not produce a facing");
    }
}

#[test]
fn reset_with_objective_becomes_remove_action() {
    let mut payload = Vec::new();
    payload.push(3);
    payload.extend_from_slice(b"bob");
    payload.push(1);
    payload.push(5);
    payload.extend_from_slice(b"kills");
    let out = rewrite_reset_score(&payload).unwrap();
    assert_eq!(out, b"\x03bob\x01\x05kills");
}

#[test]
fn reset_without_objective_uses_the_empty_objective() {
    let out = rewrite_reset_score(b"\x03bob\x00").unwrap();
    assert_eq!(out, b"\x03bob\x01\x00");
}

#[test]
fn trailing_bytes_are_rejected() {
    assert!(rewrite_reset_score(b"\x03bob\x00\x00").is_none());
    assert!(rewrite_reset_score(b"\x03bo").is_none());
}

#[test]
fn the_floor_is_1_16_2() {
    assert_eq!(LOWEST_SUPPORTED, JavaMinecraftVersion::V_1_16_2);
    assert!(is_version_supported(JavaMinecraftVersion::V_1_16_2));
    assert!(is_version_supported(JavaMinecraftVersion::V_1_20));
    assert!(!is_version_supported(JavaMinecraftVersion::V_1_16_1));
    assert!(!is_version_supported(JavaMinecraftVersion::Unknown));
}

#[test]
fn versions_below_the_floor_are_not_translated() {
    for version in [
        JavaMinecraftVersion::V_1_12_2,
        JavaMinecraftVersion::V_1_13_2,
        JavaMinecraftVersion::V_1_16,
        JavaMinecraftVersion::V_1_16_1,
        JavaMinecraftVersion::Unknown,
    ] {
        assert!(!is_version_supported(version), "{version:?} should be below the floor");
    }
    assert!(is_version_supported(HIGHEST_SUPPORTED));
}

#[test]
fn protocol_numbers_read_back_as_their_release() {
    assert_eq!(JavaMinecraftVersion::V_1_16_2.protocol_version(), 751);
    assert_eq!(JavaMinecraftVersion::V_26_3.protocol_version(), 777);
    assert_eq!(JavaMinecraftVersion::V_1_12_2.protocol_version(), 340);
    for protocol in [4, 47, 340, 578, 751, 754, 755, 763, 766, 777] {
        let version = JavaMinecraftVersion::from_protocol(protocol);
        assert_ne!(version, JavaMinecraftVersion::Unknown, "{protocol}");
        assert_eq!(version.protocol_version(), protocol);
    }
    assert_eq!(JavaMinecraftVersion::from_protocol(752), JavaMinecraftVersion::Unknown);
    assert_eq!(JavaMinecraftVersion::from_protocol(778), JavaMinecraftVersion::Unknown);
}

#[test]
fn releases_order_by_protocol_number() {
    let old = JavaMinecraftVersion::V_1_16_2;
    let new = JavaMinecraftVersion::V_1_21;
    assert!(new.at_least(old));
    assert!(old.at_most(new));
    assert!(old.older_than(new));
    assert!(!new.older_than(new));
    assert_eq!(old.max(new), new);
}
