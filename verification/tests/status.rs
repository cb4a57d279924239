use pumpkin_java_multiversion::codec::{read_string, write_prefixed};
use pumpkin_java_multiversion::packet::status::rewrite_status_response;
use pumpkin_java_multiversion::version::JavaMinecraftVersion;

const TIER_4: &[JavaMinecraftVersion] = &[
    JavaMinecraftVersion::V_1_16_2,
    JavaMinecraftVersion::V_1_16_3,
    JavaMinecraftVersion::V_1_16_4,
    JavaMinecraftVersion::V_1_17,
    JavaMinecraftVersion::V_1_17_1,
    JavaMinecraftVersion::V_1_18,
    JavaMinecraftVersion::V_1_18_2,
    JavaMinecraftVersion::V_1_19,
    JavaMinecraftVersion::V_1_19_1,
    JavaMinecraftVersion::V_1_19_3,
    JavaMinecraftVersion::V_1_19_4,
    JavaMinecraftVersion::V_1_20,
    JavaMinecraftVersion::V_1_20_2,
    JavaMinecraftVersion::V_1_20_3,
    JavaMinecraftVersion::V_1_20_5,
];

fn payload(json: &str) -> Vec<u8> {
    let mut out = Vec::new();
    write_prefixed(&mut out, json.as_bytes());
    out
}

const SERVER_RESPONSE: &str = r#"{"version":{"name":"26.3","protocol":777},"players":{"max":20,"online":0,"sample":[]},"description":{"text":"A Pumpkin Server"},"enforcesSecureChat":false}"#;

#[test]
fn every_tier_4_version_gets_its_own_protocol_back() {
    for version in TIER_4 {
        let out = rewrite_status_response(&payload(SERVER_RESPONSE), *version)
            .unwrap_or_else(|| panic!("{version:?} produced no response"));

        let (json, end) = read_string(&out, 0).expect("status response is a string");
        assert_eq!(end, out.len(), "{version:?}: trailing bytes after the string");

        let value: serde_json::Value = serde_json::from_slice(&json).expect("status response is valid JSON");
        assert_eq!(
            value["version"]["protocol"].as_i64(),
            Some(i64::from(version.protocol_version())),
            "{version:?}: protocol was not echoed back"
        );
        assert_eq!(
            value["version"]["name"].as_str(),
            Some(version.name()),
            "{version:?}: version name was not rewritten"
        );
        assert_eq!(value["description"]["text"].as_str(), Some("A Pumpkin Server"));
        assert_eq!(value["players"]["max"].as_i64(), Some(20));
    }
}

#[test]
fn a_payload_that_is_not_a_status_response_is_left_alone() {
    let version = JavaMinecraftVersion::V_1_16_2;
    assert!(rewrite_status_response(&[0xFF, 0xFF], version).is_none());
    assert!(rewrite_status_response(&payload("not json"), version).is_none());
    assert!(rewrite_status_response(&payload(r#"{"players":{}}"#), version).is_none());
    assert!(rewrite_status_response(&payload(r#"{"version":7}"#), version).is_none());
}
