use pumpkin_java_multiversion::codec::{read_string, read_var_int, write_prefixed, write_var_int};
use pumpkin_java_multiversion::data::mappings::IdMapping;
use pumpkin_java_multiversion::packet::update_tags::{read_tags, rewrite_update_tags, ExtraTag, TagData};
use pumpkin_java_multiversion::version::JavaMinecraftVersion;

fn write_tag_list(out: &mut Vec<u8>, tags: &[(&str, &[i32])]) {
    write_var_int(out, tags.len() as i32);
    for (name, ids) in tags {
        write_prefixed(out, name.as_bytes());
        write_var_int(out, ids.len() as i32);
        for &id in *ids {
            write_var_int(out, id);
        }
    }
}

fn fixed_payload() -> Vec<u8> {
    let mut out = Vec::new();
    write_tag_list(&mut out, &[("minecraft:logs", &[1, 2])]);
    write_tag_list(&mut out, &[("minecraft:planks", &[3])]);
    write_tag_list(&mut out, &[("minecraft:water", &[0, 1])]);
    write_tag_list(&mut out, &[("minecraft:skeletons", &[4])]);
    out
}

fn read_fixed(payload: &[u8]) -> Vec<Vec<(String, Vec<i32>)>> {
    let mut lists = Vec::new();
    let mut pos = 0;
    for _ in 0..4 {
        let (tags, next) = read_tags(payload, pos).expect("tag list");
        lists.push(
            tags.into_iter()
                .map(|tag| (String::from_utf8(tag.name).unwrap(), tag.ids))
                .collect::<Vec<_>>(),
        );
        pos = next;
    }
    assert_eq!(pos, payload.len(), "four lists and nothing else");
    lists
}

/// Tag data for a version whose block and item ids are shifted by one, with
/// one extra block tag and one extra entity type tag.
fn data() -> TagData {
    TagData {
        registries: vec![b"block".to_vec(), b"item".to_vec(), b"fluid".to_vec(), b"entity_type".to_vec()],
        extras: vec![
            ExtraTag { registry: b"block".to_vec(), tag: b"dirt_like".to_vec(), members: vec![9] },
            ExtraTag { registry: b"entity_type".to_vec(), tag: b"raiders".to_vec(), members: vec![4, 5] },
        ],
        mappers: vec![
            (b"block".to_vec(), IdMapping::from_table(vec![-1, 2, 3, 4])),
            (b"item".to_vec(), IdMapping::from_table(vec![1, 2, 3, 4])),
        ],
    }
}

#[test]
fn the_fixed_shape_keeps_four_lists_in_order() {
    for version in [
        JavaMinecraftVersion::V_1_16_2,
        JavaMinecraftVersion::V_1_16_3,
        JavaMinecraftVersion::V_1_16_4,
    ] {
        let out = rewrite_update_tags(&fixed_payload(), version, &data())
            .unwrap_or_else(|| panic!("{version:?} rewritten"));
        let lists = read_fixed(&out);
        assert_eq!(lists.len(), 4, "{version:?}: no list may be dropped");
        assert_eq!(lists[2][0].0, "minecraft:water");
        assert_eq!(lists[2][0].1, vec![0, 1]);
        assert_eq!(lists[2].len(), 1);
    }
}

#[test]
fn the_fixed_shape_adds_back_this_versions_own_tags() {
    let out = rewrite_update_tags(&fixed_payload(), JavaMinecraftVersion::V_1_16_2, &data()).expect("rewritten");
    let lists = read_fixed(&out);
    assert_eq!(lists[0].len(), 2);
    assert_eq!(lists[0][1].0, "minecraft:dirt_like");
    assert_eq!(lists[1].len(), 1);
    assert_eq!(lists[2].len(), 1);
    assert_eq!(lists[3].len(), 2);
    assert_eq!(lists[3][1], ("minecraft:raiders".to_string(), vec![4, 5]));
}

#[test]
fn a_fixed_payload_that_does_not_parse_is_not_rewritten() {
    let version = JavaMinecraftVersion::V_1_16_2;
    let payload = fixed_payload();
    assert!(rewrite_update_tags(&payload[..payload.len() - 1], version, &data()).is_none(), "a truncated payload is not walked");
    let mut extra = payload.clone();
    extra.push(0);
    assert!(rewrite_update_tags(&extra, version, &data()).is_none(), "bytes left over mean this is not the shape we think it is");
    let mut named = Vec::new();
    write_var_int(&mut named, 1);
    write_prefixed(&mut named, b"minecraft:block");
    write_tag_list(&mut named, &[("minecraft:logs", &[1])]);
    assert!(rewrite_update_tags(&named, version, &data()).is_none());
}

#[test]
fn the_named_shape_drops_registries_the_client_lacks() {
    let version = JavaMinecraftVersion::V_1_17;
    let mut payload = Vec::new();
    write_var_int(&mut payload, 2);
    write_prefixed(&mut payload, b"minecraft:block");
    write_tag_list(&mut payload, &[("minecraft:logs", &[1, 2])]);
    write_prefixed(&mut payload, b"minecraft:damage_type");
    write_tag_list(&mut payload, &[("minecraft:is_fire", &[0])]);

    let out = rewrite_update_tags(&payload, version, &data()).expect("rewritten");
    let (groups, pos) = read_var_int(&out, 0).unwrap();
    assert_eq!(groups, 1, "one group left");
    let (registry, pos) = read_string(&out, pos).unwrap();
    assert_eq!(registry, b"minecraft:block".to_vec());
    let (tags, pos) = read_tags(&out, pos).expect("tag list");
    assert_eq!(pos, out.len());
    assert_eq!(tags.len(), 2);
    assert_eq!(tags[0].ids, vec![2, 3]);
}

#[test]
fn members_the_client_lacks_are_left_out_and_the_rest_renumbered() {
    let out = rewrite_update_tags(&fixed_payload(), JavaMinecraftVersion::V_1_16_2, &data()).expect("rewritten");
    let lists = read_fixed(&out);
    assert_eq!(lists[0][0], ("minecraft:logs".to_string(), vec![2, 3]));
    assert_eq!(lists[1][0], ("minecraft:planks".to_string(), vec![4]));
    assert_eq!(lists[3][0], ("minecraft:skeletons".to_string(), vec![4]));
}

#[test]
fn an_extra_tag_the_server_already_sent_is_not_added_twice() {
    let mut payload = Vec::new();
    write_tag_list(&mut payload, &[("minecraft:dirt_like", &[0])]);
    for _ in 0..3 {
        write_tag_list(&mut payload, &[]);
    }
    let out = rewrite_update_tags(&payload, JavaMinecraftVersion::V_1_16_2, &data()).expect("rewritten");
    let lists = read_fixed(&out);
    assert_eq!(lists[0].len(), 1);
    assert_eq!(lists[0][0].1, Vec::<i32>::new());
}
