use pumpkin_java_multiversion::api::rewriter::stats::{award_stats, space};
use pumpkin_java_multiversion::api::wrapper::PacketWrapper;
use pumpkin_java_multiversion::codec::{read_var_int, write_var_int};
use pumpkin_java_multiversion::data::mappings::{ComposedMappings, IdMapping};
use pumpkin_java_multiversion::packet::mappings::PacketId;
use pumpkin_java_multiversion::version::JavaMinecraftVersion;

const AWARD_STATS: PacketId = PacketId { key: 4, v26_3: 4 };

/// A client whose blocks, items, entities and custom statistics all moved,
/// and which lacks custom statistic 17.
fn ids(version: JavaMinecraftVersion) -> ComposedMappings {
    let mut ids = ComposedMappings::identity();
    if version != JavaMinecraftVersion::V_26_3 {
        ids.blocks = IdMapping::from_table(vec![0, 10]);
        ids.items = IdMapping::from_table(vec![0, 20]);
        ids.entities = IdMapping::from_table(vec![0, 30]);
        let mut statistics: Vec<i32> = (0..20).map(|id| id + 1).collect();
        statistics[17] = -1;
        ids.statistics = IdMapping::from_table(statistics);
    }
    ids
}

fn payload(stats: &[(i32, i32, i32)]) -> Vec<u8> {
    let mut out = Vec::new();
    write_var_int(&mut out, stats.len() as i32);
    for (category, statistic, value) in stats {
        write_var_int(&mut out, *category);
        write_var_int(&mut out, *statistic);
        write_var_int(&mut out, *value);
    }
    out
}

fn run(stats: &[(i32, i32, i32)], version: JavaMinecraftVersion) -> Vec<(i32, i32, i32)> {
    let ids = ids(version);
    let bytes = payload(stats);
    let mut wrapper = PacketWrapper::new(AWARD_STATS, &bytes);
    award_stats(&mut wrapper, &ids).unwrap();
    let out = wrapper.finish().unwrap().unwrap().payload;

    let (count, mut p) = read_var_int(&out, 0).unwrap();
    let mut read = Vec::new();
    for _ in 0..count {
        let (category, q) = read_var_int(&out, p).unwrap();
        let (statistic, q) = read_var_int(&out, q).unwrap();
        let (value, q) = read_var_int(&out, q).unwrap();
        read.push((category, statistic, value));
        p = q;
    }
    assert_eq!(p, out.len());
    read
}

/// Mined takes a block id, the five item categories an item id, killed and
/// killed by an entity id and custom the statistic registry.
#[test]
fn every_category_goes_through_its_own_id_space() {
    for version in [JavaMinecraftVersion::V_26_2, JavaMinecraftVersion::V_1_21, JavaMinecraftVersion::V_1_16_2] {
        let ids = ids(version);
        let stats = [(0, 1, 7), (3, 1, 7), (6, 1, 7), (8, 1, 7)];
        let expected: Vec<(i32, i32, i32)> = stats
            .iter()
            .map(|(category, statistic, value)| {
                let mapped = space(*category, &ids).map(*statistic as u32).unwrap();
                (*category, mapped as i32, *value)
            })
            .collect();
        assert_eq!(expected, vec![(0, 10, 7), (3, 20, 7), (6, 30, 7), (8, 2, 7)]);
        assert_eq!(run(&stats, version), expected, "{}", version.name());
    }
}

/// Custom statistic 17 is one the client does not have; the entry goes and
/// the count drops with it.
#[test]
fn a_statistic_the_client_lacks_is_left_out() {
    let version = JavaMinecraftVersion::V_1_16_2;
    let ids = ids(version);
    assert!(ids.statistics.map(17).is_none());

    let kept = ids.statistics.map(0).unwrap() as i32;
    assert_eq!(run(&[(8, 17, 1), (8, 0, 2)], version), vec![(8, kept, 2)], "{}", version.name());
}

#[test]
fn a_truncated_statistic_list_is_a_read_error() {
    let mut bytes = payload(&[(8, 1, 1)]);
    bytes.pop();
    let ids = ids(JavaMinecraftVersion::V_1_21);
    let mut wrapper = PacketWrapper::new(AWARD_STATS, &bytes);
    assert!(award_stats(&mut wrapper, &ids).is_err());
}
