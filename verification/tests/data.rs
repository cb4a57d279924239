use pumpkin_java_multiversion::data::entity_types::entity_type_absent_on_version;
use pumpkin_java_multiversion::data::mappings::IdMapping;
use pumpkin_java_multiversion::version::JavaMinecraftVersion as V;

#[test]
fn inverse_keeps_the_lowest_id() {
    let mapping = IdMapping::from_table(vec![0, 1, 5, 3, 5]);
    assert_eq!(mapping.inverse().map(5), Some(2));
}

#[test]
fn a_negative_entry_maps_nowhere_and_the_identity_maps_everything() {
    let mapping = IdMapping::from_table(vec![2, -1, 0]);
    assert_eq!(mapping.map(0), Some(2));
    assert_eq!(mapping.map(1), None);
    assert_eq!(mapping.map(3), None);
    assert_eq!(mapping.len(), 3);
    assert!(!mapping.is_identity());
    let identity = IdMapping::identity();
    assert!(identity.is_identity());
    assert_eq!(identity.map(1657), Some(1657));
    let bounded = IdMapping::bounded(4);
    assert_eq!(bounded.map(3), Some(3));
    assert_eq!(bounded.map(4), None);
}

#[test]
fn composing_maps_through_both() {
    let first = IdMapping::from_table(vec![1, 2, -1]);
    let second = IdMapping::from_table(vec![10, -1, 30]);
    let both = first.compose(&second);
    assert_eq!(both.map(0), None);
    assert_eq!(both.map(1), Some(30));
    assert_eq!(both.map(2), None);
    let through_identity = first.compose(&IdMapping::identity());
    assert_eq!(through_identity.map(0), Some(1));
}

#[test]
fn a_type_is_absent_until_the_version_that_added_it() {
    let creaking = 31;
    assert!(entity_type_absent_on_version(creaking, V::V_1_21));
    assert!(!entity_type_absent_on_version(creaking, V::V_1_21_4));
    let frog = 56;
    assert!(entity_type_absent_on_version(frog, V::V_1_18_2));
    assert!(!entity_type_absent_on_version(frog, V::V_1_19));
    let pig = 101;
    assert!(!entity_type_absent_on_version(pig, V::V_1_16_2));
    assert!(!entity_type_absent_on_version(pig, V::V_26_3));
}

#[test]
fn each_version_lacks_no_more_types_than_the_one_before() {
    let versions = [
        V::V_1_16_2, V::V_1_17, V::V_1_19, V::V_1_19_3, V::V_1_19_4, V::V_1_20_3, V::V_1_20_5,
        V::V_1_21_4, V::V_1_21_6, V::V_1_21_9, V::V_1_21_11, V::V_26_2, V::V_26_3,
    ];
    for pair in versions.windows(2) {
        for id in 0..200u16 {
            if entity_type_absent_on_version(id, pair[1]) {
                assert!(entity_type_absent_on_version(id, pair[0]), "{id} {:?}", pair[1]);
            }
        }
    }
}
