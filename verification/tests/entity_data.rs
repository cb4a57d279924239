use pumpkin_java_multiversion::api::entity_data::{read_list, write_list, MetaValue, TERMINATOR};
use pumpkin_java_multiversion::api::rewriter::particle::{ParticleName, ParticleRegistry};
use pumpkin_java_multiversion::data::entity_data_types::{kind_for_name, MetaKind, MetaTypeTables};
use pumpkin_java_multiversion::version::JavaMinecraftVersion as V;

/// The newest protocol's serializer names, by id.
const NEWEST: [&str; 44] = [
    "byte", "int", "long", "float", "string", "component", "optional_component", "item_stack", "boolean",
    "rotations", "block_pos", "optional_block_pos", "direction", "optional_living_entity_reference",
    "block_state", "optional_block_state", "particle", "particles", "villager_data", "optional_unsigned_int",
    "pose", "cat_variant", "cow_sound_variant", "chicken_sound_variant", "wolf_variant", "wolf_sound_variant",
    "frog_variant", "pig_variant", "chicken_variant", "cow_variant", "zombie_nautilus_variant",
    "sniffer_state", "armadillo_state", "optional_global_pos", "painting_variant", "copper_golem_state",
    "weathering_copper_state", "vector3", "quaternion", "humanoid_arm", "pig_sound_variant",
    "resolvable_profile", "cat_sound_variant", "dye_color",
];

fn table(names: &[&str]) -> Vec<(Vec<u8>, i32)> {
    names.iter().enumerate().map(|(id, name)| (name.as_bytes().to_vec(), id as i32)).collect()
}

/// The 1.16.2 table: no byte buffer for a particle list, and the text
/// component one place lower.
fn v1_16_2() -> Vec<(Vec<u8>, i32)> {
    table(&[
        "byte", "integer", "float", "string", "text_component", "optional_text_component", "item_stack",
        "boolean", "rotation", "block_pos", "optional_block_pos", "facing", "optional_uuid", "block_state",
        "nbt", "particle", "villager_data", "optional_int", "entity_pose",
    ])
}

fn v1_20_3() -> Vec<(Vec<u8>, i32)> {
    table(&NEWEST[..17].iter().map(|n| match *n {
        "int" => "integer",
        "component" => "text_component",
        "optional_component" => "optional_text_component",
        other => other,
    }).collect::<Vec<_>>())
}

fn v1_20_5() -> Vec<(Vec<u8>, i32)> {
    let mut out = table(&[
        "byte", "integer", "long", "float", "string", "text_component", "optional_text_component",
        "item_stack", "boolean", "rotation", "block_pos", "optional_block_pos", "facing", "optional_uuid",
        "block_state", "optional_block_state", "nbt", "particle", "particle_list", "villager_data",
        "optional_int", "entity_pose",
    ]);
    out.push((b"unused".to_vec(), 22));
    out
}

fn v1_21_11() -> Vec<(Vec<u8>, i32)> {
    table(&NEWEST[..22])
}

fn v26_1() -> Vec<(Vec<u8>, i32)> {
    table(&NEWEST[..43])
}

fn tables() -> MetaTypeTables {
    let files = vec![
        (V::V_1_16_2, v1_16_2()),
        (V::V_1_18, v1_16_2()),
        (V::V_1_20_3, v1_20_3()),
        (V::V_1_20_5, v1_20_5()),
        (V::V_1_21_11, v1_21_11()),
        (V::V_26_1, v26_1()),
        (V::V_26_2, table(&NEWEST[..43])),
        (V::V_26_3, table(&NEWEST)),
    ];
    MetaTypeTables::build(&table(&NEWEST), &files)
}

/// A slice of the newest particle registry: the entity effect at 3.
fn registry() -> ParticleRegistry {
    ParticleRegistry {
        names: vec![ParticleName::Plain, ParticleName::Block, ParticleName::Dust, ParticleName::EntityEffect],
    }
}

fn effect_particle() -> u8 {
    3
}

/// A pig's shared flags, health and absent custom name, in the newest numbering.
fn pig_entries() -> Vec<u8> {
    let mut out = vec![0, 0, 0x08];
    out.extend([9, 3]);
    out.extend(10.0f32.to_be_bytes());
    out.extend([2, 6, 0]);
    out.push(TERMINATOR);
    out
}

#[test]
fn a_list_round_trips_in_every_layout() {
    let tables = tables();
    for layout in [V::V_1_16_2, V::V_1_18_2, V::V_1_20_3, V::V_1_21_4, V::V_26_2] {
        let payload = pig_entries();
        let (entries, end) = read_list(&payload, 0, layout, &tables, &registry()).unwrap();
        assert_eq!(end, payload.len(), "{}", layout.name());
        assert_eq!(entries.len(), 3, "{}", layout.name());
        assert_eq!(entries[1].index, 9);
        assert_eq!(entries[1].serializer, 3);
        let mut out = Vec::new();
        assert!(write_list(&mut out, &entries));
        assert_eq!(out, payload, "{}", layout.name());
    }
}

#[test]
fn a_component_is_a_json_string_below_1_20_3_and_nbt_from_it() {
    let tables = tables();
    let mut json = vec![2u8, 5];
    json.extend(b"\x02hi");
    json.push(TERMINATOR);
    let (entries, _) = read_list(&json, 0, V::V_1_20_2, &tables, &registry()).unwrap();
    assert!(matches!(&entries[0].value, MetaValue::Raw(bytes) if bytes.as_slice() == b"\x02hi"));

    // A single nbt string tag, which is what 1.20.3 and up read.
    let nbt = vec![2u8, 5, 0x08, 0x00, 0x02, b'h', b'i', TERMINATOR];
    let (entries, end) = read_list(&nbt, 0, V::V_1_20_3, &tables, &registry()).unwrap();
    assert!(matches!(&entries[0].value, MetaValue::Raw(bytes) if bytes.as_slice() == [0x08, 0x00, 0x02, b'h', b'i']));
    assert_eq!(end, nbt.len());
}

#[test]
fn a_block_state_and_an_optional_one_come_out_as_ids() {
    let payload = vec![9u8, 14, 0x80, 0x02, 11, 15, 0, TERMINATOR];
    let (entries, _) = read_list(&payload, 0, V::V_1_21_4, &tables(), &registry()).unwrap();
    assert!(matches!(entries[0].value, MetaValue::BlockState(256)));
    assert!(matches!(entries[1].value, MetaValue::OptionalBlockState(0)));
}

#[test]
fn an_effect_particle_list_keeps_its_colour() {
    let mut payload = vec![10u8, 17, 1, effect_particle()];
    payload.extend([0x11, 0x22, 0x33, 0x44, TERMINATOR]);
    let tables = tables();
    let (entries, _) = read_list(&payload, 0, V::V_26_2, &tables, &registry()).unwrap();
    let MetaValue::Particles(particles) = &entries[0].value else {
        panic!("not a particle list");
    };
    assert_eq!(particles.len(), 1);
    assert_eq!(particles[0].id, i32::from(effect_particle()));
    assert_eq!(particles[0].data, [0x11, 0x22, 0x33, 0x44]);
    let mut out = Vec::new();
    assert!(write_list(&mut out, &entries));
    assert_eq!(out, payload);
}

/// The colour arrived with 1.20.5, so the entry cannot be expressed below it.
#[test]
fn an_effect_particle_ends_the_list_below_1_20_5() {
    let mut payload = vec![10u8, 16, effect_particle()];
    payload.extend([0x11, 0x22, 0x33, 0x44, 8, 0, 1, TERMINATOR]);
    let (entries, end) = read_list(&payload, 0, V::V_1_20_3, &tables(), &registry()).unwrap();
    assert!(entries.is_empty());
    assert_eq!(end, payload.len());
}

/// Nothing after an item can be found again until the item rewriter lands.
#[test]
fn an_item_ends_the_list() {
    let payload = vec![0u8, 0, 0x08, 8, 7, 0, 9, 3, 0, 0, 0, 0, TERMINATOR];
    let (entries, end) = read_list(&payload, 0, V::V_1_21_4, &tables(), &registry()).unwrap();
    assert_eq!(entries.len(), 1);
    assert_eq!(entries[0].index, 0);
    assert_eq!(end, payload.len());
}

#[test]
fn a_serializer_with_no_reader_ends_the_list() {
    // 41 is resolvable_profile, which nothing writes.
    let payload = vec![0u8, 0, 0x08, 8, 41, 1, 2, 3, TERMINATOR];
    let (entries, _) = read_list(&payload, 0, V::V_26_2, &tables(), &registry()).unwrap();
    assert_eq!(entries.len(), 1);
}

#[test]
fn a_list_without_a_terminator_is_an_error() {
    assert!(read_list(&[0u8, 0, 0x08], 0, V::V_26_2, &tables(), &registry()).is_err());
}

/// The numbering the per version type tables have.
#[test]
fn ids_follow_the_version() {
    let tables = tables();
    // component: 5 on 26.3, 5 on 1.20.3 (text_component), 4 on 1.16.2.
    assert_eq!(tables.meta_data_type_id_for_version(5, V::V_26_3), Some(5));
    assert_eq!(tables.meta_data_type_id_for_version(5, V::V_1_20_3), Some(5));
    assert_eq!(tables.meta_data_type_id_for_version(5, V::V_1_16_2), Some(4));
    // pose: 20 on 26.3, 21 on 1.20.5, 18 on 1.16.2.
    assert_eq!(tables.meta_data_type_id_for_version(20, V::V_1_20_5), Some(21));
    assert_eq!(tables.meta_data_type_id_for_version(20, V::V_1_16_2), Some(18));
    // A version with no file of its own reads the newest older one.
    assert_eq!(
        tables.meta_data_type_id_for_version(20, V::V_1_16_4),
        tables.meta_data_type_id_for_version(20, V::V_1_16_2)
    );
    assert_eq!(
        tables.meta_data_type_id_for_version(20, V::V_1_18_2),
        tables.meta_data_type_id_for_version(20, V::V_1_18)
    );
}

#[test]
fn a_type_the_version_lacks_has_no_id() {
    let tables = tables();
    // particles arrived in 1.20.5 as particle_list.
    assert_eq!(tables.meta_data_type_id_for_version(17, V::V_1_20_3), None);
    assert_eq!(tables.meta_data_type_id_for_version(17, V::V_1_20_5), Some(18));
    // dye_color is 26.3 only.
    assert_eq!(tables.meta_data_type_id_for_version(43, V::V_26_2), None);
    assert_eq!(tables.meta_data_type_id_for_version(43, V::V_26_3), Some(43));
    // The sound variants arrived in 26.1.
    assert_eq!(tables.meta_data_type_id_for_version(22, V::V_1_21_11), None);
    assert_eq!(tables.meta_data_type_id_for_version(22, V::V_26_1), Some(22));
}

#[test]
fn kinds_come_from_the_26_3_names() {
    let tables = tables();
    assert_eq!(tables.meta_kind(0), Some(MetaKind::Byte));
    assert_eq!(tables.meta_kind(7), Some(MetaKind::Item));
    assert_eq!(tables.meta_kind(14), Some(MetaKind::BlockState));
    assert_eq!(tables.meta_kind(15), Some(MetaKind::OptionalBlockState));
    assert_eq!(tables.meta_kind(16), Some(MetaKind::Particle));
    assert_eq!(tables.meta_kind(17), Some(MetaKind::Particles));
    assert_eq!(tables.meta_kind(21), Some(MetaKind::VarInt));
    assert_eq!(tables.meta_kind(34), Some(MetaKind::PaintingVariant));
    // optional_global_pos and resolvable_profile have no reader.
    assert_eq!(tables.meta_kind(33), None);
    assert_eq!(tables.meta_kind(41), None);
    assert_eq!(tables.meta_kind(99), None);
}

#[test]
fn every_variant_registry_is_a_plain_id() {
    assert_eq!(kind_for_name(b"frog_variant"), Some(MetaKind::VarInt));
    assert_eq!(kind_for_name(b"painting_variant"), Some(MetaKind::PaintingVariant));
    assert_eq!(kind_for_name(b"_variant"), Some(MetaKind::VarInt));
    assert_eq!(kind_for_name(b"variant"), None);
}
