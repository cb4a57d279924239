use pumpkin_java_multiversion::data::mappings::IdMapping;
use pumpkin_java_multiversion::data::tracked_index::{tracked_index_for_version, EntityTypes};
use pumpkin_java_multiversion::version::JavaMinecraftVersion as V;

// Entity type ids, chosen to agree with the ageable and absent tables.
const FOX: u16 = 55;
const COW: u16 = 30;
const ITEM_FRAME: u16 = 71;
const GLOW_ITEM_FRAME: u16 = 85;
const PIG: u16 = 101;
const FURNACE_MINECART: u16 = 66;
const DOLPHIN: u16 = 37;
const SQUID: u16 = 123;
const GLOW_SQUID: u16 = 61;
const OAK_BOAT: u16 = 94;
const ARROW: u16 = 6;
const CREAKING: u16 = 31;
const PAINTING: u16 = 100;
const WOLF: u16 = 145;
const AREA_EFFECT_CLOUD: u16 = 3;
const LLAMA: u16 = 79;
const TRADER_LLAMA: u16 = 130;
const DONKEY: u16 = 36;
const HORSE: u16 = 67;
const TNT: u16 = 139;
const BREEZE: u16 = 17;
const ARMADILLO: u16 = 4;
const BOGGED: u16 = 16;
const TEXT_DISPLAY: u16 = 135;
const ALLAY: u16 = 2;
const GOAT: u16 = 62;
const SHULKER: u16 = 112;
const ZOMBIE: u16 = 151;
const ARMOR_STAND: u16 = 5;
const WARDEN: u16 = 146;
const CREEPER: u16 = 25;
const VILLAGER: u16 = 141;
const PLAYER: u16 = 110;

fn types() -> EntityTypes {
    EntityTypes {
        slime: 117,
        magma_cube: 80,
        sulfur_cube: 33,
        cow: COW,
        chicken: 26,
        pig: PIG,
        villager: VILLAGER,
        cat: 21,
        zombie_villager: 153,
        tadpole: 129,
        player: PLAYER,
        painting: PAINTING,
        item_frame: ITEM_FRAME,
        glow_item_frame: GLOW_ITEM_FRAME,
        mooshroom: 87,
        wolf: WOLF,
        frog: 56,
        experience_orb: 48,
        dolphin: DOLPHIN,
        turtle: 138,
        strider: 132,
        creaking: CREAKING,
        salmon: 109,
        area_effect_cloud: AREA_EFFECT_CLOUD,
        llama: LLAMA,
        trader_llama: TRADER_LLAMA,
        tnt: TNT,
        allay: ALLAY,
        goat: GOAT,
        shulker: SHULKER,
        minecarts: vec![FURNACE_MINECART, 64, 68],
        boats: vec![OAK_BOAT, 95, 8],
        arrows: vec![ARROW, 124, 140],
        water_creatures: vec![DOLPHIN, SQUID, GLOW_SQUID],
        displays: vec![15, 73, TEXT_DISPLAY],
        abstract_horses: vec![HORSE, DONKEY, LLAMA, TRADER_LLAMA, 88, 152, 19],
    }
}

fn at(entity_type: u16, index: u8, version: V) -> Option<u8> {
    tracked_index_for_version(&types(), &IdMapping::identity(), entity_type, index, version)
}

#[test]
fn fox_flags_move_down_one_on_1_21_11() {
    assert_eq!(at(FOX, 19, V::V_1_21_11), Some(18));
    assert_eq!(at(FOX, 17, V::V_1_21_11), None);
    assert_eq!(at(FOX, 16, V::V_1_21_11), Some(16));
    assert_eq!(at(FOX, 19, V::V_26_2), Some(19));
}

#[test]
fn cow_loses_two_fields_on_1_21_11() {
    assert_eq!(at(COW, 18, V::V_1_21_11), Some(17));
    assert_eq!(at(COW, 19, V::V_1_21_11), None);
}

#[test]
fn item_frame_item_is_index_8_on_1_21_5() {
    assert_eq!(at(ITEM_FRAME, 9, V::V_1_21_5), Some(8));
    assert_eq!(at(ITEM_FRAME, 9, V::V_1_21_6), Some(9));
    assert_eq!(at(ITEM_FRAME, 8, V::V_1_21_5), None);
}

#[test]
fn pig_boost_time_moves_to_18_on_1_21_4() {
    assert_eq!(at(PIG, 18, V::V_1_21_4), Some(18));
    assert_eq!(at(PIG, 19, V::V_1_21_4), None);
    assert_eq!(at(PIG, 18, V::V_1_21_5), Some(17));
}

#[test]
fn furnace_minecart_fuel_moves_up_on_1_21_4() {
    assert_eq!(at(FURNACE_MINECART, 13, V::V_1_21_4), Some(14));
    assert_eq!(at(FURNACE_MINECART, 11, V::V_1_21_4), None);
    assert_eq!(at(FURNACE_MINECART, 13, V::V_1_21_5), Some(13));
}

#[test]
fn dolphin_fields_on_older_versions() {
    assert_eq!(at(DOLPHIN, 18, V::V_1_21_4), Some(18));
    assert_eq!(at(DOLPHIN, 18, V::V_1_21), Some(17));
    assert_eq!(at(DOLPHIN, 16, V::V_1_21), None);
}

#[test]
fn boat_paddles_shift_on_1_21() {
    assert_eq!(at(OAK_BOAT, 11, V::V_1_21), Some(12));
    assert_eq!(at(OAK_BOAT, 11, V::V_1_21_2), Some(11));
}

#[test]
fn arrow_loses_in_ground_on_1_21() {
    assert_eq!(at(ARROW, 11, V::V_1_21), Some(10));
    assert_eq!(at(ARROW, 10, V::V_1_21), None);
}

#[test]
fn absent_entity_keeps_only_base_fields() {
    assert_eq!(at(CREAKING, 5, V::V_1_21), Some(5));
    assert_eq!(at(CREAKING, 9, V::V_1_21), None);
}

#[test]
fn painting_variant_is_left_out_on_1_20_5() {
    assert_eq!(at(PAINTING, 9, V::V_1_21), Some(8));
    assert_eq!(at(PAINTING, 9, V::V_1_20_5), None);
    assert_eq!(at(PAINTING, 2, V::V_1_20_5), Some(2));
}

#[test]
fn wolf_keeps_1_21_indices_on_1_20_5() {
    for index in 0..=24 {
        assert_eq!(at(WOLF, index, V::V_1_20_5), at(WOLF, index, V::V_1_21), "wolf index {index}");
    }
    assert_eq!(at(WOLF, 21, V::V_1_20_5), Some(20));
    assert_eq!(at(WOLF, 23, V::V_1_20_5), None);
}

#[test]
fn area_effect_cloud_gains_a_colour_field_on_1_20_3() {
    assert_eq!(at(AREA_EFFECT_CLOUD, 8, V::V_1_20_3), Some(8));
    assert_eq!(at(AREA_EFFECT_CLOUD, 9, V::V_1_20_3), Some(10));
    assert_eq!(at(AREA_EFFECT_CLOUD, 10, V::V_1_20_3), None);
    assert_eq!(at(AREA_EFFECT_CLOUD, 9, V::V_1_20_2), Some(10));
    assert_eq!(at(AREA_EFFECT_CLOUD, 9, V::V_1_20_5), Some(9));
    assert_eq!(at(AREA_EFFECT_CLOUD, 10, V::V_1_20_5), Some(10));
}

#[test]
fn llama_variant_moves_up_for_the_carpet_colour_on_1_20_3() {
    for llama in [LLAMA, TRADER_LLAMA] {
        assert_eq!(at(llama, 20, V::V_1_20_5), Some(19));
        assert_eq!(at(llama, 21, V::V_1_20_5), Some(20));
        assert_eq!(at(llama, 20, V::V_1_20_3), Some(19));
        assert_eq!(at(llama, 21, V::V_1_20_3), Some(21));
        assert_eq!(at(llama, 21, V::V_1_20_2), Some(21));
    }
    assert_eq!(at(DONKEY, 20, V::V_1_20_3), at(DONKEY, 20, V::V_1_20_5));
}

#[test]
fn tnt_loses_its_block_state_on_1_20_2() {
    assert_eq!(at(TNT, 9, V::V_1_20_3), Some(9));
    assert_eq!(at(TNT, 9, V::V_1_20_2), None);
    assert_eq!(at(TNT, 8, V::V_1_20_2), Some(8));
}

#[test]
fn breeze_pose_is_left_out_on_1_20_2() {
    assert_eq!(at(BREEZE, 6, V::V_1_20_3), Some(6));
    assert_eq!(at(BREEZE, 6, V::V_1_20_2), None);
    assert_eq!(at(BREEZE, 9, V::V_1_20_2), None);
    assert_eq!(at(BREEZE, 2, V::V_1_20_2), Some(2));
}

#[test]
fn entities_added_in_1_20_5_keep_only_base_fields_on_1_20_3() {
    for entity_type in [ARMADILLO, BOGGED] {
        assert_eq!(at(entity_type, 5, V::V_1_20_3), Some(5));
        assert_eq!(at(entity_type, 16, V::V_1_20_3), None);
        assert!(at(entity_type, 16, V::V_1_20_5).is_some());
    }
}

#[test]
fn display_loses_the_interpolation_duration_on_1_20() {
    assert_eq!(at(TEXT_DISPLAY, 10, V::V_1_20_2), Some(10));
    assert_eq!(at(TEXT_DISPLAY, 10, V::V_1_20), None);
    assert_eq!(at(TEXT_DISPLAY, 11, V::V_1_20), Some(10));
    assert_eq!(at(TEXT_DISPLAY, 11, V::V_1_19_4), Some(10));
    assert_eq!(at(TEXT_DISPLAY, 11, V::V_1_19_3), None);
}

#[test]
fn horses_gain_the_owner_uuid_on_1_19_3() {
    assert_eq!(at(HORSE, 19, V::V_1_19_4), Some(18));
    assert_eq!(at(HORSE, 19, V::V_1_19_3), Some(19));
    assert_eq!(at(HORSE, 18, V::V_1_19_3), Some(17));
    assert_eq!(at(LLAMA, 19, V::V_1_19_3), Some(19));
    assert_eq!(at(LLAMA, 20, V::V_1_19_3), Some(20));
    assert_eq!(at(LLAMA, 21, V::V_1_19_3), Some(22));
}

#[test]
fn allay_dancing_is_left_out_on_1_19() {
    assert_eq!(at(ALLAY, 16, V::V_1_19_1), Some(16));
    assert_eq!(at(ALLAY, 16, V::V_1_19), None);
    assert_eq!(at(ALLAY, 15, V::V_1_19), Some(15));
    assert_eq!(at(ALLAY, 15, V::V_1_18), None);
}

#[test]
fn goat_horns_are_left_out_on_1_18() {
    assert_eq!(at(GOAT, 19, V::V_1_19), Some(18));
    assert_eq!(at(GOAT, 19, V::V_1_18_2), None);
    assert_eq!(at(GOAT, 20, V::V_1_18_2), None);
    assert_eq!(at(GOAT, 18, V::V_1_18_2), Some(17));
}

#[test]
fn shulker_keeps_its_attachment_position_on_1_16_4() {
    assert_eq!(at(SHULKER, 17, V::V_1_17), Some(17));
    assert_eq!(at(SHULKER, 17, V::V_1_16_4), Some(17));
    assert_eq!(at(SHULKER, 18, V::V_1_16_2), Some(18));
    assert_eq!(at(SHULKER, 16, V::V_1_16_2), Some(15));
}

#[test]
fn frozen_ticks_is_left_out_on_1_16_2() {
    for entity_type in [COW, ZOMBIE, ARMOR_STAND] {
        assert_eq!(at(entity_type, 7, V::V_1_17), Some(7));
        for version in [V::V_1_16_2, V::V_1_16_3, V::V_1_16_4] {
            assert_eq!(at(entity_type, 7, version), None);
            assert_eq!(at(entity_type, 6, version), Some(6));
            assert_eq!(at(entity_type, 8, version), Some(7));
        }
    }
    assert_eq!(at(HORSE, 19, V::V_1_16_2), Some(18));
}

#[test]
fn pose_is_left_out_for_an_entity_the_version_lacks() {
    assert_eq!(at(WARDEN, 6, V::V_1_19), Some(6));
    assert_eq!(at(WARDEN, 6, V::V_1_18), None);
    assert_eq!(at(WARDEN, 5, V::V_1_18), Some(5));
}

#[test]
fn nothing_else_moves_between_1_20_2_and_1_17() {
    for entity_type in [COW, CREEPER, VILLAGER, WOLF, OAK_BOAT, PLAYER] {
        for index in 0..=24 {
            let expected = at(entity_type, index, V::V_1_20_2);
            for version in [
                V::V_1_20, V::V_1_19_4, V::V_1_19_3, V::V_1_19_1, V::V_1_19, V::V_1_18_2, V::V_1_18,
                V::V_1_17_1, V::V_1_17,
            ] {
                assert_eq!(at(entity_type, index, version), expected, "entity {entity_type} index {index} on {version:?}");
            }
        }
    }
}

#[test]
fn player_customisation_is_17_on_1_21_7() {
    assert_eq!(at(PLAYER, 16, V::V_1_21_7), Some(17));
    assert_eq!(at(PLAYER, 16, V::V_1_21_9), Some(16));
}

#[test]
fn a_type_the_id_table_drops_keeps_only_base_fields() {
    let entities = IdMapping::bounded(10);
    assert_eq!(tracked_index_for_version(&types(), &entities, 50, 3, V::V_1_21), Some(3));
    assert_eq!(tracked_index_for_version(&types(), &entities, 50, 8, V::V_1_21), None);
    assert_eq!(tracked_index_for_version(&types(), &entities, 50, 6, V::V_1_21), None);
}
