//! Where each tracked entity data field of 26.3 sits on older versions.
//!
//! An entity's metadata is a list of (index, serializer, value) entries. Every
//! step down the chain added, removed or moved fields of some entity types;
//! this maps a 26.3 index onto the index the client reads the same field at,
//! or onto nothing when the client has no such field.

use vstd::prelude::*;
use crate::data::entity_types::{entity_type_absent_on_version, spec_entity_type_absent_on_version};
use crate::data::mappings::IdMapping;
use crate::version::JavaMinecraftVersion;

verus! {

/// The 26.3 ids of the entity types whose fields moved along the chain.
pub struct EntityTypes {
    pub slime: u16,
    pub magma_cube: u16,
    pub sulfur_cube: u16,
    pub cow: u16,
    pub chicken: u16,
    pub pig: u16,
    pub villager: u16,
    pub cat: u16,
    pub zombie_villager: u16,
    pub tadpole: u16,
    pub player: u16,
    pub painting: u16,
    pub item_frame: u16,
    pub glow_item_frame: u16,
    pub mooshroom: u16,
    pub wolf: u16,
    pub frog: u16,
    pub experience_orb: u16,
    pub dolphin: u16,
    pub turtle: u16,
    pub strider: u16,
    pub creaking: u16,
    pub salmon: u16,
    pub area_effect_cloud: u16,
    pub llama: u16,
    pub trader_llama: u16,
    pub tnt: u16,
    pub allay: u16,
    pub goat: u16,
    pub shulker: u16,
    /// Every minecart.
    pub minecarts: Vec<u16>,
    /// Every boat and raft, chest ones included.
    pub boats: Vec<u16>,
    /// Arrows, spectral arrows and tridents.
    pub arrows: Vec<u16>,
    /// Dolphins, squids and glow squids.
    pub water_creatures: Vec<u16>,
    /// Block, item and text displays.
    pub displays: Vec<u16>,
    /// Horses, donkeys, mules, skeleton and zombie horses, llamas and camels.
    pub abstract_horses: Vec<u16>,
}

/// Entity types with the `AgeableMob` layout on 26.3.
pub open spec fn is_ageable(id: u16) -> bool {
    id == 4 || id == 7 || id == 11 || id == 19 || id == 20 || id == 21 || id == 26 || id == 30
        || id == 36 || id == 37 || id == 55 || id == 56 || id == 59 || id == 62 || id == 63
        || id == 65 || id == 67 || id == 79 || id == 87 || id == 88 || id == 89 || id == 92
        || id == 97 || id == 99 || id == 101 || id == 105 || id == 111 || id == 114 || id == 119
        || id == 122 || id == 130 || id == 132 || id == 134 || id == 138 || id == 141 || id == 143
        || id == 145 || id == 152 || id == 155 || id == 156
}

fn ageable(id: u16) -> (r: bool)
    ensures
        r == is_ageable(id),
{
    id == 4 || id == 7 || id == 11 || id == 19 || id == 20 || id == 21 || id == 26 || id == 30
        || id == 36 || id == 37 || id == 55 || id == 56 || id == 59 || id == 62 || id == 63
        || id == 65 || id == 67 || id == 79 || id == 87 || id == 88 || id == 89 || id == 92
        || id == 97 || id == 99 || id == 101 || id == 105 || id == 111 || id == 114 || id == 119
        || id == 122 || id == 130 || id == 132 || id == 134 || id == 138 || id == 141 || id == 143
        || id == 145 || id == 152 || id == 155 || id == 156
}

/// Whether `id` is one of `list`.
fn contains(list: &Vec<u16>, id: u16) -> (r: bool)
    ensures
        r == list@.contains(id),
{
    let mut i: usize = 0;
    while i < list.len()
        invariant
            i <= list@.len(),
            forall|j: int| 0 <= j < i ==> list@[j] != id,
        decreases list@.len() - i,
    {
        if list[i] == id {
            return true;
        }
        i = i + 1;
    }
    false
}

/// How many of `removed` lie below `index`.
pub open spec fn count_below(removed: Seq<u8>, index: int) -> int
    decreases removed.len(),
{
    if removed.len() == 0 {
        0
    } else {
        count_below(removed.drop_last(), index) + (if (removed.last() as int) < index { 1int } else { 0int })
    }
}

/// `index` with the fields `removed` taken out of the layout: `None` when it
/// is one of them, otherwise shifted down by the removed fields below it.
pub open spec fn spec_without(index: int, removed: Seq<u8>) -> Option<int> {
    if exists|j: int| 0 <= j < removed.len() && removed[j] as int == index {
        None
    } else {
        Some(index - count_below(removed, index))
    }
}

proof fn lemma_count_below_bounds(removed: Seq<u8>, index: int)
    ensures
        0 <= count_below(removed, index) <= removed.len(),
    decreases removed.len(),
{
    if removed.len() > 0 {
        lemma_count_below_bounds(removed.drop_last(), index);
    }
}

/// Fewer fields lie below `index` than there are values below it.
proof fn lemma_count_below_index(removed: Seq<u8>, index: int)
    requires
        index >= 0,
        forall|j: int| 0 <= j < removed.len() ==> removed[j] as int != index,
        forall|j: int, k: int| 0 <= j < k < removed.len() ==> removed[j] < removed[k],
    ensures
        count_below(removed, index) <= index,
    decreases removed.len(),
{
    if removed.len() > 0 {
        let init = removed.drop_last();
        lemma_count_below_index(init, index);
        if (removed.last() as int) < index {
            lemma_strictly_below(init, removed.last() as int);
            lemma_count_below_bounds(init, removed.last() as int);
            lemma_count_all_below(init, removed.last() as int, index);
        }
    }
}

/// In a strictly increasing list below `bound`, every element counts.
proof fn lemma_count_all_below(removed: Seq<u8>, bound: int, index: int)
    requires
        bound < index,
        forall|j: int| 0 <= j < removed.len() ==> (removed[j] as int) < bound,
    ensures
        count_below(removed, index) == removed.len(),
    decreases removed.len(),
{
    if removed.len() > 0 {
        lemma_count_all_below(removed.drop_last(), bound, index);
    }
}

/// Strictly increasing values below `bound` number at most `bound`.
proof fn lemma_strictly_below(removed: Seq<u8>, bound: int)
    requires
        bound >= 0,
        forall|j: int, k: int| 0 <= j < k < removed.len() ==> removed[j] < removed[k],
        forall|j: int| 0 <= j < removed.len() ==> (removed[j] as int) < bound,
    ensures
        removed.len() <= bound,
    decreases removed.len(),
{
    if removed.len() > 0 {
        let init = removed.drop_last();
        assert forall|j: int| 0 <= j < init.len() implies (init[j] as int) < removed.last() as int by {
            assert(init[j] == removed[j]);
        }
        assert((removed[removed.len() - 1] as int) < bound);
        lemma_strictly_below(init, removed.last() as int);
    }
}

/// Drops `index` when it is one of `removed`, otherwise shifts it down by the
/// number of removed fields below it.
fn without(index: u16, removed: &[u8]) -> (r: Option<u16>)
    requires
        removed@.len() <= 8,
        forall|j: int, k: int| 0 <= j < k < removed@.len() ==> removed@[j] < removed@[k],
    ensures
        match spec_without(index as int, removed@) {
            Some(i) => r == Some(i as u16) && 0 <= i <= index,
            None => r is None,
        },
{
    let mut below: u16 = 0;
    let mut i: usize = 0;
    while i < removed.len()
        invariant
            i <= removed@.len(),
            below as int == count_below(removed@.take(i as int), index as int),
            below <= i,
            removed@.len() <= 8,
            forall|j: int| 0 <= j < i ==> removed@[j] as int != index as int,
        decreases removed@.len() - i,
    {
        proof {
            assert(removed@.take(i + 1).drop_last() =~= removed@.take(i as int));
        }
        if removed[i] as u16 == index {
            return None;
        }
        if (removed[i] as u16) < index {
            below = below + 1;
        }
        i = i + 1;
    }
    proof {
        assert(removed@.take(removed@.len() as int) =~= removed@);
        lemma_count_below_index(removed@, index as int);
    }
    Some(index - below)
}

/// The fields 1.21.11 lacks for `entity_type`: no age lock, no sound
/// variants, no "villager data finalized".
pub open spec fn removed_before_26_1(types: &EntityTypes, entity_type: u16) -> Seq<u8> {
    if entity_type == types.cow || entity_type == types.chicken {
        seq![17u8, 19]
    } else if entity_type == types.pig || entity_type == types.villager {
        seq![17u8, 20]
    } else if entity_type == types.cat {
        seq![17u8, 24]
    } else if entity_type == types.zombie_villager {
        seq![21u8]
    } else if entity_type == types.tadpole || is_ageable(entity_type) {
        seq![17u8]
    } else {
        Seq::empty()
    }
}

/// Whether the layout of `entity_type` is that of a cube mob.
pub open spec fn is_cube(types: &EntityTypes, entity_type: u16) -> bool {
    entity_type == types.slime || entity_type == types.magma_cube || entity_type == types.sulfur_cube
}

/// Whether `entity_type` is a hanging entity.
pub open spec fn is_hanging(types: &EntityTypes, entity_type: u16) -> bool {
    entity_type == types.painting || entity_type == types.item_frame
        || entity_type == types.glow_item_frame
}

/// The 1.21.7 player field order: the main hand, the model customisation and
/// the two shoulder entities sat in a different order, and the shoulders were
/// NBT compounds that have no 26.3 counterpart.
pub open spec fn player_before_1_21_9(index: int) -> Option<int> {
    if index == 15 { Some(18) }
    else if index == 16 { Some(17) }
    else if index == 17 { Some(15) }
    else if index == 18 { Some(16) }
    else if index == 19 || index == 20 { None }
    else { Some(index) }
}

/// Whether entity type `entity_type` does not exist for the client: the
/// version lacks it, or the id table down to the version has no id for it.
pub open spec fn spec_absent(entities: IdMapping, entity_type: u16, version: JavaMinecraftVersion) -> bool {
    spec_entity_type_absent_on_version(entity_type, version)
        || entities.spec_map(entity_type as u32) is None
}

/// Where 26.3 field `index` of `entity_type` sits on `version`, `None` when
/// the client has no such field.
pub open spec fn spec_tracked_index(
    types: &EntityTypes,
    entities: IdMapping,
    entity_type: u16,
    index: int,
    version: JavaMinecraftVersion,
) -> Option<int> {
    let absent = spec_absent(entities, entity_type, version);
    if index >= 8 && absent {
        None
    } else if index == 6 && absent {
        None
    } else if version.spec_at_least(JavaMinecraftVersion::V_26_2) {
        Some(index)
    } else {
        spec_index_before_26_2(types, entity_type, index, version)
    }
}

/// The 26.2 to 1.21.5 steps, applied to an index in 26.3 numbering.
pub open spec fn spec_index_before_26_2(
    types: &EntityTypes,
    entity_type: u16,
    index: int,
    version: JavaMinecraftVersion,
) -> Option<int> {
    let cube = is_cube(types, entity_type);
    let a = if cube { spec_without(index, seq![16u8, 17]) } else { Some(index) };
    match a {
        None => None,
        Some(a) => {
            let b = if version.spec_at_most(JavaMinecraftVersion::V_1_21_11) && !cube {
                spec_without(a, removed_before_26_1(types, entity_type))
            } else {
                Some(a)
            };
            match b {
                None => None,
                Some(b) => {
                    let c = if version.spec_at_most(JavaMinecraftVersion::V_1_21_7)
                        && entity_type == types.player {
                        player_before_1_21_9(b)
                    } else {
                        Some(b)
                    };
                    match c {
                        None => None,
                        Some(c) => {
                            let d = if version.spec_at_most(JavaMinecraftVersion::V_1_21_5)
                                && is_hanging(types, entity_type) {
                                spec_without(c, seq![8u8])
                            } else {
                                Some(c)
                            };
                            match d {
                                None => None,
                                Some(d) => spec_index_before_1_21_5(types, entity_type, d, version),
                            }
                        },
                    }
                },
            }
        },
    }
}

/// A 1.21.5 field 1.21.4 has no counterpart of: registry backed variants
/// were not data driven yet, the minecart display block was a plain int plus
/// a "present" flag, the experience orb value sat in its own spawn packet and
/// saddles were a metadata flag.
pub open spec fn dropped_before_1_21_5(types: &EntityTypes, entity_type: u16, index: int) -> bool {
    (types.minecarts@.contains(entity_type) && index == 11)
        || (entity_type == types.mooshroom && index == 17)
        || (entity_type == types.chicken && index == 17)
        || (entity_type == types.cow && index == 17)
        || (entity_type == types.pig && index == 18)
        || (entity_type == types.wolf && (index == 22 || index == 23))
        || (entity_type == types.cat && index == 19)
        || (entity_type == types.frog && index == 17)
        || (entity_type == types.experience_orb && index == 8)
}

/// A 1.21.5 field that sits one further up on 1.21.4.
pub open spec fn shifted_before_1_21_5(types: &EntityTypes, entity_type: u16, index: int) -> bool {
    (types.minecarts@.contains(entity_type) && index >= 13)
        || (entity_type == types.pig && index == 17)
        || (entity_type == types.dolphin && index >= 17)
        || (entity_type == types.turtle && index >= 17)
        || (entity_type == types.strider && index >= 19)
}

/// The 1.21.4 step, applied to an index in 1.21.5 numbering.
pub open spec fn spec_stage_1_21_4(types: &EntityTypes, entity_type: u16, index: int, version: JavaMinecraftVersion) -> Option<int> {
    if version.spec_at_most(JavaMinecraftVersion::V_1_21_4) {
        if dropped_before_1_21_5(types, entity_type, index) {
            None
        } else if shifted_before_1_21_5(types, entity_type, index) {
            Some(index + 1)
        } else {
            Some(index)
        }
    } else {
        Some(index)
    }
}

/// The 1.21.2 and 1.21 steps, applied to an index in 1.21.4 numbering.
pub open spec fn spec_stage_1_21(types: &EntityTypes, entity_type: u16, a: int, version: JavaMinecraftVersion) -> Option<int> {
    if version.spec_at_most(JavaMinecraftVersion::V_1_21_2)
        && ((entity_type == types.creaking && a >= 18) || (entity_type == types.salmon && a == 17)) {
        None
    } else if version.spec_at_most(JavaMinecraftVersion::V_1_21) {
        if entity_type == types.creaking && a >= 16 {
            None
        } else {
            let b = if types.boats@.contains(entity_type) && a >= 11 { a + 1 } else { a };
            let c = if types.arrows@.contains(entity_type) { spec_without(b, seq![10u8]) } else { Some(b) };
            match c {
                None => None,
                Some(c) => if types.water_creatures@.contains(entity_type) {
                    spec_without(c, seq![16u8])
                } else {
                    Some(c)
                },
            }
        }
    } else {
        Some(a)
    }
}

/// The 1.21.5 to 1.21 steps, applied to an index in 1.21.5 numbering.
pub open spec fn spec_index_before_1_21_5(
    types: &EntityTypes,
    entity_type: u16,
    index: int,
    version: JavaMinecraftVersion,
) -> Option<int> {
    match spec_stage_1_21_4(types, entity_type, index, version) {
        None => None,
        Some(a) => match spec_stage_1_21(types, entity_type, a, version) {
            None => None,
            Some(d) => if version.spec_at_most(JavaMinecraftVersion::V_1_20_5)
                && entity_type == types.painting && d == 8 {
                None
            } else {
                spec_index_before_1_20_5(types, entity_type, d, version)
            },
        },
    }
}

/// The 1.20.5 to 1.20.2 steps, applied to an index in 1.20.5 numbering: the
/// area effect cloud still carried its own colour field, the llama the carpet
/// colour, and primed TNT had no block state.
pub open spec fn spec_index_before_1_20_5(
    types: &EntityTypes,
    entity_type: u16,
    index: int,
    version: JavaMinecraftVersion,
) -> Option<int> {
    let old_1_20_3 = version.spec_at_most(JavaMinecraftVersion::V_1_20_3);
    if old_1_20_3 && entity_type == types.area_effect_cloud && index == 10 {
        None
    } else {
        let a = if old_1_20_3 && entity_type == types.area_effect_cloud && index >= 9 { index + 1 } else { index };
        let is_llama = entity_type == types.llama || entity_type == types.trader_llama;
        let b = if old_1_20_3 && is_llama && a >= 20 { a + 1 } else { a };
        let c = if old_1_20_3 && entity_type == types.wolf { spec_without(b, seq![22u8]) } else { Some(b) };
        match c {
            None => None,
            Some(c) => {
                let d = if version.spec_at_most(JavaMinecraftVersion::V_1_20_2) && entity_type == types.tnt {
                    spec_without(c, seq![9u8])
                } else {
                    Some(c)
                };
                match d {
                    None => None,
                    Some(d) => spec_index_before_1_20_2(types, entity_type, d, version),
                }
            },
        }
    }
}

/// The 1.20.2 to 1.16.2 steps, applied to an index in 1.20.2 numbering.
pub open spec fn spec_index_before_1_20_2(
    types: &EntityTypes,
    entity_type: u16,
    index: int,
    version: JavaMinecraftVersion,
) -> Option<int> {
    let a = if version.spec_at_most(JavaMinecraftVersion::V_1_20) && types.displays@.contains(entity_type) {
        spec_without(index, seq![10u8])
    } else {
        Some(index)
    };
    match a {
        None => None,
        Some(a) => {
            let b = if version.spec_at_most(JavaMinecraftVersion::V_1_19_3)
                && types.abstract_horses@.contains(entity_type) && a >= 18 {
                a + 1
            } else {
                a
            };
            if version.spec_at_most(JavaMinecraftVersion::V_1_19) && entity_type == types.allay
                && (b == 16 || b == 17) {
                None
            } else if version.spec_at_most(JavaMinecraftVersion::V_1_18_2) && entity_type == types.goat
                && (b == 18 || b == 19) {
                None
            } else if version.spec_at_most(JavaMinecraftVersion::V_1_16_4) {
                let c = if entity_type == types.shulker && b >= 17 { b + 1 } else { b };
                spec_without(c, seq![7u8])
            } else {
                Some(b)
            }
        },
    }
}

/// Whether entity type `entity_type` does not exist for the client.
fn absent(entities: &IdMapping, entity_type: u16, version: JavaMinecraftVersion) -> (r: bool)
    ensures
        r == spec_absent(*entities, entity_type, version),
{
    entity_type_absent_on_version(entity_type, version) || entities.map(entity_type as u32).is_none()
}

/// Maps a 26.3 tracked field index of `entity_type` onto `version`, `None` when
/// the client has no such field and the entry has to be left out.
///
/// `types` names the 26.3 ids of the entity types whose layout moved, and
/// `entities` is the entity type id table from 26.3 down to `version`.
pub fn tracked_index_for_version(
    types: &EntityTypes,
    entities: &IdMapping,
    entity_type: u16,
    index: u8,
    version: JavaMinecraftVersion,
) -> (r: Option<u8>)
    requires
        index < 246,
    ensures
        match spec_tracked_index(types, *entities, entity_type, index as int, version) {
            Some(i) => r == Some(i as u8) && 0 <= i <= index + 9,
            None => r is None,
        },
{
    // An entity type the client does not have is spawned as a stand in whose
    // layout only shares the base fields 0 to 7.
    let absent = absent(entities, entity_type, version);
    if index >= 8 && absent {
        return None;
    }
    // Every pose added since 1.16 arrived with the entity that uses it, so a
    // stand in would send an ordinal the client's pose enum has no entry for.
    if index == 6 && absent {
        return None;
    }
    if version.at_least(JavaMinecraftVersion::V_26_2) {
        return Some(index);
    }
    match index_before_26_2(types, entity_type, index as u16, version) {
        Some(i) => Some(i as u8),
        None => None,
    }
}

/// The 26.2 to 1.21.5 steps.
#[verifier::rlimit(50)]
fn index_before_26_2(
    types: &EntityTypes,
    entity_type: u16,
    index: u16,
    version: JavaMinecraftVersion,
) -> (r: Option<u16>)
    requires
        index < 246,
    ensures
        match spec_index_before_26_2(types, entity_type, index as int, version) {
            Some(i) => r == Some(i as u16) && 0 <= i <= index + 9,
            None => r is None,
        },
{
    let mut index = index;
    // 26.1: cube mobs had not become ageable yet.
    let cube = entity_type == types.slime || entity_type == types.magma_cube
        || entity_type == types.sulfur_cube;
    if cube {
        let removed: &[u8] = &[16u8, 17];
        assert(removed@ =~= seq![16u8, 17]);
        match without(index, removed) {
            Some(i) => index = i,
            None => return None,
        }
    }
    // 1.21.11: no age lock, no sound variants, no "villager data finalized".
    if version.at_most(JavaMinecraftVersion::V_1_21_11) && !cube {
        let removed: &[u8] = if entity_type == types.cow || entity_type == types.chicken {
            &[17u8, 19]
        } else if entity_type == types.pig || entity_type == types.villager {
            &[17u8, 20]
        } else if entity_type == types.cat {
            &[17u8, 24]
        } else if entity_type == types.zombie_villager {
            &[21u8]
        } else if entity_type == types.tadpole || ageable(entity_type) {
            &[17u8]
        } else {
            &[]
        };
        assert(removed@ =~= removed_before_26_1(types, entity_type));
        match without(index, removed) {
            Some(i) => index = i,
            None => return None,
        }
    }
    // 1.21.7: player fields sat in a different order, and the shoulder parrots
    // were NBT compounds rather than variant ids.
    if version.at_most(JavaMinecraftVersion::V_1_21_7) && entity_type == types.player {
        if index == 15 {
            index = 18;
        } else if index == 16 {
            index = 17;
        } else if index == 17 {
            index = 15;
        } else if index == 18 {
            index = 16;
        } else if index == 19 || index == 20 {
            return None;
        }
    }
    // 1.21.5: hanging entities had no direction field.
    if version.at_most(JavaMinecraftVersion::V_1_21_5) && (entity_type == types.painting
        || entity_type == types.item_frame || entity_type == types.glow_item_frame) {
        let removed: &[u8] = &[8u8];
        assert(removed@ =~= seq![8u8]);
        match without(index, removed) {
            Some(i) => index = i,
            None => return None,
        }
    }
    index_before_1_21_5(types, entity_type, index, version)
}

/// The 1.21.4 step: registry backed variants were not data driven yet, the
/// minecart display block was a plain int plus a "present" flag, the
/// experience orb value sat in its own spawn packet and saddles were a
/// metadata flag.
fn stage_1_21_4(types: &EntityTypes, entity_type: u16, index: u16, version: JavaMinecraftVersion) -> (r: Option<u16>)
    requires
        index < 246,
    ensures
        match spec_stage_1_21_4(types, entity_type, index as int, version) {
            Some(i) => r == Some(i as u16) && 0 <= i <= index + 1,
            None => r is None,
        },
{
    if !version.at_most(JavaMinecraftVersion::V_1_21_4) {
        return Some(index);
    }
    let minecart = contains(&types.minecarts, entity_type);
    let dropped = (minecart && index == 11)
        || (entity_type == types.mooshroom && index == 17)
        || (entity_type == types.chicken && index == 17)
        || (entity_type == types.cow && index == 17)
        || (entity_type == types.pig && index == 18)
        || (entity_type == types.wolf && (index == 22 || index == 23))
        || (entity_type == types.cat && index == 19)
        || (entity_type == types.frog && index == 17)
        || (entity_type == types.experience_orb && index == 8);
    if dropped {
        return None;
    }
    let shifted = (minecart && index >= 13)
        || (entity_type == types.pig && index == 17)
        || (entity_type == types.dolphin && index >= 17)
        || (entity_type == types.turtle && index >= 17)
        || (entity_type == types.strider && index >= 19);
    if shifted { Some(index + 1) } else { Some(index) }
}

/// The 1.21.2 and 1.21 steps: the creaking had no tearing down flag or home
/// position and the salmon size was a string; then no creaking at all, one
/// boat type with the wood kind at index 11, no "in ground" flag on arrows
/// and no baby flag on water creatures.
fn stage_1_21(types: &EntityTypes, entity_type: u16, index: u16, version: JavaMinecraftVersion) -> (r: Option<u16>)
    requires
        index < 247,
    ensures
        match spec_stage_1_21(types, entity_type, index as int, version) {
            Some(i) => r == Some(i as u16) && 0 <= i <= index + 1,
            None => r is None,
        },
{
    if version.at_most(JavaMinecraftVersion::V_1_21_2)
        && ((entity_type == types.creaking && index >= 18) || (entity_type == types.salmon && index == 17)) {
        return None;
    }
    if !version.at_most(JavaMinecraftVersion::V_1_21) {
        return Some(index);
    }
    if entity_type == types.creaking && index >= 16 {
        return None;
    }
    let mut index = index;
    if contains(&types.boats, entity_type) && index >= 11 {
        index = index + 1;
    }
    if contains(&types.arrows, entity_type) {
        let removed: &[u8] = &[10u8];
        assert(removed@ =~= seq![10u8]);
        match without(index, removed) {
            Some(i) => index = i,
            None => return None,
        }
    }
    if contains(&types.water_creatures, entity_type) {
        let removed: &[u8] = &[16u8];
        assert(removed@ =~= seq![16u8]);
        return without(index, removed);
    }
    Some(index)
}

/// The 1.21.5 to 1.21 steps.
fn index_before_1_21_5(
    types: &EntityTypes,
    entity_type: u16,
    index: u16,
    version: JavaMinecraftVersion,
) -> (r: Option<u16>)
    requires
        index < 246,
    ensures
        match spec_index_before_1_21_5(types, entity_type, index as int, version) {
            Some(i) => r == Some(i as u16) && 0 <= i <= index + 6,
            None => r is None,
        },
{
    let a = match stage_1_21_4(types, entity_type, index, version) {
        Some(a) => a,
        None => return None,
    };
    let d = match stage_1_21(types, entity_type, a, version) {
        Some(d) => d,
        None => return None,
    };
    // 1.20.5: the painting variant is a holder over a data driven registry on
    // 1.21 but a plain id into the client's own painting list on 1.20.5.
    if version.at_most(JavaMinecraftVersion::V_1_20_5) && entity_type == types.painting && d == 8 {
        return None;
    }
    index_before_1_20_5(types, entity_type, d, version)
}

/// The 1.20.5 to 1.20.2 steps.
fn index_before_1_20_5(
    types: &EntityTypes,
    entity_type: u16,
    index: u16,
    version: JavaMinecraftVersion,
) -> (r: Option<u16>)
    requires
        index < 248,
    ensures
        match spec_index_before_1_20_5(types, entity_type, index as int, version) {
            Some(i) => r == Some(i as u16) && 0 <= i <= index + 4,
            None => r is None,
        },
{
    let mut index = index;
    // 1.20.3: the area effect cloud still carried its own colour field and
    // the llama still carried the carpet colour in metadata.
    if version.at_most(JavaMinecraftVersion::V_1_20_3) {
        // 1.20.5 folded the cloud colour into the `entity_effect` particle as
        // a trailing ARGB int, which 1.20.3 does not read.
        if entity_type == types.area_effect_cloud {
            if index == 10 {
                return None;
            }
            if index >= 9 {
                index = index + 1;
            }
        }
        if (entity_type == types.llama || entity_type == types.trader_llama) && index >= 20 {
            index = index + 1;
        }
        if entity_type == types.wolf {
            let removed: &[u8] = &[22u8];
            assert(removed@ =~= seq![22u8]);
            match without(index, removed) {
                Some(i) => index = i,
                None => return None,
            }
        }
    }
    // 1.20.2: primed TNT had no block state field yet.
    if version.at_most(JavaMinecraftVersion::V_1_20_2) && entity_type == types.tnt {
        let removed: &[u8] = &[9u8];
        assert(removed@ =~= seq![9u8]);
        match without(index, removed) {
            Some(i) => index = i,
            None => return None,
        }
    }
    index_before_1_20_2(types, entity_type, index, version)
}

/// The 1.20.2 to 1.16.2 steps.
fn index_before_1_20_2(
    types: &EntityTypes,
    entity_type: u16,
    index: u16,
    version: JavaMinecraftVersion,
) -> (r: Option<u16>)
    requires
        index < 250,
    ensures
        match spec_index_before_1_20_2(types, entity_type, index as int, version) {
            Some(i) => r == Some(i as u16) && 0 <= i <= index + 2,
            None => r is None,
        },
{
    let mut index = index;
    // 1.20: display entities had no position/rotation interpolation duration.
    if version.at_most(JavaMinecraftVersion::V_1_20) && contains(&types.displays, entity_type) {
        let removed: &[u8] = &[10u8];
        assert(removed@ =~= seq![10u8]);
        match without(index, removed) {
            Some(i) => index = i,
            None => return None,
        }
    }
    // 1.19.3: every horse still carried the owner uuid at index 18.
    if version.at_most(JavaMinecraftVersion::V_1_19_3) && contains(&types.abstract_horses, entity_type)
        && index >= 18 {
        index = index + 1;
    }
    // 1.19: the allay could neither dance nor duplicate yet.
    if version.at_most(JavaMinecraftVersion::V_1_19) && entity_type == types.allay
        && (index == 16 || index == 17) {
        return None;
    }
    // 1.18.2: the goat had no horns.
    if version.at_most(JavaMinecraftVersion::V_1_18_2) && entity_type == types.goat
        && (index == 18 || index == 19) {
        return None;
    }
    // 1.16.4 and below: the shulker still had its attachment position at 17,
    // and 1.17 inserted the frozen ticks counter at 7 for every entity.
    if version.at_most(JavaMinecraftVersion::V_1_16_4) {
        if entity_type == types.shulker && index >= 17 {
            index = index + 1;
        }
        let removed: &[u8] = &[7u8];
        assert(removed@ =~= seq![7u8]);
        return without(index, removed);
    }
    Some(index)
}

/// No removed field lies at or below `index`, so it keeps its place.
proof fn lemma_without_above(index: int, removed: Seq<u8>)
    requires
        forall|j: int| 0 <= j < removed.len() ==> (removed[j] as int) > index,
    ensures
        spec_without(index, removed) == Some(index),
{
    lemma_count_below_zero(index, removed);
}

proof fn lemma_count_below_zero(index: int, removed: Seq<u8>)
    requires
        forall|j: int| 0 <= j < removed.len() ==> (removed[j] as int) > index,
    ensures
        count_below(removed, index) == 0,
    decreases removed.len(),
{
    if removed.len() > 0 {
        let init = removed.drop_last();
        assert forall|j: int| 0 <= j < init.len() implies (init[j] as int) > index by {
            assert(init[j] == removed[j]);
        }
        lemma_count_below_zero(index, init);
        assert((removed[removed.len() - 1] as int) > index);
    }
}

/// The base entity fields every layout shares (flags, air supply, custom
/// name and its visibility, silence, gravity) and, for an entity type the
/// client has, the pose keep their index on every version.
pub proof fn law_base_fields_keep_their_index(
    types: &EntityTypes,
    entities: IdMapping,
    entity_type: u16,
    index: int,
    version: JavaMinecraftVersion,
)
    requires
        0 <= index <= 6,
        index == 6 ==> !spec_absent(entities, entity_type, version),
    ensures
        spec_tracked_index(types, entities, entity_type, index, version) == Some(index),
{
    lemma_without_above(index, seq![16u8, 17]);
    lemma_without_above(index, seq![17u8, 19]);
    lemma_without_above(index, seq![17u8, 20]);
    lemma_without_above(index, seq![17u8, 24]);
    lemma_without_above(index, seq![21u8]);
    lemma_without_above(index, seq![17u8]);
    lemma_without_above(index, Seq::<u8>::empty());
    lemma_without_above(index, seq![8u8]);
    lemma_without_above(index, seq![10u8]);
    lemma_without_above(index, seq![16u8]);
    lemma_without_above(index, seq![22u8]);
    lemma_without_above(index, seq![9u8]);
    lemma_without_above(index, seq![7u8]);
}

/// An entity type the client does not have is spawned as a stand in that
/// shares only the base fields: nothing from index 8 up reaches it, and
/// neither does its pose.
pub proof fn law_stand_in_keeps_only_base_fields(
    types: &EntityTypes,
    entities: IdMapping,
    entity_type: u16,
    index: int,
    version: JavaMinecraftVersion,
)
    requires
        spec_absent(entities, entity_type, version),
        index >= 8 || index == 6,
    ensures
        spec_tracked_index(types, entities, entity_type, index, version) is None,
{
}

/// 26.2 and 26.3 number every field of an entity type they have as 26.3 does.
pub proof fn law_newest_versions_keep_every_index(
    types: &EntityTypes,
    entities: IdMapping,
    entity_type: u16,
    index: int,
    version: JavaMinecraftVersion,
)
    requires
        version.spec_at_least(JavaMinecraftVersion::V_26_2),
        !spec_absent(entities, entity_type, version),
    ensures
        spec_tracked_index(types, entities, entity_type, index, version) == Some(index),
{
}

} // verus!
