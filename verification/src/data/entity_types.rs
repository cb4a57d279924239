//! Entity types each version lacks, by 26.3 entity type id.

use vstd::prelude::*;
use crate::version::JavaMinecraftVersion;

verus! {

/// The 26.3 entity types 1.16.2 has no entity of.
pub open spec fn absent_on_1_16_2(id: u16) -> bool {
        id == 1 || id == 2 || id == 4 || id == 7 || id == 8 || id == 13 || id == 15 || id == 16
            || id == 17 || id == 18 || id == 19 || id == 20 || id == 24 || id == 28 || id == 31
            || id == 33 || id == 35 || id == 56 || id == 59 || id == 61 || id == 62 || id == 63
            || id == 70 || id == 73 || id == 76 || id == 83 || id == 84 || id == 85 || id == 89
            || id == 91 || id == 93 || id == 96 || id == 98 || id == 107 || id == 122
            || id == 129 || id == 133 || id == 134 || id == 135 || id == 146 || id == 147
            || id == 156
}

fn is_absent_on_1_16_2(id: u16) -> (r: bool)
    ensures
        r == absent_on_1_16_2(id),
{
        id == 1 || id == 2 || id == 4 || id == 7 || id == 8 || id == 13 || id == 15 || id == 16
            || id == 17 || id == 18 || id == 19 || id == 20 || id == 24 || id == 28 || id == 31
            || id == 33 || id == 35 || id == 56 || id == 59 || id == 61 || id == 62 || id == 63
            || id == 70 || id == 73 || id == 76 || id == 83 || id == 84 || id == 85 || id == 89
            || id == 91 || id == 93 || id == 96 || id == 98 || id == 107 || id == 122
            || id == 129 || id == 133 || id == 134 || id == 135 || id == 146 || id == 147
            || id == 156
}

/// The 26.3 entity types 1.17 has no entity of.
pub open spec fn absent_on_1_17(id: u16) -> bool {
        id == 1 || id == 2 || id == 4 || id == 8 || id == 13 || id == 15 || id == 16 || id == 17
            || id == 18 || id == 19 || id == 20 || id == 24 || id == 28 || id == 31 || id == 33
            || id == 35 || id == 56 || id == 59 || id == 70 || id == 73 || id == 76 || id == 83
            || id == 84 || id == 89 || id == 91 || id == 93 || id == 96 || id == 98 || id == 107
            || id == 122 || id == 129 || id == 133 || id == 134 || id == 135 || id == 146
            || id == 147 || id == 156
}

fn is_absent_on_1_17(id: u16) -> (r: bool)
    ensures
        r == absent_on_1_17(id),
{
        id == 1 || id == 2 || id == 4 || id == 8 || id == 13 || id == 15 || id == 16 || id == 17
            || id == 18 || id == 19 || id == 20 || id == 24 || id == 28 || id == 31 || id == 33
            || id == 35 || id == 56 || id == 59 || id == 70 || id == 73 || id == 76 || id == 83
            || id == 84 || id == 89 || id == 91 || id == 93 || id == 96 || id == 98 || id == 107
            || id == 122 || id == 129 || id == 133 || id == 134 || id == 135 || id == 146
            || id == 147 || id == 156
}

/// The 26.3 entity types 1.19 has no entity of.
pub open spec fn absent_on_1_19(id: u16) -> bool {
        id == 4 || id == 15 || id == 16 || id == 17 || id == 18 || id == 19 || id == 20
            || id == 28 || id == 31 || id == 33 || id == 59 || id == 70 || id == 73 || id == 84
            || id == 89 || id == 93 || id == 98 || id == 122 || id == 133 || id == 135
            || id == 147 || id == 156
}

fn is_absent_on_1_19(id: u16) -> (r: bool)
    ensures
        r == absent_on_1_19(id),
{
        id == 4 || id == 15 || id == 16 || id == 17 || id == 18 || id == 19 || id == 20
            || id == 28 || id == 31 || id == 33 || id == 59 || id == 70 || id == 73 || id == 84
            || id == 89 || id == 93 || id == 98 || id == 122 || id == 133 || id == 135
            || id == 147 || id == 156
}

/// The 26.3 entity types 1.19.3 has no entity of.
pub open spec fn absent_on_1_19_3(id: u16) -> bool {
        id == 4 || id == 15 || id == 16 || id == 17 || id == 18 || id == 20 || id == 28
            || id == 31 || id == 33 || id == 59 || id == 70 || id == 73 || id == 84 || id == 89
            || id == 93 || id == 98 || id == 122 || id == 133 || id == 135 || id == 147
            || id == 156
}

fn is_absent_on_1_19_3(id: u16) -> (r: bool)
    ensures
        r == absent_on_1_19_3(id),
{
        id == 4 || id == 15 || id == 16 || id == 17 || id == 18 || id == 20 || id == 28
            || id == 31 || id == 33 || id == 59 || id == 70 || id == 73 || id == 84 || id == 89
            || id == 93 || id == 98 || id == 122 || id == 133 || id == 135 || id == 147
            || id == 156
}

/// The 26.3 entity types 1.19.4 has no entity of.
pub open spec fn absent_on_1_19_4(id: u16) -> bool {
        id == 4 || id == 16 || id == 17 || id == 18 || id == 20 || id == 28 || id == 31
            || id == 33 || id == 59 || id == 84 || id == 89 || id == 93 || id == 98 || id == 133
            || id == 147 || id == 156
}

fn is_absent_on_1_19_4(id: u16) -> (r: bool)
    ensures
        r == absent_on_1_19_4(id),
{
        id == 4 || id == 16 || id == 17 || id == 18 || id == 20 || id == 28 || id == 31
            || id == 33 || id == 59 || id == 84 || id == 89 || id == 93 || id == 98 || id == 133
            || id == 147 || id == 156
}

/// The 26.3 entity types 1.20.3 has no entity of.
pub open spec fn absent_on_1_20_3(id: u16) -> bool {
        id == 4 || id == 16 || id == 18 || id == 20 || id == 28 || id == 31 || id == 33
            || id == 59 || id == 84 || id == 89 || id == 93 || id == 98 || id == 133
            || id == 156
}

fn is_absent_on_1_20_3(id: u16) -> (r: bool)
    ensures
        r == absent_on_1_20_3(id),
{
        id == 4 || id == 16 || id == 18 || id == 20 || id == 28 || id == 31 || id == 33
            || id == 59 || id == 84 || id == 89 || id == 93 || id == 98 || id == 133
            || id == 156
}

/// The 26.3 entity types 1.20.5 has no entity of.
pub open spec fn absent_on_1_20_5(id: u16) -> bool {
        id == 20 || id == 28 || id == 31 || id == 33 || id == 59 || id == 84 || id == 89
            || id == 98 || id == 133 || id == 156
}

fn is_absent_on_1_20_5(id: u16) -> (r: bool)
    ensures
        r == absent_on_1_20_5(id),
{
        id == 20 || id == 28 || id == 31 || id == 33 || id == 59 || id == 84 || id == 89
            || id == 98 || id == 133 || id == 156
}

/// The 26.3 entity types 1.21.4 has no entity of.
pub open spec fn absent_on_1_21_4(id: u16) -> bool {
        id == 20 || id == 28 || id == 33 || id == 59 || id == 84 || id == 89 || id == 98
            || id == 133 || id == 156
}

fn is_absent_on_1_21_4(id: u16) -> (r: bool)
    ensures
        r == absent_on_1_21_4(id),
{
        id == 20 || id == 28 || id == 33 || id == 59 || id == 84 || id == 89 || id == 98
            || id == 133 || id == 156
}

/// The 26.3 entity types 1.21.6 has no entity of.
pub open spec fn absent_on_1_21_6(id: u16) -> bool {
        id == 20 || id == 28 || id == 33 || id == 84 || id == 89 || id == 98 || id == 133
            || id == 156
}

fn is_absent_on_1_21_6(id: u16) -> (r: bool)
    ensures
        r == absent_on_1_21_6(id),
{
        id == 20 || id == 28 || id == 33 || id == 84 || id == 89 || id == 98 || id == 133
            || id == 156
}

/// The 26.3 entity types 1.21.9 has no entity of.
pub open spec fn absent_on_1_21_9(id: u16) -> bool {
        id == 20 || id == 33 || id == 89 || id == 98 || id == 133 || id == 156
}

fn is_absent_on_1_21_9(id: u16) -> (r: bool)
    ensures
        r == absent_on_1_21_9(id),
{
        id == 20 || id == 33 || id == 89 || id == 98 || id == 133 || id == 156
}

/// The 26.3 entity types 1.21.11 has no entity of.
pub open spec fn absent_on_1_21_11(id: u16) -> bool {
        id == 33 || id == 133
}

fn is_absent_on_1_21_11(id: u16) -> (r: bool)
    ensures
        r == absent_on_1_21_11(id),
{
        id == 33 || id == 133
}

/// The 26.3 entity types 26.2 has no entity of.
pub open spec fn absent_on_26_2(id: u16) -> bool {
        id == 33
}

fn is_absent_on_26_2(id: u16) -> (r: bool)
    ensures
        r == absent_on_26_2(id),
{
        id == 33
}

/// Whether `version` has no entity of 26.3 type `entity_type` at all. A
/// version with no table of its own, 26.3 itself among them, lacks none.
pub open spec fn spec_entity_type_absent_on_version(entity_type: u16, version: JavaMinecraftVersion) -> bool {
    match version {
        JavaMinecraftVersion::V_1_16_2 | JavaMinecraftVersion::V_1_16_3 | JavaMinecraftVersion::V_1_16_4 => absent_on_1_16_2(entity_type),
        JavaMinecraftVersion::V_1_17 | JavaMinecraftVersion::V_1_17_1 | JavaMinecraftVersion::V_1_18 | JavaMinecraftVersion::V_1_18_2 => absent_on_1_17(entity_type),
        JavaMinecraftVersion::V_1_19 | JavaMinecraftVersion::V_1_19_1 => absent_on_1_19(entity_type),
        JavaMinecraftVersion::V_1_19_3 => absent_on_1_19_3(entity_type),
        JavaMinecraftVersion::V_1_19_4 | JavaMinecraftVersion::V_1_20 | JavaMinecraftVersion::V_1_20_2 => absent_on_1_19_4(entity_type),
        JavaMinecraftVersion::V_1_20_3 => absent_on_1_20_3(entity_type),
        JavaMinecraftVersion::V_1_20_5 | JavaMinecraftVersion::V_1_21 | JavaMinecraftVersion::V_1_21_2 => absent_on_1_20_5(entity_type),
        JavaMinecraftVersion::V_1_21_4 | JavaMinecraftVersion::V_1_21_5 => absent_on_1_21_4(entity_type),
        JavaMinecraftVersion::V_1_21_6 | JavaMinecraftVersion::V_1_21_7 => absent_on_1_21_6(entity_type),
        JavaMinecraftVersion::V_1_21_9 => absent_on_1_21_9(entity_type),
        JavaMinecraftVersion::V_1_21_11 | JavaMinecraftVersion::V_26_1 => absent_on_1_21_11(entity_type),
        JavaMinecraftVersion::V_26_2 => absent_on_26_2(entity_type),
        _ => false,
    }
}

/// Whether `version` has no entity of 26.3 type `entity_type` at all.
///
/// Such an entity is spawned as a stand in type whose metadata layout only
/// shares the base entity fields.
pub fn entity_type_absent_on_version(entity_type: u16, version: JavaMinecraftVersion) -> (r: bool)
    ensures
        r == spec_entity_type_absent_on_version(entity_type, version),
{
    match version {
        JavaMinecraftVersion::V_1_16_2 | JavaMinecraftVersion::V_1_16_3 | JavaMinecraftVersion::V_1_16_4 => is_absent_on_1_16_2(entity_type),
        JavaMinecraftVersion::V_1_17 | JavaMinecraftVersion::V_1_17_1 | JavaMinecraftVersion::V_1_18 | JavaMinecraftVersion::V_1_18_2 => is_absent_on_1_17(entity_type),
        JavaMinecraftVersion::V_1_19 | JavaMinecraftVersion::V_1_19_1 => is_absent_on_1_19(entity_type),
        JavaMinecraftVersion::V_1_19_3 => is_absent_on_1_19_3(entity_type),
        JavaMinecraftVersion::V_1_19_4 | JavaMinecraftVersion::V_1_20 | JavaMinecraftVersion::V_1_20_2 => is_absent_on_1_19_4(entity_type),
        JavaMinecraftVersion::V_1_20_3 => is_absent_on_1_20_3(entity_type),
        JavaMinecraftVersion::V_1_20_5 | JavaMinecraftVersion::V_1_21 | JavaMinecraftVersion::V_1_21_2 => is_absent_on_1_20_5(entity_type),
        JavaMinecraftVersion::V_1_21_4 | JavaMinecraftVersion::V_1_21_5 => is_absent_on_1_21_4(entity_type),
        JavaMinecraftVersion::V_1_21_6 | JavaMinecraftVersion::V_1_21_7 => is_absent_on_1_21_6(entity_type),
        JavaMinecraftVersion::V_1_21_9 => is_absent_on_1_21_9(entity_type),
        JavaMinecraftVersion::V_1_21_11 | JavaMinecraftVersion::V_26_1 => is_absent_on_1_21_11(entity_type),
        JavaMinecraftVersion::V_26_2 => is_absent_on_26_2(entity_type),
        _ => false,
    }
}

/// Each entity type that arrived along the chain stays once it has arrived.
pub proof fn law_absent_tables_shrink(id: u16)
    ensures
        absent_on_26_2(id) ==> absent_on_1_21_11(id),
        absent_on_1_21_11(id) ==> absent_on_1_21_9(id),
        absent_on_1_21_9(id) ==> absent_on_1_21_6(id),
        absent_on_1_21_6(id) ==> absent_on_1_21_4(id),
        absent_on_1_21_4(id) ==> absent_on_1_20_5(id),
        absent_on_1_20_5(id) ==> absent_on_1_20_3(id),
        absent_on_1_20_3(id) ==> absent_on_1_19_4(id),
        absent_on_1_19_4(id) ==> absent_on_1_19_3(id),
        absent_on_1_19_3(id) ==> absent_on_1_19(id),
        absent_on_1_19(id) ==> absent_on_1_17(id),
        absent_on_1_17(id) ==> absent_on_1_16_2(id),
{
}

} // verus!
