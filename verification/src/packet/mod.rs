//! Per packet rewrites, and the range of client versions translated.

pub mod legacy;
pub mod mappings;
pub mod score;
pub mod chunk_legacy;
pub mod update_tags;
pub mod chunk_remap;
pub mod block_update;
pub mod entity;
pub mod join;
pub mod status;
pub mod block_entities;

use vstd::prelude::*;
use crate::version::JavaMinecraftVersion;

verus! {

/// Oldest client version this plugin admits; below 1.16.2 there's no
/// configuration state and the join/tag/chunk/spawn packet shapes diverge too
/// much to translate.
pub const LOWEST_SUPPORTED: JavaMinecraftVersion = JavaMinecraftVersion::V_1_16_2;

/// Newest client version, the server's own.
pub const HIGHEST_SUPPORTED: JavaMinecraftVersion = JavaMinecraftVersion::V_26_3;

/// The client versions this plugin translates for: a named release from
/// 1.16.2 up to the server's own.
pub open spec fn spec_is_version_supported(version: JavaMinecraftVersion) -> bool {
    &&& version != JavaMinecraftVersion::Unknown
    &&& version.spec_at_least(JavaMinecraftVersion::V_1_16_2)
    &&& version.spec_at_most(JavaMinecraftVersion::V_26_3)
}

/// Whether this plugin translates for clients on `version`.
pub fn is_version_supported(version: JavaMinecraftVersion) -> (r: bool)
    ensures
        r == spec_is_version_supported(version),
{
    version != JavaMinecraftVersion::Unknown
        && version.at_least(LOWEST_SUPPORTED)
        && version.at_most(HIGHEST_SUPPORTED)
}

} // verus!
