//! Block state ids in the block change packets.
//!
//! Chunk palettes are renumbered when a chunk is sent, but every later change
//! to the world arrives through these packets carrying a raw state id; left
//! alone, the client renders the wrong block for anything that changes after
//! load.

use vstd::prelude::*;
use crate::api::types::{WireType, BOOL, I32, I64, VAR_INT, VAR_LONG};
use crate::data::mappings::IdMapping;
use crate::packet::chunk_legacy::{field, mapped_state, read_field, run_count};
use crate::packet::chunk_remap::{remap_state, remap_state_id};
use crate::version::JavaMinecraftVersion;

verus! {

/// Oldest layout whose block change packets carry the state ids renumbered
/// here; older clients get them through their own translation.
pub const OLDEST_LAYOUT: JavaMinecraftVersion = JavaMinecraftVersion::V_1_18;

/// A `BLOCK_UPDATE` for the client: the block position, then the state id
/// renumbered through `states`. An id outside sixteen bits is refused.
pub open spec fn block_update_bytes(b: Seq<u8>, states: IdMapping) -> Option<Seq<u8>> {
    match field(I64, b, 0) {
        Some((position, p1)) => match field(VAR_INT, b, p1) {
            Some((state, _)) => match remap_state(states, state) {
                Some(m) => Some(I64.encode(position) + VAR_INT.encode(m)),
                None => None,
            },
            None => None,
        },
        None => None,
    }
}

/// Renumbers the state id of a `BLOCK_UPDATE`.
pub fn remap_block_update(payload: &[u8], states: &IdMapping) -> (r: Option<Vec<u8>>)
    ensures
        match block_update_bytes(payload@, *states) {
            Some(bytes) => r matches Some(v) && v@ == bytes,
            None => r is None,
        },
{
    let (position, p1) = match read_field(&I64, payload, 0) {
        Some(found) => found,
        None => return None,
    };
    let (state, _) = match read_field(&VAR_INT, payload, p1) {
        Some(found) => found,
        None => return None,
    };
    let m = match remap_state_id(states, state) {
        Some(m) => m,
        None => return None,
    };
    let mut out: Vec<u8> = Vec::new();
    I64.write(&mut out, &position);
    VAR_INT.write(&mut out, &m);
    Some(out)
}

/// One change of a section: the state id in the bits above the low twelve,
/// which hold the position in the section, renumbered through `states`.
/// A state id beyond sixteen bits is refused.
pub open spec fn repacked_change(packed: i64, states: IdMapping) -> Option<i64> {
    let bits = packed as u64;
    let state = bits / 4096;
    if state > u16::MAX {
        None
    } else {
        Some((mapped_state(states, state as u32) * 4096 + bits % 4096) as i64)
    }
}

/// The `n` changes from `pos` renumbered, appended to `acc`.
pub open spec fn changes_bytes(b: Seq<u8>, pos: int, n: nat, states: IdMapping, acc: Seq<u8>) -> Option<Seq<u8>>
    decreases n,
{
    if n == 0 {
        Some(acc)
    } else {
        match field(VAR_LONG, b, pos) {
            Some((packed, p)) => match repacked_change(packed, states) {
                Some(change) => changes_bytes(b, p, (n - 1) as nat, states, acc + VAR_LONG.encode(change)),
                None => None,
            },
            None => None,
        }
    }
}

/// A `SECTION_BLOCKS_UPDATE` for the client: the section position and the
/// change count, then each change with its state id renumbered.
pub open spec fn section_update_bytes(b: Seq<u8>, states: IdMapping) -> Option<Seq<u8>> {
    match field(I64, b, 0) {
        Some((section, p1)) => match field(VAR_INT, b, p1) {
            Some((count, p2)) => changes_bytes(
                b,
                p2,
                run_count(count),
                states,
                I64.encode(section) + VAR_INT.encode(count),
            ),
            None => None,
        },
        None => None,
    }
}

fn repack(packed: i64, states: &IdMapping) -> (r: Option<i64>)
    ensures
        r == repacked_change(packed, *states),
{
    let bits = packed as u64;
    let state = bits / 4096;
    if state > u16::MAX as u64 {
        return None;
    }
    let m: u64 = match states.map(state as u32) {
        Some(m) => m as u64,
        None => 0,
    };
    Some((m * 4096 + bits % 4096) as i64)
}

/// Renumbers every state id of a `SECTION_BLOCKS_UPDATE`.
pub fn remap_section_blocks_update(payload: &[u8], states: &IdMapping) -> (r: Option<Vec<u8>>)
    ensures
        match section_update_bytes(payload@, *states) {
            Some(bytes) => r matches Some(v) && v@ == bytes,
            None => r is None,
        },
{
    let (section, p1) = match read_field(&I64, payload, 0) {
        Some(found) => found,
        None => return None,
    };
    let (count, p2) = match read_field(&VAR_INT, payload, p1) {
        Some(found) => found,
        None => return None,
    };
    let mut out: Vec<u8> = Vec::new();
    I64.write(&mut out, &section);
    VAR_INT.write(&mut out, &count);
    let mut left: i32 = if count < 0 { 0 } else { count };
    let mut p = p2;
    while left > 0
        invariant
            p2 <= p <= payload@.len(),
            left >= 0,
            section_update_bytes(payload@, *states) == changes_bytes(payload@, p as int, left as nat, *states, out@),
        decreases left,
    {
        let (packed, q) = match read_field(&VAR_LONG, payload, p) {
            Some(found) => found,
            None => return None,
        };
        let change = match repack(packed, states) {
            Some(c) => c,
            None => return None,
        };
        VAR_LONG.write(&mut out, &change);
        p = q;
        left = left - 1;
    }
    Some(out)
}

/// The level event whose data is a block state: the block break particles.
pub const PARTICLES_DESTROY_BLOCK: i32 = 2001;

/// A `LEVEL_EVENT` for the client: only the block break event carries a
/// state id, which is renumbered; `None` for every other event, which passes
/// as it stands, and for an id outside sixteen bits.
pub open spec fn level_event_bytes(b: Seq<u8>, states: IdMapping) -> Option<Seq<u8>> {
    match field(I32, b, 0) {
        Some((event, p1)) => if event != PARTICLES_DESTROY_BLOCK {
            None
        } else {
            match field(I64, b, p1) {
                Some((position, p2)) => match field(I32, b, p2) {
                    Some((data, p3)) => match field(BOOL, b, p3) {
                        Some((global, _)) => match remap_state(states, data) {
                            Some(m) => Some(I32.encode(event) + I64.encode(position) + I32.encode(m) + BOOL.encode(global)),
                            None => None,
                        },
                        None => None,
                    },
                    None => None,
                },
                None => None,
            }
        },
        None => None,
    }
}

/// Renumbers the block state of a block break `LEVEL_EVENT`.
pub fn remap_level_event(payload: &[u8], states: &IdMapping) -> (r: Option<Vec<u8>>)
    ensures
        match level_event_bytes(payload@, *states) {
            Some(bytes) => r matches Some(v) && v@ == bytes,
            None => r is None,
        },
{
    let (event, p1) = match read_field(&I32, payload, 0) {
        Some(found) => found,
        None => return None,
    };
    if event != PARTICLES_DESTROY_BLOCK {
        return None;
    }
    let (position, p2) = match read_field(&I64, payload, p1) {
        Some(found) => found,
        None => return None,
    };
    let (data, p3) = match read_field(&I32, payload, p2) {
        Some(found) => found,
        None => return None,
    };
    let (global, _) = match read_field(&BOOL, payload, p3) {
        Some(found) => found,
        None => return None,
    };
    let m = match remap_state_id(states, data) {
        Some(m) => m,
        None => return None,
    };
    let mut out: Vec<u8> = Vec::new();
    I32.write(&mut out, &event);
    I64.write(&mut out, &position);
    I32.write(&mut out, &m);
    BOOL.write(&mut out, &global);
    Some(out)
}

} // verus!
