//! The entity type of an `ADD_ENTITY`, rewritten at the byte level.
//!
//! Only the type field is touched, which needs no knowledge of the rest of
//! the packet and therefore works where decoding the whole packet does not.

use vstd::prelude::*;
use vstd::slice::slice_subrange;
use crate::api::rewriter::item::{map_id, mapped_id};
use crate::api::rewriter::item_shape::{var_int_field, var_int_end};
use crate::codec::{append_bytes, lemma_var_int_round_trip, rest_of, var_int_bytes, write_var_int};
use crate::data::mappings::IdMapping;

verus! {

/// Bytes of the entity uuid that follows the entity id.
pub const UUID_LEN: usize = 16;

/// An `ADD_ENTITY` with its type renumbered through `entities`: the entity
/// id, the uuid, the renumbered type, and the rest as it stands. A type
/// beyond sixteen bits, or one the client lacks, is refused.
pub open spec fn spawn_entity_bytes(b: Seq<u8>, entities: IdMapping) -> Option<Seq<u8>> {
    match var_int_field(b, 0) {
        Some((entity_id, p1)) => if p1 + UUID_LEN > b.len() {
            None
        } else {
            match var_int_field(b, p1 + UUID_LEN) {
                Some((entity_type, p2)) => if 0 <= entity_type <= u16::MAX {
                    match map_id(entities, entity_type) {
                        Some(m) => Some(
                            var_int_bytes(entity_id) + b.subrange(p1, p1 + UUID_LEN) + var_int_bytes(m)
                                + b.subrange(p2, b.len() as int),
                        ),
                        None => None,
                    }
                } else {
                    None
                },
                None => None,
            }
        },
        None => None,
    }
}

/// Renumbers the entity type in an `ADD_ENTITY` payload.
pub fn remap_spawn_entity(payload: &[u8], entities: &IdMapping) -> (r: Option<Vec<u8>>)
    ensures
        match spawn_entity_bytes(payload@, *entities) {
            Some(bytes) => r matches Some(v) && v@ == bytes,
            None => r is None,
        },
{
    let (entity_id, p1) = match var_int_end(payload, 0) {
        Some(found) => found,
        None => return None,
    };
    if UUID_LEN > payload.len() - p1 {
        return None;
    }
    let (entity_type, p2) = match var_int_end(payload, p1 + UUID_LEN) {
        Some(found) => found,
        None => return None,
    };
    if entity_type < 0 || entity_type > u16::MAX as i32 {
        return None;
    }
    let m = match mapped_id(entities, entity_type) {
        Some(m) => m,
        None => return None,
    };
    let mut out: Vec<u8> = Vec::new();
    write_var_int(&mut out, entity_id);
    append_bytes(&mut out, slice_subrange(payload, p1, p1 + UUID_LEN));
    write_var_int(&mut out, m);
    append_bytes(&mut out, slice_subrange(payload, p2, payload.len()));
    Some(out)
}


/// A renumbered spawn reads back with the entity id and the uuid it came
/// with, whatever the length of the id, the type renumbered through
/// `entities`, and the rest as it stood.
pub proof fn law_spawn_keeps_id_and_uuid(b: Seq<u8>, entities: IdMapping)
    ensures
        spawn_entity_bytes(b, entities) matches Some(out) ==> {
            &&& var_int_field(b, 0) matches Some((id, p1))
            &&& var_int_field(out, 0) matches Some((out_id, q1))
            &&& out_id == id
            &&& out.subrange(q1, q1 + UUID_LEN) == b.subrange(p1, p1 + UUID_LEN)
            &&& var_int_field(b, p1 + UUID_LEN) matches Some((entity_type, p2))
            &&& var_int_field(out, q1 + UUID_LEN) matches Some((out_type, q2))
            &&& map_id(entities, entity_type) == Some(out_type)
            &&& out.subrange(q2, out.len() as int) == b.subrange(p2, b.len() as int)
        },
{
    if let Some(out) = spawn_entity_bytes(b, entities) {
        let (id, p1) = var_int_field(b, 0)->Some_0;
        let (entity_type, p2) = var_int_field(b, p1 + UUID_LEN)->Some_0;
        let m = map_id(entities, entity_type)->Some_0;
        crate::codec::lemma_var_int_len(rest_of(b, 0));
        crate::codec::lemma_var_int_len(rest_of(b, p1 + UUID_LEN));
        let uuid = b.subrange(p1, p1 + UUID_LEN);
        let rest = b.subrange(p2, b.len() as int);
        let tail = uuid + var_int_bytes(m) + rest;
        assert(out =~= var_int_bytes(id) + tail);
        lemma_var_int_round_trip(id, tail);
        assert(rest_of(out, 0) =~= out);
        let q1 = var_int_bytes(id).len() as int;
        assert(out.subrange(q1, q1 + UUID_LEN) =~= uuid);
        let after = var_int_bytes(m) + rest;
        assert(rest_of(out, q1 + UUID_LEN) =~= after);
        lemma_var_int_round_trip(m, rest);
        let q2 = q1 + UUID_LEN + var_int_bytes(m).len();
        assert(out.subrange(q2, out.len() as int) =~= rest);
    }
}

} // verus!
