//! The per packet work that runs in the layout core wrote: keeping the entity
//! tracker in step with the entities a client is told about, and the payload
//! rewrites that need no more than the bytes.

use vstd::prelude::*;
use crate::api::TranslateError;
use crate::api::connection::UserConnection;
use crate::api::rewriter::item_shape::{var_int_field, var_int_end};
use crate::api::wrapper::{PacketWrapper, WrapperView};
use crate::packet::update_tags::{TagData, rewrite_update_tags, update_tags_bytes};
use crate::version::JavaMinecraftVersion;
use crate::api::types::{WireType, I32};
use crate::codec::{rest_of, string_at};
use crate::packet::status::rewrite_status_response;
use crate::data::mappings::ComposedMappings;
use crate::packet::block_update::{
    block_update_bytes, level_event_bytes, remap_block_update, remap_level_event, remap_section_blocks_update,
    section_update_bytes, OLDEST_LAYOUT, PARTICLES_DESTROY_BLOCK,
};
use crate::packet::chunk_legacy::{field, read_field};
use crate::packet::chunk_remap::{remap_chunk_payload, remapped_chunk};
use crate::packet::join::{
    login_bytes, respawn_bytes, rewrite_login, rewrite_respawn, FIRST_WITH_CONFIG_STATE, FIRST_WITH_DIMENSION_NAME,
};

verus! {

/// The entity id and the newest protocol's entity type at the front of an
/// `ADD_ENTITY` payload, the prefix the packet has carried since 1.14: an id,
/// sixteen bytes of uuid and a type that fits in sixteen bits.
pub open spec fn spawn_prefix_of(b: Seq<u8>) -> Option<(i32, u16)> {
    match var_int_field(b, 0) {
        Some((entity_id, p)) => if p + 16 > b.len() {
            None
        } else {
            match var_int_field(b, p + 16) {
                Some((entity_type, _)) => if 0 <= entity_type <= u16::MAX {
                    Some((entity_id, entity_type as u16))
                } else {
                    None
                },
                None => None,
            }
        },
        None => None,
    }
}

/// Reads the entity id and type at the front of an `ADD_ENTITY` payload.
pub fn spawn_prefix(payload: &[u8]) -> (r: Option<(i32, u16)>)
    ensures
        r == spawn_prefix_of(payload@),
{
    let (entity_id, p) = match var_int_end(payload, 0) {
        Some(found) => found,
        None => return None,
    };
    if 16 > payload.len() - p {
        return None;
    }
    match var_int_end(payload, p + 16) {
        Some((entity_type, _)) => if 0 <= entity_type && entity_type <= u16::MAX as i32 {
            Some((entity_id, entity_type as u16))
        } else {
            None
        },
        None => None,
    }
}

/// The ids from `pos` on, at most `n` of them, up to the first that does not
/// read.
pub open spec fn ids_while_readable(b: Seq<u8>, pos: int, n: nat) -> Seq<i32>
    decreases n,
{
    if n == 0 {
        Seq::empty()
    } else {
        match var_int_field(b, pos) {
            Some((id, p)) => seq![id] + ids_while_readable(b, p, (n - 1) as nat),
            None => Seq::empty(),
        }
    }
}

/// The entity ids a `REMOVE_ENTITIES` payload names in `layout`: one id on
/// 1.17, else a count and that many, as many of them as read.
pub open spec fn removed_ids_of(b: Seq<u8>, layout: JavaMinecraftVersion) -> Seq<i32> {
    if layout == JavaMinecraftVersion::V_1_17 {
        match var_int_field(b, 0) {
            Some((id, _)) => seq![id],
            None => Seq::empty(),
        }
    } else {
        match var_int_field(b, 0) {
            Some((count, p)) => ids_while_readable(b, p, if count < 0 { 0 } else { count as nat }),
            None => Seq::empty(),
        }
    }
}

/// The entity ids a `REMOVE_ENTITIES` payload names in `layout`.
pub fn removed_ids(payload: &[u8], layout: JavaMinecraftVersion) -> (r: Vec<i32>)
    ensures
        r@ == removed_ids_of(payload@, layout),
{
    if layout == JavaMinecraftVersion::V_1_17 {
        return match var_int_end(payload, 0) {
            Some((id, _)) => {
                let v: Vec<i32> = vec![id];
                assert(v@ =~= seq![id]);
                v
            },
            None => Vec::new(),
        };
    }
    let (count, start) = match var_int_end(payload, 0) {
        Some(found) => found,
        None => return Vec::new(),
    };
    let mut ids: Vec<i32> = Vec::new();
    let mut p = start;
    let mut left: i32 = if count < 0 { 0 } else { count };
    while left > 0
        invariant
            p <= payload@.len(),
            0 <= left,
            ids_while_readable(payload@, start as int, if count < 0 { 0 } else { count as nat })
                == ids@ + ids_while_readable(payload@, p as int, left as nat),
        decreases left,
    {
        match var_int_end(payload, p) {
            Some((id, q)) => {
                let ghost before = ids@;
                ids.push(id);
                assert(before + (seq![id] + ids_while_readable(payload@, q as int, (left - 1) as nat))
                    =~= ids@ + ids_while_readable(payload@, q as int, (left - 1) as nat));
                p = q;
                left = left - 1;
            },
            None => {
                left = 0;
            },
        }
    }
    assert(ids@ + Seq::<i32>::empty() =~= ids@);
    ids
}

/// `m` with every id of `ids` taken out.
pub open spec fn without_ids(m: Map<i32, u16>, ids: Seq<i32>) -> Map<i32, u16>
    decreases ids.len(),
{
    if ids.len() == 0 { m } else { without_ids(m, ids.drop_last()).remove(ids.last()) }
}

/// Forgets the entities a `REMOVE_ENTITIES` names and passes the payload on
/// unchanged.
pub fn remove_entities(wrapper: &mut PacketWrapper, connection: &mut UserConnection, layout: JavaMinecraftVersion)
    -> (r: Result<(), TranslateError>)
    ensures
        r is Ok,
        final(wrapper)@ == old(wrapper)@.passed_through(),
        final(connection).entity_tracker.entities()
            == without_ids(old(connection).entity_tracker.entities(), removed_ids_of(old(wrapper)@.remaining(), layout)),
        final(connection).id == old(connection).id,
        final(connection).version == old(connection).version,
        final(connection).entity_tracker.client_entity_id == old(connection).entity_tracker.client_entity_id,
{
    let ids = removed_ids(wrapper.remaining(), layout);
    let mut i: usize = 0;
    while i < ids.len()
        invariant
            i <= ids@.len(),
            connection.entity_tracker.entities() == without_ids(old(connection).entity_tracker.entities(), ids@.take(i as int)),
            connection.id == old(connection).id,
            connection.version == old(connection).version,
            connection.entity_tracker.client_entity_id == old(connection).entity_tracker.client_entity_id,
        decreases ids@.len() - i,
    {
        assert(ids@.take(i + 1).drop_last() =~= ids@.take(i as int));
        connection.entity_tracker.remove(ids[i]);
        i = i + 1;
    }
    assert(ids@.take(ids@.len() as int) =~= ids@);
    wrapper.passthrough_all();
    Ok(())
}

/// Rewrites `UPDATE_TAGS` for a client on `layout` with that version's tag
/// data, passing the payload on unchanged where it is not the shape the
/// version reads or cannot be written.
pub fn tags(wrapper: &mut PacketWrapper, layout: JavaMinecraftVersion, data: &TagData) -> (r: Result<(), TranslateError>)
    ensures
        r is Ok,
        match update_tags_bytes(old(wrapper)@.remaining(), layout, *data) {
            Some(bytes) => final(wrapper)@ == old(wrapper)@.consumed(old(wrapper)@.remaining().len()).written(bytes),
            None => final(wrapper)@ == old(wrapper)@.passed_through(),
        },
{
    let out = rewrite_update_tags(wrapper.remaining(), layout, data);
    match out {
        Some(payload) => wrapper.replace_remaining(payload),
        None => wrapper.passthrough_all(),
    }
    Ok(())
}

/// Rewrites the status response so a client on `layout` sees its own
/// version; a payload that is not the expected document passes as it is.
pub fn status_response(wrapper: &mut PacketWrapper, layout: JavaMinecraftVersion) -> (r: Result<(), TranslateError>)
    ensures
        r is Ok,
        final(wrapper)@ == old(wrapper)@.passed_through()
            || exists|bytes: Seq<u8>| final(wrapper)@ == old(wrapper)@.consumed(old(wrapper)@.remaining().len()).written(bytes),
        string_at(rest_of(old(wrapper)@.remaining(), 0)) is None ==> final(wrapper)@ == old(wrapper)@.passed_through(),
{
    let out = rewrite_status_response(wrapper.remaining(), layout);
    match out {
        Some(payload) => wrapper.replace_remaining(payload),
        None => wrapper.passthrough_all(),
    }
    Ok(())
}

/// What replacing the rest of the payload with `out` does to a wrapper; a
/// rewrite that gave nothing refuses the packet as `what`.
pub open spec fn rewrite_view(w: WrapperView, out: Option<Seq<u8>>, what: &'static str)
    -> (Result<(), TranslateError>, WrapperView)
{
    match out {
        Some(bytes) => (Ok(()), w.consumed(w.remaining().len()).written(bytes)),
        None => (Err(TranslateError::Unsupported(what)), w),
    }
}

fn rewrite(wrapper: &mut PacketWrapper, out: Option<Vec<u8>>, what: &'static str) -> (r: Result<(), TranslateError>)
    ensures
        final(wrapper)@.wf(),
        match rewrite_view(old(wrapper)@, match out { Some(v) => Some(v@), None => None }, what) {
            (Ok(_), w) => r is Ok && final(wrapper)@ == w,
            (Err(e), w) => r matches Err(x) && x == e && final(wrapper)@ == w,
        },
{
    match out {
        Some(payload) => {
            wrapper.replace_remaining(payload);
            Ok(())
        },
        None => {
            let _ = wrapper.packet();
            Err(TranslateError::Unsupported(what))
        },
    }
}

/// Renumbers the block states and block entity types of a chunk; a chunk
/// that cannot be read in the client's layout is refused.
pub fn chunk(wrapper: &mut PacketWrapper, layout: JavaMinecraftVersion, ids: &ComposedMappings) -> (r: Result<(), TranslateError>)
    ensures
        final(wrapper)@.wf(),
        match rewrite_view(old(wrapper)@, remapped_chunk(old(wrapper)@.remaining(), layout, ids.blockstates, ids.blockentities), "chunk") {
            (Ok(_), w) => r is Ok && final(wrapper)@ == w,
            (Err(e), w) => r matches Err(x) && x == e && final(wrapper)@ == w,
        },
{
    let out = remap_chunk_payload(wrapper.remaining(), layout, &ids.blockstates, &ids.blockentities);
    rewrite(wrapper, out, "chunk")
}

/// Renumbers the state of a `BLOCK_UPDATE`; older layouts pass as they stand.
pub fn block_update_pass(wrapper: &mut PacketWrapper, layout: JavaMinecraftVersion, ids: &ComposedMappings)
    -> (r: Result<(), TranslateError>)
    ensures
        final(wrapper)@.wf(),
        !layout.spec_at_least(OLDEST_LAYOUT) ==> r is Ok && final(wrapper)@ == old(wrapper)@.passed_through(),
        layout.spec_at_least(OLDEST_LAYOUT) ==> match rewrite_view(old(wrapper)@, block_update_bytes(old(wrapper)@.remaining(), ids.blockstates), "block update") {
            (Ok(_), w) => r is Ok && final(wrapper)@ == w,
            (Err(e), w) => r matches Err(x) && x == e && final(wrapper)@ == w,
        },
{
    if !layout.at_least(OLDEST_LAYOUT) {
        wrapper.passthrough_all();
        return Ok(());
    }
    let out = remap_block_update(wrapper.remaining(), &ids.blockstates);
    rewrite(wrapper, out, "block update")
}

/// Renumbers the states of a `SECTION_BLOCKS_UPDATE`; older layouts pass as
/// they stand.
pub fn section_blocks_update(wrapper: &mut PacketWrapper, layout: JavaMinecraftVersion, ids: &ComposedMappings)
    -> (r: Result<(), TranslateError>)
    ensures
        final(wrapper)@.wf(),
        !layout.spec_at_least(OLDEST_LAYOUT) ==> r is Ok && final(wrapper)@ == old(wrapper)@.passed_through(),
        layout.spec_at_least(OLDEST_LAYOUT) ==> match rewrite_view(old(wrapper)@, section_update_bytes(old(wrapper)@.remaining(), ids.blockstates), "section blocks update") {
            (Ok(_), w) => r is Ok && final(wrapper)@ == w,
            (Err(e), w) => r matches Err(x) && x == e && final(wrapper)@ == w,
        },
{
    if !layout.at_least(OLDEST_LAYOUT) {
        wrapper.passthrough_all();
        return Ok(());
    }
    let out = remap_section_blocks_update(wrapper.remaining(), &ids.blockstates);
    rewrite(wrapper, out, "section blocks update")
}

/// Whether a `LEVEL_EVENT` payload is one that carries no block state: its
/// event reads and is not the block break event.
pub open spec fn other_event(b: Seq<u8>) -> bool {
    field(I32, b, 0) matches Some((event, _)) && event != PARTICLES_DESTROY_BLOCK
}

/// Renumbers the block state of a block break `LEVEL_EVENT`; every other
/// event, and older layouts, pass as they stand.
pub fn level_event(wrapper: &mut PacketWrapper, layout: JavaMinecraftVersion, ids: &ComposedMappings)
    -> (r: Result<(), TranslateError>)
    ensures
        final(wrapper)@.wf(),
        !layout.spec_at_least(OLDEST_LAYOUT) || other_event(old(wrapper)@.remaining())
            ==> r is Ok && final(wrapper)@ == old(wrapper)@.passed_through(),
        layout.spec_at_least(OLDEST_LAYOUT) && !other_event(old(wrapper)@.remaining())
            ==> match rewrite_view(old(wrapper)@, level_event_bytes(old(wrapper)@.remaining(), ids.blockstates), "level event") {
                (Ok(_), w) => r is Ok && final(wrapper)@ == w,
                (Err(e), w) => r matches Err(x) && x == e && final(wrapper)@ == w,
            },
{
    if !layout.at_least(OLDEST_LAYOUT) {
        wrapper.passthrough_all();
        return Ok(());
    }
    if let Some((event, _)) = read_field(&I32, wrapper.remaining(), 0) {
        if event != PARTICLES_DESTROY_BLOCK {
            wrapper.passthrough_all();
            return Ok(());
        }
    }
    let out = remap_level_event(wrapper.remaining(), &ids.blockstates);
    rewrite(wrapper, out, "level event")
}


/// What a `LOGIN` does to the entities a client is told about: every one is
/// forgotten, and the client's own entity, whose id opens the packet, is
/// tracked as a player.
pub open spec fn login_entities(b: Seq<u8>, player: u16) -> Map<i32, u16> {
    match field(I32, b, 0) {
        Some((id, _)) => Map::<i32, u16>::empty().insert(id, player),
        None => Map::<i32, u16>::empty(),
    }
}

/// Starts the client's world afresh and rewrites its join packet: below
/// 1.20.2 with its codec body replaced by `codec` and, below 1.19, its
/// dimension element by `element`, the version's own registry data; from
/// 1.20.2 the packet passes as it is. `player` is the player's entity type.
pub fn login(wrapper: &mut PacketWrapper, connection: &mut UserConnection, layout: JavaMinecraftVersion, player: u16,
    codec: &[u8], element: Option<&[u8]>) -> (r: Result<(), TranslateError>)
    ensures
        final(wrapper)@.wf(),
        final(connection).entity_tracker.entities() == login_entities(old(wrapper)@.remaining(), player),
        final(connection).entity_tracker.client_entity_id == match field(I32, old(wrapper)@.remaining(), 0) {
            Some((id, _)) => Some(id),
            None => old(connection).entity_tracker.client_entity_id,
        },
        final(connection).entity_tracker.min_y == old(connection).entity_tracker.min_y,
        final(connection).entity_tracker.height == old(connection).entity_tracker.height,
        final(connection).id == old(connection).id,
        final(connection).version == old(connection).version,
        layout.spec_at_least(FIRST_WITH_CONFIG_STATE) ==> r is Ok && final(wrapper)@ == old(wrapper)@.passed_through(),
        !layout.spec_at_least(FIRST_WITH_CONFIG_STATE) ==> match rewrite_view(old(wrapper)@,
            login_bytes(old(wrapper)@.remaining(), layout, codec@, match element { Some(e) => Some(e@), None => None }),
            "login") {
            (Ok(_), w) => r is Ok && final(wrapper)@ == w,
            (Err(e), w) => r == Err::<(), TranslateError>(e) && final(wrapper)@ == w,
        },
{
    connection.entity_tracker.clear();
    match read_field(&I32, wrapper.remaining(), 0) {
        Some((id, _)) => {
            connection.entity_tracker.client_entity_id = Some(id);
            connection.entity_tracker.add(id, player);
            assert(connection.entity_tracker.entities() =~= login_entities(old(wrapper)@.remaining(), player));
        },
        None => {},
    }
    if layout.at_least(FIRST_WITH_CONFIG_STATE) {
        wrapper.passthrough_all();
        return Ok(());
    }
    let out = rewrite_login(wrapper.remaining(), layout, codec, element);
    rewrite(wrapper, out, "login")
}

/// What a `RESPAWN` does to the entities a client is told about: every one
/// is forgotten but the client's own, which is never spawned again.
pub open spec fn respawn_entities(client: Option<i32>, player: u16) -> Map<i32, u16> {
    match client {
        Some(id) => Map::<i32, u16>::empty().insert(id, player),
        None => Map::<i32, u16>::empty(),
    }
}

/// Starts the client's world afresh and, below 1.19, replaces the dimension
/// element its respawn packet opens with by `element`, the version's own;
/// from 1.19 the packet passes as it is. `player` is the player's entity type.
pub fn respawn(wrapper: &mut PacketWrapper, connection: &mut UserConnection, layout: JavaMinecraftVersion, player: u16,
    element: Option<&[u8]>) -> (r: Result<(), TranslateError>)
    ensures
        final(wrapper)@.wf(),
        final(connection).entity_tracker.entities()
            == respawn_entities(old(connection).entity_tracker.client_entity_id, player),
        final(connection).entity_tracker.client_entity_id == old(connection).entity_tracker.client_entity_id,
        final(connection).entity_tracker.min_y == old(connection).entity_tracker.min_y,
        final(connection).entity_tracker.height == old(connection).entity_tracker.height,
        final(connection).id == old(connection).id,
        final(connection).version == old(connection).version,
        layout.spec_at_least(FIRST_WITH_DIMENSION_NAME) ==> r is Ok && final(wrapper)@ == old(wrapper)@.passed_through(),
        !layout.spec_at_least(FIRST_WITH_DIMENSION_NAME) ==> match rewrite_view(old(wrapper)@,
            respawn_bytes(old(wrapper)@.remaining(), layout, match element { Some(e) => Some(e@), None => None }),
            "respawn") {
            (Ok(_), w) => r is Ok && final(wrapper)@ == w,
            (Err(e), w) => r == Err::<(), TranslateError>(e) && final(wrapper)@ == w,
        },
{
    connection.entity_tracker.clear();
    match connection.entity_tracker.client_entity_id {
        Some(id) => {
            connection.entity_tracker.add(id, player);
            assert(connection.entity_tracker.entities()
                =~= respawn_entities(old(connection).entity_tracker.client_entity_id, player));
        },
        None => {},
    }
    if layout.at_least(FIRST_WITH_DIMENSION_NAME) {
        wrapper.passthrough_all();
        return Ok(());
    }
    let out = rewrite_respawn(wrapper.remaining(), layout, element);
    rewrite(wrapper, out, "respawn")
}

} // verus!
