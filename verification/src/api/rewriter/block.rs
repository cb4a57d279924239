//! Block and block entity ids inside packets: the block entity type of a
//! `BLOCK_ENTITY_DATA`, the block of a `BLOCK_EVENT`, and the block entities a
//! chunk carries.

use vstd::prelude::*;
use vstd::slice::slice_subrange;
use crate::api::TranslateError;
use crate::api::rewriter::chat::{take, take_view};
use crate::api::rewriter::item::{map_id, mapped_id, nbt_end_for};
use crate::api::rewriter::item_shape::{var_int_field, var_int_end};
use crate::api::types::{WireType, FixedBytesT, I16, I64, U8, VAR_INT};
use crate::api::wrapper::{PacketWrapper, WrapperView};
use crate::codec::{append_bytes, var_int_bytes, write_var_int};
use crate::data::mappings::IdMapping;
use crate::nbt::{as_int, document_end, skip_document};
use crate::packet::chunk_legacy::{field, named_document_end, skip_named_document, run_count};
use crate::version::JavaMinecraftVersion;

verus! {

/// The block entity type became a registry id in 1.18; below it the field is
/// an action id core writes itself.
pub const FIRST_TYPE_ID: JavaMinecraftVersion = JavaMinecraftVersion::V_1_18;

/// `w` with the packet dropped.
pub open spec fn cancelled(w: WrapperView) -> WrapperView {
    WrapperView { cancelled: true, ..w }
}

/// What `block_entity_data` does to a wrapper: the position is copied; from
/// 1.18 the type is renumbered through `block_entities`, and a type the
/// client lacks drops the packet; the rest is copied.
pub open spec fn block_entity_data_view(w: WrapperView, layout: JavaMinecraftVersion, block_entities: IdMapping)
    -> (Result<(), TranslateError>, WrapperView)
{
    match take_view(I64, w, true) {
        (Ok(_), w1) => if !layout.spec_at_least(FIRST_TYPE_ID) {
            (Ok(()), w1.passed_through())
        } else {
            match VAR_INT.parse(w1.remaining()) {
                Some((id, n)) => match map_id(block_entities, id) {
                    Some(m) => (Ok(()), w1.consumed(n).written(VAR_INT.encode(m)).passed_through()),
                    None => (Ok(()), cancelled(w1.consumed(n))),
                },
                None => (Err(TranslateError::Read), w1),
            }
        },
        (Err(e), w1) => (Err(e), w1),
    }
}

/// Renumbers the block entity type of a `BLOCK_ENTITY_DATA`.
pub fn block_entity_data(wrapper: &mut PacketWrapper, layout: JavaMinecraftVersion, block_entities: &IdMapping)
    -> (r: Result<(), TranslateError>)
    ensures
        final(wrapper)@.wf(),
        match block_entity_data_view(old(wrapper)@, layout, *block_entities) {
            (Ok(_), w) => r is Ok && final(wrapper)@ == w,
            (Err(e), w) => r matches Err(x) && x == e && final(wrapper)@ == w,
        },
{
    if let Err(e) = take(wrapper, &I64, true) {
        return Err(e);
    }
    if layout.at_least(FIRST_TYPE_ID) {
        let id = match wrapper.read(&VAR_INT) {
            Ok(v) => v,
            Err(e) => return Err(e),
        };
        match mapped_id(block_entities, id) {
            Some(m) => {
                if let Err(e) = wrapper.write(&VAR_INT, &m) {
                    return Err(e);
                }
            },
            None => {
                wrapper.cancel();
                return Ok(());
            },
        }
    }
    wrapper.passthrough_all();
    Ok(())
}

/// What `block_event` does to a wrapper: position and the two action bytes
/// are copied and the block is renumbered through `blocks`; a block the
/// client lacks drops the packet.
pub open spec fn block_event_view(w: WrapperView, blocks: IdMapping) -> (Result<(), TranslateError>, WrapperView) {
    match take_view(I64, w, true) {
        (Ok(_), w1) => match take_view(U8, w1, true) {
            (Ok(_), w2) => match take_view(U8, w2, true) {
                (Ok(_), w3) => match VAR_INT.parse(w3.remaining()) {
                    Some((block, n)) => match map_id(blocks, block) {
                        Some(m) => (Ok(()), w3.consumed(n).written(VAR_INT.encode(m))),
                        None => (Ok(()), cancelled(w3.consumed(n))),
                    },
                    None => (Err(TranslateError::Read), w3),
                },
                (Err(e), w3) => (Err(e), w3),
            },
            (Err(e), w2) => (Err(e), w2),
        },
        (Err(e), w1) => (Err(e), w1),
    }
}

/// Renumbers the block of a `BLOCK_EVENT`.
pub fn block_event(wrapper: &mut PacketWrapper, blocks: &IdMapping) -> (r: Result<(), TranslateError>)
    ensures
        final(wrapper)@.wf(),
        match block_event_view(old(wrapper)@, *blocks) {
            (Ok(_), w) => r is Ok && final(wrapper)@ == w,
            (Err(e), w) => r matches Err(x) && x == e && final(wrapper)@ == w,
        },
{
    if let Err(e) = take(wrapper, &I64, true) {
        return Err(e);
    }
    if let Err(e) = take(wrapper, &U8, true) {
        return Err(e);
    }
    if let Err(e) = take(wrapper, &U8, true) {
        return Err(e);
    }
    let block = match wrapper.read(&VAR_INT) {
        Ok(v) => v,
        Err(e) => return Err(e),
    };
    match mapped_id(blocks, block) {
        Some(m) => wrapper.write(&VAR_INT, &m),
        None => {
            wrapper.cancel();
            Ok(())
        },
    }
}

/// Measures the NBT document at `pos` in `version`'s form: named below
/// 1.20.2, unnamed from it.
pub fn skip_nbt_for_version(b: &[u8], pos: usize, version: JavaMinecraftVersion) -> (r: Option<usize>)
    requires
        pos <= b@.len(),
    ensures
        as_int(r) == nbt_end_for(b@, pos as int, version),
        r matches Some(p) ==> pos <= p <= b@.len(),
{
    if version.at_least(JavaMinecraftVersion::V_1_20_2) { skip_document(b, pos) } else { skip_named_document(b, pos) }
}

/// The block entities of a chunk from `pos`, `n` of them, after `kept` kept
/// ones written as `acc`: each a packed column position, a height, a type and
/// its NBT; the type is renumbered through `block_entities` and an entity
/// whose type the client lacks is left out.
pub open spec fn block_entities_copy(
    b: Seq<u8>,
    pos: int,
    n: nat,
    block_entities: IdMapping,
    version: JavaMinecraftVersion,
    kept: nat,
    acc: Seq<u8>,
) -> Option<(nat, Seq<u8>, int)>
    decreases n,
{
    if n == 0 {
        if 0 <= pos <= b.len() { Some((kept, acc, pos)) } else { None }
    } else {
        match field(U8, b, pos) {
            Some((xz, p1)) => match field(I16, b, p1) {
                Some((y, p2)) => match var_int_field(b, p2) {
                    Some((id, p3)) => match nbt_end_for(b, p3, version) {
                        Some(p4) => match map_id(block_entities, id) {
                            Some(m) => block_entities_copy(b, p4, (n - 1) as nat, block_entities, version, kept + 1,
                                acc + U8.encode(xz) + I16.encode(y) + var_int_bytes(m) + b.subrange(p3, p4)),
                            None => block_entities_copy(b, p4, (n - 1) as nat, block_entities, version, kept, acc),
                        },
                        None => None,
                    },
                    None => None,
                },
                None => None,
            },
            None => None,
        }
    }
}

/// The block entities a 1.18 and newer chunk carries, from `pos` on, with
/// their types renumbered and those the client lacks left out; everything
/// after them, the light, is copied as it stands.
pub open spec fn chunk_block_entities_bytes(b: Seq<u8>, pos: int, version: JavaMinecraftVersion, block_entities: IdMapping)
    -> Option<Seq<u8>>
{
    match var_int_field(b, pos) {
        Some((count, p)) => match block_entities_copy(b, p, run_count(count), block_entities, version, 0, Seq::empty()) {
            Some((kept, entries, end)) => if kept > i32::MAX {
                None
            } else {
                Some(var_int_bytes(kept as i32) + entries + b.subrange(end, b.len() as int))
            },
            None => None,
        },
        None => None,
    }
}

/// Renumbers the block entities a 1.18 and newer chunk carries from `pos` on
/// and leaves out the ones the client has no type for.
pub fn rewrite_chunk_block_entities(b: &[u8], pos: usize, version: JavaMinecraftVersion, block_entities: &IdMapping)
    -> (r: Option<Vec<u8>>)
    requires
        pos <= b@.len(),
    ensures
        match chunk_block_entities_bytes(b@, pos as int, version, *block_entities) {
            Some(bytes) => r matches Some(v) && v@ == bytes,
            None => r is None,
        },
{
    let (count, start) = match var_int_end(b, pos) {
        Some(found) => found,
        None => return None,
    };
    let n: i32 = if count < 0 { 0 } else { count };
    let mut left = n;
    let mut p = start;
    let mut kept: u64 = 0;
    let mut entries: Vec<u8> = Vec::new();
    while left > 0
        invariant
            start <= p <= b@.len(),
            0 <= left <= n,
            n as nat == run_count(count),
            var_int_field(b@, pos as int) == Some((count, start as int)),
            kept <= n - left,
            block_entities_copy(b@, start as int, n as nat, *block_entities, version, 0, Seq::empty())
                == block_entities_copy(b@, p as int, left as nat, *block_entities, version, kept as nat, entries@),
        decreases left,
    {
        let (xz, p1) = match U8.read(b, p) {
            Some(found) => found,
            None => return None,
        };
        let (y, p2) = match I16.read(b, p1) {
            Some(found) => found,
            None => return None,
        };
        let (id, p3) = match var_int_end(b, p2) {
            Some(found) => found,
            None => return None,
        };
        let p4 = match skip_nbt_for_version(b, p3, version) {
            Some(q) => q,
            None => return None,
        };
        match mapped_id(block_entities, id) {
            Some(m) => {
                let ghost before = entries@;
                U8.write(&mut entries, &xz);
                I16.write(&mut entries, &y);
                write_var_int(&mut entries, m);
                append_bytes(&mut entries, slice_subrange(b, p3, p4));
                assert(entries@ =~= before + U8.encode(xz) + I16.encode(y) + var_int_bytes(m) + b@.subrange(p3 as int, p4 as int));
                kept = kept + 1;
            },
            None => {},
        }
        p = p4;
        left = left - 1;
    }
    let mut out: Vec<u8> = Vec::new();
    write_var_int(&mut out, kept as i32);
    append_bytes(&mut out, entries.as_slice());
    append_bytes(&mut out, slice_subrange(b, p, b.len()));
    Some(out)
}

/// What copying the NBT document `version` frames does to a wrapper: named
/// below 1.20.2, unnamed from it, copied as it stands.
pub open spec fn raw_nbt_view(w: WrapperView, version: JavaMinecraftVersion) -> (Result<(), TranslateError>, WrapperView) {
    match nbt_end_for(w.remaining(), 0, version) {
        Some(end) => (Ok(()), w.consumed(end as nat).written(w.remaining().subrange(0, end))),
        None => (Err(TranslateError::Read), w),
    }
}

/// Copies the NBT document `version` frames across.
pub fn pass_raw_nbt(wrapper: &mut PacketWrapper, version: JavaMinecraftVersion) -> (r: Result<(), TranslateError>)
    ensures
        final(wrapper)@.wf(),
        match raw_nbt_view(old(wrapper)@, version) {
            (Ok(_), w) => r is Ok && final(wrapper)@ == w,
            (Err(e), w) => r matches Err(x) && x == e && final(wrapper)@ == w,
        },
{
    let end = match skip_nbt_for_version(wrapper.remaining(), 0, version) {
        Some(end) => end,
        None => return Err(TranslateError::Read),
    };
    match wrapper.read(&FixedBytesT(end)) {
        Ok(bytes) => {
            proof { crate::api::types::lemma_bytes_deep_view(bytes); }
            wrapper.write_bytes(bytes.as_slice());
            Ok(())
        },
        Err(e) => Err(e),
    }
}

} // verus!
