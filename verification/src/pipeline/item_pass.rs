//! The packets that carry item stacks to a client: every stack put in the
//! client's form, every other field copied across as it was read.
//!
//! Each packet is rewritten from its bytes: a `Progress` is how far a rewrite
//! has read and what it has written so far, or the error it stopped on. A
//! packet that does not rewrite leaves its wrapper as it was.

use vstd::prelude::*;
use crate::api::TranslateError;
use crate::api::connection::UserConnection;
use crate::api::item::{
    hashed_item_at, hashed_item_bytes, hashed_view, item_cost_at, item_cost_bytes, structured_bytes,
    structured_writable, template_bytes, template_item_at, write_structured, HashedItem, HASHED_ITEM, ITEM_COST,
    TEMPLATE_ITEM,
    HashedItemView,
};
use crate::api::rewriter::item::{
    client_item, inverts, item_version, lemma_inverse_unmaps, mapped_id, read_client_item, rewrite_item, rewritten_item,
    unmap_id, unmap_ids,
    unmapped_ids, StructuredItemRewriter, FIRST_STRUCTURED,
};
use crate::api::rewriter::item_shape::DataComponent;
use crate::api::types::{WireType, FixedBytesT, BOOL, I16, I32, I64, I8, STRING, U8, VAR_INT};
use crate::api::wrapper::{PacketWrapper, WrapperView};
use crate::data::mappings::{ComposedMappings, IdMapping};
use crate::codec::append_bytes;
use crate::nbt::{document_end, skip_document};
use crate::packet::chunk_legacy::{field, read_field, run_count};
use vstd::slice::slice_subrange;
use crate::version::JavaMinecraftVersion as V;

verus! {

/// How far a rewrite has read and what it has written, or why it stopped.
pub type Progress = Result<(int, Seq<u8>), TranslateError>;

/// Copies a `t` across, giving its value too: read at the position reached,
/// written back as it was read.
pub open spec fn copied<T: WireType>(t: T, b: Seq<u8>, s: Progress)
    -> Result<(<T::Value as DeepView>::V, int, Seq<u8>), TranslateError>
{
    match s {
        Ok((pos, out)) => match field(t, b, pos) {
            Some((v, p)) => if t.writable(v) { Ok((v, p, out + t.encode(v))) } else { Err(TranslateError::Write) },
            None => Err(TranslateError::Read),
        },
        Err(e) => Err(e),
    }
}

/// Copies a `t` across.
pub open spec fn pass<T: WireType>(t: T, b: Seq<u8>, s: Progress) -> Progress {
    match copied(t, b, s) {
        Ok((_, p, out)) => Ok((p, out)),
        Err(e) => Err(e),
    }
}

/// Copies `n` values of `t` across.
pub open spec fn passes<T: WireType>(t: T, b: Seq<u8>, s: Progress, n: nat) -> Progress
    decreases n,
{
    if n == 0 {
        s
    } else {
        match s {
            Ok(_) => passes(t, b, pass(t, b, s), (n - 1) as nat),
            Err(e) => Err(e),
        }
    }
}

/// Puts the stack at the position reached in `layout`'s form.
pub open spec fn pass_item(reg: Seq<DataComponent>, b: Seq<u8>, s: Progress, layout: V, ids: ComposedMappings)
    -> Progress
{
    match s {
        Ok((pos, out)) => match rewritten_item(reg, b, pos, layout, ids) {
            Ok((bytes, p)) => Ok((p, out + bytes)),
            Err(e) => Err(e),
        },
        Err(e) => Err(e),
    }
}

/// Puts `n` stacks in a row in `layout`'s form.
pub open spec fn pass_items(reg: Seq<DataComponent>, b: Seq<u8>, s: Progress, n: nat, layout: V,
    ids: ComposedMappings) -> Progress
    decreases n,
{
    if n == 0 {
        s
    } else {
        match s {
            Ok(_) => pass_items(reg, b, pass_item(reg, b, s, layout, ids), (n - 1) as nat, layout, ids),
            Err(e) => Err(e),
        }
    }
}

/// Where a rewrite of a packet from its first byte ends.
pub open spec fn start() -> Progress {
    Ok((0, Seq::empty()))
}

/// What a finished rewrite does to a wrapper: the bytes read are replaced by
/// the bytes written; an error leaves it as it was.
pub open spec fn applied(w: WrapperView, s: Progress) -> (Result<(), TranslateError>, WrapperView) {
    match s {
        Ok((p, out)) => (Ok(()), w.consumed(p as nat).written(out)),
        Err(e) => (Err(e), w),
    }
}

/// Copies a `t` across from `pos`, giving its value and the position after it.
pub(crate) fn copy<T: WireType>(t: &T, b: &[u8], pos: usize, out: &mut Vec<u8>) -> (r: Result<(T::Value, usize), TranslateError>)
    requires
        pos <= b@.len(),
    ensures
        match copied(*t, b@, Ok((pos as int, old(out)@))) {
            Ok((v, p, o)) => r matches Ok((x, q)) && x.deep_view() == v && q == p && q <= b@.len()
                && final(out)@ == o,
            Err(e) => r == Err::<(T::Value, usize), TranslateError>(e),
        },
{
    match read_field(t, b, pos) {
        Some((v, p)) => if t.write(out, &v) {
            Ok((v, p))
        } else {
            Err(TranslateError::Write)
        },
        None => Err(TranslateError::Read),
    }
}

/// Copies a `t` across from `pos`, giving the position after it.
pub(crate) fn skip<T: WireType>(t: &T, b: &[u8], pos: usize, out: &mut Vec<u8>) -> (r: Result<usize, TranslateError>)
    requires
        pos <= b@.len(),
    ensures
        match pass(*t, b@, Ok((pos as int, old(out)@))) {
            Ok((p, o)) => r matches Ok(q) && q == p && q <= b@.len() && final(out)@ == o,
            Err(e) => r == Err::<usize, TranslateError>(e),
        },
{
    match copy(t, b, pos, out) {
        Ok((_, p)) => Ok(p),
        Err(e) => Err(e),
    }
}

/// Puts the stack at `pos` in `layout`'s form.
fn item(b: &[u8], pos: usize, out: &mut Vec<u8>, layout: V, reg: &[DataComponent], ids: &ComposedMappings)
    -> (r: Result<usize, TranslateError>)
    requires
        pos <= b@.len(),
    ensures
        match pass_item(reg@, b@, Ok((pos as int, old(out)@)), layout, *ids) {
            Ok((p, o)) => r matches Ok(q) && q == p && pos <= q <= b@.len() && final(out)@ == o,
            Err(e) => r == Err::<usize, TranslateError>(e),
        },
{
    rewrite_item(b, pos, out, layout, reg, ids)
}

/// Puts `n` stacks from `pos` in `layout`'s form.
fn items(b: &[u8], pos: usize, n: u32, out: &mut Vec<u8>, layout: V, reg: &[DataComponent], ids: &ComposedMappings)
    -> (r: Result<usize, TranslateError>)
    requires
        pos <= b@.len(),
    ensures
        match pass_items(reg@, b@, Ok((pos as int, old(out)@)), n as nat, layout, *ids) {
            Ok((p, o)) => r matches Ok(q) && q == p && q <= b@.len() && final(out)@ == o,
            Err(e) => r == Err::<usize, TranslateError>(e),
        },
{
    let mut left = n;
    let mut p = pos;
    while left > 0
        invariant
            p <= b@.len(),
            pass_items(reg@, b@, Ok((pos as int, old(out)@)), n as nat, layout, *ids)
                == pass_items(reg@, b@, Ok((p as int, out@)), left as nat, layout, *ids),
        decreases left,
    {
        p = match item(b, p, out, layout, reg, ids) {
            Ok(q) => q,
            Err(e) => {
                assert(pass_items(reg@, b@, Err(e), (left - 1) as nat, layout, *ids) == Err::<(int, Seq<u8>), TranslateError>(e));
                return Err(e);
            },
        };
        left = left - 1;
    }
    Ok(p)
}

/// Copies `n` values of `t` across from `pos`.
pub(crate) fn skips<T: WireType>(t: &T, b: &[u8], pos: usize, n: u32, out: &mut Vec<u8>) -> (r: Result<usize, TranslateError>)
    requires
        pos <= b@.len(),
    ensures
        match passes(*t, b@, Ok((pos as int, old(out)@)), n as nat) {
            Ok((p, o)) => r matches Ok(q) && q == p && q <= b@.len() && final(out)@ == o,
            Err(e) => r == Err::<usize, TranslateError>(e),
        },
{
    let mut left = n;
    let mut p = pos;
    while left > 0
        invariant
            p <= b@.len(),
            passes(*t, b@, Ok((pos as int, old(out)@)), n as nat) == passes(*t, b@, Ok((p as int, out@)), left as nat),
        decreases left,
    {
        p = match skip(t, b, p, out) {
            Ok(q) => q,
            Err(e) => {
                assert(passes(*t, b@, Err(e), (left - 1) as nat) == Err::<(int, Seq<u8>), TranslateError>(e));
                return Err(e);
            },
        };
        left = left - 1;
    }
    Ok(p)
}

/// Replaces the first `n` bytes of a wrapper's input with `out`.
fn commit(wrapper: &mut PacketWrapper, n: usize, out: Vec<u8>)
    requires
        n <= old(wrapper)@.remaining().len(),
    ensures
        final(wrapper)@ == old(wrapper)@.consumed(n as nat).written(out@),
        final(wrapper)@.wf(),
{
    let _ = wrapper.read(&FixedBytesT(n));
    proof {
        assert(old(wrapper)@.remaining().subrange(0, n as int).len() == n);
    }
    wrapper.write_bytes(out.as_slice());
}

// ---------------------------------------------------------------------------
// Container contents
// ---------------------------------------------------------------------------

/// A container id: a `VarInt` from 1.21.2, one byte below it.
pub open spec fn container_id_state(b: Seq<u8>, s: Progress, layout: V) -> Progress {
    if layout.spec_at_least(V::V_1_21_2) { pass(VAR_INT, b, s) } else { pass(U8, b, s) }
}

fn container_id(b: &[u8], pos: usize, out: &mut Vec<u8>, layout: V) -> (r: Result<usize, TranslateError>)
    requires
        pos <= b@.len(),
    ensures
        match container_id_state(b@, Ok((pos as int, old(out)@)), layout) {
            Ok((p, o)) => r matches Ok(q) && q == p && q <= b@.len() && final(out)@ == o,
            Err(e) => r == Err::<usize, TranslateError>(e),
        },
{
    if layout.at_least(V::V_1_21_2) { skip(&VAR_INT, b, pos, out) } else { skip(&U8, b, pos, out) }
}

/// The most slots a container's contents may list.
pub const MAX_SLOTS: i32 = 4096;

/// The slots of a container's contents, `count` of them, then the carried
/// stack where `carried`; a count past the bound is refused.
pub open spec fn slots_state(reg: Seq<DataComponent>, b: Seq<u8>, s: Progress, count: i32, carried: bool, layout: V,
    ids: ComposedMappings) -> Progress
{
    if count < 0 || count > MAX_SLOTS {
        Err(TranslateError::Unsupported("container slot count"))
    } else {
        let slots = pass_items(reg, b, s, count as nat, layout, ids);
        if carried { pass_item(reg, b, slots, layout, ids) } else { slots }
    }
}

/// A container's whole contents: its id, then from 1.17.1 the state id, the
/// slot count, the slots and the stack the cursor carries; below it a two
/// byte count and the slots.
pub open spec fn container_content_state(reg: Seq<DataComponent>, b: Seq<u8>, layout: V, ids: ComposedMappings)
    -> Progress
{
    let s = container_id_state(b, start(), layout);
    if layout.spec_at_least(V::V_1_17_1) {
        match copied(VAR_INT, b, pass(VAR_INT, b, s)) {
            Ok((count, p, out)) => slots_state(reg, b, Ok((p, out)), count, true, layout, ids),
            Err(e) => Err(e),
        }
    } else {
        match copied(I16, b, s) {
            Ok((count, p, out)) => slots_state(reg, b, Ok((p, out)), count as i32, false, layout, ids),
            Err(e) => Err(e),
        }
    }
}

/// Puts every stack of a container's contents in `layout`'s form.
pub fn container_content(wrapper: &mut PacketWrapper, layout: V, reg: &[DataComponent], ids: &ComposedMappings)
    -> (r: Result<(), TranslateError>)
    ensures
        final(wrapper)@.wf(),
        match applied(old(wrapper)@, container_content_state(reg@, old(wrapper)@.remaining(), layout, *ids)) {
            (Ok(_), w) => r is Ok && final(wrapper)@ == w,
            (Err(e), w) => r == Err::<(), TranslateError>(e) && final(wrapper)@ == w,
        },
{
    let b = wrapper.remaining();
    let mut out: Vec<u8> = Vec::new();
    let p1 = match container_id(b, 0, &mut out, layout) {
        Ok(p) => p,
        Err(e) => return Err(e),
    };
    let count: i32;
    let carried: bool;
    let p2: usize;
    if layout.at_least(V::V_1_17_1) {
        let q = match skip(&VAR_INT, b, p1, &mut out) {
            Ok(q) => q,
            Err(e) => return Err(e),
        };
        match copy(&VAR_INT, b, q, &mut out) {
            Ok((c, p)) => {
                count = c;
                p2 = p;
            },
            Err(e) => return Err(e),
        }
        carried = true;
    } else {
        match copy(&I16, b, p1, &mut out) {
            Ok((c, p)) => {
                count = c as i32;
                p2 = p;
            },
            Err(e) => return Err(e),
        }
        carried = false;
    }
    if count < 0 || count > MAX_SLOTS {
        return Err(TranslateError::Unsupported("container slot count"));
    }
    let mut p3 = match items(b, p2, count as u32, &mut out, layout, reg, ids) {
        Ok(p) => p,
        Err(e) => return Err(e),
    };
    if carried {
        p3 = match item(b, p3, &mut out, layout, reg, ids) {
            Ok(p) => p,
            Err(e) => return Err(e),
        };
    }
    commit(wrapper, p3, out);
    Ok(())
}

/// One slot of a container: its id, from 1.17.1 the state id, the slot
/// index, and the stack.
pub open spec fn container_slot_state(reg: Seq<DataComponent>, b: Seq<u8>, layout: V, ids: ComposedMappings)
    -> Progress
{
    let s = container_id_state(b, start(), layout);
    let s2 = if layout.spec_at_least(V::V_1_17_1) { pass(VAR_INT, b, s) } else { s };
    pass_item(reg, b, pass(I16, b, s2), layout, ids)
}

/// Puts the stack of a single slot in `layout`'s form.
pub fn container_slot(wrapper: &mut PacketWrapper, layout: V, reg: &[DataComponent], ids: &ComposedMappings)
    -> (r: Result<(), TranslateError>)
    ensures
        final(wrapper)@.wf(),
        match applied(old(wrapper)@, container_slot_state(reg@, old(wrapper)@.remaining(), layout, *ids)) {
            (Ok(_), w) => r is Ok && final(wrapper)@ == w,
            (Err(e), w) => r == Err::<(), TranslateError>(e) && final(wrapper)@ == w,
        },
{
    let b = wrapper.remaining();
    let mut out: Vec<u8> = Vec::new();
    let mut p = match container_id(b, 0, &mut out, layout) {
        Ok(p) => p,
        Err(e) => return Err(e),
    };
    if layout.at_least(V::V_1_17_1) {
        p = match skip(&VAR_INT, b, p, &mut out) {
            Ok(q) => q,
            Err(e) => return Err(e),
        };
    }
    p = match skip(&I16, b, p, &mut out) {
        Ok(q) => q,
        Err(e) => return Err(e),
    };
    p = match item(b, p, &mut out, layout, reg, ids) {
        Ok(q) => q,
        Err(e) => return Err(e),
    };
    commit(wrapper, p, out);
    Ok(())
}

/// The stack the cursor carries.
pub open spec fn cursor_item_state(reg: Seq<DataComponent>, b: Seq<u8>, layout: V, ids: ComposedMappings) -> Progress {
    pass_item(reg, b, start(), layout, ids)
}

/// Puts the stack the cursor carries in `layout`'s form.
pub fn cursor_item(wrapper: &mut PacketWrapper, layout: V, reg: &[DataComponent], ids: &ComposedMappings)
    -> (r: Result<(), TranslateError>)
    ensures
        final(wrapper)@.wf(),
        match applied(old(wrapper)@, cursor_item_state(reg@, old(wrapper)@.remaining(), layout, *ids)) {
            (Ok(_), w) => r is Ok && final(wrapper)@ == w,
            (Err(e), w) => r == Err::<(), TranslateError>(e) && final(wrapper)@ == w,
        },
{
    let b = wrapper.remaining();
    let mut out: Vec<u8> = Vec::new();
    let p = match item(b, 0, &mut out, layout, reg, ids) {
        Ok(q) => q,
        Err(e) => return Err(e),
    };
    commit(wrapper, p, out);
    Ok(())
}

/// A slot of the player's inventory: its index, then the stack.
pub open spec fn player_inventory_state(reg: Seq<DataComponent>, b: Seq<u8>, layout: V, ids: ComposedMappings)
    -> Progress
{
    pass_item(reg, b, pass(VAR_INT, b, start()), layout, ids)
}

/// Puts the stack of a player inventory slot in `layout`'s form.
pub fn player_inventory(wrapper: &mut PacketWrapper, layout: V, reg: &[DataComponent], ids: &ComposedMappings)
    -> (r: Result<(), TranslateError>)
    ensures
        final(wrapper)@.wf(),
        match applied(old(wrapper)@, player_inventory_state(reg@, old(wrapper)@.remaining(), layout, *ids)) {
            (Ok(_), w) => r is Ok && final(wrapper)@ == w,
            (Err(e), w) => r == Err::<(), TranslateError>(e) && final(wrapper)@ == w,
        },
{
    let b = wrapper.remaining();
    let mut out: Vec<u8> = Vec::new();
    let mut p = match skip(&VAR_INT, b, 0, &mut out) {
        Ok(q) => q,
        Err(e) => return Err(e),
    };
    p = match item(b, p, &mut out, layout, reg, ids) {
        Ok(q) => q,
        Err(e) => return Err(e),
    };
    commit(wrapper, p, out);
    Ok(())
}


// ---------------------------------------------------------------------------
// Equipment
// ---------------------------------------------------------------------------

/// One equipment entry from 1.16: its slot byte and its stack, and whether
/// the slot byte's top bit says another entry follows.
pub open spec fn equipment_entry(reg: Seq<DataComponent>, b: Seq<u8>, s: Progress, layout: V, ids: ComposedMappings)
    -> Result<(bool, int, Seq<u8>), TranslateError>
{
    match copied(U8, b, s) {
        Ok((slot, p, out)) => match pass_item(reg, b, Ok((p, out)), layout, ids) {
            Ok((q, o)) => Ok((slot & 0x80 != 0, q, o)),
            Err(e) => Err(e),
        },
        Err(e) => Err(e),
    }
}

/// Equipment entries from 1.16, up to the first whose slot byte has no top
/// bit. `fuel` bounds how many are read; each takes a byte at least, so a
/// fuel past the bytes left never runs out.
pub open spec fn equipment_entries(reg: Seq<DataComponent>, b: Seq<u8>, s: Progress, layout: V,
    ids: ComposedMappings, fuel: nat) -> Progress
    decreases fuel,
{
    match s {
        Ok(_) => if fuel == 0 {
            Err(TranslateError::Read)
        } else {
            match equipment_entry(reg, b, s, layout, ids) {
                Ok((more, q, out)) => if more {
                    equipment_entries(reg, b, Ok((q, out)), layout, ids, (fuel - 1) as nat)
                } else {
                    Ok((q, out))
                },
                Err(e) => Err(e),
            }
        },
        Err(e) => Err(e),
    }
}

fn entry(b: &[u8], pos: usize, out: &mut Vec<u8>, layout: V, reg: &[DataComponent], ids: &ComposedMappings)
    -> (r: Result<(bool, usize), TranslateError>)
    requires
        pos <= b@.len(),
    ensures
        match equipment_entry(reg@, b@, Ok((pos as int, old(out)@)), layout, *ids) {
            Ok((more, p, o)) => r matches Ok((m, q)) && m == more && q == p && pos < q <= b@.len() && final(out)@ == o,
            Err(e) => r == Err::<(bool, usize), TranslateError>(e),
        },
{
    let (slot, p) = match copy(&U8, b, pos, out) {
        Ok(found) => found,
        Err(e) => return Err(e),
    };
    match item(b, p, out, layout, reg, ids) {
        Ok(q) => Ok((slot & 0x80 != 0, q)),
        Err(e) => Err(e),
    }
}

/// The equipment of an entity: its id, an `Int` up to 1.7.6, then the
/// entries from 1.16, and a single slot and stack below it.
pub open spec fn equipment_state(reg: Seq<DataComponent>, b: Seq<u8>, layout: V, ids: ComposedMappings) -> Progress {
    let s = if layout.spec_at_most(V::V_1_7_6) { pass(I32, b, start()) } else { pass(VAR_INT, b, start()) };
    if layout.spec_at_least(V::V_1_16) {
        equipment_entries(reg, b, s, layout, ids, b.len() + 1)
    } else {
        let slot = if layout.spec_at_least(V::V_1_9) { pass(VAR_INT, b, s) } else { pass(I16, b, s) };
        pass_item(reg, b, slot, layout, ids)
    }
}

fn equipment_rewrite(b: &[u8], layout: V, reg: &[DataComponent], ids: &ComposedMappings)
    -> (r: Result<(Vec<u8>, usize), TranslateError>)
    ensures
        match equipment_state(reg@, b@, layout, *ids) {
            Ok((p, o)) => r matches Ok((v, q)) && v@ == o && q == p && q <= b@.len(),
            Err(e) => r == Err::<(Vec<u8>, usize), TranslateError>(e),
        },
{
    let mut out: Vec<u8> = Vec::new();
    let mut p = if layout.at_most(V::V_1_7_6) {
        match skip(&I32, b, 0, &mut out) {
            Ok(q) => q,
            Err(e) => return Err(e),
        }
    } else {
        match skip(&VAR_INT, b, 0, &mut out) {
            Ok(q) => q,
            Err(e) => return Err(e),
        }
    };
    if layout.at_least(V::V_1_16) {
        let ghost mut fuel: nat = b@.len() + 1;
        loop
            invariant
                p <= b@.len(),
                fuel > b@.len() - p,
                layout.spec_at_least(V::V_1_16),
                equipment_state(reg@, b@, layout, *ids)
                    == equipment_entries(reg@, b@, Ok((p as int, out@)), layout, *ids, fuel),
            decreases b@.len() - p,
        {
            let (more, q2) = match entry(b, p, &mut out, layout, reg, ids) {
                Ok(found) => found,
                Err(e) => return Err(e),
            };
            if !more {
                return Ok((out, q2));
            }
            proof {
                fuel = (fuel - 1) as nat;
            }
            p = q2;
        }
    } else {
        p = if layout.at_least(V::V_1_9) {
            match skip(&VAR_INT, b, p, &mut out) {
                Ok(q) => q,
                Err(e) => return Err(e),
            }
        } else {
            match skip(&I16, b, p, &mut out) {
                Ok(q) => q,
                Err(e) => return Err(e),
            }
        };
        p = match item(b, p, &mut out, layout, reg, ids) {
            Ok(q) => q,
            Err(e) => return Err(e),
        };
        Ok((out, p))
    }
}

/// Puts every stack of an entity's equipment in `layout`'s form.
pub fn equipment(wrapper: &mut PacketWrapper, layout: V, reg: &[DataComponent], ids: &ComposedMappings)
    -> (r: Result<(), TranslateError>)
    ensures
        final(wrapper)@.wf(),
        match applied(old(wrapper)@, equipment_state(reg@, old(wrapper)@.remaining(), layout, *ids)) {
            (Ok(_), w) => r is Ok && final(wrapper)@ == w,
            (Err(e), w) => r == Err::<(), TranslateError>(e) && final(wrapper)@ == w,
        },
{
    match equipment_rewrite(wrapper.remaining(), layout, reg, ids) {
        Ok((out, n)) => {
            commit(wrapper, n, out);
            Ok(())
        },
        Err(e) => Err(e),
    }
}

// ---------------------------------------------------------------------------
// Merchant offers
// ---------------------------------------------------------------------------

/// The most offers a merchant lists.
pub const MAX_OFFERS: i32 = 256;

/// A trade's cost from 1.20.5 at the position reached, put in `layout`'s form.
pub open spec fn cost_state(reg: Seq<DataComponent>, b: Seq<u8>, s: Progress, layout: V, ids: ComposedMappings)
    -> Progress
{
    match s {
        Ok((pos, out)) => match item_cost_at(reg, b, pos) {
            Some((v, p)) => Ok((p, out + item_cost_bytes(item_version(reg, v, layout, ids)))),
            None => Err(TranslateError::Read),
        },
        Err(e) => Err(e),
    }
}

fn cost(b: &[u8], pos: usize, out: &mut Vec<u8>, layout: V, reg: &[DataComponent], ids: &ComposedMappings)
    -> (r: Result<usize, TranslateError>)
    requires
        pos <= b@.len(),
        layout.spec_at_least(FIRST_STRUCTURED),
    ensures
        match cost_state(reg@, b@, Ok((pos as int, old(out)@)), layout, *ids) {
            Ok((p, o)) => r matches Ok(q) && q == p && q <= b@.len() && final(out)@ == o,
            Err(e) => r == Err::<usize, TranslateError>(e),
        },
{
    let (cost, p) = match ITEM_COST.read(reg, b, pos) {
        Some(found) => found,
        None => return Err(TranslateError::Read),
    };
    let rewritten = StructuredItemRewriter::to_version(reg, &cost, layout, ids);
    ITEM_COST.write(out, &rewritten);
    Ok(p)
}

/// One trade: from 1.20.5 its first cost, the result and an optional second
/// cost; below it three stacks, the second cost empty where there is none.
/// Then the disabled flag, four `Int`s, the price multiplier and the demand.
pub open spec fn offer_state(reg: Seq<DataComponent>, b: Seq<u8>, s: Progress, layout: V, ids: ComposedMappings)
    -> Progress
{
    let goods = if layout.spec_at_least(FIRST_STRUCTURED) {
        match copied(BOOL, b, pass_item(reg, b, cost_state(reg, b, s, layout, ids), layout, ids)) {
            Ok((second, p, out)) => if second { cost_state(reg, b, Ok((p, out)), layout, ids) } else { Ok((p, out)) },
            Err(e) => Err(e),
        }
    } else {
        pass_items(reg, b, s, 3, layout, ids)
    };
    passes(I32, b, pass(BOOL, b, goods), 6)
}

/// `n` trades in a row.
pub open spec fn offers_state(reg: Seq<DataComponent>, b: Seq<u8>, s: Progress, n: nat, layout: V,
    ids: ComposedMappings) -> Progress
    decreases n,
{
    if n == 0 {
        s
    } else {
        match s {
            Ok(_) => offers_state(reg, b, offer_state(reg, b, s, layout, ids), (n - 1) as nat, layout, ids),
            Err(e) => Err(e),
        }
    }
}

/// A merchant's offers: the window id, the trade count, a `VarInt` from
/// 1.19 and a byte below, the trades, then the villager's level and
/// experience and two flags. A count past the bound is refused.
pub open spec fn merchant_offers_state(reg: Seq<DataComponent>, b: Seq<u8>, layout: V, ids: ComposedMappings)
    -> Progress
{
    let s = pass(VAR_INT, b, start());
    let counted: Result<(i32, int, Seq<u8>), TranslateError> = if layout.spec_at_least(V::V_1_19) {
        copied(VAR_INT, b, s)
    } else {
        match copied(U8, b, s) {
            Ok((n, p, out)) => Ok((n as i32, p, out)),
            Err(e) => Err(e),
        }
    };
    match counted {
        Ok((offers, p, out)) => if offers < 0 || offers > MAX_OFFERS {
            Err(TranslateError::Unsupported("merchant offer count"))
        } else {
            let traded = offers_state(reg, b, Ok((p, out)), offers as nat, layout, ids);
            pass(BOOL, b, pass(BOOL, b, pass(VAR_INT, b, pass(VAR_INT, b, traded))))
        },
        Err(e) => Err(e),
    }
}

fn offer(b: &[u8], pos: usize, out: &mut Vec<u8>, layout: V, reg: &[DataComponent], ids: &ComposedMappings)
    -> (r: Result<usize, TranslateError>)
    requires
        pos <= b@.len(),
    ensures
        match offer_state(reg@, b@, Ok((pos as int, old(out)@)), layout, *ids) {
            Ok((p, o)) => r matches Ok(q) && q == p && q <= b@.len() && final(out)@ == o,
            Err(e) => r == Err::<usize, TranslateError>(e),
        },
{
    let mut p = pos;
    if layout.at_least(FIRST_STRUCTURED) {
        p = match cost(b, p, out, layout, reg, ids) {
            Ok(q) => q,
            Err(e) => return Err(e),
        };
        p = match item(b, p, out, layout, reg, ids) {
            Ok(q) => q,
            Err(e) => return Err(e),
        };
        let (second, q) = match copy(&BOOL, b, p, out) {
            Ok(found) => found,
            Err(e) => return Err(e),
        };
        p = q;
        if second {
            p = match cost(b, p, out, layout, reg, ids) {
                Ok(q) => q,
                Err(e) => return Err(e),
            };
        }
    } else {
        p = match items(b, p, 3, out, layout, reg, ids) {
            Ok(q) => q,
            Err(e) => return Err(e),
        };
    }
    p = match skip(&BOOL, b, p, out) {
        Ok(q) => q,
        Err(e) => return Err(e),
    };
    skips(&I32, b, p, 6, out)
}

fn offers(b: &[u8], pos: usize, n: i32, out: &mut Vec<u8>, layout: V, reg: &[DataComponent], ids: &ComposedMappings)
    -> (r: Result<usize, TranslateError>)
    requires
        pos <= b@.len(),
        n >= 0,
    ensures
        match offers_state(reg@, b@, Ok((pos as int, old(out)@)), n as nat, layout, *ids) {
            Ok((p, o)) => r matches Ok(q) && q == p && q <= b@.len() && final(out)@ == o,
            Err(e) => r == Err::<usize, TranslateError>(e),
        },
{
    let mut left = n;
    let mut p = pos;
    while left > 0
        invariant
            p <= b@.len(),
            0 <= left,
            offers_state(reg@, b@, Ok((pos as int, old(out)@)), n as nat, layout, *ids)
                == offers_state(reg@, b@, Ok((p as int, out@)), left as nat, layout, *ids),
        decreases left,
    {
        p = match offer(b, p, out, layout, reg, ids) {
            Ok(q) => q,
            Err(e) => {
                assert(offers_state(reg@, b@, Err(e), (left - 1) as nat, layout, *ids)
                    == Err::<(int, Seq<u8>), TranslateError>(e));
                return Err(e);
            },
        };
        left = left - 1;
    }
    Ok(p)
}

fn merchant_offers_rewrite(b: &[u8], layout: V, reg: &[DataComponent], ids: &ComposedMappings)
    -> (r: Result<(Vec<u8>, usize), TranslateError>)
    ensures
        match merchant_offers_state(reg@, b@, layout, *ids) {
            Ok((p, o)) => r matches Ok((v, q)) && v@ == o && q == p && q <= b@.len(),
            Err(e) => r == Err::<(Vec<u8>, usize), TranslateError>(e),
        },
{
    let mut out: Vec<u8> = Vec::new();
    let p1 = match skip(&VAR_INT, b, 0, &mut out) {
        Ok(q) => q,
        Err(e) => return Err(e),
    };
    let (count, p2): (i32, usize) = if layout.at_least(V::V_1_19) {
        match copy(&VAR_INT, b, p1, &mut out) {
            Ok(found) => found,
            Err(e) => return Err(e),
        }
    } else {
        match copy(&U8, b, p1, &mut out) {
            Ok((n, q)) => (n as i32, q),
            Err(e) => return Err(e),
        }
    };
    if count < 0 || count > MAX_OFFERS {
        return Err(TranslateError::Unsupported("merchant offer count"));
    }
    let mut p = match offers(b, p2, count, &mut out, layout, reg, ids) {
        Ok(q) => q,
        Err(e) => return Err(e),
    };
    p = match skip(&VAR_INT, b, p, &mut out) {
        Ok(q) => q,
        Err(e) => return Err(e),
    };
    p = match skip(&VAR_INT, b, p, &mut out) {
        Ok(q) => q,
        Err(e) => return Err(e),
    };
    p = match skip(&BOOL, b, p, &mut out) {
        Ok(q) => q,
        Err(e) => return Err(e),
    };
    p = match skip(&BOOL, b, p, &mut out) {
        Ok(q) => q,
        Err(e) => return Err(e),
    };
    Ok((out, p))
}

/// Puts every stack of a merchant's offers in `layout`'s form.
pub fn merchant_offers(wrapper: &mut PacketWrapper, layout: V, reg: &[DataComponent], ids: &ComposedMappings)
    -> (r: Result<(), TranslateError>)
    ensures
        final(wrapper)@.wf(),
        match applied(old(wrapper)@, merchant_offers_state(reg@, old(wrapper)@.remaining(), layout, *ids)) {
            (Ok(_), w) => r is Ok && final(wrapper)@ == w,
            (Err(e), w) => r == Err::<(), TranslateError>(e) && final(wrapper)@ == w,
        },
{
    match merchant_offers_rewrite(wrapper.remaining(), layout, reg, ids) {
        Ok((out, n)) => {
            commit(wrapper, n, out);
            Ok(())
        },
        Err(e) => Err(e),
    }
}


// ---------------------------------------------------------------------------
// Clicks a client sends
// ---------------------------------------------------------------------------

/// The fields ahead of a click's changed slots, in the widths `version`
/// writes them: the container id, the state id, a `VarInt` from 1.17.1 and
/// two bytes below, the slot, the button and the mode.
pub open spec fn click_frame_state(b: Seq<u8>, s: Progress, version: V) -> Progress {
    let s1 = container_id_state(b, s, version);
    let s2 = if version.spec_at_least(V::V_1_17_1) { pass(VAR_INT, b, s1) } else { pass(I16, b, s1) };
    pass(VAR_INT, b, pass(I8, b, pass(I16, b, s2)))
}

fn frame(b: &[u8], pos: usize, out: &mut Vec<u8>, version: V) -> (r: Result<usize, TranslateError>)
    requires
        pos <= b@.len(),
    ensures
        match click_frame_state(b@, Ok((pos as int, old(out)@)), version) {
            Ok((p, o)) => r matches Ok(q) && q == p && q <= b@.len() && final(out)@ == o,
            Err(e) => r == Err::<usize, TranslateError>(e),
        },
{
    let mut p = match container_id(b, pos, out, version) {
        Ok(q) => q,
        Err(e) => return Err(e),
    };
    p = if version.at_least(V::V_1_17_1) {
        match skip(&VAR_INT, b, p, out) {
            Ok(q) => q,
            Err(e) => return Err(e),
        }
    } else {
        match skip(&I16, b, p, out) {
            Ok(q) => q,
            Err(e) => return Err(e),
        }
    };
    p = match skip(&I16, b, p, out) {
        Ok(q) => q,
        Err(e) => return Err(e),
    };
    p = match skip(&I8, b, p, out) {
        Ok(q) => q,
        Err(e) => return Err(e),
    };
    skip(&VAR_INT, b, p, out)
}

/// Copies the fields ahead of a click's changed slots across.
pub fn click_frame(wrapper: &mut PacketWrapper, version: V) -> (r: Result<(), TranslateError>)
    ensures
        final(wrapper)@.wf(),
        match applied(old(wrapper)@, click_frame_state(old(wrapper)@.remaining(), start(), version)) {
            (Ok(_), w) => r is Ok && final(wrapper)@ == w,
            (Err(e), w) => r == Err::<(), TranslateError>(e) && final(wrapper)@ == w,
        },
{
    let b = wrapper.remaining();
    let mut out: Vec<u8> = Vec::new();
    match frame(b, 0, &mut out, version) {
        Ok(p) => {
            commit(wrapper, p, out);
            Ok(())
        },
        Err(e) => Err(e),
    }
}

/// Component hashes with their ids mapped back through `mapping`, the ones
/// it has no preimage for left out.
pub open spec fn unmapped_hashes(hs: Seq<(i32, i32)>, mapping: IdMapping) -> Seq<(i32, i32)>
    decreases hs.len(),
{
    if hs.len() == 0 {
        Seq::empty()
    } else {
        let front = unmapped_hashes(hs.drop_last(), mapping);
        match unmap_id(mapping, hs.last().0) {
            Some(id) => front.push((id, hs.last().1)),
            None => front,
        }
    }
}

/// A hashed stack with its item and component ids in the newest protocol's
/// numbering; no stack where the item has none there.
pub open spec fn unhashed(h: Option<HashedItemView>, ids: ComposedMappings) -> Option<HashedItemView> {
    match h {
        Some(x) => match unmap_id(ids.items, x.id) {
            Some(id) => Some(HashedItemView {
                id,
                count: x.count,
                added: unmapped_hashes(x.added, ids.data_component_type),
                removed: unmapped_ids(x.removed, ids.data_component_type),
            }),
            None => None,
        },
        None => None,
    }
}

/// A clicked stack at the position reached, renumbered for the server.
pub open spec fn clicked_state(b: Seq<u8>, s: Progress, ids: ComposedMappings) -> Progress {
    match s {
        Ok((pos, out)) => match hashed_item_at(b, pos) {
            Some((h, p)) => Ok((p, out + hashed_item_bytes(unhashed(h, ids)))),
            None => Err(TranslateError::Read),
        },
        Err(e) => Err(e),
    }
}

fn unhash(h: Option<HashedItem>, items: &IdMapping, components: &IdMapping, Ghost(ids): Ghost<ComposedMappings>)
    -> (r: Option<HashedItem>)
    requires
        inverts(*items, ids.items),
        inverts(*components, ids.data_component_type),
    ensures
        hashed_view(r) == unhashed(hashed_view(h), ids),
{
    match h {
        Some(x) => {
            proof {
                lemma_inverse_unmaps(ids.items, *items, x.id);
            }
            let id = match mapped_id(items, x.id) {
                Some(id) => id,
                None => return None,
            };
            let mut added: Vec<(i32, i32)> = Vec::new();
            let mut i: usize = 0;
            while i < x.added.len()
                invariant
                    i <= x.added@.len(),
                    inverts(*components, ids.data_component_type),
                    added@ == unmapped_hashes(x.added@.take(i as int), ids.data_component_type),
                decreases x.added@.len() - i,
            {
                assert(x.added@.take(i + 1).drop_last() =~= x.added@.take(i as int));
                let (cid, hash) = x.added[i];
                proof {
                    lemma_inverse_unmaps(ids.data_component_type, *components, cid);
                }
                match mapped_id(components, cid) {
                    Some(m) => added.push((m, hash)),
                    None => {},
                }
                i = i + 1;
            }
            assert(x.added@.take(x.added@.len() as int) =~= x.added@);
            let removed = unmap_ids(&x.removed, components, Ghost(ids.data_component_type));
            Some(HashedItem { id, count: x.count, added, removed })
        },
        None => None,
    }
}

fn clicked(b: &[u8], pos: usize, out: &mut Vec<u8>, items: &IdMapping, components: &IdMapping,
    Ghost(ids): Ghost<ComposedMappings>) -> (r: Result<usize, TranslateError>)
    requires
        pos <= b@.len(),
        inverts(*items, ids.items),
        inverts(*components, ids.data_component_type),
    ensures
        match clicked_state(b@, Ok((pos as int, old(out)@)), ids) {
            Ok((p, o)) => r matches Ok(q) && q == p && q <= b@.len() && final(out)@ == o,
            Err(e) => r == Err::<usize, TranslateError>(e),
        },
{
    let (h, p) = match HASHED_ITEM.read(b, pos) {
        Some(found) => found,
        None => return Err(TranslateError::Read),
    };
    let back = unhash(h, items, components, Ghost(ids));
    HASHED_ITEM.write(out, &back);
    Ok(p)
}

/// The most changed slots a click lists.
pub const MAX_CHANGED: i32 = 256;

/// `n` changed slots, each a slot index and a clicked stack.
pub open spec fn changed_slots(b: Seq<u8>, s: Progress, n: nat, ids: ComposedMappings) -> Progress
    decreases n,
{
    if n == 0 {
        s
    } else {
        match s {
            Ok(_) => changed_slots(b, clicked_state(b, pass(I16, b, s), ids), (n - 1) as nat, ids),
            Err(e) => Err(e),
        }
    }
}

/// A click from a client on `version`: the frame, the changed slots after
/// their count, and the stack the cursor then carries, every stack hashed
/// and renumbered for the server. A count past the bound is refused.
pub open spec fn click_container_state(b: Seq<u8>, version: V, ids: ComposedMappings) -> Progress {
    match copied(VAR_INT, b, click_frame_state(b, start(), version)) {
        Ok((changed, p, out)) => if changed < 0 || changed > MAX_CHANGED {
            Err(TranslateError::Unsupported("changed slot count"))
        } else {
            clicked_state(b, changed_slots(b, Ok((p, out)), changed as nat, ids), ids)
        },
        Err(e) => Err(e),
    }
}

fn changed_slot(b: &[u8], pos: usize, out: &mut Vec<u8>, items: &IdMapping, components: &IdMapping,
    Ghost(ids): Ghost<ComposedMappings>) -> (r: Result<usize, TranslateError>)
    requires
        pos <= b@.len(),
        inverts(*items, ids.items),
        inverts(*components, ids.data_component_type),
    ensures
        match clicked_state(b@, pass(I16, b@, Ok((pos as int, old(out)@))), ids) {
            Ok((p, o)) => r matches Ok(q) && q == p && q <= b@.len() && final(out)@ == o,
            Err(e) => r == Err::<usize, TranslateError>(e),
        },
{
    let q = match skip(&I16, b, pos, out) {
        Ok(q) => q,
        Err(e) => return Err(e),
    };
    clicked(b, q, out, items, components, Ghost(ids))
}

fn changed_slots_exec(b: &[u8], pos: usize, n: i32, out: &mut Vec<u8>, items: &IdMapping, components: &IdMapping,
    Ghost(ids): Ghost<ComposedMappings>) -> (r: Result<usize, TranslateError>)
    requires
        pos <= b@.len(),
        n >= 0,
        inverts(*items, ids.items),
        inverts(*components, ids.data_component_type),
    ensures
        match changed_slots(b@, Ok((pos as int, old(out)@)), n as nat, ids) {
            Ok((p, o)) => r matches Ok(q) && q == p && q <= b@.len() && final(out)@ == o,
            Err(e) => r == Err::<usize, TranslateError>(e),
        },
{
    let mut left = n;
    let mut p = pos;
    while left > 0
        invariant
            p <= b@.len(),
            0 <= left,
            inverts(*items, ids.items),
            inverts(*components, ids.data_component_type),
            changed_slots(b@, Ok((pos as int, old(out)@)), n as nat, ids)
                == changed_slots(b@, Ok((p as int, out@)), left as nat, ids),
        decreases left,
    {
        p = match changed_slot(b, p, out, items, components, Ghost(ids)) {
            Ok(q) => q,
            Err(e) => {
                assert(changed_slots(b@, Err(e), (left - 1) as nat, ids) == Err::<(int, Seq<u8>), TranslateError>(e));
                return Err(e);
            },
        };
        left = left - 1;
    }
    Ok(p)
}

fn click_container_rewrite(b: &[u8], version: V, ids: &ComposedMappings) -> (r: Result<(Vec<u8>, usize), TranslateError>)
    ensures
        match click_container_state(b@, version, *ids) {
            Ok((p, o)) => r matches Ok((v, q)) && v@ == o && q == p && q <= b@.len(),
            Err(e) => r == Err::<(Vec<u8>, usize), TranslateError>(e),
        },
{
    let items = ids.items_inverse();
    let components = ids.data_component_type_inverse();
    let mut out: Vec<u8> = Vec::new();
    let p1 = match frame(b, 0, &mut out, version) {
        Ok(q) => q,
        Err(e) => return Err(e),
    };
    let (changed, p2) = match copy(&VAR_INT, b, p1, &mut out) {
        Ok(found) => found,
        Err(e) => return Err(e),
    };
    if changed < 0 || changed > MAX_CHANGED {
        return Err(TranslateError::Unsupported("changed slot count"));
    }
    let p = match changed_slots_exec(b, p2, changed, &mut out, &items, &components, Ghost(*ids)) {
        Ok(q) => q,
        Err(e) => return Err(e),
    };
    match clicked(b, p, &mut out, &items, &components, Ghost(*ids)) {
        Ok(q) => Ok((out, q)),
        Err(e) => Err(e),
    }
}

/// Renumbers every stack of a click from a client on `connection`'s version
/// for the server.
pub fn click_container(wrapper: &mut PacketWrapper, connection: &UserConnection, ids: &ComposedMappings)
    -> (r: Result<(), TranslateError>)
    ensures
        final(wrapper)@.wf(),
        match applied(old(wrapper)@, click_container_state(old(wrapper)@.remaining(), connection.version, *ids)) {
            (Ok(_), w) => r is Ok && final(wrapper)@ == w,
            (Err(e), w) => r == Err::<(), TranslateError>(e) && final(wrapper)@ == w,
        },
{
    match click_container_rewrite(wrapper.remaining(), connection.version, ids) {
        Ok((out, n)) => {
            commit(wrapper, n, out);
            Ok(())
        },
        Err(e) => Err(e),
    }
}


// ---------------------------------------------------------------------------
// Advancements
// ---------------------------------------------------------------------------

/// The most advancements, and the most strings in a list, one update carries.
pub const MAX_LISTED: i32 = 4096;

/// A text component copied as it arrived: an NBT document from 1.20.3, a
/// JSON string below it.
pub open spec fn text_state(b: Seq<u8>, s: Progress, layout: V) -> Progress {
    if layout.spec_at_least(V::V_1_20_3) {
        match s {
            Ok((pos, out)) => match document_end(b, pos) {
                Some(end) => Ok((end, out + b.subrange(pos, end))),
                None => Err(TranslateError::Read),
            },
            Err(e) => Err(e),
        }
    } else {
        pass(STRING, b, s)
    }
}

/// A list of strings after its count; a count past the bound is refused.
pub open spec fn strings_state(b: Seq<u8>, s: Progress) -> Progress {
    match copied(VAR_INT, b, s) {
        Ok((count, p, out)) => if count < 0 || count > MAX_LISTED {
            Err(TranslateError::Unsupported("string list"))
        } else {
            passes(STRING, b, Ok((p, out)), count as nat)
        },
        Err(e) => Err(e),
    }
}

/// `n` string lists in a row.
pub open spec fn string_lists(b: Seq<u8>, s: Progress, n: nat) -> Progress
    decreases n,
{
    if n == 0 {
        s
    } else {
        match s {
            Ok(_) => string_lists(b, strings_state(b, s), (n - 1) as nat),
            Err(e) => Err(e),
        }
    }
}

/// An advancement's icon: the nested form from 26.1, a whole stack below.
pub open spec fn icon_state(reg: Seq<DataComponent>, b: Seq<u8>, s: Progress, layout: V, ids: ComposedMappings)
    -> Progress
{
    if layout.spec_at_least(V::V_26_1) {
        match s {
            Ok((pos, out)) => match template_item_at(reg, b, pos) {
                Some((v, p)) => Ok((p, out + template_bytes(item_version(reg, v, layout, ids)))),
                None => Err(TranslateError::Read),
            },
            Err(e) => Err(e),
        }
    } else {
        pass_item(reg, b, s, layout, ids)
    }
}

/// An advancement's display: title, description, icon, frame and flags, a
/// background after the flags where their lowest bit is set, and below 26.3
/// its position.
pub open spec fn display_state(reg: Seq<DataComponent>, b: Seq<u8>, s: Progress, layout: V, ids: ComposedMappings)
    -> Progress
{
    let s1 = icon_state(reg, b, text_state(b, text_state(b, s, layout), layout), layout, ids);
    match copied(I32, b, pass(VAR_INT, b, s1)) {
        Ok((flags, p, out)) => {
            let s2 = if flags & 1 != 0 { pass(STRING, b, Ok((p, out))) } else { Ok((p, out)) };
            if layout.spec_older_than(V::V_26_3) { passes(I32, b, s2, 2) } else { s2 }
        },
        Err(e) => Err(e),
    }
}

/// What follows a flag: `present` only where it is set.
pub open spec fn flagged(b: Seq<u8>, s: Progress, present: spec_fn(Progress) -> Progress) -> Progress {
    match copied(BOOL, b, s) {
        Ok((set, p, out)) => if set { present(Ok((p, out))) } else { Ok((p, out)) },
        Err(e) => Err(e),
    }
}

/// The start of an advancement: its id, an optional parent and an optional
/// display.
pub open spec fn advancement_head(reg: Seq<DataComponent>, b: Seq<u8>, s: Progress, layout: V, ids: ComposedMappings)
    -> Progress
{
    let s1 = flagged(b, pass(STRING, b, s), |t: Progress| pass(STRING, b, t));
    flagged(b, s1, |t: Progress| display_state(reg, b, t, layout, ids))
}

/// The rest of an advancement: below 1.20.2 its criteria, the requirement
/// lists, from 1.20 the telemetry flag and from 26.3 its position.
pub open spec fn advancement_tail(b: Seq<u8>, s: Progress, layout: V) -> Progress {
    let s3 = if layout.spec_older_than(V::V_1_20_2) { strings_state(b, s) } else { s };
    let s4 = match copied(VAR_INT, b, s3) {
        Ok((n, p, out)) => string_lists(b, Ok((p, out)), run_count(n)),
        Err(e) => Err(e),
    };
    let s5 = if layout.spec_at_least(V::V_1_20) { pass(BOOL, b, s4) } else { s4 };
    if layout.spec_at_least(V::V_26_3) { passes(I32, b, s5, 2) } else { s5 }
}

/// One advancement.
pub open spec fn advancement_state(reg: Seq<DataComponent>, b: Seq<u8>, s: Progress, layout: V, ids: ComposedMappings)
    -> Progress
{
    advancement_tail(b, advancement_head(reg, b, s, layout, ids), layout)
}

/// `n` advancements in a row.
pub open spec fn advancements_from(reg: Seq<DataComponent>, b: Seq<u8>, s: Progress, n: nat, layout: V,
    ids: ComposedMappings) -> Progress
    decreases n,
{
    if n == 0 {
        s
    } else {
        match s {
            Ok(_) => advancements_from(reg, b, advancement_state(reg, b, s, layout, ids), (n - 1) as nat, layout, ids),
            Err(e) => Err(e),
        }
    }
}

/// `n` criteria of a progress entry: a name and an optional achievement time.
pub open spec fn criteria_from(b: Seq<u8>, s: Progress, n: nat) -> Progress
    decreases n,
{
    if n == 0 {
        s
    } else {
        match s {
            Ok(_) => criteria_from(b, flagged(b, pass(STRING, b, s), |t: Progress| pass(I64, b, t)), (n - 1) as nat),
            Err(e) => Err(e),
        }
    }
}

/// One progress entry: the advancement's id and its criteria after their count.
pub open spec fn progress_state(b: Seq<u8>, s: Progress) -> Progress {
    match copied(VAR_INT, b, pass(STRING, b, s)) {
        Ok((n, p, out)) => criteria_from(b, Ok((p, out)), run_count(n)),
        Err(e) => Err(e),
    }
}

/// `n` progress entries in a row.
pub open spec fn progress_from(b: Seq<u8>, s: Progress, n: nat) -> Progress
    decreases n,
{
    if n == 0 {
        s
    } else {
        match s {
            Ok(_) => progress_from(b, progress_state(b, s), (n - 1) as nat),
            Err(e) => Err(e),
        }
    }
}

/// An advancement update: the reset flag, the added advancements after
/// their count, the removed ids, the progress entries after their count and
/// from 1.21.5 the toast flag. A count past the bound is refused; a negative
/// one lists nothing.
pub open spec fn advancements_state(reg: Seq<DataComponent>, b: Seq<u8>, layout: V, ids: ComposedMappings) -> Progress {
    match copied(VAR_INT, b, pass(BOOL, b, start())) {
        Ok((added, p, out)) => if added < 0 || added > MAX_LISTED {
            Err(TranslateError::Unsupported("advancement count"))
        } else {
            let s1 = strings_state(b, advancements_from(reg, b, Ok((p, out)), added as nat, layout, ids));
            let s2 = match copied(VAR_INT, b, s1) {
                Ok((n, q, o)) => progress_from(b, Ok((q, o)), run_count(n)),
                Err(e) => Err(e),
            };
            if layout.spec_at_least(V::V_1_21_5) { pass(BOOL, b, s2) } else { s2 }
        },
        Err(e) => Err(e),
    }
}

fn text(b: &[u8], pos: usize, out: &mut Vec<u8>, layout: V) -> (r: Result<usize, TranslateError>)
    requires
        pos <= b@.len(),
    ensures
        match text_state(b@, Ok((pos as int, old(out)@)), layout) {
            Ok((p, o)) => r matches Ok(q) && q == p && q <= b@.len() && final(out)@ == o,
            Err(e) => r == Err::<usize, TranslateError>(e),
        },
{
    if layout.at_least(V::V_1_20_3) {
        match skip_document(b, pos) {
            Some(end) => {
                append_bytes(out, slice_subrange(b, pos, end));
                Ok(end)
            },
            None => Err(TranslateError::Read),
        }
    } else {
        skip(&STRING, b, pos, out)
    }
}

fn strings(b: &[u8], pos: usize, out: &mut Vec<u8>) -> (r: Result<usize, TranslateError>)
    requires
        pos <= b@.len(),
    ensures
        match strings_state(b@, Ok((pos as int, old(out)@))) {
            Ok((p, o)) => r matches Ok(q) && q == p && q <= b@.len() && final(out)@ == o,
            Err(e) => r == Err::<usize, TranslateError>(e),
        },
{
    let (count, p) = match copy(&VAR_INT, b, pos, out) {
        Ok(found) => found,
        Err(e) => return Err(e),
    };
    if count < 0 || count > MAX_LISTED {
        return Err(TranslateError::Unsupported("string list"));
    }
    skips(&STRING, b, p, count as u32, out)
}

fn lists(b: &[u8], pos: usize, n: i32, out: &mut Vec<u8>) -> (r: Result<usize, TranslateError>)
    requires
        pos <= b@.len(),
    ensures
        match string_lists(b@, Ok((pos as int, old(out)@)), run_count(n)) {
            Ok((p, o)) => r matches Ok(q) && q == p && q <= b@.len() && final(out)@ == o,
            Err(e) => r == Err::<usize, TranslateError>(e),
        },
{
    let mut left: i32 = if n < 0 { 0 } else { n };
    let mut p = pos;
    while left > 0
        invariant
            p <= b@.len(),
            0 <= left,
            string_lists(b@, Ok((pos as int, old(out)@)), run_count(n))
                == string_lists(b@, Ok((p as int, out@)), left as nat),
        decreases left,
    {
        p = match strings(b, p, out) {
            Ok(q) => q,
            Err(e) => {
                assert(string_lists(b@, Err(e), (left - 1) as nat) == Err::<(int, Seq<u8>), TranslateError>(e));
                return Err(e);
            },
        };
        left = left - 1;
    }
    Ok(p)
}

fn icon(b: &[u8], pos: usize, out: &mut Vec<u8>, layout: V, reg: &[DataComponent], ids: &ComposedMappings)
    -> (r: Result<usize, TranslateError>)
    requires
        pos <= b@.len(),
    ensures
        match icon_state(reg@, b@, Ok((pos as int, old(out)@)), layout, *ids) {
            Ok((p, o)) => r matches Ok(q) && q == p && q <= b@.len() && final(out)@ == o,
            Err(e) => r == Err::<usize, TranslateError>(e),
        },
{
    if !layout.at_least(V::V_26_1) {
        return item(b, pos, out, layout, reg, ids);
    }
    let (template, p) = match TEMPLATE_ITEM.read(reg, b, pos) {
        Some(found) => found,
        None => return Err(TranslateError::Read),
    };
    let rewritten = StructuredItemRewriter::to_version(reg, &template, layout, ids);
    TEMPLATE_ITEM.write(out, &rewritten);
    Ok(p)
}

fn display(b: &[u8], pos: usize, out: &mut Vec<u8>, layout: V, reg: &[DataComponent], ids: &ComposedMappings)
    -> (r: Result<usize, TranslateError>)
    requires
        pos <= b@.len(),
    ensures
        match display_state(reg@, b@, Ok((pos as int, old(out)@)), layout, *ids) {
            Ok((p, o)) => r matches Ok(q) && q == p && q <= b@.len() && final(out)@ == o,
            Err(e) => r == Err::<usize, TranslateError>(e),
        },
{
    let mut p = match text(b, pos, out, layout) {
        Ok(q) => q,
        Err(e) => return Err(e),
    };
    p = match text(b, p, out, layout) {
        Ok(q) => q,
        Err(e) => return Err(e),
    };
    p = match icon(b, p, out, layout, reg, ids) {
        Ok(q) => q,
        Err(e) => return Err(e),
    };
    p = match skip(&VAR_INT, b, p, out) {
        Ok(q) => q,
        Err(e) => return Err(e),
    };
    let (flags, q) = match copy(&I32, b, p, out) {
        Ok(found) => found,
        Err(e) => return Err(e),
    };
    p = q;
    if flags & 1 != 0 {
        p = match skip(&STRING, b, p, out) {
            Ok(q) => q,
            Err(e) => return Err(e),
        };
    }
    if layout.older_than(V::V_26_3) {
        p = match skips(&I32, b, p, 2, out) {
            Ok(q) => q,
            Err(e) => return Err(e),
        };
    }
    Ok(p)
}

fn advancement_start(b: &[u8], pos: usize, out: &mut Vec<u8>, layout: V, reg: &[DataComponent], ids: &ComposedMappings)
    -> (r: Result<usize, TranslateError>)
    requires
        pos <= b@.len(),
    ensures
        match advancement_head(reg@, b@, Ok((pos as int, old(out)@)), layout, *ids) {
            Ok((p, o)) => r matches Ok(q) && q == p && q <= b@.len() && final(out)@ == o,
            Err(e) => r == Err::<usize, TranslateError>(e),
        },
{
    let mut p = match skip(&STRING, b, pos, out) {
        Ok(q) => q,
        Err(e) => return Err(e),
    };
    let (parent, q) = match copy(&BOOL, b, p, out) {
        Ok(found) => found,
        Err(e) => return Err(e),
    };
    p = q;
    if parent {
        p = match skip(&STRING, b, p, out) {
            Ok(q) => q,
            Err(e) => return Err(e),
        };
    }
    let (shown, q) = match copy(&BOOL, b, p, out) {
        Ok(found) => found,
        Err(e) => return Err(e),
    };
    p = q;
    if shown {
        p = match display(b, p, out, layout, reg, ids) {
            Ok(q) => q,
            Err(e) => return Err(e),
        };
    }
    Ok(p)
}

fn advancement_rest(b: &[u8], pos: usize, out: &mut Vec<u8>, layout: V) -> (r: Result<usize, TranslateError>)
    requires
        pos <= b@.len(),
    ensures
        match advancement_tail(b@, Ok((pos as int, old(out)@)), layout) {
            Ok((p, o)) => r matches Ok(q) && q == p && q <= b@.len() && final(out)@ == o,
            Err(e) => r == Err::<usize, TranslateError>(e),
        },
{
    let mut p = pos;
    if layout.older_than(V::V_1_20_2) {
        p = match strings(b, p, out) {
            Ok(q) => q,
            Err(e) => return Err(e),
        };
    }
    let (requirements, q) = match copy(&VAR_INT, b, p, out) {
        Ok(found) => found,
        Err(e) => return Err(e),
    };
    p = match lists(b, q, requirements, out) {
        Ok(q) => q,
        Err(e) => return Err(e),
    };
    if layout.at_least(V::V_1_20) {
        p = match skip(&BOOL, b, p, out) {
            Ok(q) => q,
            Err(e) => return Err(e),
        };
    }
    if layout.at_least(V::V_26_3) {
        p = match skips(&I32, b, p, 2, out) {
            Ok(q) => q,
            Err(e) => return Err(e),
        };
    }
    Ok(p)
}

fn advancement(b: &[u8], pos: usize, out: &mut Vec<u8>, layout: V, reg: &[DataComponent], ids: &ComposedMappings)
    -> (r: Result<usize, TranslateError>)
    requires
        pos <= b@.len(),
    ensures
        match advancement_state(reg@, b@, Ok((pos as int, old(out)@)), layout, *ids) {
            Ok((p, o)) => r matches Ok(q) && q == p && q <= b@.len() && final(out)@ == o,
            Err(e) => r == Err::<usize, TranslateError>(e),
        },
{
    let p = match advancement_start(b, pos, out, layout, reg, ids) {
        Ok(q) => q,
        Err(e) => return Err(e),
    };
    advancement_rest(b, p, out, layout)
}

fn advancements_list(b: &[u8], pos: usize, n: i32, out: &mut Vec<u8>, layout: V, reg: &[DataComponent],
    ids: &ComposedMappings) -> (r: Result<usize, TranslateError>)
    requires
        pos <= b@.len(),
        n >= 0,
    ensures
        match advancements_from(reg@, b@, Ok((pos as int, old(out)@)), n as nat, layout, *ids) {
            Ok((p, o)) => r matches Ok(q) && q == p && q <= b@.len() && final(out)@ == o,
            Err(e) => r == Err::<usize, TranslateError>(e),
        },
{
    let mut left = n;
    let mut p = pos;
    while left > 0
        invariant
            p <= b@.len(),
            0 <= left,
            advancements_from(reg@, b@, Ok((pos as int, old(out)@)), n as nat, layout, *ids)
                == advancements_from(reg@, b@, Ok((p as int, out@)), left as nat, layout, *ids),
        decreases left,
    {
        p = match advancement(b, p, out, layout, reg, ids) {
            Ok(q) => q,
            Err(e) => {
                assert(advancements_from(reg@, b@, Err(e), (left - 1) as nat, layout, *ids)
                    == Err::<(int, Seq<u8>), TranslateError>(e));
                return Err(e);
            },
        };
        left = left - 1;
    }
    Ok(p)
}

fn criteria(b: &[u8], pos: usize, n: i32, out: &mut Vec<u8>) -> (r: Result<usize, TranslateError>)
    requires
        pos <= b@.len(),
    ensures
        match criteria_from(b@, Ok((pos as int, old(out)@)), run_count(n)) {
            Ok((p, o)) => r matches Ok(q) && q == p && q <= b@.len() && final(out)@ == o,
            Err(e) => r == Err::<usize, TranslateError>(e),
        },
{
    let mut left: i32 = if n < 0 { 0 } else { n };
    let mut p = pos;
    while left > 0
        invariant
            p <= b@.len(),
            0 <= left,
            criteria_from(b@, Ok((pos as int, old(out)@)), run_count(n))
                == criteria_from(b@, Ok((p as int, out@)), left as nat),
        decreases left,
    {
        let ghost s = Ok::<(int, Seq<u8>), TranslateError>((p as int, out@));
        let q = match skip(&STRING, b, p, out) {
            Ok(q) => q,
            Err(e) => {
                assert(criteria_from(b@, Err(e), (left - 1) as nat) == Err::<(int, Seq<u8>), TranslateError>(e));
                return Err(e);
            },
        };
        let (achieved, q2) = match copy(&BOOL, b, q, out) {
            Ok(found) => found,
            Err(e) => {
                assert(criteria_from(b@, Err(e), (left - 1) as nat) == Err::<(int, Seq<u8>), TranslateError>(e));
                return Err(e);
            },
        };
        p = q2;
        if achieved {
            p = match skip(&I64, b, p, out) {
                Ok(q3) => q3,
                Err(e) => {
                    assert(criteria_from(b@, Err(e), (left - 1) as nat) == Err::<(int, Seq<u8>), TranslateError>(e));
                    return Err(e);
                },
            };
        }
        left = left - 1;
    }
    Ok(p)
}

fn progress(b: &[u8], pos: usize, n: i32, out: &mut Vec<u8>) -> (r: Result<usize, TranslateError>)
    requires
        pos <= b@.len(),
    ensures
        match progress_from(b@, Ok((pos as int, old(out)@)), run_count(n)) {
            Ok((p, o)) => r matches Ok(q) && q == p && q <= b@.len() && final(out)@ == o,
            Err(e) => r == Err::<usize, TranslateError>(e),
        },
{
    let mut left: i32 = if n < 0 { 0 } else { n };
    let mut p = pos;
    while left > 0
        invariant
            p <= b@.len(),
            0 <= left,
            progress_from(b@, Ok((pos as int, old(out)@)), run_count(n))
                == progress_from(b@, Ok((p as int, out@)), left as nat),
        decreases left,
    {
        let q = match skip(&STRING, b, p, out) {
            Ok(q) => q,
            Err(e) => {
                assert(progress_from(b@, Err(e), (left - 1) as nat) == Err::<(int, Seq<u8>), TranslateError>(e));
                return Err(e);
            },
        };
        let (count, q2) = match copy(&VAR_INT, b, q, out) {
            Ok(found) => found,
            Err(e) => {
                assert(progress_from(b@, Err(e), (left - 1) as nat) == Err::<(int, Seq<u8>), TranslateError>(e));
                return Err(e);
            },
        };
        p = match criteria(b, q2, count, out) {
            Ok(q3) => q3,
            Err(e) => {
                assert(progress_from(b@, Err(e), (left - 1) as nat) == Err::<(int, Seq<u8>), TranslateError>(e));
                return Err(e);
            },
        };
        left = left - 1;
    }
    Ok(p)
}

fn advancements_rewrite(b: &[u8], layout: V, reg: &[DataComponent], ids: &ComposedMappings)
    -> (r: Result<(Vec<u8>, usize), TranslateError>)
    ensures
        match advancements_state(reg@, b@, layout, *ids) {
            Ok((p, o)) => r matches Ok((v, q)) && v@ == o && q == p && q <= b@.len(),
            Err(e) => r == Err::<(Vec<u8>, usize), TranslateError>(e),
        },
{
    let mut out: Vec<u8> = Vec::new();
    let p1 = match skip(&BOOL, b, 0, &mut out) {
        Ok(q) => q,
        Err(e) => return Err(e),
    };
    let (added, p2) = match copy(&VAR_INT, b, p1, &mut out) {
        Ok(found) => found,
        Err(e) => return Err(e),
    };
    if added < 0 || added > MAX_LISTED {
        return Err(TranslateError::Unsupported("advancement count"));
    }
    let mut p = match advancements_list(b, p2, added, &mut out, layout, reg, ids) {
        Ok(q) => q,
        Err(e) => return Err(e),
    };
    p = match strings(b, p, &mut out) {
        Ok(q) => q,
        Err(e) => return Err(e),
    };
    let (entries, q) = match copy(&VAR_INT, b, p, &mut out) {
        Ok(found) => found,
        Err(e) => return Err(e),
    };
    p = match progress(b, q, entries, &mut out) {
        Ok(q2) => q2,
        Err(e) => return Err(e),
    };
    if layout.at_least(V::V_1_21_5) {
        p = match skip(&BOOL, b, p, &mut out) {
            Ok(q2) => q2,
            Err(e) => return Err(e),
        };
    }
    Ok((out, p))
}

/// Puts every icon of an advancement update in `layout`'s form.
pub fn advancements(wrapper: &mut PacketWrapper, layout: V, reg: &[DataComponent], ids: &ComposedMappings)
    -> (r: Result<(), TranslateError>)
    ensures
        final(wrapper)@.wf(),
        match applied(old(wrapper)@, advancements_state(reg@, old(wrapper)@.remaining(), layout, *ids)) {
            (Ok(_), w) => r is Ok && final(wrapper)@ == w,
            (Err(e), w) => r == Err::<(), TranslateError>(e) && final(wrapper)@ == w,
        },
{
    match advancements_rewrite(wrapper.remaining(), layout, reg, ids) {
        Ok((out, n)) => {
            commit(wrapper, n, out);
            Ok(())
        },
        Err(e) => Err(e),
    }
}


// ---------------------------------------------------------------------------
// The creative inventory
// ---------------------------------------------------------------------------

/// Whether a client on `layout` writes every component payload after its
/// length in the stacks it makes itself: from 1.21.5.
pub open spec fn length_prefixed_from(layout: V) -> bool {
    layout.spec_at_least(V::V_1_21_5)
}

/// A creative inventory slot a client on `layout` sets: the slot index, then
/// the stack read back into the newest form and written in it, its payloads
/// after their lengths where the client writes them so.
pub open spec fn creative_slot_state(reg: Seq<DataComponent>, b: Seq<u8>, layout: V, ids: ComposedMappings) -> Progress {
    let prefixed = length_prefixed_from(layout);
    match pass(I16, b, start()) {
        Ok((p, out)) => match client_item(reg, b, p, layout, prefixed, ids) {
            Ok((v, q)) => if structured_writable(v, prefixed) {
                Ok((q, out + structured_bytes(v, prefixed)))
            } else {
                Err(TranslateError::Write)
            },
            Err(e) => Err(e),
        },
        Err(e) => Err(e),
    }
}

fn creative_slot_rewrite(b: &[u8], layout: V, reg: &[DataComponent], ids: &ComposedMappings)
    -> (r: Result<(Vec<u8>, usize), TranslateError>)
    ensures
        match creative_slot_state(reg@, b@, layout, *ids) {
            Ok((p, o)) => r matches Ok((v, q)) && v@ == o && q == p && q <= b@.len(),
            Err(e) => r == Err::<(Vec<u8>, usize), TranslateError>(e),
        },
{
    let prefixed = layout.at_least(V::V_1_21_5);
    let mut out: Vec<u8> = Vec::new();
    let p = match skip(&I16, b, 0, &mut out) {
        Ok(q) => q,
        Err(e) => return Err(e),
    };
    let (stack, q) = match read_client_item(reg, b, p, layout, prefixed, ids) {
        Ok(found) => found,
        Err(e) => return Err(e),
    };
    if !write_structured(&mut out, &stack, prefixed) {
        return Err(TranslateError::Write);
    }
    Ok((out, q))
}

/// Reads the stack a creative client on `layout` sets back into the newest form.
pub fn creative_slot(wrapper: &mut PacketWrapper, layout: V, reg: &[DataComponent], ids: &ComposedMappings)
    -> (r: Result<(), TranslateError>)
    ensures
        final(wrapper)@.wf(),
        match applied(old(wrapper)@, creative_slot_state(reg@, old(wrapper)@.remaining(), layout, *ids)) {
            (Ok(_), w) => r is Ok && final(wrapper)@ == w,
            (Err(e), w) => r == Err::<(), TranslateError>(e) && final(wrapper)@ == w,
        },
{
    match creative_slot_rewrite(wrapper.remaining(), layout, reg, ids) {
        Ok((out, n)) => {
            commit(wrapper, n, out);
            Ok(())
        },
        Err(e) => Err(e),
    }
}

} // verus!
