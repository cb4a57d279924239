//! Remaps block state ids inside a `LEVEL_CHUNK_WITH_LIGHT` payload from 1.18
//! on.
//!
//! Core writes the chunk in the client's own wire layout but the section
//! palette state ids are always the newest protocol's, and a client throws on
//! an id its own registry lacks, so the palettes are renumbered here. Only
//! the block palette is touched; biome ids and the surrounding bytes are
//! copied through. Layouts branch at 1.20.2 (NBT root name), 1.21.5
//! (heightmap list, no length prefixes) and 26.1 (fluid count).

use vstd::prelude::*;
use vstd::slice::slice_subrange;
use crate::api::rewriter::block::{chunk_block_entities_bytes, rewrite_chunk_block_entities, skip_nbt_for_version};
use crate::api::rewriter::item::nbt_end_for;
use crate::api::rewriter::item_shape::{var_int_field, var_int_end, fixed_end, skip_fixed};
use crate::api::types::{WireType, I16, I32, U8};
use crate::codec::{append_bytes, var_int_bytes, write_var_int};
use crate::data::mappings::IdMapping;
use crate::nbt::as_int;
use crate::packet::chunk_legacy::{
    field, mapped_state, run_count, BIOMES_PER_SECTION, BLOCKS_PER_SECTION, MAX_INDIRECT_BIOME_BITS,
    MAX_INDIRECT_BLOCK_BITS,
};
use crate::version::JavaMinecraftVersion;

verus! {

/// Oldest layout this parser understands, which is the one core writes.
pub const OLDEST_LAYOUT: JavaMinecraftVersion = JavaMinecraftVersion::V_1_18;

/// The number of longs `entry_count` entries `bits` wide pack into, as many
/// to a long as fit; `None` for a width over 64 bits, which fits none.
pub open spec fn spec_packed_long_count(entry_count: nat, bits: u8) -> Option<nat> {
    if bits == 0 {
        Some(0)
    } else if bits > 64 {
        None
    } else {
        let per = 64int / (bits as int);
        Some(((entry_count + per - 1) / per) as nat)
    }
}

/// The number of longs `entry_count` entries `bits` wide pack into.
pub fn packed_long_count(entry_count: usize, bits: u8) -> (r: Option<usize>)
    ensures
        match spec_packed_long_count(entry_count as nat, bits) {
            Some(n) => r matches Some(k) && k == n,
            None => r is None,
        },
{
    if bits == 0 {
        return Some(0);
    }
    if bits > 64 {
        return None;
    }
    let per = 64 / bits as usize;
    assert(per >= 1) by (nonlinear_arith)
        requires per == 64int / (bits as int), 1 <= bits <= 64;
    if entry_count % per != 0 {
        assert(entry_count / per < usize::MAX) by (nonlinear_arith)
            requires per >= 1, entry_count % per != 0, entry_count <= usize::MAX;
        let n = entry_count / per + 1;
        assert(n == (entry_count + per - 1) / (per as int)) by (nonlinear_arith)
            requires per >= 1, entry_count % per != 0, n == entry_count / per + 1;
        Some(n)
    } else {
        let n = entry_count / per;
        assert(n == (entry_count + per - 1) / (per as int)) by (nonlinear_arith)
            requires per >= 1, entry_count % per == 0, n == entry_count / per;
        Some(n)
    }
}

/// Block state `id` renumbered through `states`: an id outside sixteen bits
/// is refused, one the client lacks becomes air.
pub open spec fn remap_state(states: IdMapping, id: i32) -> Option<i32> {
    if 0 <= id <= u16::MAX {
        let m = mapped_state(states, id as u32);
        if m <= i32::MAX { Some(m as i32) } else { None }
    } else {
        None
    }
}

/// Renumbers the block state `id` through `states`.
pub fn remap_state_id(states: &IdMapping, id: i32) -> (r: Option<i32>)
    ensures
        r == remap_state(*states, id),
{
    if id < 0 || id > u16::MAX as i32 {
        return None;
    }
    let m = match states.map(id as u32) {
        Some(m) => m,
        None => 0,
    };
    if m <= i32::MAX as u32 { Some(m as i32) } else { None }
}

/// A palette id copied across: renumbered through `remap` where there is one.
pub open spec fn copied_id(remap: Option<IdMapping>, id: i32) -> Option<i32> {
    match remap {
        Some(states) => remap_state(states, id),
        None => Some(id),
    }
}

/// `n` palette entries from `pos`, copied after `acc`.
pub open spec fn palette_copy(b: Seq<u8>, pos: int, n: nat, remap: Option<IdMapping>, acc: Seq<u8>) -> Option<(Seq<u8>, int)>
    decreases n,
{
    if n == 0 {
        if 0 <= pos <= b.len() { Some((acc, pos)) } else { None }
    } else {
        match var_int_field(b, pos) {
            Some((id, p)) => match copied_id(remap, id) {
                Some(m) => palette_copy(b, p, (n - 1) as nat, remap, acc + var_int_bytes(m)),
                None => None,
            },
            None => None,
        }
    }
}

/// The palette part of a container at `p1` whose width is `bits`: a single
/// id, a counted palette, or nothing for a direct palette, which is refused
/// where ids would need renumbering.
pub open spec fn palette_part(b: Seq<u8>, p1: int, bits: u8, max_indirect_bits: u8, remap: Option<IdMapping>)
    -> Option<(Seq<u8>, int)>
{
    if bits == 0 {
        match var_int_field(b, p1) {
            Some((id, p2)) => match copied_id(remap, id) {
                Some(m) => Some((var_int_bytes(m), p2)),
                None => None,
            },
            None => None,
        }
    } else if bits <= max_indirect_bits {
        match var_int_field(b, p1) {
            Some((len, p2)) => palette_copy(b, p2, run_count(len), remap, var_int_bytes(len)),
            None => None,
        }
    } else if remap is Some {
        None
    } else {
        Some((Seq::empty(), p1))
    }
}

/// How the packed longs of a container at `p3` are counted: a `VarInt`
/// before 1.21.5, refused where negative, and implied by the entry count and
/// width from it. Gives the count's bytes, where the longs start and how many.
pub open spec fn longs_part(b: Seq<u8>, p3: int, entry_count: nat, bits: u8, version: JavaMinecraftVersion)
    -> Option<(Seq<u8>, int, nat)>
{
    if version.spec_older_than(JavaMinecraftVersion::V_1_21_5) {
        match var_int_field(b, p3) {
            Some((len, p4)) => if len < 0 { None } else { Some((var_int_bytes(len), p4, len as nat)) },
            None => None,
        }
    } else {
        match spec_packed_long_count(entry_count, bits) {
            Some(n) => Some((Seq::empty(), p3, n)),
            None => None,
        }
    }
}

/// One palette container at `pos` copied across, renumbering block state ids
/// where `remap` is set: its width, its single id or its palette, and its
/// packed longs. A direct palette that would need renumbering is refused
/// rather than repacked at another width.
pub open spec fn container_copy(
    b: Seq<u8>,
    pos: int,
    entry_count: nat,
    max_indirect_bits: u8,
    remap: Option<IdMapping>,
    version: JavaMinecraftVersion,
) -> Option<(Seq<u8>, int)> {
    match field(U8, b, pos) {
        Some((bits, p1)) => match palette_part(b, p1, bits, max_indirect_bits, remap) {
            Some((palette_bytes, p3)) => match longs_part(b, p3, entry_count, bits, version) {
                Some((count_bytes, p4, n)) => match fixed_end(b, p4, 8 * (n as int)) {
                    Some(p5) => Some((U8.encode(bits) + palette_bytes + count_bytes + b.subrange(p4, p5), p5)),
                    None => None,
                },
                None => None,
            },
            None => None,
        },
        None => None,
    }
}

fn copy_palette(b: &[u8], pos: usize, n: i32, remap: Option<&IdMapping>, out: &mut Vec<u8>) -> (r: Option<usize>)
    requires
        pos <= b@.len(),
        n >= 0,
    ensures
        match palette_copy(b@, pos as int, n as nat, opt_states(remap), old(out)@) {
            Some((bytes, end)) => r matches Some(q) && q == end && final(out)@ == bytes && pos <= end <= b@.len(),
            None => r is None,
        },
{
    let mut p = pos;
    let mut left = n;
    while left > 0
        invariant
            pos <= p <= b@.len(),
            0 <= left,
            palette_copy(b@, pos as int, n as nat, opt_states(remap), old(out)@)
                == palette_copy(b@, p as int, left as nat, opt_states(remap), out@),
        decreases left,
    {
        let (id, q) = match var_int_end(b, p) {
            Some(found) => found,
            None => return None,
        };
        let m = match remap {
            Some(states) => match remap_state_id(states, id) {
                Some(m) => m,
                None => return None,
            },
            None => id,
        };
        write_var_int(out, m);
        p = q;
        left = left - 1;
    }
    Some(p)
}

/// The spec view of an optional renumbering.
pub open spec fn opt_states(m: Option<&IdMapping>) -> Option<IdMapping> {
    match m {
        Some(x) => Some(*x),
        None => None,
    }
}

fn copy_palette_part(b: &[u8], p1: usize, bits: u8, max_indirect_bits: u8, remap: Option<&IdMapping>)
    -> (r: Option<(Vec<u8>, usize)>)
    requires
        p1 <= b@.len(),
    ensures
        match palette_part(b@, p1 as int, bits, max_indirect_bits, opt_states(remap)) {
            Some((bytes, end)) => r matches Some((v, q)) && v@ == bytes && q == end && p1 <= q <= b@.len(),
            None => r is None,
        },
{
    if bits == 0 {
        let (id, p2) = match var_int_end(b, p1) {
            Some(found) => found,
            None => return None,
        };
        let m = match remap {
            Some(states) => match remap_state_id(states, id) {
                Some(m) => m,
                None => return None,
            },
            None => id,
        };
        let mut piece: Vec<u8> = Vec::new();
        write_var_int(&mut piece, m);
        Some((piece, p2))
    } else if bits <= max_indirect_bits {
        let (len, p2) = match var_int_end(b, p1) {
            Some(found) => found,
            None => return None,
        };
        let mut entries: Vec<u8> = Vec::new();
        write_var_int(&mut entries, len);
        let n: i32 = if len < 0 { 0 } else { len };
        match copy_palette(b, p2, n, remap, &mut entries) {
            Some(q) => Some((entries, q)),
            None => None,
        }
    } else if remap.is_some() {
        None
    } else {
        Some((Vec::new(), p1))
    }
}

fn count_longs(b: &[u8], p3: usize, entry_count: usize, bits: u8, version: JavaMinecraftVersion)
    -> (r: Option<(Vec<u8>, usize, usize)>)
    requires
        p3 <= b@.len(),
    ensures
        match longs_part(b@, p3 as int, entry_count as nat, bits, version) {
            Some((bytes, p4, n)) => r matches Some((v, q, k)) && v@ == bytes && q == p4 && k == n && p3 <= q <= b@.len(),
            None => r is None,
        },
{
    if version.older_than(JavaMinecraftVersion::V_1_21_5) {
        let (len, p4) = match var_int_end(b, p3) {
            Some(found) => found,
            None => return None,
        };
        if len < 0 {
            return None;
        }
        let mut bytes: Vec<u8> = Vec::new();
        write_var_int(&mut bytes, len);
        Some((bytes, p4, len as usize))
    } else {
        match packed_long_count(entry_count, bits) {
            Some(n) => Some((Vec::new(), p3, n)),
            None => None,
        }
    }
}

/// Copies one palette container at `pos` to `out`, renumbering block state
/// ids where `remap` is set; where it cannot, `out` is left as it was.
pub fn copy_container(
    b: &[u8],
    pos: usize,
    out: &mut Vec<u8>,
    entry_count: usize,
    max_indirect_bits: u8,
    remap: Option<&IdMapping>,
    version: JavaMinecraftVersion,
) -> (r: Option<usize>)
    requires
        pos <= b@.len(),
    ensures
        match container_copy(b@, pos as int, entry_count as nat, max_indirect_bits, opt_states(remap), version) {
            Some((bytes, end)) => r matches Some(q) && q == end && final(out)@ == old(out)@ + bytes && pos <= end <= b@.len(),
            None => r is None && final(out)@ == old(out)@,
        },
{
    let (bits, p1) = match U8.read(b, pos) {
        Some(found) => found,
        None => return None,
    };
    let (palette, p3) = match copy_palette_part(b, p1, bits, max_indirect_bits, remap) {
        Some(found) => found,
        None => return None,
    };
    let (count, p4, n) = match count_longs(b, p3, entry_count, bits, version) {
        Some(found) => found,
        None => return None,
    };
    if n > (b.len() - p4) / 8 {
        return None;
    }
    let p5 = p4 + 8 * n;
    let mut piece: Vec<u8> = Vec::new();
    U8.write(&mut piece, &bits);
    append_bytes(&mut piece, palette.as_slice());
    append_bytes(&mut piece, count.as_slice());
    append_bytes(&mut piece, slice_subrange(b, p4, p5));
    append_bytes(out, piece.as_slice());
    Some(p5)
}

/// The heightmaps of a list in the 1.21.5 form from `pos`, `n` of them, copied
/// after `acc`: each a type index, a count and that many longs.
pub open spec fn heightmap_list_copy(b: Seq<u8>, pos: int, n: nat, acc: Seq<u8>) -> Option<(Seq<u8>, int)>
    decreases n,
{
    if n == 0 {
        if 0 <= pos <= b.len() { Some((acc, pos)) } else { None }
    } else {
        match var_int_field(b, pos) {
            Some((index, p1)) => match var_int_field(b, p1) {
                Some((len, p2)) => match fixed_end(b, p2, 8 * (run_count(len) as int)) {
                    Some(p3) => heightmap_list_copy(
                        b,
                        p3,
                        (n - 1) as nat,
                        acc + var_int_bytes(index) + var_int_bytes(len) + b.subrange(p2, p3),
                    ),
                    None => None,
                },
                None => None,
            },
            None => None,
        }
    }
}

/// The heightmaps at `pos` copied as `version` frames them: a counted list
/// from 1.21.5, an NBT document before it (named below 1.20.2), copied as it
/// stands.
pub open spec fn heightmaps_copy(b: Seq<u8>, pos: int, version: JavaMinecraftVersion) -> Option<(Seq<u8>, int)> {
    if version.spec_at_least(JavaMinecraftVersion::V_1_21_5) {
        match var_int_field(b, pos) {
            Some((count, p1)) => heightmap_list_copy(b, p1, run_count(count), var_int_bytes(count)),
            None => None,
        }
    } else {
        match nbt_end_for(b, pos, version) {
            Some(end) => Some((b.subrange(pos, end), end)),
            None => None,
        }
    }
}

/// Copies the heightmaps at `pos` as `version` frames them.
fn copy_heightmaps(b: &[u8], pos: usize, version: JavaMinecraftVersion) -> (r: Option<(Vec<u8>, usize)>)
    requires
        pos <= b@.len(),
    ensures
        match heightmaps_copy(b@, pos as int, version) {
            Some((bytes, end)) => r matches Some((v, q)) && v@ == bytes && q == end && pos <= q <= b@.len(),
            None => r is None,
        },
{
    if !version.at_least(JavaMinecraftVersion::V_1_21_5) {
        let end = match skip_nbt_for_version(b, pos, version) {
            Some(end) => end,
            None => return None,
        };
        let mut copied: Vec<u8> = Vec::new();
        append_bytes(&mut copied, slice_subrange(b, pos, end));
        return Some((copied, end));
    }
    let (count, p1) = match var_int_end(b, pos) {
        Some(found) => found,
        None => return None,
    };
    let mut out: Vec<u8> = Vec::new();
    write_var_int(&mut out, count);
    let mut left: i32 = if count < 0 { 0 } else { count };
    let mut p = p1;
    while left > 0
        invariant
            pos <= p <= b@.len(),
            0 <= left,
            heightmaps_copy(b@, pos as int, version) == heightmap_list_copy(b@, p as int, left as nat, out@),
        decreases left,
    {
        let (index, q1) = match var_int_end(b, p) {
            Some(found) => found,
            None => return None,
        };
        let (len, q2) = match var_int_end(b, q1) {
            Some(found) => found,
            None => return None,
        };
        let n: usize = if len < 0 { 0 } else { len as usize };
        if n > (b.len() - q2) / 8 {
            return None;
        }
        let q3 = q2 + 8 * n;
        write_var_int(&mut out, index);
        write_var_int(&mut out, len);
        append_bytes(&mut out, slice_subrange(b, q2, q3));
        p = q3;
        left = left - 1;
    }
    Some((out, p))
}

/// Whether every byte of `s` from `pos` on is zero.
pub open spec fn zero_tail(s: Seq<u8>, pos: int) -> bool {
    forall|i: int| pos <= i < s.len() ==> s[i] == 0
}

fn is_zero_tail(s: &[u8], pos: usize) -> (r: bool)
    requires
        pos <= s@.len(),
    ensures
        r == zero_tail(s@, pos as int),
{
    let mut i = pos;
    while i < s.len()
        invariant
            pos <= i <= s@.len(),
            forall|j: int| pos <= j < i ==> s@[j] == 0,
        decreases s@.len() - i,
    {
        if s[i] != 0 {
            return false;
        }
        i = i + 1;
    }
    true
}

/// The bytes a section starts with in `version`: its block count, and its
/// fluid count from 26.1.
pub open spec fn section_head_len(version: JavaMinecraftVersion) -> int {
    if version.spec_at_least(JavaMinecraftVersion::V_26_1) { 4 } else { 2 }
}

/// The sections of a chunk's blob `s` from `pos`, copied after `acc` with
/// their block palettes renumbered through `states`; a tail of zeros, which
/// core pads the blob with, is copied as it stands.
pub open spec fn sections_copy(s: Seq<u8>, pos: int, version: JavaMinecraftVersion, states: IdMapping, acc: Seq<u8>)
    -> Option<Seq<u8>>
    decreases s.len() - pos,
{
    if pos < 0 || pos > s.len() {
        None
    } else if pos == s.len() {
        Some(acc)
    } else if zero_tail(s, pos) {
        Some(acc + s.subrange(pos, s.len() as int))
    } else {
        match fixed_end(s, pos, section_head_len(version)) {
            Some(p1) => match container_copy(
                s,
                p1,
                BLOCKS_PER_SECTION as nat,
                MAX_INDIRECT_BLOCK_BITS,
                Some(states),
                version,
            ) {
                Some((blocks, p2)) => match container_copy(
                    s,
                    p2,
                    BIOMES_PER_SECTION as nat,
                    MAX_INDIRECT_BIOME_BITS,
                    None,
                    version,
                ) {
                    Some((biomes, p3)) => if pos < p3 <= s.len() {
                        sections_copy(s, p3, version, states, acc + s.subrange(pos, p1) + blocks + biomes)
                    } else {
                        None
                    },
                    None => None,
                },
                None => None,
            },
            None => None,
        }
    }
}

/// Copies the sections of a chunk's blob, renumbering their block palettes.
fn copy_sections(s: &[u8], version: JavaMinecraftVersion, states: &IdMapping) -> (r: Option<Vec<u8>>)
    ensures
        match sections_copy(s@, 0, version, *states, Seq::empty()) {
            Some(bytes) => r matches Some(v) && v@ == bytes,
            None => r is None,
        },
{
    let mut out: Vec<u8> = Vec::new();
    let mut p: usize = 0;
    let head: usize = if version.at_least(JavaMinecraftVersion::V_26_1) { 4 } else { 2 };
    while p < s.len()
        invariant
            p <= s@.len(),
            head == section_head_len(version),
            sections_copy(s@, 0, version, *states, Seq::empty()) == sections_copy(s@, p as int, version, *states, out@),
        decreases s@.len() - p,
    {
        if is_zero_tail(s, p) {
            append_bytes(&mut out, slice_subrange(s, p, s.len()));
            return Some(out);
        }
        if head > s.len() - p {
            return None;
        }
        let p1 = p + head;
        let ghost before = out@;
        append_bytes(&mut out, slice_subrange(s, p, p1));
        let p2 = match copy_container(s, p1, &mut out, BLOCKS_PER_SECTION, MAX_INDIRECT_BLOCK_BITS, Some(states), version) {
            Some(q) => q,
            None => return None,
        };
        let p3 = match copy_container(s, p2, &mut out, BIOMES_PER_SECTION, MAX_INDIRECT_BIOME_BITS, None, version) {
            Some(q) => q,
            None => return None,
        };
        proof {
            let blocks = container_copy(s@, p1 as int, BLOCKS_PER_SECTION as nat, MAX_INDIRECT_BLOCK_BITS, Some(*states), version)->Some_0.0;
            let biomes = container_copy(s@, p2 as int, BIOMES_PER_SECTION as nat, MAX_INDIRECT_BIOME_BITS, None, version)->Some_0.0;
            assert(out@ =~= before + s@.subrange(p as int, p1 as int) + blocks + biomes);
        }
        p = p3;
    }
    Some(out)
}

/// A chunk packet from 1.18 on with its section palettes and block entity
/// types renumbered: the position and heightmaps as they stand, the section
/// blob re-counted, and the block entities and light behind it. Older
/// layouts, and any payload these do not frame, are refused.
pub open spec fn remapped_chunk(
    b: Seq<u8>,
    version: JavaMinecraftVersion,
    states: IdMapping,
    block_entities: IdMapping,
) -> Option<Seq<u8>> {
    if version.spec_older_than(OLDEST_LAYOUT) {
        None
    } else {
        match heightmaps_copy(b, 8, version) {
            Some((maps, p1)) => if b.len() < 8 {
                None
            } else {
                match var_int_field(b, p1) {
                    Some((len, p2)) => if len < 0 || p2 + len > b.len() {
                        None
                    } else {
                        match sections_copy(b.subrange(p2, p2 + len), 0, version, states, Seq::empty()) {
                            Some(sections) => if sections.len() > i32::MAX {
                                None
                            } else {
                                match chunk_block_entities_bytes(b, p2 + len, version, block_entities) {
                                    Some(tail) => Some(
                                        b.subrange(0, 8) + maps + var_int_bytes(sections.len() as i32) + sections + tail,
                                    ),
                                    None => None,
                                }
                            },
                            None => None,
                        }
                    },
                    None => None,
                }
            },
            None => None,
        }
    }
}

/// Rewrites a chunk packet for `version`, renumbering its block states
/// through `states` and its block entity types through `block_entities`.
/// `None` means the packet must be dropped.
pub fn remap_chunk_payload(
    payload: &[u8],
    version: JavaMinecraftVersion,
    states: &IdMapping,
    block_entities: &IdMapping,
) -> (r: Option<Vec<u8>>)
    ensures
        match remapped_chunk(payload@, version, *states, *block_entities) {
            Some(bytes) => r matches Some(v) && v@ == bytes,
            None => r is None,
        },
{
    if version.older_than(OLDEST_LAYOUT) {
        return None;
    }
    if payload.len() < 8 {
        return None;
    }
    let (maps, p1) = match copy_heightmaps(payload, 8, version) {
        Some(found) => found,
        None => return None,
    };
    let (len, p2) = match var_int_end(payload, p1) {
        Some(found) => found,
        None => return None,
    };
    if len < 0 || len as usize > payload.len() - p2 {
        return None;
    }
    let end = p2 + len as usize;
    let sections = match copy_sections(slice_subrange(payload, p2, end), version, states) {
        Some(v) => v,
        None => return None,
    };
    if sections.len() > i32::MAX as usize {
        return None;
    }
    let tail = match rewrite_chunk_block_entities(payload, end, version, block_entities) {
        Some(v) => v,
        None => return None,
    };
    let mut out: Vec<u8> = Vec::new();
    append_bytes(&mut out, slice_subrange(payload, 0, 8));
    append_bytes(&mut out, maps.as_slice());
    write_var_int(&mut out, sections.len() as i32);
    append_bytes(&mut out, sections.as_slice());
    append_bytes(&mut out, tail.as_slice());
    Some(out)
}

} // verus!
