//! The block entity list of a chunk below 1.18: each entry a whole NBT
//! compound that names its type and carries its position, where 1.18 packs
//! the position and the type in front of the data.

use vstd::prelude::*;
use vstd::string::StringSliceAdditionalSpecFns;
use crate::api::rewriter::item_nbt::{
    named_tag, nbt_string, ENTRY_DEPTH, TAG_INT, TAG_STRING,
};
use crate::api::types::{WireType, I16, I32, U8, VAR_INT};
use crate::codec::append_bytes;
use crate::data::mappings::IdMapping;
use crate::nbt::{payload_end, skip_payload, u16_at, TAG_COMPOUND, TAG_END};
use crate::packet::chunk_legacy::{field, read_field};

verus! {

/// The entries the position and the type are written over, which the data
/// itself does not keep.
pub open spec fn rewritten_name(name: Seq<u8>) -> bool {
    name == "id".spec_bytes() || name == "x".spec_bytes() || name == "y".spec_bytes() || name == "z".spec_bytes()
}

/// The entries of a compound from `pos` up to its end tag, without those
/// named `id`, `x`, `y` or `z`, and the position after the end tag.
pub open spec fn kept_entries(b: Seq<u8>, pos: int) -> Option<(Seq<u8>, int)>
    decreases b.len() - pos,
{
    if pos < 0 || pos >= b.len() {
        None
    } else if b[pos] == TAG_END {
        Some((Seq::empty(), pos + 1))
    } else if pos + 3 > b.len() {
        None
    } else {
        let start = pos + 3 + u16_at(b, pos + 1);
        if start > b.len() {
            None
        } else {
            match payload_end(b, b[pos], start, ENTRY_DEPTH as nat) {
                Some(next) => if pos < next <= b.len() {
                    match kept_entries(b, next) {
                        Some((rest, end)) => Some((
                            (if rewritten_name(b.subrange(pos + 3, start)) { Seq::empty() } else { b.subrange(pos, next) })
                                + rest,
                            end,
                        )),
                        None => None,
                    }
                } else {
                    None
                },
                None => None,
            }
        }
    }
}

/// The newest name of the client's block entity type `id`, by `inverse`
/// from the client's numbering to the newest and `names`, the newest
/// registry.
pub open spec fn entity_name(inverse: IdMapping, names: Seq<Vec<u8>>, id: i32) -> Option<Seq<u8>> {
    if id < 0 {
        None
    } else {
        match inverse.spec_map(id as u32) {
            Some(n) => if n < names.len() { Some(names[n as int]@) } else { None },
            None => None,
        }
    }
}

/// A block coordinate from a chunk coordinate and the offset in it, as the
/// `Int` it is written as.
pub open spec fn block_coordinate(chunk: i32, offset: int) -> i32 {
    (chunk * 16 + offset) as i32
}

/// The whole compound of one block entity: a root with an empty name, its
/// data, its type's name and its position.
pub open spec fn entity_compound(kept: Seq<u8>, name: Seq<u8>, x: i32, y: i32, z: i32) -> Seq<u8> {
    seq![TAG_COMPOUND, 0u8, 0u8] + kept
        + named_tag(TAG_STRING, "id", nbt_string("minecraft:".spec_bytes() + name))
        + named_tag(TAG_INT, "x", I32.encode(x))
        + named_tag(TAG_INT, "y", I32.encode(y))
        + named_tag(TAG_INT, "z", I32.encode(z))
        + seq![TAG_END]
}

/// The block entity at `p` in the 1.18 form (its packed x and z, its y, its
/// type and its data as a named compound) in the form below 1.18, nothing
/// for a type the client has no name for, and the position after it.
pub open spec fn block_entity_at(b: Seq<u8>, p: int, cx: i32, cz: i32, inverse: IdMapping, names: Seq<Vec<u8>>)
    -> Option<(Seq<u8>, bool, int)>
{
    match field(U8, b, p) {
        Some((packed, p1)) => match field(I16, b, p1) {
            Some((y, p2)) => match field(VAR_INT, b, p2) {
                Some((id, p3)) => if p3 + 3 <= b.len() && b[p3] == TAG_COMPOUND
                    && p3 + 3 + u16_at(b, p3 + 1) <= b.len() {
                    match kept_entries(b, p3 + 3 + u16_at(b, p3 + 1)) {
                        Some((kept, end)) => match entity_name(inverse, names, id) {
                            Some(name) => Some((
                                entity_compound(kept, name, block_coordinate(cx, packed as int / 16), y as i32,
                                    block_coordinate(cz, packed as int % 16)),
                                true,
                                end,
                            )),
                            None => Some((Seq::empty(), false, end)),
                        },
                        None => None,
                    }
                } else {
                    None
                },
                None => None,
            },
            None => None,
        },
        None => None,
    }
}

/// `n` block entities from `p`: the compounds written, how many, and the
/// position after them.
pub open spec fn block_entities_from(b: Seq<u8>, p: int, n: nat, cx: i32, cz: i32, inverse: IdMapping,
    names: Seq<Vec<u8>>) -> Option<(Seq<u8>, nat, int)>
    decreases n,
{
    if n == 0 {
        if 0 <= p <= b.len() { Some((Seq::empty(), 0, p)) } else { None }
    } else {
        match block_entity_at(b, p, cx, cz, inverse, names) {
            Some((one, named, q)) => match block_entities_from(b, q, (n - 1) as nat, cx, cz, inverse, names) {
                Some((rest, k, end)) => Some((one + rest, (if named { k + 1 } else { k }) as nat, end)),
                None => None,
            },
            None => None,
        }
    }
}

/// The block entity list at `pos` in the form below 1.18: a count of the
/// entries kept and their compounds, and the position after the list.
pub open spec fn block_entity_list(b: Seq<u8>, pos: int, cx: i32, cz: i32, inverse: IdMapping,
    names: Seq<Vec<u8>>) -> Option<(Seq<u8>, int)>
{
    match field(VAR_INT, b, pos) {
        Some((count, p)) => match block_entities_from(b, p, if count < 0 { 0 } else { count as nat }, cx, cz,
            inverse, names) {
            Some((entries, k, end)) => Some((VAR_INT.encode(k as i32) + entries, end)),
            None => None,
        },
        None => None,
    }
}

/// The entries of a compound end after where they start, inside the bytes.
proof fn lemma_kept_end(b: Seq<u8>, pos: int)
    ensures
        kept_entries(b, pos) matches Some((_, e)) ==> pos < e <= b.len(),
    decreases b.len() - pos,
{
    if 0 <= pos < b.len() && b[pos] != TAG_END && pos + 3 <= b.len() {
        let start = pos + 3 + u16_at(b, pos + 1);
        if start <= b.len() {
            if let Some(next) = payload_end(b, b[pos], start, ENTRY_DEPTH as nat) {
                if pos < next <= b.len() {
                    lemma_kept_end(b, next);
                }
            }
        }
    }
}

/// `front` followed by what `rest` holds.
pub open spec fn joined_entries(front: Seq<u8>, rest: Option<(Seq<u8>, int)>) -> Option<(Seq<u8>, int)> {
    match rest {
        Some((r, e)) => Some((front + r, e)),
        None => None,
    }
}

proof fn lemma_names()
    ensures
        "id".spec_bytes().len() == 2,
        "x".spec_bytes().len() == 1,
        "y".spec_bytes().len() == 1,
        "z".spec_bytes().len() == 1,
        "minecraft:".spec_bytes().len() == 10,
{
    broadcast use vstd::string::is_ascii_spec_bytes;
    reveal_strlit("id");
    reveal_strlit("x");
    reveal_strlit("y");
    reveal_strlit("z");
    reveal_strlit("minecraft:");
    assert(vstd::string::is_ascii("id"));
    assert(vstd::string::is_ascii("x"));
    assert(vstd::string::is_ascii("y"));
    assert(vstd::string::is_ascii("z"));
    assert(vstd::string::is_ascii("minecraft:"));
}

/// Whether the name at `from`, `len` bytes long, is one the position and
/// the type are written over.
fn is_rewritten(b: &[u8], from: usize, len: usize) -> (r: bool)
    requires
        from + len <= b@.len(),
    ensures
        r == rewritten_name(b@.subrange(from as int, from + len)),
{
    proof {
        lemma_names();
        broadcast use vstd::string::is_ascii_spec_bytes;
        reveal_strlit("id");
        reveal_strlit("x");
        reveal_strlit("y");
        reveal_strlit("z");
        assert(vstd::string::is_ascii("id"));
        assert(vstd::string::is_ascii("x"));
        assert(vstd::string::is_ascii("y"));
        assert(vstd::string::is_ascii("z"));
        assert("id".spec_bytes() =~= seq![105u8, 100u8]);
        assert("x".spec_bytes() =~= seq![120u8]);
        assert("y".spec_bytes() =~= seq![121u8]);
        assert("z".spec_bytes() =~= seq![122u8]);
    }
    let ghost name = b@.subrange(from as int, from + len);
    if len == 2 {
        let r = b[from] == 105u8 && b[from + 1] == 100u8;
        proof {
            if r {
                assert(name =~= seq![105u8, 100u8]);
            } else {
                assert(name != seq![105u8, 100u8]) by {
                    assert(name[0] != 105u8 || name[1] != 100u8);
                }
            }
            assert(r == rewritten_name(name));
        }
        r
    } else if len == 1 {
        let c = b[from];
        let r = c == 120u8 || c == 121u8 || c == 122u8;
        proof {
            assert(name =~= seq![c]);
            assert(name != "id".spec_bytes());
            if c != 120u8 { assert(name[0] != seq![120u8][0]); }
            if c != 121u8 { assert(name[0] != seq![121u8][0]); }
            if c != 122u8 { assert(name[0] != seq![122u8][0]); }
            assert(r == rewritten_name(name));
        }
        r
    } else {
        proof {
            assert(name.len() == len);
            assert(!rewritten_name(name));
        }
        false
    }
}

/// Copies the entries of the compound from `pos`, leaving out those the
/// position and the type are written over.
fn copy_kept_entries(b: &[u8], pos: usize) -> (r: Option<(Vec<u8>, usize)>)
    ensures
        match kept_entries(b@, pos as int) {
            Some((kept, end)) => r matches Some((v, e)) && v@ == kept && e == end,
            None => r is None,
        },
{
    let mut out: Vec<u8> = Vec::new();
    let mut p = pos;
    loop
        invariant
            kept_entries(b@, pos as int) == joined_entries(out@, kept_entries(b@, p as int)),
        decreases b@.len() - p,
    {
        if p >= b.len() {
            return None;
        }
        if b[p] == TAG_END {
            assert(out@ + Seq::<u8>::empty() =~= out@);
            return Some((out, p + 1));
        }
        if b.len() - p < 3 {
            return None;
        }
        let len = (b[p + 1] as usize) * 256 + b[p + 2] as usize;
        if len > b.len() - p - 3 {
            return None;
        }
        let start = p + 3 + len;
        let next = match skip_payload(b, b[p], start, ENTRY_DEPTH) {
            Some(next) => next,
            None => return None,
        };
        if next <= p {
            return None;
        }
        let ghost before = out@;
        let dropped = is_rewritten(b, p + 3, len);
        if !dropped {
            append_bytes(&mut out, vstd::slice::slice_subrange(b, p, next));
        }
        proof {
            let one = if dropped { Seq::<u8>::empty() } else { b@.subrange(p as int, next as int) };
            assert(out@ =~= before + one);
            match kept_entries(b@, next as int) {
                Some((rest, e)) => {
                    assert(before + one + rest =~= before + (one + rest));
                },
                None => {},
            }
        }
        p = next;
    }
}

fn put_int_tag(out: &mut Vec<u8>, name: &str, v: i32)
    requires
        name.spec_bytes().len() <= 2,
    ensures
        final(out)@ == old(out)@ + named_tag(TAG_INT, name, I32.encode(v)),
{
    let ghost start = out@;
    let bytes = name.as_bytes();
    out.push(TAG_INT);
    out.push(0u8);
    out.push(bytes.len() as u8);
    append_bytes(out, bytes);
    I32.write(out, &v);
    assert(out@ =~= start + named_tag(TAG_INT, name, I32.encode(v)));
}

/// Converts one block entity at `p`.
fn convert_block_entity(b: &[u8], p: usize, cx: i32, cz: i32, inverse: &IdMapping, names: &[Vec<u8>])
    -> (r: Option<(Vec<u8>, bool, usize)>)
    requires
        p <= b@.len(),
        forall|i: int| 0 <= i < names@.len() ==> #[trigger] names@[i]@.len() <= 1000,
    ensures
        match block_entity_at(b@, p as int, cx, cz, *inverse, names@) {
            Some((bytes, named, end)) => r matches Some((v, k, e)) && v@ == bytes && k == named && e == end
                && p <= e <= b@.len(),
            None => r is None,
        },
{
    proof { lemma_names(); }
    let (packed, p1) = match read_field(&U8, b, p) {
        Some(found) => found,
        None => return None,
    };
    let (y, p2) = match read_field(&I16, b, p1) {
        Some(found) => found,
        None => return None,
    };
    let (id, p3) = match read_field(&VAR_INT, b, p2) {
        Some(found) => found,
        None => return None,
    };
    if b.len() - p3 < 3 || b[p3] != TAG_COMPOUND {
        return None;
    }
    let name_len = (b[p3 + 1] as usize) * 256 + b[p3 + 2] as usize;
    if name_len > b.len() - p3 - 3 {
        return None;
    }
    let start = p3 + 3 + name_len;
    let (kept, end) = match copy_kept_entries(b, start) {
        Some(found) => found,
        None => return None,
    };
    proof {
        lemma_kept_end(b@, start as int);
    }
    let name_index = if id < 0 {
        None
    } else {
        match inverse.map(id as u32) {
            Some(n) => if (n as usize) < names.len() { Some(n as usize) } else { None },
            None => None,
        }
    };
    match name_index {
        Some(n) => {
            let name = &names[n];
            let mut out: Vec<u8> = Vec::new();
            out.push(TAG_COMPOUND);
            out.push(0u8);
            out.push(0u8);
            append_bytes(&mut out, kept.as_slice());
            let ghost before_id = out@;
            let mut full: Vec<u8> = Vec::new();
            append_bytes(&mut full, "minecraft:".as_bytes());
            append_bytes(&mut full, name.as_slice());
            out.push(TAG_STRING);
            out.push(0u8);
            out.push(2u8);
            append_bytes(&mut out, "id".as_bytes());
            let flen = full.len();
            out.push((flen / 256) as u8);
            out.push((flen % 256) as u8);
            append_bytes(&mut out, full.as_slice());
            proof {
                assert(full@ =~= "minecraft:".spec_bytes() + names@[n as int]@);
                assert(out@ =~= before_id + named_tag(TAG_STRING, "id", nbt_string(full@)));
            }
            let x = #[verifier::truncate] (((cx as i64) * 16 + (packed / 16) as i64) as i32);
            let z = #[verifier::truncate] (((cz as i64) * 16 + (packed % 16) as i64) as i32);
            put_int_tag(&mut out, "x", x);
            put_int_tag(&mut out, "y", y as i32);
            put_int_tag(&mut out, "z", z);
            out.push(TAG_END);
            proof {
                assert(x == block_coordinate(cx, packed as int / 16));
                assert(z == block_coordinate(cz, packed as int % 16));
                let full_name = names@[n as int]@;
                assert(out@ =~= entity_compound(kept@, full_name, x, y as i32, z));
            }
            Some((out, true, end))
        },
        None => Some((Vec::new(), false, end)),
    }
}


/// The list a run of converted entries makes: its count, then the entries.
pub open spec fn with_count(r: Option<(Seq<u8>, nat, int)>) -> Option<(Seq<u8>, int)> {
    match r {
        Some((entries, k, end)) => Some((VAR_INT.encode(k as i32) + entries, end)),
        None => None,
    }
}

/// `front`, `k` entries kept, followed by what `rest` holds.
pub open spec fn joined_list(front: Seq<u8>, k: nat, rest: Option<(Seq<u8>, nat, int)>) -> Option<(Seq<u8>, nat, int)> {
    match rest {
        Some((r, kr, e)) => Some((front + r, k + kr, e)),
        None => None,
    }
}

/// Rewrites the block entity list at `pos` of a 1.18 chunk at chunk `cx`,
/// `cz` into the form below 1.18, `inverse` taking the client's block entity
/// types to the newest registry's and `names` naming those; gives the list
/// and the position after it.
pub fn rewrite_block_entities(b: &[u8], pos: usize, cx: i32, cz: i32, inverse: &IdMapping, names: &[Vec<u8>])
    -> (r: Option<(Vec<u8>, usize)>)
    requires
        pos <= b@.len(),
        forall|i: int| 0 <= i < names@.len() ==> #[trigger] names@[i]@.len() <= 1000,
    ensures
        match block_entity_list(b@, pos as int, cx, cz, *inverse, names@) {
            Some((bytes, end)) => r matches Some((v, e)) && v@ == bytes && e == end && e <= b@.len(),
            None => r is None,
        },
{
    let (count, p0) = match read_field(&VAR_INT, b, pos) {
        Some(found) => found,
        None => return None,
    };
    let n: u32 = if count < 0 { 0 } else { count as u32 };
    let mut entries: Vec<u8> = Vec::new();
    let mut kept: u32 = 0;
    let mut p = p0;
    let mut i: u32 = 0;
    while i < n
        invariant
            i <= n,
            n <= i32::MAX,
            kept <= i,
            p <= b@.len(),
            forall|j: int| 0 <= j < names@.len() ==> #[trigger] names@[j]@.len() <= 1000,
            block_entity_list(b@, pos as int, cx, cz, *inverse, names@)
                == with_count(block_entities_from(b@, p0 as int, n as nat, cx, cz, *inverse, names@)),
            block_entities_from(b@, p0 as int, n as nat, cx, cz, *inverse, names@)
                == joined_list(entries@, kept as nat, block_entities_from(b@, p as int, (n - i) as nat, cx, cz, *inverse, names@)),
        decreases n - i,
    {
        let (one, named, q) = match convert_block_entity(b, p, cx, cz, inverse, names) {
            Some(found) => found,
            None => {
                assert(block_entities_from(b@, p as int, (n - i) as nat, cx, cz, *inverse, names@) is None);
                return None;
            },
        };
        let ghost before = entries@;
        let ghost kept_before = kept;
        append_bytes(&mut entries, one.as_slice());
        if named {
            kept = kept + 1;
        }
        proof {
            let rest_n = (n - i - 1) as nat;
            match block_entities_from(b@, q as int, rest_n, cx, cz, *inverse, names@) {
                Some((r, kr, e)) => {
                    assert(before + one@ + r =~= before + (one@ + r));
                },
                None => {},
            }
        }
        p = q;
        i = i + 1;
    }
    proof {
        assert(entries@ + Seq::<u8>::empty() =~= entries@);
    }
    let mut out: Vec<u8> = Vec::new();
    VAR_INT.write(&mut out, &(kept as i32));
    append_bytes(&mut out, entries.as_slice());
    Some((out, p))
}

} // verus!
