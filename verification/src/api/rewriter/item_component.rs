//! Component payloads in the newest protocol's form put in an older
//! client's: the registry ids they carry renumbered, and the shapes that
//! changed rebuilt where a converter exists.

use vstd::prelude::*;
use crate::api::item::{lemma_template_shorter, template_bytes, template_item_at, Item, ItemView, TEMPLATE_ITEM};
use crate::api::rewriter::item::{
    map_id, mapped_id, native_enchantments, native_enchantments_bytes, shape_floor, spec_shape_floor, stack_version,
    StructuredItemRewriter, FIRST_STRUCTURED,
};
use crate::api::rewriter::item_shape::DataComponent;
use crate::api::types::{WireType, BOOL, I32, I64, STRING, UUID, VAR_INT};
use crate::codec::append_bytes;
use crate::data::mappings::{ComposedMappings, IdMapping};
use crate::nbt::{document_end, skip_document};
use crate::packet::chunk_legacy::{field, read_field, run_count};
use crate::version::JavaMinecraftVersion as V;

verus! {

/// Core writes these as an inline holder and then no inline data, which no
/// version can decode.
pub open spec fn spec_is_empty_holder(component: DataComponent) -> bool {
    component == DataComponent::Trim || component == DataComponent::Instrument
        || component == DataComponent::ProvidesTrimMaterial
}

/// Whether core writes `component` as an inline holder with no data.
pub fn is_empty_holder(component: DataComponent) -> (r: bool)
    ensures
        r == spec_is_empty_holder(component),
{
    match component {
        DataComponent::Trim | DataComponent::Instrument | DataComponent::ProvidesTrimMaterial => true,
        _ => false,
    }
}

/// The 64 bit FNV-1a offset basis.
pub const FNV_OFFSET: u64 = 0xcbf2_9ce4_8422_2325;
/// The 64 bit FNV-1a prime.
pub const FNV_PRIME: u64 = 0x0000_0100_0000_01b3;

/// `a * b` in 64 bits, wrapping.
pub open spec fn mul64(a: u64, b: u64) -> u64 {
    ((a as nat * b as nat) % 0x1_0000_0000_0000_0000) as u64
}

/// The 64 bit FNV-1a hash of `bytes`.
pub open spec fn fnv1a(bytes: Seq<u8>) -> u64
    decreases bytes.len(),
{
    if bytes.len() == 0 {
        FNV_OFFSET
    } else {
        mul64(fnv1a(bytes.drop_last()) ^ (bytes.last() as u64), FNV_PRIME)
    }
}

/// `h` rotated left by 32 bits.
pub open spec fn rotate32(h: u64) -> u64 {
    ((h as nat % 0x1_0000_0000) * 0x1_0000_0000 + h as nat / 0x1_0000_0000) as u64
}

/// The magnitude of `index`.
pub open spec fn magnitude(index: i32) -> u64 {
    if index < 0 { (-(index as int)) as u64 } else { index as u64 }
}

/// A stand in for the modifier uuid 1.20.5 identifies an entry by, as its
/// 128 bits: the FNV-1a hash of the name in the high half, and in the low
/// half that hash rotated by 32 bits plus the index times the FNV prime,
/// wrapping. Stable across sends and distinct within one component, which is
/// all it is for.
pub open spec fn spec_legacy_modifier_uuid(name: Seq<u8>, index: i32) -> u128 {
    let hash = fnv1a(name);
    let low = ((rotate32(hash) as nat + mul64(magnitude(index), FNV_PRIME) as nat) % 0x1_0000_0000_0000_0000) as u64;
    (hash as nat * 0x1_0000_0000_0000_0000 + low as nat) as u128
}

fn mul_wrapping(a: u64, b: u64) -> (r: u64)
    ensures
        r == mul64(a, b),
{
    assert((a as u128) * (b as u128) <= 0xffff_ffff_ffff_ffffu128 * 0xffff_ffff_ffff_ffffu128) by (nonlinear_arith)
        requires a <= 0xffff_ffff_ffff_ffffu64, b <= 0xffff_ffff_ffff_ffffu64;
    let wide: u128 = (a as u128) * (b as u128);
    (wide % 0x1_0000_0000_0000_0000u128) as u64
}

/// The stand in modifier uuid for the entry `index` named `name`.
pub fn legacy_modifier_uuid(name: &[u8], index: i32) -> (r: u128)
    ensures
        r == spec_legacy_modifier_uuid(name@, index),
{
    let mut hash: u64 = FNV_OFFSET;
    let mut i: usize = 0;
    while i < name.len()
        invariant
            i <= name@.len(),
            hash == fnv1a(name@.take(i as int)),
        decreases name@.len() - i,
    {
        proof {
            assert(name@.take(i + 1).drop_last() =~= name@.take(i as int));
        }
        hash = mul_wrapping(hash ^ (name[i] as u64), FNV_PRIME);
        i = i + 1;
    }
    proof {
        assert(name@.take(name@.len() as int) =~= name@);
    }
    let rotated: u64 = (hash % 0x1_0000_0000) * 0x1_0000_0000 + hash / 0x1_0000_0000;
    let size: u64 = if index < 0 { (0 - (index as i64)) as u64 } else { index as u64 };
    let step = mul_wrapping(size, FNV_PRIME);
    let low: u64 = ((rotated as u128 + step as u128) % 0x1_0000_0000_0000_0000u128) as u64;
    (hash as u128) * 0x1_0000_0000_0000_0000u128 + low as u128
}

/// A sound holder at `pos` copied: an id, and after an id of zero the
/// sound's name and an optional range.
pub open spec fn sound_holder_copy(b: Seq<u8>, pos: int) -> Option<(Seq<u8>, int)> {
    match field(VAR_INT, b, pos) {
        Some((id, p1)) => if id != 0 {
            Some((VAR_INT.encode(id), p1))
        } else {
            match field(STRING, b, p1) {
                Some((name, p2)) => match field(BOOL, b, p2) {
                    Some((ranged, p3)) => if !ranged {
                        Some((VAR_INT.encode(id) + STRING.encode(name) + BOOL.encode(ranged), p3))
                    } else {
                        match field(I32, b, p3) {
                            Some((range, p4)) => Some((
                                VAR_INT.encode(id) + STRING.encode(name) + BOOL.encode(ranged) + I32.encode(range),
                                p4,
                            )),
                            None => None,
                        }
                    },
                    None => None,
                },
                None => None,
            }
        },
        None => None,
    }
}

fn copy_sound_holder(b: &[u8], pos: usize, out: &mut Vec<u8>) -> (r: Option<usize>)
    requires
        pos <= b@.len(),
    ensures
        match sound_holder_copy(b@, pos as int) {
            Some((bytes, end)) => r matches Some(q) && q == end && final(out)@ == old(out)@ + bytes && pos <= q <= b@.len(),
            None => r is None,
        },
{
    let (id, p1) = match read_field(&VAR_INT, b, pos) {
        Some(found) => found,
        None => return None,
    };
    let ghost start = out@;
    VAR_INT.write(out, &id);
    if id != 0 {
        return Some(p1);
    }
    let (name, p2) = match read_field(&STRING, b, p1) {
        Some(found) => found,
        None => return None,
    };
    let (ranged, p3) = match read_field(&BOOL, b, p2) {
        Some(found) => found,
        None => return None,
    };
    proof { crate::api::types::lemma_bytes_deep_view(name); }
    if name.len() > crate::codec::MAX_STRING_BYTES {
        proof { assert(false); }
        return None;
    }
    STRING.write(out, &name);
    BOOL.write(out, &ranged);
    if !ranged {
        return Some(p3);
    }
    let (range, p4) = match read_field(&I32, b, p3) {
        Some(found) => found,
        None => return None,
    };
    I32.write(out, &range);
    Some(p4)
}

/// `n` `VarInt`s from `pos` copied after `acc`.
pub open spec fn var_ints_copy(b: Seq<u8>, pos: int, n: nat, acc: Seq<u8>) -> Option<(Seq<u8>, int)>
    decreases n,
{
    if n == 0 {
        if 0 <= pos <= b.len() { Some((acc, pos)) } else { None }
    } else {
        match field(VAR_INT, b, pos) {
            Some((v, p)) => var_ints_copy(b, p, (n - 1) as nat, acc + VAR_INT.encode(v)),
            None => None,
        }
    }
}

/// The number of ids after an id set's count: one less than it, none for a
/// count below one, but for the lowest count, whose count less one wraps
/// round to the highest.
pub open spec fn id_set_len(n: i32) -> nat {
    if n > 0 { (n - 1) as nat } else if n == i32::MIN { i32::MAX as nat } else { 0 }
}

/// An id set at `pos` copied: a count, then a tag name after a zero, else the
/// ids.
pub open spec fn id_set_copy(b: Seq<u8>, pos: int) -> Option<(Seq<u8>, int)> {
    match field(VAR_INT, b, pos) {
        Some((n, p1)) => if n == 0 {
            match field(STRING, b, p1) {
                Some((tag, p2)) => Some((VAR_INT.encode(n) + STRING.encode(tag), p2)),
                None => None,
            }
        } else {
            var_ints_copy(b, p1, id_set_len(n), VAR_INT.encode(n))
        },
        None => None,
    }
}

fn copy_string(b: &[u8], pos: usize, out: &mut Vec<u8>) -> (r: Option<(Vec<u8>, usize)>)
    requires
        pos <= b@.len(),
    ensures
        match field(STRING, b@, pos as int) {
            Some((s, end)) => r matches Some((v, q)) && v@ == s && q == end && final(out)@ == old(out)@ + STRING.encode(s)
                && pos <= q <= b@.len(),
            None => r is None,
        },
{
    let (s, p) = match read_field(&STRING, b, pos) {
        Some(found) => found,
        None => return None,
    };
    proof { crate::api::types::lemma_bytes_deep_view(s); }
    STRING.write(out, &s);
    Some((s, p))
}

fn copy_id_set(b: &[u8], pos: usize, out: &mut Vec<u8>) -> (r: Option<usize>)
    requires
        pos <= b@.len(),
    ensures
        match id_set_copy(b@, pos as int) {
            Some((bytes, end)) => r matches Some(q) && q == end && final(out)@ == old(out)@ + bytes && pos <= q <= b@.len(),
            None => r is None,
        },
{
    let (n, p1) = match read_field(&VAR_INT, b, pos) {
        Some(found) => found,
        None => return None,
    };
    let ghost start = out@;
    VAR_INT.write(out, &n);
    if n == 0 {
        return match copy_string(b, p1, out) {
            Some((_, p2)) => Some(p2),
            None => None,
        };
    }
    let mut left: u64 = if n > 0 { (n - 1) as u64 } else if n == i32::MIN { i32::MAX as u64 } else { 0 };
    let mut p = p1;
    let ghost mut acc: Seq<u8> = VAR_INT.encode(n);
    assert(out@ == start + acc);
    while left > 0
        invariant
            p1 <= p <= b@.len(),
            out@ == start + acc,
            field(VAR_INT, b@, pos as int) == Some((n, p1 as int)),
            n != 0,
            var_ints_copy(b@, p1 as int, id_set_len(n), VAR_INT.encode(n)) == var_ints_copy(b@, p as int, left as nat, acc),
        decreases left,
    {
        let (v, q) = match read_field(&VAR_INT, b, p) {
            Some(found) => found,
            None => return None,
        };
        VAR_INT.write(out, &v);
        proof {
            acc = acc + VAR_INT.encode(v);
        }
        p = q;
        left = left - 1;
    }
    Some(p)
}

/// An optional string at `pos` copied: a flag, and the string where it is set.
pub open spec fn opt_string_copy(b: Seq<u8>, pos: int) -> Option<(Seq<u8>, int)> {
    match field(BOOL, b, pos) {
        Some((present, p1)) => if !present {
            Some((BOOL.encode(present), p1))
        } else {
            match field(STRING, b, p1) {
                Some((v, p2)) => Some((BOOL.encode(present) + STRING.encode(v), p2)),
                None => None,
            }
        },
        None => None,
    }
}

/// `n` flags from `pos` copied after `acc`.
pub open spec fn bools_copy(b: Seq<u8>, pos: int, n: nat, acc: Seq<u8>) -> Option<(Seq<u8>, int)>
    decreases n,
{
    if n == 0 {
        if 0 <= pos <= b.len() { Some((acc, pos)) } else { None }
    } else {
        match field(BOOL, b, pos) {
            Some((v, p)) => bools_copy(b, p, (n - 1) as nat, acc + BOOL.encode(v)),
            None => None,
        }
    }
}

/// An `equippable` in `target`'s layout, a prefix of the newest one: slot,
/// sound, model, camera overlay, allowed entities, then three flags up to
/// 1.21.4 and four from 1.21.5. The saddle slot, new in 1.21.5, cannot be
/// said before it; what follows the flags is not read.
pub open spec fn equippable_bytes(b: Seq<u8>, target: V) -> Option<Seq<u8>> {
    match field(VAR_INT, b, 0) {
        Some((slot, p1)) => if slot == 7 && !target.spec_at_least(V::V_1_21_5) {
            None
        } else {
            match sound_holder_copy(b, p1) {
                Some((sound, p2)) => match opt_string_copy(b, p2) {
                    Some((model, p3)) => match opt_string_copy(b, p3) {
                        Some((overlay, p4)) => match field(BOOL, b, p4) {
                            Some((has_entities, p5)) => match (if has_entities { id_set_copy(b, p5) } else { Some((Seq::<u8>::empty(), p5)) }) {
                                Some((entities, p6)) => match bools_copy(b, p6, if target.spec_at_least(V::V_1_21_5) { 4 } else { 3 }, Seq::empty()) {
                                    Some((flags, _)) => Some(
                                        VAR_INT.encode(slot) + sound + model + overlay + BOOL.encode(has_entities) + entities + flags,
                                    ),
                                    None => None,
                                },
                                None => None,
                            },
                            None => None,
                        },
                        None => None,
                    },
                    None => None,
                },
                None => None,
            }
        },
        None => None,
    }
}

fn copy_opt_string(b: &[u8], pos: usize, out: &mut Vec<u8>) -> (r: Option<usize>)
    requires
        pos <= b@.len(),
    ensures
        match opt_string_copy(b@, pos as int) {
            Some((bytes, end)) => r matches Some(q) && q == end && final(out)@ == old(out)@ + bytes && pos <= q <= b@.len(),
            None => r is None,
        },
{
    let (present, p1) = match read_field(&BOOL, b, pos) {
        Some(found) => found,
        None => return None,
    };
    let ghost start = out@;
    BOOL.write(out, &present);
    if !present {
        return Some(p1);
    }
    match copy_string(b, p1, out) {
        Some((_, p2)) => Some(p2),
        None => None,
    }
}

fn copy_bools(b: &[u8], pos: usize, n: u64, out: &mut Vec<u8>) -> (r: Option<usize>)
    requires
        pos <= b@.len(),
    ensures
        match bools_copy(b@, pos as int, n as nat, Seq::empty()) {
            Some((bytes, end)) => r matches Some(q) && q == end && final(out)@ == old(out)@ + bytes && pos <= q <= b@.len(),
            None => r is None,
        },
{
    let ghost start = out@;
    let ghost mut acc: Seq<u8> = Seq::empty();
    let mut left = n;
    let mut p = pos;
    assert(out@ =~= start + acc);
    while left > 0
        invariant
            pos <= p <= b@.len(),
            out@ == start + acc,
            bools_copy(b@, pos as int, n as nat, Seq::empty()) == bools_copy(b@, p as int, left as nat, acc),
        decreases left,
    {
        let (v, q) = match read_field(&BOOL, b, p) {
            Some(found) => found,
            None => return None,
        };
        BOOL.write(out, &v);
        proof {
            acc = acc + BOOL.encode(v);
        }
        p = q;
        left = left - 1;
    }
    Some(p)
}

/// Rebuilds an `equippable` in `target`'s layout.
pub fn equippable(native: &[u8], target: V) -> (r: Option<Vec<u8>>)
    ensures
        match equippable_bytes(native@, target) {
            Some(bytes) => r matches Some(v) && v@ == bytes,
            None => r is None,
        },
{
    let (slot, p1) = match read_field(&VAR_INT, native, 0) {
        Some(found) => found,
        None => return None,
    };
    if slot == 7 && !target.at_least(V::V_1_21_5) {
        return None;
    }
    let mut out: Vec<u8> = Vec::new();
    VAR_INT.write(&mut out, &slot);
    let p2 = match copy_sound_holder(native, p1, &mut out) {
        Some(p) => p,
        None => return None,
    };
    let p3 = match copy_opt_string(native, p2, &mut out) {
        Some(p) => p,
        None => return None,
    };
    let p4 = match copy_opt_string(native, p3, &mut out) {
        Some(p) => p,
        None => return None,
    };
    let (has_entities, p5) = match read_field(&BOOL, native, p4) {
        Some(found) => found,
        None => return None,
    };
    BOOL.write(&mut out, &has_entities);
    let p6 = if has_entities {
        match copy_id_set(native, p5, &mut out) {
            Some(p) => p,
            None => return None,
        }
    } else {
        p5
    };
    let flags: u64 = if target.at_least(V::V_1_21_5) { 4 } else { 3 };
    match copy_bools(native, p6, flags, &mut out) {
        Some(_) => {},
        None => return None,
    }
    assert(out@ =~= equippable_bytes(native@, target)->Some_0);
    Some(out)
}

/// One property of a profile at `pos` copied: a name, a value and an
/// optional signature.
pub open spec fn property_copy(b: Seq<u8>, pos: int) -> Option<(Seq<u8>, int)> {
    match field(STRING, b, pos) {
        Some((name, p1)) => match field(STRING, b, p1) {
            Some((value, p2)) => match opt_string_copy(b, p2) {
                Some((signature, p3)) => Some((STRING.encode(name) + STRING.encode(value) + signature, p3)),
                None => None,
            },
            None => None,
        },
        None => None,
    }
}

/// The properties of a profile from `pos`, `n` of them, copied after `acc`.
pub open spec fn properties_copy(b: Seq<u8>, pos: int, n: nat, acc: Seq<u8>) -> Option<(Seq<u8>, int)>
    decreases n,
{
    if n == 0 {
        if 0 <= pos <= b.len() { Some((acc, pos)) } else { None }
    } else {
        match property_copy(b, pos) {
            Some((entry, p)) => properties_copy(b, p, (n - 1) as nat, acc + entry),
            None => None,
        }
    }
}

fn copy_property(b: &[u8], pos: usize, out: &mut Vec<u8>) -> (r: Option<usize>)
    requires
        pos <= b@.len(),
    ensures
        match property_copy(b@, pos as int) {
            Some((bytes, end)) => r matches Some(q) && q == end && final(out)@ == old(out)@ + bytes && pos <= q <= b@.len(),
            None => r is None,
        },
{
    let ghost start = out@;
    let (name, q1) = match copy_string(b, pos, out) {
        Some(found) => found,
        None => return None,
    };
    let (value, q2) = match copy_string(b, q1, out) {
        Some(found) => found,
        None => return None,
    };
    let q3 = match copy_opt_string(b, q2, out) {
        Some(q) => q,
        None => return None,
    };
    assert(out@ =~= start + property_copy(b@, pos as int)->Some_0.0);
    Some(q3)
}

/// A profile as clients before 1.21.9 read it: an optional name, an
/// optional id and the properties, without the kind in front.
pub open spec fn profile_bytes(b: Seq<u8>) -> Option<Seq<u8>> {
    match field(VAR_INT, b, 0) {
        Some((_, p1)) => match opt_string_copy(b, p1) {
            Some((name, p2)) => match field(BOOL, b, p2) {
                Some((has_id, p3)) => match (if has_id {
                    match field(UUID, b, p3) {
                        Some((id, p4)) => Some((UUID.encode(id), p4)),
                        None => None,
                    }
                } else {
                    Some((Seq::<u8>::empty(), p3))
                }) {
                    Some((id, p4)) => match field(VAR_INT, b, p4) {
                        Some((count, p5)) => match properties_copy(b, p5, run_count(count), Seq::empty()) {
                            Some((properties, _)) => Some(
                                name + BOOL.encode(has_id) + id + VAR_INT.encode(count) + properties,
                            ),
                            None => None,
                        },
                        None => None,
                    },
                    None => None,
                },
                None => None,
            },
            None => None,
        },
        None => None,
    }
}

/// Rebuilds a profile as clients before 1.21.9 read it.
pub fn profile(native: &[u8]) -> (r: Option<Vec<u8>>)
    ensures
        match profile_bytes(native@) {
            Some(bytes) => r matches Some(v) && v@ == bytes,
            None => r is None,
        },
{
    let (_, p1) = match read_field(&VAR_INT, native, 0) {
        Some(found) => found,
        None => return None,
    };
    let mut out: Vec<u8> = Vec::new();
    let p2 = match copy_opt_string(native, p1, &mut out) {
        Some(p) => p,
        None => return None,
    };
    let (has_id, p3) = match read_field(&BOOL, native, p2) {
        Some(found) => found,
        None => return None,
    };
    BOOL.write(&mut out, &has_id);
    let p4 = if has_id {
        match read_field(&UUID, native, p3) {
            Some((id, p4)) => {
                UUID.write(&mut out, &id);
                p4
            },
            None => return None,
        }
    } else {
        p3
    };
    let (count, p5) = match read_field(&VAR_INT, native, p4) {
        Some(found) => found,
        None => return None,
    };
    VAR_INT.write(&mut out, &count);
    let ghost start = out@;
    let ghost mut acc: Seq<u8> = Seq::empty();
    let mut left: i32 = if count < 0 { 0 } else { count };
    let mut p = p5;
    assert(out@ =~= start + acc);
    assert(profile_bytes(native@) == match properties_copy(native@, p5 as int, run_count(count), Seq::empty()) {
        Some((properties, _)) => Some(start + properties),
        None => None,
    });
    while left > 0
        invariant
            p5 <= p <= native@.len(),
            left >= 0,
            out@ == start + acc,
            profile_bytes(native@) == match properties_copy(native@, p5 as int, run_count(count), Seq::empty()) {
                Some((properties, _)) => Some(start + properties),
                None => None,
            },
            properties_copy(native@, p5 as int, run_count(count), Seq::empty())
                == properties_copy(native@, p as int, left as nat, acc),
        decreases left,
    {
        let ghost before = out@;
        let q = match copy_property(native, p, &mut out) {
            Some(q) => q,
            None => return None,
        };
        proof {
            acc = acc + property_copy(native@, p as int)->Some_0.0;
        }
        p = q;
        left = left - 1;
    }
    assert(out@ =~= profile_bytes(native@)->Some_0);
    Some(out)
}

/// The display of an attribute entry at `pos`: its kind, and after a kind of
/// two an NBT document in the newest protocol's form. Gives the bytes it
/// takes, to be copied or dropped.
pub open spec fn display_end(b: Seq<u8>, pos: int) -> Option<(i32, int)> {
    match field(VAR_INT, b, pos) {
        Some((kind, p1)) => if kind == 2 {
            match document_end(b, p1) {
                Some(p2) => Some((kind, p2)),
                None => None,
            }
        } else {
            Some((kind, p1))
        },
        None => None,
    }
}

/// An attribute modifier slot for `target`: the saddle slot, new in 1.21.5,
/// becomes the body slot before it.
pub open spec fn modifier_slot(slot: i32, target: V) -> i32 {
    if slot == 10 && !target.spec_at_least(V::V_1_21_5) { 9 } else { slot }
}

/// One attribute modifier at `pos`, the `index`th, in `target`'s layout:
/// the attribute, a stand in uuid up to 1.20.5, the name, amount, operation
/// and slot; its display is read past.
pub open spec fn modifier_copy(b: Seq<u8>, pos: int, index: i32, target: V) -> Option<(Seq<u8>, int)> {
    match field(VAR_INT, b, pos) {
        Some((attribute, p1)) => match field(STRING, b, p1) {
            Some((name, p2)) => match field(I64, b, p2) {
                Some((amount, p3)) => match field(VAR_INT, b, p3) {
                    Some((operation, p4)) => match field(VAR_INT, b, p4) {
                        Some((slot, p5)) => match display_end(b, p5) {
                            Some((_, p6)) => Some((
                                VAR_INT.encode(attribute)
                                    + (if target.spec_at_least(V::V_1_21) {
                                        Seq::<u8>::empty()
                                    } else {
                                        UUID.encode(spec_legacy_modifier_uuid(name, index))
                                    })
                                    + STRING.encode(name) + I64.encode(amount) + VAR_INT.encode(operation)
                                    + VAR_INT.encode(modifier_slot(slot, target)),
                                p6,
                            )),
                            None => None,
                        },
                        None => None,
                    },
                    None => None,
                },
                None => None,
            },
            None => None,
        },
        None => None,
    }
}

/// The modifiers from `pos`, the `index`th on, `n` of them, copied after `acc`.
pub open spec fn modifiers_copy(b: Seq<u8>, pos: int, index: i32, n: nat, target: V, acc: Seq<u8>) -> Option<Seq<u8>>
    decreases n,
{
    if n == 0 {
        Some(acc)
    } else {
        match modifier_copy(b, pos, index, target) {
            Some((entry, p)) => if index < i32::MAX {
                modifiers_copy(b, p, (index + 1) as i32, (n - 1) as nat, target, acc + entry)
            } else {
                None
            },
            None => None,
        }
    }
}

/// `attribute_modifiers` in `target`'s layout: the entries, and after them a
/// tooltip flag up to 1.21.4, or 1.21.11's display for the whole component.
pub open spec fn attribute_modifiers_bytes(b: Seq<u8>, target: V) -> Option<Seq<u8>> {
    match field(VAR_INT, b, 0) {
        Some((count, p1)) => match modifiers_copy(b, p1, 0, run_count(count), target, VAR_INT.encode(count)) {
            Some(body) => Some(
                body + if !target.spec_at_least(V::V_1_21_5) {
                    seq![1u8]
                } else if target == V::V_1_21_11 {
                    VAR_INT.encode(0)
                } else {
                    Seq::empty()
                },
            ),
            None => None,
        },
        None => None,
    }
}

fn skip_display(b: &[u8], pos: usize) -> (r: Option<usize>)
    requires
        pos <= b@.len(),
    ensures
        match display_end(b@, pos as int) {
            Some((_, end)) => r matches Some(q) && q == end && pos <= q <= b@.len(),
            None => r is None,
        },
{
    let (kind, p1) = match read_field(&VAR_INT, b, pos) {
        Some(found) => found,
        None => return None,
    };
    if kind == 2 {
        skip_document(b, p1)
    } else {
        Some(p1)
    }
}

fn copy_modifier(b: &[u8], pos: usize, index: i32, target: V, out: &mut Vec<u8>) -> (r: Option<usize>)
    requires
        pos <= b@.len(),
    ensures
        match modifier_copy(b@, pos as int, index, target) {
            Some((bytes, end)) => r matches Some(q) && q == end && final(out)@ == old(out)@ + bytes && pos <= q <= b@.len(),
            None => r is None,
        },
{
    let ghost start = out@;
    let (attribute, p1) = match read_field(&VAR_INT, b, pos) {
        Some(found) => found,
        None => return None,
    };
    let (name, p2) = match read_field(&STRING, b, p1) {
        Some(found) => found,
        None => return None,
    };
    proof { crate::api::types::lemma_bytes_deep_view(name); }
    let (amount, p3) = match read_field(&I64, b, p2) {
        Some(found) => found,
        None => return None,
    };
    let (operation, p4) = match read_field(&VAR_INT, b, p3) {
        Some(found) => found,
        None => return None,
    };
    let (slot, p5) = match read_field(&VAR_INT, b, p4) {
        Some(found) => found,
        None => return None,
    };
    let p6 = match skip_display(b, p5) {
        Some(p) => p,
        None => return None,
    };
    VAR_INT.write(out, &attribute);
    if !target.at_least(V::V_1_21) {
        UUID.write(out, &legacy_modifier_uuid(name.as_slice(), index));
    }
    STRING.write(out, &name);
    I64.write(out, &amount);
    VAR_INT.write(out, &operation);
    let slot: i32 = if slot == 10 && !target.at_least(V::V_1_21_5) { 9 } else { slot };
    VAR_INT.write(out, &slot);
    assert(out@ =~= start + modifier_copy(b@, pos as int, index, target)->Some_0.0);
    Some(p6)
}

/// Rebuilds `attribute_modifiers` in `target`'s layout.
pub fn attribute_modifiers(native: &[u8], target: V) -> (r: Option<Vec<u8>>)
    ensures
        match attribute_modifiers_bytes(native@, target) {
            Some(bytes) => r matches Some(v) && v@ == bytes,
            None => r is None,
        },
{
    let (count, p1) = match read_field(&VAR_INT, native, 0) {
        Some(found) => found,
        None => return None,
    };
    let mut out: Vec<u8> = Vec::new();
    VAR_INT.write(&mut out, &count);
    let n: i32 = if count < 0 { 0 } else { count };
    let mut index: i32 = 0;
    let mut p = p1;
    while index < n
        invariant
            p1 <= p <= native@.len(),
            0 <= index <= n,
            n as nat == run_count(count),
            field(VAR_INT, native@, 0) == Some((count, p1 as int)),
            modifiers_copy(native@, p1 as int, 0, run_count(count), target, VAR_INT.encode(count))
                == modifiers_copy(native@, p as int, index, (n - index) as nat, target, out@),
        decreases n - index,
    {
        let q = match copy_modifier(native, p, index, target, &mut out) {
            Some(q) => q,
            None => return None,
        };
        p = q;
        index = index + 1;
    }
    if !target.at_least(V::V_1_21_5) {
        out.push(1);
    } else if target == V::V_1_21_11 {
        VAR_INT.write(&mut out, &0);
    }
    assert(out@ =~= attribute_modifiers_bytes(native@, target)->Some_0);
    Some(out)
}

/// One attribute entry at `pos` with its attribute renumbered through
/// `attributes`: the renumbered id and the rest of the entry as written,
/// `None` for the id where the client lacks the attribute.
pub open spec fn attribute_entry(b: Seq<u8>, pos: int, attributes: IdMapping) -> Option<(Option<i32>, Seq<u8>, int)> {
    match field(VAR_INT, b, pos) {
        Some((attribute, p1)) => match field(STRING, b, p1) {
            Some((name, p2)) => match field(I64, b, p2) {
                Some((amount, p3)) => match field(VAR_INT, b, p3) {
                    Some((operation, p4)) => match field(VAR_INT, b, p4) {
                        Some((slot, p5)) => match display_end(b, p5) {
                            Some((kind, p6)) => Some((
                                map_id(attributes, attribute),
                                STRING.encode(name) + I64.encode(amount) + VAR_INT.encode(operation) + VAR_INT.encode(slot)
                                    + VAR_INT.encode(kind) + if kind == 2 {
                                        b.subrange(field(VAR_INT, b, p5)->Some_0.1, p6)
                                    } else {
                                        Seq::empty()
                                    },
                                p6,
                            )),
                            None => None,
                        },
                        None => None,
                    },
                    None => None,
                },
                None => None,
            },
            None => None,
        },
        None => None,
    }
}

/// The attribute entries from `pos`, `n` of them, the kept ones counted in
/// `kept` and written after `body`; an entry whose attribute the client
/// lacks is left out.
pub open spec fn attribute_entries_copy(b: Seq<u8>, pos: int, n: nat, attributes: IdMapping, kept: nat, body: Seq<u8>)
    -> Option<(nat, Seq<u8>)>
    decreases n,
{
    if n == 0 {
        Some((kept, body))
    } else {
        match attribute_entry(b, pos, attributes) {
            Some((Some(m), entry, p)) => attribute_entries_copy(b, p, (n - 1) as nat, attributes, kept + 1, body + VAR_INT.encode(m) + entry),
            Some((None, _, p)) => attribute_entries_copy(b, p, (n - 1) as nat, attributes, kept, body),
            None => None,
        }
    }
}

/// `attribute_modifiers` in the newest layout with every attribute
/// renumbered through `attributes` and the entries the client lacks left out.
pub open spec fn attribute_ids_bytes(b: Seq<u8>, attributes: IdMapping) -> Option<Seq<u8>> {
    match field(VAR_INT, b, 0) {
        Some((count, p1)) => match attribute_entries_copy(b, p1, run_count(count), attributes, 0, Seq::empty()) {
            Some((kept, body)) => Some(VAR_INT.encode(kept as i32) + body),
            None => None,
        },
        None => None,
    }
}

fn read_attribute_entry(b: &[u8], pos: usize, attributes: &IdMapping) -> (r: Option<(Option<i32>, Vec<u8>, usize)>)
    requires
        pos <= b@.len(),
    ensures
        match attribute_entry(b@, pos as int, *attributes) {
            Some((m, bytes, end)) => r matches Some((x, v, q)) && x == m && v@ == bytes && q == end && pos <= q <= b@.len(),
            None => r is None,
        },
{
    let (attribute, p1) = match read_field(&VAR_INT, b, pos) {
        Some(found) => found,
        None => return None,
    };
    let (name, p2) = match read_field(&STRING, b, p1) {
        Some(found) => found,
        None => return None,
    };
    proof { crate::api::types::lemma_bytes_deep_view(name); }
    let (amount, p3) = match read_field(&I64, b, p2) {
        Some(found) => found,
        None => return None,
    };
    let (operation, p4) = match read_field(&VAR_INT, b, p3) {
        Some(found) => found,
        None => return None,
    };
    let (slot, p5) = match read_field(&VAR_INT, b, p4) {
        Some(found) => found,
        None => return None,
    };
    let (kind, p6) = match read_field(&VAR_INT, b, p5) {
        Some(found) => found,
        None => return None,
    };
    let mut entry: Vec<u8> = Vec::new();
    STRING.write(&mut entry, &name);
    I64.write(&mut entry, &amount);
    VAR_INT.write(&mut entry, &operation);
    VAR_INT.write(&mut entry, &slot);
    VAR_INT.write(&mut entry, &kind);
    let end = if kind == 2 {
        let e = match skip_document(b, p6) {
            Some(e) => e,
            None => return None,
        };
        append_bytes(&mut entry, vstd::slice::slice_subrange(b, p6, e));
        e
    } else {
        p6
    };
    assert(entry@ =~= attribute_entry(b@, pos as int, *attributes)->Some_0.1);
    Some((mapped_id(attributes, attribute), entry, end))
}

/// Renumbers the attributes of an `attribute_modifiers` payload in the
/// newest layout, leaving out the entries whose attribute the client lacks.
pub fn attribute_ids(native: &[u8], attributes: &IdMapping) -> (r: Option<Vec<u8>>)
    ensures
        match attribute_ids_bytes(native@, *attributes) {
            Some(bytes) => r matches Some(v) && v@ == bytes,
            None => r is None,
        },
{
    let (count, p1) = match read_field(&VAR_INT, native, 0) {
        Some(found) => found,
        None => return None,
    };
    let n: i32 = if count < 0 { 0 } else { count };
    let mut left: i32 = n;
    let mut p = p1;
    let mut kept: i32 = 0;
    let mut body: Vec<u8> = Vec::new();
    while left > 0
        invariant
            p1 <= p <= native@.len(),
            0 <= left <= n,
            0 <= kept <= n - left,
            n as nat == run_count(count),
            field(VAR_INT, native@, 0) == Some((count, p1 as int)),
            attribute_entries_copy(native@, p1 as int, run_count(count), *attributes, 0, Seq::empty())
                == attribute_entries_copy(native@, p as int, left as nat, *attributes, kept as nat, body@),
        decreases left,
    {
        let (mapped, entry, q) = match read_attribute_entry(native, p, attributes) {
            Some(found) => found,
            None => return None,
        };
        match mapped {
            Some(m) => {
                VAR_INT.write(&mut body, &m);
                append_bytes(&mut body, entry.as_slice());
                kept = kept + 1;
            },
            None => {},
        }
        p = q;
        left = left - 1;
    }
    let mut out: Vec<u8> = Vec::new();
    VAR_INT.write(&mut out, &kept);
    append_bytes(&mut out, body.as_slice());
    Some(out)
}

/// A payload that starts with a registry id, renumbered through `mapping`:
/// an id the client lacks becomes 0, and the rest is copied.
pub open spec fn leading_id_bytes(b: Seq<u8>, mapping: IdMapping) -> Option<Seq<u8>> {
    match field(VAR_INT, b, 0) {
        Some((id, p)) => Some(
            VAR_INT.encode(match map_id(mapping, id) {
                Some(m) => m,
                None => 0,
            }) + b.subrange(p, b.len() as int),
        ),
        None => None,
    }
}

/// Renumbers the registry id a payload starts with.
pub fn leading_id(native: &[u8], mapping: &IdMapping) -> (r: Option<Vec<u8>>)
    ensures
        match leading_id_bytes(native@, *mapping) {
            Some(bytes) => r matches Some(v) && v@ == bytes,
            None => r is None,
        },
{
    let (id, p) = match read_field(&VAR_INT, native, 0) {
        Some(found) => found,
        None => return None,
    };
    let m = match mapped_id(mapping, id) {
        Some(m) => m,
        None => 0,
    };
    let mut out: Vec<u8> = Vec::new();
    VAR_INT.write(&mut out, &m);
    append_bytes(&mut out, vstd::slice::slice_subrange(native, p, native.len()));
    Some(out)
}

/// A registry holder renumbered through `mapping`: zero is inline data and
/// copied as it stands; any other value is the id plus one, and an id the
/// client lacks becomes 0. The arithmetic wraps, as the release build does.
pub open spec fn holder_id_bytes(b: Seq<u8>, mapping: IdMapping) -> Option<Seq<u8>> {
    match field(VAR_INT, b, 0) {
        Some((raw, p)) => if raw == 0 {
            Some(b)
        } else {
            let id = if raw == i32::MIN { i32::MAX } else { (raw - 1) as i32 };
            let holder = match map_id(mapping, id) {
                Some(m) => if m == i32::MAX { i32::MIN } else { (m + 1) as i32 },
                None => 0,
            };
            Some(VAR_INT.encode(holder) + b.subrange(p, b.len() as int))
        },
        None => None,
    }
}

/// Renumbers a registry holder.
pub fn holder_id(native: &[u8], mapping: &IdMapping) -> (r: Option<Vec<u8>>)
    ensures
        match holder_id_bytes(native@, *mapping) {
            Some(bytes) => r matches Some(v) && v@ == bytes,
            None => r is None,
        },
{
    let (raw, p) = match read_field(&VAR_INT, native, 0) {
        Some(found) => found,
        None => return None,
    };
    if raw == 0 {
        let mut copy: Vec<u8> = Vec::new();
        append_bytes(&mut copy, native);
        return Some(copy);
    }
    let id: i32 = if raw == i32::MIN { i32::MAX } else { raw - 1 };
    let holder: i32 = match mapped_id(mapping, id) {
        Some(m) => if m == i32::MAX { i32::MIN } else { m + 1 },
        None => 0,
    };
    let mut out: Vec<u8> = Vec::new();
    VAR_INT.write(&mut out, &holder);
    append_bytes(&mut out, vstd::slice::slice_subrange(native, p, native.len()));
    Some(out)
}

/// A payload in the newest shape of `component` rebuilt in the shape
/// `target` reads, where a converter exists: `unbreakable` becomes a true
/// flag, the enchantment lists and dyed colour gain a tooltip flag, a tool
/// loses its last flag, a jukebox song from 1.21 gains its tooltip flags,
/// entity and block entity data lose their type, and attribute modifiers,
/// equippables and profiles are rebuilt. `None` for every other component
/// whose shape moved, and for a payload that does not read.
pub open spec fn adapted(component: DataComponent, native: Seq<u8>, target: V) -> Option<Seq<u8>> {
    match component {
        DataComponent::Unbreakable => Some(seq![1u8]),
        DataComponent::Enchantments | DataComponent::StoredEnchantments | DataComponent::DyedColor =>
            Some(native.push(1u8)),
        DataComponent::Tool => Some(if native.len() == 0 { native } else { native.drop_last() }),
        DataComponent::JukeboxPlayable => if target.spec_at_least(V::V_1_21) {
            Some(seq![1u8] + native + if target.spec_at_least(V::V_1_21_5) { Seq::<u8>::empty() } else { seq![1u8] })
        } else {
            None
        },
        DataComponent::AttributeModifiers => attribute_modifiers_bytes(native, target),
        DataComponent::Equippable => equippable_bytes(native, target),
        DataComponent::EntityData | DataComponent::BlockEntityData => match field(VAR_INT, native, 0) {
            Some((_, p)) => Some(native.subrange(p, native.len() as int)),
            None => None,
        },
        DataComponent::Profile => profile_bytes(native),
        _ => None,
    }
}

/// Rebuilds a payload in the newest shape of `component` in the shape
/// `target` reads.
pub fn adapt(component: DataComponent, native: Vec<u8>, target: V) -> (r: Option<Vec<u8>>)
    ensures
        match adapted(component, native@, target) {
            Some(bytes) => r matches Some(v) && v@ == bytes,
            None => r is None,
        },
{
    match component {
        DataComponent::Unbreakable => {
            let mut out: Vec<u8> = Vec::new();
            out.push(1);
            assert(out@ =~= seq![1u8]);
            Some(out)
        },
        DataComponent::Enchantments | DataComponent::StoredEnchantments | DataComponent::DyedColor => {
            let mut out = native;
            out.push(1);
            Some(out)
        },
        DataComponent::Tool => {
            let mut out = native;
            if out.len() > 0 {
                out.pop();
            }
            Some(out)
        },
        DataComponent::JukeboxPlayable => {
            if !target.at_least(V::V_1_21) {
                return None;
            }
            let mut out: Vec<u8> = Vec::new();
            out.push(1);
            append_bytes(&mut out, native.as_slice());
            if !target.at_least(V::V_1_21_5) {
                out.push(1);
            }
            assert(out@ =~= adapted(component, native@, target)->Some_0);
            Some(out)
        },
        DataComponent::AttributeModifiers => attribute_modifiers(native.as_slice(), target),
        DataComponent::Equippable => equippable(native.as_slice(), target),
        DataComponent::EntityData | DataComponent::BlockEntityData => {
            let (_, p) = match read_field(&VAR_INT, native.as_slice(), 0) {
                Some(found) => found,
                None => return None,
            };
            let mut out: Vec<u8> = Vec::new();
            append_bytes(&mut out, vstd::slice::slice_subrange(native.as_slice(), p, native.len()));
            Some(out)
        },
        DataComponent::Profile => profile(native.as_slice()),
        _ => None,
    }
}


// ---------------------------------------------------------------------------
// A payload in the newest form for an older client
// ---------------------------------------------------------------------------

/// `native`, a payload of `component` in the newest form, with the registry
/// ids it carries renumbered for `target`: enchantments, attributes, the
/// entity or block entity type that leads entity data, a painting variant,
/// and the stacks a bundle or container holds. Every other payload is kept.
pub open spec fn nested_ids(reg: Seq<DataComponent>, component: DataComponent, native: Seq<u8>, target: V,
    ids: ComposedMappings) -> Option<Seq<u8>>
    decreases native.len(), 4nat, 0nat,
{
    match component {
        DataComponent::Enchantments | DataComponent::StoredEnchantments =>
            native_enchantments_bytes(native, ids.enchantments),
        DataComponent::AttributeModifiers => attribute_ids_bytes(native, ids.attributes),
        DataComponent::EntityData => leading_id_bytes(native, ids.entities),
        DataComponent::BlockEntityData => leading_id_bytes(native, ids.blockentities),
        DataComponent::PaintingVariant => holder_id_bytes(native, ids.paintings),
        DataComponent::BundleContents => nested_stacks_bytes(reg, native, target, ids, false),
        DataComponent::Container => nested_stacks_bytes(reg, native, target, ids, true),
        _ => Some(native),
    }
}

/// A list of nested stacks with each stack put in `target`'s form: the count
/// as it stands, then the stacks, each after a present flag where `flagged`.
/// A negative count lists nothing; what follows the stacks is not read.
pub open spec fn nested_stacks_bytes(reg: Seq<DataComponent>, native: Seq<u8>, target: V, ids: ComposedMappings,
    flagged: bool) -> Option<Seq<u8>>
    decreases native.len(), 3nat, 0nat,
{
    match field(VAR_INT, native, 0) {
        Some((count, p)) => stacks_from(reg, native, p, run_count(count), target, ids, flagged, VAR_INT.encode(count)),
        None => None,
    }
}

/// A nested stack in `target`'s form. A version that carries stacks as NBT
/// has no nested form of one, which leaves the placeholder the writer puts
/// for a stack that is not structured.
pub open spec fn nested_stack(reg: Seq<DataComponent>, v: ItemView, bound: nat, target: V, ids: ComposedMappings)
    -> ItemView
    decreases bound, 1nat, 1nat,
{
    if target.spec_at_least(FIRST_STRUCTURED) { stack_version(reg, v, target, ids, bound) } else { ItemView::Empty }
}

/// `n` nested stacks from `pos` in `b`, each in `target`'s form, after `acc`.
pub open spec fn stacks_from(reg: Seq<DataComponent>, b: Seq<u8>, pos: int, n: nat, target: V,
    ids: ComposedMappings, flagged: bool, acc: Seq<u8>) -> Option<Seq<u8>>
    decreases b.len(), 2nat, n,
{
    if n == 0 {
        Some(acc)
    } else {
        match (if flagged { field(BOOL, b, pos) } else { if 0 <= pos <= b.len() { Some((true, pos)) } else { None } }) {
            Some((present, p1)) => {
                let flag = if flagged { BOOL.encode(present) } else { Seq::<u8>::empty() };
                if !present {
                    stacks_from(reg, b, p1, (n - 1) as nat, target, ids, flagged, acc + flag)
                } else {
                    match template_item_at(reg, b, p1) {
                        Some((v, p2)) => stacks_from(
                            reg,
                            b,
                            p2,
                            (n - 1) as nat,
                            target,
                            ids,
                            flagged,
                            acc + flag + template_bytes(nested_stack(reg, v, b.len(), target, ids)),
                        ),
                        None => None,
                    }
                }
            },
            None => None,
        }
    }
}

/// The payload `native` of `component` in the shape `target` reads: its ids
/// renumbered, then kept as it is where `target` reads the newest shape,
/// dropped where it is an inline holder without data, which no version
/// decodes, and rebuilt by `adapted` otherwise. `None` where it cannot be
/// expressed for `target`.
pub open spec fn component_version(reg: Seq<DataComponent>, component: DataComponent, native: Seq<u8>, target: V,
    ids: ComposedMappings) -> Option<Seq<u8>>
    decreases native.len(), 5nat, 0nat,
{
    match nested_ids(reg, component, native, target, ids) {
        Some(mapped) => if target.spec_at_least(V::V_26_3) {
            Some(mapped)
        } else if spec_is_empty_holder(component) {
            None
        } else if target.spec_at_least(spec_shape_floor(component)) {
            Some(mapped)
        } else {
            adapted(component, mapped, target)
        },
        None => None,
    }
}

/// Renumbers the registry ids nested in a payload for `target`.
fn map_nested_ids(reg: &[DataComponent], component: DataComponent, native: &[u8], target: V, ids: &ComposedMappings)
    -> (r: Option<Vec<u8>>)
    ensures
        match nested_ids(reg@, component, native@, target, *ids) {
            Some(bytes) => r matches Some(v) && v@ == bytes,
            None => r is None,
        },
    decreases native@.len(), 4nat, 0nat,
{
    match component {
        DataComponent::Enchantments | DataComponent::StoredEnchantments => native_enchantments(native, &ids.enchantments),
        DataComponent::AttributeModifiers => attribute_ids(native, &ids.attributes),
        DataComponent::EntityData => leading_id(native, &ids.entities),
        DataComponent::BlockEntityData => leading_id(native, &ids.blockentities),
        DataComponent::PaintingVariant => holder_id(native, &ids.paintings),
        DataComponent::BundleContents => nested_stacks(reg, native, target, ids, false),
        DataComponent::Container => nested_stacks(reg, native, target, ids, true),
        _ => {
            let mut out: Vec<u8> = Vec::new();
            append_bytes(&mut out, native);
            Some(out)
        },
    }
}

/// Puts each stack of a bundle's or container's list in `target`'s form.
fn nested_stacks(reg: &[DataComponent], native: &[u8], target: V, ids: &ComposedMappings, flagged: bool)
    -> (r: Option<Vec<u8>>)
    ensures
        match nested_stacks_bytes(reg@, native@, target, *ids, flagged) {
            Some(bytes) => r matches Some(v) && v@ == bytes,
            None => r is None,
        },
    decreases native@.len(), 3nat, 0nat,
{
    let (count, p) = match read_field(&VAR_INT, native, 0) {
        Some(found) => found,
        None => return None,
    };
    let mut out: Vec<u8> = Vec::new();
    VAR_INT.write(&mut out, &count);
    let mut left: i32 = if count < 0 { 0 } else { count };
    let mut pos: usize = p;
    while left > 0
        invariant
            pos <= native@.len(),
            0 <= left,
            nested_stacks_bytes(reg@, native@, target, *ids, flagged)
                == stacks_from(reg@, native@, pos as int, left as nat, target, *ids, flagged, out@),
        decreases left,
    {
        let ghost before = out@;
        let present: bool;
        let p1: usize;
        if flagged {
            match read_field(&BOOL, native, pos) {
                Some((found, q)) => {
                    present = found;
                    p1 = q;
                },
                None => return None,
            }
            BOOL.write(&mut out, &present);
        } else {
            present = true;
            p1 = pos;
        }
        let ghost flag = if flagged { BOOL.encode(present) } else { Seq::<u8>::empty() };
        assert(out@ == before + flag);
        if present {
            let (template, p2) = match TEMPLATE_ITEM.read(reg, native, p1) {
                Some(found) => found,
                None => return None,
            };
            let ghost marked = out@;
            if target.at_least(FIRST_STRUCTURED) {
                proof {
                    lemma_template_shorter(reg@, native@, p1 as int);
                }
                let rewritten = StructuredItemRewriter::version_within(reg, &template, target, ids, Ghost(native@.len()));
                TEMPLATE_ITEM.write(&mut out, &rewritten);
            } else {
                TEMPLATE_ITEM.write(&mut out, &Item::Empty);
            }
            assert(out@ == marked + template_bytes(nested_stack(reg@, template@, native@.len(), target, *ids)));
            pos = p2;
        } else {
            pos = p1;
        }
        left = left - 1;
    }
    Some(out)
}

/// The payload `native` of `component`, in the newest form, in the shape
/// `target` reads; `None` where it cannot be expressed there.
pub fn to_version(reg: &[DataComponent], component: DataComponent, native: &[u8], target: V, ids: &ComposedMappings)
    -> (r: Option<Vec<u8>>)
    ensures
        match component_version(reg@, component, native@, target, *ids) {
            Some(bytes) => r matches Some(v) && v@ == bytes,
            None => r is None,
        },
    decreases native@.len(), 5nat, 0nat,
{
    let mapped = match map_nested_ids(reg, component, native, target, ids) {
        Some(found) => found,
        None => return None,
    };
    if target.at_least(V::V_26_3) {
        return Some(mapped);
    }
    if is_empty_holder(component) {
        return None;
    }
    if target.at_least(shape_floor(component)) {
        return Some(mapped);
    }
    adapt(component, mapped, target)
}

} // verus!
