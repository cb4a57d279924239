//! Stacks a client sends in its own layout: measuring the component payloads
//! whose older shape nothing here rebuilds, and renumbering enchantments.

use vstd::prelude::*;
use crate::api::rewriter::item_shape::{
    DataComponent, component_shape, shape, shape_end, skip, fixed_end, var_int_field, bool_field,
    str_end, var_ints_end, sound_end, known_component, var_int_end, skip_fixed, skip_str,
    skip_var_ints, skip_sound,
};
use crate::codec::{read_bool, var_int_bytes, write_var_int};
use crate::api::TranslateError;
use crate::api::item::{
    component_len, component_payload_len, count_fits, ids_at, item_bytes, nbt_item_at, read_ids, read_nbt_item,
    read_structured, structured_item_at, ComponentView, Item, ItemComponent, ItemT, ItemView,
};
use vstd::slice::slice_subrange;
use crate::api::types::FixedBytesT;
use crate::api::wrapper::{PacketWrapper, WrapperView};
use crate::api::rewriter::item_component::{self, component_version};
use crate::codec::append_bytes;
use crate::data::mappings::{ComposedMappings, IdMapping};
use crate::nbt::{as_int, document_end, skip_document};
use crate::packet::chunk_legacy::{named_document_end, skip_named_document, run_count};
use crate::api::rewriter::item_nbt::{components_to_nbt, legacy_tag, nbt_components, nbt_to_components};
use crate::version::JavaMinecraftVersion as V;

verus! {

/// The most components one stack may add or remove.
pub const MAX_COMPONENTS: i32 = 256;

/// The first version whose stacks carry components rather than NBT.
pub const FIRST_STRUCTURED: V = V::V_1_20_5;

/// `id` through `mapping`, `None` where it is negative, maps nowhere or maps
/// past what an `i32` holds.
pub open spec fn map_id(mapping: IdMapping, id: i32) -> Option<i32> {
    if id < 0 {
        None
    } else {
        match mapping.spec_map(id as u32) {
            Some(m) => if m <= i32::MAX { Some(m as i32) } else { None },
            None => None,
        }
    }
}

/// Maps `id` through `mapping`.
pub fn mapped_id(mapping: &IdMapping, id: i32) -> (r: Option<i32>)
    ensures
        r == map_id(*mapping, id),
{
    if id < 0 {
        return None;
    }
    match mapping.map(id as u32) {
        Some(m) => if m <= i32::MAX as u32 { Some(m as i32) } else { None },
        None => None,
    }
}

/// The lowest id `mapping` takes onto `id`, where there is one an `i32`
/// holds: what an inverse of `mapping` gives back for `id`.
pub open spec fn unmap_id(mapping: IdMapping, id: i32) -> Option<i32> {
    if id >= 0 && exists|back: u32| back <= i32::MAX && #[trigger] mapping.is_least_preimage(back, id as u32) {
        Some((choose|back: u32| back <= i32::MAX && #[trigger] mapping.is_least_preimage(back, id as u32)) as i32)
    } else {
        None
    }
}

/// `inverse` gives each target of `mapping` its lowest preimage, and has one
/// for every target with a preimage an `i32` holds.
pub open spec fn inverts(inverse: IdMapping, mapping: IdMapping) -> bool {
    &&& forall|target: u32| #[trigger] inverse.spec_map(target) matches Some(back)
        ==> mapping.is_least_preimage(back, target)
    &&& forall|target: u32, back: u32| #[trigger] inverse.spec_map(target) is None
        && back <= i32::MAX && #[trigger] mapping.spec_map(back) == Some(target) ==> false
}

/// An inverse of `mapping` maps `id` as `unmap_id` does.
pub proof fn lemma_inverse_unmaps(mapping: IdMapping, inverse: IdMapping, id: i32)
    requires
        inverts(inverse, mapping),
    ensures
        map_id(inverse, id) == unmap_id(mapping, id),
{
    if id >= 0 {
        let target = id as u32;
        match inverse.spec_map(target) {
            Some(back) => {
                assert(mapping.is_least_preimage(back, target));
                if back <= i32::MAX {
                    let chosen = choose|b: u32| b <= i32::MAX && #[trigger] mapping.is_least_preimage(b, target);
                    assert(mapping.is_least_preimage(chosen, target));
                    if chosen < back {
                        assert(mapping.spec_map(chosen) != Some(target));
                    }
                    if back < chosen {
                        assert(mapping.spec_map(back) != Some(target));
                    }
                } else {
                    if exists|b: u32| b <= i32::MAX && #[trigger] mapping.is_least_preimage(b, target) {
                        let b = choose|b: u32| b <= i32::MAX && #[trigger] mapping.is_least_preimage(b, target);
                        assert(mapping.spec_map(b) != Some(target));
                    }
                }
            },
            None => {
                if exists|b: u32| b <= i32::MAX && #[trigger] mapping.is_least_preimage(b, target) {
                    let b = choose|b: u32| b <= i32::MAX && #[trigger] mapping.is_least_preimage(b, target);
                    assert(mapping.spec_map(b) == Some(target));
                }
            },
        }
    }
}

/// Whether a client on `version` has an empty payload component with no
/// newest counterpart at `client_id`: `hide_additional_tooltip`,
/// `hide_tooltip` and `fire_resistant`.
pub open spec fn spec_client_component_is_empty(client_id: i32, version: V) -> bool {
    if version.spec_at_most(V::V_1_21) {
        client_id == 14 || client_id == 15 || client_id == 21
    } else if version.spec_at_most(V::V_1_21_4) {
        client_id == 15 || client_id == 16
    } else {
        false
    }
}

/// Whether a client on `version` has an empty payload component with no
/// newest counterpart at `client_id`.
pub fn client_component_is_empty(client_id: i32, version: V) -> (r: bool)
    ensures
        r == spec_client_component_is_empty(client_id, version),
{
    if version.at_most(V::V_1_21) {
        client_id == 14 || client_id == 15 || client_id == 21
    } else if version.at_most(V::V_1_21_4) {
        client_id == 15 || client_id == 16
    } else {
        false
    }
}

/// The oldest version that writes `component` in its newest shape.
pub open spec fn spec_shape_floor(component: DataComponent) -> V {
    match component {
        DataComponent::AttributeModifiers | DataComponent::JukeboxPlayable => V::V_26_2,
        DataComponent::EntityData | DataComponent::BlockEntityData | DataComponent::Profile => V::V_1_21_9,
        DataComponent::Equippable => V::V_1_21_6,
        DataComponent::Unbreakable
        | DataComponent::Enchantments
        | DataComponent::StoredEnchantments
        | DataComponent::DyedColor
        | DataComponent::Tool
        | DataComponent::CanPlaceOn
        | DataComponent::CanBreak
        | DataComponent::IntangibleProjectile
        | DataComponent::Trim
        | DataComponent::Instrument => V::V_1_21_5,
        DataComponent::CustomModelData | DataComponent::Food => V::V_1_21_2,
        _ => V::V_1_20_5,
    }
}

/// The oldest version that writes `component` in its newest shape.
#[verifier::when_used_as_spec(spec_shape_floor)]
pub fn shape_floor(component: DataComponent) -> (r: V)
    ensures
        r == spec_shape_floor(component),
{
    match component {
        DataComponent::AttributeModifiers | DataComponent::JukeboxPlayable => V::V_26_2,
        DataComponent::EntityData | DataComponent::BlockEntityData | DataComponent::Profile => V::V_1_21_9,
        DataComponent::Equippable => V::V_1_21_6,
        DataComponent::Unbreakable
        | DataComponent::Enchantments
        | DataComponent::StoredEnchantments
        | DataComponent::DyedColor
        | DataComponent::Tool
        | DataComponent::CanPlaceOn
        | DataComponent::CanBreak
        | DataComponent::IntangibleProjectile
        | DataComponent::Trim
        | DataComponent::Instrument => V::V_1_21_5,
        DataComponent::CustomModelData | DataComponent::Food => V::V_1_21_2,
        _ => V::V_1_20_5,
    }
}

// ---------------------------------------------------------------------------
// Enchantment lists
// ---------------------------------------------------------------------------

/// The bytes of id and level pairs, one after another.
pub open spec fn pairs_bytes(pairs: Seq<(i32, i32)>) -> Seq<u8>
    decreases pairs.len(),
{
    if pairs.len() == 0 {
        Seq::empty()
    } else {
        pairs_bytes(pairs.drop_last()) + var_int_bytes(pairs.last().0) + var_int_bytes(pairs.last().1)
    }
}

/// The `n` enchantment entries from `pos`, each an id and a level, added to
/// `kept` where the id maps through `enchantments`; `None` where they do not
/// parse.
pub open spec fn kept_enchantments(b: Seq<u8>, pos: int, n: nat, enchantments: IdMapping, kept: Seq<(i32, i32)>)
    -> Option<Seq<(i32, i32)>>
    decreases n,
{
    if n == 0 {
        Some(kept)
    } else {
        match var_int_field(b, pos) {
            Some((id, p1)) => match var_int_field(b, p1) {
                Some((level, p2)) => match map_id(enchantments, id) {
                    Some(m) => kept_enchantments(b, p2, (n - 1) as nat, enchantments, kept.push((m, level))),
                    None => kept_enchantments(b, p2, (n - 1) as nat, enchantments, kept),
                },
                None => None,
            },
            None => None,
        }
    }
}

/// An enchantment list in its newest form with every id renumbered through
/// `enchantments` and the entries it does not map left out; what follows the
/// entries is not read.
pub open spec fn native_enchantments_bytes(b: Seq<u8>, enchantments: IdMapping) -> Option<Seq<u8>> {
    match var_int_field(b, 0) {
        Some((count, p)) => match kept_enchantments(b, p, run_count(count), enchantments, Seq::empty()) {
            Some(kept) => Some(var_int_bytes(kept.len() as i32) + pairs_bytes(kept)),
            None => None,
        },
        None => None,
    }
}

fn collect_enchantments(native: &[u8], start: usize, n: i32, enchantments: &IdMapping) -> (r: Option<(Vec<u8>, usize)>)
    requires
        start <= native@.len(),
        n >= 0,
    ensures
        match kept_enchantments(native@, start as int, n as nat, *enchantments, Seq::empty()) {
            Some(kept) => r matches Some((body, len)) && body@ == pairs_bytes(kept) && len == kept.len(),
            None => r is None,
        },
{
    let mut left: i32 = n;
    let mut p = start;
    let mut kept_len: usize = 0;
    let ghost mut kept: Seq<(i32, i32)> = Seq::empty();
    let mut body: Vec<u8> = Vec::new();
    while left > 0
        invariant
            0 <= left <= n,
            p <= native@.len(),
            kept_len == kept.len(),
            kept.len() + left <= n,
            body@ == pairs_bytes(kept),
            kept_enchantments(native@, start as int, n as nat, *enchantments, Seq::empty())
                == kept_enchantments(native@, p as int, left as nat, *enchantments, kept),
        decreases left,
    {
        let (id, p1) = match var_int_end(native, p) {
            Some(found) => found,
            None => return None,
        };
        let (level, p2) = match var_int_end(native, p1) {
            Some(found) => found,
            None => return None,
        };
        match mapped_id(enchantments, id) {
            Some(m) => {
                let ghost before = body@;
                write_var_int(&mut body, m);
                write_var_int(&mut body, level);
                proof {
                    let next = kept.push((m, level));
                    assert(next.drop_last() =~= kept);
                    assert(body@ =~= pairs_bytes(next));
                    kept = next;
                }
                kept_len = kept_len + 1;
            },
            None => {},
        }
        p = p2;
        left = left - 1;
    }
    Some((body, kept_len))
}

/// Renumbers the enchantment list `native` through `enchantments`.
pub fn native_enchantments(native: &[u8], enchantments: &IdMapping) -> (r: Option<Vec<u8>>)
    ensures
        match native_enchantments_bytes(native@, *enchantments) {
            Some(bytes) => r matches Some(v) && v@ == bytes,
            None => r is None,
        },
{
    let (count, start) = match var_int_end(native, 0) {
        Some(found) => found,
        None => return None,
    };
    let (body, kept_len) = match collect_enchantments(native, start, entries(count), enchantments) {
        Some(found) => found,
        None => return None,
    };
    let mut out: Vec<u8> = Vec::new();
    write_var_int(&mut out, kept_len as i32);
    crate::codec::append_bytes(&mut out, body.as_slice());
    Some(out)
}

// ---------------------------------------------------------------------------
// Component payloads in a client's own layout
// ---------------------------------------------------------------------------

/// The end of the NBT document at `pos` in `version`'s form: network NBT from
/// 1.20.2, a named document below.
pub open spec fn nbt_end_for(b: Seq<u8>, pos: int, version: V) -> Option<int> {
    if version.spec_at_least(V::V_1_20_2) { document_end(b, pos) } else { named_document_end(b, pos) }
}

pub fn skip_nbt_for(b: &[u8], pos: usize, version: V) -> (r: Option<usize>)
    requires
        pos <= b@.len(),
    ensures
        as_int(r) == nbt_end_for(b@, pos as int, version),
        r matches Some(p) ==> pos <= p <= b@.len(),
{
    if version.at_least(V::V_1_20_2) { skip_document(b, pos) } else { skip_named_document(b, pos) }
}

/// The end of an id set as a client writes it: a tag name after a zero,
/// else ids after their count plus one. A negative count reads nothing
/// further, but for the lowest one, whose count less one wraps round to the
/// highest.
pub open spec fn client_id_set_end(b: Seq<u8>, pos: int) -> Option<int> {
    match var_int_field(b, pos) {
        Some((n, p)) => if n == 0 {
            str_end(b, p)
        } else if n > 0 {
            var_ints_end(b, p, (n - 1) as nat)
        } else if n == i32::MIN {
            var_ints_end(b, p, i32::MAX as nat)
        } else {
            Some(p)
        },
        None => None,
    }
}

/// A bool and, where it is set, `w` more bytes.
pub open spec fn opt_fixed_end(b: Seq<u8>, pos: int, w: int) -> Option<int> {
    match bool_field(b, pos) {
        Some((set, p)) => if set { fixed_end(b, p, w) } else { Some(p) },
        None => None,
    }
}

/// A bool and, where it is set, a string.
pub open spec fn opt_str_end(b: Seq<u8>, pos: int) -> Option<int> {
    match bool_field(b, pos) {
        Some((set, p)) => if set { str_end(b, p) } else { Some(p) },
        None => None,
    }
}

/// A bool and, where it is set, an id set.
pub open spec fn opt_id_set_end(b: Seq<u8>, pos: int) -> Option<int> {
    match bool_field(b, pos) {
        Some((set, p)) => if set { client_id_set_end(b, p) } else { Some(p) },
        None => None,
    }
}

/// `n` tool rules from `pos`: blocks, an optional speed, an optional drop flag.
pub open spec fn tool_rules_end(b: Seq<u8>, pos: int, n: nat) -> Option<int>
    decreases n,
{
    if n == 0 {
        if 0 <= pos <= b.len() { Some(pos) } else { None }
    } else {
        match client_id_set_end(b, pos) {
            Some(p1) => match opt_fixed_end(b, p1, 4) {
                Some(p2) => match opt_fixed_end(b, p2, 1) {
                    Some(p3) => tool_rules_end(b, p3, (n - 1) as nat),
                    None => None,
                },
                None => None,
            },
            None => None,
        }
    }
}

/// `n` attribute modifiers from `pos`: attribute, a uuid up to 1.20.5, name,
/// amount, operation and slot.
pub open spec fn attribute_entries_end(b: Seq<u8>, pos: int, n: nat, version: V) -> Option<int>
    decreases n,
{
    if n == 0 {
        if 0 <= pos <= b.len() { Some(pos) } else { None }
    } else {
        match var_int_field(b, pos) {
            Some((_, p1)) => {
                let p2 = if version.spec_at_most(V::V_1_20_5) { fixed_end(b, p1, 16) } else { Some(p1) };
                match p2 {
                    Some(p2) => match str_end(b, p2) {
                        Some(p3) => match fixed_end(b, p3, 8) {
                            Some(p4) => match var_int_field(b, p4) {
                                Some((_, p5)) => match var_int_field(b, p5) {
                                    Some((_, p6)) => attribute_entries_end(b, p6, (n - 1) as nat, version),
                                    None => None,
                                },
                                None => None,
                            },
                            None => None,
                        },
                        None => None,
                    },
                    None => None,
                }
            },
            None => None,
        }
    }
}

/// `n` profile properties from `pos`: name, value and an optional signature.
pub open spec fn properties_end(b: Seq<u8>, pos: int, n: nat) -> Option<int>
    decreases n,
{
    if n == 0 {
        if 0 <= pos <= b.len() { Some(pos) } else { None }
    } else {
        match str_end(b, pos) {
            Some(p1) => match str_end(b, p1) {
                Some(p2) => match opt_str_end(b, p2) {
                    Some(p3) => properties_end(b, p3, (n - 1) as nat),
                    None => None,
                },
                None => None,
            },
            None => None,
        }
    }
}

/// `n` block state property matchers from `pos`: a name, whether the match is
/// exact, and one value or a range of two.
pub open spec fn state_matchers_end(b: Seq<u8>, pos: int, n: nat) -> Option<int>
    decreases n,
{
    if n == 0 {
        if 0 <= pos <= b.len() { Some(pos) } else { None }
    } else {
        match str_end(b, pos) {
            Some(p1) => match bool_field(b, p1) {
                Some((exact, p2)) => match str_end(b, p2) {
                    Some(p3) => {
                        let p4 = if exact { Some(p3) } else { str_end(b, p3) };
                        match p4 {
                            Some(p4) => state_matchers_end(b, p4, (n - 1) as nat),
                            None => None,
                        }
                    },
                    None => None,
                },
                None => None,
            },
            None => None,
        }
    }
}

/// An optional list of block state property matchers.
pub open spec fn opt_state_matchers_end(b: Seq<u8>, pos: int) -> Option<int> {
    match bool_field(b, pos) {
        Some((set, p)) => if set {
            match var_int_field(b, p) {
                Some((count, q)) => state_matchers_end(b, q, run_count(count)),
                None => None,
            }
        } else {
            Some(p)
        },
        None => None,
    }
}

/// `n` block predicates from `pos`: optional blocks, optional state
/// matchers and an NBT document.
pub open spec fn predicates_end(b: Seq<u8>, pos: int, n: nat, version: V) -> Option<int>
    decreases n,
{
    if n == 0 {
        if 0 <= pos <= b.len() { Some(pos) } else { None }
    } else {
        match opt_id_set_end(b, pos) {
            Some(p1) => match opt_state_matchers_end(b, p1) {
                Some(p2) => match nbt_end_for(b, p2, version) {
                    Some(p3) => predicates_end(b, p3, (n - 1) as nat, version),
                    None => None,
                },
                None => None,
            },
            None => None,
        }
    }
}

/// `n` food effects from `pos`: an effect and its probability.
pub open spec fn food_effects_end(b: Seq<u8>, pos: int, n: nat) -> Option<int>
    decreases n,
{
    if n == 0 {
        if 0 <= pos <= b.len() { Some(pos) } else { None }
    } else {
        match var_int_field(b, pos) {
            Some((_, p1)) => match fixed_end(b, p1, 4) {
                Some(p2) => food_effects_end(b, p2, (n - 1) as nat),
                None => None,
            },
            None => None,
        }
    }
}

/// `n` texture overrides from `pos`, two strings each.
pub open spec fn overrides_end(b: Seq<u8>, pos: int, n: nat) -> Option<int>
    decreases n,
{
    if n == 0 {
        if 0 <= pos <= b.len() { Some(pos) } else { None }
    } else {
        match str_end(b, pos) {
            Some(p1) => match str_end(b, p1) {
                Some(p2) => overrides_end(b, p2, (n - 1) as nat),
                None => None,
            },
            None => None,
        }
    }
}

/// A 1.21.4 trim material or pattern holder: a registry id, or after a zero
/// an inline entry with its asset name, an item id, overrides and a
/// description.
pub open spec fn holder_with_inline_end(b: Seq<u8>, pos: int, version: V) -> Option<int> {
    match var_int_field(b, pos) {
        Some((holder, p1)) => if holder != 0 {
            Some(p1)
        } else {
            match str_end(b, p1) {
                Some(p2) => match var_int_field(b, p2) {
                    Some((_, p3)) => match var_int_field(b, p3) {
                        Some((count, p4)) => match overrides_end(b, p4, run_count(count)) {
                            Some(p5) => nbt_end_for(b, p5, version),
                            None => None,
                        },
                        None => None,
                    },
                    None => None,
                },
                None => None,
            }
        },
        None => None,
    }
}

/// `n` components of a stack from `pos`, each an id `reg` lists and its
/// newest shape payload.
pub open spec fn stack_components_end(reg: Seq<DataComponent>, b: Seq<u8>, pos: int, n: nat) -> Option<int>
    decreases n,
{
    if n == 0 {
        if 0 <= pos <= b.len() { Some(pos) } else { None }
    } else {
        match var_int_field(b, pos) {
            Some((id, p1)) => if known_component(reg, id as int) {
                match shape_end(reg, component_shape(reg[id as int]), b, p1, (b.len() - p1) as nat) {
                    Some(p2) => stack_components_end(reg, b, p2, (n - 1) as nat),
                    None => None,
                }
            } else {
                None
            },
            None => None,
        }
    }
}

/// The end of a stack in `version`'s form. From 1.20.5: a count, and unless
/// it is zero an id, the counts of components added and removed, each at most
/// `MAX_COMPONENTS`, the added ones and the removed ids. Below: whether there
/// is a stack, and then its id, a count byte and its NBT.
pub open spec fn stack_end(reg: Seq<DataComponent>, b: Seq<u8>, pos: int, version: V) -> Option<int> {
    if version.spec_at_least(FIRST_STRUCTURED) {
        match var_int_field(b, pos) {
            Some((count, p1)) => if count == 0 {
                Some(p1)
            } else {
                match var_int_field(b, p1) {
                    Some((_, p2)) => match var_int_field(b, p2) {
                        Some((added, p3)) => match var_int_field(b, p3) {
                            Some((removed, p4)) => if added < 0 || added > MAX_COMPONENTS || removed < 0
                                || removed > MAX_COMPONENTS {
                                None
                            } else {
                                match stack_components_end(reg, b, p4, added as nat) {
                                    Some(p5) => var_ints_end(b, p5, removed as nat),
                                    None => None,
                                }
                            },
                            None => None,
                        },
                        None => None,
                    },
                    None => None,
                }
            },
            None => None,
        }
    } else {
        match bool_field(b, pos) {
            Some((present, p1)) => if !present {
                Some(p1)
            } else {
                match var_int_field(b, p1) {
                    Some((_, p2)) => match fixed_end(b, p2, 1) {
                        Some(p3) => nbt_end_for(b, p3, version),
                        None => None,
                    },
                    None => None,
                }
            },
            None => None,
        }
    }
}

/// The end of one payload of `component` as a client on `version` writes it,
/// for the components whose older shape nothing here rebuilds; `None` where
/// the bytes are not one, or for a component with no such reader.
pub open spec fn client_payload_end(reg: Seq<DataComponent>, component: DataComponent, b: Seq<u8>, pos: int, version: V) -> Option<int> {
    match component {
        DataComponent::Tool => match var_int_field(b, pos) {
            Some((rules, p1)) => match tool_rules_end(b, p1, run_count(rules)) {
                Some(p2) => match fixed_end(b, p2, 4) {
                    Some(p3) => match var_int_field(b, p3) {
                        Some((_, p4)) => Some(p4),
                        None => None,
                    },
                    None => None,
                },
                None => None,
            },
            None => None,
        },
        DataComponent::AttributeModifiers => match var_int_field(b, pos) {
            Some((count, p1)) => match attribute_entries_end(b, p1, run_count(count), version) {
                Some(p2) => if version.spec_at_most(V::V_1_21_4) {
                    fixed_end(b, p2, 1)
                } else if version == V::V_1_21_11 {
                    match var_int_field(b, p2) {
                        Some((display, p3)) => if display == 2 { nbt_end_for(b, p3, version) } else { Some(p3) },
                        None => None,
                    }
                } else {
                    Some(p2)
                },
                None => None,
            },
            None => None,
        },
        DataComponent::Equippable => match var_int_field(b, pos) {
            Some((_, p1)) => match sound_end(b, p1) {
                Some(p2) => match opt_str_end(b, p2) {
                    Some(p3) => match opt_str_end(b, p3) {
                        Some(p4) => match opt_id_set_end(b, p4) {
                            Some(p5) => fixed_end(b, p5, if version.spec_at_most(V::V_1_21_4) { 3 } else { 4 }),
                            None => None,
                        },
                        None => None,
                    },
                    None => None,
                },
                None => None,
            },
            None => None,
        },
        DataComponent::Profile => match opt_str_end(b, pos) {
            Some(p1) => match opt_fixed_end(b, p1, 16) {
                Some(p2) => match var_int_field(b, p2) {
                    Some((count, p3)) => properties_end(b, p3, run_count(count)),
                    None => None,
                },
                None => None,
            },
            None => None,
        },
        DataComponent::JukeboxPlayable => {
            let song = match bool_field(b, pos) {
                Some((direct, p1)) => if direct {
                    match var_int_field(b, p1) {
                        Some((holder, p2)) => if holder == 0 {
                            match sound_end(b, p2) {
                                Some(p3) => match nbt_end_for(b, p3, version) {
                                    Some(p4) => match fixed_end(b, p4, 4) {
                                        Some(p5) => match var_int_field(b, p5) {
                                            Some((_, p6)) => Some(p6),
                                            None => None,
                                        },
                                        None => None,
                                    },
                                    None => None,
                                },
                                None => None,
                            }
                        } else {
                            Some(p2)
                        },
                        None => None,
                    }
                } else {
                    str_end(b, p1)
                },
                None => None,
            };
            match song {
                Some(p) => if version.spec_at_most(V::V_1_21_4) { fixed_end(b, p, 1) } else { Some(p) },
                None => None,
            }
        },
        DataComponent::Trim => match holder_with_inline_end(b, pos, version) {
            Some(p1) => match holder_with_inline_end(b, p1, version) {
                Some(p2) => fixed_end(b, p2, 1),
                None => None,
            },
            None => None,
        },
        DataComponent::Instrument => {
            let start = if version.spec_at_most(V::V_1_21_4) {
                Some((true, pos))
            } else {
                match bool_field(b, pos) {
                    Some((direct, p)) => Some((direct, p)),
                    None => None,
                }
            };
            match start {
                Some((direct, p)) => if !direct {
                    str_end(b, p)
                } else {
                    match var_int_field(b, p) {
                        Some((holder, p1)) => if holder == 0 {
                            match sound_end(b, p1) {
                                Some(p2) => match fixed_end(b, p2, 8) {
                                    Some(p3) => nbt_end_for(b, p3, version),
                                    None => None,
                                },
                                None => None,
                            }
                        } else {
                            Some(p1)
                        },
                        None => None,
                    }
                },
                None => None,
            }
        },
        DataComponent::CanPlaceOn | DataComponent::CanBreak => match var_int_field(b, pos) {
            Some((count, p1)) => match predicates_end(b, p1, run_count(count), version) {
                Some(p2) => fixed_end(b, p2, 1),
                None => None,
            },
            None => None,
        },
        DataComponent::IntangibleProjectile => nbt_end_for(b, pos, version),
        DataComponent::CustomModelData => match var_int_field(b, pos) {
            Some((_, p)) => Some(p),
            None => None,
        },
        DataComponent::Food => match var_int_field(b, pos) {
            Some((_, p1)) => match fixed_end(b, p1, 4) {
                Some(p2) => match fixed_end(b, p2, 1) {
                    Some(p3) => match fixed_end(b, p3, 4) {
                        Some(p4) => match stack_end(reg, b, p4, version) {
                            Some(p5) => match var_int_field(b, p5) {
                                Some((count, p6)) => food_effects_end(b, p6, run_count(count)),
                                None => None,
                            },
                            None => None,
                        },
                        None => None,
                    },
                    None => None,
                },
                None => None,
            },
            None => None,
        },
        _ => None,
    }
}

fn skip_client_id_set(b: &[u8], pos: usize) -> (r: Option<usize>)
    requires
        pos <= b@.len(),
    ensures
        as_int(r) == client_id_set_end(b@, pos as int),
        r matches Some(p) ==> pos <= p <= b@.len(),
{
    match var_int_end(b, pos) {
        Some((n, p)) => if n == 0 {
            skip_str(b, p)
        } else if n > 0 {
            skip_var_ints(b, p, (n - 1) as u32)
        } else if n == i32::MIN {
            skip_var_ints(b, p, i32::MAX as u32)
        } else {
            Some(p)
        },
        None => None,
    }
}

fn skip_opt_fixed(b: &[u8], pos: usize, w: usize) -> (r: Option<usize>)
    requires
        pos <= b@.len(),
    ensures
        as_int(r) == opt_fixed_end(b@, pos as int, w as int),
        r matches Some(p) ==> pos <= p <= b@.len(),
{
    match read_bool(b, pos) {
        Some((set, p)) => if set { skip_fixed(b, p, w) } else { Some(p) },
        None => None,
    }
}

fn skip_opt_str(b: &[u8], pos: usize) -> (r: Option<usize>)
    requires
        pos <= b@.len(),
    ensures
        as_int(r) == opt_str_end(b@, pos as int),
        r matches Some(p) ==> pos <= p <= b@.len(),
{
    match read_bool(b, pos) {
        Some((set, p)) => if set { skip_str(b, p) } else { Some(p) },
        None => None,
    }
}

fn skip_opt_id_set(b: &[u8], pos: usize) -> (r: Option<usize>)
    requires
        pos <= b@.len(),
    ensures
        as_int(r) == opt_id_set_end(b@, pos as int),
        r matches Some(p) ==> pos <= p <= b@.len(),
{
    match read_bool(b, pos) {
        Some((set, p)) => if set { skip_client_id_set(b, p) } else { Some(p) },
        None => None,
    }
}

/// The number of entries a count names: none where it is negative.
fn entries(count: i32) -> (r: i32)
    ensures
        r >= 0,
        r as nat == run_count(count),
{
    if count < 0 { 0 } else { count }
}

fn skip_tool_rules(b: &[u8], pos: usize, n: i32) -> (r: Option<usize>)
    requires
        pos <= b@.len(),
        n >= 0,
    ensures
        as_int(r) == tool_rules_end(b@, pos as int, n as nat),
        r matches Some(p) ==> pos <= p <= b@.len(),
{
    let mut p = pos;
    let mut left = n;
    while left > 0
        invariant
            pos <= p <= b@.len(),
            0 <= left,
            tool_rules_end(b@, pos as int, n as nat) == tool_rules_end(b@, p as int, left as nat),
        decreases left,
    {
        let p1 = match skip_client_id_set(b, p) {
            Some(q) => q,
            None => return None,
        };
        let p2 = match skip_opt_fixed(b, p1, 4) {
            Some(q) => q,
            None => return None,
        };
        p = match skip_opt_fixed(b, p2, 1) {
            Some(q) => q,
            None => return None,
        };
        left = left - 1;
    }
    Some(p)
}

fn skip_attribute_entries(b: &[u8], pos: usize, n: i32, version: V) -> (r: Option<usize>)
    requires
        pos <= b@.len(),
        n >= 0,
    ensures
        as_int(r) == attribute_entries_end(b@, pos as int, n as nat, version),
        r matches Some(p) ==> pos <= p <= b@.len(),
{
    let mut p = pos;
    let mut left = n;
    while left > 0
        invariant
            pos <= p <= b@.len(),
            0 <= left,
            attribute_entries_end(b@, pos as int, n as nat, version)
                == attribute_entries_end(b@, p as int, left as nat, version),
        decreases left,
    {
        let p1 = match var_int_end(b, p) {
            Some((_, q)) => q,
            None => return None,
        };
        let p2 = if version.at_most(V::V_1_20_5) {
            match skip_fixed(b, p1, 16) {
                Some(q) => q,
                None => return None,
            }
        } else {
            p1
        };
        let p3 = match skip_str(b, p2) {
            Some(q) => q,
            None => return None,
        };
        let p4 = match skip_fixed(b, p3, 8) {
            Some(q) => q,
            None => return None,
        };
        let p5 = match var_int_end(b, p4) {
            Some((_, q)) => q,
            None => return None,
        };
        p = match var_int_end(b, p5) {
            Some((_, q)) => q,
            None => return None,
        };
        left = left - 1;
    }
    Some(p)
}

fn skip_properties(b: &[u8], pos: usize, n: i32) -> (r: Option<usize>)
    requires
        pos <= b@.len(),
        n >= 0,
    ensures
        as_int(r) == properties_end(b@, pos as int, n as nat),
        r matches Some(p) ==> pos <= p <= b@.len(),
{
    let mut p = pos;
    let mut left = n;
    while left > 0
        invariant
            pos <= p <= b@.len(),
            0 <= left,
            properties_end(b@, pos as int, n as nat) == properties_end(b@, p as int, left as nat),
        decreases left,
    {
        let p1 = match skip_str(b, p) {
            Some(q) => q,
            None => return None,
        };
        let p2 = match skip_str(b, p1) {
            Some(q) => q,
            None => return None,
        };
        p = match skip_opt_str(b, p2) {
            Some(q) => q,
            None => return None,
        };
        left = left - 1;
    }
    Some(p)
}

fn skip_state_matchers(b: &[u8], pos: usize, n: i32) -> (r: Option<usize>)
    requires
        pos <= b@.len(),
        n >= 0,
    ensures
        as_int(r) == state_matchers_end(b@, pos as int, n as nat),
        r matches Some(p) ==> pos <= p <= b@.len(),
{
    let mut p = pos;
    let mut left = n;
    while left > 0
        invariant
            pos <= p <= b@.len(),
            0 <= left,
            state_matchers_end(b@, pos as int, n as nat) == state_matchers_end(b@, p as int, left as nat),
        decreases left,
    {
        let p1 = match skip_str(b, p) {
            Some(q) => q,
            None => return None,
        };
        let (exact, p2) = match read_bool(b, p1) {
            Some(found) => found,
            None => return None,
        };
        let p3 = match skip_str(b, p2) {
            Some(q) => q,
            None => return None,
        };
        p = if exact {
            p3
        } else {
            match skip_str(b, p3) {
                Some(q) => q,
                None => return None,
            }
        };
        left = left - 1;
    }
    Some(p)
}

fn skip_opt_state_matchers(b: &[u8], pos: usize) -> (r: Option<usize>)
    requires
        pos <= b@.len(),
    ensures
        as_int(r) == opt_state_matchers_end(b@, pos as int),
        r matches Some(p) ==> pos <= p <= b@.len(),
{
    match read_bool(b, pos) {
        Some((set, p)) => if set {
            match var_int_end(b, p) {
                Some((count, q)) => skip_state_matchers(b, q, entries(count)),
                None => None,
            }
        } else {
            Some(p)
        },
        None => None,
    }
}

fn skip_predicates(b: &[u8], pos: usize, n: i32, version: V) -> (r: Option<usize>)
    requires
        pos <= b@.len(),
        n >= 0,
    ensures
        as_int(r) == predicates_end(b@, pos as int, n as nat, version),
        r matches Some(p) ==> pos <= p <= b@.len(),
{
    let mut p = pos;
    let mut left = n;
    while left > 0
        invariant
            pos <= p <= b@.len(),
            0 <= left,
            predicates_end(b@, pos as int, n as nat, version) == predicates_end(b@, p as int, left as nat, version),
        decreases left,
    {
        let p1 = match skip_opt_id_set(b, p) {
            Some(q) => q,
            None => return None,
        };
        let p2 = match skip_opt_state_matchers(b, p1) {
            Some(q) => q,
            None => return None,
        };
        p = match skip_nbt_for(b, p2, version) {
            Some(q) => q,
            None => return None,
        };
        left = left - 1;
    }
    Some(p)
}

fn skip_food_effects(b: &[u8], pos: usize, n: i32) -> (r: Option<usize>)
    requires
        pos <= b@.len(),
        n >= 0,
    ensures
        as_int(r) == food_effects_end(b@, pos as int, n as nat),
        r matches Some(p) ==> pos <= p <= b@.len(),
{
    let mut p = pos;
    let mut left = n;
    while left > 0
        invariant
            pos <= p <= b@.len(),
            0 <= left,
            food_effects_end(b@, pos as int, n as nat) == food_effects_end(b@, p as int, left as nat),
        decreases left,
    {
        let p1 = match var_int_end(b, p) {
            Some((_, q)) => q,
            None => return None,
        };
        p = match skip_fixed(b, p1, 4) {
            Some(q) => q,
            None => return None,
        };
        left = left - 1;
    }
    Some(p)
}

fn skip_overrides(b: &[u8], pos: usize, n: i32) -> (r: Option<usize>)
    requires
        pos <= b@.len(),
        n >= 0,
    ensures
        as_int(r) == overrides_end(b@, pos as int, n as nat),
        r matches Some(p) ==> pos <= p <= b@.len(),
{
    let mut p = pos;
    let mut left = n;
    while left > 0
        invariant
            pos <= p <= b@.len(),
            0 <= left,
            overrides_end(b@, pos as int, n as nat) == overrides_end(b@, p as int, left as nat),
        decreases left,
    {
        let p1 = match skip_str(b, p) {
            Some(q) => q,
            None => return None,
        };
        p = match skip_str(b, p1) {
            Some(q) => q,
            None => return None,
        };
        left = left - 1;
    }
    Some(p)
}

/// Measures a 1.21.4 trim material or pattern holder.
pub fn skip_holder_with_inline(b: &[u8], pos: usize, version: V) -> (r: Option<usize>)
    requires
        pos <= b@.len(),
    ensures
        as_int(r) == holder_with_inline_end(b@, pos as int, version),
        r matches Some(p) ==> pos <= p <= b@.len(),
{
    let (holder, p1) = match var_int_end(b, pos) {
        Some(found) => found,
        None => return None,
    };
    if holder != 0 {
        return Some(p1);
    }
    let p2 = match skip_str(b, p1) {
        Some(q) => q,
        None => return None,
    };
    let p3 = match var_int_end(b, p2) {
        Some((_, q)) => q,
        None => return None,
    };
    let (count, p4) = match var_int_end(b, p3) {
        Some(found) => found,
        None => return None,
    };
    let p5 = match skip_overrides(b, p4, entries(count)) {
        Some(q) => q,
        None => return None,
    };
    skip_nbt_for(b, p5, version)
}

fn skip_stack_components(reg: &[DataComponent], b: &[u8], pos: usize, n: i32) -> (r: Option<usize>)
    requires
        pos <= b@.len(),
        n >= 0,
    ensures
        as_int(r) == stack_components_end(reg@, b@, pos as int, n as nat),
        r matches Some(p) ==> pos <= p <= b@.len(),
{
    let mut p = pos;
    let mut left = n;
    while left > 0
        invariant
            pos <= p <= b@.len(),
            0 <= left,
            stack_components_end(reg@, b@, pos as int, n as nat)
                == stack_components_end(reg@, b@, p as int, left as nat),
        decreases left,
    {
        let (id, p1) = match var_int_end(b, p) {
            Some(found) => found,
            None => return None,
        };
        if !(0 <= id && id < 256 && (id as usize) < reg.len()) {
            return None;
        }
        let payload = shape(reg[id as usize]);
        p = match skip(reg, &payload, b, p1, b.len() - p1) {
            Some(q) => q,
            None => return None,
        };
        left = left - 1;
    }
    Some(p)
}

/// Measures a stack in `version`'s form.
pub fn skip_stack(reg: &[DataComponent], b: &[u8], pos: usize, version: V) -> (r: Option<usize>)
    requires
        pos <= b@.len(),
    ensures
        as_int(r) == stack_end(reg@, b@, pos as int, version),
        r matches Some(p) ==> pos <= p <= b@.len(),
{
    if version.at_least(FIRST_STRUCTURED) {
        let (count, p1) = match var_int_end(b, pos) {
            Some(found) => found,
            None => return None,
        };
        if count == 0 {
            return Some(p1);
        }
        let p2 = match var_int_end(b, p1) {
            Some((_, q)) => q,
            None => return None,
        };
        let (added, p3) = match var_int_end(b, p2) {
            Some(found) => found,
            None => return None,
        };
        let (removed, p4) = match var_int_end(b, p3) {
            Some(found) => found,
            None => return None,
        };
        if added < 0 || added > MAX_COMPONENTS || removed < 0 || removed > MAX_COMPONENTS {
            return None;
        }
        let p5 = match skip_stack_components(reg, b, p4, added) {
            Some(q) => q,
            None => return None,
        };
        skip_var_ints(b, p5, removed as u32)
    } else {
        let (present, p1) = match read_bool(b, pos) {
            Some(found) => found,
            None => return None,
        };
        if !present {
            return Some(p1);
        }
        let p2 = match var_int_end(b, p1) {
            Some((_, q)) => q,
            None => return None,
        };
        let p3 = match skip_fixed(b, p2, 1) {
            Some(q) => q,
            None => return None,
        };
        skip_nbt_for(b, p3, version)
    }
}

/// Measures one payload of `component` as a client on `version` writes it,
/// for the components whose older shape nothing here rebuilds: the position
/// after it, or `None` where the bytes are not one or the component has no
/// such reader.
pub fn skip_client_payload(reg: &[DataComponent], component: DataComponent, b: &[u8], pos: usize, version: V)
    -> (r: Option<usize>)
    requires
        pos <= b@.len(),
    ensures
        as_int(r) == client_payload_end(reg@, component, b@, pos as int, version),
        r matches Some(p) ==> pos <= p <= b@.len(),
{
    match component {
        DataComponent::Tool => {
            let (rules, p1) = match var_int_end(b, pos) {
                Some(found) => found,
                None => return None,
            };
            let p2 = match skip_tool_rules(b, p1, entries(rules)) {
                Some(q) => q,
                None => return None,
            };
            let p3 = match skip_fixed(b, p2, 4) {
                Some(q) => q,
                None => return None,
            };
            match var_int_end(b, p3) {
                Some((_, q)) => Some(q),
                None => None,
            }
        },
        DataComponent::AttributeModifiers => {
            let (count, p1) = match var_int_end(b, pos) {
                Some(found) => found,
                None => return None,
            };
            let p2 = match skip_attribute_entries(b, p1, entries(count), version) {
                Some(q) => q,
                None => return None,
            };
            if version.at_most(V::V_1_21_4) {
                skip_fixed(b, p2, 1)
            } else if version == V::V_1_21_11 {
                match var_int_end(b, p2) {
                    Some((display, p3)) => if display == 2 { skip_nbt_for(b, p3, version) } else { Some(p3) },
                    None => None,
                }
            } else {
                Some(p2)
            }
        },
        DataComponent::Equippable => {
            let p1 = match var_int_end(b, pos) {
                Some((_, q)) => q,
                None => return None,
            };
            let p2 = match skip_sound(b, p1) {
                Some(q) => q,
                None => return None,
            };
            let p3 = match skip_opt_str(b, p2) {
                Some(q) => q,
                None => return None,
            };
            let p4 = match skip_opt_str(b, p3) {
                Some(q) => q,
                None => return None,
            };
            let p5 = match skip_opt_id_set(b, p4) {
                Some(q) => q,
                None => return None,
            };
            let flags: usize = if version.at_most(V::V_1_21_4) { 3 } else { 4 };
            skip_fixed(b, p5, flags)
        },
        DataComponent::Profile => {
            let p1 = match skip_opt_str(b, pos) {
                Some(q) => q,
                None => return None,
            };
            let p2 = match skip_opt_fixed(b, p1, 16) {
                Some(q) => q,
                None => return None,
            };
            match var_int_end(b, p2) {
                Some((count, p3)) => skip_properties(b, p3, entries(count)),
                None => None,
            }
        },
        DataComponent::JukeboxPlayable => {
            let (direct, p1) = match read_bool(b, pos) {
                Some(found) => found,
                None => return None,
            };
            let p = if direct {
                let (holder, p2) = match var_int_end(b, p1) {
                    Some(found) => found,
                    None => return None,
                };
                if holder == 0 {
                    let p3 = match skip_sound(b, p2) {
                        Some(q) => q,
                        None => return None,
                    };
                    let p4 = match skip_nbt_for(b, p3, version) {
                        Some(q) => q,
                        None => return None,
                    };
                    let p5 = match skip_fixed(b, p4, 4) {
                        Some(q) => q,
                        None => return None,
                    };
                    match var_int_end(b, p5) {
                        Some((_, q)) => q,
                        None => return None,
                    }
                } else {
                    p2
                }
            } else {
                match skip_str(b, p1) {
                    Some(q) => q,
                    None => return None,
                }
            };
            if version.at_most(V::V_1_21_4) { skip_fixed(b, p, 1) } else { Some(p) }
        },
        DataComponent::Trim => {
            let p1 = match skip_holder_with_inline(b, pos, version) {
                Some(q) => q,
                None => return None,
            };
            let p2 = match skip_holder_with_inline(b, p1, version) {
                Some(q) => q,
                None => return None,
            };
            skip_fixed(b, p2, 1)
        },
        DataComponent::Instrument => {
            let (direct, p) = if version.at_most(V::V_1_21_4) {
                (true, pos)
            } else {
                match read_bool(b, pos) {
                    Some(found) => found,
                    None => return None,
                }
            };
            if !direct {
                return skip_str(b, p);
            }
            let (holder, p1) = match var_int_end(b, p) {
                Some(found) => found,
                None => return None,
            };
            if holder != 0 {
                return Some(p1);
            }
            let p2 = match skip_sound(b, p1) {
                Some(q) => q,
                None => return None,
            };
            let p3 = match skip_fixed(b, p2, 8) {
                Some(q) => q,
                None => return None,
            };
            skip_nbt_for(b, p3, version)
        },
        DataComponent::CanPlaceOn | DataComponent::CanBreak => {
            let (count, p1) = match var_int_end(b, pos) {
                Some(found) => found,
                None => return None,
            };
            let p2 = match skip_predicates(b, p1, entries(count), version) {
                Some(q) => q,
                None => return None,
            };
            skip_fixed(b, p2, 1)
        },
        DataComponent::IntangibleProjectile => skip_nbt_for(b, pos, version),
        DataComponent::CustomModelData => match var_int_end(b, pos) {
            Some((_, q)) => Some(q),
            None => None,
        },
        DataComponent::Food => {
            let p1 = match var_int_end(b, pos) {
                Some((_, q)) => q,
                None => return None,
            };
            let p2 = match skip_fixed(b, p1, 4) {
                Some(q) => q,
                None => return None,
            };
            let p3 = match skip_fixed(b, p2, 1) {
                Some(q) => q,
                None => return None,
            };
            let p4 = match skip_fixed(b, p3, 4) {
                Some(q) => q,
                None => return None,
            };
            let p5 = match skip_stack(reg, b, p4, version) {
                Some(q) => q,
                None => return None,
            };
            match var_int_end(b, p5) {
                Some((count, p6)) => skip_food_effects(b, p6, entries(count)),
                None => None,
            }
        },
        _ => None,
    }
}


// ---------------------------------------------------------------------------
// Stacks in the newest form put in an older client's
// ---------------------------------------------------------------------------

/// Puts stacks written in the newest form in the form an older client reads.
pub struct StructuredItemRewriter;

/// `ids` through `mapping`, the ones it does not map left out.
pub open spec fn mapped_ids(ids: Seq<i32>, mapping: IdMapping) -> Seq<i32>
    decreases ids.len(),
{
    if ids.len() == 0 {
        Seq::empty()
    } else {
        let front = mapped_ids(ids.drop_last(), mapping);
        match map_id(mapping, ids.last()) {
            Some(m) => front.push(m),
            None => front,
        }
    }
}

/// The added components in `target`'s form: each under `target`'s id for
/// it, its payload put in `target`'s shape; one `target` has no id for, one
/// `reg` does not list and one whose payload cannot be expressed are left
/// out. `bound` exceeds every payload's length and measures only how deep
/// stacks nest.
pub open spec fn components_version(reg: Seq<DataComponent>, cs: Seq<ComponentView>, target: V,
    ids: ComposedMappings, bound: nat) -> Seq<ComponentView>
    decreases bound, 0nat, cs.len(),
{
    if cs.len() == 0 {
        Seq::empty()
    } else {
        let front = components_version(reg, cs.drop_last(), target, ids, bound);
        let c = cs.last();
        match map_id(ids.data_component_type, c.id) {
            Some(id) => if known_component(reg, c.id as int) && c.data.len() < bound {
                match component_version(reg, reg[c.id as int], c.data, target, ids) {
                    Some(data) => front.push(ComponentView { id, data }),
                    None => front,
                }
            } else {
                front
            },
            None => front,
        }
    }
}

/// A structured stack with its item, its components and its removed
/// component ids in `target`'s numbering, an empty stack where `target` has
/// no such item; any other stack as it stands.
pub open spec fn stack_version(reg: Seq<DataComponent>, v: ItemView, target: V, ids: ComposedMappings, bound: nat)
    -> ItemView
    decreases bound, 1nat, 0nat,
{
    match v {
        ItemView::Structured { count, id, added, removed } => match map_id(ids.items, id) {
            Some(item) => ItemView::Structured {
                count,
                id: item,
                added: components_version(reg, added, target, ids, bound),
                removed: mapped_ids(removed, ids.data_component_type),
            },
            None => ItemView::Empty,
        },
        _ => v,
    }
}

/// The longest payload among `cs`.
pub open spec fn longest_payload(cs: Seq<ComponentView>) -> nat
    decreases cs.len(),
{
    if cs.len() == 0 {
        0
    } else {
        let front = longest_payload(cs.drop_last());
        if cs.last().data.len() > front { cs.last().data.len() } else { front }
    }
}

/// A stack in `target`'s structured form.
pub open spec fn structured_version(reg: Seq<DataComponent>, v: ItemView, target: V, ids: ComposedMappings) -> ItemView {
    match v {
        ItemView::Structured { added, .. } => stack_version(reg, v, target, ids, longest_payload(added) + 1),
        _ => v,
    }
}

/// A count as the NBT form's byte holds it, the largest byte where it does
/// not fit.
pub open spec fn count_byte(count: i32) -> i8 {
    if i8::MIN <= count <= i8::MAX { count as i8 } else { i8::MAX }
}

/// A stack in the NBT form of `target`: the item's id there, its count as a
/// byte and the document its components stand for.
pub open spec fn nbt_version(reg: Seq<DataComponent>, v: ItemView, target: V, ids: ComposedMappings) -> ItemView {
    match v {
        ItemView::Structured { count, id, added, .. } => ItemView::Nbt {
            id: map_id(ids.items, id)->Some_0,
            count: count_byte(count),
            nbt: legacy_tag(reg, added, target, ids.enchantment_keys@),
        },
        _ => v,
    }
}

/// A stack written in the newest form, in `target`'s form: the NBT form
/// below 1.20.5 for a stack whose item the target has, else the structured
/// form with the item and component ids renumbered and each payload in the
/// shape `target` reads.
pub open spec fn item_version(reg: Seq<DataComponent>, v: ItemView, target: V, ids: ComposedMappings) -> ItemView {
    if needs_nbt_form(v, target, ids) { nbt_version(reg, v, target, ids) } else { structured_version(reg, v, target, ids) }
}

/// Whether putting `v` in `target`'s form takes the NBT form that versions
/// below 1.20.5 carry, which is built from the components' values rather than
/// their bytes.
pub open spec fn needs_nbt_form(v: ItemView, target: V, ids: ComposedMappings) -> bool {
    &&& !target.spec_at_least(FIRST_STRUCTURED)
    &&& v matches ItemView::Structured { id, .. }
    &&& map_id(ids.items, v->Structured_id) is Some
}

proof fn lemma_longest_payload(cs: Seq<ComponentView>)
    ensures
        forall|i: int| 0 <= i < cs.len() ==> #[trigger] cs[i].data.len() <= longest_payload(cs),
    decreases cs.len(),
{
    if cs.len() > 0 {
        lemma_longest_payload(cs.drop_last());
        assert forall|i: int| 0 <= i < cs.len() implies #[trigger] cs[i].data.len() <= longest_payload(cs) by {
            if i < cs.len() - 1 {
                assert(cs[i] == cs.drop_last()[i]);
            }
        }
    }
}

/// Copies `b`.
fn copy_bytes(b: &Vec<u8>) -> (r: Vec<u8>)
    ensures
        r@ == b@,
{
    let mut out: Vec<u8> = Vec::new();
    append_bytes(&mut out, b.as_slice());
    out
}

impl StructuredItemRewriter {
    /// `item` in `target`'s form where every payload is shorter than `bound`.
    pub(crate) fn version_within(reg: &[DataComponent], item: &Item, target: V, ids: &ComposedMappings,
        Ghost(bound): Ghost<nat>) -> (r: Item)
        requires
            item@ matches ItemView::Structured { added, .. } ==> forall|i: int| 0 <= i < added.len()
                ==> #[trigger] added[i].data.len() < bound,
        ensures
            r@ == stack_version(reg@, item@, target, *ids, bound),
        decreases bound, 1nat, 0nat,
    {
        match item {
            Item::Structured { count, id, added, removed } => {
                let item_id = match mapped_id(&ids.items, *id) {
                    Some(m) => m,
                    None => return Item::Empty,
                };
                let ghost views = added@.map_values(|c: ItemComponent| c@);
                let mut out: Vec<ItemComponent> = Vec::new();
                let mut i: usize = 0;
                while i < added.len()
                    invariant
                        i <= added@.len(),
                        views == added@.map_values(|c: ItemComponent| c@),
                        forall|j: int| 0 <= j < views.len() ==> #[trigger] views[j].data.len() < bound,
                        out@.map_values(|c: ItemComponent| c@)
                            == components_version(reg@, views.take(i as int), target, *ids, bound),
                    decreases added@.len() - i,
                {
                    let c = &added[i];
                    let ghost before = out@.map_values(|c: ItemComponent| c@);
                    assert(views.take(i + 1).drop_last() =~= views.take(i as int));
                    assert(views.take(i + 1).last() == c@);
                    assert(c@.data.len() < bound) by {
                        assert(views[i as int] == c@);
                    }
                    match mapped_id(&ids.data_component_type, c.id) {
                        Some(mid) => {
                            if 0 <= c.id && c.id < 256 && (c.id as usize) < reg.len() {
                                match item_component::to_version(reg, reg[c.id as usize], c.data.as_slice(), target, ids) {
                                    Some(data) => {
                                        let ghost view = ComponentView { id: mid, data: data@ };
                                        out.push(ItemComponent { id: mid, data });
                                        assert(out@.map_values(|c: ItemComponent| c@) =~= before.push(view));
                                    },
                                    None => {},
                                }
                            }
                        },
                        None => {},
                    }
                    i = i + 1;
                }
                assert(views.take(added@.len() as int) =~= views);
                let mut kept: Vec<i32> = Vec::new();
                let mut j: usize = 0;
                while j < removed.len()
                    invariant
                        j <= removed@.len(),
                        kept@ == mapped_ids(removed@.take(j as int), ids.data_component_type),
                    decreases removed@.len() - j,
                {
                    assert(removed@.take(j + 1).drop_last() =~= removed@.take(j as int));
                    match mapped_id(&ids.data_component_type, removed[j]) {
                        Some(m) => kept.push(m),
                        None => {},
                    }
                    j = j + 1;
                }
                assert(removed@.take(removed@.len() as int) =~= removed@);
                Item::Structured { count: *count, id: item_id, added: out, removed: kept }
            },
            Item::Empty => Item::Empty,
            Item::Nbt { id, count, nbt } => Item::Nbt {
                id: *id,
                count: *count,
                nbt: match nbt {
                    Some(doc) => Some(copy_bytes(doc)),
                    None => None,
                },
            },
        }
    }

    /// A stack written in the newest form, in `target`'s form: the NBT form
    /// below 1.20.5 where the target has the item, else the structured form
    /// with the item and its component ids in `target`'s numbering and each
    /// payload in the shape `target` reads.
    pub fn to_version(reg: &[DataComponent], item: &Item, target: V, ids: &ComposedMappings) -> (r: Item)
        ensures
            r@ == item_version(reg@, item@, target, *ids),
    {
        match item {
            Item::Structured { count, id, added, .. } => {
                if !target.at_least(FIRST_STRUCTURED) {
                    match mapped_id(&ids.items, *id) {
                        Some(m) => {
                            let byte: i8 = if -128 <= *count && *count <= 127 { *count as i8 } else { 127 };
                            let nbt = components_to_nbt(reg, added, target, ids.enchantment_keys.as_slice());
                            return Item::Nbt { id: m, count: byte, nbt };
                        },
                        None => {},
                    }
                }
                proof {
                    lemma_longest_payload(added@.map_values(|c: ItemComponent| c@));
                }
                let ghost bound = longest_payload(added@.map_values(|c: ItemComponent| c@)) + 1;
                StructuredItemRewriter::version_within(reg, item, target, ids, Ghost(bound))
            },
            _ => StructuredItemRewriter::version_within(reg, item, target, ids, Ghost(0)),
        }
    }
}


/// What rewriting the stack at `pos`, written in the newest form, for
/// `layout` gives: its bytes in `layout`'s form and the position after it.
/// `Read` where there is no stack.
pub open spec fn rewritten_item(reg: Seq<DataComponent>, b: Seq<u8>, pos: int, layout: V, ids: ComposedMappings)
    -> Result<(Seq<u8>, int), TranslateError>
{
    match structured_item_at(reg, b, pos, false) {
        Some((v, p)) => Ok((item_bytes(item_version(reg, v, layout, ids), layout, false), p)),
        None => Err(TranslateError::Read),
    }
}

/// Reads the stack at `pos`, written in the newest form, and appends it to
/// `output` in `layout`'s form, giving the position after it; `output` is
/// left alone on an error.
pub fn rewrite_item(input: &[u8], pos: usize, output: &mut Vec<u8>, layout: V, reg: &[DataComponent],
    ids: &ComposedMappings) -> (r: Result<usize, TranslateError>)
    requires
        pos <= input@.len(),
    ensures
        match rewritten_item(reg@, input@, pos as int, layout, *ids) {
            Ok((bytes, p)) => r matches Ok(q) && q == p && pos <= p <= input@.len()
                && final(output)@ == old(output)@ + bytes,
            Err(e) => r == Err::<usize, TranslateError>(e) && final(output)@ == old(output)@,
        },
{
    let (item, p) = match read_structured(reg, input, pos, false) {
        Some(found) => found,
        None => return Err(TranslateError::Read),
    };
    let out = StructuredItemRewriter::to_version(reg, &item, layout, ids);
    ItemT::for_version(layout).write(output, &out);
    Ok(p)
}

/// The stack at `pos` rewritten for `layout`, for a stack nested in
/// something else such as entity metadata; `None` on any error.
pub fn rewrite_item_value(input: &[u8], pos: usize, layout: V, reg: &[DataComponent], ids: &ComposedMappings)
    -> (r: Option<(Vec<u8>, usize)>)
    requires
        pos <= input@.len(),
    ensures
        match rewritten_item(reg@, input@, pos as int, layout, *ids) {
            Ok((bytes, p)) => r matches Some((v, q)) && v@ == bytes && q == p,
            Err(_) => r is None,
        },
{
    let mut out: Vec<u8> = Vec::new();
    match rewrite_item(input, pos, &mut out, layout, reg, ids) {
        Ok(p) => {
            proof {
                if let Ok((bytes, _)) = rewritten_item(reg@, input@, pos as int, layout, *ids) {
                    assert(Seq::<u8>::empty() + bytes =~= bytes);
                }
            }
            Some((out, p))
        },
        Err(_) => None,
    }
}

/// What rewriting the stack at the front of a wrapper's input does to it.
pub open spec fn item_pass_view(w: WrapperView, layout: V, reg: Seq<DataComponent>, ids: ComposedMappings)
    -> (Result<(), TranslateError>, WrapperView)
{
    match rewritten_item(reg, w.remaining(), 0, layout, ids) {
        Ok((bytes, n)) => (Ok(()), w.consumed(n as nat).written(bytes)),
        Err(e) => (Err(e), w),
    }
}

/// Rewrites the stack at the front of a wrapper's input for `layout`.
pub fn item_pass(wrapper: &mut PacketWrapper, layout: V, reg: &[DataComponent], ids: &ComposedMappings)
    -> (r: Result<(), TranslateError>)
    ensures
        final(wrapper)@.wf(),
        match item_pass_view(old(wrapper)@, layout, reg@, *ids) {
            (Ok(_), w) => r is Ok && final(wrapper)@ == w,
            (Err(e), w) => r == Err::<(), TranslateError>(e) && final(wrapper)@ == w,
        },
{
    let mut out: Vec<u8> = Vec::new();
    let n = match rewrite_item(wrapper.remaining(), 0, &mut out, layout, reg, ids) {
        Ok(n) => n,
        Err(e) => return Err(e),
    };
    proof {
        if let Ok((bytes, _)) = rewritten_item(reg@, old(wrapper)@.remaining(), 0, layout, *ids) {
            assert(Seq::<u8>::empty() + bytes =~= bytes);
        }
    }
    let _ = wrapper.read(&FixedBytesT(n));
    wrapper.write_bytes(out.as_slice());
    Ok(())
}


/// `ids` mapped back through `mapping`, the ones it has no preimage for left out.
pub open spec fn unmapped_ids(ids: Seq<i32>, mapping: IdMapping) -> Seq<i32>
    decreases ids.len(),
{
    if ids.len() == 0 {
        Seq::empty()
    } else {
        let front = unmapped_ids(ids.drop_last(), mapping);
        match unmap_id(mapping, ids.last()) {
            Some(m) => front.push(m),
            None => front,
        }
    }
}

/// Maps `ids` through `inverse`, an inverse of `mapping`.
pub(crate) fn unmap_ids(ids: &Vec<i32>, inverse: &IdMapping, Ghost(mapping): Ghost<IdMapping>) -> (r: Vec<i32>)
    requires
        inverts(*inverse, mapping),
    ensures
        r@ == unmapped_ids(ids@, mapping),
{
    let mut out: Vec<i32> = Vec::new();
    let mut i: usize = 0;
    while i < ids.len()
        invariant
            i <= ids@.len(),
            inverts(*inverse, mapping),
            out@ == unmapped_ids(ids@.take(i as int), mapping),
        decreases ids@.len() - i,
    {
        assert(ids@.take(i + 1).drop_last() =~= ids@.take(i as int));
        proof {
            lemma_inverse_unmaps(mapping, *inverse, ids[i as int]);
        }
        match mapped_id(inverse, ids[i]) {
            Some(m) => out.push(m),
            None => {},
        }
        i = i + 1;
    }
    assert(ids@.take(ids@.len() as int) =~= ids@);
    out
}


// ---------------------------------------------------------------------------
// Stacks a client sends, read back into the newest form
// ---------------------------------------------------------------------------

/// An inverse of `mapping`.
pub open spec fn some_inverse(mapping: IdMapping) -> IdMapping {
    choose|inverse: IdMapping| inverts(inverse, mapping)
}

proof fn lemma_kept_same(b: Seq<u8>, pos: int, n: nat, a: IdMapping, c: IdMapping, kept: Seq<(i32, i32)>)
    requires
        forall|x: i32| #[trigger] map_id(a, x) == map_id(c, x),
    ensures
        kept_enchantments(b, pos, n, a, kept) == kept_enchantments(b, pos, n, c, kept),
    decreases n,
{
    if n > 0 {
        match var_int_field(b, pos) {
            Some((id, p1)) => match var_int_field(b, p1) {
                Some((level, p2)) => {
                    assert(map_id(a, id) == map_id(c, id));
                    lemma_kept_same(b, p2, (n - 1) as nat, a, c, kept);
                    if let Some(m) = map_id(a, id) {
                        lemma_kept_same(b, p2, (n - 1) as nat, a, c, kept.push((m, level)));
                    }
                },
                None => {},
            },
            None => {},
        }
    }
}

/// Every inverse of `mapping` renumbers an enchantment list alike.
pub proof fn lemma_enchantments_any_inverse(b: Seq<u8>, mapping: IdMapping, inverse: IdMapping)
    requires
        inverts(inverse, mapping),
    ensures
        native_enchantments_bytes(b, inverse) == native_enchantments_bytes(b, some_inverse(mapping)),
{
    let other = some_inverse(mapping);
    assert(inverts(other, mapping));
    assert forall|x: i32| #[trigger] map_id(inverse, x) == map_id(other, x) by {
        lemma_inverse_unmaps(mapping, inverse, x);
        lemma_inverse_unmaps(mapping, other, x);
    }
    if let Some((count, p)) = var_int_field(b, 0) {
        lemma_kept_same(b, p, run_count(count), inverse, other, Seq::empty());
    }
}

/// The end of the newest form's payload of component `id` at `pos`, measured
/// by its shape.
pub open spec fn measured_end(reg: Seq<DataComponent>, id: i32, b: Seq<u8>, pos: int) -> Option<int> {
    match component_len(reg, id, b, pos) {
        Some(len) => if 0 <= len && pos + len <= b.len() { Some(pos + len) } else { None },
        None => None,
    }
}

/// Whether `component` is an enchantment list.
pub open spec fn is_enchantment_list(component: DataComponent) -> bool {
    component == DataComponent::Enchantments || component == DataComponent::StoredEnchantments
}

/// A payload a client on `version` sent for the component the newest protocol
/// numbers `id`, at `pos`: the newest form where the component is, and the
/// position after it; no form where nothing here can rebuild one, and `None`
/// where the bytes do not read. Where `version` writes the newest shape the
/// payload is taken as it is, an enchantment list renumbered back through
/// `enchantments`, an inverse of the enchantment table; an older unbreakable
/// flag becomes an empty payload, an enchantment list or dyed colour loses
/// its tooltip flag, and entity data gains a leading type of zero.
pub open spec fn client_payload(reg: Seq<DataComponent>, id: i32, b: Seq<u8>, pos: int, version: V,
    enchantments: IdMapping) -> Option<(Option<Seq<u8>>, int)>
{
    let component = reg[id as int];
    let measured = measured_end(reg, id, b, pos);
    if version.spec_at_least(spec_shape_floor(component)) {
        match measured {
            Some(end) => {
                let native = b.subrange(pos, end);
                if is_enchantment_list(component) {
                    match native_enchantments_bytes(native, enchantments) {
                        Some(renumbered) => Some((Some(renumbered), end)),
                        None => None,
                    }
                } else {
                    Some((Some(native), end))
                }
            },
            None => None,
        }
    } else {
        match component {
            DataComponent::Unbreakable => match bool_field(b, pos) {
                Some((_, p)) => Some((Some(Seq::empty()), p)),
                None => None,
            },
            DataComponent::Enchantments | DataComponent::StoredEnchantments | DataComponent::DyedColor => match measured {
                Some(end) => match bool_field(b, end) {
                    Some((_, p)) => {
                        let native = b.subrange(pos, end);
                        if component == DataComponent::DyedColor {
                            Some((Some(native), p))
                        } else {
                            match native_enchantments_bytes(native, enchantments) {
                                Some(renumbered) => Some((Some(renumbered), p)),
                                None => None,
                            }
                        }
                    },
                    None => None,
                },
                None => None,
            },
            DataComponent::EntityData | DataComponent::BlockEntityData => match nbt_end_for(b, pos, version) {
                Some(end) => Some((Some(var_int_bytes(0) + b.subrange(pos, end)), end)),
                None => None,
            },
            _ => match client_payload_end(reg, component, b, pos, version) {
                Some(end) => Some((None, end)),
                None => None,
            },
        }
    }
}

/// The component the newest protocol numbers as `client_id` maps back to, where
/// `reg` lists it.
pub open spec fn native_component(reg: Seq<DataComponent>, client_id: i32, ids: ComposedMappings) -> Option<i32> {
    match unmap_id(ids.data_component_type, client_id) {
        Some(id) => if known_component(reg, id as int) { Some(id) } else { None },
        None => None,
    }
}

/// One added component a client on `version` sent, at `pos`: its id, its
/// payload's length where `length_prefixed`, and the payload, in the newest
/// form with the newest id where there is one. A component with no newest
/// counterpart is skipped where its length is written or it has no payload,
/// and refused otherwise.
pub open spec fn client_component(reg: Seq<DataComponent>, b: Seq<u8>, pos: int, version: V, length_prefixed: bool,
    ids: ComposedMappings) -> Option<(Option<ComponentView>, int)>
{
    let enchantments = some_inverse(ids.enchantments);
    match var_int_field(b, pos) {
        Some((client_id, p1)) => {
            let native = native_component(reg, client_id, ids);
            if length_prefixed {
                match var_int_field(b, p1) {
                    Some((len, p2)) => if len < 0 || p2 + len > b.len() {
                        None
                    } else {
                        match native {
                            Some(id) => match client_payload(reg, id, b.subrange(p2, p2 + len), 0, version, enchantments) {
                                Some((Some(data), _)) => Some((Some(ComponentView { id, data }), p2 + len)),
                                Some((None, _)) => Some((None, p2 + len)),
                                None => None,
                            },
                            None => Some((None, p2 + len)),
                        }
                    },
                    None => None,
                }
            } else {
                match native {
                    Some(id) => match client_payload(reg, id, b, p1, version, enchantments) {
                        Some((Some(data), p)) => Some((Some(ComponentView { id, data }), p)),
                        Some((None, p)) => Some((None, p)),
                        None => None,
                    },
                    None => if spec_client_component_is_empty(client_id, version) { Some((None, p1)) } else { None },
                }
            }
        },
        None => None,
    }
}

/// `n` added components a client sent, from `pos`, after `acc`.
pub open spec fn client_components(reg: Seq<DataComponent>, b: Seq<u8>, pos: int, n: nat, version: V,
    length_prefixed: bool, ids: ComposedMappings, acc: Seq<ComponentView>) -> Option<(Seq<ComponentView>, int)>
    decreases n,
{
    if n == 0 {
        if 0 <= pos <= b.len() { Some((acc, pos)) } else { None }
    } else {
        match client_component(reg, b, pos, version, length_prefixed, ids) {
            Some((c, p)) => client_components(reg, b, p, (n - 1) as nat, version, length_prefixed, ids, match c {
                Some(x) => acc.push(x),
                None => acc,
            }),
            None => None,
        }
    }
}

/// A structured stack a client on `version` sent, at `pos`, in the newest
/// form: its item, components and removed ids mapped back, an empty stack
/// where the item has no newest counterpart. Counts past the bound are refused.
pub open spec fn client_item_at(reg: Seq<DataComponent>, b: Seq<u8>, pos: int, version: V, length_prefixed: bool,
    ids: ComposedMappings) -> Option<(ItemView, int)>
{
    match var_int_field(b, pos) {
        Some((count, p1)) => if count == 0 {
            Some((ItemView::Empty, p1))
        } else {
            match var_int_field(b, p1) {
                Some((raw_id, p2)) => match var_int_field(b, p2) {
                    Some((to_add, p3)) => match var_int_field(b, p3) {
                        Some((to_remove, p4)) => if !count_fits(to_add) || !count_fits(to_remove) {
                            None
                        } else {
                            match client_components(reg, b, p4, to_add as nat, version, length_prefixed, ids, Seq::empty()) {
                                Some((added, p5)) => match ids_at(b, p5, to_remove as nat, Seq::empty()) {
                                    Some((raw_removed, p6)) => match unmap_id(ids.items, raw_id) {
                                        Some(id) => Some((
                                            ItemView::Structured {
                                                count,
                                                id,
                                                added,
                                                removed: unmapped_ids(raw_removed, ids.data_component_type),
                                            },
                                            p6,
                                        )),
                                        None => Some((ItemView::Empty, p6)),
                                    },
                                    None => None,
                                },
                                None => None,
                            }
                        },
                        None => None,
                    },
                    None => None,
                },
                None => None,
            }
        },
        None => None,
    }
}


/// The view of optional bytes.
pub open spec fn bytes_view(x: Option<Vec<u8>>) -> Option<Seq<u8>> {
    match x {
        Some(v) => Some(v@),
        None => None,
    }
}

/// The view of an optional component.
pub open spec fn component_view(x: Option<ItemComponent>) -> Option<ComponentView> {
    match x {
        Some(c) => Some(c@),
        None => None,
    }
}

fn measured(reg: &[DataComponent], id: i32, b: &[u8], pos: usize) -> (r: Option<usize>)
    requires
        pos <= b@.len(),
    ensures
        match measured_end(reg@, id, b@, pos as int) {
            Some(end) => r matches Some(e) && e == end && pos <= e <= b@.len(),
            None => r is None,
        },
{
    let rest = slice_subrange(b, pos, b.len());
    proof {
        assert(rest@.subrange(0, rest@.len() as int) =~= rest@);
    }
    match component_payload_len(reg, id, rest) {
        Some(len) => if len <= b.len() - pos { Some(pos + len) } else { None },
        None => None,
    }
}

fn copy_slice(b: &[u8], start: usize, end: usize) -> (r: Vec<u8>)
    requires
        start <= end <= b@.len(),
    ensures
        r@ == b@.subrange(start as int, end as int),
{
    let mut out: Vec<u8> = Vec::new();
    append_bytes(&mut out, slice_subrange(b, start, end));
    out
}

fn renumbered(native: &[u8], enchantments: &IdMapping, Ghost(ids): Ghost<ComposedMappings>) -> (r: Option<Vec<u8>>)
    requires
        inverts(*enchantments, ids.enchantments),
    ensures
        bytes_view(r) == native_enchantments_bytes(native@, some_inverse(ids.enchantments)),
{
    proof {
        lemma_enchantments_any_inverse(native@, ids.enchantments, *enchantments);
    }
    native_enchantments(native, enchantments)
}

/// Reads the payload a client on `version` sent for component `id`.
fn read_client_payload(reg: &[DataComponent], id: i32, b: &[u8], pos: usize, version: V, enchantments: &IdMapping,
    Ghost(ids): Ghost<ComposedMappings>) -> (r: Option<(Option<Vec<u8>>, usize)>)
    requires
        pos <= b@.len(),
        known_component(reg@, id as int),
        inverts(*enchantments, ids.enchantments),
    ensures
        match client_payload(reg@, id, b@, pos as int, version, some_inverse(ids.enchantments)) {
            Some((d, p)) => r matches Some((x, q)) && bytes_view(x) == d && q == p && pos <= q <= b@.len(),
            None => r is None,
        },
{
    let component = reg[id as usize];
    if version.at_least(shape_floor(component)) {
        let end = match measured(reg, id, b, pos) {
            Some(e) => e,
            None => return None,
        };
        let native = slice_subrange(b, pos, end);
        if component == DataComponent::Enchantments || component == DataComponent::StoredEnchantments {
            match renumbered(native, enchantments, Ghost(ids)) {
                Some(x) => Some((Some(x), end)),
                None => None,
            }
        } else {
            Some((Some(copy_slice(b, pos, end)), end))
        }
    } else {
        match component {
            DataComponent::Unbreakable => match read_bool(b, pos) {
                Some((_, p)) => Some((Some(Vec::new()), p)),
                None => None,
            },
            DataComponent::Enchantments | DataComponent::StoredEnchantments | DataComponent::DyedColor => {
                let end = match measured(reg, id, b, pos) {
                    Some(e) => e,
                    None => return None,
                };
                let p = match read_bool(b, end) {
                    Some((_, p)) => p,
                    None => return None,
                };
                if component == DataComponent::DyedColor {
                    Some((Some(copy_slice(b, pos, end)), p))
                } else {
                    match renumbered(slice_subrange(b, pos, end), enchantments, Ghost(ids)) {
                        Some(x) => Some((Some(x), p)),
                        None => None,
                    }
                }
            },
            DataComponent::EntityData | DataComponent::BlockEntityData => {
                let end = match skip_nbt_for(b, pos, version) {
                    Some(e) => e,
                    None => return None,
                };
                let mut out: Vec<u8> = Vec::new();
                write_var_int(&mut out, 0);
                append_bytes(&mut out, slice_subrange(b, pos, end));
                Some((Some(out), end))
            },
            _ => match skip_client_payload(reg, component, b, pos, version) {
                Some(end) => Some((None, end)),
                None => None,
            },
        }
    }
}

/// The inverses a client's stack is read back through.
struct Inverses {
    items: IdMapping,
    components: IdMapping,
    enchantments: IdMapping,
}

impl Inverses {
    spec fn of(self, ids: ComposedMappings) -> bool {
        &&& inverts(self.items, ids.items)
        &&& inverts(self.components, ids.data_component_type)
        &&& inverts(self.enchantments, ids.enchantments)
    }
}

fn inverses(ids: &ComposedMappings) -> (r: Inverses)
    ensures
        r.of(*ids),
{
    Inverses {
        items: ids.items_inverse(),
        components: ids.data_component_type_inverse(),
        enchantments: ids.enchantments.inverse(),
    }
}

fn native_id(reg: &[DataComponent], client_id: i32, inv: &Inverses, Ghost(ids): Ghost<ComposedMappings>) -> (r: Option<i32>)
    requires
        inv.of(ids),
    ensures
        r == native_component(reg@, client_id, ids),
{
    proof {
        lemma_inverse_unmaps(ids.data_component_type, inv.components, client_id);
    }
    match mapped_id(&inv.components, client_id) {
        Some(id) => if 0 <= id && id < 256 && (id as usize) < reg.len() { Some(id) } else { None },
        None => None,
    }
}

fn read_client_component(reg: &[DataComponent], b: &[u8], pos: usize, version: V, length_prefixed: bool,
    inv: &Inverses, Ghost(ids): Ghost<ComposedMappings>) -> (r: Option<(Option<ItemComponent>, usize)>)
    requires
        pos <= b@.len(),
        inv.of(ids),
    ensures
        match client_component(reg@, b@, pos as int, version, length_prefixed, ids) {
            Some((c, p)) => r matches Some((x, q)) && component_view(x) == c && q == p && pos <= q <= b@.len(),
            None => r is None,
        },
{
    let (client_id, p1) = match var_int_end(b, pos) {
        Some(found) => found,
        None => return None,
    };
    let native = native_id(reg, client_id, inv, Ghost(ids));
    if length_prefixed {
        let (len, p2) = match var_int_end(b, p1) {
            Some(found) => found,
            None => return None,
        };
        if len < 0 || len as usize > b.len() - p2 {
            return None;
        }
        let end = p2 + len as usize;
        match native {
            Some(id) => {
                let body = slice_subrange(b, p2, end);
                match read_client_payload(reg, id, body, 0, version, &inv.enchantments, Ghost(ids)) {
                    Some((Some(data), _)) => Some((Some(ItemComponent { id, data }), end)),
                    Some((None, _)) => Some((None, end)),
                    None => None,
                }
            },
            None => Some((None, end)),
        }
    } else {
        match native {
            Some(id) => match read_client_payload(reg, id, b, p1, version, &inv.enchantments, Ghost(ids)) {
                Some((Some(data), p)) => Some((Some(ItemComponent { id, data }), p)),
                Some((None, p)) => Some((None, p)),
                None => None,
            },
            None => if client_component_is_empty(client_id, version) { Some((None, p1)) } else { None },
        }
    }
}

fn read_client_components(reg: &[DataComponent], b: &[u8], pos: usize, n: i32, version: V, length_prefixed: bool,
    inv: &Inverses, Ghost(ids): Ghost<ComposedMappings>) -> (r: Option<(Vec<ItemComponent>, usize)>)
    requires
        pos <= b@.len(),
        n >= 0,
        inv.of(ids),
    ensures
        match client_components(reg@, b@, pos as int, n as nat, version, length_prefixed, ids, Seq::empty()) {
            Some((cs, p)) => r matches Some((x, q)) && x@.map_values(|c: ItemComponent| c@) == cs && q == p
                && pos <= q <= b@.len(),
            None => r is None,
        },
{
    let mut out: Vec<ItemComponent> = Vec::new();
    let mut left = n;
    let mut p = pos;
    assert(out@.map_values(|c: ItemComponent| c@) =~= Seq::<ComponentView>::empty());
    while left > 0
        invariant
            pos <= p <= b@.len(),
            0 <= left,
            inv.of(ids),
            client_components(reg@, b@, pos as int, n as nat, version, length_prefixed, ids, Seq::empty())
                == client_components(reg@, b@, p as int, left as nat, version, length_prefixed, ids,
                    out@.map_values(|c: ItemComponent| c@)),
        decreases left,
    {
        let (c, q) = match read_client_component(reg, b, p, version, length_prefixed, inv, Ghost(ids)) {
            Some(found) => found,
            None => return None,
        };
        let ghost before = out@.map_values(|c: ItemComponent| c@);
        match c {
            Some(x) => {
                let ghost view = x@;
                out.push(x);
                assert(out@.map_values(|c: ItemComponent| c@) =~= before.push(view));
            },
            None => {},
        }
        p = q;
        left = left - 1;
    }
    Some((out, p))
}

fn read_client_structured(reg: &[DataComponent], b: &[u8], pos: usize, version: V, length_prefixed: bool,
    inv: &Inverses, Ghost(ids): Ghost<ComposedMappings>) -> (r: Option<(Item, usize)>)
    requires
        pos <= b@.len(),
        inv.of(ids),
    ensures
        match client_item_at(reg@, b@, pos as int, version, length_prefixed, ids) {
            Some((v, p)) => r matches Some((x, q)) && x@ == v && q == p && pos <= q <= b@.len(),
            None => r is None,
        },
{
    let (count, p1) = match var_int_end(b, pos) {
        Some(found) => found,
        None => return None,
    };
    if count == 0 {
        return Some((Item::Empty, p1));
    }
    let (raw_id, p2) = match var_int_end(b, p1) {
        Some(found) => found,
        None => return None,
    };
    let (to_add, p3) = match var_int_end(b, p2) {
        Some(found) => found,
        None => return None,
    };
    let (to_remove, p4) = match var_int_end(b, p3) {
        Some(found) => found,
        None => return None,
    };
    if to_add < 0 || to_add > MAX_COMPONENTS || to_remove < 0 || to_remove > MAX_COMPONENTS {
        return None;
    }
    let (added, p5) = match read_client_components(reg, b, p4, to_add, version, length_prefixed, inv, Ghost(ids)) {
        Some(found) => found,
        None => return None,
    };
    let (raw_removed, p6) = match read_ids(b, p5, to_remove) {
        Some(found) => found,
        None => return None,
    };
    let removed = unmap_ids(&raw_removed, &inv.components, Ghost(ids.data_component_type));
    proof {
        lemma_inverse_unmaps(ids.items, inv.items, raw_id);
    }
    match mapped_id(&inv.items, raw_id) {
        Some(id) => Some((Item::Structured { count, id, added, removed }, p6)),
        None => Some((Item::Empty, p6)),
    }
}

/// `cs` with their ids mapped back through `mapping`, the ones it has no
/// preimage for left out.
pub open spec fn unmapped_components(cs: Seq<ComponentView>, mapping: IdMapping) -> Seq<ComponentView>
    decreases cs.len(),
{
    if cs.len() == 0 {
        Seq::empty()
    } else {
        let front = unmapped_components(cs.drop_last(), mapping);
        match unmap_id(mapping, cs.last().id) {
            Some(id) => front.push(ComponentView { id, data: cs.last().data }),
            None => front,
        }
    }
}

/// A stack a client on `version` sent in its own numbering, back in the
/// newest one: an empty stack where the item has no counterpart, components
/// and removed ids without one left out, and a stack in the NBT form with
/// the components its document stands for.
pub open spec fn native_version(reg: Seq<DataComponent>, v: ItemView, version: V, ids: ComposedMappings) -> ItemView {
    match v {
        ItemView::Empty => ItemView::Empty,
        ItemView::Nbt { id, count, nbt } => match unmap_id(ids.items, id) {
            Some(native) => ItemView::Structured {
                count: count as i32,
                id: native,
                added: match nbt {
                    Some(doc) => nbt_components(reg, doc, version, ids.enchantment_keys@),
                    None => Seq::empty(),
                },
                removed: Seq::empty(),
            },
            None => ItemView::Empty,
        },
        ItemView::Structured { count, id, added, removed } => match unmap_id(ids.items, id) {
            Some(native) => ItemView::Structured {
                count,
                id: native,
                added: unmapped_components(added, ids.data_component_type),
                removed: unmapped_ids(removed, ids.data_component_type),
            },
            None => ItemView::Empty,
        },
    }
}

impl StructuredItemRewriter {
    /// A stack a client on `version` sent, back in the newest numbering.
    pub fn to_native(reg: &[DataComponent], item: &Item, version: V, ids: &ComposedMappings) -> (r: Item)
        ensures
            r@ == native_version(reg@, item@, version, *ids),
    {
        match item {
            Item::Empty => Item::Empty,
            Item::Nbt { id, count, nbt } => {
                let items = ids.items_inverse();
                proof {
                    lemma_inverse_unmaps(ids.items, items, *id);
                }
                match mapped_id(&items, *id) {
                    Some(native) => {
                        let added = match nbt {
                            Some(doc) => nbt_to_components(reg, doc.as_slice(), version, ids.enchantment_keys.as_slice()),
                            None => {
                                let v: Vec<ItemComponent> = Vec::new();
                                assert(v@.map_values(|c: ItemComponent| c@) =~= Seq::<ComponentView>::empty());
                                v
                            },
                        };
                        let removed: Vec<i32> = Vec::new();
                        assert(removed@ =~= Seq::<i32>::empty());
                        Item::Structured { count: *count as i32, id: native, added, removed }
                    },
                    None => Item::Empty,
                }
            },
            Item::Structured { count, id, added, removed } => {
                let items = ids.items_inverse();
                let components = ids.data_component_type_inverse();
                proof {
                    lemma_inverse_unmaps(ids.items, items, *id);
                }
                let native = match mapped_id(&items, *id) {
                    Some(n) => n,
                    None => return Item::Empty,
                };
                let ghost views = added@.map_values(|c: ItemComponent| c@);
                let mut out: Vec<ItemComponent> = Vec::new();
                let mut i: usize = 0;
                while i < added.len()
                    invariant
                        i <= added@.len(),
                        views == added@.map_values(|c: ItemComponent| c@),
                        inverts(components, ids.data_component_type),
                        out@.map_values(|c: ItemComponent| c@)
                            == unmapped_components(views.take(i as int), ids.data_component_type),
                    decreases added@.len() - i,
                {
                    let c = &added[i];
                    let ghost before = out@.map_values(|c: ItemComponent| c@);
                    assert(views.take(i + 1).drop_last() =~= views.take(i as int));
                    assert(views.take(i + 1).last() == c@);
                    proof {
                        lemma_inverse_unmaps(ids.data_component_type, components, c.id);
                    }
                    match mapped_id(&components, c.id) {
                        Some(cid) => {
                            let data = copy_bytes(&c.data);
                            let ghost view = ComponentView { id: cid, data: data@ };
                            out.push(ItemComponent { id: cid, data });
                            assert(out@.map_values(|c: ItemComponent| c@) =~= before.push(view));
                        },
                        None => {},
                    }
                    i = i + 1;
                }
                assert(views.take(added@.len() as int) =~= views);
                let kept = unmap_ids(removed, &components, Ghost(ids.data_component_type));
                Item::Structured { count: *count, id: native, added: out, removed: kept }
            },
        }
    }
}

/// A stack a client on `version` sent, at `pos`, in the newest form, and
/// the position after it: the structured form from 1.20.5, read component
/// by component, and below it the NBT form, whose document is turned into
/// components. `Read` where the bytes are not a stack.
pub open spec fn client_item(reg: Seq<DataComponent>, b: Seq<u8>, pos: int, version: V, length_prefixed: bool,
    ids: ComposedMappings) -> Result<(ItemView, int), TranslateError>
{
    if version.spec_at_least(FIRST_STRUCTURED) {
        match client_item_at(reg, b, pos, version, length_prefixed, ids) {
            Some(found) => Ok(found),
            None => Err(TranslateError::Read),
        }
    } else {
        match nbt_item_at(b, pos, version) {
            Some((v, p)) => Ok((native_version(reg, v, version, ids), p)),
            None => Err(TranslateError::Read),
        }
    }
}

/// Reads one stack a client on `version` sent and gives it in the newest
/// form, with the position after it.
pub fn read_client_item(reg: &[DataComponent], b: &[u8], pos: usize, version: V, length_prefixed: bool,
    ids: &ComposedMappings) -> (r: Result<(Item, usize), TranslateError>)
    requires
        pos <= b@.len(),
    ensures
        match client_item(reg@, b@, pos as int, version, length_prefixed, *ids) {
            Ok((v, p)) => r matches Ok((x, q)) && x@ == v && q == p && pos <= q <= b@.len(),
            Err(e) => r == Err::<(Item, usize), TranslateError>(e),
        },
{
    if !version.at_least(FIRST_STRUCTURED) {
        let (item, p) = match read_nbt_item(b, pos, version) {
            Some(found) => found,
            None => return Err(TranslateError::Read),
        };
        return Ok((StructuredItemRewriter::to_native(reg, &item, version, ids), p));
    }
    let inv = inverses(ids);
    match read_client_structured(reg, b, pos, version, length_prefixed, &inv, Ghost(*ids)) {
        Some(found) => Ok(found),
        None => Err(TranslateError::Read),
    }
}


// ---------------------------------------------------------------------------
// What putting a stack in an older form keeps
// ---------------------------------------------------------------------------

/// An empty stack stays empty in every form, and is written as a single zero
/// byte in each: a zero count in the structured form, an absent flag in the
/// NBT form.
pub proof fn law_empty_stays_empty(reg: Seq<DataComponent>, target: V, ids: ComposedMappings, length_prefixed: bool)
    ensures
        !needs_nbt_form(ItemView::Empty, target, ids),
        item_version(reg, ItemView::Empty, target, ids) == ItemView::Empty,
        item_bytes(ItemView::Empty, target, length_prefixed) == seq![0u8],
{
    reveal_with_fuel(crate::codec::var_bytes, 2);
    assert(var_int_bytes(0) == seq![0u8]);
}

/// A stack whose item the target has no id for becomes an empty stack.
pub proof fn law_missing_item_empties(reg: Seq<DataComponent>, v: ItemView, target: V, ids: ComposedMappings)
    requires
        v is Structured,
        map_id(ids.items, v->Structured_id) is None,
    ensures
        !needs_nbt_form(v, target, ids),
        item_version(reg, v, target, ids) == ItemView::Empty,
{
}

proof fn lemma_components_version_ids(reg: Seq<DataComponent>, cs: Seq<ComponentView>, target: V, ids: ComposedMappings,
    bound: nat)
    ensures
        forall|j: int| 0 <= j < components_version(reg, cs, target, ids, bound).len() ==> exists|i: int|
            0 <= i < cs.len() && map_id(ids.data_component_type, #[trigger] cs[i].id)
                == Some(#[trigger] components_version(reg, cs, target, ids, bound)[j].id),
    decreases cs.len(),
{
    if cs.len() > 0 {
        let front = cs.drop_last();
        lemma_components_version_ids(reg, front, target, ids, bound);
        let out = components_version(reg, cs, target, ids, bound);
        let before = components_version(reg, front, target, ids, bound);
        assert forall|j: int| 0 <= j < out.len() implies exists|i: int|
            0 <= i < cs.len() && map_id(ids.data_component_type, #[trigger] cs[i].id) == Some(#[trigger] out[j].id) by {
            if j < before.len() {
                assert(out[j] == before[j]);
                let i = choose|i: int| 0 <= i < front.len() && map_id(ids.data_component_type, #[trigger] front[i].id)
                    == Some(#[trigger] before[j].id);
                assert(cs[i] == front[i]);
            } else {
                assert(map_id(ids.data_component_type, cs[cs.len() - 1].id) == Some(out[j].id));
            }
        }
    }
}

/// Every component of a stack put in `target`'s form is one of the
/// original's under the id `target` has for it: a component the target has
/// no id for leaves the stack rather than travel under another's id.
pub proof fn law_components_keep_their_ids(reg: Seq<DataComponent>, v: ItemView, target: V, ids: ComposedMappings)
    requires
        v is Structured,
        item_version(reg, v, target, ids) is Structured,
    ensures
        forall|j: int| 0 <= j < item_version(reg, v, target, ids)->Structured_added.len() ==> exists|i: int|
            0 <= i < v->Structured_added.len() && map_id(ids.data_component_type, #[trigger] v->Structured_added[i].id)
                == Some(#[trigger] item_version(reg, v, target, ids)->Structured_added[j].id),
{
    let added = v->Structured_added;
    let bound = longest_payload(added) + 1;
    let out = components_version(reg, added, target, ids, bound);
    lemma_components_version_ids(reg, added, target, ids, bound);
    assert(!needs_nbt_form(v, target, ids));
    assert(item_version(reg, v, target, ids) == stack_version(reg, v, target, ids, bound));
    assert(item_version(reg, v, target, ids)->Structured_added == out);
}

} // verus!
