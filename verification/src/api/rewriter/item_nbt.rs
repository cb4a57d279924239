//! The NBT form clients below 1.20.5 carry a stack's data in: the tags the
//! newest components stand for there.

use vstd::prelude::*;
use vstd::string::StringSliceAdditionalSpecFns;
use crate::api::item::ComponentView;
use crate::api::item::ItemComponent;
use crate::api::rewriter::item_shape::DataComponent;
use crate::api::types::{WireType, I16, I32, I64, I8, VAR_INT};
use crate::codec::{append_bytes, rest_of};
use crate::nbt::{compound_end, i32_at, payload_end, skip_compound, skip_payload, u16_at, TAG_COMPOUND, TAG_END, TAG_LIST};
use vstd::slice::slice_subrange;
use crate::packet::chunk_legacy::{field, read_field};
use crate::version::JavaMinecraftVersion as V;

verus! {

/// The NBT tag types the item tags are written with.
pub const TAG_BYTE: u8 = 1;
pub const TAG_SHORT: u8 = 2;
pub const TAG_INT: u8 = 3;
pub const TAG_LONG: u8 = 4;
pub const TAG_STRING: u8 = 8;

/// An enchantment of the newest registry, by the name clients below 1.20.5
/// know it by; `Newer` for one none of them has.
#[derive(Clone, Copy, Debug, PartialEq, Eq, Structural)]
pub enum EnchantmentKey {
    AquaAffinity,
    BaneOfArthropods,
    BindingCurse,
    BlastProtection,
    Channeling,
    DepthStrider,
    Efficiency,
    FeatherFalling,
    FireAspect,
    FireProtection,
    Flame,
    Fortune,
    FrostWalker,
    Impaling,
    Infinity,
    Knockback,
    Looting,
    Loyalty,
    LuckOfTheSea,
    Lure,
    Mending,
    Power,
    ProjectileProtection,
    Protection,
    Punch,
    Respiration,
    Riptide,
    Sharpness,
    SilkTouch,
    Smite,
    SweepingEdge,
    Thorns,
    Unbreaking,
    VanishingCurse,
    Multishot,
    Piercing,
    QuickCharge,
    SoulSpeed,
    SwiftSneak,
    Newer,
}

/// The registry name an enchantment had before 1.20.5; `sweeping_edge` was
/// `sweeping` there.
pub open spec fn spec_legacy_key(e: EnchantmentKey) -> &'static str {
    match e {
        EnchantmentKey::AquaAffinity => "aqua_affinity",
        EnchantmentKey::BaneOfArthropods => "bane_of_arthropods",
        EnchantmentKey::BindingCurse => "binding_curse",
        EnchantmentKey::BlastProtection => "blast_protection",
        EnchantmentKey::Channeling => "channeling",
        EnchantmentKey::DepthStrider => "depth_strider",
        EnchantmentKey::Efficiency => "efficiency",
        EnchantmentKey::FeatherFalling => "feather_falling",
        EnchantmentKey::FireAspect => "fire_aspect",
        EnchantmentKey::FireProtection => "fire_protection",
        EnchantmentKey::Flame => "flame",
        EnchantmentKey::Fortune => "fortune",
        EnchantmentKey::FrostWalker => "frost_walker",
        EnchantmentKey::Impaling => "impaling",
        EnchantmentKey::Infinity => "infinity",
        EnchantmentKey::Knockback => "knockback",
        EnchantmentKey::Looting => "looting",
        EnchantmentKey::Loyalty => "loyalty",
        EnchantmentKey::LuckOfTheSea => "luck_of_the_sea",
        EnchantmentKey::Lure => "lure",
        EnchantmentKey::Mending => "mending",
        EnchantmentKey::Power => "power",
        EnchantmentKey::ProjectileProtection => "projectile_protection",
        EnchantmentKey::Protection => "protection",
        EnchantmentKey::Punch => "punch",
        EnchantmentKey::Respiration => "respiration",
        EnchantmentKey::Riptide => "riptide",
        EnchantmentKey::Sharpness => "sharpness",
        EnchantmentKey::SilkTouch => "silk_touch",
        EnchantmentKey::Smite => "smite",
        EnchantmentKey::SweepingEdge => "sweeping",
        EnchantmentKey::Thorns => "thorns",
        EnchantmentKey::Unbreaking => "unbreaking",
        EnchantmentKey::VanishingCurse => "vanishing_curse",
        EnchantmentKey::Multishot => "multishot",
        EnchantmentKey::Piercing => "piercing",
        EnchantmentKey::QuickCharge => "quick_charge",
        EnchantmentKey::SoulSpeed => "soul_speed",
        EnchantmentKey::SwiftSneak => "swift_sneak",
        EnchantmentKey::Newer => "",
    }
}

/// The registry name an enchantment had before 1.20.5.
#[verifier::when_used_as_spec(spec_legacy_key)]
pub fn legacy_key(e: EnchantmentKey) -> (r: &'static str)
    ensures
        r == spec_legacy_key(e),
{
    match e {
        EnchantmentKey::AquaAffinity => "aqua_affinity",
        EnchantmentKey::BaneOfArthropods => "bane_of_arthropods",
        EnchantmentKey::BindingCurse => "binding_curse",
        EnchantmentKey::BlastProtection => "blast_protection",
        EnchantmentKey::Channeling => "channeling",
        EnchantmentKey::DepthStrider => "depth_strider",
        EnchantmentKey::Efficiency => "efficiency",
        EnchantmentKey::FeatherFalling => "feather_falling",
        EnchantmentKey::FireAspect => "fire_aspect",
        EnchantmentKey::FireProtection => "fire_protection",
        EnchantmentKey::Flame => "flame",
        EnchantmentKey::Fortune => "fortune",
        EnchantmentKey::FrostWalker => "frost_walker",
        EnchantmentKey::Impaling => "impaling",
        EnchantmentKey::Infinity => "infinity",
        EnchantmentKey::Knockback => "knockback",
        EnchantmentKey::Looting => "looting",
        EnchantmentKey::Loyalty => "loyalty",
        EnchantmentKey::LuckOfTheSea => "luck_of_the_sea",
        EnchantmentKey::Lure => "lure",
        EnchantmentKey::Mending => "mending",
        EnchantmentKey::Power => "power",
        EnchantmentKey::ProjectileProtection => "projectile_protection",
        EnchantmentKey::Protection => "protection",
        EnchantmentKey::Punch => "punch",
        EnchantmentKey::Respiration => "respiration",
        EnchantmentKey::Riptide => "riptide",
        EnchantmentKey::Sharpness => "sharpness",
        EnchantmentKey::SilkTouch => "silk_touch",
        EnchantmentKey::Smite => "smite",
        EnchantmentKey::SweepingEdge => "sweeping",
        EnchantmentKey::Thorns => "thorns",
        EnchantmentKey::Unbreaking => "unbreaking",
        EnchantmentKey::VanishingCurse => "vanishing_curse",
        EnchantmentKey::Multishot => "multishot",
        EnchantmentKey::Piercing => "piercing",
        EnchantmentKey::QuickCharge => "quick_charge",
        EnchantmentKey::SoulSpeed => "soul_speed",
        EnchantmentKey::SwiftSneak => "swift_sneak",
        EnchantmentKey::Newer => "",
    }
}

/// Whether a client on `version` has enchantment `e`: every one from 1.13,
/// the crossbow's from 1.14, soul speed from 1.16 and swift sneak from 1.19.
pub open spec fn spec_enchantment_exists_on(e: EnchantmentKey, version: V) -> bool {
    match e {
        EnchantmentKey::Multishot | EnchantmentKey::Piercing | EnchantmentKey::QuickCharge =>
            version.spec_at_least(V::V_1_14),
        EnchantmentKey::SoulSpeed => version.spec_at_least(V::V_1_16),
        EnchantmentKey::SwiftSneak => version.spec_at_least(V::V_1_19),
        EnchantmentKey::Newer => false,
        _ => true,
    }
}

/// Whether a client on `version` has enchantment `e`.
pub fn enchantment_exists_on(e: EnchantmentKey, version: V) -> (r: bool)
    ensures
        r == spec_enchantment_exists_on(e, version),
{
    match e {
        EnchantmentKey::Multishot | EnchantmentKey::Piercing | EnchantmentKey::QuickCharge =>
            version.at_least(V::V_1_14),
        EnchantmentKey::SoulSpeed => version.at_least(V::V_1_16),
        EnchantmentKey::SwiftSneak => version.at_least(V::V_1_19),
        EnchantmentKey::Newer => false,
        _ => true,
    }
}

/// An ASCII literal has as many bytes as characters.
proof fn lemma_ascii_len(s: &str)
    requires
        vstd::string::is_ascii(s),
    ensures
        s.spec_bytes().len() == s@.len(),
{
    broadcast use vstd::string::is_ascii_spec_bytes;
}

/// The name a client on `version` knows enchantment `e` by, without its
/// namespace; `None` where it has no such enchantment.
pub fn legacy_enchantment_name(e: EnchantmentKey, version: V) -> (r: Option<&'static str>)
    ensures
        r == (if spec_enchantment_exists_on(e, version) { Some(spec_legacy_key(e)) } else { None::<&'static str> }),
{
    if enchantment_exists_on(e, version) { Some(legacy_key(e)) } else { None }
}

/// Every legacy name is short.
proof fn lemma_key_len(e: EnchantmentKey)
    ensures
        spec_legacy_key(e).spec_bytes().len() <= 30,
{
    match e {
        EnchantmentKey::AquaAffinity => {
            reveal_strlit("aqua_affinity");
            lemma_ascii_len("aqua_affinity");
        },
        EnchantmentKey::BaneOfArthropods => {
            reveal_strlit("bane_of_arthropods");
            lemma_ascii_len("bane_of_arthropods");
        },
        EnchantmentKey::BindingCurse => {
            reveal_strlit("binding_curse");
            lemma_ascii_len("binding_curse");
        },
        EnchantmentKey::BlastProtection => {
            reveal_strlit("blast_protection");
            lemma_ascii_len("blast_protection");
        },
        EnchantmentKey::Channeling => {
            reveal_strlit("channeling");
            lemma_ascii_len("channeling");
        },
        EnchantmentKey::DepthStrider => {
            reveal_strlit("depth_strider");
            lemma_ascii_len("depth_strider");
        },
        EnchantmentKey::Efficiency => {
            reveal_strlit("efficiency");
            lemma_ascii_len("efficiency");
        },
        EnchantmentKey::FeatherFalling => {
            reveal_strlit("feather_falling");
            lemma_ascii_len("feather_falling");
        },
        EnchantmentKey::FireAspect => {
            reveal_strlit("fire_aspect");
            lemma_ascii_len("fire_aspect");
        },
        EnchantmentKey::FireProtection => {
            reveal_strlit("fire_protection");
            lemma_ascii_len("fire_protection");
        },
        EnchantmentKey::Flame => {
            reveal_strlit("flame");
            lemma_ascii_len("flame");
        },
        EnchantmentKey::Fortune => {
            reveal_strlit("fortune");
            lemma_ascii_len("fortune");
        },
        EnchantmentKey::FrostWalker => {
            reveal_strlit("frost_walker");
            lemma_ascii_len("frost_walker");
        },
        EnchantmentKey::Impaling => {
            reveal_strlit("impaling");
            lemma_ascii_len("impaling");
        },
        EnchantmentKey::Infinity => {
            reveal_strlit("infinity");
            lemma_ascii_len("infinity");
        },
        EnchantmentKey::Knockback => {
            reveal_strlit("knockback");
            lemma_ascii_len("knockback");
        },
        EnchantmentKey::Looting => {
            reveal_strlit("looting");
            lemma_ascii_len("looting");
        },
        EnchantmentKey::Loyalty => {
            reveal_strlit("loyalty");
            lemma_ascii_len("loyalty");
        },
        EnchantmentKey::LuckOfTheSea => {
            reveal_strlit("luck_of_the_sea");
            lemma_ascii_len("luck_of_the_sea");
        },
        EnchantmentKey::Lure => {
            reveal_strlit("lure");
            lemma_ascii_len("lure");
        },
        EnchantmentKey::Mending => {
            reveal_strlit("mending");
            lemma_ascii_len("mending");
        },
        EnchantmentKey::Power => {
            reveal_strlit("power");
            lemma_ascii_len("power");
        },
        EnchantmentKey::ProjectileProtection => {
            reveal_strlit("projectile_protection");
            lemma_ascii_len("projectile_protection");
        },
        EnchantmentKey::Protection => {
            reveal_strlit("protection");
            lemma_ascii_len("protection");
        },
        EnchantmentKey::Punch => {
            reveal_strlit("punch");
            lemma_ascii_len("punch");
        },
        EnchantmentKey::Respiration => {
            reveal_strlit("respiration");
            lemma_ascii_len("respiration");
        },
        EnchantmentKey::Riptide => {
            reveal_strlit("riptide");
            lemma_ascii_len("riptide");
        },
        EnchantmentKey::Sharpness => {
            reveal_strlit("sharpness");
            lemma_ascii_len("sharpness");
        },
        EnchantmentKey::SilkTouch => {
            reveal_strlit("silk_touch");
            lemma_ascii_len("silk_touch");
        },
        EnchantmentKey::Smite => {
            reveal_strlit("smite");
            lemma_ascii_len("smite");
        },
        EnchantmentKey::SweepingEdge => {
            reveal_strlit("sweeping");
            lemma_ascii_len("sweeping");
        },
        EnchantmentKey::Thorns => {
            reveal_strlit("thorns");
            lemma_ascii_len("thorns");
        },
        EnchantmentKey::Unbreaking => {
            reveal_strlit("unbreaking");
            lemma_ascii_len("unbreaking");
        },
        EnchantmentKey::VanishingCurse => {
            reveal_strlit("vanishing_curse");
            lemma_ascii_len("vanishing_curse");
        },
        EnchantmentKey::Multishot => {
            reveal_strlit("multishot");
            lemma_ascii_len("multishot");
        },
        EnchantmentKey::Piercing => {
            reveal_strlit("piercing");
            lemma_ascii_len("piercing");
        },
        EnchantmentKey::QuickCharge => {
            reveal_strlit("quick_charge");
            lemma_ascii_len("quick_charge");
        },
        EnchantmentKey::SoulSpeed => {
            reveal_strlit("soul_speed");
            lemma_ascii_len("soul_speed");
        },
        EnchantmentKey::SwiftSneak => {
            reveal_strlit("swift_sneak");
            lemma_ascii_len("swift_sneak");
        },
        EnchantmentKey::Newer => {
            reveal_strlit("");
            lemma_ascii_len("");
        },
    }
}

/// The names the tags are stored under, all short.
proof fn lemma_tag_names()
    ensures
        "minecraft:".spec_bytes().len() == 10,
        "Damage".spec_bytes().len() == 6,
        "RepairCost".spec_bytes().len() == 10,
        "Unbreakable".spec_bytes().len() == 11,
        "map".spec_bytes().len() == 3,
        "display".spec_bytes().len() == 7,
        "color".spec_bytes().len() == 5,
        "Enchantments".spec_bytes().len() == 12,
        "StoredEnchantments".spec_bytes().len() == 18,
        "id".spec_bytes().len() == 2,
        "lvl".spec_bytes().len() == 3,
{
    reveal_strlit("minecraft:");
    lemma_ascii_len("minecraft:");
    reveal_strlit("Damage");
    lemma_ascii_len("Damage");
    reveal_strlit("RepairCost");
    lemma_ascii_len("RepairCost");
    reveal_strlit("Unbreakable");
    lemma_ascii_len("Unbreakable");
    reveal_strlit("map");
    lemma_ascii_len("map");
    reveal_strlit("display");
    lemma_ascii_len("display");
    reveal_strlit("color");
    lemma_ascii_len("color");
    reveal_strlit("Enchantments");
    lemma_ascii_len("Enchantments");
    reveal_strlit("StoredEnchantments");
    lemma_ascii_len("StoredEnchantments");
    reveal_strlit("id");
    lemma_ascii_len("id");
    reveal_strlit("lvl");
    lemma_ascii_len("lvl");
}

// ---------------------------------------------------------------------------
// The tags as bytes
// ---------------------------------------------------------------------------

/// A string as NBT writes it: a two byte big endian length and the bytes.
pub open spec fn nbt_string(s: Seq<u8>) -> Seq<u8> {
    seq![(s.len() / 256) as u8, (s.len() % 256) as u8] + s
}

/// A named tag inside a compound: its type, its name and its payload.
pub open spec fn named_tag(tag: u8, name: &str, payload: Seq<u8>) -> Seq<u8> {
    seq![tag] + nbt_string(name.spec_bytes()) + payload
}

/// The name a client on `version` knows enchantment `e` by, with its
/// namespace; `None` where it has no such enchantment.
pub open spec fn legacy_name(e: EnchantmentKey, version: V) -> Option<Seq<u8>> {
    if spec_enchantment_exists_on(e, version) {
        Some("minecraft:".spec_bytes() + spec_legacy_key(e).spec_bytes())
    } else {
        None
    }
}

/// A level as the legacy `lvl` short holds it.
pub open spec fn legacy_level(level: i32) -> i16 {
    if level < 0 { 0 } else if level > i16::MAX { i16::MAX } else { level as i16 }
}

/// One entry of a legacy enchantment list: a compound with the name and
/// the level.
pub open spec fn enchantment_entry(name: Seq<u8>, level: i32) -> Seq<u8> {
    named_tag(TAG_STRING, "id", nbt_string(name))
        + named_tag(TAG_SHORT, "lvl", I16.encode(legacy_level(level)))
        + seq![TAG_END]
}

/// The `(id, level)` pairs of a newest enchantment list payload, `n` of
/// them from `pos`.
pub open spec fn pairs_at(b: Seq<u8>, pos: int, n: nat) -> Option<Seq<(i32, i32)>>
    decreases n,
{
    if n == 0 {
        Some(Seq::empty())
    } else {
        match field(VAR_INT, b, pos) {
            Some((id, p1)) => match field(VAR_INT, b, p1) {
                Some((level, p2)) => match pairs_at(b, p2, (n - 1) as nat) {
                    Some(rest) => Some(seq![(id, level)] + rest),
                    None => None,
                },
                None => None,
            },
            None => None,
        }
    }
}

proof fn lemma_pairs_at_len(b: Seq<u8>, pos: int, n: nat)
    ensures
        pairs_at(b, pos, n) matches Some(ps) ==> ps.len() == n,
    decreases n,
{
    if n > 0 {
        if let Some((_, p1)) = field(VAR_INT, b, pos) {
            if let Some((_, p2)) = field(VAR_INT, b, p1) {
                lemma_pairs_at_len(b, p2, (n - 1) as nat);
            }
        }
    }
}

/// A list payload's pairs are as many as its count says.
proof fn lemma_pairs_len(data: Seq<u8>)
    ensures
        enchantment_pairs(data) matches Some(ps) ==> ps.len() <= i32::MAX,
{
    if let Some((n, p)) = field(VAR_INT, data, 0) {
        if n >= 0 {
            lemma_pairs_at_len(data, p, n as nat);
        }
    }
}

/// The pairs of a newest enchantment list payload: a count, then the pairs.
pub open spec fn enchantment_pairs(data: Seq<u8>) -> Option<Seq<(i32, i32)>> {
    match field(VAR_INT, data, 0) {
        Some((n, p)) => if n < 0 { None } else { pairs_at(data, p, n as nat) },
        None => None,
    }
}

/// The entries of the pairs a client on `version` has the enchantment of,
/// `keys` naming the newest registry; the others are left out.
pub open spec fn enchantment_entries(pairs: Seq<(i32, i32)>, version: V, keys: Seq<EnchantmentKey>) -> Seq<Seq<u8>>
    decreases pairs.len(),
{
    if pairs.len() == 0 {
        Seq::empty()
    } else {
        let front = enchantment_entries(pairs.drop_last(), version, keys);
        let (id, level) = pairs.last();
        if 0 <= id < keys.len() {
            match legacy_name(keys[id as int], version) {
                Some(name) => front.push(enchantment_entry(name, level)),
                None => front,
            }
        } else {
            front
        }
    }
}

/// A legacy enchantment list under `name`, nothing where no entry is left.
pub open spec fn enchantment_list(name: &str, data: Seq<u8>, version: V, keys: Seq<EnchantmentKey>) -> Seq<u8> {
    match enchantment_pairs(data) {
        Some(pairs) => {
            let entries = enchantment_entries(pairs, version, keys);
            if entries.len() == 0 {
                Seq::empty()
            } else {
                named_tag(TAG_LIST, name, seq![TAG_COMPOUND] + I32.encode(entries.len() as i32) + entries.flatten())
            }
        },
        None => Seq::empty(),
    }
}

/// An `Int` tag under `name` holding the `VarInt` a payload starts with,
/// nothing where it has none.
pub open spec fn int_from_var(name: &str, data: Seq<u8>) -> Seq<u8> {
    match field(VAR_INT, data, 0) {
        Some((v, _)) => named_tag(TAG_INT, name, I32.encode(v)),
        None => Seq::empty(),
    }
}

/// The newest component a component id names, if `reg` lists it.
pub open spec fn component_kind(reg: Seq<DataComponent>, id: i32) -> Option<DataComponent> {
    if 0 <= id < 256 && id < reg.len() { Some(reg[id as int]) } else { None }
}

/// The root tags component `c` stands for: the damage, the repair cost, the
/// unbreakable flag, the map id and the enchantment lists.
pub open spec fn root_tags(reg: Seq<DataComponent>, c: ComponentView, version: V, keys: Seq<EnchantmentKey>) -> Seq<u8> {
    match component_kind(reg, c.id) {
        Some(DataComponent::Damage) => int_from_var("Damage", c.data),
        Some(DataComponent::RepairCost) => int_from_var("RepairCost", c.data),
        Some(DataComponent::Unbreakable) => named_tag(TAG_BYTE, "Unbreakable", seq![1u8]),
        Some(DataComponent::MapId) => int_from_var("map", c.data),
        Some(DataComponent::Enchantments) => enchantment_list("Enchantments", c.data, version, keys),
        Some(DataComponent::StoredEnchantments) => enchantment_list("StoredEnchantments", c.data, version, keys),
        _ => Seq::empty(),
    }
}

/// The `display` tags component `c` stands for: the dye colour.
pub open spec fn display_tags(reg: Seq<DataComponent>, c: ComponentView) -> Seq<u8> {
    match component_kind(reg, c.id) {
        Some(DataComponent::DyedColor) => match field(I32, c.data, 0) {
            Some((rgb, _)) => named_tag(TAG_INT, "color", I32.encode(rgb)),
            None => Seq::empty(),
        },
        _ => Seq::empty(),
    }
}

/// The root tags of `cs`, in their order.
pub open spec fn all_root_tags(reg: Seq<DataComponent>, cs: Seq<ComponentView>, version: V, keys: Seq<EnchantmentKey>) -> Seq<u8>
    decreases cs.len(),
{
    if cs.len() == 0 {
        Seq::empty()
    } else {
        all_root_tags(reg, cs.drop_last(), version, keys) + root_tags(reg, cs.last(), version, keys)
    }
}

/// The `display` tags of `cs`, in their order.
pub open spec fn all_display_tags(reg: Seq<DataComponent>, cs: Seq<ComponentView>) -> Seq<u8>
    decreases cs.len(),
{
    if cs.len() == 0 {
        Seq::empty()
    } else {
        all_display_tags(reg, cs.drop_last()) + display_tags(reg, cs.last())
    }
}

/// The start of a document for `version`: the compound type, and below
/// 1.20.2 an empty root name.
pub open spec fn document_head(version: V) -> Seq<u8> {
    if version.spec_at_least(V::V_1_20_2) { seq![TAG_COMPOUND] } else { seq![TAG_COMPOUND, 0u8, 0u8] }
}

/// The NBT document a client on `version` gets for a stack with components
/// `cs`: the custom data's tags, the root tags over them, then a `display`
/// compound where there is one; `None` where nothing can be said there.
pub open spec fn legacy_tag(reg: Seq<DataComponent>, cs: Seq<ComponentView>, version: V, keys: Seq<EnchantmentKey>)
    -> Option<Seq<u8>>
{
    let root = custom_base(reg, cs) + all_root_tags(reg, cs, version, keys);
    let display = all_display_tags(reg, cs);
    if root.len() == 0 && display.len() == 0 {
        None
    } else {
        Some(document_head(version) + root
            + (if display.len() == 0 { Seq::empty() } else {
                named_tag(TAG_COMPOUND, "display", display + seq![TAG_END])
            })
            + seq![TAG_END])
    }
}

// ---------------------------------------------------------------------------
// Writing them
// ---------------------------------------------------------------------------

fn put_string(out: &mut Vec<u8>, s: &[u8])
    requires
        s@.len() <= u16::MAX,
    ensures
        final(out)@ == old(out)@ + nbt_string(s@),
{
    let n = s.len();
    out.push((n / 256) as u8);
    out.push((n % 256) as u8);
    append_bytes(out, s);
    assert(final(out)@ =~= old(out)@ + nbt_string(s@));
}

fn put_head(out: &mut Vec<u8>, tag: u8, name: &str)
    requires
        name.spec_bytes().len() <= u16::MAX,
    ensures
        final(out)@ == old(out)@ + named_tag(tag, name, Seq::empty()),
{
    let ghost start = out@;
    out.push(tag);
    put_string(out, name.as_bytes());
    assert(out@ =~= start + named_tag(tag, name, Seq::empty()));
}

fn put_var_as_int(out: &mut Vec<u8>, name: &str, data: &[u8])
    requires
        name.spec_bytes().len() <= u16::MAX,
    ensures
        final(out)@ == old(out)@ + int_from_var(name, data@),
{
    match read_field(&VAR_INT, data, 0) {
        Some((v, _)) => {
            let ghost start = out@;
            put_head(out, TAG_INT, name);
            I32.write(out, &v);
            assert(out@ =~= start + named_tag(TAG_INT, name, I32.encode(v)));
        },
        None => {
            assert(old(out)@ + Seq::<u8>::empty() =~= old(out)@);
        },
    }
}

/// `front` followed by what `rest` holds, `None` where it holds nothing.
pub open spec fn joined(front: Seq<(i32, i32)>, rest: Option<Seq<(i32, i32)>>) -> Option<Seq<(i32, i32)>> {
    match rest {
        Some(r) => Some(front + r),
        None => None,
    }
}

/// Reads the pairs of an enchantment list payload.
fn read_pairs(data: &[u8]) -> (r: Option<Vec<(i32, i32)>>)
    ensures
        match enchantment_pairs(data@) {
            Some(pairs) => r matches Some(v) && v@ == pairs,
            None => r is None,
        },
{
    let (n, p0) = match read_field(&VAR_INT, data, 0) {
        Some(found) => found,
        None => return None,
    };
    if n < 0 {
        return None;
    }
    let mut out: Vec<(i32, i32)> = Vec::new();
    let mut p = p0;
    let mut k: i32 = 0;
    while k < n
        invariant
            0 <= k <= n,
            p <= data@.len(),
            pairs_at(data@, p0 as int, n as nat) == joined(out@, pairs_at(data@, p as int, (n - k) as nat)),
            enchantment_pairs(data@) == pairs_at(data@, p0 as int, n as nat),
        decreases n - k,
    {
        let (id, p1) = match read_field(&VAR_INT, data, p) {
            Some(found) => found,
            None => {
                assert(pairs_at(data@, p as int, (n - k) as nat) is None);
                return None;
            },
        };
        let (level, p2) = match read_field(&VAR_INT, data, p1) {
            Some(found) => found,
            None => {
                assert(pairs_at(data@, p as int, (n - k) as nat) is None);
                return None;
            },
        };
        proof {
            let rest_n = (n - k - 1) as nat;
            assert(pairs_at(data@, p as int, (n - k) as nat) == joined(seq![(id, level)], pairs_at(data@, p2 as int, rest_n)));
            match pairs_at(data@, p2 as int, rest_n) {
                Some(rest) => {
                    assert(out@.push((id, level)) + rest =~= out@ + (seq![(id, level)] + rest));
                },
                None => {},
            }
        }
        out.push((id, level));
        p = p2;
        k = k + 1;
    }
    proof {
        assert(out@ + Seq::<(i32, i32)>::empty() =~= out@);
    }
    Some(out)
}

/// Writes the legacy enchantment list `name` of an enchantment list payload.
fn put_enchantment_list(out: &mut Vec<u8>, name: &str, data: &[u8], version: V, keys: &[EnchantmentKey])
    requires
        name.spec_bytes().len() <= u16::MAX,
    ensures
        final(out)@ == old(out)@ + enchantment_list(name, data@, version, keys@),
{
    let pairs = match read_pairs(data) {
        Some(pairs) => pairs,
        None => {
            assert(old(out)@ + Seq::<u8>::empty() =~= old(out)@);
            return;
        },
    };
    let ghost ps = pairs@;
    let mut entries: Vec<u8> = Vec::new();
    let mut count: usize = 0;
    let mut i: usize = 0;
    proof { lemma_tag_names(); }
    while i < pairs.len()
        invariant
            i <= pairs@.len(),
            ps == pairs@,
            count == enchantment_entries(ps.take(i as int), version, keys@).len(),
            count <= i,
            entries@ == enchantment_entries(ps.take(i as int), version, keys@).flatten(),
            "minecraft:".spec_bytes().len() == 10,
            "id".spec_bytes().len() == 2,
            "lvl".spec_bytes().len() == 3,
        decreases pairs@.len() - i,
    {
        let (id, level) = pairs[i];
        let ghost front = enchantment_entries(ps.take(i as int), version, keys@);
        assert(ps.take(i + 1).drop_last() =~= ps.take(i as int));
        assert(ps.take(i + 1).last() == (id, level));
        if 0 <= id && (id as usize) < keys.len() {
            let key = keys[id as usize];
            if enchantment_exists_on(key, version) {
                let ghost before = entries@;
                let legacy = legacy_key(key);
                proof { lemma_key_len(key); }
                let mut full: Vec<u8> = Vec::new();
                append_bytes(&mut full, "minecraft:".as_bytes());
                append_bytes(&mut full, legacy.as_bytes());
                put_head(&mut entries, TAG_STRING, "id");
                put_string(&mut entries, full.as_slice());
                put_head(&mut entries, TAG_SHORT, "lvl");
                let lvl: i16 = if level < 0 { 0 } else if level > i16::MAX as i32 { i16::MAX } else { level as i16 };
                I16.write(&mut entries, &lvl);
                entries.push(TAG_END);
                proof {
                    let name_bytes = "minecraft:".spec_bytes() + spec_legacy_key(key).spec_bytes();
                    assert(full@ =~= name_bytes);
                    let e = enchantment_entry(name_bytes, level);
                    assert(entries@ =~= before + e);
                    assert(front.push(e).flatten() =~= front.flatten() + e) by {
                        front.lemma_flatten_push(e);
                    }
                }
                count = count + 1;
            }
        }
        i = i + 1;
    }
    assert(ps.take(ps.len() as int) =~= ps);
    let ghost es = enchantment_entries(ps, version, keys@);
    if count == 0 {
        assert(old(out)@ + Seq::<u8>::empty() =~= old(out)@);
        return;
    }
    assert(count <= i32::MAX) by {
        lemma_pairs_len(data@);
    }
    let ghost start = out@;
    put_head(out, TAG_LIST, name);
    out.push(TAG_COMPOUND);
    I32.write(out, &(count as i32));
    append_bytes(out, entries.as_slice());
    assert(out@ =~= start + named_tag(TAG_LIST, name,
        seq![TAG_COMPOUND] + I32.encode(es.len() as i32) + es.flatten()));
}


/// Appends the root tags component `c` stands for.
fn put_root_tags(out: &mut Vec<u8>, reg: &[DataComponent], c: &ItemComponent, version: V, keys: &[EnchantmentKey])
    ensures
        final(out)@ == old(out)@ + root_tags(reg@, c@, version, keys@),
{
    proof { lemma_tag_names(); }
    if !(0 <= c.id && c.id < 256 && (c.id as usize) < reg.len()) {
        assert(old(out)@ + Seq::<u8>::empty() =~= old(out)@);
        return;
    }
    match reg[c.id as usize] {
        DataComponent::Damage => put_var_as_int(out, "Damage", c.data.as_slice()),
        DataComponent::RepairCost => put_var_as_int(out, "RepairCost", c.data.as_slice()),
        DataComponent::Unbreakable => {
            let ghost start = out@;
            put_head(out, TAG_BYTE, "Unbreakable");
            out.push(1u8);
            assert(out@ =~= start + named_tag(TAG_BYTE, "Unbreakable", seq![1u8]));
        },
        DataComponent::MapId => put_var_as_int(out, "map", c.data.as_slice()),
        DataComponent::Enchantments => put_enchantment_list(out, "Enchantments", c.data.as_slice(), version, keys),
        DataComponent::StoredEnchantments =>
            put_enchantment_list(out, "StoredEnchantments", c.data.as_slice(), version, keys),
        _ => {
            assert(old(out)@ + Seq::<u8>::empty() =~= old(out)@);
        },
    }
}

/// Appends the `display` tags component `c` stands for.
fn put_display_tags(out: &mut Vec<u8>, reg: &[DataComponent], c: &ItemComponent)
    ensures
        final(out)@ == old(out)@ + display_tags(reg@, c@),
{
    proof { lemma_tag_names(); }
    if 0 <= c.id && c.id < 256 && (c.id as usize) < reg.len() && reg[c.id as usize] == DataComponent::DyedColor {
        match read_field(&I32, c.data.as_slice(), 0) {
            Some((rgb, _)) => {
                let ghost start = out@;
                put_head(out, TAG_INT, "color");
                I32.write(out, &rgb);
                assert(out@ =~= start + named_tag(TAG_INT, "color", I32.encode(rgb)));
                return;
            },
            None => {},
        }
    }
    assert(old(out)@ + Seq::<u8>::empty() =~= old(out)@);
}

/// The NBT document a client on `version` gets for a stack with the newest
/// components `added`, `keys` naming the newest enchantment registry; `None`
/// where none of them can be said there.
pub fn components_to_nbt(reg: &[DataComponent], added: &Vec<ItemComponent>, version: V, keys: &[EnchantmentKey])
    -> (r: Option<Vec<u8>>)
    ensures
        match legacy_tag(reg@, added@.map_values(|c: ItemComponent| c@), version, keys@) {
            Some(doc) => r matches Some(v) && v@ == doc,
            None => r is None,
        },
{
    let ghost cs = added@.map_values(|c: ItemComponent| c@);
    let base = custom_base_of(reg, added);
    let mut root: Vec<u8> = Vec::new();
    let mut display: Vec<u8> = Vec::new();
    let mut i: usize = 0;
    while i < added.len()
        invariant
            i <= added@.len(),
            cs == added@.map_values(|c: ItemComponent| c@),
            root@ == all_root_tags(reg@, cs.take(i as int), version, keys@),
            display@ == all_display_tags(reg@, cs.take(i as int)),
        decreases added@.len() - i,
    {
        assert(cs.take(i + 1).drop_last() =~= cs.take(i as int));
        assert(cs.take(i + 1).last() == added@[i as int]@);
        put_root_tags(&mut root, reg, &added[i], version, keys);
        put_display_tags(&mut display, reg, &added[i]);
        i = i + 1;
    }
    assert(cs.take(cs.len() as int) =~= cs);
    if base.len() == 0 && root.len() == 0 && display.len() == 0 {
        return None;
    }
    proof { lemma_tag_names(); }
    let mut doc: Vec<u8> = Vec::new();
    doc.push(TAG_COMPOUND);
    if !version.at_least(V::V_1_20_2) {
        doc.push(0u8);
        doc.push(0u8);
    }
    append_bytes(&mut doc, base.as_slice());
    append_bytes(&mut doc, root.as_slice());
    let ghost before_display = doc@;
    if display.len() > 0 {
        put_head(&mut doc, TAG_COMPOUND, "display");
        append_bytes(&mut doc, display.as_slice());
        doc.push(TAG_END);
        assert(doc@ =~= before_display + named_tag(TAG_COMPOUND, "display", display@ + seq![TAG_END]));
    } else {
        assert(doc@ =~= before_display + Seq::<u8>::empty());
    }
    doc.push(TAG_END);
    let ghost expected = legacy_tag(reg@, cs, version, keys@)->Some_0;
    assert(doc@ =~= expected);
    Some(doc)
}


// ---------------------------------------------------------------------------
// Reading the tags back
// ---------------------------------------------------------------------------

/// How deep the values of a compound's entries may nest.
pub const ENTRY_DEPTH: usize = 510;

/// The first entry named `name` among the compound entries from `pos`, up to
/// the end tag: its type and where its payload starts.
pub open spec fn find_entry(b: Seq<u8>, pos: int, name: Seq<u8>) -> Option<(u8, int)>
    decreases b.len() - pos,
{
    if pos < 0 || pos + 3 > b.len() || b[pos] == TAG_END {
        None
    } else {
        let start = pos + 3 + u16_at(b, pos + 1);
        if start > b.len() {
            None
        } else if b.subrange(pos + 3, start) == name {
            Some((b[pos], start))
        } else {
            match payload_end(b, b[pos], start, ENTRY_DEPTH as nat) {
                Some(next) => if pos < next <= b.len() { find_entry(b, next, name) } else { None },
                None => None,
            }
        }
    }
}

/// The string payload at `p`.
pub open spec fn string_at(b: Seq<u8>, p: int) -> Option<Seq<u8>> {
    if 0 <= p && p + 2 <= b.len() && p + 2 + u16_at(b, p) <= b.len() {
        Some(b.subrange(p + 2, p + 2 + u16_at(b, p)))
    } else {
        None
    }
}

/// A number tag a client writes as an int but may narrow to a byte or a
/// short, or widen to a long holding an int.
pub open spec fn int_like(b: Seq<u8>, tag: u8, p: int) -> Option<i32> {
    if tag == TAG_BYTE {
        match field(I8, b, p) { Some((v, _)) => Some(v as i32), None => None }
    } else if tag == TAG_SHORT {
        match field(I16, b, p) { Some((v, _)) => Some(v as i32), None => None }
    } else if tag == TAG_INT {
        match field(I32, b, p) { Some((v, _)) => Some(v), None => None }
    } else if tag == TAG_LONG {
        match field(I64, b, p) {
            Some((v, _)) => if i32::MIN <= v <= i32::MAX { Some(v as i32) } else { None },
            None => None,
        }
    } else {
        None
    }
}

/// The number entry `name` among the compound entries from `pos`.
pub open spec fn int_entry(b: Seq<u8>, pos: int, name: &str) -> Option<i32> {
    match find_entry(b, pos, name.spec_bytes()) {
        Some((tag, p)) => int_like(b, tag, p),
        None => None,
    }
}

/// Whether the bytes of `b` from `from` are `name`.
fn same_bytes(b: &[u8], from: usize, name: &[u8]) -> (r: bool)
    requires
        from + name@.len() <= b@.len(),
    ensures
        r == (b@.subrange(from as int, from + name@.len()) == name@),
{
    let total = b.len();
    let mut i: usize = 0;
    while i < name.len()
        invariant
            i <= name@.len(),
            total == b@.len(),
            from + name@.len() <= b@.len(),
            forall|j: int| 0 <= j < i ==> b@[from + j] == name@[j],
        decreases name@.len() - i,
    {
        assert(from + i < b@.len());
        if b[from + i] != name[i] {
            assert(b@.subrange(from as int, from + name@.len())[i as int] != name@[i as int]);
            return false;
        }
        i = i + 1;
    }
    assert(b@.subrange(from as int, from + name@.len()) =~= name@);
    true
}

/// Finds the first entry named `name` among the compound entries from `pos`.
fn find(b: &[u8], pos: usize, name: &[u8]) -> (r: Option<(u8, usize)>)
    ensures
        match find_entry(b@, pos as int, name@) {
            Some((t, p)) => r matches Some((x, q)) && x == t && q == p && q <= b@.len(),
            None => r is None,
        },
{
    let mut p = pos;
    loop
        invariant
            find_entry(b@, pos as int, name@) == find_entry(b@, p as int, name@),
        decreases b@.len() - p,
    {
        if p >= b.len() || b.len() - p < 3 || b[p] == TAG_END {
            return None;
        }
        let len = (b[p + 1] as usize) * 256 + b[p + 2] as usize;
        if len > b.len() - p - 3 {
            return None;
        }
        let start = p + 3 + len;
        if len == name.len() && same_bytes(b, p + 3, name) {
            return Some((b[p], start));
        }
        assert(len != name@.len() ==> b@.subrange(p + 3, start as int) != name@);
        match skip_payload(b, b[p], start, ENTRY_DEPTH) {
            Some(next) => {
                if next <= p {
                    return None;
                }
                p = next;
            },
            None => return None,
        }
    }
}

fn string_value(b: &[u8], p: usize) -> (r: Option<Vec<u8>>)
    ensures
        match string_at(b@, p as int) {
            Some(s) => r matches Some(v) && v@ == s,
            None => r is None,
        },
{
    if p > b.len() || b.len() - p < 2 {
        return None;
    }
    let len = (b[p] as usize) * 256 + b[p + 1] as usize;
    if len > b.len() - p - 2 {
        return None;
    }
    let mut out: Vec<u8> = Vec::new();
    append_bytes(&mut out, slice_subrange(b, p + 2, p + 2 + len));
    Some(out)
}

fn int_value(b: &[u8], tag: u8, p: usize) -> (r: Option<i32>)
    ensures
        r == int_like(b@, tag, p as int),
{
    if p > b.len() {
        return None;
    }
    if tag == TAG_BYTE {
        match read_field(&I8, b, p) { Some((v, _)) => Some(v as i32), None => None }
    } else if tag == TAG_SHORT {
        match read_field(&I16, b, p) { Some((v, _)) => Some(v as i32), None => None }
    } else if tag == TAG_INT {
        match read_field(&I32, b, p) { Some((v, _)) => Some(v), None => None }
    } else if tag == TAG_LONG {
        match read_field(&I64, b, p) {
            Some((v, _)) => if i32::MIN as i64 <= v && v <= i32::MAX as i64 { Some(v as i32) } else { None },
            None => None,
        }
    } else {
        None
    }
}

fn int_in(b: &[u8], pos: usize, name: &str) -> (r: Option<i32>)
    ensures
        r == int_entry(b@, pos as int, name),
{
    match find(b, pos, name.as_bytes()) {
        Some((tag, p)) => int_value(b, tag, p),
        None => None,
    }
}


/// Every enchantment a client below 1.20.5 can name.
pub open spec fn legacy_keys() -> Seq<EnchantmentKey> {
    seq![
        EnchantmentKey::AquaAffinity,
        EnchantmentKey::BaneOfArthropods,
        EnchantmentKey::BindingCurse,
        EnchantmentKey::BlastProtection,
        EnchantmentKey::Channeling,
        EnchantmentKey::DepthStrider,
        EnchantmentKey::Efficiency,
        EnchantmentKey::FeatherFalling,
        EnchantmentKey::FireAspect,
        EnchantmentKey::FireProtection,
        EnchantmentKey::Flame,
        EnchantmentKey::Fortune,
        EnchantmentKey::FrostWalker,
        EnchantmentKey::Impaling,
        EnchantmentKey::Infinity,
        EnchantmentKey::Knockback,
        EnchantmentKey::Looting,
        EnchantmentKey::Loyalty,
        EnchantmentKey::LuckOfTheSea,
        EnchantmentKey::Lure,
        EnchantmentKey::Mending,
        EnchantmentKey::Power,
        EnchantmentKey::ProjectileProtection,
        EnchantmentKey::Protection,
        EnchantmentKey::Punch,
        EnchantmentKey::Respiration,
        EnchantmentKey::Riptide,
        EnchantmentKey::Sharpness,
        EnchantmentKey::SilkTouch,
        EnchantmentKey::Smite,
        EnchantmentKey::SweepingEdge,
        EnchantmentKey::Thorns,
        EnchantmentKey::Unbreaking,
        EnchantmentKey::VanishingCurse,
        EnchantmentKey::Multishot,
        EnchantmentKey::Piercing,
        EnchantmentKey::QuickCharge,
        EnchantmentKey::SoulSpeed,
        EnchantmentKey::SwiftSneak,
    ]
}

fn make_legacy_keys() -> (r: Vec<EnchantmentKey>)
    ensures
        r@ == legacy_keys(),
{
    let r = vec![
        EnchantmentKey::AquaAffinity,
        EnchantmentKey::BaneOfArthropods,
        EnchantmentKey::BindingCurse,
        EnchantmentKey::BlastProtection,
        EnchantmentKey::Channeling,
        EnchantmentKey::DepthStrider,
        EnchantmentKey::Efficiency,
        EnchantmentKey::FeatherFalling,
        EnchantmentKey::FireAspect,
        EnchantmentKey::FireProtection,
        EnchantmentKey::Flame,
        EnchantmentKey::Fortune,
        EnchantmentKey::FrostWalker,
        EnchantmentKey::Impaling,
        EnchantmentKey::Infinity,
        EnchantmentKey::Knockback,
        EnchantmentKey::Looting,
        EnchantmentKey::Loyalty,
        EnchantmentKey::LuckOfTheSea,
        EnchantmentKey::Lure,
        EnchantmentKey::Mending,
        EnchantmentKey::Power,
        EnchantmentKey::ProjectileProtection,
        EnchantmentKey::Protection,
        EnchantmentKey::Punch,
        EnchantmentKey::Respiration,
        EnchantmentKey::Riptide,
        EnchantmentKey::Sharpness,
        EnchantmentKey::SilkTouch,
        EnchantmentKey::Smite,
        EnchantmentKey::SweepingEdge,
        EnchantmentKey::Thorns,
        EnchantmentKey::Unbreaking,
        EnchantmentKey::VanishingCurse,
        EnchantmentKey::Multishot,
        EnchantmentKey::Piercing,
        EnchantmentKey::QuickCharge,
        EnchantmentKey::SoulSpeed,
        EnchantmentKey::SwiftSneak,
    ];
    assert(r@ =~= legacy_keys());
    r
}

/// The first of `ks` from `i` on whose legacy name is `bare`.
pub open spec fn key_named(ks: Seq<EnchantmentKey>, i: int, bare: Seq<u8>) -> Option<EnchantmentKey>
    decreases ks.len() - i,
{
    if i < 0 || i >= ks.len() {
        None
    } else if spec_legacy_key(ks[i]).spec_bytes() == bare {
        Some(ks[i])
    } else {
        key_named(ks, i + 1, bare)
    }
}

/// A name without its `minecraft:` namespace.
pub open spec fn bare_name(name: Seq<u8>) -> Seq<u8> {
    if name.len() >= 10 && name.subrange(0, 10) == "minecraft:".spec_bytes() { name.skip(10) } else { name }
}

/// The enchantment a client's name stands for: its legacy name, or
/// `sweeping_edge`, with or without the namespace.
pub open spec fn key_for_name(name: Seq<u8>) -> Option<EnchantmentKey> {
    if bare_name(name) == "sweeping_edge".spec_bytes() {
        Some(EnchantmentKey::SweepingEdge)
    } else {
        key_named(legacy_keys(), 0, bare_name(name))
    }
}

/// The first id from `i` on that `keys` gives `k`, while it fits an `Int`.
pub open spec fn first_index(keys: Seq<EnchantmentKey>, i: int, k: EnchantmentKey) -> Option<i32>
    decreases keys.len() - i,
{
    if i < 0 || i >= keys.len() || i > i32::MAX {
        None
    } else if keys[i] == k {
        Some(i as i32)
    } else {
        first_index(keys, i + 1, k)
    }
}

/// The enchantment a client's name stands for.
pub fn key_for(name: &[u8]) -> (r: Option<EnchantmentKey>)
    ensures
        r == key_for_name(name@),
{
    proof { lemma_tag_names(); }
    let bare: &[u8] = if name.len() >= 10 && same_bytes(name, 0, "minecraft:".as_bytes()) {
        assert(name@.skip(10) =~= name@.subrange(10, name@.len() as int));
        slice_subrange(name, 10, name.len())
    } else {
        name
    };
    assert(bare@ == bare_name(name@));
    let sweeping_edge = "sweeping_edge".as_bytes();
    if bare.len() == sweeping_edge.len() && same_bytes(bare, 0, sweeping_edge) {
        assert(bare@.subrange(0, bare@.len() as int) =~= bare@);
        return Some(EnchantmentKey::SweepingEdge);
    }
    assert(bare@.len() == sweeping_edge@.len() ==> bare@.subrange(0, bare@.len() as int) =~= bare@);
    assert(bare@ != sweeping_edge@);
    let all = make_legacy_keys();
    let mut i: usize = 0;
    while i < all.len()
        invariant
            i <= all@.len(),
            all@ == legacy_keys(),
            bare@ == bare_name(name@),
            bare@ != "sweeping_edge".spec_bytes(),
            key_named(all@, 0, bare@) == key_named(all@, i as int, bare@),
        decreases all@.len() - i,
    {
        let candidate = legacy_key(all[i]).as_bytes();
        if candidate.len() == bare.len() && same_bytes(bare, 0, candidate) {
            assert(bare@.subrange(0, bare@.len() as int) =~= bare@);
            return Some(all[i]);
        }
        assert(candidate@.len() == bare@.len() ==> bare@.subrange(0, bare@.len() as int) =~= bare@);
        i = i + 1;
    }
    None
}

fn index_of(keys: &[EnchantmentKey], k: EnchantmentKey) -> (r: Option<i32>)
    ensures
        r == first_index(keys@, 0, k),
{
    let mut i: usize = 0;
    while i < keys.len()
        invariant
            i <= keys@.len(),
            first_index(keys@, 0, k) == first_index(keys@, i as int, k),
        decreases keys@.len() - i,
    {
        if i > i32::MAX as usize {
            return None;
        }
        if keys[i] == k {
            return Some(i as i32);
        }
        i = i + 1;
    }
    None
}

/// The pair an element of a legacy enchantment list at `q` stands for: the
/// newest id of its named enchantment and its level, 1 where it has none;
/// `None` where its name says nothing the newest registry has.
pub open spec fn element_pair(b: Seq<u8>, q: int, keys: Seq<EnchantmentKey>) -> Option<(i32, i32)> {
    match find_entry(b, q, "id".spec_bytes()) {
        Some((tag, p)) => if tag != TAG_STRING {
            None
        } else {
            match string_at(b, p) {
                Some(name) => match key_for_name(name) {
                    Some(k) => match first_index(keys, 0, k) {
                        Some(id) => Some((id, match int_entry(b, q, "lvl") { Some(l) => l, None => 1 })),
                        None => None,
                    },
                    None => None,
                },
                None => None,
            }
        },
        None => None,
    }
}

/// A present pair as a sequence of one, an absent one as none.
pub open spec fn seq_of(pair: Option<(i32, i32)>) -> Seq<(i32, i32)> {
    match pair {
        Some(x) => seq![x],
        None => Seq::empty(),
    }
}

/// The pairs of `n` compound elements from `q`.
pub open spec fn element_pairs(b: Seq<u8>, q: int, n: nat, keys: Seq<EnchantmentKey>) -> Option<Seq<(i32, i32)>>
    decreases n,
{
    if n == 0 {
        Some(Seq::empty())
    } else {
        match compound_end(b, q, ENTRY_DEPTH as nat) {
            Some(e) => match element_pairs(b, e, (n - 1) as nat, keys) {
                Some(rest) => Some(seq_of(element_pair(b, q, keys)) + rest),
                None => None,
            },
            None => None,
        }
    }
}

/// The pairs of the legacy enchantment list `name` among the compound
/// entries from `pos`; none for a list that does not hold compounds.
pub open spec fn list_pairs(b: Seq<u8>, pos: int, name: &str, keys: Seq<EnchantmentKey>) -> Option<Seq<(i32, i32)>> {
    match find_entry(b, pos, name.spec_bytes()) {
        Some((tag, p)) => if tag != TAG_LIST || p + 5 > b.len() {
            None
        } else {
            match field(I32, b, p + 1) {
                Some((n, _)) => if b[p] != TAG_COMPOUND || n <= 0 {
                    Some(Seq::empty())
                } else {
                    element_pairs(b, p + 5, n as nat, keys)
                },
                None => None,
            }
        },
        None => None,
    }
}

/// Pairs as the newest enchantment payload writes them, without the count.
pub open spec fn pairs_bytes(ps: Seq<(i32, i32)>) -> Seq<u8>
    decreases ps.len(),
{
    if ps.len() == 0 {
        Seq::empty()
    } else {
        pairs_bytes(ps.drop_last()) + VAR_INT.encode(ps.last().0) + VAR_INT.encode(ps.last().1)
    }
}

/// The newest enchantment payload of the pairs of a list, none where no
/// pair is left.
pub open spec fn enchantment_payload(ps: Option<Seq<(i32, i32)>>) -> Option<Seq<u8>> {
    match ps {
        Some(p) => if p.len() == 0 || p.len() > i32::MAX {
            None
        } else {
            Some(VAR_INT.encode(p.len() as i32) + pairs_bytes(p))
        },
        None => None,
    }
}


fn read_element_pair(b: &[u8], q: usize, keys: &[EnchantmentKey]) -> (r: Option<(i32, i32)>)
    ensures
        r == element_pair(b@, q as int, keys@),
{
    proof { lemma_tag_names(); }
    let (tag, p) = match find(b, q, "id".as_bytes()) {
        Some(found) => found,
        None => return None,
    };
    if tag != TAG_STRING {
        return None;
    }
    let name = match string_value(b, p) {
        Some(v) => v,
        None => return None,
    };
    let k = match key_for(name.as_slice()) {
        Some(k) => k,
        None => return None,
    };
    let id = match index_of(keys, k) {
        Some(id) => id,
        None => return None,
    };
    let level = match int_in(b, q, "lvl") {
        Some(l) => l,
        None => 1,
    };
    Some((id, level))
}

/// `front` followed by what `rest` holds, `None` where it holds nothing.
pub open spec fn joined_pairs(front: Seq<(i32, i32)>, rest: Option<Seq<(i32, i32)>>) -> Option<Seq<(i32, i32)>> {
    match rest {
        Some(r) => Some(front + r),
        None => None,
    }
}

fn read_element_pairs(b: &[u8], q0: usize, n: u32, keys: &[EnchantmentKey]) -> (r: Option<Vec<(i32, i32)>>)
    ensures
        match element_pairs(b@, q0 as int, n as nat, keys@) {
            Some(ps) => r matches Some(v) && v@ == ps,
            None => r is None,
        },
{
    let mut out: Vec<(i32, i32)> = Vec::new();
    let mut q = q0;
    let mut k: u32 = 0;
    while k < n
        invariant
            k <= n,
            element_pairs(b@, q0 as int, n as nat, keys@)
                == joined_pairs(out@, element_pairs(b@, q as int, (n - k) as nat, keys@)),
        decreases n - k,
    {
        let e = match skip_compound(b, q, ENTRY_DEPTH) {
            Some(e) => e,
            None => {
                assert(element_pairs(b@, q as int, (n - k) as nat, keys@) is None);
                return None;
            },
        };
        let pair = read_element_pair(b, q, keys);
        proof {
            let rest_n = (n - k - 1) as nat;
            let front = seq_of(element_pair(b@, q as int, keys@));
            assert(element_pairs(b@, q as int, (n - k) as nat, keys@)
                == joined_pairs(front, element_pairs(b@, e as int, rest_n, keys@)));
        }
        let ghost before = out@;
        match pair {
            Some(x) => {
                out.push(x);
                assert(out@ =~= before + seq![x]);
            },
            None => {
                assert(out@ =~= before + Seq::<(i32, i32)>::empty());
            },
        }
        proof {
            let rest_n = (n - k - 1) as nat;
            let front = seq_of(element_pair(b@, q as int, keys@));
            assert(out@ == before + front);
            match element_pairs(b@, e as int, rest_n, keys@) {
                Some(rest) => {
                    assert(before + front + rest =~= before + (front + rest));
                },
                None => {},
            }
        }
        q = e;
        k = k + 1;
    }
    proof {
        assert(out@ + Seq::<(i32, i32)>::empty() =~= out@);
    }
    Some(out)
}


fn read_list_pairs(b: &[u8], pos: usize, name: &str, keys: &[EnchantmentKey]) -> (r: Option<Vec<(i32, i32)>>)
    ensures
        match list_pairs(b@, pos as int, name, keys@) {
            Some(ps) => r matches Some(v) && v@ == ps,
            None => r is None,
        },
{
    let (tag, p) = match find(b, pos, name.as_bytes()) {
        Some(found) => found,
        None => return None,
    };
    if tag != TAG_LIST || p > b.len() || b.len() - p < 5 {
        return None;
    }
    let n = match read_field(&I32, b, p + 1) {
        Some((n, _)) => n,
        None => return None,
    };
    if b[p] != TAG_COMPOUND || n <= 0 {
        return Some(Vec::new());
    }
    read_element_pairs(b, p + 5, n as u32, keys)
}

/// The newest enchantment payload of a list's pairs.
fn enchantment_payload_of(ps: &Vec<(i32, i32)>) -> (r: Option<Vec<u8>>)
    ensures
        match enchantment_payload(Some(ps@)) {
            Some(bytes) => r matches Some(v) && v@ == bytes,
            None => r is None,
        },
{
    if ps.len() == 0 || ps.len() > i32::MAX as usize {
        return None;
    }
    let mut body: Vec<u8> = Vec::new();
    let mut i: usize = 0;
    while i < ps.len()
        invariant
            i <= ps@.len(),
            body@ == pairs_bytes(ps@.take(i as int)),
        decreases ps@.len() - i,
    {
        let (id, level) = ps[i];
        let ghost before = body@;
        VAR_INT.write(&mut body, &id);
        VAR_INT.write(&mut body, &level);
        assert(ps@.take(i + 1).drop_last() =~= ps@.take(i as int));
        assert(body@ =~= before + VAR_INT.encode(id) + VAR_INT.encode(level));
        i = i + 1;
    }
    assert(ps@.take(ps@.len() as int) =~= ps@);
    let mut out: Vec<u8> = Vec::new();
    VAR_INT.write(&mut out, &(ps.len() as i32));
    append_bytes(&mut out, body.as_slice());
    Some(out)
}


/// The id `reg` gives the newest component `kind`: the first that names it.
pub open spec fn component_id(reg: Seq<DataComponent>, i: int, kind: DataComponent) -> Option<i32>
    decreases reg.len() - i,
{
    if i < 0 || i >= reg.len() || i >= 256 {
        None
    } else if reg[i] == kind {
        Some(i as i32)
    } else {
        component_id(reg, i + 1, kind)
    }
}

/// Component `kind` with payload `data`, where both are there.
pub open spec fn one_component(reg: Seq<DataComponent>, kind: DataComponent, data: Option<Seq<u8>>) -> Seq<ComponentView> {
    match (component_id(reg, 0, kind), data) {
        (Some(id), Some(d)) => seq![ComponentView { id, data: d }],
        _ => Seq::empty(),
    }
}

/// A number as the `VarInt` payload of a newest component.
pub open spec fn var_payload(v: Option<i32>) -> Option<Seq<u8>> {
    match v {
        Some(x) => Some(VAR_INT.encode(x)),
        None => None,
    }
}

/// Where the root compound's entries start in a client's document, which
/// has no root name from 1.20.2; `None` where the root is no compound.
pub open spec fn root_start(doc: Seq<u8>, version: V) -> Option<int> {
    if doc.len() >= 1 && doc[0] == TAG_COMPOUND {
        if version.spec_at_least(V::V_1_20_2) {
            Some(1)
        } else if doc.len() >= 3 {
            Some(3 + u16_at(doc, 1) as int)
        } else {
            None
        }
    } else {
        None
    }
}

/// The unbreakable flag: a non zero number.
pub open spec fn unbreakable_payload(v: Option<i32>) -> Option<Seq<u8>> {
    match v {
        Some(x) => if x != 0 { Some(Seq::empty()) } else { None },
        None => None,
    }
}

/// The dye colour: `color` inside the `display` compound.
pub open spec fn color_payload(doc: Seq<u8>, root: int) -> Option<Seq<u8>> {
    match find_entry(doc, root, "display".spec_bytes()) {
        Some((tag, p)) => if tag == TAG_COMPOUND {
            match int_entry(doc, p, "color") {
                Some(rgb) => Some(I32.encode(rgb)),
                None => None,
            }
        } else {
            None
        },
        None => None,
    }
}

/// The newest components a client's item document stands for, in this
/// order: damage, repair cost, the unbreakable flag, the map id, the
/// enchantments, the stored enchantments, the dye colour, and the tags no
/// component is read from as custom data.
pub open spec fn nbt_components(reg: Seq<DataComponent>, doc: Seq<u8>, version: V, keys: Seq<EnchantmentKey>)
    -> Seq<ComponentView>
{
    match root_start(doc, version) {
        Some(r) => one_component(reg, DataComponent::Damage, var_payload(int_entry(doc, r, "Damage")))
            + one_component(reg, DataComponent::RepairCost, var_payload(int_entry(doc, r, "RepairCost")))
            + one_component(reg, DataComponent::Unbreakable, unbreakable_payload(int_entry(doc, r, "Unbreakable")))
            + one_component(reg, DataComponent::MapId, var_payload(int_entry(doc, r, "map")))
            + one_component(reg, DataComponent::Enchantments,
                enchantment_payload(list_pairs(doc, r, "Enchantments", keys)))
            + one_component(reg, DataComponent::StoredEnchantments,
                enchantment_payload(list_pairs(doc, r, "StoredEnchantments", keys)))
            + one_component(reg, DataComponent::DyedColor, color_payload(doc, r))
            + one_component(reg, DataComponent::CustomData, custom_payload(doc, r)),
        None => Seq::empty(),
    }
}

fn kind_id(reg: &[DataComponent], kind: DataComponent) -> (r: Option<i32>)
    ensures
        r == component_id(reg@, 0, kind),
{
    let mut i: usize = 0;
    while i < reg.len()
        invariant
            i <= reg@.len(),
            component_id(reg@, 0, kind) == component_id(reg@, i as int, kind),
        decreases reg@.len() - i,
    {
        if i >= 256 {
            return None;
        }
        if reg[i] == kind {
            return Some(i as i32);
        }
        i = i + 1;
    }
    None
}

fn push_component(out: &mut Vec<ItemComponent>, reg: &[DataComponent], kind: DataComponent, data: Option<Vec<u8>>)
    ensures
        final(out)@.map_values(|c: ItemComponent| c@) == old(out)@.map_values(|c: ItemComponent| c@)
            + one_component(reg@, kind, match data { Some(d) => Some(d@), None => None }),
{
    let ghost before = out@.map_values(|c: ItemComponent| c@);
    match (kind_id(reg, kind), data) {
        (Some(id), Some(d)) => {
            let ghost view = ComponentView { id, data: d@ };
            out.push(ItemComponent { id, data: d });
            assert(out@.map_values(|c: ItemComponent| c@) =~= before + seq![view]);
        },
        _ => {
            assert(out@.map_values(|c: ItemComponent| c@) =~= before + Seq::<ComponentView>::empty());
        },
    }
}

fn var_data(v: Option<i32>) -> (r: Option<Vec<u8>>)
    ensures
        match var_payload(v) { Some(d) => r matches Some(x) && x@ == d, None => r is None },
{
    match v {
        Some(x) => {
            let mut out: Vec<u8> = Vec::new();
            VAR_INT.write(&mut out, &x);
            assert(out@ =~= Seq::<u8>::empty() + VAR_INT.encode(x));
            Some(out)
        },
        None => None,
    }
}

fn list_data(doc: &[u8], root: usize, name: &str, keys: &[EnchantmentKey]) -> (r: Option<Vec<u8>>)
    ensures
        match enchantment_payload(list_pairs(doc@, root as int, name, keys@)) {
            Some(d) => r matches Some(x) && x@ == d,
            None => r is None,
        },
{
    match read_list_pairs(doc, root, name, keys) {
        Some(ps) => enchantment_payload_of(&ps),
        None => None,
    }
}

fn color_data(doc: &[u8], root: usize) -> (r: Option<Vec<u8>>)
    ensures
        match color_payload(doc@, root as int) { Some(d) => r matches Some(x) && x@ == d, None => r is None },
{
    match find(doc, root, "display".as_bytes()) {
        Some((tag, p)) => {
            if tag != TAG_COMPOUND {
                return None;
            }
            match int_in(doc, p, "color") {
                Some(rgb) => {
                    let mut out: Vec<u8> = Vec::new();
                    I32.write(&mut out, &rgb);
                    assert(out@ =~= Seq::<u8>::empty() + I32.encode(rgb));
                    Some(out)
                },
                None => None,
            }
        },
        None => None,
    }
}

/// The newest components a client's item document stands for, `keys`
/// naming the newest enchantment registry.
pub fn nbt_to_components(reg: &[DataComponent], doc: &[u8], version: V, keys: &[EnchantmentKey])
    -> (r: Vec<ItemComponent>)
    ensures
        r@.map_values(|c: ItemComponent| c@) == nbt_components(reg@, doc@, version, keys@),
{
    let mut out: Vec<ItemComponent> = Vec::new();
    if doc.len() < 1 || doc[0] != TAG_COMPOUND {
        assert(out@.map_values(|c: ItemComponent| c@) =~= Seq::<ComponentView>::empty());
        return out;
    }
    let root: usize = if version.at_least(V::V_1_20_2) {
        1
    } else if doc.len() >= 3 {
        3 + (doc[1] as usize) * 256 + doc[2] as usize
    } else {
        assert(out@.map_values(|c: ItemComponent| c@) =~= Seq::<ComponentView>::empty());
        return out;
    };
    assert(out@.map_values(|c: ItemComponent| c@) =~= Seq::<ComponentView>::empty());
    push_component(&mut out, reg, DataComponent::Damage, var_data(int_in(doc, root, "Damage")));
    push_component(&mut out, reg, DataComponent::RepairCost, var_data(int_in(doc, root, "RepairCost")));
    let unbreakable: Option<Vec<u8>> = match int_in(doc, root, "Unbreakable") {
        Some(x) => if x != 0 {
            let v: Vec<u8> = Vec::new();
            assert(v@ =~= Seq::<u8>::empty());
            Some(v)
        } else {
            None
        },
        None => None,
    };
    push_component(&mut out, reg, DataComponent::Unbreakable, unbreakable);
    push_component(&mut out, reg, DataComponent::MapId, var_data(int_in(doc, root, "map")));
    push_component(&mut out, reg, DataComponent::Enchantments, list_data(doc, root, "Enchantments", keys));
    push_component(&mut out, reg, DataComponent::StoredEnchantments,
        list_data(doc, root, "StoredEnchantments", keys));
    push_component(&mut out, reg, DataComponent::DyedColor, color_data(doc, root));
    push_component(&mut out, reg, DataComponent::CustomData, custom_data(doc, root));
    assert(out@.map_values(|c: ItemComponent| c@) =~= nbt_components(reg@, doc@, version, keys@));
    out
}


// ---------------------------------------------------------------------------
// The tags no component stands for
// ---------------------------------------------------------------------------

/// The root tags a component is read from; every other tag a client sends
/// is kept as custom data.
pub open spec fn consumed_name(name: Seq<u8>) -> bool {
    name == "BlockEntityTag".spec_bytes() || name == "CustomModelData".spec_bytes() || name == "CustomPotionColor".spec_bytes() || name == "Damage".spec_bytes() || name == "Enchantments".spec_bytes() || name == "Potion".spec_bytes() || name == "RepairCost".spec_bytes() || name == "SkullOwner".spec_bytes() || name == "StoredEnchantments".spec_bytes() || name == "Trim".spec_bytes() || name == "Unbreakable".spec_bytes() || name == "author".spec_bytes() || name == "display".spec_bytes() || name == "map".spec_bytes() || name == "pages".spec_bytes() || name == "resolved".spec_bytes() || name == "title".spec_bytes()
}

/// The names of the root tags a component is read from.
pub open spec fn consumed_names() -> Seq<&'static str> {
    seq!["BlockEntityTag", "CustomModelData", "CustomPotionColor", "Damage", "Enchantments", "Potion", "RepairCost", "SkullOwner", "StoredEnchantments", "Trim", "Unbreakable", "author", "display", "map", "pages", "resolved", "title"]
}

fn make_consumed_names() -> (r: Vec<&'static str>)
    ensures
        r@ == consumed_names(),
{
    let r = vec!["BlockEntityTag", "CustomModelData", "CustomPotionColor", "Damage", "Enchantments", "Potion", "RepairCost", "SkullOwner", "StoredEnchantments", "Trim", "Unbreakable", "author", "display", "map", "pages", "resolved", "title"];
    assert(r@ =~= consumed_names());
    r
}

/// Whether one of `names` from `i` on is `name`.
pub open spec fn listed_from(names: Seq<&'static str>, i: int, name: Seq<u8>) -> bool
    decreases names.len() - i,
{
    if i < 0 || i >= names.len() {
        false
    } else {
        names[i].spec_bytes() == name || listed_from(names, i + 1, name)
    }
}

proof fn lemma_listed_is_consumed(name: Seq<u8>)
    ensures
        listed_from(consumed_names(), 0, name) == consumed_name(name),
{
    reveal_with_fuel(listed_from, 18);
}

fn is_consumed(b: &[u8], from: usize, len: usize) -> (r: bool)
    requires
        from + len <= b@.len(),
    ensures
        r == consumed_name(b@.subrange(from as int, from + len)),
{
    let names = make_consumed_names();
    let ghost name = b@.subrange(from as int, from + len);
    let mut i: usize = 0;
    while i < names.len()
        invariant
            i <= names@.len(),
            names@ == consumed_names(),
            from + len <= b@.len(),
            name == b@.subrange(from as int, from + len),
            listed_from(names@, 0, name) == listed_from(names@, i as int, name),
        decreases names@.len() - i,
    {
        let candidate = names[i].as_bytes();
        if candidate.len() == len && same_bytes(b, from, candidate) {
            proof { lemma_listed_is_consumed(name); }
            return true;
        }
        i = i + 1;
    }
    proof { lemma_listed_is_consumed(name); }
    false
}

/// The entries of a compound from `pos` up to its end tag that no component
/// is read from, and the position after the end tag.
pub open spec fn unconsumed_entries(b: Seq<u8>, pos: int) -> Option<(Seq<u8>, int)>
    decreases b.len() - pos,
{
    if pos < 0 || pos >= b.len() {
        None
    } else if b[pos] == TAG_END {
        Some((Seq::empty(), pos + 1))
    } else if pos + 3 > b.len() {
        None
    } else {
        let start = pos + 3 + u16_at(b, pos + 1);
        if start > b.len() {
            None
        } else {
            match payload_end(b, b[pos], start, ENTRY_DEPTH as nat) {
                Some(next) => if pos < next <= b.len() {
                    match unconsumed_entries(b, next) {
                        Some((rest, end)) => Some((
                            (if consumed_name(b.subrange(pos + 3, start)) { Seq::empty() } else { b.subrange(pos, next) })
                                + rest,
                            end,
                        )),
                        None => None,
                    }
                } else {
                    None
                },
                None => None,
            }
        }
    }
}

/// `front` followed by what `rest` holds.
pub open spec fn joined_bytes(front: Seq<u8>, rest: Option<(Seq<u8>, int)>) -> Option<(Seq<u8>, int)> {
    match rest {
        Some((r, e)) => Some((front + r, e)),
        None => None,
    }
}

fn copy_unconsumed(b: &[u8], pos: usize) -> (r: Option<Vec<u8>>)
    ensures
        match unconsumed_entries(b@, pos as int) {
            Some((kept, _)) => r matches Some(v) && v@ == kept,
            None => r is None,
        },
{
    let mut out: Vec<u8> = Vec::new();
    let mut p = pos;
    loop
        invariant
            unconsumed_entries(b@, pos as int) == joined_bytes(out@, unconsumed_entries(b@, p as int)),
        decreases b@.len() - p,
    {
        if p >= b.len() {
            return None;
        }
        if b[p] == TAG_END {
            assert(out@ + Seq::<u8>::empty() =~= out@);
            return Some(out);
        }
        if b.len() - p < 3 {
            return None;
        }
        let len = (b[p + 1] as usize) * 256 + b[p + 2] as usize;
        if len > b.len() - p - 3 {
            return None;
        }
        let start = p + 3 + len;
        let next = match skip_payload(b, b[p], start, ENTRY_DEPTH) {
            Some(next) => next,
            None => return None,
        };
        if next <= p {
            return None;
        }
        let ghost before = out@;
        let dropped = is_consumed(b, p + 3, len);
        if !dropped {
            append_bytes(&mut out, slice_subrange(b, p, next));
        }
        proof {
            let one = if dropped { Seq::<u8>::empty() } else { b@.subrange(p as int, next as int) };
            assert(out@ =~= before + one);
            match unconsumed_entries(b@, next as int) {
                Some((rest, e)) => {
                    assert(before + one + rest =~= before + (one + rest));
                },
                None => {},
            }
        }
        p = next;
    }
}

/// The custom data a client's root tags leave: those no component is read
/// from, as a compound; none where there are none.
pub open spec fn custom_payload(doc: Seq<u8>, root: int) -> Option<Seq<u8>> {
    match unconsumed_entries(doc, root) {
        Some((kept, _)) => if kept.len() == 0 { None } else { Some(seq![TAG_COMPOUND] + kept + seq![TAG_END]) },
        None => None,
    }
}

fn custom_data(doc: &[u8], root: usize) -> (r: Option<Vec<u8>>)
    ensures
        match custom_payload(doc@, root as int) { Some(d) => r matches Some(x) && x@ == d, None => r is None },
{
    match copy_unconsumed(doc, root) {
        Some(kept) => {
            if kept.len() == 0 {
                return None;
            }
            let mut out: Vec<u8> = Vec::new();
            out.push(TAG_COMPOUND);
            append_bytes(&mut out, kept.as_slice());
            out.push(TAG_END);
            Some(out)
        },
        None => None,
    }
}

/// The entries of the first custom data component of `cs`, the base every
/// other tag is written over; nothing where there is none or its payload is
/// no compound.
pub open spec fn custom_base(reg: Seq<DataComponent>, cs: Seq<ComponentView>) -> Seq<u8>
    decreases cs.len(),
{
    if cs.len() == 0 {
        Seq::empty()
    } else if component_kind(reg, cs[0].id) == Some(DataComponent::CustomData) {
        let d = cs[0].data;
        if d.len() >= 1 && d[0] == TAG_COMPOUND {
            match compound_end(d, 1, ENTRY_DEPTH as nat) {
                Some(e) => if 1 < e <= d.len() { d.subrange(1, e - 1) } else { Seq::empty() },
                None => Seq::empty(),
            }
        } else {
            Seq::empty()
        }
    } else {
        custom_base(reg, cs.drop_first())
    }
}

fn custom_base_of(reg: &[DataComponent], added: &Vec<ItemComponent>) -> (r: Vec<u8>)
    ensures
        r@ == custom_base(reg@, added@.map_values(|c: ItemComponent| c@)),
{
    let ghost cs = added@.map_values(|c: ItemComponent| c@);
    assert(cs.skip(0) =~= cs);
    let mut i: usize = 0;
    while i < added.len()
        invariant
            i <= added@.len(),
            cs == added@.map_values(|c: ItemComponent| c@),
            custom_base(reg@, cs) == custom_base(reg@, cs.skip(i as int)),
        decreases added@.len() - i,
    {
        let c = &added[i];
        assert(cs.skip(i as int)[0] == c@);
        assert(cs.skip(i as int).drop_first() =~= cs.skip(i + 1));
        if 0 <= c.id && c.id < 256 && (c.id as usize) < reg.len() && reg[c.id as usize] == DataComponent::CustomData {
            let d = c.data.as_slice();
            if d.len() >= 1 && d[0] == TAG_COMPOUND {
                match skip_compound(d, 1, ENTRY_DEPTH) {
                    Some(e) => {
                        if 1 < e {
                            let mut out: Vec<u8> = Vec::new();
                            append_bytes(&mut out, slice_subrange(d, 1, e - 1));
                            return out;
                        }
                    },
                    None => {},
                }
            }
            return Vec::new();
        }
        i = i + 1;
    }
    assert(cs.skip(cs.len() as int) =~= Seq::<ComponentView>::empty());
    Vec::new()
}


// ---------------------------------------------------------------------------
// What a round through the NBT form keeps
// ---------------------------------------------------------------------------

/// The document a lone damage of `d` makes for `version`.
pub open spec fn damage_document(version: V, d: i32) -> Seq<u8> {
    document_head(version) + named_tag(TAG_INT, "Damage", I32.encode(d)) + seq![TAG_END]
}

proof fn lemma_damage_document(reg: Seq<DataComponent>, c: ComponentView, version: V, keys: Seq<EnchantmentKey>, d: i32)
    requires
        component_kind(reg, c.id) == Some(DataComponent::Damage),
        c.data == VAR_INT.encode(d),
    ensures
        legacy_tag(reg, seq![c], version, keys) == Some(damage_document(version, d)),
{
    let cs = seq![c];
    VAR_INT.lemma_round_trip(d, Seq::empty());
    assert(c.data + Seq::<u8>::empty() =~= c.data);
    assert(rest_of(c.data, 0) =~= c.data);
    assert(cs.drop_first() =~= Seq::<ComponentView>::empty());
    assert(custom_base(reg, Seq::<ComponentView>::empty()) == Seq::<u8>::empty());
    assert(cs[0] == c);
    assert(custom_base(reg, cs) == Seq::<u8>::empty());
    assert(cs.drop_last() =~= Seq::<ComponentView>::empty());
    assert(cs.last() == c);
    assert(all_root_tags(reg, Seq::<ComponentView>::empty(), version, keys) == Seq::<u8>::empty());
    assert(field(VAR_INT, c.data, 0) == Some((d, VAR_INT.encode(d).len() as int)));
    assert(root_tags(reg, c, version, keys) == named_tag(TAG_INT, "Damage", I32.encode(d)));
    assert(all_root_tags(reg, cs, version, keys) =~= named_tag(TAG_INT, "Damage", I32.encode(d)));
    assert(all_display_tags(reg, Seq::<ComponentView>::empty()) == Seq::<u8>::empty());
    assert(display_tags(reg, c) == Seq::<u8>::empty());
    assert(all_display_tags(reg, cs) =~= Seq::<u8>::empty());
}

/// In a document holding only the damage entry at `r`, an entry named
/// anything of another length is not found.
proof fn lemma_only_damage(doc: Seq<u8>, r: int, d: i32, name: Seq<u8>)
    requires
        0 <= r <= doc.len(),
        doc.subrange(r, doc.len() as int) == named_tag(TAG_INT, "Damage", I32.encode(d)) + seq![TAG_END],
        "Damage".spec_bytes().len() == 6,
        name.len() != 6,
    ensures
        find_entry(doc, r, name) is None,
        find_entry(doc, r, "Damage".spec_bytes()) == Some((TAG_INT, r + 9)),
        doc.len() == r + 14,
        doc[r + 13] == TAG_END,
        field(I32, doc, r + 9) == Some((d, r + 13)),
{
    let tail = doc.subrange(r, doc.len() as int);
    assert(I32.encode(d).len() == 4) by {
        reveal_with_fuel(crate::codec::be_bytes, 5);
    }
    assert(nbt_string("Damage".spec_bytes()).len() == 8);
    assert(named_tag(TAG_INT, "Damage", I32.encode(d)).len() == 13);
    assert(tail.len() == 14);
    assert(doc.len() == r + 14);
    assert(tail.len() == 14);
    assert(doc[r] == tail[0]);
    assert(doc[r + 1] == tail[1]);
    assert(doc[r + 2] == tail[2]);
    assert(doc[r + 13] == tail[13]);
    assert(tail[1] == 0u8);
    assert(tail[2] == 6u8);
    assert(u16_at(doc, r + 1) == 6);
    assert(doc.subrange(r + 3, r + 9) =~= "Damage".spec_bytes()) by {
        assert forall|i: int| 0 <= i < 6 implies doc.subrange(r + 3, r + 9)[i] == "Damage".spec_bytes()[i] by {
            assert(doc[r + 3 + i] == tail[3 + i]);
        }
    }
    assert(payload_end(doc, TAG_INT, r + 9, ENTRY_DEPTH as nat) == Some(r + 13));
    assert(doc.subrange(r + 3, r + 9).len() != name.len());
    assert(find_entry(doc, r + 13, name) is None);
    assert(rest_of(doc, r + 9) =~= I32.encode(d) + seq![TAG_END]) by {
        assert forall|i: int| 0 <= i < 5 implies rest_of(doc, r + 9)[i] == (I32.encode(d) + seq![TAG_END])[i] by {
            assert(doc[r + 9 + i] == tail[9 + i]);
        }
    }
    I32.lemma_round_trip(d, seq![TAG_END]);
}

/// A stack whose only component is a damage takes the NBT form and comes
/// back from it with that component, in every version the form is used in.
#[verifier::rlimit(50)]
pub proof fn law_damage_survives_the_nbt_form(reg: Seq<DataComponent>, c: ComponentView, version: V,
    keys: Seq<EnchantmentKey>, d: i32)
    requires
        component_id(reg, 0, DataComponent::Damage) == Some(c.id),
        c.data == VAR_INT.encode(d),
    ensures
        legacy_tag(reg, seq![c], version, keys) matches Some(doc)
            && nbt_components(reg, doc, version, keys) == seq![c],
{
    lemma_component_id(reg, 0, DataComponent::Damage);
    lemma_damage_document(reg, c, version, keys, d);
    lemma_tag_names();
    let doc = damage_document(version, d);
    let head = document_head(version);
    let r = head.len() as int;
    assert(doc.subrange(r, doc.len() as int) =~= named_tag(TAG_INT, "Damage", I32.encode(d)) + seq![TAG_END]);
    assert(root_start(doc, version) == Some(r)) by {
        assert(doc[0] == TAG_COMPOUND);
        if !version.spec_at_least(V::V_1_20_2) {
            assert(doc[1] == 0u8 && doc[2] == 0u8);
        }
    }
    lemma_only_damage(doc, r, d, "RepairCost".spec_bytes());
    lemma_only_damage(doc, r, d, "Unbreakable".spec_bytes());
    lemma_only_damage(doc, r, d, "map".spec_bytes());
    lemma_only_damage(doc, r, d, "Enchantments".spec_bytes());
    lemma_only_damage(doc, r, d, "StoredEnchantments".spec_bytes());
    lemma_only_damage(doc, r, d, "display".spec_bytes());
    assert(int_entry(doc, r, "Damage") == Some(d));
    // The damage entry is consumed, so no custom data is left.
    assert(doc.subrange(r + 3, r + 9) =~= "Damage".spec_bytes()) by {
        let tail = doc.subrange(r, doc.len() as int);
        assert forall|i: int| 0 <= i < 6 implies doc.subrange(r + 3, r + 9)[i] == "Damage".spec_bytes()[i] by {
            assert(doc[r + 3 + i] == tail[3 + i]);
        }
    }
    assert(consumed_name(doc.subrange(r + 3, r + 9)));
    assert(unconsumed_entries(doc, r + 13) == Some((Seq::<u8>::empty(), r + 14)));
    assert(unconsumed_entries(doc, r) == Some((Seq::<u8>::empty(), r + 14)));
    assert(custom_payload(doc, r) is None);
    assert(nbt_components(reg, doc, version, keys) =~= seq![c]);
}

/// The id `component_id` finds names the kind it was asked for.
proof fn lemma_component_id(reg: Seq<DataComponent>, i: int, kind: DataComponent)
    ensures
        component_id(reg, i, kind) matches Some(id) ==> 0 <= id < 256 && id < reg.len() && reg[id as int] == kind,
    decreases reg.len() - i,
{
    if !(i < 0 || i >= reg.len() || i >= 256) && reg[i] != kind {
        lemma_component_id(reg, i + 1, kind);
    }
}

} // verus!
