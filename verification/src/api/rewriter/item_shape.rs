//! The wire shape of every item component payload, and a walker that measures
//! a payload by its shape.
//!
//! Walking by shape needs none of the registry tables a typed reader does: it
//! only has to know where each value ends.

use vstd::prelude::*;
use crate::codec::{rest_of, var_int_at, string_at, read_var_int, read_bool, read_string};
use crate::nbt::{document_end, skip_document, as_int};

verus! {

/// The wire shape of a value.
#[derive(Debug)]
pub enum Shape {
    /// Nothing at all.
    Unit,
    /// One byte.
    Bool,
    /// A four byte integer.
    I32,
    /// A four byte float, measured and never read.
    Float,
    /// An eight byte float, measured and never read.
    Double,
    VarInt,
    /// A string with a `VarInt` length.
    Str,
    /// Sixteen bytes.
    Uuid,
    /// A block position packed in eight bytes.
    BlockPos,
    /// A network NBT document.
    Nbt,
    /// A value of the first shape followed by one of the second.
    Pair(Box<Shape>, Box<Shape>),
    /// A `VarInt` count and that many values.
    Array(Box<Shape>),
    /// A bool and the value when it is set.
    Opt(Box<Shape>),
    /// A `VarInt`: zero is a tag name, anything else is that many ids less one.
    IdSet,
    /// A holder: zero is an inline sound, anything else is a registry id.
    Sound,
    /// A stack with the item id in front and no present flag.
    Template,
    /// A component id and that component's own payload.
    Component,
    /// A counted list of status effects.
    StatusEffects,
    /// A consume effect: its kind and the kind's fields.
    ConsumeEffect,
    /// A bool and the first arm when it is set, the second when not.
    BoolSwitch(Box<Shape>, Box<Shape>),
    /// A `VarInt`: the arm where it equals the value, else the fallback.
    Switch(i32, Box<Shape>, Box<Shape>),
    /// A component the codec has no arm for, which never reaches the wire.
    Absent,
}

/// How many constructors make up `s`.
pub open spec fn size(s: Shape) -> nat
    decreases s,
{
    match s {
        Shape::Pair(a, b) => 1 + size(*a) + size(*b),
        Shape::Array(a) => 1 + size(*a),
        Shape::Opt(a) => 1 + size(*a),
        Shape::BoolSwitch(a, b) => 1 + size(*a) + size(*b),
        Shape::Switch(_, a, b) => 1 + size(*a) + size(*b),
        _ => 1,
    }
}

/// `a` followed by `b`.
pub open spec fn pair(a: Shape, b: Shape) -> Shape {
    Shape::Pair(Box::new(a), Box::new(b))
}

/// A counted list of `a`.
pub open spec fn array_of(a: Shape) -> Shape {
    Shape::Array(Box::new(a))
}

/// An optional `a`.
pub open spec fn opt_of(a: Shape) -> Shape {
    Shape::Opt(Box::new(a))
}

/// `yes` or `no` after a bool.
pub open spec fn bool_switch(yes: Shape, no: Shape) -> Shape {
    Shape::BoolSwitch(Box::new(yes), Box::new(no))
}

/// `arm` after a `VarInt` equal to `value`, `fallback` after any other.
pub open spec fn switch_on(value: i32, arm: Shape, fallback: Shape) -> Shape {
    Shape::Switch(value, Box::new(arm), Box::new(fallback))
}

fn make_pair(a: Shape, b: Shape) -> (r: Shape)
    ensures
        r == pair(a, b),
{
    Shape::Pair(Box::new(a), Box::new(b))
}

fn make_array(a: Shape) -> (r: Shape)
    ensures
        r == array_of(a),
{
    Shape::Array(Box::new(a))
}

fn make_opt(a: Shape) -> (r: Shape)
    ensures
        r == opt_of(a),
{
    Shape::Opt(Box::new(a))
}

fn make_bool_switch(yes: Shape, no: Shape) -> (r: Shape)
    ensures
        r == bool_switch(yes, no),
{
    Shape::BoolSwitch(Box::new(yes), Box::new(no))
}

fn make_switch(value: i32, arm: Shape, fallback: Shape) -> (r: Shape)
    ensures
        r == switch_on(value, arm, fallback),
{
    Shape::Switch(value, Box::new(arm), Box::new(fallback))
}

/// The item components of the newest protocol. Their ids come from the
/// server's registry, in the order a `ComponentRegistry` lists them.
#[derive(Clone, Copy, Debug, PartialEq, Eq, Structural, Hash)]
pub enum DataComponent {
    MaxStackSize,
    MaxDamage,
    Damage,
    RepairCost,
    Rarity,
    DamageType,
    Enchantable,
    OminousBottleAmplifier,
    Instrument,
    ProvidesTrimMaterial,
    JukeboxPlayable,
    AdditionalTradeCost,
    Dye,
    MapPostProcessing,
    MapId,
    BaseColor,
    BreakSound,
    MinimumAttackCharge,
    PotionDurationScale,
    EnchantmentGlintOverride,
    DyedColor,
    ItemModel,
    ItemName,
    DamageResistant,
    TooltipStyle,
    NoteBlockSound,
    VillagerVariant,
    WolfVariant,
    WolfSoundVariant,
    WolfCollar,
    FoxVariant,
    SalmonSize,
    ParrotVariant,
    TropicalFishPattern,
    TropicalFishBaseColor,
    TropicalFishPatternColor,
    MooshroomVariant,
    RabbitVariant,
    PigVariant,
    PigSoundVariant,
    CowVariant,
    CowSoundVariant,
    ChickenVariant,
    ChickenSoundVariant,
    ZombieNautilusVariant,
    FrogVariant,
    HorseVariant,
    PaintingVariant,
    LlamaVariant,
    AxolotlVariant,
    CatVariant,
    CatSoundVariant,
    CatCollar,
    SheepColor,
    ShulkerColor,
    CustomName,
    CustomData,
    BucketEntityData,
    Unbreakable,
    CreativeSlotLock,
    IntangibleProjectile,
    Glider,
    DebugStickState,
    MapDecorations,
    Recipes,
    Lock,
    ContainerLoot,
    Lore,
    Enchantments,
    StoredEnchantments,
    SuspiciousStewEffects,
    BannerPatterns,
    PotDecorations,
    CanPlaceOn,
    CanBreak,
    AttributeModifiers,
    CustomModelData,
    TooltipDisplay,
    UseEffects,
    UseCooldown,
    Food,
    Consumable,
    UseRemainder,
    SulfurCubeContent,
    Tool,
    Weapon,
    AttackRange,
    Equippable,
    Repairable,
    ProvidesBannerPatterns,
    DeathProtection,
    BlocksAttacks,
    PiercingWeapon,
    KineticWeapon,
    AttackAnimation,
    ChargedProjectiles,
    BundleContents,
    PotionContents,
    WritableBookContent,
    WrittenBookContent,
    Trim,
    EntityData,
    BlockEntityData,
    LodestoneTracker,
    FireworkExplosion,
    Fireworks,
    Profile,
    Container,
    BlockState,
    Bees,
    BlockTransformer,
    VillagerFood,
    MobVisibility,
    Compostable,
    CookingFuel,
    BrewingFuel,
    ProvidesPotteryPattern,
    SignTextFront,
    SignTextBack,
    Waxed,
    CushionColor,
    InteractAnimation,}

/// The payload shape of every component.
pub open spec fn component_shape(component: DataComponent) -> Shape {
    match component {
        DataComponent::MaxStackSize
        | DataComponent::MaxDamage
        | DataComponent::Damage
        | DataComponent::RepairCost
        | DataComponent::Rarity
        | DataComponent::DamageType
        | DataComponent::Enchantable
        | DataComponent::OminousBottleAmplifier
        | DataComponent::Instrument
        | DataComponent::ProvidesTrimMaterial
        | DataComponent::JukeboxPlayable
        | DataComponent::AdditionalTradeCost
        | DataComponent::Dye
        | DataComponent::MapPostProcessing
        | DataComponent::MapId
        | DataComponent::BaseColor
        | DataComponent::BreakSound => Shape::VarInt,
        DataComponent::MinimumAttackCharge
        | DataComponent::PotionDurationScale => Shape::Float,
        DataComponent::EnchantmentGlintOverride => Shape::Bool,
        DataComponent::DyedColor => Shape::I32,
        DataComponent::ItemModel
        | DataComponent::ItemName
        | DataComponent::DamageResistant
        | DataComponent::TooltipStyle
        | DataComponent::NoteBlockSound
        | DataComponent::VillagerVariant
        | DataComponent::WolfVariant
        | DataComponent::WolfSoundVariant
        | DataComponent::WolfCollar
        | DataComponent::FoxVariant
        | DataComponent::SalmonSize
        | DataComponent::ParrotVariant
        | DataComponent::TropicalFishPattern
        | DataComponent::TropicalFishBaseColor
        | DataComponent::TropicalFishPatternColor
        | DataComponent::MooshroomVariant
        | DataComponent::RabbitVariant
        | DataComponent::PigVariant
        | DataComponent::PigSoundVariant
        | DataComponent::CowVariant
        | DataComponent::CowSoundVariant
        | DataComponent::ChickenVariant
        | DataComponent::ChickenSoundVariant
        | DataComponent::ZombieNautilusVariant
        | DataComponent::FrogVariant
        | DataComponent::HorseVariant
        | DataComponent::PaintingVariant
        | DataComponent::LlamaVariant
        | DataComponent::AxolotlVariant
        | DataComponent::CatVariant
        | DataComponent::CatSoundVariant
        | DataComponent::CatCollar
        | DataComponent::SheepColor
        | DataComponent::ShulkerColor => Shape::Str,
        DataComponent::CustomName
        | DataComponent::CustomData
        | DataComponent::BucketEntityData => Shape::Nbt,
        DataComponent::Unbreakable
        | DataComponent::CreativeSlotLock
        | DataComponent::IntangibleProjectile
        | DataComponent::Glider
        | DataComponent::DebugStickState
        | DataComponent::MapDecorations
        | DataComponent::Recipes
        | DataComponent::Lock
        | DataComponent::ContainerLoot => Shape::Unit,
        DataComponent::Lore => array_of(Shape::Nbt),
        DataComponent::Enchantments
        | DataComponent::StoredEnchantments => spec_enchantments(),
        DataComponent::SuspiciousStewEffects
        | DataComponent::BannerPatterns => array_of(spec_var_int_pair()),
        DataComponent::PotDecorations => array_of(Shape::VarInt),
        DataComponent::CanPlaceOn
        | DataComponent::CanBreak => array_of(spec_block_predicate()),
        DataComponent::AttributeModifiers => spec_attribute_modifiers(),
        DataComponent::CustomModelData => spec_custom_model_data(),
        DataComponent::TooltipDisplay => spec_tooltip_display(),
        DataComponent::UseEffects => spec_use_effects(),
        DataComponent::UseCooldown => spec_use_cooldown(),
        DataComponent::Food => spec_food(),
        DataComponent::Consumable => spec_consumable(),
        DataComponent::UseRemainder
        | DataComponent::SulfurCubeContent => Shape::Template,
        DataComponent::Tool => spec_tool(),
        DataComponent::Weapon => spec_weapon(),
        DataComponent::AttackRange => spec_attack_range(),
        DataComponent::Equippable => spec_equippable(),
        DataComponent::Repairable
        | DataComponent::ProvidesBannerPatterns => Shape::IdSet,
        DataComponent::DeathProtection => array_of(Shape::ConsumeEffect),
        DataComponent::BlocksAttacks => spec_blocks_attacks(),
        DataComponent::PiercingWeapon => spec_piercing_weapon(),
        DataComponent::KineticWeapon => spec_kinetic_weapon(),
        DataComponent::AttackAnimation => spec_var_int_pair(),
        DataComponent::ChargedProjectiles
        | DataComponent::BundleContents => array_of(Shape::Template),
        DataComponent::PotionContents => spec_potion_contents(),
        DataComponent::WritableBookContent => spec_writable_book(),
        DataComponent::WrittenBookContent => spec_written_book(),
        DataComponent::Trim => spec_var_int_pair(),
        DataComponent::EntityData
        | DataComponent::BlockEntityData => spec_entity_data(),
        DataComponent::LodestoneTracker => spec_lodestone_tracker(),
        DataComponent::FireworkExplosion => spec_firework_explosion(),
        DataComponent::Fireworks => spec_fireworks(),
        DataComponent::Profile => spec_profile(),
        DataComponent::Container => array_of(opt_of(Shape::Template)),
        DataComponent::BlockState => spec_block_state(),
        DataComponent::Bees => spec_bees(),
        DataComponent::BlockTransformer
        | DataComponent::VillagerFood
        | DataComponent::MobVisibility
        | DataComponent::Compostable
        | DataComponent::CookingFuel
        | DataComponent::BrewingFuel
        | DataComponent::ProvidesPotteryPattern
        | DataComponent::SignTextFront
        | DataComponent::SignTextBack
        | DataComponent::Waxed
        | DataComponent::CushionColor
        | DataComponent::InteractAnimation => Shape::Absent,    }
}

/// The payload shape of `component`.
#[verifier::when_used_as_spec(component_shape)]
pub fn shape(component: DataComponent) -> (r: Shape)
    ensures
        r == component_shape(component),
{
    match component {
        DataComponent::MaxStackSize
        | DataComponent::MaxDamage
        | DataComponent::Damage
        | DataComponent::RepairCost
        | DataComponent::Rarity
        | DataComponent::DamageType
        | DataComponent::Enchantable
        | DataComponent::OminousBottleAmplifier
        | DataComponent::Instrument
        | DataComponent::ProvidesTrimMaterial
        | DataComponent::JukeboxPlayable
        | DataComponent::AdditionalTradeCost
        | DataComponent::Dye
        | DataComponent::MapPostProcessing
        | DataComponent::MapId
        | DataComponent::BaseColor
        | DataComponent::BreakSound => Shape::VarInt,
        DataComponent::MinimumAttackCharge
        | DataComponent::PotionDurationScale => Shape::Float,
        DataComponent::EnchantmentGlintOverride => Shape::Bool,
        DataComponent::DyedColor => Shape::I32,
        DataComponent::ItemModel
        | DataComponent::ItemName
        | DataComponent::DamageResistant
        | DataComponent::TooltipStyle
        | DataComponent::NoteBlockSound
        | DataComponent::VillagerVariant
        | DataComponent::WolfVariant
        | DataComponent::WolfSoundVariant
        | DataComponent::WolfCollar
        | DataComponent::FoxVariant
        | DataComponent::SalmonSize
        | DataComponent::ParrotVariant
        | DataComponent::TropicalFishPattern
        | DataComponent::TropicalFishBaseColor
        | DataComponent::TropicalFishPatternColor
        | DataComponent::MooshroomVariant
        | DataComponent::RabbitVariant
        | DataComponent::PigVariant
        | DataComponent::PigSoundVariant
        | DataComponent::CowVariant
        | DataComponent::CowSoundVariant
        | DataComponent::ChickenVariant
        | DataComponent::ChickenSoundVariant
        | DataComponent::ZombieNautilusVariant
        | DataComponent::FrogVariant
        | DataComponent::HorseVariant
        | DataComponent::PaintingVariant
        | DataComponent::LlamaVariant
        | DataComponent::AxolotlVariant
        | DataComponent::CatVariant
        | DataComponent::CatSoundVariant
        | DataComponent::CatCollar
        | DataComponent::SheepColor
        | DataComponent::ShulkerColor => Shape::Str,
        DataComponent::CustomName
        | DataComponent::CustomData
        | DataComponent::BucketEntityData => Shape::Nbt,
        DataComponent::Unbreakable
        | DataComponent::CreativeSlotLock
        | DataComponent::IntangibleProjectile
        | DataComponent::Glider
        | DataComponent::DebugStickState
        | DataComponent::MapDecorations
        | DataComponent::Recipes
        | DataComponent::Lock
        | DataComponent::ContainerLoot => Shape::Unit,
        DataComponent::Lore => make_array(Shape::Nbt),
        DataComponent::Enchantments
        | DataComponent::StoredEnchantments => enchantments(),
        DataComponent::SuspiciousStewEffects
        | DataComponent::BannerPatterns => make_array(var_int_pair()),
        DataComponent::PotDecorations => make_array(Shape::VarInt),
        DataComponent::CanPlaceOn
        | DataComponent::CanBreak => make_array(block_predicate()),
        DataComponent::AttributeModifiers => attribute_modifiers(),
        DataComponent::CustomModelData => custom_model_data(),
        DataComponent::TooltipDisplay => tooltip_display(),
        DataComponent::UseEffects => use_effects(),
        DataComponent::UseCooldown => use_cooldown(),
        DataComponent::Food => food(),
        DataComponent::Consumable => consumable(),
        DataComponent::UseRemainder
        | DataComponent::SulfurCubeContent => Shape::Template,
        DataComponent::Tool => tool(),
        DataComponent::Weapon => weapon(),
        DataComponent::AttackRange => attack_range(),
        DataComponent::Equippable => equippable(),
        DataComponent::Repairable
        | DataComponent::ProvidesBannerPatterns => Shape::IdSet,
        DataComponent::DeathProtection => make_array(Shape::ConsumeEffect),
        DataComponent::BlocksAttacks => blocks_attacks(),
        DataComponent::PiercingWeapon => piercing_weapon(),
        DataComponent::KineticWeapon => kinetic_weapon(),
        DataComponent::AttackAnimation => var_int_pair(),
        DataComponent::ChargedProjectiles
        | DataComponent::BundleContents => make_array(Shape::Template),
        DataComponent::PotionContents => potion_contents(),
        DataComponent::WritableBookContent => writable_book(),
        DataComponent::WrittenBookContent => written_book(),
        DataComponent::Trim => var_int_pair(),
        DataComponent::EntityData
        | DataComponent::BlockEntityData => entity_data(),
        DataComponent::LodestoneTracker => lodestone_tracker(),
        DataComponent::FireworkExplosion => firework_explosion(),
        DataComponent::Fireworks => fireworks(),
        DataComponent::Profile => profile(),
        DataComponent::Container => make_array(make_opt(Shape::Template)),
        DataComponent::BlockState => block_state(),
        DataComponent::Bees => bees(),
        DataComponent::BlockTransformer
        | DataComponent::VillagerFood
        | DataComponent::MobVisibility
        | DataComponent::Compostable
        | DataComponent::CookingFuel
        | DataComponent::BrewingFuel
        | DataComponent::ProvidesPotteryPattern
        | DataComponent::SignTextFront
        | DataComponent::SignTextBack
        | DataComponent::Waxed
        | DataComponent::CushionColor
        | DataComponent::InteractAnimation => Shape::Absent,    }
}

/// An id and a level for each entry.
pub open spec fn spec_enchantments() -> Shape {
    array_of(pair(Shape::VarInt, Shape::VarInt))
}

/// Builds `spec_enchantments`.
#[verifier::when_used_as_spec(spec_enchantments)]
fn enchantments() -> (r: Shape)
    ensures
        r == spec_enchantments(),
{
    make_array(make_pair(Shape::VarInt, Shape::VarInt))
}

/// A condition of a kinetic weapon.
pub open spec fn spec_kinetic_condition() -> Shape {
    pair(Shape::VarInt, pair(Shape::Float, Shape::Float))
}

/// Builds `spec_kinetic_condition`.
#[verifier::when_used_as_spec(spec_kinetic_condition)]
fn kinetic_condition() -> (r: Shape)
    ensures
        r == spec_kinetic_condition(),
{
    make_pair(Shape::VarInt, make_pair(Shape::Float, Shape::Float))
}

/// The rules, default speed, damage per block and creative flag of a tool.
pub open spec fn spec_tool() -> Shape {
    pair(array_of(pair(Shape::IdSet, pair(opt_of(Shape::Float), opt_of(Shape::Bool)))), pair(Shape::Float, pair(Shape::VarInt, Shape::Bool)))
}

/// Builds `spec_tool`.
#[verifier::when_used_as_spec(spec_tool)]
fn tool() -> (r: Shape)
    ensures
        r == spec_tool(),
{
    make_pair(make_array(make_pair(Shape::IdSet, make_pair(make_opt(Shape::Float), make_opt(Shape::Bool)))), make_pair(Shape::Float, make_pair(Shape::VarInt, Shape::Bool)))
}

/// How an item is consumed and what that does.
pub open spec fn spec_consumable() -> Shape {
    pair(Shape::Float, pair(Shape::VarInt, pair(Shape::Sound, pair(Shape::Bool, array_of(Shape::ConsumeEffect)))))
}

/// Builds `spec_consumable`.
#[verifier::when_used_as_spec(spec_consumable)]
fn consumable() -> (r: Shape)
    ensures
        r == spec_consumable(),
{
    make_pair(Shape::Float, make_pair(Shape::VarInt, make_pair(Shape::Sound, make_pair(Shape::Bool, make_array(Shape::ConsumeEffect)))))
}

/// Where an item is worn and how.
pub open spec fn spec_equippable() -> Shape {
    pair(Shape::VarInt, pair(Shape::Sound, pair(opt_of(Shape::Str), pair(opt_of(Shape::Str), pair(opt_of(Shape::IdSet), pair(Shape::Bool, pair(Shape::Bool, pair(Shape::Bool, pair(Shape::Bool, pair(Shape::Bool, Shape::Sound))))))))))
}

/// Builds `spec_equippable`.
#[verifier::when_used_as_spec(spec_equippable)]
fn equippable() -> (r: Shape)
    ensures
        r == spec_equippable(),
{
    make_pair(Shape::VarInt, make_pair(Shape::Sound, make_pair(make_opt(Shape::Str), make_pair(make_opt(Shape::Str), make_pair(make_opt(Shape::IdSet), make_pair(Shape::Bool, make_pair(Shape::Bool, make_pair(Shape::Bool, make_pair(Shape::Bool, make_pair(Shape::Bool, Shape::Sound))))))))))
}

/// A potion, its colour, its effects and its name.
pub open spec fn spec_potion_contents() -> Shape {
    pair(opt_of(Shape::VarInt), pair(opt_of(Shape::I32), pair(Shape::StatusEffects, opt_of(Shape::Str))))
}

/// Builds `spec_potion_contents`.
#[verifier::when_used_as_spec(spec_potion_contents)]
fn potion_contents() -> (r: Shape)
    ensures
        r == spec_potion_contents(),
{
    make_pair(make_opt(Shape::VarInt), make_pair(make_opt(Shape::I32), make_pair(Shape::StatusEffects, make_opt(Shape::Str))))
}

/// One firework explosion.
pub open spec fn spec_firework_explosion() -> Shape {
    pair(Shape::VarInt, pair(array_of(Shape::I32), pair(array_of(Shape::I32), pair(Shape::Bool, Shape::Bool))))
}

/// Builds `spec_firework_explosion`.
#[verifier::when_used_as_spec(spec_firework_explosion)]
fn firework_explosion() -> (r: Shape)
    ensures
        r == spec_firework_explosion(),
{
    make_pair(Shape::VarInt, make_pair(make_array(Shape::I32), make_pair(make_array(Shape::I32), make_pair(Shape::Bool, Shape::Bool))))
}

/// A rocket: flight duration and explosions.
pub open spec fn spec_fireworks() -> Shape {
    pair(Shape::VarInt, array_of(spec_firework_explosion()))
}

/// Builds `spec_fireworks`.
#[verifier::when_used_as_spec(spec_fireworks)]
fn fireworks() -> (r: Shape)
    ensures
        r == spec_fireworks(),
{
    make_pair(Shape::VarInt, make_array(firework_explosion()))
}

/// One entry of the place and break predicates.
pub open spec fn spec_block_predicate() -> Shape {
    pair(opt_of(Shape::IdSet), pair(opt_of(array_of(pair(Shape::Str, bool_switch(Shape::Str, pair(opt_of(Shape::Str), opt_of(Shape::Str)))))), pair(opt_of(Shape::Nbt), pair(array_of(Shape::Component), array_of(Shape::VarInt)))))
}

/// Builds `spec_block_predicate`.
#[verifier::when_used_as_spec(spec_block_predicate)]
fn block_predicate() -> (r: Shape)
    ensures
        r == spec_block_predicate(),
{
    make_pair(make_opt(Shape::IdSet), make_pair(make_opt(make_array(make_pair(Shape::Str, make_bool_switch(Shape::Str, make_pair(make_opt(Shape::Str), make_opt(Shape::Str)))))), make_pair(make_opt(Shape::Nbt), make_pair(make_array(Shape::Component), make_array(Shape::VarInt)))))
}

/// Attribute modifiers, each with its display.
pub open spec fn spec_attribute_modifiers() -> Shape {
    array_of(pair(Shape::VarInt, pair(Shape::Str, pair(Shape::Double, pair(Shape::VarInt, pair(Shape::VarInt, switch_on(2, Shape::Nbt, Shape::Unit)))))))
}

/// Builds `spec_attribute_modifiers`.
#[verifier::when_used_as_spec(spec_attribute_modifiers)]
fn attribute_modifiers() -> (r: Shape)
    ensures
        r == spec_attribute_modifiers(),
{
    make_array(make_pair(Shape::VarInt, make_pair(Shape::Str, make_pair(Shape::Double, make_pair(Shape::VarInt, make_pair(Shape::VarInt, make_switch(2, Shape::Nbt, Shape::Unit)))))))
}

/// The four lists of custom model data.
pub open spec fn spec_custom_model_data() -> Shape {
    pair(array_of(Shape::Float), pair(array_of(Shape::Bool), pair(array_of(Shape::Str), array_of(Shape::I32))))
}

/// Builds `spec_custom_model_data`.
#[verifier::when_used_as_spec(spec_custom_model_data)]
fn custom_model_data() -> (r: Shape)
    ensures
        r == spec_custom_model_data(),
{
    make_pair(make_array(Shape::Float), make_pair(make_array(Shape::Bool), make_pair(make_array(Shape::Str), make_array(Shape::I32))))
}

/// How a shield blocks.
pub open spec fn spec_blocks_attacks() -> Shape {
    pair(Shape::Float, pair(Shape::Float, pair(array_of(pair(Shape::Float, pair(opt_of(Shape::IdSet), pair(Shape::Float, Shape::Float)))), pair(switch_on(1, pair(Shape::Float, Shape::Float), Shape::Unit), pair(opt_of(Shape::IdSet), pair(opt_of(Shape::VarInt), opt_of(Shape::VarInt)))))))
}

/// Builds `spec_blocks_attacks`.
#[verifier::when_used_as_spec(spec_blocks_attacks)]
fn blocks_attacks() -> (r: Shape)
    ensures
        r == spec_blocks_attacks(),
{
    make_pair(Shape::Float, make_pair(Shape::Float, make_pair(make_array(make_pair(Shape::Float, make_pair(make_opt(Shape::IdSet), make_pair(Shape::Float, Shape::Float)))), make_pair(make_switch(1, make_pair(Shape::Float, Shape::Float), Shape::Unit), make_pair(make_opt(Shape::IdSet), make_pair(make_opt(Shape::VarInt), make_opt(Shape::VarInt)))))))
}

/// A weapon that hits by moving.
pub open spec fn spec_kinetic_weapon() -> Shape {
    pair(Shape::VarInt, pair(Shape::VarInt, pair(opt_of(spec_kinetic_condition()), pair(opt_of(spec_kinetic_condition()), pair(opt_of(spec_kinetic_condition()), pair(Shape::Float, pair(Shape::Float, pair(opt_of(Shape::Sound), opt_of(Shape::Sound)))))))))
}

/// Builds `spec_kinetic_weapon`.
#[verifier::when_used_as_spec(spec_kinetic_weapon)]
fn kinetic_weapon() -> (r: Shape)
    ensures
        r == spec_kinetic_weapon(),
{
    make_pair(Shape::VarInt, make_pair(Shape::VarInt, make_pair(make_opt(kinetic_condition()), make_pair(make_opt(kinetic_condition()), make_pair(make_opt(kinetic_condition()), make_pair(Shape::Float, make_pair(Shape::Float, make_pair(make_opt(Shape::Sound), make_opt(Shape::Sound)))))))))
}

/// A weapon that pierces.
pub open spec fn spec_piercing_weapon() -> Shape {
    pair(Shape::Bool, pair(Shape::Bool, pair(opt_of(Shape::Sound), opt_of(Shape::Sound))))
}

/// Builds `spec_piercing_weapon`.
#[verifier::when_used_as_spec(spec_piercing_weapon)]
fn piercing_weapon() -> (r: Shape)
    ensures
        r == spec_piercing_weapon(),
{
    make_pair(Shape::Bool, make_pair(Shape::Bool, make_pair(make_opt(Shape::Sound), make_opt(Shape::Sound))))
}

/// A signed book.
pub open spec fn spec_written_book() -> Shape {
    pair(Shape::Str, pair(opt_of(Shape::Str), pair(Shape::Str, pair(Shape::VarInt, pair(array_of(pair(Shape::Nbt, opt_of(Shape::Nbt))), Shape::Bool)))))
}

/// Builds `spec_written_book`.
#[verifier::when_used_as_spec(spec_written_book)]
fn written_book() -> (r: Shape)
    ensures
        r == spec_written_book(),
{
    make_pair(Shape::Str, make_pair(make_opt(Shape::Str), make_pair(Shape::Str, make_pair(Shape::VarInt, make_pair(make_array(make_pair(Shape::Nbt, make_opt(Shape::Nbt))), Shape::Bool)))))
}

/// The pages of a book and quill.
pub open spec fn spec_writable_book() -> Shape {
    array_of(pair(Shape::Str, opt_of(Shape::Str)))
}

/// Builds `spec_writable_book`.
#[verifier::when_used_as_spec(spec_writable_book)]
fn writable_book() -> (r: Shape)
    ensures
        r == spec_writable_book(),
{
    make_array(make_pair(Shape::Str, make_opt(Shape::Str)))
}

/// A player profile, resolved or partial, with its skin overrides.
pub open spec fn spec_profile() -> Shape {
    pair(switch_on(0, pair(Shape::Uuid, Shape::Str), pair(opt_of(Shape::Str), opt_of(Shape::Uuid))), pair(array_of(pair(Shape::Str, pair(Shape::Str, opt_of(Shape::Str)))), pair(opt_of(Shape::Str), pair(opt_of(Shape::Str), pair(opt_of(Shape::Str), opt_of(Shape::VarInt))))))
}

/// Builds `spec_profile`.
#[verifier::when_used_as_spec(spec_profile)]
fn profile() -> (r: Shape)
    ensures
        r == spec_profile(),
{
    make_pair(make_switch(0, make_pair(Shape::Uuid, Shape::Str), make_pair(make_opt(Shape::Str), make_opt(Shape::Uuid))), make_pair(make_array(make_pair(Shape::Str, make_pair(Shape::Str, make_opt(Shape::Str)))), make_pair(make_opt(Shape::Str), make_pair(make_opt(Shape::Str), make_pair(make_opt(Shape::Str), make_opt(Shape::VarInt))))))
}

/// The lodestone a compass points at.
pub open spec fn spec_lodestone_tracker() -> Shape {
    pair(opt_of(pair(Shape::Str, Shape::BlockPos)), Shape::Bool)
}

/// Builds `spec_lodestone_tracker`.
#[verifier::when_used_as_spec(spec_lodestone_tracker)]
fn lodestone_tracker() -> (r: Shape)
    ensures
        r == spec_lodestone_tracker(),
{
    make_pair(make_opt(make_pair(Shape::Str, Shape::BlockPos)), Shape::Bool)
}

/// The bees inside a hive.
pub open spec fn spec_bees() -> Shape {
    array_of(pair(Shape::VarInt, pair(Shape::Nbt, pair(Shape::VarInt, Shape::VarInt))))
}

/// Builds `spec_bees`.
#[verifier::when_used_as_spec(spec_bees)]
fn bees() -> (r: Shape)
    ensures
        r == spec_bees(),
{
    make_array(make_pair(Shape::VarInt, make_pair(Shape::Nbt, make_pair(Shape::VarInt, Shape::VarInt))))
}

/// Block state properties by name.
pub open spec fn spec_block_state() -> Shape {
    array_of(pair(Shape::Str, Shape::Str))
}

/// Builds `spec_block_state`.
#[verifier::when_used_as_spec(spec_block_state)]
fn block_state() -> (r: Shape)
    ensures
        r == spec_block_state(),
{
    make_array(make_pair(Shape::Str, Shape::Str))
}

/// Which tooltip lines are hidden.
pub open spec fn spec_tooltip_display() -> Shape {
    pair(Shape::Bool, array_of(Shape::VarInt))
}

/// Builds `spec_tooltip_display`.
#[verifier::when_used_as_spec(spec_tooltip_display)]
fn tooltip_display() -> (r: Shape)
    ensures
        r == spec_tooltip_display(),
{
    make_pair(Shape::Bool, make_array(Shape::VarInt))
}

/// What using an item does to its holder.
pub open spec fn spec_use_effects() -> Shape {
    pair(Shape::Bool, pair(Shape::Bool, Shape::Float))
}

/// Builds `spec_use_effects`.
#[verifier::when_used_as_spec(spec_use_effects)]
fn use_effects() -> (r: Shape)
    ensures
        r == spec_use_effects(),
{
    make_pair(Shape::Bool, make_pair(Shape::Bool, Shape::Float))
}

/// The cooldown an item starts and its group.
pub open spec fn spec_use_cooldown() -> Shape {
    pair(Shape::Float, opt_of(Shape::Str))
}

/// Builds `spec_use_cooldown`.
#[verifier::when_used_as_spec(spec_use_cooldown)]
fn use_cooldown() -> (r: Shape)
    ensures
        r == spec_use_cooldown(),
{
    make_pair(Shape::Float, make_opt(Shape::Str))
}

/// The reach of a weapon.
pub open spec fn spec_attack_range() -> Shape {
    pair(Shape::Float, pair(Shape::Float, pair(Shape::Float, pair(Shape::Float, pair(Shape::Float, Shape::Float)))))
}

/// Builds `spec_attack_range`.
#[verifier::when_used_as_spec(spec_attack_range)]
fn attack_range() -> (r: Shape)
    ensures
        r == spec_attack_range(),
{
    make_pair(Shape::Float, make_pair(Shape::Float, make_pair(Shape::Float, make_pair(Shape::Float, make_pair(Shape::Float, Shape::Float)))))
}

/// Nutrition, saturation and whether it can always be eaten.
pub open spec fn spec_food() -> Shape {
    pair(Shape::VarInt, pair(Shape::Float, Shape::Bool))
}

/// Builds `spec_food`.
#[verifier::when_used_as_spec(spec_food)]
fn food() -> (r: Shape)
    ensures
        r == spec_food(),
{
    make_pair(Shape::VarInt, make_pair(Shape::Float, Shape::Bool))
}

/// Durability spent per hit and the disable time for shields.
pub open spec fn spec_weapon() -> Shape {
    pair(Shape::VarInt, Shape::Float)
}

/// Builds `spec_weapon`.
#[verifier::when_used_as_spec(spec_weapon)]
fn weapon() -> (r: Shape)
    ensures
        r == spec_weapon(),
{
    make_pair(Shape::VarInt, Shape::Float)
}

/// A type and its stored data.
pub open spec fn spec_entity_data() -> Shape {
    pair(Shape::VarInt, Shape::Nbt)
}

/// Builds `spec_entity_data`.
#[verifier::when_used_as_spec(spec_entity_data)]
fn entity_data() -> (r: Shape)
    ensures
        r == spec_entity_data(),
{
    make_pair(Shape::VarInt, Shape::Nbt)
}

/// Two registry ids.
pub open spec fn spec_var_int_pair() -> Shape {
    pair(Shape::VarInt, Shape::VarInt)
}

/// Builds `spec_var_int_pair`.
#[verifier::when_used_as_spec(spec_var_int_pair)]
fn var_int_pair() -> (r: Shape)
    ensures
        r == spec_var_int_pair(),
{
    make_pair(Shape::VarInt, Shape::VarInt)
}

/// The largest count a list inside a component may have.
pub const MAX_ENTRIES: i32 = 4096;

/// How many status effects one may hide behind it, itself included.
pub const MAX_EFFECT_DEPTH: usize = 32;

/// The position `w` bytes on from `pos`, where they are there.
pub open spec fn fixed_end(b: Seq<u8>, pos: int, w: int) -> Option<int> {
    if 0 <= pos && pos + w <= b.len() { Some(pos + w) } else { None }
}

/// The `VarInt` at `pos` and the position after it.
pub open spec fn var_int_field(b: Seq<u8>, pos: int) -> Option<(i32, int)> {
    if 0 <= pos <= b.len() {
        match var_int_at(rest_of(b, pos)) {
            Some((v, n)) => Some((v, pos + n)),
            None => None,
        }
    } else {
        None
    }
}

/// The bool at `pos`, any byte but zero being true, and the position after it.
pub open spec fn bool_field(b: Seq<u8>, pos: int) -> Option<(bool, int)> {
    if 0 <= pos < b.len() { Some((b[pos] != 0, pos + 1)) } else { None }
}

/// The end of the string field at `pos`.
pub open spec fn str_end(b: Seq<u8>, pos: int) -> Option<int> {
    if 0 <= pos <= b.len() {
        match string_at(rest_of(b, pos)) {
            Some((_, n)) => Some(pos + n),
            None => None,
        }
    } else {
        None
    }
}

/// A list count at `pos`, refused outside `0..=MAX_ENTRIES`.
pub open spec fn count_field(b: Seq<u8>, pos: int) -> Option<(int, int)> {
    match var_int_field(b, pos) {
        Some((v, p)) => if 0 <= v <= MAX_ENTRIES { Some((v as int, p)) } else { None },
        None => None,
    }
}

/// The end of `n` `VarInt`s from `pos`.
pub open spec fn var_ints_end(b: Seq<u8>, pos: int, n: nat) -> Option<int>
    decreases n,
{
    if n == 0 {
        if 0 <= pos <= b.len() { Some(pos) } else { None }
    } else {
        match var_int_field(b, pos) {
            Some((_, p)) => var_ints_end(b, p, (n - 1) as nat),
            None => None,
        }
    }
}

/// The end of an id set: a tag name after a zero, else ids after their count
/// plus one; a negative count is refused.
pub open spec fn id_set_end(b: Seq<u8>, pos: int) -> Option<int> {
    match var_int_field(b, pos) {
        Some((tag, p)) => if tag == 0 {
            str_end(b, p)
        } else if tag > 0 {
            var_ints_end(b, p, (tag - 1) as nat)
        } else {
            None
        },
        None => None,
    }
}

/// The end of a sound holder: a registry id, or after a zero an inline sound,
/// its name and an optional fixed range.
pub open spec fn sound_end(b: Seq<u8>, pos: int) -> Option<int> {
    match var_int_field(b, pos) {
        Some((holder, p)) => if holder != 0 {
            Some(p)
        } else {
            match str_end(b, p) {
                Some(q) => match bool_field(b, q) {
                    Some((ranged, r)) => if ranged { fixed_end(b, r, 4) } else { Some(r) },
                    None => None,
                },
                None => None,
            }
        },
        None => None,
    }
}

/// The end of the parameters of one status effect and of those it hides,
/// with `left` more allowed: amplifier, duration, three flags and whether a
/// hidden effect follows.
pub open spec fn effect_parameters_end(b: Seq<u8>, pos: int, left: nat) -> Option<int>
    decreases left,
{
    if left == 0 {
        None
    } else {
        match var_int_field(b, pos) {
            Some((_, p1)) => match var_int_field(b, p1) {
                Some((_, p2)) => match fixed_end(b, p2, 3) {
                    Some(p3) => match bool_field(b, p3) {
                        Some((hidden, p4)) => if hidden {
                            effect_parameters_end(b, p4, (left - 1) as nat)
                        } else {
                            Some(p4)
                        },
                        None => None,
                    },
                    None => None,
                },
                None => None,
            },
            None => None,
        }
    }
}

/// The end of `n` status effects from `pos`, each an id and its parameters.
pub open spec fn effects_end(b: Seq<u8>, pos: int, n: nat) -> Option<int>
    decreases n,
{
    if n == 0 {
        if 0 <= pos <= b.len() { Some(pos) } else { None }
    } else {
        match var_int_field(b, pos) {
            Some((_, p)) => match effect_parameters_end(b, p, MAX_EFFECT_DEPTH as nat) {
                Some(q) => effects_end(b, q, (n - 1) as nat),
                None => None,
            },
            None => None,
        }
    }
}

/// The end of a counted list of status effects.
pub open spec fn status_effects_end(b: Seq<u8>, pos: int) -> Option<int> {
    match count_field(b, pos) {
        Some((n, p)) => effects_end(b, p, n as nat),
        None => None,
    }
}

/// The end of a consume effect: its kind, then effects and a probability, an
/// id set, nothing, a distance or a sound; an unknown kind is refused.
pub open spec fn consume_effect_end(b: Seq<u8>, pos: int) -> Option<int> {
    match var_int_field(b, pos) {
        Some((kind, p)) => if kind == 0 {
            match status_effects_end(b, p) {
                Some(q) => fixed_end(b, q, 4),
                None => None,
            }
        } else if kind == 1 {
            id_set_end(b, p)
        } else if kind == 2 {
            Some(p)
        } else if kind == 3 {
            fixed_end(b, p, 4)
        } else if kind == 4 {
            sound_end(b, p)
        } else {
            None
        },
        None => None,
    }
}

/// The end of one value of shape `s` at `pos`. `reg` lists the components by
/// id; `fuel` bounds how deep components may nest inside each other.
pub open spec fn shape_end(reg: Seq<DataComponent>, s: Shape, b: Seq<u8>, pos: int, fuel: nat) -> Option<int>
    decreases fuel, size(s), 0nat,
{
    match s {
        Shape::Unit => if 0 <= pos <= b.len() { Some(pos) } else { None },
        Shape::Bool => fixed_end(b, pos, 1),
        Shape::I32 => fixed_end(b, pos, 4),
        Shape::Float => fixed_end(b, pos, 4),
        Shape::Double => fixed_end(b, pos, 8),
        Shape::BlockPos => fixed_end(b, pos, 8),
        Shape::Uuid => fixed_end(b, pos, 16),
        Shape::VarInt => match var_int_field(b, pos) {
            Some((_, p)) => Some(p),
            None => None,
        },
        Shape::Str => str_end(b, pos),
        Shape::Nbt => document_end(b, pos),
        Shape::Pair(x, y) => match shape_end(reg, *x, b, pos, fuel) {
            Some(p) => shape_end(reg, *y, b, p, fuel),
            None => None,
        },
        Shape::Array(x) => match count_field(b, pos) {
            Some((n, p)) => repeat_end(reg, *x, n as nat, b, p, fuel),
            None => None,
        },
        Shape::Opt(x) => match bool_field(b, pos) {
            Some((set, p)) => if set { shape_end(reg, *x, b, p, fuel) } else { Some(p) },
            None => None,
        },
        Shape::IdSet => id_set_end(b, pos),
        Shape::Sound => sound_end(b, pos),
        Shape::Template => match var_int_field(b, pos) {
            Some((_, p1)) => match var_int_field(b, p1) {
                Some((_, p2)) => match count_field(b, p2) {
                    Some((added, p3)) => match count_field(b, p3) {
                        Some((removed, p4)) => match components_end(reg, added as nat, b, p4, fuel) {
                            Some(p5) => var_ints_end(b, p5, removed as nat),
                            None => None,
                        },
                        None => None,
                    },
                    None => None,
                },
                None => None,
            },
            None => None,
        },
        Shape::Component => component_end(reg, b, pos, fuel),
        Shape::StatusEffects => status_effects_end(b, pos),
        Shape::ConsumeEffect => consume_effect_end(b, pos),
        Shape::BoolSwitch(yes, no) => match bool_field(b, pos) {
            Some((set, p)) => if set { shape_end(reg, *yes, b, p, fuel) } else { shape_end(reg, *no, b, p, fuel) },
            None => None,
        },
        Shape::Switch(value, arm, fallback) => match var_int_field(b, pos) {
            Some((tag, p)) => if tag == value {
                shape_end(reg, *arm, b, p, fuel)
            } else {
                shape_end(reg, *fallback, b, p, fuel)
            },
            None => None,
        },
        Shape::Absent => None,
    }
}

/// The end of `n` values of shape `s` from `pos`.
pub open spec fn repeat_end(reg: Seq<DataComponent>, s: Shape, n: nat, b: Seq<u8>, pos: int, fuel: nat) -> Option<int>
    decreases fuel, size(s), n,
{
    if n == 0 {
        if 0 <= pos <= b.len() { Some(pos) } else { None }
    } else {
        match shape_end(reg, s, b, pos, fuel) {
            Some(p) => repeat_end(reg, s, (n - 1) as nat, b, p, fuel),
            None => None,
        }
    }
}

/// The end of `n` components from `pos`.
pub open spec fn components_end(reg: Seq<DataComponent>, n: nat, b: Seq<u8>, pos: int, fuel: nat) -> Option<int>
    decreases fuel, 0nat, n,
{
    if n == 0 {
        if 0 <= pos <= b.len() { Some(pos) } else { None }
    } else {
        match component_end(reg, b, pos, fuel) {
            Some(p) => components_end(reg, (n - 1) as nat, b, p, fuel),
            None => None,
        }
    }
}

/// Whether `id` names a component of `reg`.
pub open spec fn known_component(reg: Seq<DataComponent>, id: int) -> bool {
    0 <= id < 256 && id < reg.len()
}

/// The end of a component at `pos`: its id, then its payload one level of
/// nesting further in; an id `reg` does not list is refused.
pub open spec fn component_end(reg: Seq<DataComponent>, b: Seq<u8>, pos: int, fuel: nat) -> Option<int>
    decreases fuel, 0nat, 0nat,
{
    match var_int_field(b, pos) {
        Some((id, p)) => if known_component(reg, id as int) && fuel > 0 {
            shape_end(reg, component_shape(reg[id as int]), b, p, (fuel - 1) as nat)
        } else {
            None
        },
        None => None,
    }
}

pub(crate) fn var_int_end(b: &[u8], pos: usize) -> (r: Option<(i32, usize)>)
    requires
        pos <= b@.len(),
    ensures
        match var_int_field(b@, pos as int) {
            Some((v, p)) => r matches Some((x, q)) && x == v && q == p && pos < q <= b@.len(),
            None => r is None,
        },
{
    proof { crate::codec::lemma_var_int_len(rest_of(b@, pos as int)); }
    read_var_int(b, pos)
}

pub(crate) fn skip_fixed(b: &[u8], pos: usize, w: usize) -> (r: Option<usize>)
    requires
        pos <= b@.len(),
    ensures
        as_int(r) == fixed_end(b@, pos as int, w as int),
        r matches Some(p) ==> pos <= p <= b@.len(),
{
    if w <= b.len() - pos { Some(pos + w) } else { None }
}

pub(crate) fn skip_str(b: &[u8], pos: usize) -> (r: Option<usize>)
    requires
        pos <= b@.len(),
    ensures
        as_int(r) == str_end(b@, pos as int),
        r matches Some(p) ==> pos <= p <= b@.len(),
{
    proof { crate::codec::lemma_prefixed_len(rest_of(b@, pos as int), crate::codec::MAX_STRING_BYTES as nat); }
    match read_string(b, pos) {
        Some((_, next)) => Some(next),
        None => None,
    }
}

/// Reads a list count, refusing one outside `0..=MAX_ENTRIES`.
fn count(b: &[u8], pos: usize) -> (r: Option<(i32, usize)>)
    requires
        pos <= b@.len(),
    ensures
        match count_field(b@, pos as int) {
            Some((n, p)) => r matches Some((x, q)) && x == n && q == p && pos < q <= b@.len(),
            None => r is None,
        },
{
    match var_int_end(b, pos) {
        Some((n, next)) => if 0 <= n && n <= MAX_ENTRIES { Some((n, next)) } else { None },
        None => None,
    }
}

pub(crate) fn skip_var_ints(b: &[u8], pos: usize, n: u32) -> (r: Option<usize>)
    requires
        pos <= b@.len(),
    ensures
        as_int(r) == var_ints_end(b@, pos as int, n as nat),
        r matches Some(p) ==> pos <= p <= b@.len(),
{
    let mut p = pos;
    let mut left = n;
    while left > 0
        invariant
            pos <= p <= b@.len(),
            var_ints_end(b@, pos as int, n as nat) == var_ints_end(b@, p as int, left as nat),
        decreases left,
    {
        match var_int_end(b, p) {
            Some((_, q)) => {
                p = q;
                left = left - 1;
            },
            None => return None,
        }
    }
    Some(p)
}

fn skip_id_set(b: &[u8], pos: usize) -> (r: Option<usize>)
    requires
        pos <= b@.len(),
    ensures
        as_int(r) == id_set_end(b@, pos as int),
        r matches Some(p) ==> pos <= p <= b@.len(),
{
    match var_int_end(b, pos) {
        Some((tag, p)) => if tag == 0 {
            skip_str(b, p)
        } else if tag > 0 {
            skip_var_ints(b, p, (tag - 1) as u32)
        } else {
            None
        },
        None => None,
    }
}

pub(crate) fn skip_sound(b: &[u8], pos: usize) -> (r: Option<usize>)
    requires
        pos <= b@.len(),
    ensures
        as_int(r) == sound_end(b@, pos as int),
        r matches Some(p) ==> pos <= p <= b@.len(),
{
    match var_int_end(b, pos) {
        Some((holder, p)) => if holder != 0 {
            Some(p)
        } else {
            match skip_str(b, p) {
                Some(q) => match read_bool(b, q) {
                    Some((ranged, r)) => if ranged { skip_fixed(b, r, 4) } else { Some(r) },
                    None => None,
                },
                None => None,
            }
        },
        None => None,
    }
}

fn skip_effect_parameters(b: &[u8], pos: usize) -> (r: Option<usize>)
    requires
        pos <= b@.len(),
    ensures
        as_int(r) == effect_parameters_end(b@, pos as int, MAX_EFFECT_DEPTH as nat),
        r matches Some(p) ==> pos <= p <= b@.len(),
{
    let mut p = pos;
    let mut left: usize = MAX_EFFECT_DEPTH;
    while left > 0
        invariant
            pos <= p <= b@.len(),
            effect_parameters_end(b@, pos as int, MAX_EFFECT_DEPTH as nat)
                == effect_parameters_end(b@, p as int, left as nat),
        decreases left,
    {
        let p1 = match var_int_end(b, p) {
            Some((_, q)) => q,
            None => return None,
        };
        let p2 = match var_int_end(b, p1) {
            Some((_, q)) => q,
            None => return None,
        };
        let p3 = match skip_fixed(b, p2, 3) {
            Some(q) => q,
            None => return None,
        };
        match read_bool(b, p3) {
            Some((hidden, p4)) => {
                if !hidden {
                    return Some(p4);
                }
                p = p4;
                left = left - 1;
            },
            None => return None,
        }
    }
    None
}

fn skip_status_effects(b: &[u8], pos: usize) -> (r: Option<usize>)
    requires
        pos <= b@.len(),
    ensures
        as_int(r) == status_effects_end(b@, pos as int),
        r matches Some(p) ==> pos <= p <= b@.len(),
{
    let (n, start) = match count(b, pos) {
        Some(c) => c,
        None => return None,
    };
    let mut p = start;
    let mut left = n as u32;
    assert(status_effects_end(b@, pos as int) == effects_end(b@, start as int, left as nat));
    while left > 0
        invariant
            pos <= start <= p <= b@.len(),
            status_effects_end(b@, pos as int) == effects_end(b@, p as int, left as nat),
        decreases left,
    {
        let q = match var_int_end(b, p) {
            Some((_, q)) => q,
            None => return None,
        };
        match skip_effect_parameters(b, q) {
            Some(next) => {
                p = next;
                left = left - 1;
            },
            None => return None,
        }
    }
    Some(p)
}

fn skip_consume_effect(b: &[u8], pos: usize) -> (r: Option<usize>)
    requires
        pos <= b@.len(),
    ensures
        as_int(r) == consume_effect_end(b@, pos as int),
        r matches Some(p) ==> pos <= p <= b@.len(),
{
    match var_int_end(b, pos) {
        Some((kind, p)) => if kind == 0 {
            match skip_status_effects(b, p) {
                Some(q) => skip_fixed(b, q, 4),
                None => None,
            }
        } else if kind == 1 {
            skip_id_set(b, p)
        } else if kind == 2 {
            Some(p)
        } else if kind == 3 {
            skip_fixed(b, p, 4)
        } else if kind == 4 {
            skip_sound(b, p)
        } else {
            None
        },
        None => None,
    }
}

/// Measures one value of `shape` at `pos` and gives the position after it,
/// or `None` where the bytes there are not such a value. `reg` lists the
/// components by id; `fuel` bounds how deep components may nest.
pub fn skip(reg: &[DataComponent], shape: &Shape, b: &[u8], pos: usize, fuel: usize) -> (r: Option<usize>)
    requires
        pos <= b@.len(),
    ensures
        as_int(r) == shape_end(reg@, *shape, b@, pos as int, fuel as nat),
        r matches Some(p) ==> pos <= p <= b@.len(),
    decreases fuel, size(*shape), 0nat,
{
    match shape {
        Shape::Unit => Some(pos),
        Shape::Bool => skip_fixed(b, pos, 1),
        Shape::I32 => skip_fixed(b, pos, 4),
        Shape::Float => skip_fixed(b, pos, 4),
        Shape::Double => skip_fixed(b, pos, 8),
        Shape::BlockPos => skip_fixed(b, pos, 8),
        Shape::Uuid => skip_fixed(b, pos, 16),
        Shape::VarInt => match var_int_end(b, pos) {
            Some((_, p)) => Some(p),
            None => None,
        },
        Shape::Str => skip_str(b, pos),
        Shape::Nbt => skip_document(b, pos),
        Shape::Pair(x, y) => match skip(reg, &**x, b, pos, fuel) {
            Some(p) => skip(reg, &**y, b, p, fuel),
            None => None,
        },
        Shape::Array(x) => match count(b, pos) {
            Some((n, p)) => skip_repeat(reg, &**x, n as u32, b, p, fuel),
            None => None,
        },
        Shape::Opt(x) => match read_bool(b, pos) {
            Some((set, p)) => if set { skip(reg, &**x, b, p, fuel) } else { Some(p) },
            None => None,
        },
        Shape::IdSet => skip_id_set(b, pos),
        Shape::Sound => skip_sound(b, pos),
        Shape::Template => {
            let p1 = match var_int_end(b, pos) {
                Some((_, q)) => q,
                None => return None,
            };
            let p2 = match var_int_end(b, p1) {
                Some((_, q)) => q,
                None => return None,
            };
            let (added, p3) = match count(b, p2) {
                Some(c) => c,
                None => return None,
            };
            let (removed, p4) = match count(b, p3) {
                Some(c) => c,
                None => return None,
            };
            match skip_components(reg, added as u32, b, p4, fuel) {
                Some(p5) => skip_var_ints(b, p5, removed as u32),
                None => None,
            }
        },
        Shape::Component => skip_component(reg, b, pos, fuel),
        Shape::StatusEffects => skip_status_effects(b, pos),
        Shape::ConsumeEffect => skip_consume_effect(b, pos),
        Shape::BoolSwitch(yes, no) => match read_bool(b, pos) {
            Some((set, p)) => if set { skip(reg, &**yes, b, p, fuel) } else { skip(reg, &**no, b, p, fuel) },
            None => None,
        },
        Shape::Switch(value, arm, fallback) => match var_int_end(b, pos) {
            Some((tag, p)) => if tag == *value {
                skip(reg, &**arm, b, p, fuel)
            } else {
                skip(reg, &**fallback, b, p, fuel)
            },
            None => None,
        },
        Shape::Absent => None,
    }
}

fn skip_repeat(reg: &[DataComponent], shape: &Shape, n: u32, b: &[u8], pos: usize, fuel: usize) -> (r: Option<usize>)
    requires
        pos <= b@.len(),
    ensures
        as_int(r) == repeat_end(reg@, *shape, n as nat, b@, pos as int, fuel as nat),
        r matches Some(p) ==> pos <= p <= b@.len(),
    decreases fuel, size(*shape), n,
{
    let mut p = pos;
    let mut left = n;
    while left > 0
        invariant
            pos <= p <= b@.len(),
            left <= n,
            repeat_end(reg@, *shape, n as nat, b@, pos as int, fuel as nat)
                == repeat_end(reg@, *shape, left as nat, b@, p as int, fuel as nat),
        decreases left,
    {
        match skip(reg, shape, b, p, fuel) {
            Some(q) => {
                p = q;
                left = left - 1;
            },
            None => return None,
        }
    }
    Some(p)
}

fn skip_components(reg: &[DataComponent], n: u32, b: &[u8], pos: usize, fuel: usize) -> (r: Option<usize>)
    requires
        pos <= b@.len(),
    ensures
        as_int(r) == components_end(reg@, n as nat, b@, pos as int, fuel as nat),
        r matches Some(p) ==> pos <= p <= b@.len(),
    decreases fuel, 0nat, n,
{
    let mut p = pos;
    let mut left = n;
    while left > 0
        invariant
            pos <= p <= b@.len(),
            left <= n,
            components_end(reg@, n as nat, b@, pos as int, fuel as nat)
                == components_end(reg@, left as nat, b@, p as int, fuel as nat),
        decreases left,
    {
        match skip_component(reg, b, p, fuel) {
            Some(q) => {
                p = q;
                left = left - 1;
            },
            None => return None,
        }
    }
    Some(p)
}

fn skip_component(reg: &[DataComponent], b: &[u8], pos: usize, fuel: usize) -> (r: Option<usize>)
    requires
        pos <= b@.len(),
    ensures
        as_int(r) == component_end(reg@, b@, pos as int, fuel as nat),
        r matches Some(p) ==> pos <= p <= b@.len(),
    decreases fuel, 0nat, 0nat,
{
    match var_int_end(b, pos) {
        Some((id, p)) => if 0 <= id && id < 256 && (id as usize) < reg.len() && fuel > 0 {
            let payload = shape(reg[id as usize]);
            skip(reg, &payload, b, p, fuel - 1)
        } else {
            None
        },
        None => None,
    }
}

/// How many bytes the payload of component `id` takes at the front of
/// `bytes`; `None` where `reg` lists no such component or the bytes are not
/// its payload. Components may nest as deep as there are bytes.
pub fn payload_len(reg: &[DataComponent], id: i32, bytes: &[u8]) -> (r: Option<usize>)
    ensures
        match r {
            Some(n) => known_component(reg@, id as int)
                && shape_end(reg@, component_shape(reg@[id as int]), bytes@, 0, bytes@.len()) == Some(n as int),
            None => !known_component(reg@, id as int)
                || shape_end(reg@, component_shape(reg@[id as int]), bytes@, 0, bytes@.len()) is None,
        },
{
    if 0 <= id && id < 256 && (id as usize) < reg.len() {
        let payload = shape(reg[id as usize]);
        skip(reg, &payload, bytes, 0, bytes.len())
    } else {
        None
    }
}

} // verus!
