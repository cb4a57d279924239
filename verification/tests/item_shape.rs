use pumpkin_java_multiversion::api::rewriter::item_shape::{payload_len, shape, skip, DataComponent, Shape};
use pumpkin_java_multiversion::codec::{write_prefixed, write_var_int};
use pumpkin_java_multiversion::nbt::skip_document;

fn all() -> Vec<DataComponent> {
    vec![
        DataComponent::MaxStackSize,
        DataComponent::MaxDamage,
        DataComponent::Damage,
        DataComponent::RepairCost,
        DataComponent::Rarity,
        DataComponent::DamageType,
        DataComponent::Enchantable,
        DataComponent::OminousBottleAmplifier,
        DataComponent::Instrument,
        DataComponent::ProvidesTrimMaterial,
        DataComponent::JukeboxPlayable,
        DataComponent::AdditionalTradeCost,
        DataComponent::Dye,
        DataComponent::MapPostProcessing,
        DataComponent::MapId,
        DataComponent::BaseColor,
        DataComponent::BreakSound,
        DataComponent::MinimumAttackCharge,
        DataComponent::PotionDurationScale,
        DataComponent::EnchantmentGlintOverride,
        DataComponent::DyedColor,
        DataComponent::ItemModel,
        DataComponent::ItemName,
        DataComponent::DamageResistant,
        DataComponent::TooltipStyle,
        DataComponent::NoteBlockSound,
        DataComponent::VillagerVariant,
        DataComponent::WolfVariant,
        DataComponent::WolfSoundVariant,
        DataComponent::WolfCollar,
        DataComponent::FoxVariant,
        DataComponent::SalmonSize,
        DataComponent::ParrotVariant,
        DataComponent::TropicalFishPattern,
        DataComponent::TropicalFishBaseColor,
        DataComponent::TropicalFishPatternColor,
        DataComponent::MooshroomVariant,
        DataComponent::RabbitVariant,
        DataComponent::PigVariant,
        DataComponent::PigSoundVariant,
        DataComponent::CowVariant,
        DataComponent::CowSoundVariant,
        DataComponent::ChickenVariant,
        DataComponent::ChickenSoundVariant,
        DataComponent::ZombieNautilusVariant,
        DataComponent::FrogVariant,
        DataComponent::HorseVariant,
        DataComponent::PaintingVariant,
        DataComponent::LlamaVariant,
        DataComponent::AxolotlVariant,
        DataComponent::CatVariant,
        DataComponent::CatSoundVariant,
        DataComponent::CatCollar,
        DataComponent::SheepColor,
        DataComponent::ShulkerColor,
        DataComponent::CustomName,
        DataComponent::CustomData,
        DataComponent::BucketEntityData,
        DataComponent::Unbreakable,
        DataComponent::CreativeSlotLock,
        DataComponent::IntangibleProjectile,
        DataComponent::Glider,
        DataComponent::DebugStickState,
        DataComponent::MapDecorations,
        DataComponent::Recipes,
        DataComponent::Lock,
        DataComponent::ContainerLoot,
        DataComponent::Lore,
        DataComponent::Enchantments,
        DataComponent::StoredEnchantments,
        DataComponent::SuspiciousStewEffects,
        DataComponent::BannerPatterns,
        DataComponent::PotDecorations,
        DataComponent::CanPlaceOn,
        DataComponent::CanBreak,
        DataComponent::AttributeModifiers,
        DataComponent::CustomModelData,
        DataComponent::TooltipDisplay,
        DataComponent::UseEffects,
        DataComponent::UseCooldown,
        DataComponent::Food,
        DataComponent::Consumable,
        DataComponent::UseRemainder,
        DataComponent::SulfurCubeContent,
        DataComponent::Tool,
        DataComponent::Weapon,
        DataComponent::AttackRange,
        DataComponent::Equippable,
        DataComponent::Repairable,
        DataComponent::ProvidesBannerPatterns,
        DataComponent::DeathProtection,
        DataComponent::BlocksAttacks,
        DataComponent::PiercingWeapon,
        DataComponent::KineticWeapon,
        DataComponent::AttackAnimation,
        DataComponent::ChargedProjectiles,
        DataComponent::BundleContents,
        DataComponent::PotionContents,
        DataComponent::WritableBookContent,
        DataComponent::WrittenBookContent,
        DataComponent::Trim,
        DataComponent::EntityData,
        DataComponent::BlockEntityData,
        DataComponent::LodestoneTracker,
        DataComponent::FireworkExplosion,
        DataComponent::Fireworks,
        DataComponent::Profile,
        DataComponent::Container,
        DataComponent::BlockState,
        DataComponent::Bees,
        DataComponent::BlockTransformer,
        DataComponent::VillagerFood,
        DataComponent::MobVisibility,
        DataComponent::Compostable,
        DataComponent::CookingFuel,
        DataComponent::BrewingFuel,
        DataComponent::ProvidesPotteryPattern,
        DataComponent::SignTextFront,
        DataComponent::SignTextBack,
        DataComponent::Waxed,
        DataComponent::CushionColor,
        DataComponent::InteractAnimation,
    ]
}

fn id_of(component: DataComponent) -> i32 {
    all().iter().position(|c| *c == component).unwrap() as i32
}

/// The smallest payload `shape` accepts: every count zero, every option
/// absent, every switch on its fallback.
fn sample(shape: &Shape, out: &mut Vec<u8>) {
    match shape {
        Shape::Unit | Shape::Absent => {}
        Shape::Bool => out.push(0),
        Shape::I32 | Shape::Float => out.extend([0, 0, 0, 0]),
        Shape::Double => out.extend([0; 8]),
        Shape::VarInt => out.push(0),
        Shape::Str => out.push(0),
        Shape::Uuid => out.extend([0; 16]),
        Shape::BlockPos => out.extend([0; 8]),
        Shape::Nbt => out.push(0),
        Shape::Pair(first, second) => {
            sample(first, out);
            sample(second, out);
        }
        Shape::Array(_) | Shape::StatusEffects => out.push(0),
        Shape::Opt(_) => out.push(0),
        Shape::IdSet => out.extend([0, 0]),
        Shape::Sound => out.push(1),
        Shape::Template => out.extend([0, 0, 0, 0]),
        Shape::Component => {
            out.push(id_of(DataComponent::Damage) as u8);
            out.push(0);
        }
        Shape::ConsumeEffect => out.push(2),
        Shape::BoolSwitch(_, no) => {
            out.push(0);
            sample(no, out);
        }
        Shape::Switch(_, _, fallback) => {
            out.push(9);
            sample(fallback, out);
        }
    }
}

#[test]
fn every_component_id_has_a_shape() {
    let registry = all();
    for (id, component) in registry.iter().enumerate() {
        let payload = shape(*component);
        let mut bytes = Vec::new();
        sample(&payload, &mut bytes);
        if matches!(payload, Shape::Absent) {
            assert!(payload_len(&registry, id as i32, &bytes).is_none(), "{component:?}");
            continue;
        }
        assert_eq!(payload_len(&registry, id as i32, &bytes), Some(bytes.len()), "{component:?}");
    }
    assert!(payload_len(&registry, registry.len() as i32, &[0]).is_none());
    assert!(payload_len(&registry, -1, &[0]).is_none());
}

#[test]
fn a_real_enchantment_list_is_measured() {
    let registry = all();
    let mut bytes = Vec::new();
    write_var_int(&mut bytes, 2);
    for (id, level) in [(12, 5), (33, 1)] {
        write_var_int(&mut bytes, id);
        write_var_int(&mut bytes, level);
    }
    bytes.extend([0xaa, 0xbb]);
    assert_eq!(payload_len(&registry, id_of(DataComponent::Enchantments), &bytes), Some(5));
}

#[test]
fn a_string_payload_stops_at_its_own_end() {
    let registry = all();
    let mut bytes = Vec::new();
    write_prefixed(&mut bytes, b"minecraft:stone");
    let len = bytes.len();
    bytes.push(0x7f);
    assert_eq!(payload_len(&registry, id_of(DataComponent::ItemModel), &bytes), Some(len));
}

#[test]
fn a_nested_stack_is_measured_through_its_components() {
    let registry = all();
    // A bundle holding one stack that carries a damage component.
    let mut bytes = Vec::new();
    write_var_int(&mut bytes, 1);
    write_var_int(&mut bytes, 7);
    write_var_int(&mut bytes, 1);
    write_var_int(&mut bytes, 1);
    write_var_int(&mut bytes, 0);
    write_var_int(&mut bytes, id_of(DataComponent::Damage));
    write_var_int(&mut bytes, 3);
    assert_eq!(payload_len(&registry, id_of(DataComponent::BundleContents), &bytes), Some(bytes.len()));
    assert_eq!(payload_len(&registry, id_of(DataComponent::BundleContents), &bytes[..bytes.len() - 1]), None);
}

#[test]
fn a_list_count_past_4096_is_refused() {
    let registry = all();
    let mut bytes = Vec::new();
    write_var_int(&mut bytes, 4097);
    assert_eq!(payload_len(&registry, id_of(DataComponent::PotDecorations), &bytes), None);
}

#[test]
fn an_unknown_consume_effect_is_refused() {
    let registry = all();
    assert_eq!(payload_len(&registry, id_of(DataComponent::DeathProtection), &[1, 2]), Some(2));
    assert_eq!(payload_len(&registry, id_of(DataComponent::DeathProtection), &[1, 9]), None);
}

#[test]
fn components_nest_only_as_deep_as_the_fuel_allows() {
    let registry = all();
    let mut bytes = Vec::new();
    write_var_int(&mut bytes, id_of(DataComponent::Damage));
    write_var_int(&mut bytes, 3);
    assert_eq!(skip(&registry, &Shape::Component, &bytes, 0, 1), Some(bytes.len()));
    assert_eq!(skip(&registry, &Shape::Component, &bytes, 0, 0), None);
}

#[test]
fn an_nbt_document_is_measured_to_its_end_tag() {
    // A compound with one int entry named "a", then a trailing byte.
    let doc = [10u8, 3, 0, 1, b'a', 0, 0, 0, 5, 0, 0xee];
    assert_eq!(skip_document(&doc, 0), Some(10));
    assert_eq!(skip_document(&doc[..9], 0), None);
    assert_eq!(skip_document(&[0], 0), Some(1));
    // A list of two shorts, and a list with a negative length.
    assert_eq!(skip_document(&[9, 2, 0, 0, 0, 2, 0, 1, 0, 2], 0), Some(10));
    assert_eq!(skip_document(&[9, 2, 0xff, 0xff, 0xff, 0xff], 0), None);
    // An unknown tag type.
    assert_eq!(skip_document(&[13, 0], 0), None);
}
