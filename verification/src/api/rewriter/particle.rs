//! Particles inside packets: renumbering them for a client and rewriting
//! their option data into the shape the client's version reads.
//!
//! Floats are carried as their IEEE bit patterns and copied as they stand;
//! the few a client reads differently are computed from integers here.

use vstd::prelude::*;
use vstd::string::StringSliceAdditionalSpecFns;
use vstd::arithmetic::power2::{pow2, lemma_pow2_unfold, lemma_pow2_adds, lemma_pow2_strictly_increases};
use crate::api::TranslateError;
use crate::api::rewriter::chat::{take, take_view};
use crate::api::rewriter::block::cancelled;
use crate::api::item::lemma_field_step;
use crate::api::rewriter::item::{map_id, mapped_id};
use crate::api::types::{WireType, FixedBytesT, BOOL, I32, I64, I8, STRING, VAR_INT};
use crate::api::wrapper::{PacketWrapper, WrapperView};
use crate::codec::{append_bytes, copy_range, rest_of, write_prefixed};
use crate::data::mappings::{ComposedMappings, IdMapping, Repr};
use crate::packet::chunk_legacy::{field, read_field, run_count};
use crate::version::JavaMinecraftVersion as V;

verus! {

/// The particles of the newest registry that carry option data in some
/// version, by name; every other particle is `Plain`.
#[derive(Clone, Copy, Debug, PartialEq, Eq, Structural)]
pub enum ParticleName {
    Item,
    Block,
    BlockMarker,
    DustPillar,
    FallingDust,
    BlockCrumble,
    Dust,
    DustColorTransition,
    Vibration,
    SculkCharge,
    Shriek,
    EntityEffect,
    Trail,
    TintedLeaves,
    DragonBreath,
    Effect,
    InstantEffect,
    Flash,
    Geyser,
    GeyserBase,
    GeyserPoof,
    GeyserPlume,
    Plain,
}

/// The option data a version reads for one particle.
#[derive(Clone, Copy, Debug, PartialEq, Eq, Structural)]
pub enum Shape {
    /// No option data.
    Empty,
    Block,
    Item,
    /// Packed rgb and a scale, from 1.21.2.
    DustRgb,
    /// Three colour floats and a scale, up to 1.21.
    DustFloats,
    /// Two packed rgbs and a scale, from 1.21.2.
    TransitionRgb,
    /// Both colours as floats with the scale last, 1.20.5 to 1.21.
    TransitionScaleLast,
    /// Both colours as floats with the scale between them, up to 1.20.3.
    TransitionScaleMid,
    /// A source position, the source type as a string and the arrival, 1.17 and 1.18.
    VibrationWithSource,
    /// The source type as a string, from 1.19.
    VibrationNamed,
    /// The source type as an id, from 1.20.3.
    VibrationTyped,
    Float,
    Delay,
    Color,
    Trail,
    TrailWithDuration,
    Spell,
    Geyser,
    GeyserBase,
}

/// The particle registry of the newest protocol: the name of each id.
pub struct ParticleRegistry {
    pub names: Vec<ParticleName>,
}

/// The first index from `i` on whose name is `name`.
pub open spec fn first_named(names: Seq<ParticleName>, i: int, name: ParticleName) -> Option<nat>
    decreases names.len() - i,
{
    if i < 0 || i >= names.len() {
        None
    } else if names[i] == name {
        Some(i as nat)
    } else {
        first_named(names, i + 1, name)
    }
}

impl ParticleRegistry {
    /// The name of `id`; `Plain` for an id outside the registry.
    pub open spec fn spec_name_of(&self, id: i32) -> ParticleName {
        if 0 <= id <= u16::MAX && id < self.names@.len() { self.names@[id as int] } else { ParticleName::Plain }
    }

    /// Whether the registry has a particle numbered `id`.
    pub open spec fn spec_has(&self, id: i32) -> bool {
        0 <= id <= u16::MAX && id < self.names@.len()
    }

    /// Whether the registry has a particle numbered `id`.
    pub fn has(&self, id: i32) -> (r: bool)
        ensures
            r == self.spec_has(id),
    {
        0 <= id && id <= u16::MAX as i32 && (id as usize) < self.names.len()
    }

    /// The id named `name`.
    pub open spec fn spec_id_of(&self, name: ParticleName) -> Option<nat> {
        first_named(self.names@, 0, name)
    }

    /// The name of `id`; `Plain` for an id outside the registry.
    pub fn name_of(&self, id: i32) -> (r: ParticleName)
        ensures
            r == self.spec_name_of(id),
    {
        if 0 <= id && id <= u16::MAX as i32 && (id as usize) < self.names.len() {
            self.names[id as usize]
        } else {
            ParticleName::Plain
        }
    }

    /// The id named `name`.
    pub fn id_of(&self, name: ParticleName) -> (r: Option<usize>)
        ensures
            match self.spec_id_of(name) {
                Some(i) => r matches Some(k) && k == i,
                None => r is None,
            },
    {
        let mut i: usize = 0;
        while i < self.names.len()
            invariant
                i <= self.names@.len(),
                first_named(self.names@, 0, name) == first_named(self.names@, i as int, name),
            decreases self.names@.len() - i,
        {
            if self.names[i] == name {
                return Some(i);
            }
            i = i + 1;
        }
        None
    }
}

/// The particles 26.2 reads option data for, in its order.
pub open spec fn shapes_26_2() -> Seq<(ParticleName, Shape)> {
    seq![
        (ParticleName::Item, Shape::Item),
        (ParticleName::Block, Shape::Block),
        (ParticleName::BlockMarker, Shape::Block),
        (ParticleName::DustPillar, Shape::Block),
        (ParticleName::FallingDust, Shape::Block),
        (ParticleName::BlockCrumble, Shape::Block),
        (ParticleName::Dust, Shape::DustRgb),
        (ParticleName::DustColorTransition, Shape::TransitionRgb),
        (ParticleName::Vibration, Shape::VibrationTyped),
        (ParticleName::SculkCharge, Shape::Float),
        (ParticleName::Shriek, Shape::Delay),
        (ParticleName::EntityEffect, Shape::Color),
        (ParticleName::Trail, Shape::TrailWithDuration),
        (ParticleName::TintedLeaves, Shape::Color),
        (ParticleName::DragonBreath, Shape::Float),
        (ParticleName::Effect, Shape::Spell),
        (ParticleName::InstantEffect, Shape::Spell),
        (ParticleName::Flash, Shape::Color),
        (ParticleName::Geyser, Shape::Geyser),
        (ParticleName::GeyserBase, Shape::GeyserBase),
        (ParticleName::GeyserPoof, Shape::GeyserBase),
        (ParticleName::GeyserPlume, Shape::Geyser),
    ]
}

fn list_26_2() -> (r: Vec<(ParticleName, Shape)>)
    ensures
        r@ == shapes_26_2(),
{
    let r = vec![
        (ParticleName::Item, Shape::Item),
        (ParticleName::Block, Shape::Block),
        (ParticleName::BlockMarker, Shape::Block),
        (ParticleName::DustPillar, Shape::Block),
        (ParticleName::FallingDust, Shape::Block),
        (ParticleName::BlockCrumble, Shape::Block),
        (ParticleName::Dust, Shape::DustRgb),
        (ParticleName::DustColorTransition, Shape::TransitionRgb),
        (ParticleName::Vibration, Shape::VibrationTyped),
        (ParticleName::SculkCharge, Shape::Float),
        (ParticleName::Shriek, Shape::Delay),
        (ParticleName::EntityEffect, Shape::Color),
        (ParticleName::Trail, Shape::TrailWithDuration),
        (ParticleName::TintedLeaves, Shape::Color),
        (ParticleName::DragonBreath, Shape::Float),
        (ParticleName::Effect, Shape::Spell),
        (ParticleName::InstantEffect, Shape::Spell),
        (ParticleName::Flash, Shape::Color),
        (ParticleName::Geyser, Shape::Geyser),
        (ParticleName::GeyserBase, Shape::GeyserBase),
        (ParticleName::GeyserPoof, Shape::GeyserBase),
        (ParticleName::GeyserPlume, Shape::Geyser),
    ];
    assert(r@ =~= shapes_26_2());
    r
}

/// The particles 1.21.9 reads option data for, in its order.
pub open spec fn shapes_1_21_9() -> Seq<(ParticleName, Shape)> {
    seq![
        (ParticleName::Item, Shape::Item),
        (ParticleName::Block, Shape::Block),
        (ParticleName::BlockMarker, Shape::Block),
        (ParticleName::DustPillar, Shape::Block),
        (ParticleName::FallingDust, Shape::Block),
        (ParticleName::BlockCrumble, Shape::Block),
        (ParticleName::Dust, Shape::DustRgb),
        (ParticleName::DustColorTransition, Shape::TransitionRgb),
        (ParticleName::Vibration, Shape::VibrationTyped),
        (ParticleName::SculkCharge, Shape::Float),
        (ParticleName::Shriek, Shape::Delay),
        (ParticleName::EntityEffect, Shape::Color),
        (ParticleName::Trail, Shape::TrailWithDuration),
        (ParticleName::TintedLeaves, Shape::Color),
        (ParticleName::DragonBreath, Shape::Float),
        (ParticleName::Effect, Shape::Spell),
        (ParticleName::InstantEffect, Shape::Spell),
        (ParticleName::Flash, Shape::Color),
    ]
}

fn list_1_21_9() -> (r: Vec<(ParticleName, Shape)>)
    ensures
        r@ == shapes_1_21_9(),
{
    let r = vec![
        (ParticleName::Item, Shape::Item),
        (ParticleName::Block, Shape::Block),
        (ParticleName::BlockMarker, Shape::Block),
        (ParticleName::DustPillar, Shape::Block),
        (ParticleName::FallingDust, Shape::Block),
        (ParticleName::BlockCrumble, Shape::Block),
        (ParticleName::Dust, Shape::DustRgb),
        (ParticleName::DustColorTransition, Shape::TransitionRgb),
        (ParticleName::Vibration, Shape::VibrationTyped),
        (ParticleName::SculkCharge, Shape::Float),
        (ParticleName::Shriek, Shape::Delay),
        (ParticleName::EntityEffect, Shape::Color),
        (ParticleName::Trail, Shape::TrailWithDuration),
        (ParticleName::TintedLeaves, Shape::Color),
        (ParticleName::DragonBreath, Shape::Float),
        (ParticleName::Effect, Shape::Spell),
        (ParticleName::InstantEffect, Shape::Spell),
        (ParticleName::Flash, Shape::Color),
    ];
    assert(r@ =~= shapes_1_21_9());
    r
}

/// The particles 1.21.5 reads option data for, in its order.
pub open spec fn shapes_1_21_5() -> Seq<(ParticleName, Shape)> {
    seq![
        (ParticleName::Item, Shape::Item),
        (ParticleName::Block, Shape::Block),
        (ParticleName::BlockMarker, Shape::Block),
        (ParticleName::DustPillar, Shape::Block),
        (ParticleName::FallingDust, Shape::Block),
        (ParticleName::BlockCrumble, Shape::Block),
        (ParticleName::Dust, Shape::DustRgb),
        (ParticleName::DustColorTransition, Shape::TransitionRgb),
        (ParticleName::Vibration, Shape::VibrationTyped),
        (ParticleName::SculkCharge, Shape::Float),
        (ParticleName::Shriek, Shape::Delay),
        (ParticleName::EntityEffect, Shape::Color),
        (ParticleName::Trail, Shape::TrailWithDuration),
        (ParticleName::TintedLeaves, Shape::Color),
    ]
}

fn list_1_21_5() -> (r: Vec<(ParticleName, Shape)>)
    ensures
        r@ == shapes_1_21_5(),
{
    let r = vec![
        (ParticleName::Item, Shape::Item),
        (ParticleName::Block, Shape::Block),
        (ParticleName::BlockMarker, Shape::Block),
        (ParticleName::DustPillar, Shape::Block),
        (ParticleName::FallingDust, Shape::Block),
        (ParticleName::BlockCrumble, Shape::Block),
        (ParticleName::Dust, Shape::DustRgb),
        (ParticleName::DustColorTransition, Shape::TransitionRgb),
        (ParticleName::Vibration, Shape::VibrationTyped),
        (ParticleName::SculkCharge, Shape::Float),
        (ParticleName::Shriek, Shape::Delay),
        (ParticleName::EntityEffect, Shape::Color),
        (ParticleName::Trail, Shape::TrailWithDuration),
        (ParticleName::TintedLeaves, Shape::Color),
    ];
    assert(r@ =~= shapes_1_21_5());
    r
}

/// The particles 1.21.4 reads option data for, in its order.
pub open spec fn shapes_1_21_4() -> Seq<(ParticleName, Shape)> {
    seq![
        (ParticleName::Item, Shape::Item),
        (ParticleName::Block, Shape::Block),
        (ParticleName::BlockMarker, Shape::Block),
        (ParticleName::DustPillar, Shape::Block),
        (ParticleName::FallingDust, Shape::Block),
        (ParticleName::BlockCrumble, Shape::Block),
        (ParticleName::Dust, Shape::DustRgb),
        (ParticleName::DustColorTransition, Shape::TransitionRgb),
        (ParticleName::Vibration, Shape::VibrationTyped),
        (ParticleName::SculkCharge, Shape::Float),
        (ParticleName::Shriek, Shape::Delay),
        (ParticleName::EntityEffect, Shape::Color),
        (ParticleName::Trail, Shape::TrailWithDuration),
    ]
}

fn list_1_21_4() -> (r: Vec<(ParticleName, Shape)>)
    ensures
        r@ == shapes_1_21_4(),
{
    let r = vec![
        (ParticleName::Item, Shape::Item),
        (ParticleName::Block, Shape::Block),
        (ParticleName::BlockMarker, Shape::Block),
        (ParticleName::DustPillar, Shape::Block),
        (ParticleName::FallingDust, Shape::Block),
        (ParticleName::BlockCrumble, Shape::Block),
        (ParticleName::Dust, Shape::DustRgb),
        (ParticleName::DustColorTransition, Shape::TransitionRgb),
        (ParticleName::Vibration, Shape::VibrationTyped),
        (ParticleName::SculkCharge, Shape::Float),
        (ParticleName::Shriek, Shape::Delay),
        (ParticleName::EntityEffect, Shape::Color),
        (ParticleName::Trail, Shape::TrailWithDuration),
    ];
    assert(r@ =~= shapes_1_21_4());
    r
}

/// The particles 1.21.2 reads option data for, in its order.
pub open spec fn shapes_1_21_2() -> Seq<(ParticleName, Shape)> {
    seq![
        (ParticleName::Item, Shape::Item),
        (ParticleName::Block, Shape::Block),
        (ParticleName::BlockMarker, Shape::Block),
        (ParticleName::DustPillar, Shape::Block),
        (ParticleName::FallingDust, Shape::Block),
        (ParticleName::BlockCrumble, Shape::Block),
        (ParticleName::Dust, Shape::DustRgb),
        (ParticleName::DustColorTransition, Shape::TransitionRgb),
        (ParticleName::Vibration, Shape::VibrationTyped),
        (ParticleName::SculkCharge, Shape::Float),
        (ParticleName::Shriek, Shape::Delay),
        (ParticleName::EntityEffect, Shape::Color),
        (ParticleName::Trail, Shape::Trail),
    ]
}

fn list_1_21_2() -> (r: Vec<(ParticleName, Shape)>)
    ensures
        r@ == shapes_1_21_2(),
{
    let r = vec![
        (ParticleName::Item, Shape::Item),
        (ParticleName::Block, Shape::Block),
        (ParticleName::BlockMarker, Shape::Block),
        (ParticleName::DustPillar, Shape::Block),
        (ParticleName::FallingDust, Shape::Block),
        (ParticleName::BlockCrumble, Shape::Block),
        (ParticleName::Dust, Shape::DustRgb),
        (ParticleName::DustColorTransition, Shape::TransitionRgb),
        (ParticleName::Vibration, Shape::VibrationTyped),
        (ParticleName::SculkCharge, Shape::Float),
        (ParticleName::Shriek, Shape::Delay),
        (ParticleName::EntityEffect, Shape::Color),
        (ParticleName::Trail, Shape::Trail),
    ];
    assert(r@ =~= shapes_1_21_2());
    r
}

/// The particles 1.20.5 reads option data for, in its order.
pub open spec fn shapes_1_20_5() -> Seq<(ParticleName, Shape)> {
    seq![
        (ParticleName::Item, Shape::Item),
        (ParticleName::Block, Shape::Block),
        (ParticleName::BlockMarker, Shape::Block),
        (ParticleName::Dust, Shape::DustFloats),
        (ParticleName::FallingDust, Shape::Block),
        (ParticleName::DustColorTransition, Shape::TransitionScaleLast),
        (ParticleName::Vibration, Shape::VibrationTyped),
        (ParticleName::SculkCharge, Shape::Float),
        (ParticleName::Shriek, Shape::Delay),
        (ParticleName::DustPillar, Shape::Block),
        (ParticleName::EntityEffect, Shape::Color),
    ]
}

fn list_1_20_5() -> (r: Vec<(ParticleName, Shape)>)
    ensures
        r@ == shapes_1_20_5(),
{
    let r = vec![
        (ParticleName::Item, Shape::Item),
        (ParticleName::Block, Shape::Block),
        (ParticleName::BlockMarker, Shape::Block),
        (ParticleName::Dust, Shape::DustFloats),
        (ParticleName::FallingDust, Shape::Block),
        (ParticleName::DustColorTransition, Shape::TransitionScaleLast),
        (ParticleName::Vibration, Shape::VibrationTyped),
        (ParticleName::SculkCharge, Shape::Float),
        (ParticleName::Shriek, Shape::Delay),
        (ParticleName::DustPillar, Shape::Block),
        (ParticleName::EntityEffect, Shape::Color),
    ];
    assert(r@ =~= shapes_1_20_5());
    r
}

/// The particles 1.20.3 reads option data for, in its order.
pub open spec fn shapes_1_20_3() -> Seq<(ParticleName, Shape)> {
    seq![
        (ParticleName::Item, Shape::Item),
        (ParticleName::Block, Shape::Block),
        (ParticleName::BlockMarker, Shape::Block),
        (ParticleName::Dust, Shape::DustFloats),
        (ParticleName::FallingDust, Shape::Block),
        (ParticleName::DustColorTransition, Shape::TransitionScaleMid),
        (ParticleName::Vibration, Shape::VibrationTyped),
        (ParticleName::SculkCharge, Shape::Float),
        (ParticleName::Shriek, Shape::Delay),
    ]
}

fn list_1_20_3() -> (r: Vec<(ParticleName, Shape)>)
    ensures
        r@ == shapes_1_20_3(),
{
    let r = vec![
        (ParticleName::Item, Shape::Item),
        (ParticleName::Block, Shape::Block),
        (ParticleName::BlockMarker, Shape::Block),
        (ParticleName::Dust, Shape::DustFloats),
        (ParticleName::FallingDust, Shape::Block),
        (ParticleName::DustColorTransition, Shape::TransitionScaleMid),
        (ParticleName::Vibration, Shape::VibrationTyped),
        (ParticleName::SculkCharge, Shape::Float),
        (ParticleName::Shriek, Shape::Delay),
    ];
    assert(r@ =~= shapes_1_20_3());
    r
}

/// The particles 1.19 reads option data for, in its order.
pub open spec fn shapes_1_19() -> Seq<(ParticleName, Shape)> {
    seq![
        (ParticleName::Item, Shape::Item),
        (ParticleName::Block, Shape::Block),
        (ParticleName::BlockMarker, Shape::Block),
        (ParticleName::Dust, Shape::DustFloats),
        (ParticleName::FallingDust, Shape::Block),
        (ParticleName::DustColorTransition, Shape::TransitionScaleMid),
        (ParticleName::Vibration, Shape::VibrationNamed),
        (ParticleName::SculkCharge, Shape::Float),
        (ParticleName::Shriek, Shape::Delay),
    ]
}

fn list_1_19() -> (r: Vec<(ParticleName, Shape)>)
    ensures
        r@ == shapes_1_19(),
{
    let r = vec![
        (ParticleName::Item, Shape::Item),
        (ParticleName::Block, Shape::Block),
        (ParticleName::BlockMarker, Shape::Block),
        (ParticleName::Dust, Shape::DustFloats),
        (ParticleName::FallingDust, Shape::Block),
        (ParticleName::DustColorTransition, Shape::TransitionScaleMid),
        (ParticleName::Vibration, Shape::VibrationNamed),
        (ParticleName::SculkCharge, Shape::Float),
        (ParticleName::Shriek, Shape::Delay),
    ];
    assert(r@ =~= shapes_1_19());
    r
}

/// The particles 1.18 reads option data for, in its order.
pub open spec fn shapes_1_18() -> Seq<(ParticleName, Shape)> {
    seq![
        (ParticleName::Item, Shape::Item),
        (ParticleName::Block, Shape::Block),
        (ParticleName::Dust, Shape::DustFloats),
        (ParticleName::FallingDust, Shape::Block),
        (ParticleName::DustColorTransition, Shape::TransitionScaleMid),
        (ParticleName::Vibration, Shape::VibrationWithSource),
        (ParticleName::BlockMarker, Shape::Block),
    ]
}

fn list_1_18() -> (r: Vec<(ParticleName, Shape)>)
    ensures
        r@ == shapes_1_18(),
{
    let r = vec![
        (ParticleName::Item, Shape::Item),
        (ParticleName::Block, Shape::Block),
        (ParticleName::Dust, Shape::DustFloats),
        (ParticleName::FallingDust, Shape::Block),
        (ParticleName::DustColorTransition, Shape::TransitionScaleMid),
        (ParticleName::Vibration, Shape::VibrationWithSource),
        (ParticleName::BlockMarker, Shape::Block),
    ];
    assert(r@ =~= shapes_1_18());
    r
}

/// The particles 1.17 reads option data for, in its order.
pub open spec fn shapes_1_17() -> Seq<(ParticleName, Shape)> {
    seq![
        (ParticleName::Item, Shape::Item),
        (ParticleName::Block, Shape::Block),
        (ParticleName::Dust, Shape::DustFloats),
        (ParticleName::FallingDust, Shape::Block),
        (ParticleName::DustColorTransition, Shape::TransitionScaleMid),
        (ParticleName::Vibration, Shape::VibrationWithSource),
    ]
}

fn list_1_17() -> (r: Vec<(ParticleName, Shape)>)
    ensures
        r@ == shapes_1_17(),
{
    let r = vec![
        (ParticleName::Item, Shape::Item),
        (ParticleName::Block, Shape::Block),
        (ParticleName::Dust, Shape::DustFloats),
        (ParticleName::FallingDust, Shape::Block),
        (ParticleName::DustColorTransition, Shape::TransitionScaleMid),
        (ParticleName::Vibration, Shape::VibrationWithSource),
    ];
    assert(r@ =~= shapes_1_17());
    r
}

/// The particles 1.16 reads option data for, in its order.
pub open spec fn shapes_1_16() -> Seq<(ParticleName, Shape)> {
    seq![
        (ParticleName::Item, Shape::Item),
        (ParticleName::Block, Shape::Block),
        (ParticleName::Dust, Shape::DustFloats),
        (ParticleName::FallingDust, Shape::Block),
    ]
}

fn list_1_16() -> (r: Vec<(ParticleName, Shape)>)
    ensures
        r@ == shapes_1_16(),
{
    let r = vec![
        (ParticleName::Item, Shape::Item),
        (ParticleName::Block, Shape::Block),
        (ParticleName::Dust, Shape::DustFloats),
        (ParticleName::FallingDust, Shape::Block),
    ];
    assert(r@ =~= shapes_1_16());
    r
}

/// The particles `version` reads option data for and the shape of each, in
/// the order its registry lists them.
pub open spec fn shape_list(version: V) -> Seq<(ParticleName, Shape)> {
    if version.spec_at_least(V::V_26_2) {
        shapes_26_2()
    } else if version.spec_at_least(V::V_1_21_9) {
        shapes_1_21_9()
    } else if version.spec_at_least(V::V_1_21_5) {
        shapes_1_21_5()
    } else if version.spec_at_least(V::V_1_21_4) {
        shapes_1_21_4()
    } else if version.spec_at_least(V::V_1_21_2) {
        shapes_1_21_2()
    } else if version.spec_at_least(V::V_1_20_5) {
        shapes_1_20_5()
    } else if version.spec_at_least(V::V_1_20_3) {
        shapes_1_20_3()
    } else if version.spec_at_least(V::V_1_19) {
        shapes_1_19()
    } else if version.spec_at_least(V::V_1_18) {
        shapes_1_18()
    } else if version.spec_at_least(V::V_1_17) {
        shapes_1_17()
    } else {
        shapes_1_16()
    }
}

/// The particles `version` reads option data for.
pub fn shapes(version: V) -> (r: Vec<(ParticleName, Shape)>)
    ensures
        r@ == shape_list(version),
{
    if version.at_least(V::V_26_2) {
        list_26_2()
    } else if version.at_least(V::V_1_21_9) {
        list_1_21_9()
    } else if version.at_least(V::V_1_21_5) {
        list_1_21_5()
    } else if version.at_least(V::V_1_21_4) {
        list_1_21_4()
    } else if version.at_least(V::V_1_21_2) {
        list_1_21_2()
    } else if version.at_least(V::V_1_20_5) {
        list_1_20_5()
    } else if version.at_least(V::V_1_20_3) {
        list_1_20_3()
    } else if version.at_least(V::V_1_19) {
        list_1_19()
    } else if version.at_least(V::V_1_18) {
        list_1_18()
    } else if version.at_least(V::V_1_17) {
        list_1_17()
    } else {
        list_1_16()
    }
}

/// The shape listed first for `name` from entry `i` on, `None` where it is not listed.
pub open spec fn shape_in(list: Seq<(ParticleName, Shape)>, i: int, name: ParticleName) -> Shape
    decreases list.len() - i,
{
    if i < 0 || i >= list.len() {
        Shape::Empty
    } else if list[i].0 == name {
        list[i].1
    } else {
        shape_in(list, i + 1, name)
    }
}

/// The shape `version` reads for the newest protocol's particle `id`.
pub open spec fn spec_shape_of(id: i32, version: V, registry: &ParticleRegistry) -> Shape {
    shape_in(shape_list(version), 0, registry.spec_name_of(id))
}

/// The shape `version` reads for the newest protocol's particle `id`.
pub fn shape_of(id: i32, version: V, registry: &ParticleRegistry) -> (r: Shape)
    ensures
        r == spec_shape_of(id, version, registry),
{
    let name = registry.name_of(id);
    let list = shapes(version);
    let mut i: usize = 0;
    while i < list.len()
        invariant
            i <= list@.len(),
            list@ == shape_list(version),
            name == registry.spec_name_of(id),
            shape_in(list@, 0, name) == shape_in(list@, i as int, name),
        decreases list@.len() - i,
    {
        if list[i].0 == name {
            return list[i].1;
        }
        i = i + 1;
    }
    Shape::Empty
}

/// The shape of the first listed particle from entry `i` on that the newest
/// registry has and that `particles` renumbers onto `mapped`.
pub open spec fn first_mapped(
    list: Seq<(ParticleName, Shape)>,
    i: int,
    registry: &ParticleRegistry,
    particles: IdMapping,
    mapped: u32,
) -> Shape
    decreases list.len() - i,
{
    if i < 0 || i >= list.len() {
        Shape::Empty
    } else if registry.spec_id_of(list[i].0) matches Some(k) && k <= u32::MAX
        && particles.spec_map(k as u32) == Some(mapped) {
        list[i].1
    } else {
        first_mapped(list, i + 1, registry, particles, mapped)
    }
}

/// The shape the client reads for the particle it numbers `mapped`, found by
/// renumbering the names `layout` carries data for: a missing particle is
/// stood in for by one that takes the same arguments, so the mapped id
/// decides the shape.
pub open spec fn spec_mapped_shape(mapped: u32, layout: V, registry: &ParticleRegistry, particles: IdMapping) -> Shape {
    first_mapped(shape_list(layout), 0, registry, particles, mapped)
}

/// The shape the client reads for the particle it numbers `mapped`.
pub fn mapped_shape(mapped: u32, layout: V, registry: &ParticleRegistry, particles: &IdMapping) -> (r: Shape)
    ensures
        r == spec_mapped_shape(mapped, layout, registry, *particles),
{
    let list = shapes(layout);
    let mut i: usize = 0;
    while i < list.len()
        invariant
            i <= list@.len(),
            list@ == shape_list(layout),
            first_mapped(list@, 0, registry, *particles, mapped) == first_mapped(list@, i as int, registry, *particles, mapped),
        decreases list@.len() - i,
    {
        let (name, shape) = list[i];
        match registry.id_of(name) {
            Some(k) => {
                if k <= u32::MAX as usize {
                    if particles.map(k as u32) == Some(mapped) {
                        return shape;
                    }
                }
            },
            None => {},
        }
        i = i + 1;
    }
    Shape::Empty
}

/// How many doublings bring `x` to 255 or more: where the colour channel
/// `x / 255` is written as a float, how far its exponent lies below zero.
pub open spec fn doublings(x: nat) -> nat
    decreases 510 - x,
{
    if x == 0 || x >= 255 { 0 } else { 1 + doublings(2 * x) }
}

/// The bits of the float nearest to the colour channel `c / 255`: the value
/// brought into [1, 2) by `doublings(c)`, its 23 fraction bits rounded to
/// nearest (255 being odd, no value lies halfway), and a mantissa that rounds
/// up to 2 carries into the exponent.
pub open spec fn channel_bits(c: u8) -> u32 {
    if c == 0 {
        0
    } else {
        let d = doublings(c as nat);
        let m = (2 * (c as nat) * pow2(23 + d) + 255) / 510;
        ((126 - d) * pow2(23) + m) as u32
    }
}

/// The bits of the float nearest to `c / 255`.
pub fn channel_float_bits(c: u8) -> (r: u32)
    ensures
        r == channel_bits(c),
{
    if c == 0 {
        return 0;
    }
    proof { vstd::arithmetic::power2::lemma2_to64(); }
    let mut x: u64 = c as u64;
    let mut d: u64 = 0;
    while x < 255
        invariant
            0 < x < 510,
            x >= pow2(d as nat),
            x == (c as nat) * pow2(d as nat),
            d <= 8,
            doublings(c as nat) == d + doublings(x as nat),
            pow2(8) == 256,
        decreases 510 - x,
    {
        proof {
            lemma_pow2_unfold((d + 1) as nat);
            if d == 8 {
                assert(false);
            }
            assert(2 * x == (c as nat) * pow2((d + 1) as nat)) by (nonlinear_arith)
                requires x == (c as nat) * pow2(d as nat), pow2((d + 1) as nat) == 2 * pow2(d as nat);
        }
        x = 2 * x;
        d = d + 1;
    }
    proof {
        lemma_pow2_adds(23, d as nat);
        assert(pow2(23) == 8388608);
        assert((c as nat) * pow2((23 + d) as nat) == x * 8388608) by (nonlinear_arith)
            requires
                x == (c as nat) * pow2(d as nat),
                pow2((23 + d) as nat) == pow2(23) * pow2(d as nat),
                pow2(23) == 8388608;
    }
    let num: u64 = x * 8388608;
    let m: u64 = (2 * num + 255) / 510;
    assert(m <= 8388608 * 2) by (nonlinear_arith)
        requires m == (2 * num + 255) / 510, num == x * 8388608, x < 510;
    let bits: u64 = (126 - d) * 8388608 + m;
    assert(doublings(c as nat) == d);
    assert(2 * (c as nat) * pow2((23 + d) as nat) == 2 * num) by (nonlinear_arith)
        requires (c as nat) * pow2((23 + d) as nat) == x * 8388608, num == x * 8388608;
    assert(bits == (126 - d) * pow2(23) + m);
    bits as u32
}

/// The number of binary digits of `a`.
pub open spec fn bit_len(a: nat) -> nat
    decreases a,
{
    if a == 0 { 0 } else { 1 + bit_len(a / 2) }
}

proof fn lemma_bit_len_bound(a: nat, k: nat)
    requires
        a < pow2(k),
    ensures
        bit_len(a) <= k,
    decreases k,
{
    if a > 0 {
        if k == 0 {
            vstd::arithmetic::power2::lemma2_to64();
        } else {
            lemma_pow2_unfold(k);
            lemma_bit_len_bound(a / 2, (k - 1) as nat);
        }
    }
}

/// `a / 2^shift` rounded to nearest, halfway cases to even.
pub open spec fn round_shift(a: nat, shift: nat) -> nat {
    let q = a / pow2(shift);
    let r = a % pow2(shift);
    if 2 * r > pow2(shift) || (2 * r == pow2(shift) && q % 2 == 1) { q + 1 } else { q }
}

/// The bits of the float nearest to the positive integer `a`: 24 significant
/// bits, rounded to nearest with ties to even, and a mantissa that rounds up
/// a binade carries into the exponent.
pub open spec fn magnitude_float_bits(a: nat) -> nat {
    let l = bit_len(a);
    let m = if l <= 24 { a * pow2((24 - l) as nat) } else { round_shift(a, (l - 24) as nat) };
    (125 + l) * pow2(23) + m
}

/// The bits of the float nearest to `v`.
pub open spec fn int_float_bits(v: i32) -> u32 {
    if v == 0 {
        0
    } else if v > 0 {
        magnitude_float_bits(v as nat) as u32
    } else {
        (pow2(31) + magnitude_float_bits((-v) as nat)) as u32
    }
}

fn pow2_u64(k: u64) -> (r: u64)
    requires
        k <= 32,
    ensures
        r == pow2(k as nat),
{
    let mut p: u64 = 1;
    let mut i: u64 = 0;
    proof { vstd::arithmetic::power2::lemma2_to64(); }
    while i < k
        invariant
            i <= k <= 32,
            p == pow2(i as nat),
            pow2(32) == 0x1_0000_0000,
        decreases k - i,
    {
        proof {
            lemma_pow2_unfold((i + 1) as nat);
            if i < 32 {
                lemma_pow2_strictly_increases(i as nat, 32);
            }
        }
        p = 2 * p;
        i = i + 1;
    }
    p
}

/// The bits of the float nearest to `v`.
pub fn int_to_float_bits(v: i32) -> (r: u32)
    ensures
        r == int_float_bits(v),
{
    if v == 0 {
        return 0;
    }
    let a: u64 = if v < 0 { (0 - (v as i64)) as u64 } else { v as u64 };
    let mut t: u64 = a;
    let mut l: u64 = 0;
    proof { vstd::arithmetic::power2::lemma2_to64(); }
    while t > 0
        invariant
            bit_len(a as nat) == l + bit_len(t as nat),
            l <= 64,
            t < pow2((64 - l) as nat),
            pow2(0) == 1,
        decreases t,
    {
        proof {
            if l == 64 {
                assert(false);
            }
            lemma_pow2_unfold((64 - l) as nat);
        }
        t = t / 2;
        l = l + 1;
    }
    proof {
        vstd::arithmetic::power2::lemma2_to64();
        lemma_bit_len_bound(a as nat, 32);
    }
    let m: u64 = if l <= 24 {
        let p = pow2_u64(24 - l);
        proof {
            lemma_pow2_strictly_increases((24 - l) as nat, 32);
            assert(a * p <= 0x8000_0000 * 0x1_0000_0000) by (nonlinear_arith)
                requires a <= 0x8000_0000, p < 0x1_0000_0000;
        }
        a * p
    } else {
        let p = pow2_u64(l - 24);
        let q = a / p;
        let rem = a % p;
        if 2 * rem > p || (2 * rem == p && q % 2 == 1) { q + 1 } else { q }
    };
    let bits: u64 = (125 + l) * 8388608 + m;
    if v > 0 {
        bits as u32
    } else {
        (0x8000_0000u64 + bits) as u32
    }
}

/// Where a vibration comes from.
#[derive(Clone, Copy, Debug, PartialEq, Eq, Structural)]
pub enum VibrationSource {
    /// The packed block position, copied as it stands.
    Block(i64),
    /// An entity, and the bits of the float height above it.
    Entity { id: i32, y_offset: i32 },
}

/// A particle's option data as the newest protocol writes it. Float fields
/// hold the bits of the float.
#[derive(Clone, Copy, Debug, PartialEq, Eq, Structural)]
pub enum ParticleData {
    Empty,
    Block(u32),
    Dust { rgb: i32, scale: i32 },
    Transition { from: i32, to: i32, scale: i32 },
    Vibration { source: VibrationSource, ticks: i32 },
    Float(i32),
    Delay(i32),
    Color(i32),
    Trail { x: i64, y: i64, z: i64, color: i32, duration: i32 },
    Spell { color: i32, power: i32 },
    Geyser { water_blocks: i32, impulse: i32 },
}

/// A particle as the newest protocol writes it: the registry id and its option data.
#[derive(Clone, Copy, Debug, PartialEq, Eq, Structural)]
pub struct Particle {
    pub id: i32,
    pub data: ParticleData,
}

/// The `i32` at `pos` and the position after it, else a read error.
pub open spec fn int_at(b: Seq<u8>, pos: int) -> Result<(i32, int), TranslateError> {
    match field(I32, b, pos) {
        Some((v, p)) => Ok((v, p)),
        None => Err(TranslateError::Read),
    }
}

/// The `VarInt` at `pos` and the position after it, else a read error.
pub open spec fn var_at(b: Seq<u8>, pos: int) -> Result<(i32, int), TranslateError> {
    match field(VAR_INT, b, pos) {
        Some((v, p)) => Ok((v, p)),
        None => Err(TranslateError::Read),
    }
}

/// The `i64` at `pos` and the position after it, else a read error.
pub open spec fn long_at(b: Seq<u8>, pos: int) -> Result<(i64, int), TranslateError> {
    match field(I64, b, pos) {
        Some((v, p)) => Ok((v, p)),
        None => Err(TranslateError::Read),
    }
}

/// The vibration option data at `pos`: a source kind, a block position or an
/// entity and its height, and the arrival in ticks.
pub open spec fn vibration_at(b: Seq<u8>, pos: int) -> Result<(ParticleData, int), TranslateError> {
    match var_at(b, pos) {
        Ok((kind, p1)) => {
            let source = if kind == 0 {
                match long_at(b, p1) {
                    Ok((at, p2)) => Ok((VibrationSource::Block(at), p2)),
                    Err(e) => Err(e),
                }
            } else {
                match var_at(b, p1) {
                    Ok((id, p2)) => match int_at(b, p2) {
                        Ok((y, p3)) => Ok((VibrationSource::Entity { id, y_offset: y }, p3)),
                        Err(e) => Err(e),
                    },
                    Err(e) => Err(e),
                }
            };
            match source {
                Ok((source, p2)) => match var_at(b, p2) {
                    Ok((ticks, p3)) => Ok((ParticleData::Vibration { source, ticks }, p3)),
                    Err(e) => Err(e),
                },
                Err(e) => Err(e),
            }
        },
        Err(e) => Err(e),
    }
}

/// The option data of the newest protocol's `shape` at `pos`, and the
/// position after it. An item is refused until items are rewritten here, and
/// so is a shape the newest protocol never writes.
pub open spec fn data_at(b: Seq<u8>, pos: int, shape: Shape) -> Result<(ParticleData, int), TranslateError> {
    match shape {
        Shape::Empty => if 0 <= pos <= b.len() { Ok((ParticleData::Empty, pos)) } else { Err(TranslateError::Read) },
        Shape::Item => Err(TranslateError::Unsupported("item particle")),
        Shape::Block => match var_at(b, pos) {
            Ok((v, p)) => Ok((ParticleData::Block(if v < 0 { 0 } else { v as u32 }), p)),
            Err(e) => Err(e),
        },
        Shape::DustRgb => match int_at(b, pos) {
            Ok((rgb, p1)) => match int_at(b, p1) {
                Ok((scale, p2)) => Ok((ParticleData::Dust { rgb, scale }, p2)),
                Err(e) => Err(e),
            },
            Err(e) => Err(e),
        },
        Shape::TransitionRgb => match int_at(b, pos) {
            Ok((from, p1)) => match int_at(b, p1) {
                Ok((to, p2)) => match int_at(b, p2) {
                    Ok((scale, p3)) => Ok((ParticleData::Transition { from, to, scale }, p3)),
                    Err(e) => Err(e),
                },
                Err(e) => Err(e),
            },
            Err(e) => Err(e),
        },
        Shape::VibrationTyped => vibration_at(b, pos),
        Shape::Float => match int_at(b, pos) {
            Ok((v, p)) => Ok((ParticleData::Float(v), p)),
            Err(e) => Err(e),
        },
        Shape::Delay => match var_at(b, pos) {
            Ok((v, p)) => Ok((ParticleData::Delay(v), p)),
            Err(e) => Err(e),
        },
        Shape::Color => match int_at(b, pos) {
            Ok((v, p)) => Ok((ParticleData::Color(v), p)),
            Err(e) => Err(e),
        },
        Shape::TrailWithDuration => match long_at(b, pos) {
            Ok((x, p1)) => match long_at(b, p1) {
                Ok((y, p2)) => match long_at(b, p2) {
                    Ok((z, p3)) => match int_at(b, p3) {
                        Ok((color, p4)) => match var_at(b, p4) {
                            Ok((duration, p5)) => Ok((ParticleData::Trail { x, y, z, color, duration }, p5)),
                            Err(e) => Err(e),
                        },
                        Err(e) => Err(e),
                    },
                    Err(e) => Err(e),
                },
                Err(e) => Err(e),
            },
            Err(e) => Err(e),
        },
        Shape::Spell => match int_at(b, pos) {
            Ok((color, p1)) => match int_at(b, p1) {
                Ok((power, p2)) => Ok((ParticleData::Spell { color, power }, p2)),
                Err(e) => Err(e),
            },
            Err(e) => Err(e),
        },
        Shape::Geyser => match int_at(b, pos) {
            Ok((water_blocks, p)) => Ok((ParticleData::Geyser { water_blocks, impulse: 0 }, p)),
            Err(e) => Err(e),
        },
        Shape::GeyserBase => match int_at(b, pos) {
            Ok((water_blocks, p1)) => match int_at(b, p1) {
                Ok((impulse, p2)) => Ok((ParticleData::Geyser { water_blocks, impulse }, p2)),
                Err(e) => Err(e),
            },
            Err(e) => Err(e),
        },
        _ => Err(TranslateError::Unsupported("particle option data")),
    }
}

fn int_field(b: &[u8], pos: usize) -> (r: Result<(i32, usize), TranslateError>)
    requires
        pos <= b@.len(),
    ensures
        match int_at(b@, pos as int) {
            Ok((v, p)) => r matches Ok((x, q)) && x == v && q == p && pos <= q <= b@.len(),
            Err(e) => r matches Err(x) && x == e,
        },
{
    match read_field(&I32, b, pos) {
        Some(found) => Ok(found),
        None => Err(TranslateError::Read),
    }
}

fn var_field(b: &[u8], pos: usize) -> (r: Result<(i32, usize), TranslateError>)
    requires
        pos <= b@.len(),
    ensures
        match var_at(b@, pos as int) {
            Ok((v, p)) => r matches Ok((x, q)) && x == v && q == p && pos <= q <= b@.len(),
            Err(e) => r matches Err(x) && x == e,
        },
{
    match read_field(&VAR_INT, b, pos) {
        Some(found) => Ok(found),
        None => Err(TranslateError::Read),
    }
}

fn long_field(b: &[u8], pos: usize) -> (r: Result<(i64, usize), TranslateError>)
    requires
        pos <= b@.len(),
    ensures
        match long_at(b@, pos as int) {
            Ok((v, p)) => r matches Ok((x, q)) && x == v && q == p && pos <= q <= b@.len(),
            Err(e) => r matches Err(x) && x == e,
        },
{
    match read_field(&I64, b, pos) {
        Some(found) => Ok(found),
        None => Err(TranslateError::Read),
    }
}

fn read_vibration(b: &[u8], pos: usize) -> (r: Result<(ParticleData, usize), TranslateError>)
    requires
        pos <= b@.len(),
    ensures
        match vibration_at(b@, pos as int) {
            Ok((v, p)) => r matches Ok((x, q)) && x == v && q == p && pos <= q <= b@.len(),
            Err(e) => r matches Err(x) && x == e,
        },
{
    let (kind, p1) = match var_field(b, pos) {
        Ok(found) => found,
        Err(e) => return Err(e),
    };
    let (source, p2) = if kind == 0 {
        match long_field(b, p1) {
            Ok((at, p2)) => (VibrationSource::Block(at), p2),
            Err(e) => return Err(e),
        }
    } else {
        let (id, p2) = match var_field(b, p1) {
            Ok(found) => found,
            Err(e) => return Err(e),
        };
        match int_field(b, p2) {
            Ok((y, p3)) => (VibrationSource::Entity { id, y_offset: y }, p3),
            Err(e) => return Err(e),
        }
    };
    match var_field(b, p2) {
        Ok((ticks, p3)) => Ok((ParticleData::Vibration { source, ticks }, p3)),
        Err(e) => Err(e),
    }
}

/// Reads the option data of the newest protocol's `shape` at `pos`.
pub fn read_data(b: &[u8], pos: usize, shape: Shape) -> (r: Result<(ParticleData, usize), TranslateError>)
    requires
        pos <= b@.len(),
    ensures
        match data_at(b@, pos as int, shape) {
            Ok((v, p)) => r matches Ok((x, q)) && x == v && q == p && pos <= q <= b@.len(),
            Err(e) => r matches Err(x) && x == e,
        },
{
    match shape {
        Shape::Empty => Ok((ParticleData::Empty, pos)),
        Shape::Item => Err(TranslateError::Unsupported("item particle")),
        Shape::Block => {
            let (v, p) = match var_field(b, pos) {
                Ok(found) => found,
                Err(e) => return Err(e),
            };
            Ok((ParticleData::Block(if v < 0 { 0 } else { v as u32 }), p))
        },
        Shape::DustRgb => {
            let (rgb, p1) = match int_field(b, pos) { Ok(f) => f, Err(e) => return Err(e) };
            let (scale, p2) = match int_field(b, p1) { Ok(f) => f, Err(e) => return Err(e) };
            Ok((ParticleData::Dust { rgb, scale }, p2))
        },
        Shape::TransitionRgb => {
            let (from, p1) = match int_field(b, pos) { Ok(f) => f, Err(e) => return Err(e) };
            let (to, p2) = match int_field(b, p1) { Ok(f) => f, Err(e) => return Err(e) };
            let (scale, p3) = match int_field(b, p2) { Ok(f) => f, Err(e) => return Err(e) };
            Ok((ParticleData::Transition { from, to, scale }, p3))
        },
        Shape::VibrationTyped => read_vibration(b, pos),
        Shape::Float => {
            let (v, p) = match int_field(b, pos) { Ok(f) => f, Err(e) => return Err(e) };
            Ok((ParticleData::Float(v), p))
        },
        Shape::Delay => {
            let (v, p) = match var_field(b, pos) { Ok(f) => f, Err(e) => return Err(e) };
            Ok((ParticleData::Delay(v), p))
        },
        Shape::Color => {
            let (v, p) = match int_field(b, pos) { Ok(f) => f, Err(e) => return Err(e) };
            Ok((ParticleData::Color(v), p))
        },
        Shape::TrailWithDuration => {
            let (x, p1) = match long_field(b, pos) { Ok(f) => f, Err(e) => return Err(e) };
            let (y, p2) = match long_field(b, p1) { Ok(f) => f, Err(e) => return Err(e) };
            let (z, p3) = match long_field(b, p2) { Ok(f) => f, Err(e) => return Err(e) };
            let (color, p4) = match int_field(b, p3) { Ok(f) => f, Err(e) => return Err(e) };
            let (duration, p5) = match var_field(b, p4) { Ok(f) => f, Err(e) => return Err(e) };
            Ok((ParticleData::Trail { x, y, z, color, duration }, p5))
        },
        Shape::Spell => {
            let (color, p1) = match int_field(b, pos) { Ok(f) => f, Err(e) => return Err(e) };
            let (power, p2) = match int_field(b, p1) { Ok(f) => f, Err(e) => return Err(e) };
            Ok((ParticleData::Spell { color, power }, p2))
        },
        Shape::Geyser => {
            let (water_blocks, p) = match int_field(b, pos) { Ok(f) => f, Err(e) => return Err(e) };
            Ok((ParticleData::Geyser { water_blocks, impulse: 0 }, p))
        },
        Shape::GeyserBase => {
            let (water_blocks, p1) = match int_field(b, pos) { Ok(f) => f, Err(e) => return Err(e) };
            let (impulse, p2) = match int_field(b, p1) { Ok(f) => f, Err(e) => return Err(e) };
            Ok((ParticleData::Geyser { water_blocks, impulse }, p2))
        },
        _ => Err(TranslateError::Unsupported("particle option data")),
    }
}

/// The three channels of a packed rgb, red first.
pub open spec fn channels(rgb: i32) -> (u8, u8, u8) {
    let u = rgb as u32;
    (((u / 65536) % 256) as u8, ((u / 256) % 256) as u8, (u % 256) as u8)
}

/// A packed rgb as the three colour floats older clients read, each channel
/// over 255.
pub open spec fn rgb_float_bytes(rgb: i32) -> Seq<u8> {
    let (r, g, b) = channels(rgb);
    I32.encode(channel_bits(r) as i32) + I32.encode(channel_bits(g) as i32) + I32.encode(channel_bits(b) as i32)
}

/// The name a vibration source was written with from 1.19 to 1.20.2.
pub open spec fn source_name(source: VibrationSource) -> Seq<u8> {
    match source {
        VibrationSource::Block(_) => "minecraft:block".spec_bytes(),
        VibrationSource::Entity { .. } => "minecraft:entity".spec_bytes(),
    }
}

/// A vibration source after its kind: the position, or the entity and its height.
pub open spec fn source_tail(source: VibrationSource) -> Seq<u8> {
    match source {
        VibrationSource::Block(at) => I64.encode(at),
        VibrationSource::Entity { id, y_offset } => VAR_INT.encode(id) + I32.encode(y_offset),
    }
}

/// The block state a block particle carries, renumbered through
/// `blockstates`; one the client lacks, or beyond an `i32`, becomes air.
pub open spec fn mapped_state_id(blockstates: IdMapping, state: u32) -> i32 {
    let m = match blockstates.spec_map(state) {
        Some(m) => m,
        None => 0,
    };
    if m <= i32::MAX { m as i32 } else { 0 }
}

/// The bytes of `data` in the client's `shape`; `None` where the value
/// cannot be said in that shape, as for a 1.17 or 1.18 vibration, which
/// wants the position it started from.
pub open spec fn data_bytes(data: ParticleData, shape: Shape, blockstates: IdMapping) -> Option<Seq<u8>> {
    match (shape, data) {
        (Shape::Empty, _) => Some(Seq::empty()),
        (Shape::Block, ParticleData::Block(state)) => Some(VAR_INT.encode(mapped_state_id(blockstates, state))),
        (Shape::DustRgb, ParticleData::Dust { rgb, scale }) => Some(I32.encode(rgb) + I32.encode(scale)),
        (Shape::DustFloats, ParticleData::Dust { rgb, scale }) => Some(rgb_float_bytes(rgb) + I32.encode(scale)),
        (Shape::TransitionRgb, ParticleData::Transition { from, to, scale }) =>
            Some(I32.encode(from) + I32.encode(to) + I32.encode(scale)),
        (Shape::TransitionScaleLast, ParticleData::Transition { from, to, scale }) =>
            Some(rgb_float_bytes(from) + rgb_float_bytes(to) + I32.encode(scale)),
        (Shape::TransitionScaleMid, ParticleData::Transition { from, to, scale }) =>
            Some(rgb_float_bytes(from) + I32.encode(scale) + rgb_float_bytes(to)),
        (Shape::VibrationTyped, ParticleData::Vibration { source, ticks }) => Some(
            VAR_INT.encode(if source is Block { 0 } else { 1 }) + source_tail(source) + VAR_INT.encode(ticks),
        ),
        (Shape::VibrationNamed, ParticleData::Vibration { source, ticks }) =>
            Some(STRING.encode(source_name(source)) + source_tail(source) + VAR_INT.encode(ticks)),
        (Shape::Float, ParticleData::Float(v)) => Some(I32.encode(v)),
        (Shape::Delay, ParticleData::Delay(v)) => Some(VAR_INT.encode(v)),
        (Shape::Color, ParticleData::Color(v)) => Some(I32.encode(v)),
        (Shape::Trail, ParticleData::Trail { x, y, z, color, .. }) =>
            Some(I64.encode(x) + I64.encode(y) + I64.encode(z) + I32.encode(color)),
        (Shape::TrailWithDuration, ParticleData::Trail { x, y, z, color, duration }) =>
            Some(I64.encode(x) + I64.encode(y) + I64.encode(z) + I32.encode(color) + VAR_INT.encode(duration)),
        (Shape::Spell, ParticleData::Spell { color, power }) => Some(I32.encode(color) + I32.encode(power)),
        (Shape::Geyser, ParticleData::Geyser { water_blocks, .. }) => Some(I32.encode(water_blocks)),
        (Shape::GeyserBase, ParticleData::Geyser { water_blocks, impulse }) =>
            Some(I32.encode(water_blocks) + I32.encode(impulse)),
        _ => None,
    }
}

fn put_int(out: &mut Vec<u8>, v: i32)
    ensures
        final(out)@ == old(out)@ + I32.encode(v),
{
    I32.write(out, &v);
}

fn put_var(out: &mut Vec<u8>, v: i32)
    ensures
        final(out)@ == old(out)@ + VAR_INT.encode(v),
{
    VAR_INT.write(out, &v);
}

fn put_long(out: &mut Vec<u8>, v: i64)
    ensures
        final(out)@ == old(out)@ + I64.encode(v),
{
    I64.write(out, &v);
}

/// Writes a packed rgb as three colour floats.
fn put_rgb_floats(out: &mut Vec<u8>, rgb: i32)
    ensures
        final(out)@ == old(out)@ + rgb_float_bytes(rgb),
{
    let u = rgb as u32;
    let ghost start = out@;
    put_int(out, channel_float_bits(((u / 65536) % 256) as u8) as i32);
    put_int(out, channel_float_bits(((u / 256) % 256) as u8) as i32);
    put_int(out, channel_float_bits((u % 256) as u8) as i32);
    assert(out@ =~= start + rgb_float_bytes(rgb));
}

fn put_source_tail(out: &mut Vec<u8>, source: VibrationSource)
    ensures
        final(out)@ == old(out)@ + source_tail(source),
{
    match source {
        VibrationSource::Block(at) => put_long(out, at),
        VibrationSource::Entity { id, y_offset } => {
            let ghost start = out@;
            put_var(out, id);
            put_int(out, y_offset);
            assert(out@ =~= start + source_tail(source));
        },
    }
}

/// Writes `data` in the client's `shape`; `false`, with nothing written,
/// where the value cannot be said in that shape.
pub fn write_data(out: &mut Vec<u8>, data: &ParticleData, shape: Shape, blockstates: &IdMapping) -> (r: bool)
    ensures
        match data_bytes(*data, shape, *blockstates) {
            Some(bytes) => r && final(out)@ == old(out)@ + bytes,
            None => !r && final(out)@ == old(out)@,
        },
{
    let ghost start = out@;
    match (shape, *data) {
        (Shape::Empty, _) => {
            assert(out@ =~= start + Seq::<u8>::empty());
        },
        (Shape::Block, ParticleData::Block(state)) => {
            let m = match blockstates.map(state) {
                Some(m) => m,
                None => 0,
            };
            put_var(out, if m <= i32::MAX as u32 { m as i32 } else { 0 });
        },
        (Shape::DustRgb, ParticleData::Dust { rgb, scale }) => {
            put_int(out, rgb);
            put_int(out, scale);
        },
        (Shape::DustFloats, ParticleData::Dust { rgb, scale }) => {
            put_rgb_floats(out, rgb);
            put_int(out, scale);
        },
        (Shape::TransitionRgb, ParticleData::Transition { from, to, scale }) => {
            put_int(out, from);
            put_int(out, to);
            put_int(out, scale);
        },
        (Shape::TransitionScaleLast, ParticleData::Transition { from, to, scale }) => {
            put_rgb_floats(out, from);
            put_rgb_floats(out, to);
            put_int(out, scale);
        },
        (Shape::TransitionScaleMid, ParticleData::Transition { from, to, scale }) => {
            put_rgb_floats(out, from);
            put_int(out, scale);
            put_rgb_floats(out, to);
        },
        (Shape::VibrationTyped, ParticleData::Vibration { source, ticks }) => {
            let kind: i32 = match source {
                VibrationSource::Block(_) => 0,
                VibrationSource::Entity { .. } => 1,
            };
            put_var(out, kind);
            put_source_tail(out, source);
            put_var(out, ticks);
        },
        (Shape::VibrationNamed, ParticleData::Vibration { source, ticks }) => {
            let name = match source {
                VibrationSource::Block(_) => "minecraft:block".as_bytes(),
                VibrationSource::Entity { .. } => "minecraft:entity".as_bytes(),
            };
            proof {
                reveal_strlit("minecraft:block");
                reveal_strlit("minecraft:entity");
                broadcast use vstd::string::is_ascii_spec_bytes;
                assert(vstd::string::is_ascii("minecraft:block"));
                assert(vstd::string::is_ascii("minecraft:entity"));
            }
            write_prefixed(out, name);
            put_source_tail(out, source);
            put_var(out, ticks);
        },
        (Shape::Float, ParticleData::Float(v)) => put_int(out, v),
        (Shape::Delay, ParticleData::Delay(v)) => put_var(out, v),
        (Shape::Color, ParticleData::Color(v)) => put_int(out, v),
        (Shape::Trail, ParticleData::Trail { x, y, z, color, .. }) => {
            put_long(out, x);
            put_long(out, y);
            put_long(out, z);
            put_int(out, color);
        },
        (Shape::TrailWithDuration, ParticleData::Trail { x, y, z, color, duration }) => {
            put_long(out, x);
            put_long(out, y);
            put_long(out, z);
            put_int(out, color);
            put_var(out, duration);
        },
        (Shape::Spell, ParticleData::Spell { color, power }) => {
            put_int(out, color);
            put_int(out, power);
        },
        (Shape::Geyser, ParticleData::Geyser { water_blocks, .. }) => put_int(out, water_blocks),
        (Shape::GeyserBase, ParticleData::Geyser { water_blocks, impulse }) => {
            put_int(out, water_blocks);
            put_int(out, impulse);
        },
        _ => return false,
    }
    assert(out@ =~= start + data_bytes(*data, shape, *blockstates)->Some_0);
    true
}

/// Reads the option data the newest protocol writes for particle `id`.
pub fn read_particle_data(b: &[u8], pos: usize, id: i32, registry: &ParticleRegistry)
    -> (r: Result<(ParticleData, usize), TranslateError>)
    requires
        pos <= b@.len(),
    ensures
        match data_at(b@, pos as int, spec_shape_of(id, V::V_26_3, registry)) {
            Ok((v, p)) => r matches Ok((x, q)) && x == v && q == p && pos <= q <= b@.len(),
            Err(e) => r matches Err(x) && x == e,
        },
{
    read_data(b, pos, shape_of(id, V::V_26_3, registry))
}

/// The particle at `pos` as the newest protocol writes it: its id and the
/// option data that id carries there.
pub open spec fn particle_at(b: Seq<u8>, pos: int, registry: &ParticleRegistry) -> Result<(Particle, int), TranslateError> {
    match var_at(b, pos) {
        Ok((id, p1)) => match data_at(b, p1, spec_shape_of(id, V::V_26_3, registry)) {
            Ok((data, p2)) => Ok((Particle { id, data }, p2)),
            Err(e) => Err(e),
        },
        Err(e) => Err(e),
    }
}

/// Reads the particle at `pos` as the newest protocol writes it.
pub fn read_particle(b: &[u8], pos: usize, registry: &ParticleRegistry) -> (r: Result<(Particle, usize), TranslateError>)
    requires
        pos <= b@.len(),
    ensures
        match particle_at(b@, pos as int, registry) {
            Ok((v, p)) => r matches Ok((x, q)) && x == v && q == p && pos <= q <= b@.len(),
            Err(e) => r matches Err(x) && x == e,
        },
{
    let (id, p1) = match var_field(b, pos) {
        Ok(found) => found,
        Err(e) => return Err(e),
    };
    let shape = shape_of(id, V::V_26_3, registry);
    match read_data(b, p1, shape) {
        Ok((data, p2)) => Ok((Particle { id, data }, p2)),
        Err(e) => Err(e),
    }
}

impl DeepView for Particle {
    type V = Particle;

    open spec fn deep_view(&self) -> Particle {
        *self
    }
}

/// The newest numbering of block states, which the newest protocol writes as
/// it stands.
pub open spec fn newest_states() -> IdMapping {
    IdMapping(Repr::Identity)
}

/// Whether `data`, written in the newest protocol's `shape`, reads back as
/// itself: the shape is one the newest protocol reads, the data is of its
/// kind, a block state fits an `Int`, and a geyser without a base carries no
/// impulse.
pub open spec fn reads_back(data: ParticleData, shape: Shape) -> bool {
    match (shape, data) {
        (Shape::Empty, ParticleData::Empty) => true,
        (Shape::Block, ParticleData::Block(state)) => state <= i32::MAX,
        (Shape::DustRgb, ParticleData::Dust { .. }) => true,
        (Shape::TransitionRgb, ParticleData::Transition { .. }) => true,
        (Shape::VibrationTyped, ParticleData::Vibration { .. }) => true,
        (Shape::Float, ParticleData::Float(_)) => true,
        (Shape::Delay, ParticleData::Delay(_)) => true,
        (Shape::Color, ParticleData::Color(_)) => true,
        (Shape::TrailWithDuration, ParticleData::Trail { .. }) => true,
        (Shape::Spell, ParticleData::Spell { .. }) => true,
        (Shape::Geyser, ParticleData::Geyser { impulse, .. }) => impulse == 0,
        (Shape::GeyserBase, ParticleData::Geyser { .. }) => true,
        _ => false,
    }
}

/// An `Int`, a `VarInt` or a `Long` read at `pos` ends inside the bytes.
proof fn lemma_fields_in_bounds(b: Seq<u8>)
    ensures
        forall|pos: int| #[trigger] field(I32, b, pos) matches Some((_, p)) ==> pos <= p <= b.len(),
        forall|pos: int| #[trigger] field(VAR_INT, b, pos) matches Some((_, p)) ==> pos <= p <= b.len(),
        forall|pos: int| #[trigger] field(I64, b, pos) matches Some((_, p)) ==> pos <= p <= b.len(),
{
    assert forall|pos: int| #[trigger] field(I32, b, pos) is Some
        implies pos <= field(I32, b, pos)->Some_0.1 <= b.len() by {
        I32.lemma_parse_len(rest_of(b, pos));
    }
    assert forall|pos: int| #[trigger] field(VAR_INT, b, pos) is Some
        implies pos <= field(VAR_INT, b, pos)->Some_0.1 <= b.len() by {
        VAR_INT.lemma_parse_len(rest_of(b, pos));
    }
    assert forall|pos: int| #[trigger] field(I64, b, pos) is Some
        implies pos <= field(I64, b, pos)->Some_0.1 <= b.len() by {
        I64.lemma_parse_len(rest_of(b, pos));
    }
}

/// Option data read at `pos` ends inside the bytes.
proof fn lemma_data_in_bounds(b: Seq<u8>, pos: int, shape: Shape)
    ensures
        data_at(b, pos, shape) matches Ok((_, p)) ==> pos <= p <= b.len(),
{
    lemma_fields_in_bounds(b);
}

/// A vibration written at `pos` in the newest protocol and followed by `y`
/// is read as itself.
proof fn lemma_vibration_reads_back(b: Seq<u8>, pos: int, source: VibrationSource, ticks: i32, y: Seq<u8>)
    requires
        0 <= pos <= b.len(),
        b.subrange(pos, b.len() as int) == data_bytes(
            ParticleData::Vibration { source, ticks },
            Shape::VibrationTyped,
            newest_states(),
        )->Some_0 + y,
    ensures
        vibration_at(b, pos) == Ok::<(ParticleData, int), TranslateError>((
            ParticleData::Vibration { source, ticks },
            pos + data_bytes(ParticleData::Vibration { source, ticks }, Shape::VibrationTyped, newest_states())->Some_0.len(),
        )),
{
    let bytes = data_bytes(ParticleData::Vibration { source, ticks }, Shape::VibrationTyped, newest_states())->Some_0;
    let kind: i32 = if source is Block { 0 } else { 1 };
    let p1 = pos + VAR_INT.encode(kind).len();
    let tail = source_tail(source);
    let p2 = p1 + tail.len();
    assert(bytes + y =~= VAR_INT.encode(kind) + (tail + (VAR_INT.encode(ticks) + y)));
    lemma_field_step(VAR_INT, b, pos, kind, tail + (VAR_INT.encode(ticks) + y));
    match source {
        VibrationSource::Block(at) => {
            lemma_field_step(I64, b, p1, at, VAR_INT.encode(ticks) + y);
        },
        VibrationSource::Entity { id, y_offset } => {
            let q = p1 + VAR_INT.encode(id).len();
            assert(tail + (VAR_INT.encode(ticks) + y)
                =~= VAR_INT.encode(id) + (I32.encode(y_offset) + (VAR_INT.encode(ticks) + y)));
            lemma_field_step(VAR_INT, b, p1, id, I32.encode(y_offset) + (VAR_INT.encode(ticks) + y));
            lemma_field_step(I32, b, q, y_offset, VAR_INT.encode(ticks) + y);
        },
    }
    lemma_field_step(VAR_INT, b, p2, ticks, y);
}

/// A trail written at `pos` in the newest protocol and followed by `rest`
/// is read as itself.
proof fn lemma_trail_reads_back(b: Seq<u8>, pos: int, x: i64, ty: i64, z: i64, color: i32, duration: i32, rest: Seq<u8>)
    requires
        0 <= pos <= b.len(),
        b.subrange(pos, b.len() as int)
            == I64.encode(x) + I64.encode(ty) + I64.encode(z) + I32.encode(color) + VAR_INT.encode(duration) + rest,
    ensures
        data_at(b, pos, Shape::TrailWithDuration) == Ok::<(ParticleData, int), TranslateError>((
            ParticleData::Trail { x, y: ty, z, color, duration },
            pos + (I64.encode(x) + I64.encode(ty) + I64.encode(z) + I32.encode(color) + VAR_INT.encode(duration)).len(),
        )),
{
    let p1 = pos + I64.encode(x).len();
    let p2 = p1 + I64.encode(ty).len();
    let p3 = p2 + I64.encode(z).len();
    let p4 = p3 + I32.encode(color).len();
    let r4 = VAR_INT.encode(duration) + rest;
    let r3 = I32.encode(color) + r4;
    let r2 = I64.encode(z) + r3;
    let r1 = I64.encode(ty) + r2;
    assert(I64.encode(x) + I64.encode(ty) + I64.encode(z) + I32.encode(color) + VAR_INT.encode(duration) + rest
        =~= I64.encode(x) + r1);
    lemma_field_step(I64, b, pos, x, r1);
    lemma_field_step(I64, b, p1, ty, r2);
    lemma_field_step(I64, b, p2, z, r3);
    lemma_field_step(I32, b, p3, color, r4);
    lemma_field_step(VAR_INT, b, p4, duration, rest);
}

/// Two `Int`s written at `pos` and followed by `y` are read as themselves.
proof fn lemma_two_ints(b: Seq<u8>, pos: int, u: i32, v: i32, y: Seq<u8>)
    requires
        0 <= pos <= b.len(),
        b.subrange(pos, b.len() as int) == I32.encode(u) + I32.encode(v) + y,
    ensures
        int_at(b, pos) == Ok::<(i32, int), TranslateError>((u, pos + I32.encode(u).len())),
        int_at(b, pos + I32.encode(u).len()) == Ok::<(i32, int), TranslateError>(
            (v, pos + (I32.encode(u) + I32.encode(v)).len())),
        b.subrange(pos + (I32.encode(u) + I32.encode(v)).len(), b.len() as int) == y,
{
    assert(I32.encode(u) + I32.encode(v) + y =~= I32.encode(u) + (I32.encode(v) + y));
    lemma_field_step(I32, b, pos, u, I32.encode(v) + y);
    lemma_field_step(I32, b, pos + I32.encode(u).len(), v, y);
}

/// Option data that reads back, written at `pos` and followed by `y`, is
/// read as itself, and the read ends where `y` starts.
#[verifier::spinoff_prover]
proof fn lemma_data_reads_back(b: Seq<u8>, pos: int, data: ParticleData, shape: Shape, bytes: Seq<u8>, y: Seq<u8>)
    requires
        0 <= pos <= b.len(),
        reads_back(data, shape),
        data_bytes(data, shape, newest_states()) == Some(bytes),
        b.subrange(pos, b.len() as int) == bytes + y,
    ensures
        data_at(b, pos, shape) == Ok::<(ParticleData, int), TranslateError>((data, pos + bytes.len())),
{
    match data {
        ParticleData::Empty => {},
        ParticleData::Block(state) => {
            lemma_field_step(VAR_INT, b, pos, state as i32, y);
        },
        ParticleData::Dust { rgb, scale } => {
            lemma_two_ints(b, pos, rgb, scale, y);
        },
        ParticleData::Transition { from, to, scale } => {
            assert(bytes + y =~= I32.encode(from) + I32.encode(to) + (I32.encode(scale) + y));
            lemma_two_ints(b, pos, from, to, I32.encode(scale) + y);
            lemma_field_step(I32, b, pos + (I32.encode(from) + I32.encode(to)).len(), scale, y);
        },
        ParticleData::Vibration { source, ticks } => {
            lemma_vibration_reads_back(b, pos, source, ticks, y);
        },
        ParticleData::Float(v) => {
            lemma_field_step(I32, b, pos, v, y);
        },
        ParticleData::Delay(v) => {
            lemma_field_step(VAR_INT, b, pos, v, y);
        },
        ParticleData::Color(v) => {
            lemma_field_step(I32, b, pos, v, y);
        },
        ParticleData::Trail { x, y: ty, z, color, duration } => {
            lemma_trail_reads_back(b, pos, x, ty, z, color, duration, y);
        },
        ParticleData::Spell { color, power } => {
            lemma_two_ints(b, pos, color, power, y);
        },
        ParticleData::Geyser { water_blocks, impulse } => {
            if shape == Shape::Geyser {
                lemma_field_step(I32, b, pos, water_blocks, y);
            } else {
                lemma_two_ints(b, pos, water_blocks, impulse, y);
            }
        },
    }
}

/// One particle as the newest protocol writes it: the id and the option data
/// the registry's name for it carries.
pub struct ParticleT<'a>(pub &'a ParticleRegistry);

impl<'a> ParticleT<'a> {
    /// The bytes of the option data of `v` in the newest protocol.
    pub open spec fn data_of(&self, v: Particle) -> Option<Seq<u8>> {
        data_bytes(v.data, spec_shape_of(v.id, V::V_26_3, self.0), newest_states())
    }
}

impl<'a> WireType for ParticleT<'a> {
    type Value = Particle;

    open spec fn parse(&self, s: Seq<u8>) -> Option<(Particle, nat)> {
        match particle_at(s, 0, self.0) {
            Ok((v, n)) => Some((v, n as nat)),
            Err(_) => None,
        }
    }

    open spec fn encode(&self, v: Particle) -> Seq<u8> {
        match self.data_of(v) {
            Some(data) => VAR_INT.encode(v.id) + data,
            None => VAR_INT.encode(v.id),
        }
    }

    open spec fn writable(&self, v: Particle) -> bool {
        self.data_of(v) is Some
    }

    open spec fn well_formed(&self, v: Particle) -> bool {
        reads_back(v.data, spec_shape_of(v.id, V::V_26_3, self.0))
    }

    open spec fn reads_to_end(&self) -> bool {
        false
    }

    proof fn lemma_parse_len(&self, s: Seq<u8>) {
        lemma_fields_in_bounds(s);
        if let Ok((id, p1)) = var_at(s, 0) {
            lemma_data_in_bounds(s, p1, spec_shape_of(id, V::V_26_3, self.0));
        }
    }

    proof fn lemma_round_trip(&self, v: Particle, rest: Seq<u8>) {
        let shape = spec_shape_of(v.id, V::V_26_3, self.0);
        let data = self.data_of(v)->Some_0;
        let b = self.encode(v) + rest;
        assert(b.subrange(0, b.len() as int) =~= VAR_INT.encode(v.id) + (data + rest));
        lemma_field_step(VAR_INT, b, 0, v.id, data + rest);
        lemma_data_reads_back(b, VAR_INT.encode(v.id).len() as int, v.data, shape, data, rest);
    }

    fn read(&self, buf: &[u8], pos: usize) -> (r: Option<(Particle, usize)>) {
        let rest = copy_range(buf, pos, buf.len());
        match read_particle(rest.as_slice(), 0, self.0) {
            Ok((particle, n)) => Some((particle, pos + n)),
            Err(_) => None,
        }
    }

    fn write(&self, out: &mut Vec<u8>, v: &Particle) -> (r: bool) {
        let mut data: Vec<u8> = Vec::new();
        let newest = IdMapping(Repr::Identity);
        if !write_data(&mut data, &v.data, shape_of(v.id, V::V_26_3, self.0), &newest) {
            return false;
        }
        put_var(out, v.id);
        append_bytes(out, data.as_slice());
        true
    }
}

/// The bytes of `particle` for a client on `layout`: its id renumbered and
/// its option data in the shape the client reads for that id; `None` where
/// the client has no particle to show it as or cannot be told its data.
pub open spec fn particle_bytes(
    particle: Particle,
    layout: V,
    registry: &ParticleRegistry,
    ids: &ComposedMappings,
) -> Option<Seq<u8>> {
    match map_id(ids.particles, particle.id) {
        Some(mapped) => match data_bytes(
            particle.data,
            spec_mapped_shape(mapped as u32, layout, registry, ids.particles),
            ids.blockstates,
        ) {
            Some(data) => Some(VAR_INT.encode(mapped) + data),
            None => None,
        },
        None => None,
    }
}

/// Writes `particle` in the client's numbering and option data shape;
/// `false`, with nothing written, when the client cannot be told about it.
pub fn write_particle(
    out: &mut Vec<u8>,
    particle: &Particle,
    layout: V,
    registry: &ParticleRegistry,
    ids: &ComposedMappings,
) -> (r: bool)
    ensures
        match particle_bytes(*particle, layout, registry, ids) {
            Some(bytes) => r && final(out)@ == old(out)@ + bytes,
            None => !r && final(out)@ == old(out)@,
        },
{
    let mapped = match mapped_id(&ids.particles, particle.id) {
        Some(m) => m,
        None => return false,
    };
    let shape = mapped_shape(mapped as u32, layout, registry, &ids.particles);
    let mut data: Vec<u8> = Vec::new();
    if !write_data(&mut data, &particle.data, shape, &ids.blockstates) {
        return false;
    }
    put_var(out, mapped);
    append_bytes(out, data.as_slice());
    true
}

/// What copying one particle across does to a wrapper: the particle is read,
/// and written renumbered where the client can be told about it; `false`
/// where it cannot, with nothing written.
pub open spec fn rewrite_particle_view(
    w: WrapperView,
    layout: V,
    registry: &ParticleRegistry,
    ids: &ComposedMappings,
) -> (Result<bool, TranslateError>, WrapperView) {
    match particle_at(w.remaining(), 0, registry) {
        Ok((particle, n)) => match particle_bytes(particle, layout, registry, ids) {
            Some(bytes) => (Ok(true), w.consumed(n as nat).written(bytes)),
            None => (Ok(false), w.consumed(n as nat)),
        },
        Err(e) => (Err(e), w),
    }
}

/// Copies one particle across, renumbering it and rewriting its option data.
pub fn rewrite_particle(
    wrapper: &mut PacketWrapper,
    layout: V,
    registry: &ParticleRegistry,
    ids: &ComposedMappings,
) -> (r: Result<bool, TranslateError>)
    ensures
        final(wrapper)@.wf(),
        match rewrite_particle_view(old(wrapper)@, layout, registry, ids) {
            (Ok(b), w) => r == Ok::<bool, TranslateError>(b) && final(wrapper)@ == w,
            (Err(e), w) => r matches Err(x) && x == e && final(wrapper)@ == w,
        },
{
    let (particle, n) = match read_particle(wrapper.remaining(), 0, registry) {
        Ok(found) => found,
        Err(e) => return Err(e),
    };
    let _ = wrapper.read(&FixedBytesT(n));
    let mut out: Vec<u8> = Vec::new();
    if !write_particle(&mut out, &particle, layout, registry, ids) {
        return Ok(false);
    }
    wrapper.write_bytes(out.as_slice());
    proof { assert(out@ =~= Seq::<u8>::empty() + out@); }
    Ok(true)
}

/// What copying a sound holder across does to a wrapper: an inline sound
/// (an id of zero, then its name and optional range) is copied; a registry
/// sound, written as its id plus one, is renumbered through `sounds`, and
/// `false` where the client lacks it.
pub open spec fn sound_holder_view(w: WrapperView, sounds: IdMapping) -> (Result<bool, TranslateError>, WrapperView) {
    match take_view(VAR_INT, w, false) {
        (Ok(holder), w1) => if holder == 0 {
            match take_view(STRING, w1.written(VAR_INT.encode(0)), true) {
                (Ok(_), w2) => match take_view(BOOL, w2, true) {
                    (Ok(ranged), w3) => if ranged {
                        match take_view(I32, w3, true) {
                            (Ok(_), w4) => (Ok(true), w4),
                            (Err(e), w4) => (Err(e), w4),
                        }
                    } else {
                        (Ok(true), w3)
                    },
                    (Err(e), w3) => (Err(e), w3),
                },
                (Err(e), w2) => (Err(e), w2),
            }
        } else {
            match sound_id(sounds, holder) {
                Some(m) => (Ok(true), w1.written(VAR_INT.encode(m))),
                None => (Ok(false), w1),
            }
        },
        (Err(e), w1) => (Err(e), w1),
    }
}

/// A registry sound's holder, its id plus one, renumbered through `sounds`.
pub open spec fn sound_id(sounds: IdMapping, holder: i32) -> Option<i32> {
    if holder <= 0 {
        None
    } else {
        match map_id(sounds, (holder - 1) as i32) {
            Some(m) => if m < i32::MAX { Some((m + 1) as i32) } else { None },
            None => None,
        }
    }
}

/// Copies a sound holder across, renumbering a registry sound.
pub fn rewrite_sound_holder(wrapper: &mut PacketWrapper, sounds: &IdMapping) -> (r: Result<bool, TranslateError>)
    ensures
        final(wrapper)@.wf(),
        match sound_holder_view(old(wrapper)@, *sounds) {
            (Ok(b), w) => r == Ok::<bool, TranslateError>(b) && final(wrapper)@ == w,
            (Err(e), w) => r matches Err(x) && x == e && final(wrapper)@ == w,
        },
{
    let holder = match wrapper.read(&VAR_INT) {
        Ok(v) => v,
        Err(e) => return Err(e),
    };
    if holder == 0 {
        put_holder(wrapper, 0);
        if let Err(e) = take(wrapper, &STRING, true) {
            return Err(e);
        }
        let ranged = match take(wrapper, &BOOL, true) {
            Ok(v) => v,
            Err(e) => return Err(e),
        };
        if ranged {
            if let Err(e) = take(wrapper, &I32, true) {
                return Err(e);
            }
        }
        return Ok(true);
    }
    if holder < 0 {
        return Ok(false);
    }
    match mapped_id(sounds, holder - 1) {
        Some(m) => {
            if m < i32::MAX {
                put_holder(wrapper, m + 1);
                Ok(true)
            } else {
                Ok(false)
            }
        },
        None => Ok(false),
    }
}

fn put_holder(wrapper: &mut PacketWrapper, v: i32)
    ensures
        final(wrapper)@ == old(wrapper)@.written(VAR_INT.encode(v)),
        final(wrapper)@.wf(),
{
    let _ = wrapper.write(&VAR_INT, &v);
}

/// What copying `n` values of `t` across does to a wrapper.
pub open spec fn pass_times<T: WireType>(t: T, w: WrapperView, n: nat) -> (Result<(), TranslateError>, WrapperView)
    decreases n,
{
    if n == 0 {
        (Ok(()), w)
    } else {
        match take_view(t, w, true) {
            (Ok(_), w1) => pass_times(t, w1, (n - 1) as nat),
            (Err(e), w1) => (Err(e), w1),
        }
    }
}

/// Copies `n` values of `t` across.
pub fn pass_n<T: WireType>(wrapper: &mut PacketWrapper, t: &T, n: u64) -> (r: Result<(), TranslateError>)
    ensures
        final(wrapper)@.wf(),
        match pass_times(*t, old(wrapper)@, n as nat) {
            (Ok(_), w) => r is Ok && final(wrapper)@ == w,
            (Err(e), w) => r matches Err(x) && x == e && final(wrapper)@ == w,
        },
{
    let mut left = n;
    let _ = wrapper.packet();
    while left > 0
        invariant
            wrapper@.wf(),
            pass_times(*t, old(wrapper)@, n as nat) == pass_times(*t, wrapper@, left as nat),
        decreases left,
    {
        if let Err(e) = take(wrapper, t, true) {
            return Err(e);
        }
        left = left - 1;
    }
    Ok(())
}

/// Whether a float's bits are zero, of either sign.
pub open spec fn is_zero_float(bits: i32) -> bool {
    bits == 0 || bits == i32::MIN
}

/// The speed a `LEVEL_PARTICLES` below 1.20.5 carries: an `entity_effect`
/// with no option data in the client's shape, a colour and no speed takes
/// the colour, as a float, for its speed.
pub open spec fn adjusted_speed(speed: i32, id: i32, data: ParticleData, shape: Shape, registry: &ParticleRegistry) -> i32 {
    if data is Color && id >= 0 && registry.spec_id_of(ParticleName::EntityEffect) == Some(id as nat)
        && shape == Shape::Empty && is_zero_float(speed) {
        int_float_bits(data->Color_0) as i32
    } else {
        speed
    }
}

/// The id field of a `LEVEL_PARTICLES` below 1.20.5: a `VarInt` from 1.19,
/// an `i32` below.
pub open spec fn id_field_view(w: WrapperView, layout: V) -> (Result<i32, TranslateError>, WrapperView) {
    if layout.spec_at_least(V::V_1_19) { take_view(VAR_INT, w, false) } else { take_view(I32, w, false) }
}

/// A `LEVEL_PARTICLES` below 1.20.5 after its id: the long distance flag,
/// position and offsets copied, the speed and count read, and the option
/// data, which runs to the end of the payload.
pub open spec fn old_particles_view(
    w: WrapperView,
    id: i32,
    mapped: i32,
    layout: V,
    registry: &ParticleRegistry,
    ids: &ComposedMappings,
) -> (Result<(), TranslateError>, WrapperView) {
    match take_view(BOOL, w, true) {
        (Ok(_), w1) => match (if layout.spec_at_least(V::V_1_15) { pass_times(I64, w1, 3) } else { pass_times(I32, w1, 3) }) {
            (Ok(_), w2) => match pass_times(I32, w2, 3) {
                (Ok(_), w3) => match take_view(I32, w3, false) {
                    (Ok(speed), w4) => match take_view(I32, w4, false) {
                        (Ok(count), w5) => match data_at(w5.remaining(), 0, spec_shape_of(id, V::V_26_3, registry)) {
                            Ok((data, n)) => if n < w5.remaining().len() {
                                (Err(TranslateError::TrailingBytes((w5.remaining().len() - n) as usize)), w5)
                            } else {
                                let shape = spec_mapped_shape(mapped as u32, layout, registry, ids.particles);
                                let w6 = w5.consumed(w5.remaining().len())
                                    .written(I32.encode(adjusted_speed(speed, id, data, shape, registry)))
                                    .written(I32.encode(count));
                                match data_bytes(data, shape, ids.blockstates) {
                                    Some(bytes) => (Ok(()), w6.written(bytes)),
                                    None => (Ok(()), cancelled(w6)),
                                }
                            },
                            Err(e) => (Err(e), w5),
                        },
                        (Err(e), w5) => (Err(e), w5),
                    },
                    (Err(e), w4) => (Err(e), w4),
                },
                (Err(e), w3) => (Err(e), w3),
            },
            (Err(e), w2) => (Err(e), w2),
        },
        (Err(e), w1) => (Err(e), w1),
    }
}

/// What `level_particles` does to a wrapper. The particle leads from 26.3,
/// and is the last field from 1.20.5, with the id after the count; below it
/// the id leads and the option data trails. A particle the client cannot be
/// told about drops the packet.
pub open spec fn level_particles_view(
    w: WrapperView,
    layout: V,
    registry: &ParticleRegistry,
    ids: &ComposedMappings,
) -> (Result<(), TranslateError>, WrapperView) {
    if layout.spec_at_least(V::V_26_3) {
        match rewrite_particle_view(w, layout, registry, ids) {
            (Ok(true), w1) => (Ok(()), w1.passed_through()),
            (Ok(false), w1) => (Ok(()), cancelled(w1)),
            (Err(e), w1) => (Err(e), w1),
        }
    } else if layout.spec_at_least(V::V_1_20_5) {
        match take_view(BOOL, w, true) {
            (Ok(_), w1) => match (if layout.spec_at_least(V::V_1_21_4) { take_view(BOOL, w1, true) } else { (Ok(false), w1) }) {
                (Ok(_), w2) => match pass_times(I64, w2, 3) {
                    (Ok(_), w3) => match pass_times(I32, w3, 4) {
                        (Ok(_), w4) => match take_view(I32, w4, true) {
                            (Ok(_), w5) => match rewrite_particle_view(w5, layout, registry, ids) {
                                (Ok(true), w6) => (Ok(()), w6),
                                (Ok(false), w6) => (Ok(()), cancelled(w6)),
                                (Err(e), w6) => (Err(e), w6),
                            },
                            (Err(e), w5) => (Err(e), w5),
                        },
                        (Err(e), w4) => (Err(e), w4),
                    },
                    (Err(e), w3) => (Err(e), w3),
                },
                (Err(e), w2) => (Err(e), w2),
            },
            (Err(e), w1) => (Err(e), w1),
        }
    } else {
        match id_field_view(w, layout) {
            (Ok(id), w1) => match map_id(ids.particles, id) {
                Some(mapped) => {
                    let id_bytes = if layout.spec_at_least(V::V_1_19) { VAR_INT.encode(mapped) } else { I32.encode(mapped) };
                    old_particles_view(w1.written(id_bytes), id, mapped, layout, registry, ids)
                },
                None => (Ok(()), cancelled(w1)),
            },
            (Err(e), w1) => (Err(e), w1),
        }
    }
}

fn pass_position(wrapper: &mut PacketWrapper, layout: V) -> (r: Result<(), TranslateError>)
    ensures
        final(wrapper)@.wf(),
        match (if layout.spec_at_least(V::V_1_15) { pass_times(I64, old(wrapper)@, 3) } else { pass_times(I32, old(wrapper)@, 3) }) {
            (Ok(_), w) => r is Ok && final(wrapper)@ == w,
            (Err(e), w) => r matches Err(x) && x == e && final(wrapper)@ == w,
        },
{
    if layout.at_least(V::V_1_15) { pass_n(wrapper, &I64, 3) } else { pass_n(wrapper, &I32, 3) }
}

fn old_particles(
    wrapper: &mut PacketWrapper,
    id: i32,
    mapped: i32,
    layout: V,
    registry: &ParticleRegistry,
    ids: &ComposedMappings,
) -> (r: Result<(), TranslateError>)
    ensures
        final(wrapper)@.wf(),
        match old_particles_view(old(wrapper)@, id, mapped, layout, registry, ids) {
            (Ok(_), w) => r is Ok && final(wrapper)@ == w,
            (Err(e), w) => r matches Err(x) && x == e && final(wrapper)@ == w,
        },
{
    if let Err(e) = take(wrapper, &BOOL, true) {
        return Err(e);
    }
    if let Err(e) = pass_position(wrapper, layout) {
        return Err(e);
    }
    if let Err(e) = pass_n(wrapper, &I32, 3) {
        return Err(e);
    }
    let speed = match take(wrapper, &I32, false) {
        Ok(v) => v,
        Err(e) => return Err(e),
    };
    let count = match take(wrapper, &I32, false) {
        Ok(v) => v,
        Err(e) => return Err(e),
    };
    let shape_now = shape_of(id, V::V_26_3, registry);
    let (data, n) = match read_data(wrapper.remaining(), 0, shape_now) {
        Ok(found) => found,
        Err(e) => return Err(e),
    };
    let left = wrapper.remaining().len();
    if n < left {
        return Err(TranslateError::TrailingBytes(left - n));
    }
    wrapper.consume_remaining();
    let shape = mapped_shape(mapped as u32, layout, registry, &ids.particles);
    let is_effect = match registry.id_of(ParticleName::EntityEffect) {
        Some(k) => id >= 0 && k == id as usize,
        None => false,
    };
    let speed = match data {
        ParticleData::Color(colour) => {
            if is_effect && shape == Shape::Empty && (speed == 0 || speed == i32::MIN) {
                int_to_float_bits(colour) as i32
            } else {
                speed
            }
        },
        _ => speed,
    };
    let _ = wrapper.write(&I32, &speed);
    let _ = wrapper.write(&I32, &count);
    let mut out: Vec<u8> = Vec::new();
    if write_data(&mut out, &data, shape, &ids.blockstates) {
        proof { assert(out@ =~= Seq::<u8>::empty() + out@); }
        wrapper.write_bytes(out.as_slice());
    } else {
        wrapper.cancel();
    }
    Ok(())
}

/// Rewrites a `LEVEL_PARTICLES` for a client on `layout`: the particle is
/// renumbered and its option data put in the shape the client reads.
pub fn level_particles(
    wrapper: &mut PacketWrapper,
    layout: V,
    registry: &ParticleRegistry,
    ids: &ComposedMappings,
) -> (r: Result<(), TranslateError>)
    ensures
        final(wrapper)@.wf(),
        match level_particles_view(old(wrapper)@, layout, registry, ids) {
            (Ok(_), w) => r is Ok && final(wrapper)@ == w,
            (Err(e), w) => r matches Err(x) && x == e && final(wrapper)@ == w,
        },
{
    if layout.at_least(V::V_26_3) {
        match rewrite_particle(wrapper, layout, registry, ids) {
            Ok(true) => {
                wrapper.passthrough_all();
                return Ok(());
            },
            Ok(false) => {
                wrapper.cancel();
                return Ok(());
            },
            Err(e) => return Err(e),
        }
    }
    if layout.at_least(V::V_1_20_5) {
        if let Err(e) = take(wrapper, &BOOL, true) {
            return Err(e);
        }
        if layout.at_least(V::V_1_21_4) {
            if let Err(e) = take(wrapper, &BOOL, true) {
                return Err(e);
            }
        }
        if let Err(e) = pass_n(wrapper, &I64, 3) {
            return Err(e);
        }
        if let Err(e) = pass_n(wrapper, &I32, 4) {
            return Err(e);
        }
        if let Err(e) = take(wrapper, &I32, true) {
            return Err(e);
        }
        match rewrite_particle(wrapper, layout, registry, ids) {
            Ok(true) => return Ok(()),
            Ok(false) => {
                wrapper.cancel();
                return Ok(());
            },
            Err(e) => return Err(e),
        }
    }
    let id = if layout.at_least(V::V_1_19) {
        match take(wrapper, &VAR_INT, false) {
            Ok(v) => v,
            Err(e) => return Err(e),
        }
    } else {
        match take(wrapper, &I32, false) {
            Ok(v) => v,
            Err(e) => return Err(e),
        }
    };
    let mapped = match mapped_id(&ids.particles, id) {
        Some(m) => m,
        None => {
            wrapper.cancel();
            return Ok(());
        },
    };
    if layout.at_least(V::V_1_19) {
        let _ = wrapper.write(&VAR_INT, &mapped);
    } else {
        let _ = wrapper.write(&I32, &mapped);
    }
    old_particles(wrapper, id, mapped, layout, registry, ids)
}

/// The block particles of a 1.21.9 explosion, `n` of them: each a particle,
/// two floats and a `VarInt`. `false` at the first particle the client
/// cannot be told about.
pub open spec fn block_particles_view(
    w: WrapperView,
    n: nat,
    layout: V,
    registry: &ParticleRegistry,
    ids: &ComposedMappings,
) -> (Result<bool, TranslateError>, WrapperView)
    decreases n,
{
    if n == 0 {
        (Ok(true), w)
    } else {
        match rewrite_particle_view(w, layout, registry, ids) {
            (Ok(true), w1) => match pass_times(I32, w1, 2) {
                (Ok(_), w2) => match take_view(VAR_INT, w2, true) {
                    (Ok(_), w3) => block_particles_view(w3, (n - 1) as nat, layout, registry, ids),
                    (Err(e), w3) => (Err(e), w3),
                },
                (Err(e), w2) => (Err(e), w2),
            },
            (Ok(false), w1) => (Ok(false), w1),
            (Err(e), w1) => (Err(e), w1),
        }
    }
}

fn block_particles(
    wrapper: &mut PacketWrapper,
    n: i32,
    layout: V,
    registry: &ParticleRegistry,
    ids: &ComposedMappings,
) -> (r: Result<bool, TranslateError>)
    ensures
        final(wrapper)@.wf(),
        match block_particles_view(old(wrapper)@, run_count(n), layout, registry, ids) {
            (Ok(b), w) => r == Ok::<bool, TranslateError>(b) && final(wrapper)@ == w,
            (Err(e), w) => r matches Err(x) && x == e && final(wrapper)@ == w,
        },
{
    let mut left: i32 = if n < 0 { 0 } else { n };
    let _ = wrapper.packet();
    while left > 0
        invariant
            wrapper@.wf(),
            left >= 0,
            block_particles_view(old(wrapper)@, run_count(n), layout, registry, ids)
                == block_particles_view(wrapper@, left as nat, layout, registry, ids),
        decreases left,
    {
        match rewrite_particle(wrapper, layout, registry, ids) {
            Ok(true) => {},
            Ok(false) => return Ok(false),
            Err(e) => return Err(e),
        }
        if let Err(e) = pass_n(wrapper, &I32, 2) {
            return Err(e);
        }
        if let Err(e) = take(wrapper, &VAR_INT, true) {
            return Err(e);
        }
        left = left - 1;
    }
    Ok(true)
}

/// An explosion from 1.21.2 after its knockback: the particle, the sound,
/// and from 1.21.9 the block particles; whatever the client cannot be told
/// about drops the packet.
pub open spec fn explosion_effects_view(
    w: WrapperView,
    layout: V,
    registry: &ParticleRegistry,
    ids: &ComposedMappings,
) -> (Result<(), TranslateError>, WrapperView) {
    match rewrite_particle_view(w, layout, registry, ids) {
        (Ok(true), w1) => match sound_holder_view(w1, ids.sounds) {
            (Ok(true), w2) => if layout.spec_at_least(V::V_1_21_9) {
                match take_view(VAR_INT, w2, true) {
                    (Ok(n), w3) => match block_particles_view(w3, run_count(n), layout, registry, ids) {
                        (Ok(true), w4) => (Ok(()), w4.passed_through()),
                        (Ok(false), w4) => (Ok(()), cancelled(w4)),
                        (Err(e), w4) => (Err(e), w4),
                    },
                    (Err(e), w3) => (Err(e), w3),
                }
            } else {
                (Ok(()), w2.passed_through())
            },
            (Ok(false), w2) => (Ok(()), cancelled(w2)),
            (Err(e), w2) => (Err(e), w2),
        },
        (Ok(false), w1) => (Ok(()), cancelled(w1)),
        (Err(e), w1) => (Err(e), w1),
    }
}

/// An explosion from 1.21.2: the centre, from 1.21.9 a radius and a block
/// count, an optional knockback, then the effects.
pub open spec fn new_explosion_view(
    w: WrapperView,
    layout: V,
    registry: &ParticleRegistry,
    ids: &ComposedMappings,
) -> (Result<(), TranslateError>, WrapperView) {
    match pass_times(I64, w, 3) {
        (Ok(_), w1) => match (if layout.spec_at_least(V::V_1_21_9) { pass_times(I32, w1, 2) } else { (Ok(()), w1) }) {
            (Ok(_), w2) => match take_view(BOOL, w2, true) {
                (Ok(knockback), w3) => match (if knockback { pass_times(I64, w3, 3) } else { (Ok(()), w3) }) {
                    (Ok(_), w4) => explosion_effects_view(w4, layout, registry, ids),
                    (Err(e), w4) => (Err(e), w4),
                },
                (Err(e), w3) => (Err(e), w3),
            },
            (Err(e), w2) => (Err(e), w2),
        },
        (Err(e), w1) => (Err(e), w1),
    }
}

/// The particles and sound of an explosion from 1.20.3 to 1.21: a block
/// interaction, two particles, and from 1.20.5 the sound by id.
pub open spec fn older_effects_view(
    w: WrapperView,
    layout: V,
    registry: &ParticleRegistry,
    ids: &ComposedMappings,
) -> (Result<(), TranslateError>, WrapperView) {
    match take_view(VAR_INT, w, true) {
        (Ok(_), w1) => match rewrite_particle_view(w1, layout, registry, ids) {
            (Ok(true), w2) => match rewrite_particle_view(w2, layout, registry, ids) {
                (Ok(true), w3) => if layout.spec_at_least(V::V_1_20_5) {
                    match sound_holder_view(w3, ids.sounds) {
                        (Ok(true), w4) => (Ok(()), w4.passed_through()),
                        (Ok(false), w4) => (Ok(()), cancelled(w4)),
                        (Err(e), w4) => (Err(e), w4),
                    }
                } else {
                    (Ok(()), w3.passed_through())
                },
                (Ok(false), w3) => (Ok(()), cancelled(w3)),
                (Err(e), w3) => (Err(e), w3),
            },
            (Ok(false), w2) => (Ok(()), cancelled(w2)),
            (Err(e), w2) => (Err(e), w2),
        },
        (Err(e), w1) => (Err(e), w1),
    }
}

/// The block count of an explosion below 1.21.2: a `VarInt` from 1.17, an
/// `i32` below.
pub open spec fn block_count_view(w: WrapperView, layout: V) -> (Result<i32, TranslateError>, WrapperView) {
    if layout.spec_at_least(V::V_1_17) { take_view(VAR_INT, w, true) } else { take_view(I32, w, true) }
}

/// An explosion below 1.21.2: the centre (doubles from 1.19.3), the radius,
/// the blocks as three bytes each, the knockback, and from 1.20.3 the
/// effects; the rest is copied.
pub open spec fn old_explosion_view(
    w: WrapperView,
    layout: V,
    registry: &ParticleRegistry,
    ids: &ComposedMappings,
) -> (Result<(), TranslateError>, WrapperView) {
    match (if layout.spec_at_least(V::V_1_19_3) { pass_times(I64, w, 3) } else { pass_times(I32, w, 3) }) {
        (Ok(_), w1) => match take_view(I32, w1, true) {
            (Ok(_), w2) => match block_count_view(w2, layout) {
                (Ok(blocks), w3) => match pass_times(I8, w3, 3 * run_count(blocks)) {
                    (Ok(_), w4) => match pass_times(I32, w4, 3) {
                        (Ok(_), w5) => if layout.spec_at_least(V::V_1_20_3) {
                            older_effects_view(w5, layout, registry, ids)
                        } else {
                            (Ok(()), w5.passed_through())
                        },
                        (Err(e), w5) => (Err(e), w5),
                    },
                    (Err(e), w4) => (Err(e), w4),
                },
                (Err(e), w3) => (Err(e), w3),
            },
            (Err(e), w2) => (Err(e), w2),
        },
        (Err(e), w1) => (Err(e), w1),
    }
}

/// What `explode` does to a wrapper: its particles and sound are renumbered
/// and everything around them copied.
pub open spec fn explode_view(
    w: WrapperView,
    layout: V,
    registry: &ParticleRegistry,
    ids: &ComposedMappings,
) -> (Result<(), TranslateError>, WrapperView) {
    if layout.spec_at_least(V::V_1_21_2) {
        new_explosion_view(w, layout, registry, ids)
    } else {
        old_explosion_view(w, layout, registry, ids)
    }
}

fn explosion_effects(
    wrapper: &mut PacketWrapper,
    layout: V,
    registry: &ParticleRegistry,
    ids: &ComposedMappings,
) -> (r: Result<(), TranslateError>)
    ensures
        final(wrapper)@.wf(),
        match explosion_effects_view(old(wrapper)@, layout, registry, ids) {
            (Ok(_), w) => r is Ok && final(wrapper)@ == w,
            (Err(e), w) => r matches Err(x) && x == e && final(wrapper)@ == w,
        },
{
    match rewrite_particle(wrapper, layout, registry, ids) {
        Ok(true) => {},
        Ok(false) => {
            wrapper.cancel();
            return Ok(());
        },
        Err(e) => return Err(e),
    }
    match rewrite_sound_holder(wrapper, &ids.sounds) {
        Ok(true) => {},
        Ok(false) => {
            wrapper.cancel();
            return Ok(());
        },
        Err(e) => return Err(e),
    }
    if layout.at_least(V::V_1_21_9) {
        let n = match take(wrapper, &VAR_INT, true) {
            Ok(v) => v,
            Err(e) => return Err(e),
        };
        match block_particles(wrapper, n, layout, registry, ids) {
            Ok(true) => {},
            Ok(false) => {
                wrapper.cancel();
                return Ok(());
            },
            Err(e) => return Err(e),
        }
    }
    wrapper.passthrough_all();
    Ok(())
}

fn older_effects(
    wrapper: &mut PacketWrapper,
    layout: V,
    registry: &ParticleRegistry,
    ids: &ComposedMappings,
) -> (r: Result<(), TranslateError>)
    ensures
        final(wrapper)@.wf(),
        match older_effects_view(old(wrapper)@, layout, registry, ids) {
            (Ok(_), w) => r is Ok && final(wrapper)@ == w,
            (Err(e), w) => r matches Err(x) && x == e && final(wrapper)@ == w,
        },
{
    if let Err(e) = take(wrapper, &VAR_INT, true) {
        return Err(e);
    }
    match rewrite_particle(wrapper, layout, registry, ids) {
        Ok(true) => {},
        Ok(false) => {
            wrapper.cancel();
            return Ok(());
        },
        Err(e) => return Err(e),
    }
    match rewrite_particle(wrapper, layout, registry, ids) {
        Ok(true) => {},
        Ok(false) => {
            wrapper.cancel();
            return Ok(());
        },
        Err(e) => return Err(e),
    }
    if layout.at_least(V::V_1_20_5) {
        match rewrite_sound_holder(wrapper, &ids.sounds) {
            Ok(true) => {},
            Ok(false) => {
                wrapper.cancel();
                return Ok(());
            },
            Err(e) => return Err(e),
        }
    }
    wrapper.passthrough_all();
    Ok(())
}

/// Rewrites an `EXPLODE` for a client on `layout`, renumbering its particles
/// and sound.
pub fn explode(
    wrapper: &mut PacketWrapper,
    layout: V,
    registry: &ParticleRegistry,
    ids: &ComposedMappings,
) -> (r: Result<(), TranslateError>)
    ensures
        final(wrapper)@.wf(),
        match explode_view(old(wrapper)@, layout, registry, ids) {
            (Ok(_), w) => r is Ok && final(wrapper)@ == w,
            (Err(e), w) => r matches Err(x) && x == e && final(wrapper)@ == w,
        },
{
    if layout.at_least(V::V_1_21_2) {
        if let Err(e) = pass_n(wrapper, &I64, 3) {
            return Err(e);
        }
        if layout.at_least(V::V_1_21_9) {
            if let Err(e) = pass_n(wrapper, &I32, 2) {
                return Err(e);
            }
        }
        let knockback = match take(wrapper, &BOOL, true) {
            Ok(v) => v,
            Err(e) => return Err(e),
        };
        if knockback {
            if let Err(e) = pass_n(wrapper, &I64, 3) {
                return Err(e);
            }
        }
        return explosion_effects(wrapper, layout, registry, ids);
    }
    let centre = if layout.at_least(V::V_1_19_3) { pass_n(wrapper, &I64, 3) } else { pass_n(wrapper, &I32, 3) };
    if let Err(e) = centre {
        return Err(e);
    }
    if let Err(e) = take(wrapper, &I32, true) {
        return Err(e);
    }
    let blocks = if layout.at_least(V::V_1_17) { take(wrapper, &VAR_INT, true) } else { take(wrapper, &I32, true) };
    let blocks = match blocks {
        Ok(v) => v,
        Err(e) => return Err(e),
    };
    let count: u64 = if blocks < 0 { 0 } else { 3 * (blocks as u64) };
    if let Err(e) = pass_n(wrapper, &I8, count) {
        return Err(e);
    }
    if let Err(e) = pass_n(wrapper, &I32, 3) {
        return Err(e);
    }
    if layout.at_least(V::V_1_20_3) {
        return older_effects(wrapper, layout, registry, ids);
    }
    wrapper.passthrough_all();
    Ok(())
}

} // verus!
