//! The entry list of a `SET_ENTITY_DATA`, read and written in one layout.

use vstd::prelude::*;
use vstd::slice::slice_subrange;
use crate::api::TranslateError;
use crate::api::rewriter::item::nbt_end_for;
use crate::api::rewriter::particle::{ParticleName, ParticleRegistry};
use crate::api::types::{WireType, STRING, VAR_INT, VAR_LONG};
use crate::api::rewriter::block::skip_nbt_for_version;
use crate::codec::append_bytes;
use crate::data::entity_data_types::{MetaKind, MetaTypeTables};
use crate::packet::chunk_legacy::{field, read_field, run_count};
use crate::version::JavaMinecraftVersion as V;

verus! {

/// Ends the list; what vanilla writes after the last entry.
pub const TERMINATOR: u8 = 0xff;

/// A particle inside a value, with the block state it carries pulled out.
pub struct ParticleValue {
    pub id: i32,
    pub block_state: Option<i32>,
    pub data: Vec<u8>,
}

/// A value in the layout it was read in, with the registry ids it holds
/// pulled out.
pub enum MetaValue {
    Raw(Vec<u8>),
    BlockState(i32),
    OptionalBlockState(i32),
    Particle(ParticleValue),
    Particles(Vec<ParticleValue>),
    PaintingVariant(i32),
    Item(Vec<u8>),
}

/// One entry, with its index and the newest protocol's serializer id.
pub struct EntityDataEntry {
    pub index: u8,
    pub serializer: i32,
    pub value: MetaValue,
}

/// A particle value as plain values.
pub struct ParticleValueView {
    pub id: i32,
    pub block_state: Option<i32>,
    pub data: Seq<u8>,
}

/// A value as plain values.
pub enum MetaValueView {
    Raw(Seq<u8>),
    BlockState(i32),
    OptionalBlockState(i32),
    Particle(ParticleValueView),
    Particles(Seq<ParticleValueView>),
    PaintingVariant(i32),
    Item(Seq<u8>),
}

/// An entry as plain values.
pub struct EntryView {
    pub index: u8,
    pub serializer: i32,
    pub value: MetaValueView,
}

impl View for ParticleValue {
    type V = ParticleValueView;

    open spec fn view(&self) -> ParticleValueView {
        ParticleValueView { id: self.id, block_state: self.block_state, data: self.data@ }
    }
}

impl View for MetaValue {
    type V = MetaValueView;

    open spec fn view(&self) -> MetaValueView {
        match self {
            MetaValue::Raw(bytes) => MetaValueView::Raw(bytes@),
            MetaValue::BlockState(id) => MetaValueView::BlockState(*id),
            MetaValue::OptionalBlockState(id) => MetaValueView::OptionalBlockState(*id),
            MetaValue::Particle(p) => MetaValueView::Particle(p@),
            MetaValue::Particles(ps) => MetaValueView::Particles(ps@.map_values(|p: ParticleValue| p@)),
            MetaValue::PaintingVariant(id) => MetaValueView::PaintingVariant(*id),
            MetaValue::Item(bytes) => MetaValueView::Item(bytes@),
        }
    }
}

impl View for EntityDataEntry {
    type V = EntryView;

    open spec fn view(&self) -> EntryView {
        EntryView { index: self.index, serializer: self.serializer, value: self.value@ }
    }
}

/// The option data a particle carries inside a value.
#[derive(Clone, Copy, Debug, PartialEq, Eq, Structural)]
pub enum ParticleDataKind {
    Empty,
    BlockState,
    Int,
    Float,
    VarInt,
    IntFloat,
    Item,
}

/// The option data the newest protocol writes for the particle named
/// `name` and the oldest layout that reads it the same way; `None` for the
/// shapes that changed more than once, which end the list.
pub open spec fn spec_particle_shape(name: ParticleName) -> Option<(ParticleDataKind, V)> {
    match name {
        ParticleName::Block | ParticleName::BlockMarker | ParticleName::FallingDust | ParticleName::DustPillar
        | ParticleName::BlockCrumble => Some((ParticleDataKind::BlockState, V::V_1_7_2)),
        ParticleName::EntityEffect => Some((ParticleDataKind::Int, V::V_1_20_5)),
        ParticleName::TintedLeaves | ParticleName::Flash => Some((ParticleDataKind::Int, V::V_1_21_9)),
        ParticleName::Effect | ParticleName::InstantEffect => Some((ParticleDataKind::IntFloat, V::V_1_21_9)),
        ParticleName::DragonBreath => Some((ParticleDataKind::Float, V::V_1_21_9)),
        ParticleName::SculkCharge => Some((ParticleDataKind::Float, V::V_1_7_2)),
        ParticleName::Shriek => Some((ParticleDataKind::VarInt, V::V_1_7_2)),
        ParticleName::Item => Some((ParticleDataKind::Item, V::V_1_7_2)),
        ParticleName::Dust | ParticleName::DustColorTransition | ParticleName::Vibration | ParticleName::Trail => None,
        _ => Some((ParticleDataKind::Empty, V::V_1_7_2)),
    }
}

/// The option data the newest protocol writes for the particle named `name`.
pub fn particle_shape(name: ParticleName) -> (r: Option<(ParticleDataKind, V)>)
    ensures
        r == spec_particle_shape(name),
{
    match name {
        ParticleName::Block | ParticleName::BlockMarker | ParticleName::FallingDust | ParticleName::DustPillar
        | ParticleName::BlockCrumble => Some((ParticleDataKind::BlockState, V::V_1_7_2)),
        ParticleName::EntityEffect => Some((ParticleDataKind::Int, V::V_1_20_5)),
        ParticleName::TintedLeaves | ParticleName::Flash => Some((ParticleDataKind::Int, V::V_1_21_9)),
        ParticleName::Effect | ParticleName::InstantEffect => Some((ParticleDataKind::IntFloat, V::V_1_21_9)),
        ParticleName::DragonBreath => Some((ParticleDataKind::Float, V::V_1_21_9)),
        ParticleName::SculkCharge => Some((ParticleDataKind::Float, V::V_1_7_2)),
        ParticleName::Shriek => Some((ParticleDataKind::VarInt, V::V_1_7_2)),
        ParticleName::Item => Some((ParticleDataKind::Item, V::V_1_7_2)),
        ParticleName::Dust | ParticleName::DustColorTransition | ParticleName::Vibration | ParticleName::Trail => None,
        _ => Some((ParticleDataKind::Empty, V::V_1_7_2)),
    }
}

/// The `n` bytes at `pos` and the position after them.
pub open spec fn bytes_at(b: Seq<u8>, pos: int, n: int) -> Option<(Seq<u8>, int)> {
    if 0 <= pos && 0 <= n && pos + n <= b.len() { Some((b.subrange(pos, pos + n), pos + n)) } else { None }
}

/// The bytes a `t` at `pos` takes, as they stand.
pub open spec fn raw_at<T: WireType>(t: T, b: Seq<u8>, pos: int) -> Option<(Seq<u8>, int)> {
    match field(t, b, pos) {
        Some((_, p)) => Some((b.subrange(pos, p), p)),
        None => None,
    }
}

/// A text component at `pos` as `layout` writes it: a JSON string below
/// 1.20.3, network NBT from it.
pub open spec fn component_at(b: Seq<u8>, pos: int, layout: V) -> Option<(Seq<u8>, int)> {
    if !layout.spec_at_least(V::V_1_20_3) {
        raw_at(STRING, b, pos)
    } else {
        match nbt_end_for(b, pos, layout) {
            Some(p) => Some((b.subrange(pos, p), p)),
            None => None,
        }
    }
}

/// A flag byte and, where it is not zero, `n` more bytes.
pub open spec fn optional_at(b: Seq<u8>, pos: int, n: int) -> Option<(Seq<u8>, int)> {
    match bytes_at(b, pos, 1) {
        Some((flag, p1)) => if flag[0] == 0 {
            Some((flag, p1))
        } else {
            match bytes_at(b, p1, n) {
                Some((rest, p2)) => Some((flag + rest, p2)),
                None => None,
            }
        },
        None => None,
    }
}

/// The particle at `pos` inside a value in `layout`: its id, and the block
/// state or the option data it carries. A particle the registry does not
/// have, one whose shape changed more than once, one `layout` reads
/// differently, and an item particle end the list.
pub open spec fn particle_value_at(b: Seq<u8>, pos: int, layout: V, registry: &ParticleRegistry)
    -> Option<(ParticleValueView, int)>
{
    match field(VAR_INT, b, pos) {
        Some((id, p1)) => if !registry.spec_has(id) {
            None
        } else {
            match spec_particle_shape(registry.spec_name_of(id)) {
                Some((shape, since)) => if !layout.spec_at_least(since) {
                    None
                } else {
                    match shape {
                        ParticleDataKind::Empty => Some((ParticleValueView { id, block_state: None, data: Seq::empty() }, p1)),
                        ParticleDataKind::BlockState => match field(VAR_INT, b, p1) {
                            Some((state, p2)) => Some((ParticleValueView { id, block_state: Some(state), data: Seq::empty() }, p2)),
                            None => None,
                        },
                        ParticleDataKind::Int | ParticleDataKind::Float => match bytes_at(b, p1, 4) {
                            Some((data, p2)) => Some((ParticleValueView { id, block_state: None, data }, p2)),
                            None => None,
                        },
                        ParticleDataKind::IntFloat => match bytes_at(b, p1, 8) {
                            Some((data, p2)) => Some((ParticleValueView { id, block_state: None, data }, p2)),
                            None => None,
                        },
                        ParticleDataKind::VarInt => match raw_at(VAR_INT, b, p1) {
                            Some((data, p2)) => Some((ParticleValueView { id, block_state: None, data }, p2)),
                            None => None,
                        },
                        ParticleDataKind::Item => None,
                    }
                },
                None => None,
            }
        },
        None => None,
    }
}

/// `n` particles from `pos`, after `acc`.
pub open spec fn particles_at(b: Seq<u8>, pos: int, n: nat, layout: V, registry: &ParticleRegistry, acc: Seq<ParticleValueView>)
    -> Option<(Seq<ParticleValueView>, int)>
    decreases n,
{
    if n == 0 {
        Some((acc, pos))
    } else {
        match particle_value_at(b, pos, layout, registry) {
            Some((p, next)) => particles_at(b, next, (n - 1) as nat, layout, registry, acc.push(p)),
            None => None,
        }
    }
}

/// The bytes a value of `kind` with no registry id inside takes at `pos`
/// in `layout`; `None` for the kinds that hold ids.
pub open spec fn raw_value_at(kind: MetaKind, b: Seq<u8>, pos: int, layout: V) -> Option<(Seq<u8>, int)> {
    match kind {
        MetaKind::Byte | MetaKind::Bool => bytes_at(b, pos, 1),
        MetaKind::Float => bytes_at(b, pos, 4),
        MetaKind::Rotations | MetaKind::Vector3 => bytes_at(b, pos, 12),
        MetaKind::BlockPos => bytes_at(b, pos, 8),
        MetaKind::Quaternion => bytes_at(b, pos, 16),
        MetaKind::VarInt => raw_at(VAR_INT, b, pos),
        MetaKind::VarLong => raw_at(VAR_LONG, b, pos),
        MetaKind::String => raw_at(STRING, b, pos),
        MetaKind::Component => component_at(b, pos, layout),
        MetaKind::OptionalComponent => match bytes_at(b, pos, 1) {
            Some((flag, p1)) => if flag[0] == 0 {
                Some((flag, p1))
            } else {
                match component_at(b, p1, layout) {
                    Some((rest, p2)) => Some((flag + rest, p2)),
                    None => None,
                }
            },
            None => None,
        },
        MetaKind::OptionalBlockPos => optional_at(b, pos, 8),
        MetaKind::OptionalUuid => optional_at(b, pos, 16),
        MetaKind::VillagerData => match raw_at(VAR_INT, b, pos) {
            Some((a, p1)) => match raw_at(VAR_INT, b, p1) {
                Some((c, p2)) => match raw_at(VAR_INT, b, p2) {
                    Some((d, p3)) => Some((a + c + d, p3)),
                    None => None,
                },
                None => None,
            },
            None => None,
        },
        _ => None,
    }
}

/// The value of `kind` at `pos` in `layout`. A value with no registry id
/// inside is kept as the bytes it takes; an item ends the list.
pub open spec fn value_at(kind: MetaKind, b: Seq<u8>, pos: int, layout: V, registry: &ParticleRegistry)
    -> Option<(MetaValueView, int)>
{
    match kind {
        MetaKind::BlockState => match field(VAR_INT, b, pos) {
            Some((id, p)) => Some((MetaValueView::BlockState(id), p)),
            None => None,
        },
        MetaKind::OptionalBlockState => match field(VAR_INT, b, pos) {
            Some((id, p)) => Some((MetaValueView::OptionalBlockState(id), p)),
            None => None,
        },
        MetaKind::PaintingVariant => match field(VAR_INT, b, pos) {
            Some((id, p)) => Some((MetaValueView::PaintingVariant(id), p)),
            None => None,
        },
        MetaKind::Particle => match particle_value_at(b, pos, layout, registry) {
            Some((p, next)) => Some((MetaValueView::Particle(p), next)),
            None => None,
        },
        MetaKind::Particles => match field(VAR_INT, b, pos) {
            Some((count, p1)) => match particles_at(b, p1, run_count(count), layout, registry, Seq::empty()) {
                Some((ps, next)) => Some((MetaValueView::Particles(ps), next)),
                None => None,
            },
            None => None,
        },
        MetaKind::Item => None,
        _ => match raw_value_at(kind, b, pos, layout) {
            Some((bytes, p)) => Some((MetaValueView::Raw(bytes), p)),
            None => None,
        },
    }
}

/// The entry at `pos`, after its index: the serializer, and the value of
/// the kind the serializer names; `None` where either cannot be read.
pub open spec fn entry_at(b: Seq<u8>, pos: int, index: u8, layout: V, tables: &MetaTypeTables, registry: &ParticleRegistry)
    -> Option<(EntryView, int)>
{
    match field(VAR_INT, b, pos) {
        Some((serializer, p1)) => match tables.spec_meta_kind(serializer) {
            Some(kind) => match value_at(kind, b, p1, layout, registry) {
                Some((value, p2)) => Some((EntryView { index, serializer, value }, p2)),
                None => None,
            },
            None => None,
        },
        None => None,
    }
}

/// The entries from `pos` after `acc`, up to the terminator, and the
/// position after it. An entry that cannot be measured ends the list there,
/// and nothing after it is read again; a list that runs out before its
/// terminator is a read error.
pub open spec fn list_at(
    b: Seq<u8>,
    pos: int,
    layout: V,
    tables: &MetaTypeTables,
    registry: &ParticleRegistry,
    acc: Seq<EntryView>,
) -> Result<(Seq<EntryView>, int), TranslateError>
    decreases b.len() - pos,
{
    if pos < 0 || pos >= b.len() {
        Err(TranslateError::Read)
    } else if b[pos] == TERMINATOR {
        Ok((acc, pos + 1))
    } else {
        match entry_at(b, pos + 1, b[pos], layout, tables, registry) {
            Some((entry, p)) => if pos < p <= b.len() {
                list_at(b, p, layout, tables, registry, acc.push(entry))
            } else {
                Ok((acc, b.len() as int))
            },
            None => Ok((acc, b.len() as int)),
        }
    }
}

fn take_bytes(b: &[u8], pos: usize, n: usize) -> (r: Option<(Vec<u8>, usize)>)
    requires
        pos <= b@.len(),
    ensures
        match bytes_at(b@, pos as int, n as int) {
            Some((v, p)) => r matches Some((x, q)) && x@ == v && q == p && pos <= q <= b@.len(),
            None => r is None,
        },
{
    if n > b.len() - pos {
        return None;
    }
    let mut out: Vec<u8> = Vec::new();
    append_bytes(&mut out, slice_subrange(b, pos, pos + n));
    Some((out, pos + n))
}

fn raw_field<T: WireType>(t: &T, b: &[u8], pos: usize) -> (r: Option<(Vec<u8>, usize)>)
    requires
        pos <= b@.len(),
    ensures
        match raw_at(*t, b@, pos as int) {
            Some((v, p)) => r matches Some((x, q)) && x@ == v && q == p && pos <= q <= b@.len(),
            None => r is None,
        },
{
    let (_, p) = match read_field(t, b, pos) {
        Some(found) => found,
        None => return None,
    };
    let mut out: Vec<u8> = Vec::new();
    append_bytes(&mut out, slice_subrange(b, pos, p));
    Some((out, p))
}

fn component(b: &[u8], pos: usize, layout: V) -> (r: Option<(Vec<u8>, usize)>)
    requires
        pos <= b@.len(),
    ensures
        match component_at(b@, pos as int, layout) {
            Some((v, p)) => r matches Some((x, q)) && x@ == v && q == p && pos <= q <= b@.len(),
            None => r is None,
        },
{
    if !layout.at_least(V::V_1_20_3) {
        return raw_field(&STRING, b, pos);
    }
    let p = match skip_nbt_for_version(b, pos, layout) {
        Some(p) => p,
        None => return None,
    };
    let mut out: Vec<u8> = Vec::new();
    append_bytes(&mut out, slice_subrange(b, pos, p));
    Some((out, p))
}

fn optional(b: &[u8], pos: usize, n: usize) -> (r: Option<(Vec<u8>, usize)>)
    requires
        pos <= b@.len(),
    ensures
        match optional_at(b@, pos as int, n as int) {
            Some((v, p)) => r matches Some((x, q)) && x@ == v && q == p && pos <= q <= b@.len(),
            None => r is None,
        },
{
    let (mut out, p1) = match take_bytes(b, pos, 1) {
        Some(found) => found,
        None => return None,
    };
    if out[0] == 0 {
        return Some((out, p1));
    }
    let (rest, p2) = match take_bytes(b, p1, n) {
        Some(found) => found,
        None => return None,
    };
    append_bytes(&mut out, rest.as_slice());
    Some((out, p2))
}

/// Reads the particle at `pos` inside a value in `layout`.
pub fn read_particle_value(b: &[u8], pos: usize, layout: V, registry: &ParticleRegistry) -> (r: Option<(ParticleValue, usize)>)
    requires
        pos <= b@.len(),
    ensures
        match particle_value_at(b@, pos as int, layout, registry) {
            Some((v, p)) => r matches Some((x, q)) && x@ == v && q == p && pos <= q <= b@.len(),
            None => r is None,
        },
{
    let (id, p1) = match read_field(&VAR_INT, b, pos) {
        Some(found) => found,
        None => return None,
    };
    if !registry.has(id) {
        return None;
    }
    let (shape, since) = match particle_shape(registry.name_of(id)) {
        Some(found) => found,
        None => return None,
    };
    if !layout.at_least(since) {
        return None;
    }
    match shape {
        ParticleDataKind::Empty => Some((ParticleValue { id, block_state: None, data: Vec::new() }, p1)),
        ParticleDataKind::BlockState => match read_field(&VAR_INT, b, p1) {
            Some((state, p2)) => Some((ParticleValue { id, block_state: Some(state), data: Vec::new() }, p2)),
            None => None,
        },
        ParticleDataKind::Int | ParticleDataKind::Float => match take_bytes(b, p1, 4) {
            Some((data, p2)) => Some((ParticleValue { id, block_state: None, data }, p2)),
            None => None,
        },
        ParticleDataKind::IntFloat => match take_bytes(b, p1, 8) {
            Some((data, p2)) => Some((ParticleValue { id, block_state: None, data }, p2)),
            None => None,
        },
        ParticleDataKind::VarInt => match raw_field(&VAR_INT, b, p1) {
            Some((data, p2)) => Some((ParticleValue { id, block_state: None, data }, p2)),
            None => None,
        },
        ParticleDataKind::Item => None,
    }
}

fn read_particles(b: &[u8], pos: usize, count: i32, layout: V, registry: &ParticleRegistry) -> (r: Option<(Vec<ParticleValue>, usize)>)
    requires
        pos <= b@.len(),
    ensures
        match particles_at(b@, pos as int, run_count(count), layout, registry, Seq::empty()) {
            Some((v, p)) => r matches Some((x, q)) && x@.map_values(|e: ParticleValue| e@) == v && q == p && pos <= q <= b@.len(),
            None => r is None,
        },
{
    let mut left: i32 = if count < 0 { 0 } else { count };
    let mut p = pos;
    let mut out: Vec<ParticleValue> = Vec::new();
    assert(out@.map_values(|e: ParticleValue| e@) =~= Seq::<ParticleValueView>::empty());
    while left > 0
        invariant
            pos <= p <= b@.len(),
            left >= 0,
            particles_at(b@, pos as int, run_count(count), layout, registry, Seq::empty())
                == particles_at(b@, p as int, left as nat, layout, registry, out@.map_values(|e: ParticleValue| e@)),
        decreases left,
    {
        let (particle, q) = match read_particle_value(b, p, layout, registry) {
            Some(found) => found,
            None => return None,
        };
        let ghost before = out@.map_values(|e: ParticleValue| e@);
        out.push(particle);
        assert(out@.map_values(|e: ParticleValue| e@) =~= before.push(particle@));
        p = q;
        left = left - 1;
    }
    Some((out, p))
}

fn read_raw(kind: MetaKind, b: &[u8], pos: usize, layout: V) -> (r: Option<(Vec<u8>, usize)>)
    requires
        pos <= b@.len(),
    ensures
        match raw_value_at(kind, b@, pos as int, layout) {
            Some((v, p)) => r matches Some((x, q)) && x@ == v && q == p && pos <= q <= b@.len(),
            None => r is None,
        },
{
    match kind {
        MetaKind::Byte | MetaKind::Bool => take_bytes(b, pos, 1),
        MetaKind::Float => take_bytes(b, pos, 4),
        MetaKind::Rotations | MetaKind::Vector3 => take_bytes(b, pos, 12),
        MetaKind::BlockPos => take_bytes(b, pos, 8),
        MetaKind::Quaternion => take_bytes(b, pos, 16),
        MetaKind::VarInt => raw_field(&VAR_INT, b, pos),
        MetaKind::VarLong => raw_field(&VAR_LONG, b, pos),
        MetaKind::String => raw_field(&STRING, b, pos),
        MetaKind::Component => component(b, pos, layout),
        MetaKind::OptionalComponent => {
            let (mut out, p1) = match take_bytes(b, pos, 1) {
                Some(found) => found,
                None => return None,
            };
            if out[0] == 0 {
                return Some((out, p1));
            }
            let (rest, p2) = match component(b, p1, layout) {
                Some(found) => found,
                None => return None,
            };
            append_bytes(&mut out, rest.as_slice());
            Some((out, p2))
        },
        MetaKind::OptionalBlockPos => optional(b, pos, 8),
        MetaKind::OptionalUuid => optional(b, pos, 16),
        MetaKind::VillagerData => {
            let (mut out, p1) = match raw_field(&VAR_INT, b, pos) {
                Some(found) => found,
                None => return None,
            };
            let (c, p2) = match raw_field(&VAR_INT, b, p1) {
                Some(found) => found,
                None => return None,
            };
            let (d, p3) = match raw_field(&VAR_INT, b, p2) {
                Some(found) => found,
                None => return None,
            };
            append_bytes(&mut out, c.as_slice());
            append_bytes(&mut out, d.as_slice());
            Some((out, p3))
        },
        _ => None,
    }
}

/// Reads the value of `kind` at `pos` in `layout`.
pub fn read_value(kind: MetaKind, b: &[u8], pos: usize, layout: V, registry: &ParticleRegistry) -> (r: Option<(MetaValue, usize)>)
    requires
        pos <= b@.len(),
    ensures
        match value_at(kind, b@, pos as int, layout, registry) {
            Some((v, p)) => r matches Some((x, q)) && x@ == v && q == p && pos <= q <= b@.len(),
            None => r is None,
        },
{
    match kind {
        MetaKind::BlockState => match read_field(&VAR_INT, b, pos) {
            Some((id, p)) => Some((MetaValue::BlockState(id), p)),
            None => None,
        },
        MetaKind::OptionalBlockState => match read_field(&VAR_INT, b, pos) {
            Some((id, p)) => Some((MetaValue::OptionalBlockState(id), p)),
            None => None,
        },
        MetaKind::PaintingVariant => match read_field(&VAR_INT, b, pos) {
            Some((id, p)) => Some((MetaValue::PaintingVariant(id), p)),
            None => None,
        },
        MetaKind::Particle => match read_particle_value(b, pos, layout, registry) {
            Some((particle, p)) => Some((MetaValue::Particle(particle), p)),
            None => None,
        },
        MetaKind::Particles => {
            let (count, p1) = match read_field(&VAR_INT, b, pos) {
                Some(found) => found,
                None => return None,
            };
            match read_particles(b, p1, count, layout, registry) {
                Some((particles, p)) => Some((MetaValue::Particles(particles), p)),
                None => None,
            }
        },
        MetaKind::Item => None,
        _ => match read_raw(kind, b, pos, layout) {
            Some((bytes, p)) => Some((MetaValue::Raw(bytes), p)),
            None => None,
        },
    }
}

/// Reads the entry at `pos`, after its index.
pub fn read_entry(b: &[u8], pos: usize, index: u8, layout: V, tables: &MetaTypeTables, registry: &ParticleRegistry)
    -> (r: Option<(EntityDataEntry, usize)>)
    requires
        pos <= b@.len(),
    ensures
        match entry_at(b@, pos as int, index, layout, tables, registry) {
            Some((v, p)) => r matches Some((x, q)) && x@ == v && q == p && pos <= q <= b@.len(),
            None => r is None,
        },
{
    let (serializer, p1) = match read_field(&VAR_INT, b, pos) {
        Some(found) => found,
        None => return None,
    };
    let kind = match tables.meta_kind(serializer) {
        Some(kind) => kind,
        None => return None,
    };
    match read_value(kind, b, p1, layout, registry) {
        Some((value, p2)) => Some((EntityDataEntry { index, serializer, value }, p2)),
        None => None,
    }
}

/// Reads the entry list at `pos` in `layout`, up to and past its terminator.
pub fn read_list(b: &[u8], pos: usize, layout: V, tables: &MetaTypeTables, registry: &ParticleRegistry)
    -> (r: Result<(Vec<EntityDataEntry>, usize), TranslateError>)
    requires
        pos <= b@.len(),
    ensures
        match list_at(b@, pos as int, layout, tables, registry, Seq::empty()) {
            Ok((v, p)) => r matches Ok((x, q)) && x@.map_values(|e: EntityDataEntry| e@) == v && q == p && pos <= q <= b@.len(),
            Err(e) => r matches Err(x) && x == e,
        },
{
    let mut entries: Vec<EntityDataEntry> = Vec::new();
    let mut p = pos;
    assert(entries@.map_values(|e: EntityDataEntry| e@) =~= Seq::<EntryView>::empty());
    loop
        invariant
            pos <= p <= b@.len(),
            list_at(b@, pos as int, layout, tables, registry, Seq::empty())
                == list_at(b@, p as int, layout, tables, registry, entries@.map_values(|e: EntityDataEntry| e@)),
        decreases b@.len() - p,
    {
        if p >= b.len() {
            return Err(TranslateError::Read);
        }
        let index = b[p];
        if index == TERMINATOR {
            return Ok((entries, p + 1));
        }
        match read_entry(b, p + 1, index, layout, tables, registry) {
            Some((entry, q)) => {
                let ghost before = entries@.map_values(|e: EntityDataEntry| e@);
                let ghost view = entry@;
                entries.push(entry);
                assert(entries@.map_values(|e: EntityDataEntry| e@) =~= before.push(view));
                p = q;
            },
            None => return Ok((entries, b.len())),
        }
    }
}

/// A particle value as written: its id, its block state where it carries
/// one, and its option data.
pub open spec fn particle_value_bytes(p: ParticleValueView) -> Seq<u8> {
    VAR_INT.encode(p.id) + match p.block_state {
        Some(state) => VAR_INT.encode(state),
        None => Seq::empty(),
    } + p.data
}

/// Particle values one after another.
pub open spec fn particle_values_bytes(ps: Seq<ParticleValueView>) -> Seq<u8>
    decreases ps.len(),
{
    if ps.len() == 0 {
        Seq::empty()
    } else {
        particle_values_bytes(ps.drop_last()) + particle_value_bytes(ps.last())
    }
}

/// A value as written: the layout does not change, so a value with no id
/// inside goes back as it was read. `None` for a particle list too long for
/// its count.
pub open spec fn value_bytes(v: MetaValueView) -> Option<Seq<u8>> {
    match v {
        MetaValueView::Raw(bytes) | MetaValueView::Item(bytes) => Some(bytes),
        MetaValueView::BlockState(id) | MetaValueView::OptionalBlockState(id) | MetaValueView::PaintingVariant(id) =>
            Some(VAR_INT.encode(id)),
        MetaValueView::Particle(p) => Some(particle_value_bytes(p)),
        MetaValueView::Particles(ps) => if ps.len() > i32::MAX {
            None
        } else {
            Some(VAR_INT.encode(ps.len() as i32) + particle_values_bytes(ps))
        },
    }
}

/// The entries as written, each its index, its serializer and its value.
pub open spec fn entries_bytes(es: Seq<EntryView>) -> Option<Seq<u8>>
    decreases es.len(),
{
    if es.len() == 0 {
        Some(Seq::empty())
    } else {
        match (entries_bytes(es.drop_last()), value_bytes(es.last().value)) {
            (Some(front), Some(value)) => Some(front + seq![es.last().index] + VAR_INT.encode(es.last().serializer) + value),
            _ => None,
        }
    }
}

/// A list as written: its entries and the terminator.
pub open spec fn list_bytes(es: Seq<EntryView>) -> Option<Seq<u8>> {
    match entries_bytes(es) {
        Some(bytes) => Some(bytes + seq![TERMINATOR]),
        None => None,
    }
}

fn write_particle_value(out: &mut Vec<u8>, p: &ParticleValue)
    ensures
        final(out)@ == old(out)@ + particle_value_bytes(p@),
{
    let ghost start = out@;
    VAR_INT.write(out, &p.id);
    match p.block_state {
        Some(state) => {
            VAR_INT.write(out, &state);
        },
        None => {},
    }
    append_bytes(out, p.data.as_slice());
    assert(out@ =~= start + particle_value_bytes(p@));
}

fn write_value(out: &mut Vec<u8>, v: &MetaValue) -> (r: bool)
    ensures
        match value_bytes(v@) {
            Some(bytes) => r && final(out)@ == old(out)@ + bytes,
            None => !r,
        },
{
    match v {
        MetaValue::Raw(bytes) | MetaValue::Item(bytes) => {
            append_bytes(out, bytes.as_slice());
            true
        },
        MetaValue::BlockState(id) | MetaValue::OptionalBlockState(id) | MetaValue::PaintingVariant(id) => {
            VAR_INT.write(out, id);
            true
        },
        MetaValue::Particle(p) => {
            write_particle_value(out, p);
            true
        },
        MetaValue::Particles(ps) => {
            if ps.len() > i32::MAX as usize {
                return false;
            }
            let ghost start = out@;
            let ghost views = ps@.map_values(|e: ParticleValue| e@);
            VAR_INT.write(out, &(ps.len() as i32));
            let mut i: usize = 0;
            while i < ps.len()
                invariant
                    i <= ps@.len(),
                    views == ps@.map_values(|e: ParticleValue| e@),
                    out@ == start + VAR_INT.encode(ps@.len() as i32) + particle_values_bytes(views.take(i as int)),
                decreases ps@.len() - i,
            {
                write_particle_value(out, &ps[i]);
                assert(views.take(i + 1).drop_last() =~= views.take(i as int));
                i = i + 1;
            }
            assert(views.take(ps@.len() as int) =~= views);
            true
        },
    }
}

/// Writes an entry list and its terminator; `false` where a particle list
/// is too long for its count, with what was written before it kept.
pub fn write_list(out: &mut Vec<u8>, entries: &Vec<EntityDataEntry>) -> (r: bool)
    ensures
        match list_bytes(entries@.map_values(|e: EntityDataEntry| e@)) {
            Some(bytes) => r && final(out)@ == old(out)@ + bytes,
            None => !r,
        },
{
    let ghost start = out@;
    let ghost views = entries@.map_values(|e: EntityDataEntry| e@);
    let mut i: usize = 0;
    while i < entries.len()
        invariant
            i <= entries@.len(),
            views == entries@.map_values(|e: EntityDataEntry| e@),
            entries_bytes(views.take(i as int)) matches Some(front) && out@ == start + front,
        decreases entries@.len() - i,
    {
        let entry = &entries[i];
        assert(views.take(i + 1).drop_last() =~= views.take(i as int));
        out.push(entry.index);
        VAR_INT.write(out, &entry.serializer);
        if !write_value(out, &entry.value) {
            proof {
                assert(entries_bytes(views.take(i + 1)) is None);
                lemma_entries_bytes_none(views, i + 1);
            }
            return false;
        }
        i = i + 1;
    }
    assert(views.take(entries@.len() as int) =~= views);
    out.push(TERMINATOR);
    true
}

proof fn lemma_entries_bytes_none(es: Seq<EntryView>, n: int)
    requires
        0 <= n <= es.len(),
        entries_bytes(es.take(n)) is None,
    ensures
        entries_bytes(es) is None,
    decreases es.len() - n,
{
    if n < es.len() {
        assert(es.take(n + 1).drop_last() =~= es.take(n));
        lemma_entries_bytes_none(es, n + 1);
    } else {
        assert(es.take(n) =~= es);
    }
}

} // verus!
