//! Id tables between one version's registry numbering and another's.

use vstd::prelude::*;

use crate::api::rewriter::item_nbt::EnchantmentKey;

verus! {

/// How an id space is stored.
pub enum Repr {
    /// No step carried this id space, so every id passes through.
    Identity,
    /// Ids below the bound pass through, the rest do not exist.
    Bounded(usize),
    /// `table[id]` is the mapped id, negative where the id does not exist.
    Table(Vec<i32>),
}

/// An id table for one registry, `None` where the id does not exist.
pub struct IdMapping(pub Repr);

/// What a table entry stands for: the entry as a mapped id, absent when negative.
pub open spec fn entry_id(entry: i32) -> Option<u32> {
    if entry >= 0 { Some(entry as u32) } else { None }
}

impl IdMapping {
    /// The id `id` maps to, `None` where it does not exist on the other side.
    pub open spec fn spec_map(self, id: u32) -> Option<u32> {
        match self.0 {
            Repr::Identity => Some(id),
            Repr::Bounded(size) => if (id as int) < size { Some(id) } else { None },
            Repr::Table(table) => if (id as int) < table@.len() {
                entry_id(table@[id as int])
            } else {
                None
            },
        }
    }

    /// The number of ids the mapping is defined over, 0 for the identity.
    pub open spec fn spec_len(self) -> nat {
        match self.0 {
            Repr::Identity => 0,
            Repr::Bounded(size) => size as nat,
            Repr::Table(table) => table@.len(),
        }
    }

    /// Whether the mapping stores no table of its own.
    pub open spec fn spec_is_identity(self) -> bool {
        !(self.0 is Table)
    }

    /// `id` is the lowest id that maps onto `target`.
    pub open spec fn is_least_preimage(self, id: u32, target: u32) -> bool {
        &&& self.spec_map(id) == Some(target)
        &&& forall|other: u32| other < id ==> self.spec_map(other) != Some(target)
    }

    /// The mapping that passes every id through.
    pub fn identity() -> (r: IdMapping)
        ensures
            r.spec_is_identity(),
            r.spec_len() == 0,
            forall|id: u32| r.spec_map(id) == Some(id),
    {
        IdMapping(Repr::Identity)
    }

    /// The mapping that keeps the ids below `size` and has no others.
    pub fn bounded(size: usize) -> (r: IdMapping)
        ensures
            r.spec_is_identity(),
            r.spec_len() == size,
            forall|id: u32| r.spec_map(id) == (if (id as int) < size { Some(id) } else { None }),
    {
        IdMapping(Repr::Bounded(size))
    }

    /// The mapping that sends `id` to `table[id]`, leaving out negative entries.
    pub fn from_table(table: Vec<i32>) -> (r: IdMapping)
        ensures
            !r.spec_is_identity(),
            r.spec_len() == table@.len(),
            forall|id: u32| r.spec_map(id) == (if (id as int) < table@.len() {
                entry_id(table@[id as int])
            } else {
                None
            }),
    {
        IdMapping(Repr::Table(table))
    }

    /// The id `id` maps to, `None` where it does not exist.
    pub fn map(&self, id: u32) -> (r: Option<u32>)
        ensures
            r == self.spec_map(id),
    {
        match &self.0 {
            Repr::Identity => Some(id),
            Repr::Bounded(size) => if (id as usize) < *size { Some(id) } else { None },
            Repr::Table(table) => {
                if (id as usize) < table.len() {
                    let mapped = table[id as usize];
                    if mapped >= 0 { Some(mapped as u32) } else { None }
                } else {
                    None
                }
            },
        }
    }

    /// The number of ids the mapping is defined over, 0 for the identity.
    pub fn len(&self) -> (r: usize)
        ensures
            r == self.spec_len(),
    {
        match &self.0 {
            Repr::Identity => 0,
            Repr::Bounded(size) => *size,
            Repr::Table(table) => table.len(),
        }
    }

    /// Whether the mapping is defined over no id at all.
    pub fn is_empty(&self) -> (r: bool)
        ensures
            r == (self.spec_len() == 0),
    {
        self.len() == 0
    }

    /// Whether the mapping stores no table of its own.
    pub fn is_identity(&self) -> (r: bool)
        ensures
            r == self.spec_is_identity(),
    {
        match &self.0 {
            Repr::Table(_) => false,
            _ => true,
        }
    }

    /// A copy of the mapping.
    pub fn copy(&self) -> (r: IdMapping)
        ensures
            r.spec_is_identity() == self.spec_is_identity(),
            r.spec_len() == self.spec_len(),
            forall|id: u32| r.spec_map(id) == self.spec_map(id),
    {
        match &self.0 {
            Repr::Identity => IdMapping(Repr::Identity),
            Repr::Bounded(size) => IdMapping(Repr::Bounded(*size)),
            Repr::Table(table) => IdMapping(Repr::Table(table.clone())),
        }
    }

    /// Maps back to the id space this mapping starts from, keeping the lowest
    /// id where several map onto the same one.
    pub fn inverse(&self) -> (r: IdMapping)
        ensures
            r.spec_is_identity() == self.spec_is_identity(),
            self.spec_is_identity() ==> forall|id: u32| #[trigger] r.spec_map(id) == self.spec_map(id),
            forall|target: u32| #[trigger] r.spec_map(target) matches Some(id)
                ==> self.is_least_preimage(id, target),
            forall|target: u32, id: u32| #[trigger] r.spec_map(target) is None
                && id <= i32::MAX && #[trigger] self.spec_map(id) == Some(target) ==> false,
    {
        match &self.0 {
            Repr::Table(table) => IdMapping(Repr::Table(inverse_table(table))),
            _ => self.copy(),
        }
    }

    /// What applying `self` and then `next` gives for `id`.
    pub open spec fn spec_through(self, next: IdMapping, id: u32) -> Option<u32> {
        match self.spec_map(id) {
            Some(mid) => next.spec_map(mid),
            None => None,
        }
    }

    /// The mapping that applies `self` and then `next`. Where both store a
    /// table, an id that would land above `i32::MAX` cannot be stored and is
    /// left out.
    pub fn compose(&self, next: &IdMapping) -> (r: IdMapping)
        ensures
            forall|id: u32| #[trigger] r.spec_map(id) == self.spec_through(*next, id)
                || (!(self.0 is Identity) && !(next.0 is Identity) && r.spec_map(id) is None
                    && beyond_i32(self.spec_through(*next, id))),
    {
        match (&self.0, &next.0) {
            (Repr::Identity, _) => next.copy(),
            (_, Repr::Identity) => self.copy(),
            (Repr::Bounded(_), _) | (Repr::Table(_), _) => {
                let len = self.len();
                let mut table: Vec<i32> = Vec::new();
                let mut id: usize = 0;
                while id < len
                    invariant
                        len == self.spec_len(),
                        id <= len,
                        table@.len() == id,
                        !(self.0 is Identity),
                        forall|j: u32| (j as int) < id ==> #[trigger] entry_id(table@[j as int])
                            == self.spec_through(*next, j)
                            || (entry_id(table@[j as int]) is None
                                && beyond_i32(self.spec_through(*next, j))),
                    decreases len - id,
                {
                    let mut entry: i32 = -1;
                    if id <= u32::MAX as usize {
                        match self.map(id as u32) {
                            Some(mid) => match next.map(mid) {
                                Some(out) => {
                                    if out <= i32::MAX as u32 {
                                        entry = out as i32;
                                    }
                                },
                                None => {},
                            },
                            None => {},
                        }
                    }
                    table.push(entry);
                    id = id + 1;
                }
                let r = IdMapping(Repr::Table(table));
                assert forall|x: u32| #[trigger] r.spec_map(x) == self.spec_through(*next, x)
                    || (!(self.0 is Identity) && !(next.0 is Identity) && r.spec_map(x) is None
                        && beyond_i32(self.spec_through(*next, x))) by {
                    if (x as int) >= len {
                        assert(self.spec_map(x) is None);
                    }
                }
                r
            },
        }
    }
}

/// A mapped id that a table of `i32` entries cannot hold.
pub open spec fn beyond_i32(mapped: Option<u32>) -> bool {
    match mapped {
        Some(out) => out > i32::MAX,
        None => false,
    }
}

/// The inverse of a table: for each mapped id, the lowest id that reaches it.
fn inverse_table(table: &Vec<i32>) -> (r: Vec<i32>)
    ensures
        forall|target: u32| (target as int) < r@.len() && #[trigger] r@[target as int] >= 0 ==> {
            let id = r@[target as int];
            &&& (id as int) < table@.len()
            &&& table@[id as int] == target
            &&& forall|other: int| 0 <= other < id ==> table@[other] != target
        },
        forall|target: u32, id: int| 0 <= id < table@.len() && id <= i32::MAX
            && #[trigger] table@[id] == target ==> (target as int) < r@.len()
            && #[trigger] r@[target as int] >= 0,
{
    let mut max: i32 = -1;
    let mut i: usize = 0;
    while i < table.len()
        invariant
            i <= table@.len(),
            -1 <= max,
            forall|j: int| 0 <= j < i ==> table@[j] <= max,
        decreases table@.len() - i,
    {
        if table[i] > max {
            max = table[i];
        }
        i = i + 1;
    }
    let size: usize = (max as i64 + 1) as usize;
    let mut inverse: Vec<i32> = Vec::new();
    while inverse.len() < size
        invariant
            inverse@.len() <= size,
            forall|j: int| 0 <= j < inverse@.len() ==> inverse@[j] == -1,
        decreases size - inverse@.len(),
    {
        inverse.push(-1);
    }
    let mut id: usize = 0;
    while id < table.len()
        invariant
            id <= table@.len(),
            inverse@.len() == size,
            size == max + 1,
            forall|j: int| 0 <= j < table@.len() ==> table@[j] <= max,
            forall|m: int| 0 <= m < size && #[trigger] inverse@[m] >= 0 ==> {
                let found = inverse@[m];
                &&& found < id
                &&& table@[found as int] == m
                &&& forall|other: int| 0 <= other < found ==> table@[other] != m
            },
            forall|m: int, j: int| 0 <= m < size && 0 <= j < id && j <= i32::MAX
                && #[trigger] table@[j] == m ==> #[trigger] inverse@[m] >= 0,
        decreases table@.len() - id,
    {
        let mapped = table[id];
        if mapped >= 0 {
            let slot = mapped as usize;
            if inverse[slot] < 0 {
                let value: i32 = if id <= i32::MAX as usize { id as i32 } else { -1 };
                inverse.set(slot, value);
            }
        }
        id = id + 1;
    }
    inverse
}

/// The tables from the newest protocol down to one client's, one per registry.
pub struct ComposedMappings {
    pub blockstates: IdMapping,
    pub blocks: IdMapping,
    pub items: IdMapping,
    pub sounds: IdMapping,
    pub blockentities: IdMapping,
    pub entities: IdMapping,
    pub particles: IdMapping,
    pub argumenttypes: IdMapping,
    pub statistics: IdMapping,
    pub recipe_serializers: IdMapping,
    pub slot_displays: IdMapping,
    pub data_component_type: IdMapping,
    pub menus: IdMapping,
    pub attributes: IdMapping,
    pub enchantments: IdMapping,
    pub paintings: IdMapping,
    /// The newest enchantment registry, by id: the names the NBT form of a
    /// stack spells enchantments with.
    pub enchantment_keys: Vec<EnchantmentKey>,
}

/// A copy of an enchantment registry.
fn copy_keys(keys: &Vec<EnchantmentKey>) -> (r: Vec<EnchantmentKey>)
    ensures
        r@ == keys@,
{
    let mut out: Vec<EnchantmentKey> = Vec::new();
    let mut i: usize = 0;
    while i < keys.len()
        invariant
            i <= keys@.len(),
            out@ == keys@.take(i as int),
        decreases keys@.len() - i,
    {
        out.push(keys[i]);
        assert(keys@.take(i + 1) =~= keys@.take(i as int).push(keys@[i as int]));
        i = i + 1;
    }
    assert(keys@.take(keys@.len() as int) =~= keys@);
    out
}

impl ComposedMappings {
    /// The tables of a client on the newest protocol: every id passes through.
    pub fn identity() -> (r: ComposedMappings)
        ensures
            forall|id: u32| r.blockstates.spec_map(id) == Some(id),
            forall|id: u32| r.blocks.spec_map(id) == Some(id),
            forall|id: u32| r.items.spec_map(id) == Some(id),
            forall|id: u32| r.sounds.spec_map(id) == Some(id),
            forall|id: u32| r.blockentities.spec_map(id) == Some(id),
            forall|id: u32| r.entities.spec_map(id) == Some(id),
            forall|id: u32| r.particles.spec_map(id) == Some(id),
            forall|id: u32| r.argumenttypes.spec_map(id) == Some(id),
            forall|id: u32| r.statistics.spec_map(id) == Some(id),
            forall|id: u32| r.recipe_serializers.spec_map(id) == Some(id),
            forall|id: u32| r.slot_displays.spec_map(id) == Some(id),
            forall|id: u32| r.data_component_type.spec_map(id) == Some(id),
            forall|id: u32| r.menus.spec_map(id) == Some(id),
            forall|id: u32| r.attributes.spec_map(id) == Some(id),
            forall|id: u32| r.enchantments.spec_map(id) == Some(id),
            forall|id: u32| r.paintings.spec_map(id) == Some(id),
            r.enchantment_keys@ == Seq::<EnchantmentKey>::empty(),
    {
        ComposedMappings {
            blockstates: IdMapping::identity(),
            blocks: IdMapping::identity(),
            items: IdMapping::identity(),
            sounds: IdMapping::identity(),
            blockentities: IdMapping::identity(),
            entities: IdMapping::identity(),
            particles: IdMapping::identity(),
            argumenttypes: IdMapping::identity(),
            statistics: IdMapping::identity(),
            recipe_serializers: IdMapping::identity(),
            slot_displays: IdMapping::identity(),
            data_component_type: IdMapping::identity(),
            menus: IdMapping::identity(),
            attributes: IdMapping::identity(),
            enchantments: IdMapping::identity(),
            paintings: IdMapping::identity(),
            enchantment_keys: Vec::new(),
        }
    }

    /// The tables that apply `self` and then the step `next`, registry by registry.
    pub fn compose(&self, next: &ComposedMappings) -> (r: ComposedMappings)
        ensures
            forall|id: u32| #[trigger] r.blockstates.spec_map(id) == self.blockstates.spec_through(next.blockstates, id)
                || (r.blockstates.spec_map(id) is None && beyond_i32(self.blockstates.spec_through(next.blockstates, id))),
            forall|id: u32| #[trigger] r.blocks.spec_map(id) == self.blocks.spec_through(next.blocks, id)
                || (r.blocks.spec_map(id) is None && beyond_i32(self.blocks.spec_through(next.blocks, id))),
            forall|id: u32| #[trigger] r.items.spec_map(id) == self.items.spec_through(next.items, id)
                || (r.items.spec_map(id) is None && beyond_i32(self.items.spec_through(next.items, id))),
            forall|id: u32| #[trigger] r.sounds.spec_map(id) == self.sounds.spec_through(next.sounds, id)
                || (r.sounds.spec_map(id) is None && beyond_i32(self.sounds.spec_through(next.sounds, id))),
            forall|id: u32| #[trigger] r.blockentities.spec_map(id) == self.blockentities.spec_through(next.blockentities, id)
                || (r.blockentities.spec_map(id) is None && beyond_i32(self.blockentities.spec_through(next.blockentities, id))),
            forall|id: u32| #[trigger] r.entities.spec_map(id) == self.entities.spec_through(next.entities, id)
                || (r.entities.spec_map(id) is None && beyond_i32(self.entities.spec_through(next.entities, id))),
            forall|id: u32| #[trigger] r.particles.spec_map(id) == self.particles.spec_through(next.particles, id)
                || (r.particles.spec_map(id) is None && beyond_i32(self.particles.spec_through(next.particles, id))),
            forall|id: u32| #[trigger] r.argumenttypes.spec_map(id) == self.argumenttypes.spec_through(next.argumenttypes, id)
                || (r.argumenttypes.spec_map(id) is None && beyond_i32(self.argumenttypes.spec_through(next.argumenttypes, id))),
            forall|id: u32| #[trigger] r.statistics.spec_map(id) == self.statistics.spec_through(next.statistics, id)
                || (r.statistics.spec_map(id) is None && beyond_i32(self.statistics.spec_through(next.statistics, id))),
            forall|id: u32| #[trigger] r.recipe_serializers.spec_map(id) == self.recipe_serializers.spec_through(next.recipe_serializers, id)
                || (r.recipe_serializers.spec_map(id) is None && beyond_i32(self.recipe_serializers.spec_through(next.recipe_serializers, id))),
            forall|id: u32| #[trigger] r.slot_displays.spec_map(id) == self.slot_displays.spec_through(next.slot_displays, id)
                || (r.slot_displays.spec_map(id) is None && beyond_i32(self.slot_displays.spec_through(next.slot_displays, id))),
            forall|id: u32| #[trigger] r.data_component_type.spec_map(id) == self.data_component_type.spec_through(next.data_component_type, id)
                || (r.data_component_type.spec_map(id) is None && beyond_i32(self.data_component_type.spec_through(next.data_component_type, id))),
            forall|id: u32| #[trigger] r.menus.spec_map(id) == self.menus.spec_through(next.menus, id)
                || (r.menus.spec_map(id) is None && beyond_i32(self.menus.spec_through(next.menus, id))),
            forall|id: u32| #[trigger] r.attributes.spec_map(id) == self.attributes.spec_through(next.attributes, id)
                || (r.attributes.spec_map(id) is None && beyond_i32(self.attributes.spec_through(next.attributes, id))),
            forall|id: u32| #[trigger] r.enchantments.spec_map(id) == self.enchantments.spec_through(next.enchantments, id)
                || (r.enchantments.spec_map(id) is None && beyond_i32(self.enchantments.spec_through(next.enchantments, id))),
            forall|id: u32| #[trigger] r.paintings.spec_map(id) == self.paintings.spec_through(next.paintings, id)
                || (r.paintings.spec_map(id) is None && beyond_i32(self.paintings.spec_through(next.paintings, id))),
            r.enchantment_keys@ == self.enchantment_keys@,
    {
        ComposedMappings {
            blockstates: self.blockstates.compose(&next.blockstates),
            blocks: self.blocks.compose(&next.blocks),
            items: self.items.compose(&next.items),
            sounds: self.sounds.compose(&next.sounds),
            blockentities: self.blockentities.compose(&next.blockentities),
            entities: self.entities.compose(&next.entities),
            particles: self.particles.compose(&next.particles),
            argumenttypes: self.argumenttypes.compose(&next.argumenttypes),
            statistics: self.statistics.compose(&next.statistics),
            recipe_serializers: self.recipe_serializers.compose(&next.recipe_serializers),
            slot_displays: self.slot_displays.compose(&next.slot_displays),
            data_component_type: self.data_component_type.compose(&next.data_component_type),
            menus: self.menus.compose(&next.menus),
            attributes: self.attributes.compose(&next.attributes),
            enchantments: self.enchantments.compose(&next.enchantments),
            paintings: self.paintings.compose(&next.paintings),
            enchantment_keys: copy_keys(&self.enchantment_keys),
        }
    }

    /// Item ids of the client mapped back onto the newest protocol's.
    pub fn items_inverse(&self) -> (r: IdMapping)
        ensures
            forall|target: u32| #[trigger] r.spec_map(target) matches Some(id)
                ==> self.items.is_least_preimage(id, target),
            forall|target: u32, id: u32| #[trigger] r.spec_map(target) is None
                && id <= i32::MAX && #[trigger] self.items.spec_map(id) == Some(target) ==> false,
    {
        self.items.inverse()
    }

    /// Data component ids of the client mapped back onto the newest protocol's.
    pub fn data_component_type_inverse(&self) -> (r: IdMapping)
        ensures
            forall|target: u32| #[trigger] r.spec_map(target) matches Some(id)
                ==> self.data_component_type.is_least_preimage(id, target),
            forall|target: u32, id: u32| #[trigger] r.spec_map(target) is None
                && id <= i32::MAX && #[trigger] self.data_component_type.spec_map(id) == Some(target) ==> false,
    {
        self.data_component_type.inverse()
    }
}

} // verus!
