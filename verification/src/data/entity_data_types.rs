//! Entity metadata serializers: what each of the newest protocol's
//! serializer ids puts on the wire, and its id on each older version.

use vstd::prelude::*;
use vstd::string::StringSliceAdditionalSpecFns;
use crate::packet::update_tags::bytes_eq;
use crate::version::JavaMinecraftVersion;

verus! {

/// What a serializer id of the newest protocol puts on the wire.
#[derive(Clone, Copy, Debug, PartialEq, Eq, Structural)]
pub enum MetaKind {
    Byte,
    VarInt,
    VarLong,
    Float,
    String,
    Component,
    OptionalComponent,
    Item,
    Bool,
    Rotations,
    BlockPos,
    OptionalBlockPos,
    OptionalUuid,
    BlockState,
    OptionalBlockState,
    Particle,
    Particles,
    VillagerData,
    PaintingVariant,
    Vector3,
    Quaternion,
}

/// Whether `name` ends in `_variant`, as the names of the variant
/// registries do.
pub open spec fn ends_with_variant(name: Seq<u8>) -> bool {
    name.len() >= "_variant".spec_bytes().len()
        && name.subrange(name.len() - "_variant".spec_bytes().len(), name.len() as int) == "_variant".spec_bytes()
}

/// What the serializer named `name` puts on the wire. The plain ints, the
/// enum like states and every variant registry are `VarInt`s;
/// `optional_global_pos` and `resolvable_profile`, which nothing writes,
/// have no reader.
pub open spec fn spec_kind_for_name(name: Seq<u8>) -> Option<MetaKind> {
    if false {
        None
    } else if name == "byte".spec_bytes() {
        Some(MetaKind::Byte)
    } else if name == "long".spec_bytes() {
        Some(MetaKind::VarLong)
    } else if name == "float".spec_bytes() {
        Some(MetaKind::Float)
    } else if name == "string".spec_bytes() {
        Some(MetaKind::String)
    } else if name == "component".spec_bytes() {
        Some(MetaKind::Component)
    } else if name == "optional_component".spec_bytes() {
        Some(MetaKind::OptionalComponent)
    } else if name == "item_stack".spec_bytes() {
        Some(MetaKind::Item)
    } else if name == "boolean".spec_bytes() {
        Some(MetaKind::Bool)
    } else if name == "rotations".spec_bytes() {
        Some(MetaKind::Rotations)
    } else if name == "block_pos".spec_bytes() {
        Some(MetaKind::BlockPos)
    } else if name == "optional_block_pos".spec_bytes() {
        Some(MetaKind::OptionalBlockPos)
    } else if name == "optional_living_entity_reference".spec_bytes() {
        Some(MetaKind::OptionalUuid)
    } else if name == "block_state".spec_bytes() {
        Some(MetaKind::BlockState)
    } else if name == "optional_block_state".spec_bytes() {
        Some(MetaKind::OptionalBlockState)
    } else if name == "particle".spec_bytes() {
        Some(MetaKind::Particle)
    } else if name == "particles".spec_bytes() {
        Some(MetaKind::Particles)
    } else if name == "villager_data".spec_bytes() {
        Some(MetaKind::VillagerData)
    } else if name == "painting_variant".spec_bytes() {
        Some(MetaKind::PaintingVariant)
    } else if name == "vector3".spec_bytes() {
        Some(MetaKind::Vector3)
    } else if name == "quaternion".spec_bytes() {
        Some(MetaKind::Quaternion)
    } else if name == "int".spec_bytes() || name == "direction".spec_bytes() || name == "optional_unsigned_int".spec_bytes() || name == "pose".spec_bytes() || name == "sniffer_state".spec_bytes() || name == "armadillo_state".spec_bytes() || name == "copper_golem_state".spec_bytes() || name == "weathering_copper_state".spec_bytes() || name == "humanoid_arm".spec_bytes() || name == "dye_color".spec_bytes() {
        Some(MetaKind::VarInt)
    } else if ends_with_variant(name) {
        Some(MetaKind::VarInt)
    } else {
        None
    }
}

/// What the serializer named `name` puts on the wire.
pub fn kind_for_name(name: &[u8]) -> (r: Option<MetaKind>)
    ensures
        r == spec_kind_for_name(name@),
{
    if bytes_eq(name, "byte".as_bytes()) {
        return Some(MetaKind::Byte);
    }
    if bytes_eq(name, "long".as_bytes()) {
        return Some(MetaKind::VarLong);
    }
    if bytes_eq(name, "float".as_bytes()) {
        return Some(MetaKind::Float);
    }
    if bytes_eq(name, "string".as_bytes()) {
        return Some(MetaKind::String);
    }
    if bytes_eq(name, "component".as_bytes()) {
        return Some(MetaKind::Component);
    }
    if bytes_eq(name, "optional_component".as_bytes()) {
        return Some(MetaKind::OptionalComponent);
    }
    if bytes_eq(name, "item_stack".as_bytes()) {
        return Some(MetaKind::Item);
    }
    if bytes_eq(name, "boolean".as_bytes()) {
        return Some(MetaKind::Bool);
    }
    if bytes_eq(name, "rotations".as_bytes()) {
        return Some(MetaKind::Rotations);
    }
    if bytes_eq(name, "block_pos".as_bytes()) {
        return Some(MetaKind::BlockPos);
    }
    if bytes_eq(name, "optional_block_pos".as_bytes()) {
        return Some(MetaKind::OptionalBlockPos);
    }
    if bytes_eq(name, "optional_living_entity_reference".as_bytes()) {
        return Some(MetaKind::OptionalUuid);
    }
    if bytes_eq(name, "block_state".as_bytes()) {
        return Some(MetaKind::BlockState);
    }
    if bytes_eq(name, "optional_block_state".as_bytes()) {
        return Some(MetaKind::OptionalBlockState);
    }
    if bytes_eq(name, "particle".as_bytes()) {
        return Some(MetaKind::Particle);
    }
    if bytes_eq(name, "particles".as_bytes()) {
        return Some(MetaKind::Particles);
    }
    if bytes_eq(name, "villager_data".as_bytes()) {
        return Some(MetaKind::VillagerData);
    }
    if bytes_eq(name, "painting_variant".as_bytes()) {
        return Some(MetaKind::PaintingVariant);
    }
    if bytes_eq(name, "vector3".as_bytes()) {
        return Some(MetaKind::Vector3);
    }
    if bytes_eq(name, "quaternion".as_bytes()) {
        return Some(MetaKind::Quaternion);
    }
    if bytes_eq(name, "int".as_bytes()) {
        return Some(MetaKind::VarInt);
    }
    if bytes_eq(name, "direction".as_bytes()) {
        return Some(MetaKind::VarInt);
    }
    if bytes_eq(name, "optional_unsigned_int".as_bytes()) {
        return Some(MetaKind::VarInt);
    }
    if bytes_eq(name, "pose".as_bytes()) {
        return Some(MetaKind::VarInt);
    }
    if bytes_eq(name, "sniffer_state".as_bytes()) {
        return Some(MetaKind::VarInt);
    }
    if bytes_eq(name, "armadillo_state".as_bytes()) {
        return Some(MetaKind::VarInt);
    }
    if bytes_eq(name, "copper_golem_state".as_bytes()) {
        return Some(MetaKind::VarInt);
    }
    if bytes_eq(name, "weathering_copper_state".as_bytes()) {
        return Some(MetaKind::VarInt);
    }
    if bytes_eq(name, "humanoid_arm".as_bytes()) {
        return Some(MetaKind::VarInt);
    }
    if bytes_eq(name, "dye_color".as_bytes()) {
        return Some(MetaKind::VarInt);
    }
    let suffix = "_variant".as_bytes();
    proof {
        reveal_strlit("_variant");
        broadcast use vstd::string::is_ascii_spec_bytes;
        assert(vstd::string::is_ascii("_variant"));
    }
    if name.len() >= suffix.len()
        && bytes_eq(vstd::slice::slice_subrange(name, name.len() - suffix.len(), name.len()), suffix)
    {
        return Some(MetaKind::VarInt);
    }
    None
}

/// The other names the serializer named `name` went by in older versions,
/// in the order they are tried.
pub open spec fn spec_aliases(name: Seq<u8>) -> Seq<Seq<u8>> {
    if false {
        Seq::empty()
    } else if name == "int".spec_bytes() {
        seq!["integer".spec_bytes()]
    } else if name == "component".spec_bytes() {
        seq!["text_component".spec_bytes()]
    } else if name == "optional_component".spec_bytes() {
        seq!["optional_text_component".spec_bytes()]
    } else if name == "rotations".spec_bytes() {
        seq!["rotation".spec_bytes()]
    } else if name == "direction".spec_bytes() {
        seq!["facing".spec_bytes()]
    } else if name == "optional_living_entity_reference".spec_bytes() {
        seq!["lazy_entity_reference".spec_bytes(), "optional_uuid".spec_bytes()]
    } else if name == "particles".spec_bytes() {
        seq!["particle_list".spec_bytes()]
    } else if name == "optional_unsigned_int".spec_bytes() {
        seq!["optional_int".spec_bytes()]
    } else if name == "pose".spec_bytes() {
        seq!["entity_pose".spec_bytes()]
    } else if name == "vector3".spec_bytes() {
        seq!["vector_3f".spec_bytes()]
    } else if name == "quaternion".spec_bytes() {
        seq!["quaternion_f".spec_bytes()]
    } else if name == "weathering_copper_state".spec_bytes() {
        seq!["oxidation_level".spec_bytes()]
    } else if name == "resolvable_profile".spec_bytes() {
        seq!["profile".spec_bytes()]
    } else if name == "humanoid_arm".spec_bytes() {
        seq!["arm".spec_bytes()]
    } else {
        Seq::empty()
    }
}

/// The names a serializer went by in older versions.
pub fn aliases(name: &[u8]) -> (r: Vec<&'static [u8]>)
    ensures
        r@.map_values(|a: &[u8]| a@) == spec_aliases(name@),
{
    let mut out: Vec<&'static [u8]> = Vec::new();
    if bytes_eq(name, "int".as_bytes()) {
        out.push("integer".as_bytes());
        assert(out@.map_values(|a: &[u8]| a@) =~= spec_aliases(name@));
        return out;
    }
    if bytes_eq(name, "component".as_bytes()) {
        out.push("text_component".as_bytes());
        assert(out@.map_values(|a: &[u8]| a@) =~= spec_aliases(name@));
        return out;
    }
    if bytes_eq(name, "optional_component".as_bytes()) {
        out.push("optional_text_component".as_bytes());
        assert(out@.map_values(|a: &[u8]| a@) =~= spec_aliases(name@));
        return out;
    }
    if bytes_eq(name, "rotations".as_bytes()) {
        out.push("rotation".as_bytes());
        assert(out@.map_values(|a: &[u8]| a@) =~= spec_aliases(name@));
        return out;
    }
    if bytes_eq(name, "direction".as_bytes()) {
        out.push("facing".as_bytes());
        assert(out@.map_values(|a: &[u8]| a@) =~= spec_aliases(name@));
        return out;
    }
    if bytes_eq(name, "optional_living_entity_reference".as_bytes()) {
        out.push("lazy_entity_reference".as_bytes());
        out.push("optional_uuid".as_bytes());
        assert(out@.map_values(|a: &[u8]| a@) =~= spec_aliases(name@));
        return out;
    }
    if bytes_eq(name, "particles".as_bytes()) {
        out.push("particle_list".as_bytes());
        assert(out@.map_values(|a: &[u8]| a@) =~= spec_aliases(name@));
        return out;
    }
    if bytes_eq(name, "optional_unsigned_int".as_bytes()) {
        out.push("optional_int".as_bytes());
        assert(out@.map_values(|a: &[u8]| a@) =~= spec_aliases(name@));
        return out;
    }
    if bytes_eq(name, "pose".as_bytes()) {
        out.push("entity_pose".as_bytes());
        assert(out@.map_values(|a: &[u8]| a@) =~= spec_aliases(name@));
        return out;
    }
    if bytes_eq(name, "vector3".as_bytes()) {
        out.push("vector_3f".as_bytes());
        assert(out@.map_values(|a: &[u8]| a@) =~= spec_aliases(name@));
        return out;
    }
    if bytes_eq(name, "quaternion".as_bytes()) {
        out.push("quaternion_f".as_bytes());
        assert(out@.map_values(|a: &[u8]| a@) =~= spec_aliases(name@));
        return out;
    }
    if bytes_eq(name, "weathering_copper_state".as_bytes()) {
        out.push("oxidation_level".as_bytes());
        assert(out@.map_values(|a: &[u8]| a@) =~= spec_aliases(name@));
        return out;
    }
    if bytes_eq(name, "resolvable_profile".as_bytes()) {
        out.push("profile".as_bytes());
        assert(out@.map_values(|a: &[u8]| a@) =~= spec_aliases(name@));
        return out;
    }
    if bytes_eq(name, "humanoid_arm".as_bytes()) {
        out.push("arm".as_bytes());
        assert(out@.map_values(|a: &[u8]| a@) =~= spec_aliases(name@));
        return out;
    }
    assert(out@.map_values(|a: &[u8]| a@) =~= spec_aliases(name@));
    out
}

/// The id of the first entry named `name` in `table` from entry `i` on.
pub open spec fn table_id(table: Seq<(Seq<u8>, i32)>, name: Seq<u8>, i: int) -> Option<i32>
    decreases table.len() - i,
{
    if i < 0 || i >= table.len() {
        None
    } else if table[i].0 == name {
        Some(table[i].1)
    } else {
        table_id(table, name, i + 1)
    }
}

/// The id in `table` of the first of `names` from the `i`th on that it lists.
pub open spec fn first_listed(table: Seq<(Seq<u8>, i32)>, names: Seq<Seq<u8>>, i: int) -> Option<i32>
    decreases names.len() - i,
{
    if i < 0 || i >= names.len() {
        None
    } else {
        match table_id(table, names[i], 0) {
            Some(id) => Some(id),
            None => first_listed(table, names, i + 1),
        }
    }
}

/// The id a version whose table is `target` gives the serializer named
/// `name`: under its own name, else under the first alias it lists.
pub open spec fn id_in(target: Seq<(Seq<u8>, i32)>, name: Seq<u8>) -> Option<i32> {
    first_listed(target, seq![name] + spec_aliases(name), 0)
}

/// The entries of a table as plain values.
pub open spec fn entries_view(table: Seq<(Vec<u8>, i32)>) -> Seq<(Seq<u8>, i32)> {
    table.map_values(|e: (Vec<u8>, i32)| (e.0@, e.1))
}

/// One more than the highest id of the first `n` entries of `base`, and at
/// least one.
pub open spec fn table_size(base: Seq<(Seq<u8>, i32)>, n: nat) -> nat
    decreases n,
{
    if n == 0 || n > base.len() {
        1
    } else {
        let rest = table_size(base, (n - 1) as nat);
        let id = base[n - 1].1;
        if id + 1 > rest { (id + 1) as nat } else { rest }
    }
}

/// The first `n` entries of `base` spread by id over `size` slots, each slot
/// holding `value` of the last entry with that id and `None` where none has it.
pub open spec fn spread<T>(base: Seq<(Seq<u8>, i32)>, n: nat, size: nat, value: spec_fn(Seq<u8>) -> Option<T>) -> Seq<Option<T>>
    decreases n,
{
    if n == 0 || n > base.len() {
        Seq::new(size, |i: int| None)
    } else {
        let prev = spread(base, (n - 1) as nat, size, value);
        let id = base[n - 1].1;
        if 0 <= id < size { prev.update(id as int, value(base[n - 1].0)) } else { prev }
    }
}

/// Serializer ids per version and what each of the newest protocol's puts
/// on the wire.
pub struct MetaTypeTables {
    /// Each version with a table of its own, oldest first, and the id it
    /// gives each of the newest protocol's serializers.
    pub ids: Vec<(JavaMinecraftVersion, Vec<Option<i32>>)>,
    /// What each of the newest protocol's serializer ids puts on the wire.
    pub kinds: Vec<Option<MetaKind>>,
}

/// Whether every id of `base` can index a table.
pub open spec fn ids_fit(base: Seq<(Seq<u8>, i32)>) -> bool {
    forall|i: int| 0 <= i < base.len() ==> 0 <= #[trigger] base[i].1 < i32::MAX
}

fn id_of(table: &Vec<(Vec<u8>, i32)>, name: &[u8]) -> (r: Option<i32>)
    ensures
        r == table_id(entries_view(table@), name@, 0),
{
    let mut i: usize = 0;
    while i < table.len()
        invariant
            i <= table@.len(),
            table_id(entries_view(table@), name@, 0) == table_id(entries_view(table@), name@, i as int),
        decreases table@.len() - i,
    {
        if bytes_eq(table[i].0.as_slice(), name) {
            return Some(table[i].1);
        }
        i = i + 1;
    }
    None
}

fn id_on(target: &Vec<(Vec<u8>, i32)>, name: &[u8]) -> (r: Option<i32>)
    ensures
        r == id_in(entries_view(target@), name@),
{
    match id_of(target, name) {
        Some(id) => return Some(id),
        None => {},
    }
    let others = aliases(name);
    let ghost names = seq![name@] + spec_aliases(name@);
    assert(others@.map_values(|a: &[u8]| a@) =~= names.skip(1));
    let mut i: usize = 0;
    while i < others.len()
        invariant
            i <= others@.len(),
            others@.map_values(|a: &[u8]| a@) == names.skip(1),
            names.len() == others@.len() + 1,
            names == seq![name@] + spec_aliases(name@),
            names[0] == name@,
            table_id(entries_view(target@), name@, 0) is None,
            first_listed(entries_view(target@), names, 0) == first_listed(entries_view(target@), names, i + 1),
        decreases others@.len() - i,
    {
        let ghost alias = others@[i as int]@;
        assert(others@.map_values(|a: &[u8]| a@)[i as int] == alias);
        assert(names.skip(1)[i as int] == names[i + 1]);
        match id_of(target, others[i]) {
            Some(id) => return Some(id),
            None => {},
        }
        i = i + 1;
    }
    None
}

impl MetaTypeTables {
    /// What the newest protocol's serializer `id` puts on the wire, `None`
    /// for one this never sees on the wire.
    pub open spec fn spec_meta_kind(&self, id: i32) -> Option<MetaKind> {
        if 0 <= id < self.kinds@.len() { self.kinds@[id as int] } else { None }
    }

    /// What the newest protocol's serializer `id` puts on the wire.
    pub fn meta_kind(&self, id: i32) -> (r: Option<MetaKind>)
        ensures
            r == self.spec_meta_kind(id),
    {
        if id >= 0 && (id as usize) < self.kinds.len() { self.kinds[id as usize] } else { None }
    }

    /// The table `version` reads: that of the newest version with a table
    /// at or below it, else the last one listed.
    pub open spec fn table_for(&self, version: JavaMinecraftVersion) -> Option<Seq<Option<i32>>> {
        match self.newest_at_or_below(version, self.ids@.len() as int) {
            Some(i) => Some(self.ids@[i].1@),
            None => if self.ids@.len() > 0 { Some(self.ids@.last().1@) } else { None },
        }
    }

    /// The last of the first `n` tables whose version is at or below `version`.
    pub open spec fn newest_at_or_below(&self, version: JavaMinecraftVersion, n: int) -> Option<int>
        decreases n,
    {
        if n <= 0 || n > self.ids@.len() {
            None
        } else if self.ids@[n - 1].0.spec_at_most(version) {
            Some(n - 1)
        } else {
            self.newest_at_or_below(version, n - 1)
        }
    }

    /// The id `version` gives the newest protocol's serializer `id`, `None`
    /// for a type it does not have.
    pub open spec fn spec_type_id_for_version(&self, id: i32, version: JavaMinecraftVersion) -> Option<i32> {
        match self.table_for(version) {
            Some(table) => if 0 <= id < table.len() { table[id as int] } else { None },
            None => None,
        }
    }

    /// Maps the newest protocol's serializer `id` onto `version`.
    pub fn meta_data_type_id_for_version(&self, id: i32, version: JavaMinecraftVersion) -> (r: Option<i32>)
        ensures
            r == self.spec_type_id_for_version(id, version),
    {
        let mut n = self.ids.len();
        while n > 0
            invariant
                n <= self.ids@.len(),
                self.newest_at_or_below(version, self.ids@.len() as int) == self.newest_at_or_below(version, n as int),
            decreases n,
        {
            if self.ids[n - 1].0.at_most(version) {
                let table = &self.ids[n - 1].1;
                return if id >= 0 && (id as usize) < table.len() { table[id as usize] } else { None };
            }
            n = n - 1;
        }
        if self.ids.len() == 0 {
            return None;
        }
        let table = &self.ids[self.ids.len() - 1].1;
        if id >= 0 && (id as usize) < table.len() { table[id as usize] } else { None }
    }
}

/// What each of the newest protocol's serializer ids puts on the wire, by
/// the names its table `base` gives them.
pub open spec fn built_kinds(base: Seq<(Seq<u8>, i32)>) -> Seq<Option<MetaKind>> {
    spread(base, base.len(), table_size(base, base.len()), |name: Seq<u8>| spec_kind_for_name(name))
}

/// The id a version whose table is `target` gives each of the newest
/// protocol's serializer ids.
pub open spec fn built_ids(base: Seq<(Seq<u8>, i32)>, target: Seq<(Seq<u8>, i32)>) -> Seq<Option<i32>> {
    spread(base, base.len(), table_size(base, base.len()), |name: Seq<u8>| id_in(target, name))
}

fn base_size(base: &Vec<(Vec<u8>, i32)>) -> (r: usize)
    requires
        ids_fit(entries_view(base@)),
    ensures
        r == table_size(entries_view(base@), base@.len()),
        r <= i32::MAX,
{
    let mut size: usize = 1;
    let mut i: usize = 0;
    while i < base.len()
        invariant
            i <= base@.len(),
            ids_fit(entries_view(base@)),
            size == table_size(entries_view(base@), i as nat),
            1 <= size <= i32::MAX,
        decreases base@.len() - i,
    {
        let id = base[i].1;
        assert(entries_view(base@)[i as int].1 == id);
        if (id as usize) + 1 > size {
            size = (id as usize) + 1;
        }
        i = i + 1;
    }
    size
}

fn kinds_table(base: &Vec<(Vec<u8>, i32)>, size: usize) -> (r: Vec<Option<MetaKind>>)
    requires
        ids_fit(entries_view(base@)),
        size == table_size(entries_view(base@), base@.len()),
    ensures
        r@ == built_kinds(entries_view(base@)),
{
    let ghost f = |name: Seq<u8>| spec_kind_for_name(name);
    let mut table: Vec<Option<MetaKind>> = Vec::new();
    while table.len() < size
        invariant
            table@.len() <= size,
            forall|k: int| 0 <= k < table@.len() ==> table@[k] is None,
        decreases size - table@.len(),
    {
        table.push(None);
    }
    assert(table@ =~= spread(entries_view(base@), 0, size as nat, f));
    let mut i: usize = 0;
    while i < base.len()
        invariant
            i <= base@.len(),
            table@ == spread(entries_view(base@), i as nat, size as nat, f),
            table@.len() == size,
            f == (|name: Seq<u8>| spec_kind_for_name(name)),
        decreases base@.len() - i,
    {
        let id = base[i].1;
        assert(entries_view(base@)[i as int] == (base@[i as int].0@, id));
        if id >= 0 && (id as usize) < size {
            table.set(id as usize, kind_for_name(base[i].0.as_slice()));
        }
        i = i + 1;
    }
    table
}

fn ids_table(base: &Vec<(Vec<u8>, i32)>, size: usize, target: &Vec<(Vec<u8>, i32)>) -> (r: Vec<Option<i32>>)
    requires
        ids_fit(entries_view(base@)),
        size == table_size(entries_view(base@), base@.len()),
    ensures
        r@ == built_ids(entries_view(base@), entries_view(target@)),
{
    let ghost f = |name: Seq<u8>| id_in(entries_view(target@), name);
    let mut table: Vec<Option<i32>> = Vec::new();
    while table.len() < size
        invariant
            table@.len() <= size,
            forall|k: int| 0 <= k < table@.len() ==> table@[k] is None,
        decreases size - table@.len(),
    {
        table.push(None);
    }
    assert(table@ =~= spread(entries_view(base@), 0, size as nat, f));
    let mut i: usize = 0;
    while i < base.len()
        invariant
            i <= base@.len(),
            table@ == spread(entries_view(base@), i as nat, size as nat, f),
            table@.len() == size,
            f == (|name: Seq<u8>| id_in(entries_view(target@), name)),
        decreases base@.len() - i,
    {
        let id = base[i].1;
        assert(entries_view(base@)[i as int] == (base@[i as int].0@, id));
        if id >= 0 && (id as usize) < size {
            table.set(id as usize, id_on(target, base[i].0.as_slice()));
        }
        i = i + 1;
    }
    table
}

impl MetaTypeTables {
    /// Builds the tables from the newest protocol's serializer table `base`
    /// and each version's own, oldest first.
    pub fn build(base: &Vec<(Vec<u8>, i32)>, files: &Vec<(JavaMinecraftVersion, Vec<(Vec<u8>, i32)>)>) -> (r: MetaTypeTables)
        requires
            ids_fit(entries_view(base@)),
        ensures
            r.kinds@ == built_kinds(entries_view(base@)),
            r.ids@.len() == files@.len(),
            forall|i: int| 0 <= i < files@.len() ==> {
                &&& (#[trigger] r.ids@[i]).0 == files@[i].0
                &&& r.ids@[i].1@ == built_ids(entries_view(base@), entries_view(files@[i].1@))
            },
    {
        let size = base_size(base);
        let kinds = kinds_table(base, size);
        let mut ids: Vec<(JavaMinecraftVersion, Vec<Option<i32>>)> = Vec::new();
        let mut i: usize = 0;
        while i < files.len()
            invariant
                i <= files@.len(),
                ids_fit(entries_view(base@)),
                size == table_size(entries_view(base@), base@.len()),
                ids@.len() == i,
                forall|j: int| 0 <= j < i ==> {
                    &&& (#[trigger] ids@[j]).0 == files@[j].0
                    &&& ids@[j].1@ == built_ids(entries_view(base@), entries_view(files@[j].1@))
                },
            decreases files@.len() - i,
        {
            let table = ids_table(base, size, &files[i].1);
            ids.push((files[i].0, table));
            i = i + 1;
        }
        MetaTypeTables { ids, kinds }
    }
}

} // verus!
