//! Rewrites `UPDATE_TAGS` for the client's registries and id numbering.
//!
//! A group for a registry the client lacks is fatal rather than skipped,
//! member ids are the newest protocol's, and tags the client's own datapack
//! had that the newest one dropped are still referenced by that version's
//! registry entries. So groups the client cannot resolve are dropped, members
//! are renumbered, and missing tags are added back.
//!
//! 1.16.2 to 1.16.5 send four fixed tag lists (blocks, items, fluids, entity
//! types) with no registry names on the wire; the registry map starts at 1.17.
//! No group can be dropped in the fixed shape since the client reads by
//! position.

use vstd::prelude::*;
use vstd::slice::slice_subrange;
use vstd::string::StringSliceAdditionalSpecFns;
use crate::api::types::{WireType, STRING, VAR_INT, encode_items, write_items};
use crate::codec::{append_bytes, var_int_bytes, write_var_int};
use crate::data::mappings::IdMapping;
use crate::packet::chunk_legacy::{field, var_ints};
use crate::api::rewriter::item::{map_id, mapped_id};
use crate::version::JavaMinecraftVersion;

verus! {

/// One tag: its name and its member ids.
pub struct Tag {
    pub name: Vec<u8>,
    pub ids: Vec<i32>,
}

/// A tag as plain values.
pub struct TagView {
    pub name: Seq<u8>,
    pub ids: Seq<i32>,
}

impl View for Tag {
    type V = TagView;

    open spec fn view(&self) -> TagView {
        TagView { name: self.name@, ids: self.ids@ }
    }
}

/// The tags of one registry; the registry is empty in the fixed shape, which
/// names none.
pub struct Group {
    pub registry: Vec<u8>,
    pub tags: Vec<Tag>,
}

/// A group as plain values.
pub struct GroupView {
    pub registry: Seq<u8>,
    pub tags: Seq<TagView>,
}

/// The views of `tags`.
pub open spec fn tag_views(tags: Seq<Tag>) -> Seq<TagView> {
    tags.map_values(|t: Tag| t@)
}

impl View for Group {
    type V = GroupView;

    open spec fn view(&self) -> GroupView {
        GroupView { registry: self.registry@, tags: tag_views(self.tags@) }
    }
}

/// The views of `groups`.
pub open spec fn group_views(groups: Seq<Group>) -> Seq<GroupView> {
    groups.map_values(|g: Group| g@)
}

/// A tag a client version's own datapack has and the newest one dropped.
pub struct ExtraTag {
    /// The registry, without namespace.
    pub registry: Vec<u8>,
    /// The tag's name, without namespace.
    pub tag: Vec<u8>,
    pub members: Vec<u16>,
}

/// An extra tag as plain values.
pub struct ExtraTagView {
    pub registry: Seq<u8>,
    pub tag: Seq<u8>,
    pub members: Seq<u16>,
}

impl View for ExtraTag {
    type V = ExtraTagView;

    open spec fn view(&self) -> ExtraTagView {
        ExtraTagView { registry: self.registry@, tag: self.tag@, members: self.members@ }
    }
}

/// What one client version's tags are rewritten with: the registries it
/// knows, without namespace, the tags it has that the newest version
/// dropped, and the id renumbering of each registry whose ids differ.
pub struct TagData {
    pub registries: Vec<Vec<u8>>,
    pub extras: Vec<ExtraTag>,
    pub mappers: Vec<(Vec<u8>, IdMapping)>,
}

impl TagData {
    /// The registries the version knows.
    pub open spec fn registry_names(&self) -> Seq<Seq<u8>> {
        self.registries@.map_values(|r: Vec<u8>| r@)
    }

    /// The extra tags of the version.
    pub open spec fn extra_views(&self) -> Seq<ExtraTagView> {
        self.extras@.map_values(|e: ExtraTag| e@)
    }

    /// The renumberings by registry.
    pub open spec fn mapper_views(&self) -> Seq<(Seq<u8>, IdMapping)> {
        self.mappers@.map_values(|m: (Vec<u8>, IdMapping)| (m.0@, m.1))
    }
}

/// First version whose `UPDATE_TAGS` names the registry of each group.
pub const FIRST_WITH_REGISTRY_NAMES: JavaMinecraftVersion = JavaMinecraftVersion::V_1_17;

/// The namespace every registry and tag of the game lives in.
pub open spec fn namespace() -> Seq<u8> {
    "minecraft:".spec_bytes()
}

/// `name` with the namespace in front.
pub open spec fn namespaced(name: Seq<u8>) -> Seq<u8> {
    namespace() + name
}

/// `name` without the namespace where it starts with it.
pub open spec fn bare(name: Seq<u8>) -> Seq<u8> {
    if name.len() >= namespace().len() && name.take(namespace().len() as int) == namespace() {
        name.skip(namespace().len() as int)
    } else {
        name
    }
}

/// The four registries 1.16.2 to 1.16.5 send lists for, in wire order.
pub open spec fn fixed_registries() -> Seq<Seq<u8>> {
    seq!["block".spec_bytes(), "item".spec_bytes(), "fluid".spec_bytes(), "entity_type".spec_bytes()]
}

// ---------------------------------------------------------------------------
// Reading
// ---------------------------------------------------------------------------

/// A tag at `pos`: a name and a counted list of ids.
pub open spec fn tag_field(b: Seq<u8>, pos: int) -> Option<(TagView, int)> {
    match field(STRING, b, pos) {
        Some((name, p1)) => match field(var_ints(), b, p1) {
            Some((ids, p2)) => Some((TagView { name, ids }, p2)),
            None => None,
        },
        None => None,
    }
}

/// `n` tags from `pos`, after `acc`.
pub open spec fn tags_items(b: Seq<u8>, pos: int, n: nat, acc: Seq<TagView>) -> Option<(Seq<TagView>, int)>
    decreases n,
{
    if n == 0 {
        if 0 <= pos <= b.len() { Some((acc, pos)) } else { None }
    } else {
        match tag_field(b, pos) {
            Some((tag, p)) => tags_items(b, p, (n - 1) as nat, acc.push(tag)),
            None => None,
        }
    }
}

/// A tag list at `pos`: a count, refused where negative, and that many tags.
pub open spec fn tags_field(b: Seq<u8>, pos: int) -> Option<(Seq<TagView>, int)> {
    match field(VAR_INT, b, pos) {
        Some((count, p)) => if count < 0 { None } else { tags_items(b, p, count as nat, Seq::empty()) },
        None => None,
    }
}

/// `n` fixed shape groups from `pos`, after `acc`: tag lists with no
/// registry name.
pub open spec fn fixed_items(b: Seq<u8>, pos: int, n: nat, acc: Seq<GroupView>) -> Option<(Seq<GroupView>, int)>
    decreases n,
{
    if n == 0 {
        if 0 <= pos <= b.len() { Some((acc, pos)) } else { None }
    } else {
        match tags_field(b, pos) {
            Some((tags, p)) => fixed_items(b, p, (n - 1) as nat, acc.push(GroupView { registry: Seq::empty(), tags })),
            None => None,
        }
    }
}

/// The 1.16.2 to 1.16.5 shape: four tag lists and nothing else.
pub open spec fn fixed_groups(b: Seq<u8>) -> Option<Seq<GroupView>> {
    match fixed_items(b, 0, 4, Seq::empty()) {
        Some((groups, end)) => if end == b.len() { Some(groups) } else { None },
        None => None,
    }
}

/// `n` named groups from `pos`, after `acc`: a registry and a tag list each.
pub open spec fn named_items(b: Seq<u8>, pos: int, n: nat, acc: Seq<GroupView>) -> Option<(Seq<GroupView>, int)>
    decreases n,
{
    if n == 0 {
        if 0 <= pos <= b.len() { Some((acc, pos)) } else { None }
    } else {
        match field(STRING, b, pos) {
            Some((registry, p1)) => match tags_field(b, p1) {
                Some((tags, p2)) => named_items(b, p2, (n - 1) as nat, acc.push(GroupView { registry, tags })),
                None => None,
            },
            None => None,
        }
    }
}

/// The shape from 1.17: a count of groups, each naming its registry, and
/// nothing else.
pub open spec fn named_groups(b: Seq<u8>) -> Option<Seq<GroupView>> {
    match field(VAR_INT, b, 0) {
        Some((count, p)) => if count < 0 {
            None
        } else {
            match named_items(b, p, count as nat, Seq::empty()) {
                Some((groups, end)) => if end == b.len() { Some(groups) } else { None },
                None => None,
            }
        },
        None => None,
    }
}

// ---------------------------------------------------------------------------
// Writing
// ---------------------------------------------------------------------------

/// The renumbering of `registry` among `mappers` from entry `i`: the first
/// entry named so.
pub open spec fn mapper_from(mappers: Seq<(Seq<u8>, IdMapping)>, registry: Seq<u8>, i: int) -> Option<IdMapping>
    decreases mappers.len() - i,
{
    if i < 0 || i >= mappers.len() {
        None
    } else if mappers[i].0 == registry {
        Some(mappers[i].1)
    } else {
        mapper_from(mappers, registry, i + 1)
    }
}

/// Whether member `id` survives renumbering through `m`: an id of the
/// registry that maps somewhere.
pub open spec fn kept_member(m: IdMapping, id: i32) -> bool {
    0 <= id <= u16::MAX && map_id(m, id) is Some
}

/// The members `ids` renumbered through `m`, those it does not map left out.
pub open spec fn renumbered(ids: Seq<i32>, m: IdMapping) -> Seq<i32>
    decreases ids.len(),
{
    if ids.len() == 0 {
        Seq::empty()
    } else {
        let rest = renumbered(ids.drop_last(), m);
        if kept_member(m, ids.last()) { rest.push(map_id(m, ids.last())->Some_0) } else { rest }
    }
}

/// The members of a tag as written: renumbered where the registry has a
/// renumbering, else as they are.
pub open spec fn written_ids(ids: Seq<i32>, m: Option<IdMapping>) -> Seq<i32> {
    match m {
        Some(m) => renumbered(ids, m),
        None => ids,
    }
}

/// The bytes of `tags` with their members written through `m`, `None` where a
/// name or a member count cannot be written.
pub open spec fn tags_bytes(tags: Seq<TagView>, m: Option<IdMapping>) -> Option<Seq<u8>>
    decreases tags.len(),
{
    if tags.len() == 0 {
        Some(Seq::empty())
    } else {
        let tag = tags.last();
        let ids = written_ids(tag.ids, m);
        match tags_bytes(tags.drop_last(), m) {
            Some(rest) => if STRING.writable(tag.name) && ids.len() <= i32::MAX {
                Some(rest + STRING.encode(tag.name) + var_ints().encode(ids))
            } else {
                None
            },
            None => None,
        }
    }
}

/// Whether one of `tags` is named `name`.
pub open spec fn has_tag(tags: Seq<TagView>, name: Seq<u8>) -> bool {
    exists|i: int| 0 <= i < tags.len() && tags[i].name == name
}

/// The extra tags of `registry` among `extras`, as tags, leaving out those
/// `tags` already has.
pub open spec fn extras_for(extras: Seq<ExtraTagView>, registry: Seq<u8>, tags: Seq<TagView>) -> Seq<TagView>
    decreases extras.len(),
{
    if extras.len() == 0 {
        Seq::empty()
    } else {
        let rest = extras_for(extras.drop_last(), registry, tags);
        let e = extras.last();
        let tag = TagView { name: namespaced(e.tag), ids: e.members.map_values(|m: u16| m as i32) };
        if e.registry == registry && !has_tag(tags, tag.name) { rest.push(tag) } else { rest }
    }
}

/// The tag list of `registry` as written for the client: the group's tags and
/// the extras it lacks, each renumbered.
pub open spec fn group_bytes(data: TagData, registry: Seq<u8>, group: GroupView) -> Option<Seq<u8>> {
    let all = group.tags + extras_for(data.extra_views(), registry, group.tags);
    if all.len() > i32::MAX {
        None
    } else {
        match tags_bytes(all, mapper_from(data.mapper_views(), registry, 0)) {
            Some(bytes) => Some(var_int_bytes(all.len() as i32) + bytes),
            None => None,
        }
    }
}

/// The four fixed lists from `i` on, each with its registry's data.
pub open spec fn fixed_bytes(data: TagData, groups: Seq<GroupView>, i: nat, acc: Seq<u8>) -> Option<Seq<u8>>
    decreases 4 - i,
{
    if i >= 4 {
        Some(acc)
    } else {
        match group_bytes(data, fixed_registries()[i as int], groups[i as int]) {
            Some(bytes) => fixed_bytes(data, groups, i + 1, acc + bytes),
            None => None,
        }
    }
}

/// Whether the client knows `group`'s registry.
pub open spec fn known_group(data: TagData, group: GroupView) -> bool {
    data.registry_names().contains(bare(group.registry))
}

/// The groups the client knows, in order.
pub open spec fn known_groups(data: TagData, groups: Seq<GroupView>) -> Seq<GroupView>
    decreases groups.len(),
{
    if groups.len() == 0 {
        Seq::empty()
    } else {
        let rest = known_groups(data, groups.drop_last());
        if known_group(data, groups.last()) { rest.push(groups.last()) } else { rest }
    }
}

/// The named groups written for the client, each its registry and its list.
pub open spec fn named_bytes(data: TagData, groups: Seq<GroupView>) -> Option<Seq<u8>>
    decreases groups.len(),
{
    if groups.len() == 0 {
        Some(Seq::empty())
    } else {
        let g = groups.last();
        match named_bytes(data, groups.drop_last()) {
            Some(rest) => if !STRING.writable(g.registry) {
                None
            } else {
                match group_bytes(data, bare(g.registry), g) {
                    Some(bytes) => Some(rest + STRING.encode(g.registry) + bytes),
                    None => None,
                }
            },
            None => None,
        }
    }
}

/// The rewritten `UPDATE_TAGS` payload for a client on `version`, `None`
/// where the payload is not the shape the version reads or cannot be written.
pub open spec fn update_tags_bytes(b: Seq<u8>, version: JavaMinecraftVersion, data: TagData) -> Option<Seq<u8>> {
    if version.spec_older_than(FIRST_WITH_REGISTRY_NAMES) {
        match fixed_groups(b) {
            Some(groups) => fixed_bytes(data, groups, 0, Seq::empty()),
            None => None,
        }
    } else {
        match named_groups(b) {
            Some(groups) => {
                let kept = known_groups(data, groups);
                if kept.len() > i32::MAX {
                    None
                } else {
                    match named_bytes(data, kept) {
                        Some(bytes) => Some(var_int_bytes(kept.len() as i32) + bytes),
                        None => None,
                    }
                }
            },
            None => None,
        }
    }
}

// ---------------------------------------------------------------------------
// The rewrite
// ---------------------------------------------------------------------------

/// Whether `a` and `b` hold the same bytes.
pub fn bytes_eq(a: &[u8], b: &[u8]) -> (r: bool)
    ensures
        r == (a@ == b@),
{
    if a.len() != b.len() {
        return false;
    }
    let mut i: usize = 0;
    while i < a.len()
        invariant
            i <= a@.len(),
            a@.len() == b@.len(),
            forall|j: int| 0 <= j < i ==> a@[j] == b@[j],
        decreases a@.len() - i,
    {
        if a[i] != b[i] {
            return false;
        }
        i = i + 1;
    }
    assert(a@ =~= b@);
    true
}

fn read_tag(b: &[u8], pos: usize) -> (r: Option<(Tag, usize)>)
    requires
        pos <= b@.len(),
    ensures
        match tag_field(b@, pos as int) {
            Some((t, p)) => r matches Some((x, q)) && x@ == t && q == p && pos <= q <= b@.len(),
            None => r is None,
        },
{
    let (name, p1) = match STRING.read(b, pos) {
        Some(found) => found,
        None => return None,
    };
    proof { crate::api::types::lemma_bytes_deep_view(name); }
    let ids_type = crate::api::types::ArrayT(VAR_INT);
    let (ids, p2) = match ids_type.read(b, p1) {
        Some(found) => found,
        None => return None,
    };
    proof { assert(ids.deep_view() =~= ids@); }
    Some((Tag { name, ids }, p2))
}

/// Reads the tag list that follows a registry, or below 1.17 stands alone.
pub fn read_tags(b: &[u8], pos: usize) -> (r: Option<(Vec<Tag>, usize)>)
    requires
        pos <= b@.len(),
    ensures
        match tags_field(b@, pos as int) {
            Some((ts, p)) => r matches Some((v, q)) && tag_views(v@) == ts && q == p && pos <= q <= b@.len(),
            None => r is None,
        },
{
    let (count, start) = match VAR_INT.read(b, pos) {
        Some(found) => found,
        None => return None,
    };
    if count < 0 {
        return None;
    }
    let mut tags: Vec<Tag> = Vec::new();
    assert(tag_views(tags@) =~= Seq::<TagView>::empty());
    let mut p = start;
    let mut left = count;
    while left > 0
        invariant
            pos <= p <= b@.len(),
            0 <= left,
            tags_field(b@, pos as int) == tags_items(b@, p as int, left as nat, tag_views(tags@)),
        decreases left,
    {
        let (tag, q) = match read_tag(b, p) {
            Some(found) => found,
            None => return None,
        };
        let ghost before = tags@;
        tags.push(tag);
        assert(tag_views(tags@) =~= tag_views(before).push(tag@));
        p = q;
        left = left - 1;
    }
    Some((tags, p))
}

/// Reads the 1.16.2 to 1.16.5 shape: four tag lists and nothing else.
pub fn read_fixed_groups(payload: &[u8]) -> (r: Option<Vec<Group>>)
    ensures
        match fixed_groups(payload@) {
            Some(gs) => r matches Some(v) && group_views(v@) == gs,
            None => r is None,
        },
{
    let mut groups: Vec<Group> = Vec::new();
    assert(group_views(groups@) =~= Seq::<GroupView>::empty());
    let mut p: usize = 0;
    let mut left: usize = 4;
    while left > 0
        invariant
            p <= payload@.len(),
            left <= 4,
            fixed_items(payload@, 0, 4, Seq::empty())
                == fixed_items(payload@, p as int, left as nat, group_views(groups@)),
        decreases left,
    {
        let (tags, q) = match read_tags(payload, p) {
            Some(found) => found,
            None => return None,
        };
        let ghost before = groups@;
        let group = Group { registry: Vec::new(), tags };
        assert(group@.registry =~= Seq::<u8>::empty());
        groups.push(group);
        assert(group_views(groups@) =~= group_views(before).push(group@));
        p = q;
        left = left - 1;
    }
    if p == payload.len() { Some(groups) } else { None }
}

/// Reads the shape from 1.17: a count of groups, each naming its registry,
/// and nothing else.
pub fn read_groups(payload: &[u8]) -> (r: Option<Vec<Group>>)
    ensures
        match named_groups(payload@) {
            Some(gs) => r matches Some(v) && group_views(v@) == gs,
            None => r is None,
        },
{
    let (count, start) = match VAR_INT.read(payload, 0) {
        Some(found) => found,
        None => return None,
    };
    if count < 0 {
        return None;
    }
    let mut groups: Vec<Group> = Vec::new();
    assert(group_views(groups@) =~= Seq::<GroupView>::empty());
    let mut p = start;
    let mut left = count;
    while left > 0
        invariant
            p <= payload@.len(),
            0 <= left,
            count >= 0,
            field(VAR_INT, payload@, 0) == Some((count, start as int)),
            named_items(payload@, start as int, count as nat, Seq::empty())
                == named_items(payload@, p as int, left as nat, group_views(groups@)),
        decreases left,
    {
        let (registry, p1) = match STRING.read(payload, p) {
            Some(found) => found,
            None => return None,
        };
        proof { crate::api::types::lemma_bytes_deep_view(registry); }
        let (tags, q) = match read_tags(payload, p1) {
            Some(found) => found,
            None => return None,
        };
        let ghost before = groups@;
        let group = Group { registry, tags };
        groups.push(group);
        assert(group_views(groups@) =~= group_views(before).push(group@));
        p = q;
        left = left - 1;
    }
    if p == payload.len() { Some(groups) } else { None }
}

/// The index of the renumbering of `registry` in `data`.
fn find_mapper(data: &TagData, registry: &[u8]) -> (r: Option<usize>)
    ensures
        match mapper_from(data.mapper_views(), registry@, 0) {
            Some(m) => r matches Some(i) && i < data.mappers@.len() && data.mappers@[i as int].1 == m,
            None => r is None,
        },
{
    let mut i: usize = 0;
    while i < data.mappers.len()
        invariant
            i <= data.mappers@.len(),
            mapper_from(data.mapper_views(), registry@, 0) == mapper_from(data.mapper_views(), registry@, i as int),
        decreases data.mappers@.len() - i,
    {
        if bytes_eq(data.mappers[i].0.as_slice(), registry) {
            return Some(i);
        }
        i = i + 1;
    }
    None
}

/// The members `ids` renumbered through `m`, those it does not map left out.
fn renumber(ids: &Vec<i32>, m: &IdMapping) -> (r: Vec<i32>)
    ensures
        r@ == renumbered(ids@, *m),
{
    let mut out: Vec<i32> = Vec::new();
    let mut i: usize = 0;
    while i < ids.len()
        invariant
            i <= ids@.len(),
            out@ == renumbered(ids@.take(i as int), *m),
        decreases ids@.len() - i,
    {
        assert(ids@.take(i + 1).drop_last() =~= ids@.take(i as int));
        let id = ids[i];
        if 0 <= id && id <= u16::MAX as i32 {
            match mapped_id(m, id) {
                Some(v) => out.push(v),
                None => {},
            }
        }
        i = i + 1;
    }
    assert(ids@.take(ids@.len() as int) =~= ids@);
    out
}

/// The spec view of an optional renumbering.
pub open spec fn opt_mapping(m: Option<&IdMapping>) -> Option<IdMapping> {
    match m {
        Some(x) => Some(*x),
        None => None,
    }
}

/// Appends one tag with its members written through `m`; `false`, with
/// nothing appended, where its name or member count cannot be written.
fn write_tag(out: &mut Vec<u8>, tag: &Tag, m: Option<&IdMapping>) -> (r: bool)
    ensures
        if STRING.writable(tag@.name) && written_ids(tag@.ids, opt_mapping(m)).len() <= i32::MAX {
            r && final(out)@ == old(out)@ + STRING.encode(tag@.name) + var_ints().encode(written_ids(tag@.ids, opt_mapping(m)))
        } else {
            !r && final(out)@ == old(out)@
        },
{
    let renumbered_ids = match m {
        Some(m) => renumber(&tag.ids, m),
        None => {
            let mut copy: Vec<i32> = Vec::new();
            let mut i: usize = 0;
            while i < tag.ids.len()
                invariant
                    i <= tag.ids@.len(),
                    copy@ == tag.ids@.take(i as int),
                decreases tag.ids@.len() - i,
            {
                copy.push(tag.ids[i]);
                assert(copy@ =~= tag.ids@.take(i + 1));
                i = i + 1;
            }
            assert(tag.ids@.take(tag.ids@.len() as int) =~= tag.ids@);
            copy
        },
    };
    proof {
        crate::api::types::lemma_bytes_deep_view(tag.name);
        assert(renumbered_ids.deep_view() =~= renumbered_ids@);
    }
    let mut bytes: Vec<u8> = Vec::new();
    if !STRING.write(&mut bytes, &tag.name) {
        return false;
    }
    let ids_type = crate::api::types::ArrayT(VAR_INT);
    if !ids_type.write(&mut bytes, &renumbered_ids) {
        return false;
    }
    append_bytes(out, bytes.as_slice());
    true
}

/// Whether one of `tags` is named `name`.
fn group_has_tag(tags: &Vec<Tag>, name: &[u8]) -> (r: bool)
    ensures
        r == has_tag(tag_views(tags@), name@),
{
    let mut i: usize = 0;
    while i < tags.len()
        invariant
            i <= tags@.len(),
            forall|j: int| 0 <= j < i ==> tag_views(tags@)[j].name != name@,
        decreases tags@.len() - i,
    {
        if bytes_eq(tags[i].name.as_slice(), name) {
            assert(tag_views(tags@)[i as int].name == name@);
            return true;
        }
        i = i + 1;
    }
    false
}

/// The extra tags of `registry` that `tags` lacks, as tags.
fn extra_tags(data: &TagData, registry: &[u8], tags: &Vec<Tag>) -> (r: Vec<Tag>)
    ensures
        tag_views(r@) == extras_for(data.extra_views(), registry@, tag_views(tags@)),
{
    let mut out: Vec<Tag> = Vec::new();
    let mut i: usize = 0;
    let prefix = "minecraft:".as_bytes();
    while i < data.extras.len()
        invariant
            i <= data.extras@.len(),
            prefix@ == namespace(),
            tag_views(out@) == extras_for(data.extra_views().take(i as int), registry@, tag_views(tags@)),
        decreases data.extras@.len() - i,
    {
        assert(data.extra_views().take(i + 1).drop_last() =~= data.extra_views().take(i as int));
        let extra = &data.extras[i];
        if bytes_eq(extra.registry.as_slice(), registry) {
            let mut name: Vec<u8> = Vec::new();
            append_bytes(&mut name, prefix);
            append_bytes(&mut name, extra.tag.as_slice());
            if !group_has_tag(tags, name.as_slice()) {
                let mut ids: Vec<i32> = Vec::new();
                let mut k: usize = 0;
                while k < extra.members.len()
                    invariant
                        k <= extra.members@.len(),
                        ids@ == extra.members@.take(k as int).map_values(|m: u16| m as i32),
                    decreases extra.members@.len() - k,
                {
                    ids.push(extra.members[k] as i32);
                    assert(ids@ =~= extra.members@.take(k + 1).map_values(|m: u16| m as i32));
                    k = k + 1;
                }
                assert(extra.members@.take(extra.members@.len() as int) =~= extra.members@);
                let ghost before = out@;
                out.push(Tag { name, ids });
                assert(tag_views(out@) =~= tag_views(before).push(out@.last()@));
            }
        }
        i = i + 1;
    }
    assert(data.extra_views().take(data.extras@.len() as int) =~= data.extra_views());
    out
}

/// The tag list of `registry` as written for the client: the group's tags and
/// the extras it lacks, each renumbered.
pub fn write_tags(data: &TagData, registry: &[u8], group: &Group) -> (r: Option<Vec<u8>>)
    ensures
        match group_bytes(*data, registry@, group@) {
            Some(bytes) => r matches Some(v) && v@ == bytes,
            None => r is None,
        },
{
    let extras = extra_tags(data, registry, &group.tags);
    let ghost all = tag_views(group.tags@) + tag_views(extras@);
    if group.tags.len() > i32::MAX as usize || extras.len() > i32::MAX as usize {
        return None;
    }
    let total = group.tags.len() as u64 + extras.len() as u64;
    if total > i32::MAX as u64 {
        return None;
    }
    let index = find_mapper(data, registry);
    let m: Option<&IdMapping> = match index {
        Some(i) => Some(&data.mappers[i].1),
        None => None,
    };
    assert(opt_mapping(m) == mapper_from(data.mapper_views(), registry@, 0));
    let mut body: Vec<u8> = Vec::new();
    let mut i: usize = 0;
    assert(all.take(0) =~= Seq::<TagView>::empty());
    while i < group.tags.len()
        invariant
            i <= group.tags@.len(),
            all == tag_views(group.tags@) + tag_views(extras@),
            tag_views(extras@) == extras_for(data.extra_views(), registry@, tag_views(group.tags@)),
            opt_mapping(m) == mapper_from(data.mapper_views(), registry@, 0),
            total == all.len(),
            total <= i32::MAX,
            tags_bytes(all.take(i as int), opt_mapping(m)) == Some(body@),
        decreases group.tags@.len() - i,
    {
        assert(all.take(i + 1).drop_last() =~= all.take(i as int));
        assert(all.take(i + 1).last() == group.tags@[i as int]@);
        if !write_tag(&mut body, &group.tags[i], m) {
            proof { lemma_tags_bytes_none_stays(all, opt_mapping(m), i + 1); }
            return None;
        }
        i = i + 1;
    }
    let mut j: usize = 0;
    while j < extras.len()
        invariant
            j <= extras@.len(),
            all == tag_views(group.tags@) + tag_views(extras@),
            tag_views(extras@) == extras_for(data.extra_views(), registry@, tag_views(group.tags@)),
            opt_mapping(m) == mapper_from(data.mapper_views(), registry@, 0),
            total == all.len(),
            total <= i32::MAX,
            tags_bytes(all.take(group.tags@.len() + j), opt_mapping(m)) == Some(body@),
        decreases extras@.len() - j,
    {
        let k = group.tags.len() + j;
        assert(all.take(k + 1).drop_last() =~= all.take(k as int));
        assert(all.take(k + 1).last() == extras@[j as int]@);
        if !write_tag(&mut body, &extras[j], m) {
            proof { lemma_tags_bytes_none_stays(all, opt_mapping(m), (k + 1) as int); }
            return None;
        }
        j = j + 1;
    }
    assert(all.take(all.len() as int) =~= all);
    let mut out: Vec<u8> = Vec::new();
    write_var_int(&mut out, total as i32);
    append_bytes(&mut out, body.as_slice());
    Some(out)
}

/// Once a prefix of the tags cannot be written, no longer prefix can.
proof fn lemma_tags_bytes_none_stays(all: Seq<TagView>, m: Option<IdMapping>, k: int)
    requires
        0 <= k <= all.len(),
        tags_bytes(all.take(k), m) is None,
    ensures
        tags_bytes(all, m) is None,
    decreases all.len() - k,
{
    if k < all.len() {
        assert(all.take(k + 1).drop_last() =~= all.take(k));
        lemma_tags_bytes_none_stays(all, m, k + 1);
    } else {
        assert(all.take(k) =~= all);
    }
}

/// The registry named at `i` of the fixed shape.
fn fixed_registry(i: usize) -> (r: &'static [u8])
    requires
        i < 4,
    ensures
        r@ == fixed_registries()[i as int],
{
    if i == 0 {
        "block".as_bytes()
    } else if i == 1 {
        "item".as_bytes()
    } else if i == 2 {
        "fluid".as_bytes()
    } else {
        "entity_type".as_bytes()
    }
}

/// `name` without the namespace where it starts with it.
fn strip_namespace(name: &[u8]) -> (r: &[u8])
    ensures
        r@ == bare(name@),
{
    let prefix = "minecraft:".as_bytes();
    if name.len() >= prefix.len() {
        let head = slice_subrange(name, 0, prefix.len());
        if bytes_eq(head, prefix) {
            return slice_subrange(name, prefix.len(), name.len());
        }
    }
    name
}

/// Whether the client knows the registry of `group`.
fn knows(data: &TagData, group: &Group) -> (r: bool)
    ensures
        r == known_group(*data, group@),
{
    let name = strip_namespace(group.registry.as_slice());
    let mut i: usize = 0;
    while i < data.registries.len()
        invariant
            i <= data.registries@.len(),
            name@ == bare(group@.registry),
            forall|j: int| 0 <= j < i ==> data.registry_names()[j] != name@,
        decreases data.registries@.len() - i,
    {
        if bytes_eq(data.registries[i].as_slice(), name) {
            assert(data.registry_names()[i as int] == name@);
            return true;
        }
        i = i + 1;
    }
    false
}

/// Rewrites `UPDATE_TAGS` for a client on `version` with that version's tag
/// data; `None` where the payload is not the shape the version reads or
/// cannot be written, in which case the caller sends it unchanged.
pub fn rewrite_update_tags(payload: &[u8], version: JavaMinecraftVersion, data: &TagData) -> (r: Option<Vec<u8>>)
    ensures
        match update_tags_bytes(payload@, version, *data) {
            Some(bytes) => r matches Some(v) && v@ == bytes,
            None => r is None,
        },
{
    if version.older_than(FIRST_WITH_REGISTRY_NAMES) {
        let groups = match read_fixed_groups(payload) {
            Some(g) => g,
            None => return None,
        };
        proof { lemma_fixed_items_len(payload@, 0, 4, Seq::empty()); }
        let mut out: Vec<u8> = Vec::new();
        let mut i: usize = 0;
        while i < 4
            invariant
                i <= 4,
                groups@.len() == 4,
                update_tags_bytes(payload@, version, *data) == fixed_bytes(*data, group_views(groups@), 0, Seq::empty()),
                fixed_bytes(*data, group_views(groups@), 0, Seq::empty())
                    == fixed_bytes(*data, group_views(groups@), i as nat, out@),
            decreases 4 - i,
        {
            assert(group_views(groups@)[i as int] == groups@[i as int]@);
            match write_tags(data, fixed_registry(i), &groups[i]) {
                Some(bytes) => append_bytes(&mut out, bytes.as_slice()),
                None => return None,
            }
            i = i + 1;
        }
        return Some(out);
    }
    let groups = match read_groups(payload) {
        Some(g) => g,
        None => return None,
    };
    let ghost views = group_views(groups@);
    let mut body: Vec<u8> = Vec::new();
    let mut kept: u64 = 0;
    let mut i: usize = 0;
    while i < groups.len()
        invariant
            i <= groups@.len(),
            views == group_views(groups@),
            !version.spec_older_than(FIRST_WITH_REGISTRY_NAMES),
            named_groups(payload@) == Some(views),
            kept == known_groups(*data, views.take(i as int)).len(),
            kept <= i,
            named_bytes(*data, known_groups(*data, views.take(i as int))) == Some(body@),
        decreases groups@.len() - i,
    {
        assert(views.take(i + 1).drop_last() =~= views.take(i as int));
        assert(views.take(i + 1).last() == groups@[i as int]@);
        let ghost prev = known_groups(*data, views.take(i as int));
        let group = &groups[i];
        if knows(data, group) {
            assert(known_groups(*data, views.take(i + 1)) == prev.push(group@));
            assert(prev.push(group@).drop_last() =~= prev);
            let name = strip_namespace(group.registry.as_slice());
            proof { crate::api::types::lemma_bytes_deep_view(group.registry); }
            let mut piece: Vec<u8> = Vec::new();
            if !STRING.write(&mut piece, &group.registry) {
                proof { lemma_named_bytes_none_stays(*data, views, i + 1); }
                return None;
            }
            match write_tags(data, name, group) {
                Some(bytes) => append_bytes(&mut piece, bytes.as_slice()),
                None => {
                    proof { lemma_named_bytes_none_stays(*data, views, i + 1); }
                    return None;
                },
            }
            append_bytes(&mut body, piece.as_slice());
            kept = kept + 1;
        } else {
            assert(known_groups(*data, views.take(i + 1)) == prev);
        }
        i = i + 1;
    }
    assert(views.take(views.len() as int) =~= views);
    if kept > i32::MAX as u64 {
        return None;
    }
    let mut out: Vec<u8> = Vec::new();
    write_var_int(&mut out, kept as i32);
    append_bytes(&mut out, body.as_slice());
    Some(out)
}

proof fn lemma_fixed_items_len(b: Seq<u8>, pos: int, n: nat, acc: Seq<GroupView>)
    ensures
        fixed_items(b, pos, n, acc) matches Some((groups, _)) ==> groups.len() == acc.len() + n,
    decreases n,
{
    if n > 0 {
        if let Some((tags, p)) = tags_field(b, pos) {
            lemma_fixed_items_len(b, p, (n - 1) as nat, acc.push(GroupView { registry: Seq::empty(), tags }));
        }
    }
}

/// Once the known groups of a prefix cannot be written, no longer prefix's can.
proof fn lemma_named_bytes_none_stays(data: TagData, views: Seq<GroupView>, k: int)
    requires
        0 <= k <= views.len(),
        named_bytes(data, known_groups(data, views.take(k))) is None,
    ensures
        named_bytes(data, known_groups(data, views)) is None,
    decreases views.len() - k,
{
    if k < views.len() {
        let prev = known_groups(data, views.take(k));
        let next = known_groups(data, views.take(k + 1));
        assert(views.take(k + 1).drop_last() =~= views.take(k));
        if known_group(data, views.take(k + 1).last()) {
            assert(next == prev.push(views.take(k + 1).last()));
            assert(next.drop_last() =~= prev);
        } else {
            assert(next == prev);
        }
        lemma_named_bytes_none_stays(data, views, k + 1);
    } else {
        assert(views.take(k) =~= views);
    }
}

} // verus!
