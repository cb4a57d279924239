//! Item stacks in the structured form 1.20.5 introduced: a count, an item id,
//! and the components added to and removed from the item's defaults, each
//! added one as its still encoded payload.

use vstd::prelude::*;
use vstd::slice::slice_subrange;
use crate::api::rewriter::item_shape::{component_shape, known_component, payload_len, shape_end, DataComponent};
use crate::api::types::{WireType, VAR_INT, BOOL, I32, I8};
use crate::codec::{append_bytes, lemma_var_int_len, rest_of};
use crate::packet::chunk_legacy::{field, read_field, run_count};
use crate::api::rewriter::item::{nbt_end_for, skip_nbt_for, FIRST_STRUCTURED, MAX_COMPONENTS};
use crate::nbt::TAG_END;
use crate::version::JavaMinecraftVersion as V;

verus! {

/// One component of a stack, its payload bytes as they arrived.
#[derive(Clone, Debug, PartialEq, Eq)]
pub struct ItemComponent {
    pub id: i32,
    pub data: Vec<u8>,
}

/// A stack in whichever form its layout carries, components still encoded;
/// the NBT form keeps its tag as the bytes it arrived as.
#[derive(Clone, Debug, PartialEq, Eq)]
pub enum Item {
    Empty,
    Structured { count: i32, id: i32, added: Vec<ItemComponent>, removed: Vec<i32> },
    Nbt { id: i32, count: i8, nbt: Option<Vec<u8>> },
}

/// A component as plain values.
pub struct ComponentView {
    pub id: i32,
    pub data: Seq<u8>,
}

/// A stack as plain values.
pub enum ItemView {
    Empty,
    Structured { count: i32, id: i32, added: Seq<ComponentView>, removed: Seq<i32> },
    Nbt { id: i32, count: i8, nbt: Option<Seq<u8>> },
}

impl View for ItemComponent {
    type V = ComponentView;

    open spec fn view(&self) -> ComponentView {
        ComponentView { id: self.id, data: self.data@ }
    }
}

impl View for Item {
    type V = ItemView;

    open spec fn view(&self) -> ItemView {
        match self {
            Item::Empty => ItemView::Empty,
            Item::Structured { count, id, added, removed } => ItemView::Structured {
                count: *count,
                id: *id,
                added: added@.map_values(|c: ItemComponent| c@),
                removed: removed@,
            },
            Item::Nbt { id, count, nbt } => ItemView::Nbt {
                id: *id,
                count: *count,
                nbt: match nbt {
                    Some(bytes) => Some(bytes@),
                    None => None,
                },
            },
        }
    }
}

impl Item {
    /// Whether the stack is empty.
    pub fn is_empty(&self) -> (r: bool)
        ensures
            r == (self@ is Empty),
    {
        match self {
            Item::Empty => true,
            _ => false,
        }
    }

    /// The item id of a stack that is not empty.
    pub fn item_id(&self) -> (r: Option<i32>)
        ensures
            r == match self@ {
                ItemView::Empty => None,
                ItemView::Structured { id, .. } => Some(id),
                ItemView::Nbt { id, .. } => Some(id),
            },
    {
        match self {
            Item::Empty => None,
            Item::Structured { id, .. } => Some(*id),
            Item::Nbt { id, .. } => Some(*id),
        }
    }
}

/// How many bytes the newest protocol's payload of component `id` takes at
/// `pos`, measured by the component's own shape; `None` for a component
/// `reg` does not list or bytes that are not its payload.
pub open spec fn component_len(reg: Seq<DataComponent>, id: i32, b: Seq<u8>, pos: int) -> Option<int> {
    if known_component(reg, id as int) && 0 <= pos <= b.len() {
        shape_end(reg, component_shape(reg[id as int]), b.subrange(pos, b.len() as int), 0, (b.len() - pos) as nat)
    } else {
        None
    }
}

/// How many bytes the newest protocol's payload of component `id` takes at
/// the front of `bytes`.
pub fn component_payload_len(reg: &[DataComponent], id: i32, bytes: &[u8]) -> (r: Option<usize>)
    ensures
        match component_len(reg@, id, bytes@, 0) {
            Some(n) => r matches Some(k) && k == n,
            None => r is None,
        },
{
    assert(bytes@.subrange(0, bytes@.len() as int) =~= bytes@);
    payload_len(reg, id, bytes)
}

/// The `n` added components from `pos`, after `acc`: each an id and a
/// payload, the payload's length written in front of it where
/// `length_prefixed` and measured by its shape otherwise.
pub open spec fn components_at(
    reg: Seq<DataComponent>,
    b: Seq<u8>,
    pos: int,
    n: nat,
    length_prefixed: bool,
    acc: Seq<ComponentView>,
) -> Option<(Seq<ComponentView>, int)>
    decreases n,
{
    if n == 0 {
        if 0 <= pos <= b.len() { Some((acc, pos)) } else { None }
    } else {
        match field(VAR_INT, b, pos) {
            Some((id, p1)) => {
                let len = if length_prefixed {
                    match field(VAR_INT, b, p1) {
                        Some((len, p2)) => if len < 0 { None } else { Some((len as int, p2)) },
                        None => None,
                    }
                } else {
                    match component_len(reg, id, b, p1) {
                        Some(len) => Some((len, p1)),
                        None => None,
                    }
                };
                match len {
                    Some((len, p2)) => if 0 <= len && p2 + len <= b.len() {
                        components_at(
                            reg,
                            b,
                            p2 + len,
                            (n - 1) as nat,
                            length_prefixed,
                            acc.push(ComponentView { id, data: b.subrange(p2, p2 + len) }),
                        )
                    } else {
                        None
                    },
                    None => None,
                }
            },
            None => None,
        }
    }
}

/// `n` `VarInt` ids from `pos`, after `acc`.
pub open spec fn ids_at(b: Seq<u8>, pos: int, n: nat, acc: Seq<i32>) -> Option<(Seq<i32>, int)>
    decreases n,
{
    if n == 0 {
        if 0 <= pos <= b.len() { Some((acc, pos)) } else { None }
    } else {
        match field(VAR_INT, b, pos) {
            Some((id, p)) => ids_at(b, p, (n - 1) as nat, acc.push(id)),
            None => None,
        }
    }
}

/// Whether a component count is one a stack may carry.
pub open spec fn count_fits(n: i32) -> bool {
    0 <= n <= MAX_COMPONENTS
}

/// A stack's components after its id: the counts of added and removed ones,
/// then the added ones and the removed ids. Counts outside the bound are refused.
pub open spec fn stack_body_at(reg: Seq<DataComponent>, b: Seq<u8>, pos: int, length_prefixed: bool)
    -> Option<(Seq<ComponentView>, Seq<i32>, int)>
{
    match field(VAR_INT, b, pos) {
        Some((to_add, p1)) => match field(VAR_INT, b, p1) {
            Some((to_remove, p2)) => if !count_fits(to_add) || !count_fits(to_remove) {
                None
            } else {
                match components_at(reg, b, p2, to_add as nat, length_prefixed, Seq::empty()) {
                    Some((added, p3)) => match ids_at(b, p3, to_remove as nat, Seq::empty()) {
                        Some((removed, p4)) => Some((added, removed, p4)),
                        None => None,
                    },
                    None => None,
                }
            },
            None => None,
        },
        None => None,
    }
}

/// A structured stack at `pos`: a count, none for an empty stack, then the
/// item id and the components.
pub open spec fn structured_item_at(reg: Seq<DataComponent>, b: Seq<u8>, pos: int, length_prefixed: bool)
    -> Option<(ItemView, int)>
{
    match field(VAR_INT, b, pos) {
        Some((count, p1)) => if count == 0 {
            Some((ItemView::Empty, p1))
        } else {
            match field(VAR_INT, b, p1) {
                Some((id, p2)) => match stack_body_at(reg, b, p2, length_prefixed) {
                    Some((added, removed, p3)) => Some((ItemView::Structured { count, id, added, removed }, p3)),
                    None => None,
                },
                None => None,
            }
        },
        None => None,
    }
}

/// A stack nested in a component, and the advancement icon from 26.1: the
/// item id leads the count, and an empty stack cannot be expressed.
pub open spec fn template_item_at(reg: Seq<DataComponent>, b: Seq<u8>, pos: int) -> Option<(ItemView, int)> {
    match field(VAR_INT, b, pos) {
        Some((id, p1)) => match field(VAR_INT, b, p1) {
            Some((count, p2)) => match stack_body_at(reg, b, p2, false) {
                Some((added, removed, p3)) => Some((ItemView::Structured { count, id, added, removed }, p3)),
                None => None,
            },
            None => None,
        },
        None => None,
    }
}

fn read_components(reg: &[DataComponent], b: &[u8], pos: usize, n: i32, length_prefixed: bool)
    -> (r: Option<(Vec<ItemComponent>, usize)>)
    requires
        pos <= b@.len(),
        n >= 0,
    ensures
        match components_at(reg@, b@, pos as int, n as nat, length_prefixed, Seq::empty()) {
            Some((v, p)) => r matches Some((x, q)) && x@.map_values(|c: ItemComponent| c@) == v && q == p && pos <= q <= b@.len(),
            None => r is None,
        },
{
    let mut left = n;
    let mut p = pos;
    let mut out: Vec<ItemComponent> = Vec::new();
    assert(out@.map_values(|c: ItemComponent| c@) =~= Seq::<ComponentView>::empty());
    while left > 0
        invariant
            pos <= p <= b@.len(),
            left >= 0,
            components_at(reg@, b@, pos as int, n as nat, length_prefixed, Seq::empty())
                == components_at(reg@, b@, p as int, left as nat, length_prefixed, out@.map_values(|c: ItemComponent| c@)),
        decreases left,
    {
        let (id, p1) = match read_field(&VAR_INT, b, p) {
            Some(found) => found,
            None => return None,
        };
        let (len, p2) = if length_prefixed {
            match read_field(&VAR_INT, b, p1) {
                Some((len, p2)) => {
                    if len < 0 {
                        return None;
                    }
                    (len as usize, p2)
                },
                None => return None,
            }
        } else {
            let rest = slice_subrange(b, p1, b.len());
            match component_payload_len(reg, id, rest) {
                Some(len) => {
                    proof {
                        assert(rest@ == b@.subrange(p1 as int, b@.len() as int));
                        assert(rest@.subrange(0, rest@.len() as int) =~= rest@);
                    }
                    (len, p1)
                },
                None => {
                    proof {
                        assert(rest@.subrange(0, rest@.len() as int) =~= rest@);
                    }
                    return None;
                },
            }
        };
        if len > b.len() - p2 {
            return None;
        }
        let mut data: Vec<u8> = Vec::new();
        append_bytes(&mut data, slice_subrange(b, p2, p2 + len));
        let ghost before = out@.map_values(|c: ItemComponent| c@);
        let ghost view = ComponentView { id, data: data@ };
        out.push(ItemComponent { id, data });
        assert(out@.map_values(|c: ItemComponent| c@) =~= before.push(view));
        p = p2 + len;
        left = left - 1;
    }
    Some((out, p))
}

pub(crate) fn read_ids(b: &[u8], pos: usize, n: i32) -> (r: Option<(Vec<i32>, usize)>)
    requires
        pos <= b@.len(),
        n >= 0,
    ensures
        match ids_at(b@, pos as int, n as nat, Seq::empty()) {
            Some((v, p)) => r matches Some((x, q)) && x@ == v && q == p && pos <= q <= b@.len(),
            None => r is None,
        },
{
    let mut left = n;
    let mut p = pos;
    let mut out: Vec<i32> = Vec::new();
    while left > 0
        invariant
            pos <= p <= b@.len(),
            left >= 0,
            ids_at(b@, pos as int, n as nat, Seq::empty()) == ids_at(b@, p as int, left as nat, out@),
        decreases left,
    {
        let (id, q) = match read_field(&VAR_INT, b, p) {
            Some(found) => found,
            None => return None,
        };
        out.push(id);
        p = q;
        left = left - 1;
    }
    Some((out, p))
}

fn read_stack_body(reg: &[DataComponent], b: &[u8], pos: usize, length_prefixed: bool)
    -> (r: Option<(Vec<ItemComponent>, Vec<i32>, usize)>)
    requires
        pos <= b@.len(),
    ensures
        match stack_body_at(reg@, b@, pos as int, length_prefixed) {
            Some((added, removed, p)) => r matches Some((x, y, q)) && x@.map_values(|c: ItemComponent| c@) == added
                && y@ == removed && q == p && pos <= q <= b@.len(),
            None => r is None,
        },
{
    let (to_add, p1) = match read_field(&VAR_INT, b, pos) {
        Some(found) => found,
        None => return None,
    };
    let (to_remove, p2) = match read_field(&VAR_INT, b, p1) {
        Some(found) => found,
        None => return None,
    };
    if to_add < 0 || to_add > MAX_COMPONENTS || to_remove < 0 || to_remove > MAX_COMPONENTS {
        return None;
    }
    let (added, p3) = match read_components(reg, b, p2, to_add, length_prefixed) {
        Some(found) => found,
        None => return None,
    };
    match read_ids(b, p3, to_remove) {
        Some((removed, p4)) => Some((added, removed, p4)),
        None => None,
    }
}

/// Reads the structured stack at `pos`.
pub fn read_structured(reg: &[DataComponent], b: &[u8], pos: usize, length_prefixed: bool) -> (r: Option<(Item, usize)>)
    requires
        pos <= b@.len(),
    ensures
        match structured_item_at(reg@, b@, pos as int, length_prefixed) {
            Some((v, p)) => r matches Some((x, q)) && x@ == v && q == p && pos <= q <= b@.len(),
            None => r is None,
        },
{
    let (count, p1) = match read_field(&VAR_INT, b, pos) {
        Some(found) => found,
        None => return None,
    };
    if count == 0 {
        return Some((Item::Empty, p1));
    }
    let (id, p2) = match read_field(&VAR_INT, b, p1) {
        Some(found) => found,
        None => return None,
    };
    match read_stack_body(reg, b, p2, length_prefixed) {
        Some((added, removed, p3)) => Some((Item::Structured { count, id, added, removed }, p3)),
        None => None,
    }
}



/// A component or id count as written: the length where an `i32` holds it,
/// `MAX_COMPONENTS` where it does not.
pub open spec fn count_field(n: nat) -> i32 {
    if n <= i32::MAX { n as i32 } else { MAX_COMPONENTS }
}

/// One added component as written: its id, its payload's length where
/// `length_prefixed`, and the payload.
pub open spec fn component_bytes(c: ComponentView, length_prefixed: bool) -> Seq<u8> {
    VAR_INT.encode(c.id) + (if length_prefixed { VAR_INT.encode(c.data.len() as i32) } else { Seq::empty() })
        + c.data
}

/// The added components as written, one after another.
pub open spec fn components_bytes(cs: Seq<ComponentView>, length_prefixed: bool) -> Seq<u8>
    decreases cs.len(),
{
    if cs.len() == 0 {
        Seq::empty()
    } else {
        components_bytes(cs.drop_last(), length_prefixed) + component_bytes(cs.last(), length_prefixed)
    }
}

/// Whether every payload's length fits the `VarInt` that prefixes it.
pub open spec fn lengths_fit(cs: Seq<ComponentView>) -> bool {
    forall|i: int| 0 <= i < cs.len() ==> #[trigger] cs[i].data.len() <= i32::MAX
}

/// Removed component ids as written.
pub open spec fn ids_bytes(ids: Seq<i32>) -> Seq<u8>
    decreases ids.len(),
{
    if ids.len() == 0 {
        Seq::empty()
    } else {
        ids_bytes(ids.drop_last()) + VAR_INT.encode(ids.last())
    }
}

/// A stack's components after its id: the two counts, the added ones and the
/// removed ids.
pub open spec fn body_bytes(added: Seq<ComponentView>, removed: Seq<i32>, length_prefixed: bool) -> Seq<u8> {
    VAR_INT.encode(count_field(added.len())) + VAR_INT.encode(count_field(removed.len()))
        + components_bytes(added, length_prefixed) + ids_bytes(removed)
}

/// A stack in the structured form: the count, the id and the components; a
/// zero count for anything that is not a structured stack.
pub open spec fn structured_bytes(v: ItemView, length_prefixed: bool) -> Seq<u8> {
    match v {
        ItemView::Structured { count, id, added, removed } =>
            VAR_INT.encode(count) + VAR_INT.encode(id) + body_bytes(added, removed, length_prefixed),
        _ => VAR_INT.encode(0),
    }
}

/// Whether the structured writer accepts `v`: every payload length fits its
/// prefix where lengths are written.
pub open spec fn structured_writable(v: ItemView, length_prefixed: bool) -> bool {
    match v {
        ItemView::Structured { added, .. } => !length_prefixed || lengths_fit(added),
        _ => true,
    }
}

/// A nested stack as written: the id before the count, and for anything that
/// is not a structured stack a single item of id zero with nothing on it.
pub open spec fn template_bytes(v: ItemView) -> Seq<u8> {
    match v {
        ItemView::Structured { count, id, added, removed } =>
            VAR_INT.encode(id) + VAR_INT.encode(count) + body_bytes(added, removed, false),
        _ => VAR_INT.encode(0) + VAR_INT.encode(1) + VAR_INT.encode(0) + VAR_INT.encode(0),
    }
}

/// Appends the added components.
fn write_components(out: &mut Vec<u8>, added: &Vec<ItemComponent>, length_prefixed: bool) -> (r: bool)
    ensures
        r == (!length_prefixed || lengths_fit(added@.map_values(|c: ItemComponent| c@))),
        r ==> final(out)@ == old(out)@ + components_bytes(added@.map_values(|c: ItemComponent| c@), length_prefixed),
{
    let ghost start = out@;
    let ghost views = added@.map_values(|c: ItemComponent| c@);
    let mut i: usize = 0;
    while i < added.len()
        invariant
            i <= added@.len(),
            views == added@.map_values(|c: ItemComponent| c@),
            out@ == start + components_bytes(views.take(i as int), length_prefixed),
            length_prefixed ==> lengths_fit(views.take(i as int)),
        decreases added@.len() - i,
    {
        let c = &added[i];
        assert(views.take(i + 1).drop_last() =~= views.take(i as int));
        assert(views.take(i + 1).last() == c@);
        VAR_INT.write(out, &c.id);
        if length_prefixed {
            if c.data.len() > i32::MAX as usize {
                assert(!lengths_fit(views)) by {
                    assert(views[i as int].data.len() > i32::MAX);
                }
                return false;
            }
            let len: i32 = c.data.len() as i32;
            VAR_INT.write(out, &len);
        }
        append_bytes(out, c.data.as_slice());
        proof {
            assert(out@ =~= start + components_bytes(views.take(i + 1), length_prefixed));
            if length_prefixed {
                assert forall|j: int| 0 <= j < i + 1 implies #[trigger] views.take(i + 1)[j].data.len() <= i32::MAX by {
                    if j < i {
                        assert(views.take(i + 1)[j] == views.take(i as int)[j]);
                    }
                }
            }
        }
        i = i + 1;
    }
    assert(views.take(added@.len() as int) =~= views);
    true
}

/// Appends the removed ids.
fn write_ids(out: &mut Vec<u8>, ids: &Vec<i32>)
    ensures
        final(out)@ == old(out)@ + ids_bytes(ids@),
{
    let ghost start = out@;
    let mut i: usize = 0;
    while i < ids.len()
        invariant
            i <= ids@.len(),
            out@ == start + ids_bytes(ids@.take(i as int)),
        decreases ids@.len() - i,
    {
        assert(ids@.take(i + 1).drop_last() =~= ids@.take(i as int));
        VAR_INT.write(out, &ids[i]);
        assert(out@ =~= start + ids_bytes(ids@.take(i + 1)));
        i = i + 1;
    }
    assert(ids@.take(ids@.len() as int) =~= ids@);
}

/// A component or id count for the wire.
fn count_of(n: usize) -> (r: i32)
    ensures
        r == count_field(n as nat),
{
    if n <= i32::MAX as usize { n as i32 } else { MAX_COMPONENTS }
}

/// Appends the two counts, the added components and the removed ids.
fn write_body(out: &mut Vec<u8>, added: &Vec<ItemComponent>, removed: &Vec<i32>, length_prefixed: bool) -> (r: bool)
    ensures
        r == (!length_prefixed || lengths_fit(added@.map_values(|c: ItemComponent| c@))),
        r ==> final(out)@ == old(out)@ + body_bytes(added@.map_values(|c: ItemComponent| c@), removed@, length_prefixed),
{
    let ghost start = out@;
    VAR_INT.write(out, &count_of(added.len()));
    VAR_INT.write(out, &count_of(removed.len()));
    let ghost counted = out@;
    if !write_components(out, added, length_prefixed) {
        return false;
    }
    let ghost with_added = out@;
    write_ids(out, removed);
    assert(out@ =~= start + body_bytes(added@.map_values(|c: ItemComponent| c@), removed@, length_prefixed));
    true
}

/// Writes `item` in the structured form; `false` where a payload is too long
/// for its length prefix.
pub fn write_structured(out: &mut Vec<u8>, item: &Item, length_prefixed: bool) -> (r: bool)
    ensures
        r == structured_writable(item@, length_prefixed),
        r ==> final(out)@ == old(out)@ + structured_bytes(item@, length_prefixed),
{
    match item {
        Item::Structured { count, id, added, removed } => {
            let ghost start = out@;
            VAR_INT.write(out, count);
            VAR_INT.write(out, id);
            let ok = write_body(out, added, removed, length_prefixed);
            assert(ok ==> out@ =~= start + structured_bytes(item@, length_prefixed));
            ok
        },
        _ => {
            VAR_INT.write(out, &0);
            true
        },
    }
}



/// A stack in the form below 1.20.5 at `pos`: a present flag, then the item
/// id, a byte count and the NBT document in `version`'s form; a lone end tag
/// is no NBT.
pub open spec fn nbt_item_at(b: Seq<u8>, pos: int, version: V) -> Option<(ItemView, int)> {
    match field(BOOL, b, pos) {
        Some((present, p1)) => if !present {
            Some((ItemView::Empty, p1))
        } else {
            match field(VAR_INT, b, p1) {
                Some((id, p2)) => match field(I8, b, p2) {
                    Some((count, p3)) => match nbt_end_for(b, p3, version) {
                        Some(p4) => Some((
                            ItemView::Nbt {
                                id,
                                count,
                                nbt: if b[p3] == TAG_END { None } else { Some(b.subrange(p3, p4)) },
                            },
                            p4,
                        )),
                        None => None,
                    },
                    None => None,
                },
                None => None,
            }
        },
        None => None,
    }
}

/// The stack at `pos` in `version`'s form: structured from 1.20.5, where
/// `length_prefixed` is the form a client from 1.21.5 sends for a stack it
/// made itself, and the NBT form below.
pub open spec fn item_at(reg: Seq<DataComponent>, b: Seq<u8>, pos: int, version: V, length_prefixed: bool)
    -> Option<(ItemView, int)>
{
    if version.spec_at_least(FIRST_STRUCTURED) {
        structured_item_at(reg, b, pos, length_prefixed)
    } else {
        nbt_item_at(b, pos, version)
    }
}

/// A stack in the NBT form: a present flag, and for an NBT stack its id, its
/// count and its document, a lone end tag where it has none. The document is
/// written as it is held, in the form of the version it is written for.
pub open spec fn nbt_item_bytes(v: ItemView) -> Seq<u8> {
    match v {
        ItemView::Nbt { id, count, nbt } => BOOL.encode(true) + VAR_INT.encode(id) + I8.encode(count)
            + match nbt {
                Some(doc) => doc,
                None => seq![TAG_END],
            },
        _ => BOOL.encode(false),
    }
}

/// Whether `item` can be written in `version`'s form.
pub open spec fn item_writable(v: ItemView, version: V, length_prefixed: bool) -> bool {
    !version.spec_at_least(FIRST_STRUCTURED) || structured_writable(v, length_prefixed)
}

/// A stack as written in `version`'s form.
pub open spec fn item_bytes(v: ItemView, version: V, length_prefixed: bool) -> Seq<u8> {
    if version.spec_at_least(FIRST_STRUCTURED) { structured_bytes(v, length_prefixed) } else { nbt_item_bytes(v) }
}

/// Reads the stack at `pos` in the NBT form of `version`.
pub fn read_nbt_item(b: &[u8], pos: usize, version: V) -> (r: Option<(Item, usize)>)
    requires
        pos <= b@.len(),
    ensures
        match nbt_item_at(b@, pos as int, version) {
            Some((v, p)) => r matches Some((x, q)) && x@ == v && q == p && pos <= q <= b@.len(),
            None => r is None,
        },
{
    let (present, p1) = match read_field(&BOOL, b, pos) {
        Some(found) => found,
        None => return None,
    };
    if !present {
        return Some((Item::Empty, p1));
    }
    let (id, p2) = match read_field(&VAR_INT, b, p1) {
        Some(found) => found,
        None => return None,
    };
    let (count, p3) = match read_field(&I8, b, p2) {
        Some(found) => found,
        None => return None,
    };
    let p4 = match skip_nbt_for(b, p3, version) {
        Some(end) => end,
        None => return None,
    };
    let nbt = if b[p3] == TAG_END {
        None
    } else {
        let mut doc: Vec<u8> = Vec::new();
        append_bytes(&mut doc, slice_subrange(b, p3, p4));
        Some(doc)
    };
    Some((Item::Nbt { id, count, nbt }, p4))
}


/// Writes `item` in the NBT form.
pub fn write_nbt_item(out: &mut Vec<u8>, item: &Item)
    ensures
        final(out)@ == old(out)@ + nbt_item_bytes(item@),
{
    let ghost start = out@;
    match item {
        Item::Nbt { id, count, nbt } => {
            BOOL.write(out, &true);
            VAR_INT.write(out, id);
            I8.write(out, count);
            match nbt {
                Some(doc) => append_bytes(out, doc.as_slice()),
                None => out.push(TAG_END),
            }
            assert(out@ =~= start + nbt_item_bytes(item@));
        },
        _ => {
            BOOL.write(out, &false);
        },
    }
}



/// Every payload `components_at` takes from `b` is shorter than `b`.
proof fn lemma_components_shorter(reg: Seq<DataComponent>, b: Seq<u8>, pos: int, n: nat, length_prefixed: bool,
    acc: Seq<ComponentView>)
    requires
        0 <= pos,
        forall|i: int| 0 <= i < acc.len() ==> #[trigger] acc[i].data.len() < b.len(),
    ensures
        components_at(reg, b, pos, n, length_prefixed, acc) matches Some((cs, _))
            ==> forall|i: int| 0 <= i < cs.len() ==> #[trigger] cs[i].data.len() < b.len(),
    decreases n,
{
    if n > 0 {
        if let Some((id, p1)) = field(VAR_INT, b, pos) {
            lemma_var_int_len(rest_of(b, pos));
            assert(p1 >= pos + 1);
            let len = if length_prefixed {
                match field(VAR_INT, b, p1) {
                    Some((len, p2)) => if len < 0 { None } else { Some((len as int, p2)) },
                    None => None,
                }
            } else {
                match component_len(reg, id, b, p1) {
                    Some(len) => Some((len, p1)),
                    None => None,
                }
            };
            if let Some((len, p2)) = len {
                assert(p2 >= p1);
                if 0 <= len && p2 + len <= b.len() {
                    let data = b.subrange(p2, p2 + len);
                    assert(data.len() < b.len());
                    let next = acc.push(ComponentView { id, data });
                    assert forall|i: int| 0 <= i < next.len() implies #[trigger] next[i].data.len() < b.len() by {
                        if i < acc.len() {
                            assert(next[i] == acc[i]);
                        }
                    }
                    lemma_components_shorter(reg, b, p2 + len, (n - 1) as nat, length_prefixed, next);
                }
            }
        }
    }
}

/// Every payload of a nested stack read from `b` is shorter than `b`.
pub proof fn lemma_template_shorter(reg: Seq<DataComponent>, b: Seq<u8>, pos: int)
    requires
        0 <= pos,
    ensures
        template_item_at(reg, b, pos) matches Some((ItemView::Structured { added, .. }, _))
            ==> forall|i: int| 0 <= i < added.len() ==> #[trigger] added[i].data.len() < b.len(),
{
    match field(VAR_INT, b, pos) {
        Some((_, p1)) => match field(VAR_INT, b, p1) {
            Some((_, p2)) => match field(VAR_INT, b, p2) {
                Some((to_add, p3)) => match field(VAR_INT, b, p3) {
                    Some((_, p4)) => {
                        lemma_components_shorter(reg, b, p4, to_add as nat, false, Seq::empty());
                    },
                    None => {},
                },
                None => {},
            },
            None => {},
        },
        None => {},
    }
}



/// A stack in `version`'s form: structured from 1.20.5, where
/// `length_prefixed` is the form a client from 1.21.5 sends for a stack it
/// made itself, every payload after its length; the NBT form below.
#[derive(Clone, Copy, Debug)]
pub struct ItemT {
    pub version: V,
    pub length_prefixed: bool,
}

impl ItemT {
    /// The form stacks take in `version`.
    pub fn for_version(version: V) -> (r: ItemT)
        ensures
            r.version == version,
            !r.length_prefixed,
    {
        ItemT { version, length_prefixed: false }
    }

    /// The form a client on `version` sends a stack it made itself in.
    pub fn length_prefixed(version: V) -> (r: ItemT)
        ensures
            r.version == version,
            r.length_prefixed,
    {
        ItemT { version, length_prefixed: true }
    }

    /// Whether stacks are structured in this form.
    pub fn is_structured(&self) -> (r: bool)
        ensures
            r == self.version.spec_at_least(FIRST_STRUCTURED),
    {
        self.version.at_least(FIRST_STRUCTURED)
    }

    /// Reads the stack at `pos` in `version`'s form.
    pub fn read(&self, reg: &[DataComponent], b: &[u8], pos: usize)
        -> (r: Option<(Item, usize)>)
        requires
            pos <= b@.len(),
        ensures
            match item_at(reg@, b@, pos as int, self.version, self.length_prefixed) {
                Some((v, p)) => r matches Some((x, q)) && x@ == v && q == p && pos <= q <= b@.len(),
                None => r is None,
            },
    {
        if self.is_structured() {
            read_structured(reg, b, pos, self.length_prefixed)
        } else {
            read_nbt_item(b, pos, self.version)
        }
    }

    /// Writes `item` in `version`'s form; `false` where a payload is too long
    /// for its length prefix.
    pub fn write(&self, out: &mut Vec<u8>, item: &Item) -> (r: bool)
        ensures
            r == item_writable(item@, self.version, self.length_prefixed),
            r ==> final(out)@ == old(out)@ + item_bytes(item@, self.version, self.length_prefixed),
    {
        if self.is_structured() {
            write_structured(out, item, self.length_prefixed)
        } else {
            write_nbt_item(out, item);
            true
        }
    }
}

/// A stack nested in a component, and the advancement icon from 26.1: the
/// item id leads the count and an empty stack cannot be expressed.
#[derive(Clone, Copy, Debug)]
pub struct TemplateItemT;

/// The nested stack form.
pub const TEMPLATE_ITEM: TemplateItemT = TemplateItemT;

impl TemplateItemT {
    /// Reads the nested stack at `pos`.
    pub fn read(&self, reg: &[DataComponent], b: &[u8], pos: usize) -> (r: Option<(Item, usize)>)
        requires
            pos <= b@.len(),
        ensures
            match template_item_at(reg@, b@, pos as int) {
                Some((v, p)) => r matches Some((x, q)) && x@ == v && q == p && pos <= q <= b@.len(),
                None => r is None,
            },
    {
        let (id, p1) = match read_field(&VAR_INT, b, pos) {
            Some(found) => found,
            None => return None,
        };
        let (count, p2) = match read_field(&VAR_INT, b, p1) {
            Some(found) => found,
            None => return None,
        };
        match read_stack_body(reg, b, p2, false) {
            Some((added, removed, p3)) => Some((Item::Structured { count, id, added, removed }, p3)),
            None => None,
        }
    }

    /// Writes `item` as a nested stack.
    pub fn write(&self, out: &mut Vec<u8>, item: &Item)
        ensures
            final(out)@ == old(out)@ + template_bytes(item@),
    {
        let ghost start = out@;
        match item {
            Item::Structured { count, id, added, removed } => {
                VAR_INT.write(out, id);
                VAR_INT.write(out, count);
                write_body(out, added, removed, false);
                assert(out@ =~= start + template_bytes(item@));
            },
            _ => {
                VAR_INT.write(out, &0);
                VAR_INT.write(out, &1);
                VAR_INT.write(out, &0);
                VAR_INT.write(out, &0);
                assert(out@ =~= start + template_bytes(item@));
            },
        }
    }
}

// ---------------------------------------------------------------------------
// The cost of a merchant offer
// ---------------------------------------------------------------------------

/// The cost of a merchant offer from 1.20.5 at `pos`: the item id, then the
/// count, then the added components; it is never empty and removes nothing.
pub open spec fn item_cost_at(reg: Seq<DataComponent>, b: Seq<u8>, pos: int) -> Option<(ItemView, int)> {
    match field(VAR_INT, b, pos) {
        Some((id, p1)) => match field(VAR_INT, b, p1) {
            Some((count, p2)) => match field(VAR_INT, b, p2) {
                Some((to_add, p3)) => if !count_fits(to_add) {
                    None
                } else {
                    match components_at(reg, b, p3, to_add as nat, false, Seq::empty()) {
                        Some((added, p4)) => Some((ItemView::Structured { count, id, added, removed: Seq::empty() }, p4)),
                        None => None,
                    }
                },
                None => None,
            },
            None => None,
        },
        None => None,
    }
}

/// A merchant offer's cost as written: id, count and added components of a
/// structured stack, zeros for anything else; removed ids are not written.
pub open spec fn item_cost_bytes(v: ItemView) -> Seq<u8> {
    match v {
        ItemView::Structured { count, id, added, .. } => VAR_INT.encode(id) + VAR_INT.encode(count)
            + VAR_INT.encode(count_field(added.len())) + components_bytes(added, false),
        _ => VAR_INT.encode(0) + VAR_INT.encode(0) + VAR_INT.encode(0),
    }
}



// ---------------------------------------------------------------------------
// The hashed stack a client sends from 1.21.5
// ---------------------------------------------------------------------------

/// The stack a client from 1.21.5 sends: a hash in place of each added
/// component's payload.
#[derive(Clone, Debug, PartialEq, Eq)]
pub struct HashedItem {
    pub id: i32,
    pub count: i32,
    pub added: Vec<(i32, i32)>,
    pub removed: Vec<i32>,
}

/// A hashed stack as plain values.
pub struct HashedItemView {
    pub id: i32,
    pub count: i32,
    pub added: Seq<(i32, i32)>,
    pub removed: Seq<i32>,
}

impl View for HashedItem {
    type V = HashedItemView;

    open spec fn view(&self) -> HashedItemView {
        HashedItemView { id: self.id, count: self.count, added: self.added@, removed: self.removed@ }
    }
}

/// The view of an optional hashed stack.
pub open spec fn hashed_view(h: Option<HashedItem>) -> Option<HashedItemView> {
    match h {
        Some(x) => Some(x@),
        None => None,
    }
}

/// `n` component hashes from `pos`, each an id and a four byte hash, after `acc`.
pub open spec fn hashes_at(b: Seq<u8>, pos: int, n: nat, acc: Seq<(i32, i32)>) -> Option<(Seq<(i32, i32)>, int)>
    decreases n,
{
    if n == 0 {
        if 0 <= pos <= b.len() { Some((acc, pos)) } else { None }
    } else {
        match field(VAR_INT, b, pos) {
            Some((id, p1)) => match field(I32, b, p1) {
                Some((hash, p2)) => hashes_at(b, p2, (n - 1) as nat, acc.push((id, hash))),
                None => None,
            },
            None => None,
        }
    }
}

/// The serverbound stack from 1.21.5 at `pos`: a present flag, then the id,
/// the count, the component hashes and the removed ids, each list after its
/// count; a count past the bound is refused.
pub open spec fn hashed_item_at(b: Seq<u8>, pos: int) -> Option<(Option<HashedItemView>, int)> {
    match field(BOOL, b, pos) {
        Some((present, p1)) => if !present {
            Some((None, p1))
        } else {
            match field(VAR_INT, b, p1) {
                Some((id, p2)) => match field(VAR_INT, b, p2) {
                    Some((count, p3)) => match field(VAR_INT, b, p3) {
                        Some((n_added, p4)) => if !count_fits(n_added) {
                            None
                        } else {
                            match hashes_at(b, p4, n_added as nat, Seq::empty()) {
                                Some((added, p5)) => match field(VAR_INT, b, p5) {
                                    Some((n_removed, p6)) => if !count_fits(n_removed) {
                                        None
                                    } else {
                                        match ids_at(b, p6, n_removed as nat, Seq::empty()) {
                                            Some((removed, p7)) =>
                                                Some((Some(HashedItemView { id, count, added, removed }), p7)),
                                            None => None,
                                        }
                                    },
                                    None => None,
                                },
                                None => None,
                            }
                        },
                        None => None,
                    },
                    None => None,
                },
                None => None,
            }
        },
        None => None,
    }
}

/// Component hashes as written.
pub open spec fn hashes_bytes(hs: Seq<(i32, i32)>) -> Seq<u8>
    decreases hs.len(),
{
    if hs.len() == 0 {
        Seq::empty()
    } else {
        hashes_bytes(hs.drop_last()) + VAR_INT.encode(hs.last().0) + I32.encode(hs.last().1)
    }
}

/// An optional hashed stack as written.
pub open spec fn hashed_item_bytes(h: Option<HashedItemView>) -> Seq<u8> {
    match h {
        Some(x) => BOOL.encode(true) + VAR_INT.encode(x.id) + VAR_INT.encode(x.count)
            + VAR_INT.encode(count_field(x.added.len())) + hashes_bytes(x.added)
            + VAR_INT.encode(count_field(x.removed.len())) + ids_bytes(x.removed),
        None => BOOL.encode(false),
    }
}

fn read_hashes(b: &[u8], pos: usize, n: i32) -> (r: Option<(Vec<(i32, i32)>, usize)>)
    requires
        pos <= b@.len(),
        n >= 0,
    ensures
        match hashes_at(b@, pos as int, n as nat, Seq::empty()) {
            Some((v, p)) => r matches Some((x, q)) && x@ == v && q == p && pos <= q <= b@.len(),
            None => r is None,
        },
{
    let mut left = n;
    let mut p = pos;
    let mut out: Vec<(i32, i32)> = Vec::new();
    while left > 0
        invariant
            pos <= p <= b@.len(),
            left >= 0,
            hashes_at(b@, pos as int, n as nat, Seq::empty()) == hashes_at(b@, p as int, left as nat, out@),
        decreases left,
    {
        let (id, p1) = match read_field(&VAR_INT, b, p) {
            Some(found) => found,
            None => return None,
        };
        let (hash, p2) = match read_field(&I32, b, p1) {
            Some(found) => found,
            None => return None,
        };
        out.push((id, hash));
        p = p2;
        left = left - 1;
    }
    Some((out, p))
}





/// The cost of a merchant offer from 1.20.5.
#[derive(Clone, Copy, Debug)]
pub struct ItemCostT;

/// The merchant offer cost form.
pub const ITEM_COST: ItemCostT = ItemCostT;

impl ItemCostT {
    /// Reads the merchant offer cost at `pos`.
    pub fn read(&self, reg: &[DataComponent], b: &[u8], pos: usize) -> (r: Option<(Item, usize)>)
        requires
            pos <= b@.len(),
        ensures
            match item_cost_at(reg@, b@, pos as int) {
                Some((v, p)) => r matches Some((x, q)) && x@ == v && q == p && pos <= q <= b@.len(),
                None => r is None,
            },
    {
        let (id, p1) = match read_field(&VAR_INT, b, pos) {
            Some(found) => found,
            None => return None,
        };
        let (count, p2) = match read_field(&VAR_INT, b, p1) {
            Some(found) => found,
            None => return None,
        };
        let (to_add, p3) = match read_field(&VAR_INT, b, p2) {
            Some(found) => found,
            None => return None,
        };
        if to_add < 0 || to_add > MAX_COMPONENTS {
            return None;
        }
        match read_components(reg, b, p3, to_add, false) {
            Some((added, p4)) => {
                let removed: Vec<i32> = Vec::new();
                Some((Item::Structured { count, id, added, removed }, p4))
            },
            None => None,
        }
    }

    /// Writes `item` as a merchant offer cost.
    pub fn write(&self, out: &mut Vec<u8>, item: &Item)
        ensures
            final(out)@ == old(out)@ + item_cost_bytes(item@),
    {
        let ghost start = out@;
        match item {
            Item::Structured { count, id, added, .. } => {
                VAR_INT.write(out, id);
                VAR_INT.write(out, count);
                VAR_INT.write(out, &count_of(added.len()));
                write_components(out, added, false);
                assert(out@ =~= start + item_cost_bytes(item@));
            },
            _ => {
                VAR_INT.write(out, &0);
                VAR_INT.write(out, &0);
                VAR_INT.write(out, &0);
                assert(out@ =~= start + item_cost_bytes(item@));
            },
        }
    }
}

/// The serverbound stack from 1.21.5: an optional id, count and component hashes.
#[derive(Clone, Copy, Debug)]
pub struct HashedItemT;

/// The hashed stack form.
pub const HASHED_ITEM: HashedItemT = HashedItemT;

impl HashedItemT {
    /// Reads the serverbound stack at `pos`.
    pub fn read(&self, b: &[u8], pos: usize) -> (r: Option<(Option<HashedItem>, usize)>)
        requires
            pos <= b@.len(),
        ensures
            match hashed_item_at(b@, pos as int) {
                Some((v, p)) => r matches Some((x, q)) && hashed_view(x) == v && q == p && pos <= q <= b@.len(),
                None => r is None,
            },
    {
        let (present, p1) = match read_field(&BOOL, b, pos) {
            Some(found) => found,
            None => return None,
        };
        if !present {
            return Some((None, p1));
        }
        let (id, p2) = match read_field(&VAR_INT, b, p1) {
            Some(found) => found,
            None => return None,
        };
        let (count, p3) = match read_field(&VAR_INT, b, p2) {
            Some(found) => found,
            None => return None,
        };
        let (n_added, p4) = match read_field(&VAR_INT, b, p3) {
            Some(found) => found,
            None => return None,
        };
        if n_added < 0 || n_added > MAX_COMPONENTS {
            return None;
        }
        let (added, p5) = match read_hashes(b, p4, n_added) {
            Some(found) => found,
            None => return None,
        };
        let (n_removed, p6) = match read_field(&VAR_INT, b, p5) {
            Some(found) => found,
            None => return None,
        };
        if n_removed < 0 || n_removed > MAX_COMPONENTS {
            return None;
        }
        match read_ids(b, p6, n_removed) {
            Some((removed, p7)) => Some((Some(HashedItem { id, count, added, removed }), p7)),
            None => None,
        }
    }

    /// Writes an optional serverbound stack.
    pub fn write(&self, out: &mut Vec<u8>, h: &Option<HashedItem>)
        ensures
            final(out)@ == old(out)@ + hashed_item_bytes(hashed_view(*h)),
    {
        match h {
            Some(x) => {
                let ghost start = out@;
                BOOL.write(out, &true);
                VAR_INT.write(out, &x.id);
                VAR_INT.write(out, &x.count);
                VAR_INT.write(out, &count_of(x.added.len()));
                let ghost before = out@;
                let mut i: usize = 0;
                while i < x.added.len()
                    invariant
                        i <= x.added@.len(),
                        out@ == before + hashes_bytes(x.added@.take(i as int)),
                    decreases x.added@.len() - i,
                {
                    assert(x.added@.take(i + 1).drop_last() =~= x.added@.take(i as int));
                    let (id, hash) = x.added[i];
                    VAR_INT.write(out, &id);
                    I32.write(out, &hash);
                    assert(out@ =~= before + hashes_bytes(x.added@.take(i + 1)));
                    i = i + 1;
                }
                assert(x.added@.take(x.added@.len() as int) =~= x.added@);
                VAR_INT.write(out, &count_of(x.removed.len()));
                write_ids(out, &x.removed);
                assert(out@ =~= start + hashed_item_bytes(hashed_view(*h)));
            },
            None => {
                BOOL.write(out, &false);
            },
        }
    }
}

// ---------------------------------------------------------------------------
// Reading back what was written
// ---------------------------------------------------------------------------

proof fn lemma_var_field(b: Seq<u8>, pos: int, x: i32, tail: Seq<u8>)
    requires
        0 <= pos <= b.len(),
        b.subrange(pos, b.len() as int) == VAR_INT.encode(x) + tail,
    ensures
        field(VAR_INT, b, pos) == Some((x, pos + VAR_INT.encode(x).len())),
{
    VAR_INT.lemma_round_trip(x, tail);
}

/// What follows `x` where the bytes from `pos` are `x` and then `y`.
pub(crate) proof fn lemma_past(b: Seq<u8>, pos: int, x: Seq<u8>, y: Seq<u8>)
    requires
        0 <= pos <= b.len(),
        b.subrange(pos, b.len() as int) == x + y,
    ensures
        b.subrange(pos, pos + x.len()) == x,
        b.subrange(pos + x.len(), b.len() as int) == y,
        pos + x.len() <= b.len(),
{
    let whole = b.subrange(pos, b.len() as int);
    assert(whole.len() == x.len() + y.len());
    assert forall|i: int| 0 <= i < x.len() implies #[trigger] b.subrange(pos, pos + x.len())[i] == x[i] by {
        assert(whole[i] == (x + y)[i]);
    }
    assert forall|i: int| 0 <= i < y.len() implies #[trigger] b.subrange(pos + x.len(), b.len() as int)[i] == y[i] by {
        assert(whole[x.len() + i] == (x + y)[x.len() + i]);
    }
    assert(b.subrange(pos, pos + x.len()) =~= x);
    assert(b.subrange(pos + x.len(), b.len() as int) =~= y);
}

/// A `VarInt` `x` at `pos`, followed by `y`.
proof fn lemma_var_step(b: Seq<u8>, pos: int, x: i32, y: Seq<u8>)
    requires
        0 <= pos <= b.len(),
        b.subrange(pos, b.len() as int) == VAR_INT.encode(x) + y,
    ensures
        field(VAR_INT, b, pos) == Some((x, pos + VAR_INT.encode(x).len())),
        b.subrange(pos + VAR_INT.encode(x).len(), b.len() as int) == y,
{
    lemma_var_field(b, pos, x, y);
    lemma_past(b, pos, VAR_INT.encode(x), y);
}

proof fn lemma_components_bytes_front(cs: Seq<ComponentView>, length_prefixed: bool)
    requires
        cs.len() > 0,
    ensures
        components_bytes(cs, length_prefixed)
            == component_bytes(cs[0], length_prefixed) + components_bytes(cs.drop_first(), length_prefixed),
    decreases cs.len(),
{
    if cs.len() == 1 {
        assert(cs.drop_last() =~= Seq::<ComponentView>::empty());
        assert(cs.drop_first() =~= Seq::<ComponentView>::empty());
        assert(components_bytes(cs.drop_last(), length_prefixed) == Seq::<u8>::empty());
        assert(components_bytes(cs.drop_first(), length_prefixed) == Seq::<u8>::empty());
        assert(components_bytes(cs, length_prefixed) =~= component_bytes(cs[0], length_prefixed));
        assert(component_bytes(cs[0], length_prefixed) + Seq::<u8>::empty() =~= component_bytes(cs[0], length_prefixed));
    } else {
        lemma_components_bytes_front(cs.drop_last(), length_prefixed);
        assert(cs.drop_last().drop_first() =~= cs.drop_first().drop_last());
        assert(cs.drop_first().last() == cs.last());
        assert(cs.drop_last()[0] == cs[0]);
        assert(components_bytes(cs, length_prefixed)
            =~= component_bytes(cs[0], length_prefixed) + components_bytes(cs.drop_first(), length_prefixed));
    }
}

proof fn lemma_ids_bytes_front(ids: Seq<i32>)
    requires
        ids.len() > 0,
    ensures
        ids_bytes(ids) == VAR_INT.encode(ids[0]) + ids_bytes(ids.drop_first()),
    decreases ids.len(),
{
    if ids.len() == 1 {
        assert(ids.drop_last() =~= Seq::<i32>::empty());
        assert(ids.drop_first() =~= Seq::<i32>::empty());
        assert(ids_bytes(ids.drop_last()) == Seq::<u8>::empty());
        assert(ids_bytes(ids.drop_first()) == Seq::<u8>::empty());
        assert(ids_bytes(ids) =~= VAR_INT.encode(ids[0]));
        assert(VAR_INT.encode(ids[0]) + Seq::<u8>::empty() =~= VAR_INT.encode(ids[0]));
    } else {
        lemma_ids_bytes_front(ids.drop_last());
        assert(ids.drop_last().drop_first() =~= ids.drop_first().drop_last());
        assert(ids.drop_first().last() == ids.last());
        assert(ids.drop_last()[0] == ids[0]);
        assert(ids_bytes(ids) =~= VAR_INT.encode(ids[0]) + ids_bytes(ids.drop_first()));
    }
}

proof fn lemma_component_read_back(reg: Seq<DataComponent>, b: Seq<u8>, pos: int, c: ComponentView, after: Seq<u8>)
    requires
        0 <= pos <= b.len(),
        b.subrange(pos, b.len() as int) == component_bytes(c, true) + after,
        c.data.len() <= i32::MAX,
    ensures
        ({
            let p2 = pos + VAR_INT.encode(c.id).len() + VAR_INT.encode(c.data.len() as i32).len();
            &&& field(VAR_INT, b, pos) == Some((c.id, pos + VAR_INT.encode(c.id).len()))
            &&& field(VAR_INT, b, pos + VAR_INT.encode(c.id).len()) == Some((c.data.len() as i32, p2))
            &&& p2 + c.data.len() <= b.len()
            &&& b.subrange(p2, p2 + c.data.len()) == c.data
            &&& b.subrange(p2 + c.data.len(), b.len() as int) == after
            &&& pos + component_bytes(c, true).len() == p2 + c.data.len()
        }),
{
    let e_id = VAR_INT.encode(c.id);
    let len = c.data.len() as i32;
    let e_len = VAR_INT.encode(len);
    assert(component_bytes(c, true) + after =~= e_id + (e_len + (c.data + after)));
    lemma_var_step(b, pos, c.id, e_len + (c.data + after));
    let p1 = pos + e_id.len();
    lemma_var_step(b, p1, len, c.data + after);
    let p2 = p1 + e_len.len();
    lemma_past(b, p2, c.data, after);
}

proof fn lemma_components_step(reg: Seq<DataComponent>, b: Seq<u8>, pos: int, n: nat, acc: Seq<ComponentView>,
    c: ComponentView)
    requires
        n > 0,
        c.data.len() <= i32::MAX,
        ({
            let p2 = pos + VAR_INT.encode(c.id).len() + VAR_INT.encode(c.data.len() as i32).len();
            &&& field(VAR_INT, b, pos) == Some((c.id, pos + VAR_INT.encode(c.id).len()))
            &&& field(VAR_INT, b, pos + VAR_INT.encode(c.id).len()) == Some((c.data.len() as i32, p2))
            &&& p2 + c.data.len() <= b.len()
            &&& b.subrange(p2, p2 + c.data.len()) == c.data
        }),
    ensures
        components_at(reg, b, pos, n, true, acc)
            == components_at(reg, b, pos + component_bytes(c, true).len(), (n - 1) as nat, true, acc.push(c)),
{
}

#[verifier::rlimit(40)]
proof fn lemma_components_read_back(reg: Seq<DataComponent>, b: Seq<u8>, pos: int, cs: Seq<ComponentView>,
    acc: Seq<ComponentView>, tail: Seq<u8>)
    requires
        0 <= pos <= b.len(),
        b.subrange(pos, b.len() as int) == components_bytes(cs, true) + tail,
        lengths_fit(cs),
    ensures
        components_at(reg, b, pos, cs.len(), true, acc) == Some((acc + cs, pos + components_bytes(cs, true).len())),
    decreases cs.len(),
{
    if cs.len() == 0 {
        assert(acc + cs =~= acc);
        assert(components_bytes(cs, true) == Seq::<u8>::empty());
    } else {
        let c = cs[0];
        let rest = cs.drop_first();
        lemma_components_bytes_front(cs, true);
        assert(c.data.len() <= i32::MAX);
        let after = components_bytes(rest, true) + tail;
        assert(components_bytes(cs, true) + tail =~= component_bytes(c, true) + after);
        lemma_component_read_back(reg, b, pos, c, after);
        let p3 = pos + component_bytes(c, true).len();
        lemma_components_step(reg, b, pos, cs.len(), acc, c);
        assert forall|i: int| 0 <= i < rest.len() implies #[trigger] rest[i].data.len() <= i32::MAX by {
            assert(rest[i] == cs[i + 1]);
        }
        lemma_components_read_back(reg, b, p3, rest, acc.push(c), tail);
        assert(acc.push(c) + rest =~= acc + cs);
    }
}

proof fn lemma_ids_read_back(b: Seq<u8>, pos: int, ids: Seq<i32>, acc: Seq<i32>, tail: Seq<u8>)
    requires
        0 <= pos <= b.len(),
        b.subrange(pos, b.len() as int) == ids_bytes(ids) + tail,
    ensures
        ids_at(b, pos, ids.len(), acc) == Some((acc + ids, pos + ids_bytes(ids).len())),
    decreases ids.len(),
{
    if ids.len() == 0 {
        assert(acc + ids =~= acc);
        assert(ids_bytes(ids) == Seq::<u8>::empty());
    } else {
        lemma_ids_bytes_front(ids);
        let after = ids_bytes(ids.drop_first()) + tail;
        assert(ids_bytes(ids) + tail =~= VAR_INT.encode(ids[0]) + after);
        lemma_var_step(b, pos, ids[0], after);
        let p = pos + VAR_INT.encode(ids[0]).len();
        lemma_ids_read_back(b, p, ids.drop_first(), acc.push(ids[0]), tail);
        assert(acc.push(ids[0]) + ids.drop_first() =~= acc + ids);
    }
}

/// A stack written in the structured form with every payload after its
/// length reads back as itself, whatever follows it, where its count is not
/// zero (a zero count is the empty stack), it adds and removes no more than
/// `MAX_COMPONENTS` components and every payload's length fits its prefix.
#[verifier::rlimit(40)]
pub proof fn law_structured_round_trip(reg: Seq<DataComponent>, v: ItemView, rest: Seq<u8>)
    requires
        v is Structured,
        v->Structured_count != 0,
        v->Structured_added.len() <= MAX_COMPONENTS,
        v->Structured_removed.len() <= MAX_COMPONENTS,
        lengths_fit(v->Structured_added),
    ensures
        structured_item_at(reg, structured_bytes(v, true) + rest, 0, true)
            == Some((v, structured_bytes(v, true).len() as int)),
{
    let count = v->Structured_count;
    let id = v->Structured_id;
    let added = v->Structured_added;
    let removed = v->Structured_removed;
    let n_added = added.len() as i32;
    let n_removed = removed.len() as i32;
    let cb = components_bytes(added, true);
    let ib = ids_bytes(removed);
    let b = structured_bytes(v, true) + rest;
    let e0 = VAR_INT.encode(count);
    let e1 = VAR_INT.encode(id);
    let e2 = VAR_INT.encode(n_added);
    let e3 = VAR_INT.encode(n_removed);
    assert(count_field(added.len()) == n_added);
    assert(count_field(removed.len()) == n_removed);
    assert(b.subrange(0, b.len() as int) =~= e0 + (e1 + (e2 + (e3 + (cb + (ib + rest))))));
    lemma_var_step(b, 0, count, e1 + (e2 + (e3 + (cb + (ib + rest)))));
    let p1 = e0.len() as int;
    lemma_var_step(b, p1, id, e2 + (e3 + (cb + (ib + rest))));
    let p2 = p1 + e1.len();
    lemma_var_step(b, p2, n_added, e3 + (cb + (ib + rest)));
    let p3 = p2 + e2.len();
    lemma_var_step(b, p3, n_removed, cb + (ib + rest));
    let p4 = p3 + e3.len();
    lemma_components_read_back(reg, b, p4, added, Seq::empty(), ib + rest);
    assert(Seq::<ComponentView>::empty() + added =~= added);
    let p5 = p4 + cb.len();
    lemma_past(b, p4, cb, ib + rest);
    lemma_ids_read_back(b, p5, removed, Seq::empty(), rest);
    assert(Seq::<i32>::empty() + removed =~= removed);
    assert(structured_bytes(v, true).len() == p5 + ib.len());
}


/// A value of `t` at `pos`, followed by `y`.
pub(crate) proof fn lemma_field_step<T: WireType>(t: T, b: Seq<u8>, pos: int, x: <T::Value as DeepView>::V, y: Seq<u8>)
    requires
        0 <= pos <= b.len(),
        t.writable(x),
        t.well_formed(x),
        !t.reads_to_end(),
        b.subrange(pos, b.len() as int) == t.encode(x) + y,
    ensures
        field(t, b, pos) == Some((x, pos + t.encode(x).len())),
        b.subrange(pos + t.encode(x).len(), b.len() as int) == y,
{
    t.lemma_round_trip(x, y);
    lemma_past(b, pos, t.encode(x), y);
}

proof fn lemma_hashes_bytes_front(hs: Seq<(i32, i32)>)
    requires
        hs.len() > 0,
    ensures
        hashes_bytes(hs) == VAR_INT.encode(hs[0].0) + I32.encode(hs[0].1) + hashes_bytes(hs.drop_first()),
    decreases hs.len(),
{
    if hs.len() == 1 {
        assert(hs.drop_last() =~= Seq::<(i32, i32)>::empty());
        assert(hs.drop_first() =~= Seq::<(i32, i32)>::empty());
        assert(hashes_bytes(hs.drop_last()) == Seq::<u8>::empty());
        assert(hashes_bytes(hs.drop_first()) == Seq::<u8>::empty());
        assert(hashes_bytes(hs) =~= VAR_INT.encode(hs[0].0) + I32.encode(hs[0].1) + Seq::<u8>::empty());
    } else {
        lemma_hashes_bytes_front(hs.drop_last());
        assert(hs.drop_last().drop_first() =~= hs.drop_first().drop_last());
        assert(hs.drop_first().last() == hs.last());
        assert(hs.drop_last()[0] == hs[0]);
        assert(hashes_bytes(hs) =~= VAR_INT.encode(hs[0].0) + I32.encode(hs[0].1) + hashes_bytes(hs.drop_first()));
    }
}

proof fn lemma_hashes_read_back(b: Seq<u8>, pos: int, hs: Seq<(i32, i32)>, acc: Seq<(i32, i32)>, tail: Seq<u8>)
    requires
        0 <= pos <= b.len(),
        b.subrange(pos, b.len() as int) == hashes_bytes(hs) + tail,
    ensures
        hashes_at(b, pos, hs.len(), acc) == Some((acc + hs, pos + hashes_bytes(hs).len())),
    decreases hs.len(),
{
    if hs.len() == 0 {
        assert(acc + hs =~= acc);
        assert(hashes_bytes(hs) == Seq::<u8>::empty());
    } else {
        lemma_hashes_bytes_front(hs);
        let after = hashes_bytes(hs.drop_first()) + tail;
        assert(hashes_bytes(hs) + tail =~= VAR_INT.encode(hs[0].0) + (I32.encode(hs[0].1) + after));
        lemma_var_step(b, pos, hs[0].0, I32.encode(hs[0].1) + after);
        let p1 = pos + VAR_INT.encode(hs[0].0).len();
        lemma_field_step(I32, b, p1, hs[0].1, after);
        let p2 = p1 + I32.encode(hs[0].1).len();
        lemma_hashes_read_back(b, p2, hs.drop_first(), acc.push(hs[0]), tail);
        assert(acc.push(hs[0]) + hs.drop_first() =~= acc + hs);
    }
}

/// A hashed stack reads back as itself, whatever follows it, where it lists
/// no more than `MAX_COMPONENTS` hashes and removed ids; no stack reads back
/// as none.
#[verifier::rlimit(40)]
pub proof fn law_hashed_round_trip(h: Option<HashedItemView>, rest: Seq<u8>)
    requires
        h matches Some(x) ==> x.added.len() <= MAX_COMPONENTS && x.removed.len() <= MAX_COMPONENTS,
    ensures
        hashed_item_at(hashed_item_bytes(h) + rest, 0) == Some((h, hashed_item_bytes(h).len() as int)),
{
    let b = hashed_item_bytes(h) + rest;
    match h {
        None => {
            assert(b.subrange(0, b.len() as int) =~= BOOL.encode(false) + rest);
            lemma_field_step(BOOL, b, 0, false, rest);
        },
        Some(x) => {
            let n_added = x.added.len() as i32;
            let n_removed = x.removed.len() as i32;
            assert(count_field(x.added.len()) == n_added);
            assert(count_field(x.removed.len()) == n_removed);
            let hb = hashes_bytes(x.added);
            let ib = ids_bytes(x.removed);
            let e_id = VAR_INT.encode(x.id);
            let e_count = VAR_INT.encode(x.count);
            let e_added = VAR_INT.encode(n_added);
            let e_removed = VAR_INT.encode(n_removed);
            let after1 = e_id + (e_count + (e_added + (hb + (e_removed + (ib + rest)))));
            assert(b.subrange(0, b.len() as int) =~= BOOL.encode(true) + after1);
            lemma_field_step(BOOL, b, 0, true, after1);
            let p1 = 1int;
            lemma_var_step(b, p1, x.id, e_count + (e_added + (hb + (e_removed + (ib + rest)))));
            let p2 = p1 + e_id.len();
            lemma_var_step(b, p2, x.count, e_added + (hb + (e_removed + (ib + rest))));
            let p3 = p2 + e_count.len();
            lemma_var_step(b, p3, n_added, hb + (e_removed + (ib + rest)));
            let p4 = p3 + e_added.len();
            lemma_hashes_read_back(b, p4, x.added, Seq::empty(), e_removed + (ib + rest));
            assert(Seq::<(i32, i32)>::empty() + x.added =~= x.added);
            lemma_past(b, p4, hb, e_removed + (ib + rest));
            let p5 = p4 + hb.len();
            lemma_var_step(b, p5, n_removed, ib + rest);
            let p6 = p5 + e_removed.len();
            lemma_ids_read_back(b, p6, x.removed, Seq::empty(), rest);
            assert(Seq::<i32>::empty() + x.removed =~= x.removed);
            assert(hashed_item_bytes(h).len() == p6 + ib.len());
        },
    }
}

} // verus!
