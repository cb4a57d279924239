//! The chunk shapes 1.16.2 to 1.17.1 read: section containers without the
//! single value palette, chunk wide biomes, and below 1.17 a `VarInt` mask of
//! the sections sent.

use vstd::prelude::*;
use vstd::slice::slice_subrange;
use crate::api::types::{
    WireType, ArrayT, I64T, VarIntT, BOOL, I16, I32, I64, U8, VAR_INT, encode_items,
    parse_items, read_items, write_items,
};
use crate::codec::{rest_of, append_bytes, copy_range};
use crate::data::mappings::IdMapping;
use crate::packet::block_entities::{block_entity_list, rewrite_block_entities};
use crate::nbt::{payload_end, skip_payload, MAX_NBT_DEPTH, TAG_END};

verus! {

/// Blocks in a section.
pub const BLOCKS_PER_SECTION: usize = 4096;
/// Biomes in a 1.18 section.
pub const BIOMES_PER_SECTION: usize = 64;
/// Narrowest indirect block palette vanilla reads below 1.18.
pub const LEGACY_BLOCK_BITS: u8 = 4;
/// Widest indirect block palette, above which the section is direct.
pub const MAX_INDIRECT_BLOCK_BITS: u8 = 8;
/// Widest indirect biome palette.
pub const MAX_INDIRECT_BIOME_BITS: u8 = 3;

/// The value of a `t` at `pos` and the position after it.
pub open spec fn field<T: WireType>(t: T, b: Seq<u8>, pos: int) -> Option<(<T::Value as DeepView>::V, int)> {
    if 0 <= pos <= b.len() {
        match t.parse(rest_of(b, pos)) {
            Some((v, n)) => Some((v, pos + n)),
            None => None,
        }
    } else {
        None
    }
}

/// A count of longs and that many longs.
pub open spec fn longs() -> ArrayT<I64T> {
    ArrayT(I64)
}

/// A count of `VarInt`s and that many.
pub open spec fn var_ints() -> ArrayT<VarIntT> {
    ArrayT(VAR_INT)
}

pub(crate) fn read_field<T: WireType>(t: &T, b: &[u8], pos: usize) -> (r: Option<(T::Value, usize)>)
    requires
        pos <= b@.len(),
    ensures
        match field(*t, b@, pos as int) {
            Some((v, p)) => r matches Some((x, q)) && x.deep_view() == v && q == p && pos <= q <= b@.len(),
            None => r is None,
        },
{
    t.read(b, pos)
}

/// Entries that fit in one packed long at `bits`, which never span two longs
/// from 1.16 on.
pub fn per_long(bits: u8) -> (r: usize)
    requires
        1 <= bits <= 64,
    ensures
        r == 64int / (bits as int),
{
    64 / bits as usize
}

proof fn lemma_per_long(bits: u8)
    requires
        1 <= bits <= 64,
    ensures
        1 <= 64int / (bits as int) <= 64,
{
    assert(1 <= 64int / (bits as int) <= 64) by (nonlinear_arith)
        requires 1 <= bits <= 64;
}

/// Entry `i` of entries `bits` wide packed into `longs`, as many to a long as
/// fit and none across two.
pub open spec fn packed_entry(longs: Seq<i64>, bits: u8, i: int) -> u32 {
    let per = 64int / (bits as int);
    let word = longs[i / per] as u64;
    ((word >> ((bits as int) * (i % per)) as u64) & (((1u64 << bits) - 1) as u64)) as u32
}

/// The first `count` entries packed into `longs`, `None` where there are too
/// few longs for them.
pub open spec fn unpacked(longs: Seq<i64>, bits: u8, count: nat) -> Option<Seq<u32>> {
    let per = 64int / (bits as int);
    if longs.len() < (count + per - 1) / (per as int) {
        None
    } else {
        Some(Seq::new(count, |i: int| packed_entry(longs, bits, i)))
    }
}

proof fn lemma_shift_in_range(bits: u8, i: int)
    requires
        1 <= bits < 64,
        0 <= i,
    ensures
        0 <= (bits as int) * (i % (64int / (bits as int))) < 64,
        (bits as int) * (i % (64int / (bits as int))) <= 64 - bits,
{
    let per = 64int / (bits as int);
    lemma_per_long(bits);
    assert(bits as int * per <= 64) by (nonlinear_arith)
        requires per == 64int / (bits as int), bits >= 1;
    let k = i % per;
    assert(0 <= k < per);
    assert((bits as int) * k <= 64 - bits && 0 <= (bits as int) * k) by (nonlinear_arith)
        requires 0 <= k < per, bits >= 1, (bits as int) * per <= 64;
}

/// The first `count` entries packed `bits` wide into `longs`.
pub fn unpack(longs: &[i64], bits: u8, count: usize) -> (r: Option<Vec<u32>>)
    requires
        1 <= bits < 64,
    ensures
        match unpacked(longs@, bits, count as nat) {
            Some(entries) => r matches Some(v) && v@ == entries,
            None => r is None,
        },
{
    let per = per_long(bits);
    proof { lemma_per_long(bits); }
    let needed = if count % per != 0 {
        assert(count / per < usize::MAX) by (nonlinear_arith)
            requires per >= 1, count % per != 0, count <= usize::MAX;
        count / per + 1
    } else {
        count / per
    };
    assert((needed as int) == (count + per - 1) / (per as int)) by (nonlinear_arith)
        requires per >= 1, needed == count / per + if count % per != 0 { 1int } else { 0int };
    if longs.len() < needed {
        return None;
    }
    assert(1u64 << bits >= 1) by (bit_vector)
        requires bits < 64;
    let mask: u64 = (1u64 << bits) - 1;
    let mut out: Vec<u32> = Vec::new();
    let mut index: usize = 0;
    while index < count
        invariant
            1 <= bits < 64,
            per == 64int / (bits as int),
            per >= 1,
            index <= count,
            longs@.len() >= (count + per - 1) / (per as int),
            mask == ((1u64 << bits) - 1) as u64,
            out@ == Seq::new(index as nat, |i: int| packed_entry(longs@, bits, i)),
        decreases count - index,
    {
        proof {
            lemma_shift_in_range(bits, index as int);
            assert(index / per < longs@.len()) by (nonlinear_arith)
                requires index < count, per >= 1, longs@.len() >= (count + per - 1) / (per as int);
        }
        let word = longs[index / per] as u64;
        let shift = (bits as u64) * ((index % per) as u64);
        let entry = ((word >> shift) & mask) as u32;
        out.push(entry);
        assert(out@ =~= Seq::new((index + 1) as nat, |i: int| packed_entry(longs@, bits, i)));
        index = index + 1;
    }
    Some(out)
}

/// Reads a count of longs and that many longs.
fn read_longs(b: &[u8], pos: usize) -> (r: Option<(Vec<i64>, usize)>)
    requires
        pos <= b@.len(),
    ensures
        match field(longs(), b@, pos as int) {
            Some((v, p)) => r matches Some((x, q)) && x@ == v && q == p && pos <= q <= b@.len(),
            None => r is None,
        },
{
    let t = ArrayT(I64);
    match read_field(&t, b, pos) {
        Some((v, q)) => {
            proof { assert(v.deep_view() =~= v@); }
            Some((v, q))
        },
        None => None,
    }
}

/// A palette: a count of ids and that many, each refused where negative.
pub open spec fn palette_field(b: Seq<u8>, pos: int) -> Option<(Seq<u32>, int)> {
    match field(var_ints(), b, pos) {
        Some((ids, p)) => if forall|i: int| 0 <= i < ids.len() ==> ids[i] >= 0 {
            Some((ids.map_values(|x: i32| x as u32), p))
        } else {
            None
        },
        None => None,
    }
}

/// Reads a palette.
fn read_palette(b: &[u8], pos: usize) -> (r: Option<(Vec<u32>, usize)>)
    requires
        pos <= b@.len(),
    ensures
        match palette_field(b@, pos as int) {
            Some((v, p)) => r matches Some((x, q)) && x@ == v && q == p && pos <= q <= b@.len(),
            None => r is None,
        },
{
    let t = ArrayT(VAR_INT);
    let (ids, next) = match read_field(&t, b, pos) {
        Some(found) => found,
        None => return None,
    };
    proof { assert(ids.deep_view() =~= ids@); }
    let mut out: Vec<u32> = Vec::new();
    let mut i: usize = 0;
    while i < ids.len()
        invariant
            i <= ids@.len(),
            pos <= next <= b@.len(),
            field(var_ints(), b@, pos as int) == Some((ids@, next as int)),
            forall|j: int| 0 <= j < i ==> ids@[j] >= 0,
            out@ == ids@.take(i as int).map_values(|x: i32| x as u32),
        decreases ids@.len() - i,
    {
        if ids[i] < 0 {
            assert(ids@[i as int] < 0);
            return None;
        }
        out.push(ids[i] as u32);
        assert(out@ =~= ids@.take(i + 1).map_values(|x: i32| x as u32));
        i = i + 1;
    }
    assert(ids@.take(ids@.len() as int) =~= ids@);
    Some((out, next))
}

/// A section's block container as plain values, in the shape 1.16 and 1.17
/// read.
pub struct ContainerView {
    pub bits: u8,
    pub palette: Seq<u32>,
    pub packed: Seq<i64>,
}

/// One section's block container, already in the shape 1.16 and 1.17 read.
pub struct BlockContainer {
    pub bits: u8,
    pub palette: Vec<u32>,
    pub packed: Vec<i64>,
}

impl View for BlockContainer {
    type V = ContainerView;

    open spec fn view(&self) -> ContainerView {
        ContainerView { bits: self.bits, palette: self.palette@, packed: self.packed@ }
    }
}

/// The packed longs of a section whose every block is palette entry zero.
pub open spec fn zero_longs() -> Seq<i64> {
    Seq::new((BLOCKS_PER_SECTION / 16) as nat, |i: int| 0i64)
}

/// The block container at `pos`. The single value palette arrived with 1.18;
/// below it vanilla rounds any width up to four and reads a palette list, so
/// the one id becomes a one entry palette every block indexes. A direct
/// palette, wider than `MAX_INDIRECT_BLOCK_BITS`, stores ids at a width taken
/// from the sender's registry and is refused.
pub open spec fn container_field(b: Seq<u8>, pos: int) -> Option<(ContainerView, int)> {
    match field(U8, b, pos) {
        Some((bits, p1)) => if bits == 0 {
            match field(VAR_INT, b, p1) {
                Some((id, p2)) => if id < 0 {
                    None
                } else {
                    match field(longs(), b, p2) {
                        Some((_, p3)) => Some((
                            ContainerView { bits: LEGACY_BLOCK_BITS, palette: seq![id as u32], packed: zero_longs() },
                            p3,
                        )),
                        None => None,
                    }
                },
                None => None,
            }
        } else if bits > MAX_INDIRECT_BLOCK_BITS {
            None
        } else {
            match palette_field(b, p1) {
                Some((palette, p2)) => match field(longs(), b, p2) {
                    Some((packed, p3)) => Some((ContainerView { bits, palette, packed }, p3)),
                    None => None,
                },
                None => None,
            }
        },
        None => None,
    }
}

/// The id `states` maps `state` to, air where it maps nowhere.
pub open spec fn mapped_state(states: IdMapping, state: u32) -> u32 {
    match states.spec_map(state) {
        Some(m) => m,
        None => 0,
    }
}

/// The palette of `c` renumbered through `states`.
pub open spec fn mapped_palette(c: ContainerView, states: IdMapping) -> Seq<u32> {
    c.palette.map_values(|s: u32| mapped_state(states, s))
}

/// The bytes `c` is written as with its palette renumbered through `states`,
/// `None` where a count or a renumbered id does not fit a `VarInt`.
pub open spec fn container_bytes(c: ContainerView, states: IdMapping) -> Option<Seq<u8>> {
    let mapped = mapped_palette(c, states);
    if mapped.len() > i32::MAX || c.packed.len() > i32::MAX
        || exists|i: int| 0 <= i < mapped.len() && mapped[i] > i32::MAX {
        None
    } else {
        Some(U8.encode(c.bits) + var_ints().encode(mapped.map_values(|m: u32| m as i32)) + longs().encode(c.packed))
    }
}

impl BlockContainer {
    /// Reads the container at `pos`.
    pub fn read(b: &[u8], pos: usize) -> (r: Option<(BlockContainer, usize)>)
        requires
            pos <= b@.len(),
        ensures
            match container_field(b@, pos as int) {
                Some((c, p)) => r matches Some((x, q)) && x@ == c && q == p && pos <= q <= b@.len(),
                None => r is None,
            },
    {
        let (bits, p1) = match read_field(&U8, b, pos) {
            Some(found) => found,
            None => return None,
        };
        if bits == 0 {
            let (id, p2) = match read_field(&VAR_INT, b, p1) {
                Some(found) => found,
                None => return None,
            };
            if id < 0 {
                return None;
            }
            let p3 = match read_longs(b, p2) {
                Some((_, q)) => q,
                None => return None,
            };
            let packed: Vec<i64> = vec![0i64; BLOCKS_PER_SECTION / 16];
            assert(packed@ =~= zero_longs());
            let palette: Vec<u32> = vec![id as u32];
            assert(palette@ =~= seq![id as u32]);
            return Some((BlockContainer { bits: LEGACY_BLOCK_BITS, palette, packed }, p3));
        }
        if bits > MAX_INDIRECT_BLOCK_BITS {
            return None;
        }
        let (palette, p2) = match read_palette(b, p1) {
            Some(found) => found,
            None => return None,
        };
        let (packed, p3) = match read_longs(b, p2) {
            Some(found) => found,
            None => return None,
        };
        Some((BlockContainer { bits, palette, packed }, p3))
    }

    /// Appends the container with its palette renumbered through `states`;
    /// `false`, with nothing appended, where a count or an id does not fit.
    pub fn write(&self, out: &mut Vec<u8>, states: &IdMapping) -> (r: bool)
        ensures
            match container_bytes(self@, *states) {
                Some(bytes) => r && final(out)@ == old(out)@ + bytes,
                None => !r && final(out)@ == old(out)@,
            },
    {
        let ghost mapped = mapped_palette(self@, *states);
        if self.palette.len() > i32::MAX as usize || self.packed.len() > i32::MAX as usize {
            return false;
        }
        let mut ids: Vec<i32> = Vec::new();
        let mut i: usize = 0;
        while i < self.palette.len()
            invariant
                i <= self.palette@.len(),
                mapped == mapped_palette(self@, *states),
                forall|j: int| 0 <= j < i ==> mapped[j] <= i32::MAX,
                ids@ == mapped.take(i as int).map_values(|m: u32| m as i32),
            decreases self.palette@.len() - i,
        {
            let m = match states.map(self.palette[i]) {
                Some(m) => m,
                None => 0,
            };
            assert(m == mapped[i as int]);
            if m > i32::MAX as u32 {
                return false;
            }
            ids.push(m as i32);
            assert(ids@ =~= mapped.take(i + 1).map_values(|m: u32| m as i32));
            i = i + 1;
        }
        assert(mapped.take(mapped.len() as int) =~= mapped);
        let id_list = ArrayT(VAR_INT);
        let long_list = ArrayT(I64);
        proof {
            assert(ids.deep_view() =~= ids@);
            assert(self.packed.deep_view() =~= self.packed@);
        }
        let mut bytes: Vec<u8> = Vec::new();
        U8.write(&mut bytes, &self.bits);
        id_list.write(&mut bytes, &ids);
        long_list.write(&mut bytes, &self.packed);
        append_bytes(out, bytes.as_slice());
        true
    }
}

/// One section's biomes at `pos`, unpacked into the 64 entries the column
/// carries as one flat array below 1.18: a single value repeated, entries
/// looked up in a palette up to `MAX_INDIRECT_BIOME_BITS` wide, or ids stored
/// directly; an index past the palette is refused.
pub open spec fn biomes_field(b: Seq<u8>, pos: int) -> Option<(Seq<u32>, int)> {
    match field(U8, b, pos) {
        Some((bits, p1)) => if bits == 0 {
            match field(VAR_INT, b, p1) {
                Some((id, p2)) => if id < 0 {
                    None
                } else {
                    match field(longs(), b, p2) {
                        Some((_, p3)) => Some((Seq::new(BIOMES_PER_SECTION as nat, |i: int| id as u32), p3)),
                        None => None,
                    }
                },
                None => None,
            }
        } else if bits <= MAX_INDIRECT_BIOME_BITS {
            match palette_field(b, p1) {
                Some((palette, p2)) => match field(longs(), b, p2) {
                    Some((packed, p3)) => match unpacked(packed, bits, BIOMES_PER_SECTION as nat) {
                        Some(entries) => if forall|i: int| 0 <= i < entries.len() ==> entries[i] < palette.len() {
                            Some((entries.map_values(|e: u32| palette[e as int]), p3))
                        } else {
                            None
                        },
                        None => None,
                    },
                    None => None,
                },
                None => None,
            }
        } else {
            match field(longs(), b, p1) {
                Some((packed, p2)) => match unpacked(packed, bits, BIOMES_PER_SECTION as nat) {
                    Some(entries) => Some((entries, p2)),
                    None => None,
                },
                None => None,
            }
        },
        None => None,
    }
}

/// Each of `entries` looked up in `palette`, `None` where one lies past it.
fn look_up(entries: &Vec<u32>, palette: &Vec<u32>) -> (r: Option<Vec<u32>>)
    ensures
        if forall|i: int| 0 <= i < entries@.len() ==> entries@[i] < palette@.len() {
            r matches Some(v) && v@ == entries@.map_values(|e: u32| palette@[e as int])
        } else {
            r is None
        },
{
    let mut out: Vec<u32> = Vec::new();
    let mut i: usize = 0;
    while i < entries.len()
        invariant
            i <= entries@.len(),
            forall|j: int| 0 <= j < i ==> entries@[j] < palette@.len(),
            out@ == entries@.take(i as int).map_values(|e: u32| palette@[e as int]),
        decreases entries@.len() - i,
    {
        let e = entries[i];
        if e as usize >= palette.len() {
            assert(!(entries@[i as int] < palette@.len()));
            return None;
        }
        out.push(palette[e as usize]);
        assert(out@ =~= entries@.take(i + 1).map_values(|e: u32| palette@[e as int]));
        i = i + 1;
    }
    assert(entries@.take(entries@.len() as int) =~= entries@);
    Some(out)
}

/// Reads one section's biomes. Entries are at most 63 bits wide: a wider
/// width would divide the long into no entries at all.
pub fn read_biomes(b: &[u8], pos: usize) -> (r: Option<(Vec<u32>, usize)>)
    requires
        pos <= b@.len(),
        pos < b@.len() ==> b@[pos as int] < 64,
    ensures
        match biomes_field(b@, pos as int) {
            Some((v, p)) => r matches Some((x, q)) && x@ == v && q == p && pos <= q <= b@.len(),
            None => r is None,
        },
{
    let (bits, p1) = match read_field(&U8, b, pos) {
        Some(found) => found,
        None => return None,
    };
    if bits == 0 {
        let (id, p2) = match read_field(&VAR_INT, b, p1) {
            Some(found) => found,
            None => return None,
        };
        if id < 0 {
            return None;
        }
        let p3 = match read_longs(b, p2) {
            Some((_, q)) => q,
            None => return None,
        };
        let all: Vec<u32> = vec![id as u32; BIOMES_PER_SECTION];
        assert(all@ =~= Seq::new(BIOMES_PER_SECTION as nat, |i: int| id as u32));
        return Some((all, p3));
    }
    if bits <= MAX_INDIRECT_BIOME_BITS {
        let (palette, p2) = match read_palette(b, p1) {
            Some(found) => found,
            None => return None,
        };
        let (packed, p3) = match read_longs(b, p2) {
            Some(found) => found,
            None => return None,
        };
        let entries = match unpack(packed.as_slice(), bits, BIOMES_PER_SECTION) {
            Some(v) => v,
            None => return None,
        };
        let out = match look_up(&entries, &palette) {
            Some(v) => v,
            None => return None,
        };
        Some((out, p3))
    } else {
        let (packed, p2) = match read_longs(b, p1) {
            Some(found) => found,
            None => return None,
        };
        match unpack(packed.as_slice(), bits, BIOMES_PER_SECTION) {
            Some(entries) => Some((entries, p2)),
            None => None,
        }
    }
}

/// The end of the named NBT document at `pos`, the form every NBT value takes
/// below 1.20.2: a tag type, a name with a two byte length that may not be
/// negative, and the payload; a lone end tag is an empty document.
pub open spec fn named_document_end(b: Seq<u8>, pos: int) -> Option<int> {
    if pos < 0 || pos >= b.len() {
        None
    } else if b[pos] == TAG_END {
        Some(pos + 1)
    } else if pos + 3 > b.len() || b[pos + 1] >= 128 {
        None
    } else {
        let start = pos + 3 + crate::nbt::u16_at(b, pos + 1);
        if start > b.len() {
            None
        } else {
            payload_end(b, b[pos], start, MAX_NBT_DEPTH as nat)
        }
    }
}

/// Measures the named document at `pos`.
pub fn skip_named_document(b: &[u8], pos: usize) -> (r: Option<usize>)
    requires
        pos <= b@.len(),
    ensures
        crate::nbt::as_int(r) == named_document_end(b@, pos as int),
        r matches Some(p) ==> pos < p <= b@.len(),
{
    if pos >= b.len() {
        return None;
    }
    let tag = b[pos];
    if tag == TAG_END {
        return Some(pos + 1);
    }
    if 3 > b.len() - pos || b[pos + 1] >= 128 {
        return None;
    }
    let name = (b[pos + 1] as usize) * 256 + b[pos + 2] as usize;
    if name > b.len() - pos - 3 {
        return None;
    }
    match skip_payload(b, tag, pos + 3 + name, MAX_NBT_DEPTH) {
        Some(end) => Some(end),
        None => None,
    }
}

/// Copies the named document at `pos` to `out` as it stands, giving the
/// position after it; where there is none, `out` is left as it was.
pub fn copy_named_nbt(b: &[u8], pos: usize, out: &mut Vec<u8>) -> (r: Option<usize>)
    requires
        pos <= b@.len(),
    ensures
        crate::nbt::as_int(r) == named_document_end(b@, pos as int),
        match r {
            Some(end) => pos < end <= b@.len() && final(out)@ == old(out)@ + b@.subrange(pos as int, end as int),
            None => final(out)@ == old(out)@,
        },
{
    match skip_named_document(b, pos) {
        Some(end) => {
            append_bytes(out, slice_subrange(b, pos, end));
            Some(end)
        },
        None => None,
    }
}

/// The end of `n` length prefixed byte runs from `pos`; a negative length is
/// refused.
pub open spec fn runs_end(b: Seq<u8>, pos: int, n: nat) -> Option<int>
    decreases n,
{
    if n == 0 {
        if 0 <= pos <= b.len() { Some(pos) } else { None }
    } else {
        match field(VAR_INT, b, pos) {
            Some((len, p)) => if len < 0 || p + len > b.len() { None } else { runs_end(b, p + len, (n - 1) as nat) },
            None => None,
        }
    }
}

/// The number of runs a light array count names: none where it is negative.
pub open spec fn run_count(count: i32) -> nat {
    if count < 0 { 0 } else { count as nat }
}

/// The end of the light block a 1.18 chunk ends with: a trust edges flag, four
/// masks, and the two arrays they name.
pub open spec fn light_end(b: Seq<u8>, pos: int) -> Option<int> {
    match field(BOOL, b, pos) {
        Some((_, p1)) => match field(longs(), b, p1) {
            Some((_, p2)) => match field(longs(), b, p2) {
                Some((_, p3)) => match field(longs(), b, p3) {
                    Some((_, p4)) => match field(longs(), b, p4) {
                        Some((_, p5)) => match field(VAR_INT, b, p5) {
                            Some((sky, p6)) => match runs_end(b, p6, run_count(sky)) {
                                Some(p7) => match field(VAR_INT, b, p7) {
                                    Some((block, p8)) => runs_end(b, p8, run_count(block)),
                                    None => None,
                                },
                                None => None,
                            },
                            None => None,
                        },
                        None => None,
                    },
                    None => None,
                },
                None => None,
            },
            None => None,
        },
        None => None,
    }
}

fn skip_runs(b: &[u8], pos: usize, count: i32) -> (r: Option<usize>)
    requires
        pos <= b@.len(),
    ensures
        crate::nbt::as_int(r) == runs_end(b@, pos as int, run_count(count)),
        r matches Some(p) ==> pos <= p <= b@.len(),
{
    let mut p = pos;
    let mut left: i32 = if count < 0 { 0 } else { count };
    while left > 0
        invariant
            pos <= p <= b@.len(),
            0 <= left,
            runs_end(b@, pos as int, run_count(count)) == runs_end(b@, p as int, left as nat),
        decreases left,
    {
        let (len, q) = match read_field(&VAR_INT, b, p) {
            Some(found) => found,
            None => return None,
        };
        if len < 0 || len as usize > b.len() - q {
            return None;
        }
        p = q + len as usize;
        left = left - 1;
    }
    Some(p)
}

/// Walks the light block a 1.18 chunk ends with. Below 1.18 the light rides
/// in a packet of its own, so it is only read to make sure the chunk was the
/// layout it was taken for.
pub fn skip_light(b: &[u8], pos: usize) -> (r: Option<usize>)
    requires
        pos <= b@.len(),
    ensures
        crate::nbt::as_int(r) == light_end(b@, pos as int),
        r matches Some(p) ==> pos <= p <= b@.len(),
{
    let mut p = match read_field(&BOOL, b, pos) {
        Some((_, q)) => q,
        None => return None,
    };
    p = match read_longs(b, p) {
        Some((_, q)) => q,
        None => return None,
    };
    p = match read_longs(b, p) {
        Some((_, q)) => q,
        None => return None,
    };
    p = match read_longs(b, p) {
        Some((_, q)) => q,
        None => return None,
    };
    p = match read_longs(b, p) {
        Some((_, q)) => q,
        None => return None,
    };
    let (sky, q) = match read_field(&VAR_INT, b, p) {
        Some(found) => found,
        None => return None,
    };
    p = match skip_runs(b, q, sky) {
        Some(q) => q,
        None => return None,
    };
    let (block, q) = match read_field(&VAR_INT, b, p) {
        Some(found) => found,
        None => return None,
    };
    skip_runs(b, q, block)
}

/// How many bits of `x` are set.
pub open spec fn ones(x: u64) -> nat
    decreases x,
{
    if x == 0 { 0 } else { (x % 2) as nat + ones(x / 2) }
}

/// Counts the set bits of `x`.
pub fn count_ones(x: u64) -> (r: u64)
    ensures
        r == ones(x),
{
    let mut rest = x;
    let mut n: u64 = 0;
    proof { lemma_ones_bound(x); }
    while rest != 0
        invariant
            n + ones(rest) == ones(x),
            ones(x) <= x,
        decreases rest,
    {
        n = n + rest % 2;
        rest = rest / 2;
    }
    n
}

proof fn lemma_ones_bound(x: u64)
    ensures
        ones(x) <= x,
    decreases x,
{
    if x != 0 {
        lemma_ones_bound(x / 2);
    }
}

/// The sections of a chunk from `pos`, `n` of them, written back with their
/// palettes renumbered through `states` after `acc`, which holds what the
/// sections before them were written as: each a block count and a container.
pub open spec fn sections_bytes(b: Seq<u8>, pos: int, n: nat, states: IdMapping, acc: Seq<u8>) -> Option<(Seq<u8>, int)>
    decreases n,
{
    if n == 0 {
        if 0 <= pos <= b.len() { Some((acc, pos)) } else { None }
    } else {
        match field(I16, b, pos) {
            Some((count, p1)) => match container_field(b, p1) {
                Some((c, p2)) => match container_bytes(c, states) {
                    Some(bytes) => sections_bytes(b, p2, (n - 1) as nat, states, acc + I16.encode(count) + bytes),
                    None => None,
                },
                None => None,
            },
            None => None,
        }
    }
}

/// What a 1.16 and a 1.17 chunk share once the mask is behind them, from
/// `pos` to the end: the heightmaps as they stand, the biomes, the sections
/// the mask names with their palettes renumbered, refused where the section
/// data holds more than those, and the block entities as they stand.
pub open spec fn column_rest_bytes(b: Seq<u8>, pos: int, mask: i64, states: IdMapping) -> Option<Seq<u8>> {
    match named_document_end(b, pos) {
        Some(p1) => match field(VAR_INT, b, p1) {
            Some((count, p2)) => match parse_items(VAR_INT, rest_of(b, p2), run_count(count)) {
                Some((biomes, m)) => match field(VAR_INT, b, p2 + m) {
                    Some((blob_len, p4)) => if blob_len < 0 || p4 + blob_len > b.len() {
                        None
                    } else {
                        let blob = b.subrange(p4, p4 + blob_len);
                        match sections_bytes(blob, 0, ones(mask as u64), states, Seq::empty()) {
                            Some((rewritten, end)) => if end != blob.len() || rewritten.len() > i32::MAX {
                                None
                            } else {
                                Some(b.subrange(pos, p1) + VAR_INT.encode(count) + encode_items(VAR_INT, biomes)
                                    + VAR_INT.encode(rewritten.len() as i32) + rewritten
                                    + b.subrange(p4 + blob_len, b.len() as int))
                            },
                            None => None,
                        }
                    },
                    None => None,
                },
                None => None,
            },
            None => None,
        },
        None => None,
    }
}

fn rewrite_sections(blob: &[u8], n: u64, states: &IdMapping) -> (r: Option<(Vec<u8>, usize)>)
    ensures
        match sections_bytes(blob@, 0, n as nat, *states, Seq::empty()) {
            Some((bytes, end)) => r matches Some((x, q)) && x@ == bytes && q == end,
            None => r is None,
        },
{
    let mut out: Vec<u8> = Vec::new();
    let mut p: usize = 0;
    let mut left = n;
    while left > 0
        invariant
            p <= blob@.len(),
            sections_bytes(blob@, 0, n as nat, *states, Seq::empty())
                == sections_bytes(blob@, p as int, left as nat, *states, out@),
        decreases left,
    {
        let (count, p1) = match read_field(&I16, blob, p) {
            Some(found) => found,
            None => return None,
        };
        let (container, p2) = match BlockContainer::read(blob, p1) {
            Some(found) => found,
            None => return None,
        };
        let ghost before = out@;
        I16.write(&mut out, &count);
        if !container.write(&mut out, states) {
            return None;
        }
        assert(out@ =~= before + I16.encode(count) + container_bytes(container@, *states)->Some_0);
        p = p2;
        left = left - 1;
    }
    Some((out, p))
}

/// Copies what a 1.16 and a 1.17 chunk share once the mask is behind them to
/// `out`, renumbering the palettes of the sections `mask` names; where the
/// rest does not parse, `out` is left as it was.
pub fn copy_rest_of_column(b: &[u8], pos: usize, out: &mut Vec<u8>, mask: i64, states: &IdMapping) -> (r: bool)
    requires
        pos <= b@.len(),
    ensures
        match column_rest_bytes(b@, pos as int, mask, *states) {
            Some(bytes) => r && final(out)@ == old(out)@ + bytes,
            None => !r && final(out)@ == old(out)@,
        },
{
    let mut written: Vec<u8> = Vec::new();
    let p1 = match copy_named_nbt(b, pos, &mut written) {
        Some(q) => q,
        None => return false,
    };
    let (count, p2) = match read_field(&VAR_INT, b, p1) {
        Some(found) => found,
        None => return false,
    };
    let n: usize = if count < 0 { 0 } else { count as usize };
    let (biomes, p3) = match read_items(&VAR_INT, b, p2, n) {
        Some(found) => found,
        None => return false,
    };
    proof { assert(biomes.deep_view() =~= biomes@); }
    VAR_INT.write(&mut written, &count);
    let biome_bytes = match write_items(&VAR_INT, &biomes) {
        Some(bytes) => bytes,
        None => return false,
    };
    append_bytes(&mut written, biome_bytes.as_slice());
    let (blob_len, p4) = match read_field(&VAR_INT, b, p3) {
        Some(found) => found,
        None => return false,
    };
    if blob_len < 0 || blob_len as usize > b.len() - p4 {
        return false;
    }
    let end = p4 + blob_len as usize;
    let blob = slice_subrange(b, p4, end);
    let sections = count_ones(mask as u64);
    let (rewritten, used) = match rewrite_sections(blob, sections, states) {
        Some(found) => found,
        None => return false,
    };
    if used != blob.len() || rewritten.len() > i32::MAX as usize {
        return false;
    }
    VAR_INT.write(&mut written, &(rewritten.len() as i32));
    append_bytes(&mut written, rewritten.as_slice());
    append_bytes(&mut written, slice_subrange(b, end, b.len()));
    append_bytes(out, written.as_slice());
    true
}

/// A 1.17 chunk rewritten into the 1.16.4 layout, where the mask is a
/// `VarInt` behind a full chunk flag; `None` where it does not parse, where
/// the mask takes more than one long or does not fit a `VarInt`.
pub open spec fn v1_16_bytes(b: Seq<u8>, states: IdMapping) -> Option<Seq<u8>> {
    match field(I32, b, 0) {
        Some((x, p1)) => match field(I32, b, p1) {
            Some((z, p2)) => match field(longs(), b, p2) {
                Some((words, p3)) => {
                    let mask: i64 = if words.len() == 0 { 0 } else { words[0] };
                    if words.len() > 1 || mask < i32::MIN || mask > i32::MAX {
                        None
                    } else {
                        match column_rest_bytes(b, p3, mask, states) {
                            Some(rest) => Some(I32.encode(x) + I32.encode(z) + BOOL.encode(true)
                                + VAR_INT.encode(mask as i32) + rest),
                            None => None,
                        }
                    }
                },
                None => None,
            },
            None => None,
        },
        None => None,
    }
}

/// Rewrites a chunk from the 1.17 layout into the 1.16.4 one and renumbers
/// the palettes on the way.
pub fn to_v1_16(payload: &[u8], states: &IdMapping) -> (r: Option<Vec<u8>>)
    ensures
        match v1_16_bytes(payload@, *states) {
            Some(bytes) => r matches Some(v) && v@ == bytes,
            None => r is None,
        },
{
    let (x, p1) = match read_field(&I32, payload, 0) {
        Some(found) => found,
        None => return None,
    };
    let (z, p2) = match read_field(&I32, payload, p1) {
        Some(found) => found,
        None => return None,
    };
    let (words, p3) = match read_longs(payload, p2) {
        Some(found) => found,
        None => return None,
    };
    if words.len() > 1 {
        return None;
    }
    let mask: i64 = if words.len() == 0 { 0 } else { words[0] };
    if mask < i32::MIN as i64 || mask > i32::MAX as i64 {
        return None;
    }
    let mut out: Vec<u8> = Vec::new();
    I32.write(&mut out, &x);
    I32.write(&mut out, &z);
    BOOL.write(&mut out, &true);
    VAR_INT.write(&mut out, &(mask as i32));
    if copy_rest_of_column(payload, p3, &mut out, mask, states) {
        Some(out)
    } else {
        None
    }
}


// ---------------------------------------------------------------------------
// A 1.18 chunk in the 1.17.1 layout
// ---------------------------------------------------------------------------

/// Sections a column has below 1.18: sixteen, from y 0 to 255.
pub const SECTIONS: usize = 16;
/// Biomes a column carries below 1.18, four by four by four per section.
pub const BIOMES_PER_COLUMN: usize = 1024;

/// The first of the server's sections the client's 0 to 255 window takes,
/// where the server's sections start at `world_bottom`.
pub open spec fn first_section(world_bottom: i32) -> int {
    if world_bottom < 0 { (-world_bottom) / 16 } else { 0 }
}

/// What the section of a 1.18 blob at `pos`, the server's `index`th, adds
/// to a 1.17.1 column, and the position after it: in the client's window it
/// sets its bit in the mask, its block count and container, renumbered
/// through `states`, join the kept sections unless it is empty, and its
/// biomes join the column's; out of it, it is read and left out. A biome
/// width past 63 bits is refused.
pub open spec fn section_v1_17(blob: Seq<u8>, pos: int, index: int, first: int, states: IdMapping, mask: u64,
    kept: Seq<u8>, biomes: Seq<u32>) -> Option<(int, u64, Seq<u8>, Seq<u32>)>
{
    match field(I16, blob, pos) {
        Some((count, p1)) => match container_field(blob, p1) {
            Some((c, p2)) => if p2 < blob.len() && blob[p2] >= 64 {
                None
            } else {
                match biomes_field(blob, p2) {
                    Some((bs, p3)) => {
                        let slot = index - first;
                        if 0 <= slot < SECTIONS {
                            if count != 0 {
                                match container_bytes(c, states) {
                                    Some(cb) => Some((p3, mask | (1u64 << (slot as u64)), kept + I16.encode(count) + cb, biomes + bs)),
                                    None => None,
                                }
                            } else {
                                Some((p3, mask, kept, biomes + bs))
                            }
                        } else {
                            Some((p3, mask, kept, biomes))
                        }
                    },
                    None => None,
                }
            },
            None => None,
        },
        None => None,
    }
}

/// What the sections of a 1.18 blob from `pos`, the first being the
/// server's `index`th, add to a 1.17.1 column, up to the blob's end. `fuel`
/// bounds how many are read; each takes a byte at least, so a fuel past the
/// bytes left never runs out.
pub open spec fn sections_v1_17(blob: Seq<u8>, pos: int, index: int, first: int, states: IdMapping, mask: u64,
    kept: Seq<u8>, biomes: Seq<u32>, fuel: nat) -> Option<(u64, Seq<u8>, Seq<u32>)>
    decreases fuel,
{
    if pos >= blob.len() {
        Some((mask, kept, biomes))
    } else if fuel == 0 {
        None
    } else {
        match section_v1_17(blob, pos, index, first, states, mask, kept, biomes) {
            Some((p, m, k, bs)) => sections_v1_17(blob, p, index + 1, first, states, m, k, bs, (fuel - 1) as nat),
            None => None,
        }
    }
}

fn section_step(blob: &[u8], pos: usize, index: u64, first: u64, states: &IdMapping, mask: u64, kept: &mut Vec<u8>,
    biomes: &mut Vec<u32>) -> (r: Option<(usize, u64)>)
    requires
        pos < blob@.len(),
    ensures
        match section_v1_17(blob@, pos as int, index as int, first as int, *states, mask, old(kept)@, old(biomes)@) {
            Some((p, m, k, bs)) => r matches Some((q, x)) && q == p && x == m && pos < q <= blob@.len()
                && final(kept)@ == k && final(biomes)@ == bs,
            None => r is None,
        },
{
    let (count, p1) = match read_field(&I16, blob, pos) {
        Some(found) => found,
        None => return None,
    };
    let (c, p2) = match BlockContainer::read(blob, p1) {
        Some(found) => found,
        None => return None,
    };
    if p2 < blob.len() && blob[p2] >= 64 {
        return None;
    }
    let (bs, p3) = match read_biomes(blob, p2) {
        Some(found) => found,
        None => return None,
    };
    let mut m = mask;
    if index >= first && index - first < SECTIONS as u64 {
        let slot = index - first;
        if count != 0 {
            I16.write(kept, &count);
            if !c.write(kept, states) {
                return None;
            }
            m = mask | (1u64 << slot);
        }
        let mut i: usize = 0;
        let ghost start = biomes@;
        while i < bs.len()
            invariant
                i <= bs@.len(),
                biomes@ == start + bs@.take(i as int),
            decreases bs@.len() - i,
        {
            biomes.push(bs[i]);
            assert(biomes@ =~= start + bs@.take(i + 1));
            i = i + 1;
        }
        assert(bs@.take(bs@.len() as int) =~= bs@);
    }
    Some((p3, m))
}

/// A column's biomes made up to `BIOMES_PER_COLUMN`: a world shorter than
/// the client's own repeats the top section's last biome, or zero.
pub open spec fn padded_biomes(biomes: Seq<u32>) -> Seq<u32> {
    let pad: u32 = if biomes.len() == 0 { 0 } else { biomes.last() };
    if biomes.len() >= BIOMES_PER_COLUMN {
        biomes.take(BIOMES_PER_COLUMN as int)
    } else {
        biomes + Seq::new((BIOMES_PER_COLUMN - biomes.len()) as nat, |i: int| pad)
    }
}

/// Biome ids as `VarInt`s, one after another.
pub open spec fn biome_ids_bytes(biomes: Seq<u32>) -> Seq<u8>
    decreases biomes.len(),
{
    if biomes.len() == 0 {
        Seq::empty()
    } else {
        biome_ids_bytes(biomes.drop_last()) + VAR_INT.encode(biomes.last() as i32)
    }
}

/// A 1.18 chunk's column in the 1.17.1 layout, with the position its block
/// entities start at: the chunk's position, the mask of the sections kept as
/// one long, the heightmaps as they arrived, the biomes of the window's
/// sections made up to a whole column after their count, and the kept
/// sections after their byte length. `None` where it does not parse, where
/// the blob runs past the payload, and where a biome id or the kept length
/// does not fit a `VarInt`.
pub open spec fn column_v1_17(b: Seq<u8>, world_bottom: i32, states: IdMapping) -> Option<(Seq<u8>, int)> {
    match field(I32, b, 0) {
        Some((x, p1)) => match field(I32, b, p1) {
            Some((z, p2)) => match named_document_end(b, p2) {
                Some(p3) => match field(VAR_INT, b, p3) {
                    Some((blob_len, p4)) => if blob_len < 0 || p4 + blob_len > b.len() {
                        None
                    } else {
                        let blob = b.subrange(p4, p4 + blob_len);
                        match sections_v1_17(blob, 0, 0, first_section(world_bottom), states, 0, Seq::empty(),
                            Seq::empty(), (blob.len() + 1) as nat) {
                            Some((mask, kept, biomes)) => {
                                let column = padded_biomes(biomes);
                                if kept.len() > i32::MAX || exists|i: int| 0 <= i < column.len() && column[i] > i32::MAX {
                                    None
                                } else {
                                    Some((
                                        I32.encode(x) + I32.encode(z) + VAR_INT.encode(1) + I64.encode(mask as i64)
                                            + b.subrange(p2, p3) + VAR_INT.encode(BIOMES_PER_COLUMN as i32)
                                            + biome_ids_bytes(column) + VAR_INT.encode(kept.len() as i32) + kept,
                                        p4 + blob_len,
                                    ))
                                }
                            },
                            None => None,
                        }
                    },
                    None => None,
                },
                None => None,
            },
            None => None,
        },
        None => None,
    }
}

fn column_sections(blob: &[u8], first: u64, states: &IdMapping) -> (r: Option<(u64, Vec<u8>, Vec<u32>)>)
    ensures
        match sections_v1_17(blob@, 0, 0, first as int, *states, 0, Seq::empty(), Seq::empty(), (blob@.len() + 1) as nat) {
            Some((mask, kept, biomes)) => r matches Some((m, k, v)) && m == mask && k@ == kept && v@ == biomes,
            None => r is None,
        },
{
    let mut pos: usize = 0;
    let mut index: u64 = 0;
    let mut mask: u64 = 0;
    let mut kept: Vec<u8> = Vec::new();
    let mut biomes: Vec<u32> = Vec::new();
    let ghost mut fuel: nat = (blob@.len() + 1) as nat;
    while pos < blob.len()
        invariant
            pos <= blob@.len(),
            fuel > blob@.len() - pos,
            index <= pos,
            sections_v1_17(blob@, 0, 0, first as int, *states, 0, Seq::empty(), Seq::empty(), (blob@.len() + 1) as nat)
                == sections_v1_17(blob@, pos as int, index as int, first as int, *states, mask, kept@, biomes@, fuel),
        decreases blob@.len() - pos,
    {
        let (p, m) = match section_step(blob, pos, index, first, states, mask, &mut kept, &mut biomes) {
            Some(found) => found,
            None => return None,
        };
        proof {
            fuel = (fuel - 1) as nat;
        }
        mask = m;
        pos = p;
        index = index + 1;
    }
    Some((mask, kept, biomes))
}

fn write_biome_ids(out: &mut Vec<u8>, biomes: &Vec<u32>) -> (r: bool)
    ensures
        r == !(exists|i: int| 0 <= i < biomes@.len() && biomes@[i] > i32::MAX),
        r ==> final(out)@ == old(out)@ + biome_ids_bytes(biomes@),
{
    let ghost start = out@;
    let mut i: usize = 0;
    while i < biomes.len()
        invariant
            i <= biomes@.len(),
            forall|j: int| 0 <= j < i ==> biomes@[j] <= i32::MAX,
            out@ == start + biome_ids_bytes(biomes@.take(i as int)),
        decreases biomes@.len() - i,
    {
        if biomes[i] > i32::MAX as u32 {
            return false;
        }
        assert(biomes@.take(i + 1).drop_last() =~= biomes@.take(i as int));
        VAR_INT.write(out, &(biomes[i] as i32));
        assert(out@ =~= start + biome_ids_bytes(biomes@.take(i + 1)));
        i = i + 1;
    }
    assert(biomes@.take(biomes@.len() as int) =~= biomes@);
    true
}

/// Rewrites a 1.18 chunk's column into the 1.17.1 layout and gives the
/// position its block entities start at; `world_bottom` is the y the
/// server's sections start at, which decides where the client's 0 to 255
/// window sits in them.
pub fn to_v1_17_column(payload: &[u8], world_bottom: i32, states: &IdMapping) -> (r: Option<(Vec<u8>, usize)>)
    requires
        world_bottom > i32::MIN,
    ensures
        match column_v1_17(payload@, world_bottom, *states) {
            Some((bytes, p)) => r matches Some((v, q)) && v@ == bytes && q == p && q <= payload@.len(),
            None => r is None,
        },
{
    let (x, p1) = match read_field(&I32, payload, 0) {
        Some(found) => found,
        None => return None,
    };
    let (z, p2) = match read_field(&I32, payload, p1) {
        Some(found) => found,
        None => return None,
    };
    let p3 = match skip_named_document(payload, p2) {
        Some(p) => p,
        None => return None,
    };
    let (blob_len, p4) = match read_field(&VAR_INT, payload, p3) {
        Some(found) => found,
        None => return None,
    };
    if blob_len < 0 || blob_len as usize > payload.len() - p4 {
        return None;
    }
    let end = p4 + blob_len as usize;
    let blob = slice_subrange(payload, p4, end);
    let first: u64 = if world_bottom < 0 { ((-world_bottom) / 16) as u64 } else { 0 };
    let (mask, kept, mut biomes) = match column_sections(blob, first, states) {
        Some(found) => found,
        None => return None,
    };
    let ghost raw = biomes@;
    let pad: u32 = if biomes.len() == 0 { 0 } else { biomes[biomes.len() - 1] };
    if biomes.len() >= BIOMES_PER_COLUMN {
        biomes.truncate(BIOMES_PER_COLUMN);
    } else {
        let ghost start = biomes@;
        while biomes.len() < BIOMES_PER_COLUMN
            invariant
                start.len() <= biomes@.len() <= BIOMES_PER_COLUMN,
                biomes@ == start + Seq::new((biomes@.len() - start.len()) as nat, |i: int| pad),
            decreases BIOMES_PER_COLUMN - biomes@.len(),
        {
            let ghost before = biomes@;
            biomes.push(pad);
            assert(biomes@ =~= start + Seq::new((biomes@.len() - start.len()) as nat, |i: int| pad));
        }
    }
    assert(biomes@ =~= padded_biomes(raw));
    if kept.len() > i32::MAX as usize {
        return None;
    }
    let mut out: Vec<u8> = Vec::new();
    I32.write(&mut out, &x);
    I32.write(&mut out, &z);
    VAR_INT.write(&mut out, &1);
    I64.write(&mut out, &(mask as i64));
    append_bytes(&mut out, slice_subrange(payload, p2, p3));
    VAR_INT.write(&mut out, &(BIOMES_PER_COLUMN as i32));
    if !write_biome_ids(&mut out, &biomes) {
        return None;
    }
    VAR_INT.write(&mut out, &(kept.len() as i32));
    append_bytes(&mut out, kept.as_slice());
    Some((out, end))
}

/// A 1.18 chunk in the 1.17.1 layout once its block entities are rewritten:
/// the column, then `entities`, where the light block follows them at
/// `light_at` and ends the payload; the light rides in a packet of its own
/// below 1.18, so it is only read to make sure the chunk was the layout it
/// was taken for.
pub fn to_v1_17_finish(payload: &[u8], column: &[u8], entities: &[u8], light_at: usize) -> (r: Option<Vec<u8>>)
    requires
        light_at <= payload@.len(),
    ensures
        match light_end(payload@, light_at as int) {
            Some(end) => if end == payload@.len() {
                r matches Some(v) && v@ == column@ + entities@
            } else {
                r is None
            },
            None => r is None,
        },
{
    match skip_light(payload, light_at) {
        Some(end) => if end == payload.len() {
            let mut out: Vec<u8> = Vec::new();
            append_bytes(&mut out, column);
            append_bytes(&mut out, entities);
            Some(out)
        } else {
            None
        },
        None => None,
    }
}


/// A 1.18 chunk in the 1.17.1 layout: the column, then the block entity list
/// with each entry a whole compound naming its type and position, where the
/// light block behind the list ends the payload. `inverse` takes the client's
/// block entity types to the newest registry's and `names` names those.
pub open spec fn chunk_v1_17(payload: Seq<u8>, world_bottom: i32, states: IdMapping, inverse: IdMapping,
    names: Seq<Vec<u8>>) -> Option<Seq<u8>>
{
    match column_v1_17(payload, world_bottom, states) {
        Some((column, at)) => match field(I32, payload, 0) {
            Some((cx, p1)) => match field(I32, payload, p1) {
                Some((cz, _)) => match block_entity_list(payload, at, cx, cz, inverse, names) {
                    Some((entities, light_at)) => match light_end(payload, light_at) {
                        Some(end) => if end == payload.len() { Some(column + entities) } else { None },
                        None => None,
                    },
                    None => None,
                },
                None => None,
            },
            None => None,
        },
        None => None,
    }
}

/// Rewrites a chunk from the 1.18 layout into the 1.17.1 one; `world_bottom`
/// is the y the server's sections start at, which decides where the
/// client's 0 to 255 window sits in them.
pub fn to_v1_17(payload: &[u8], world_bottom: i32, states: &IdMapping, inverse: &IdMapping, names: &[Vec<u8>])
    -> (r: Option<Vec<u8>>)
    requires
        world_bottom > i32::MIN,
        forall|i: int| 0 <= i < names@.len() ==> #[trigger] names@[i]@.len() <= 1000,
    ensures
        match chunk_v1_17(payload@, world_bottom, *states, *inverse, names@) {
            Some(bytes) => r matches Some(v) && v@ == bytes,
            None => r is None,
        },
{
    let (column, at) = match to_v1_17_column(payload, world_bottom, states) {
        Some(found) => found,
        None => return None,
    };
    let (cx, p1) = match read_field(&I32, payload, 0) {
        Some(found) => found,
        None => return None,
    };
    let (cz, _) = match read_field(&I32, payload, p1) {
        Some(found) => found,
        None => return None,
    };
    let (entities, light_at) = match rewrite_block_entities(payload, at, cx, cz, inverse, names) {
        Some(found) => found,
        None => return None,
    };
    to_v1_17_finish(payload, column.as_slice(), entities.as_slice(), light_at)
}

} // verus!
