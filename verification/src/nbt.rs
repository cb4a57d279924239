//! Where an NBT value ends on the wire.
//!
//! Payloads carry NBT documents in the middle of other fields, and a field
//! after one can only be found once the document is measured. Measuring walks
//! the binary NBT grammar: a tag type, then a payload whose length the type
//! decides, compounds and lists nesting further payloads.

use vstd::prelude::*;

verus! {

/// How many compounds and lists may nest inside one document.
pub const MAX_NBT_DEPTH: usize = 512;

/// The tag type that closes a compound.
pub const TAG_END: u8 = 0;
/// The tag type of a list.
pub const TAG_LIST: u8 = 9;
/// The tag type of a compound.
pub const TAG_COMPOUND: u8 = 10;

/// The two bytes at `p` as a big endian unsigned number.
pub open spec fn u16_at(b: Seq<u8>, p: int) -> nat {
    (b[p] as nat) * 256 + b[p + 1] as nat
}

/// The four bytes at `p` as a big endian two's complement number.
pub open spec fn i32_at(b: Seq<u8>, p: int) -> int {
    let u = (b[p] as int) * 0x100_0000 + (b[p + 1] as int) * 0x1_0000 + (b[p + 2] as int) * 0x100
        + b[p + 3] as int;
    if b[p] >= 128 { u - 0x1_0000_0000 } else { u }
}

/// The payload width of the numeric tag types, byte to double.
pub open spec fn numeric_width(tag: u8) -> nat {
    if tag == 1 { 1 }
    else if tag == 2 { 2 }
    else if tag == 3 || tag == 5 { 4 }
    else { 8 }
}

/// The element width of the array tag types: byte, int and long arrays.
pub open spec fn array_width(tag: u8) -> nat {
    if tag == 7 { 1 } else if tag == 11 { 4 } else { 8 }
}

/// The end of the payload of a tag of type `tag` that starts at `pos`, with
/// `depth` more levels of compounds and lists allowed; `None` where the bytes
/// are not such a payload.
///
/// Lengths are two's complement on the wire and a negative one is refused, as
/// is a list of elements without a type.
pub open spec fn payload_end(b: Seq<u8>, tag: u8, pos: int, depth: nat) -> Option<int>
    decreases depth, 0int, 0int,
{
    if pos < 0 || pos > b.len() {
        None
    } else if 1 <= tag <= 6 {
        if pos + numeric_width(tag) <= b.len() { Some(pos + numeric_width(tag)) } else { None }
    } else if tag == 7 || tag == 11 || tag == 12 {
        if pos + 4 > b.len() {
            None
        } else {
            let n = i32_at(b, pos);
            let end = pos + 4 + n * array_width(tag);
            if n < 0 || end > b.len() { None } else { Some(end) }
        }
    } else if tag == 8 {
        if pos + 2 > b.len() {
            None
        } else {
            let end = pos + 2 + u16_at(b, pos);
            if end > b.len() { None } else { Some(end) }
        }
    } else if tag == TAG_LIST {
        if depth == 0 || pos + 5 > b.len() {
            None
        } else {
            let elem = b[pos];
            let n = i32_at(b, pos + 1);
            if n < 0 || (n > 0 && elem == TAG_END) {
                None
            } else {
                list_end(b, elem, n as nat, pos + 5, (depth - 1) as nat)
            }
        }
    } else if tag == TAG_COMPOUND {
        if depth == 0 { None } else { compound_end(b, pos, (depth - 1) as nat) }
    } else {
        None
    }
}

/// The end of `n` payloads of type `elem`, one after the other from `pos`.
pub open spec fn list_end(b: Seq<u8>, elem: u8, n: nat, pos: int, depth: nat) -> Option<int>
    decreases depth, 1int, n,
{
    if n == 0 {
        if 0 <= pos <= b.len() { Some(pos) } else { None }
    } else {
        match payload_end(b, elem, pos, depth) {
            Some(next) => list_end(b, elem, (n - 1) as nat, next, depth),
            None => None,
        }
    }
}

/// The end of the entries of a compound from `pos`: each a tag type, a name
/// with a two byte length and a payload, up to and including the end tag.
pub open spec fn compound_end(b: Seq<u8>, pos: int, depth: nat) -> Option<int>
    decreases depth, 1int, b.len() - pos,
{
    if pos < 0 || pos >= b.len() {
        None
    } else if b[pos] == TAG_END {
        Some(pos + 1)
    } else if pos + 3 > b.len() {
        None
    } else {
        let start = pos + 3 + u16_at(b, pos + 1);
        if start > b.len() {
            None
        } else {
            match payload_end(b, b[pos], start, depth) {
                Some(next) => if pos < next <= b.len() { compound_end(b, next, depth) } else { None },
                None => None,
            }
        }
    }
}

/// The end of the network NBT document at `pos`: a tag type and its payload,
/// with no root name; a lone end tag is the empty document.
pub open spec fn document_end(b: Seq<u8>, pos: int) -> Option<int> {
    if pos < 0 || pos >= b.len() {
        None
    } else if b[pos] == TAG_END {
        Some(pos + 1)
    } else {
        payload_end(b, b[pos], pos + 1, MAX_NBT_DEPTH as nat)
    }
}

/// The spec view of an end position an exec function returns.
pub open spec fn as_int(r: Option<usize>) -> Option<int> {
    match r {
        Some(p) => Some(p as int),
        None => None,
    }
}

fn read_u16_len(b: &[u8], p: usize) -> (r: usize)
    requires
        p + 2 <= b@.len(),
    ensures
        r == u16_at(b@, p as int),
{
    (b[p] as usize) * 256 + b[p + 1] as usize
}

/// The length at `p` where it is not negative.
fn read_i32_len(b: &[u8], p: usize) -> (r: Option<u64>)
    requires
        p + 4 <= b@.len(),
    ensures
        i32_at(b@, p as int) < 0 ==> r is None,
        i32_at(b@, p as int) >= 0 ==> r == Some(i32_at(b@, p as int) as u64),
{
    if b[p] >= 128 {
        None
    } else {
        Some((b[p] as u64) * 0x100_0000 + (b[p + 1] as u64) * 0x1_0000 + (b[p + 2] as u64) * 0x100
            + b[p + 3] as u64)
    }
}

/// Measures the payload of a tag of type `tag` at `pos`.
pub fn skip_payload(b: &[u8], tag: u8, pos: usize, depth: usize) -> (r: Option<usize>)
    ensures
        as_int(r) == payload_end(b@, tag, pos as int, depth as nat),
        r matches Some(p) ==> pos <= p <= b@.len(),
    decreases depth, 0int, 0int,
{
    if pos > b.len() {
        None
    } else if 1 <= tag && tag <= 6 {
        let w: usize = if tag == 1 { 1 } else if tag == 2 { 2 } else if tag == 3 || tag == 5 { 4 } else { 8 };
        if w <= b.len() - pos { Some(pos + w) } else { None }
    } else if tag == 7 || tag == 11 || tag == 12 {
        if 4 > b.len() - pos {
            return None;
        }
        let w: u64 = if tag == 7 { 1 } else if tag == 11 { 4 } else { 8 };
        match read_i32_len(b, pos) {
            None => None,
            Some(n) => {
                let room = (b.len() - pos - 4) as u64;
                assert(n < 0x8000_0000);
                if n * w > room {
                    None
                } else {
                    Some(pos + 4 + (n * w) as usize)
                }
            },
        }
    } else if tag == 8 {
        if 2 > b.len() - pos {
            return None;
        }
        let n = read_u16_len(b, pos);
        if n > b.len() - pos - 2 { None } else { Some(pos + 2 + n) }
    } else if tag == TAG_LIST {
        if depth == 0 || 5 > b.len() - pos {
            return None;
        }
        let elem = b[pos];
        match read_i32_len(b, pos + 1) {
            None => None,
            Some(n) => {
                if n > 0 && elem == TAG_END {
                    None
                } else {
                    skip_list(b, elem, n, pos + 5, depth - 1)
                }
            },
        }
    } else if tag == TAG_COMPOUND {
        if depth == 0 { None } else { skip_compound(b, pos, depth - 1) }
    } else {
        None
    }
}

/// Measures `n` payloads of type `elem` from `pos`.
fn skip_list(b: &[u8], elem: u8, n: u64, pos: usize, depth: usize) -> (r: Option<usize>)
    requires
        pos <= b@.len(),
    ensures
        as_int(r) == list_end(b@, elem, n as nat, pos as int, depth as nat),
        r matches Some(p) ==> pos <= p <= b@.len(),
    decreases depth, 1int, n,
{
    if n == 0 {
        Some(pos)
    } else {
        match skip_payload(b, elem, pos, depth) {
            Some(next) => skip_list(b, elem, n - 1, next, depth),
            None => None,
        }
    }
}

/// Measures the entries of a compound from `pos` through its end tag.
pub(crate) fn skip_compound(b: &[u8], pos: usize, depth: usize) -> (r: Option<usize>)
    ensures
        as_int(r) == compound_end(b@, pos as int, depth as nat),
        r matches Some(p) ==> pos <= p <= b@.len(),
    decreases depth, 1int, b@.len() - pos,
{
    if pos >= b.len() {
        None
    } else if b[pos] == TAG_END {
        Some(pos + 1)
    } else if 3 > b.len() - pos {
        None
    } else {
        let name = read_u16_len(b, pos + 1);
        if name > b.len() - pos - 3 {
            return None;
        }
        let start = pos + 3 + name;
        match skip_payload(b, b[pos], start, depth) {
            Some(next) => skip_compound(b, next, depth),
            None => None,
        }
    }
}

/// Measures the network NBT document at `pos`: the position after it, or
/// `None` where the bytes there are not one.
pub fn skip_document(b: &[u8], pos: usize) -> (r: Option<usize>)
    ensures
        as_int(r) == document_end(b@, pos as int),
        r matches Some(p) ==> pos < p <= b@.len(),
{
    if pos >= b.len() {
        None
    } else if b[pos] == TAG_END {
        Some(pos + 1)
    } else {
        skip_payload(b, b[pos], pos + 1, MAX_NBT_DEPTH)
    }
}

} // verus!
