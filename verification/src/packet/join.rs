//! The play `LOGIN` (join) and `RESPAWN` packets for clients that have no
//! configuration state.
//!
//! 1.16.2 to 1.20.1 receive the whole registry set as one NBT "dimension
//! codec" inside the join packet, and 1.16.2 to 1.18.2 repeat the current
//! dimension's own `dimension_type` element inline in join and respawn. The
//! server fills both from the newest data, which those clients cannot decode,
//! so both are replaced with the version's own: the codec by a body built
//! from the server's codec and the element by the version's element for the
//! world. Every other field is copied across as it was read, and a packet
//! that does not parse in full, or leaves bytes over, is dropped.

use vstd::prelude::*;
use vstd::slice::slice_subrange;
use crate::api::TranslateError;
use crate::api::types::{WireType, BOOL, I32, I64, I8, STRING, U8, VAR_INT};
use crate::codec::append_bytes;
use crate::nbt::{u16_at, TAG_COMPOUND};
use crate::packet::chunk_legacy::{field, named_document_end, read_field, skip_named_document};
use crate::pipeline::item_pass::{copied, copy, pass, passes, skip, skips, start, Progress};
use crate::version::JavaMinecraftVersion as V;

verus! {

/// Oldest client this rewrites for; below 1.16.2 the join packet has no
/// dimension codec at all.
pub const OLDEST_LAYOUT: V = V::V_1_16_2;

/// First version whose registries travel in the configuration state instead.
pub const FIRST_WITH_CONFIG_STATE: V = V::V_1_20_2;

/// First version that names its dimension type instead of repeating the
/// whole element inline in join and respawn.
pub const FIRST_WITH_DIMENSION_NAME: V = V::V_1_19;

/// Bytes that follow the world name in a 1.16.2 to 1.18.2 respawn packet:
/// the hashed seed, then the game mode, the previous game mode, the debug,
/// flat and kept data flags.
pub const RESPAWN_TAIL_LEN: usize = 13;

/// The named compound at `pos`: where its name ends and where it ends.
pub open spec fn named_compound(b: Seq<u8>, pos: int) -> Option<(int, int)> {
    if 0 <= pos && pos + 3 <= b.len() && b[pos] == TAG_COMPOUND {
        match named_document_end(b, pos) {
            Some(end) => Some((pos + 3 + u16_at(b, pos + 1), end)),
            None => None,
        }
    } else {
        None
    }
}

fn read_named_compound(b: &[u8], pos: usize) -> (r: Option<(usize, usize)>)
    requires
        pos <= b@.len(),
    ensures
        match named_compound(b@, pos as int) {
            Some((name_end, end)) => r matches Some((n, e)) && n == name_end && e == end && pos < n <= b@.len()
                && pos < e <= b@.len(),
            None => r is None,
        },
{
    if 3 > b.len() - pos || b[pos] != TAG_COMPOUND {
        return None;
    }
    match skip_named_document(b, pos) {
        Some(end) => {
            let name_end = pos + 3 + (b[pos + 1] as usize) * 256 + b[pos + 2] as usize;
            proof {
                assert(u16_at(b@, pos + 1) == (b@[pos + 1] as nat) * 256 + b@[pos + 2] as nat);
            }
            Some((name_end, end))
        },
        None => None,
    }
}

/// The join packet's fields ahead of the codec: the entity id, the hardcore
/// flag, the game mode and the previous one, and the world names after their
/// count, which may not be negative.
pub open spec fn login_head(b: Seq<u8>) -> Progress {
    let s = pass(I8, b, pass(U8, b, pass(BOOL, b, pass(I32, b, start()))));
    match copied(VAR_INT, b, s) {
        Ok((n, p, out)) => if n < 0 { Err(TranslateError::Read) } else { passes(STRING, b, Ok((p, out)), n as nat) },
        Err(e) => Err(e),
    }
}

/// The codec at the position reached: its root as the server named it, then
/// `codec` as its body.
pub open spec fn codec_state(b: Seq<u8>, s: Progress, codec: Seq<u8>) -> Progress {
    match s {
        Ok((pos, out)) => match named_compound(b, pos) {
            Some((name_end, end)) => Ok((end, out + b.subrange(pos, name_end) + codec)),
            None => Err(TranslateError::Read),
        },
        Err(e) => Err(e),
    }
}

/// An unnamed compound `element` as a named one with an empty name.
pub open spec fn named_element(element: Seq<u8>) -> Option<Seq<u8>> {
    if element.len() > 0 && element[0] == TAG_COMPOUND {
        Some(seq![TAG_COMPOUND, 0u8, 0u8] + element.subrange(1, element.len() as int))
    } else {
        None
    }
}

/// The dimension at the position reached: below 1.19 the server's element
/// replaced by `element`, from 1.19 its name.
pub open spec fn dimension_state(b: Seq<u8>, s: Progress, version: V, element: Option<Seq<u8>>) -> Progress {
    if version.spec_older_than(FIRST_WITH_DIMENSION_NAME) {
        match s {
            Ok((pos, out)) => match named_compound(b, pos) {
                Some((_, end)) => match element {
                    Some(e) => match named_element(e) {
                        Some(named) => Ok((end, out + named)),
                        None => Err(TranslateError::Unsupported("dimension element")),
                    },
                    None => Err(TranslateError::Unsupported("dimension element")),
                },
                None => Err(TranslateError::Read),
            },
            Err(e) => Err(e),
        }
    } else {
        pass(STRING, b, s)
    }
}

/// The join packet's fields after the dimension: the world name, the hashed
/// seed, the player limit, the view distance, from 1.18 the simulation
/// distance, four flags, from 1.19 the optional last death position and from
/// 1.20 the portal cooldown.
pub open spec fn login_tail(b: Seq<u8>, s: Progress, version: V) -> Progress {
    let s1 = pass(VAR_INT, b, pass(VAR_INT, b, pass(I64, b, pass(STRING, b, s))));
    let s2 = if version.spec_at_least(V::V_1_18) { pass(VAR_INT, b, s1) } else { s1 };
    let s3 = passes(BOOL, b, s2, 4);
    let s4 = if version.spec_at_least(V::V_1_19) {
        match copied(BOOL, b, s3) {
            Ok((set, p, out)) => if set { pass(I64, b, pass(STRING, b, Ok((p, out)))) } else { Ok((p, out)) },
            Err(e) => Err(e),
        }
    } else {
        s3
    };
    if version.spec_at_least(V::V_1_20) { pass(VAR_INT, b, s4) } else { s4 }
}

/// Whether `version` takes the join packet this rewrites.
pub open spec fn login_tier(version: V) -> bool {
    version.spec_at_least(OLDEST_LAYOUT) && version.spec_older_than(FIRST_WITH_CONFIG_STATE)
}

/// A join packet for `version` with its codec body replaced by `codec` and,
/// below 1.19, its dimension element by `element`; `None` outside the
/// versions that take it, where it does not parse in full or leaves bytes
/// over, and where the element is missing or not a compound.
pub open spec fn login_bytes(b: Seq<u8>, version: V, codec: Seq<u8>, element: Option<Seq<u8>>) -> Option<Seq<u8>> {
    if !login_tier(version) {
        None
    } else {
        let s = dimension_state(b, codec_state(b, login_head(b), codec), version, element);
        match login_tail(b, s, version) {
            Ok((p, out)) => if p == b.len() { Some(out) } else { None },
            Err(_) => None,
        }
    }
}

/// What the version's registry data is chosen by: the server's codec, the
/// whole named document, and the world name.
pub open spec fn login_codec_of(b: Seq<u8>, version: V) -> Option<(Seq<u8>, Seq<u8>)> {
    if !login_tier(version) {
        None
    } else {
        match login_head(b) {
            Ok((pos, _)) => match named_compound(b, pos) {
                Some((_, end)) => {
                    let world = if version.spec_older_than(FIRST_WITH_DIMENSION_NAME) {
                        match named_compound(b, end) {
                            Some((_, e)) => field(STRING, b, e),
                            None => None,
                        }
                    } else {
                        match field(STRING, b, end) {
                            Some((_, p)) => field(STRING, b, p),
                            None => None,
                        }
                    };
                    match world {
                        Some((name, _)) => Some((b.subrange(pos, end), name)),
                        None => None,
                    }
                },
                None => None,
            },
            Err(_) => None,
        }
    }
}

fn head(b: &[u8], out: &mut Vec<u8>) -> (r: Result<usize, TranslateError>)
    ensures
        match login_head(b@) {
            Ok((p, o)) => r matches Ok(q) && q == p && q <= b@.len() && final(out)@ == old(out)@ + o,
            Err(e) => r == Err::<usize, TranslateError>(e),
        },
{
    let ghost before = out@;
    let mut local: Vec<u8> = Vec::new();
    let mut p = match skip(&I32, b, 0, &mut local) {
        Ok(q) => q,
        Err(e) => return Err(e),
    };
    p = match skip(&BOOL, b, p, &mut local) {
        Ok(q) => q,
        Err(e) => return Err(e),
    };
    p = match skip(&U8, b, p, &mut local) {
        Ok(q) => q,
        Err(e) => return Err(e),
    };
    p = match skip(&I8, b, p, &mut local) {
        Ok(q) => q,
        Err(e) => return Err(e),
    };
    let (n, q) = match copy(&VAR_INT, b, p, &mut local) {
        Ok(found) => found,
        Err(e) => return Err(e),
    };
    if n < 0 {
        return Err(TranslateError::Read);
    }
    p = match skips(&STRING, b, q, n as u32, &mut local) {
        Ok(q2) => q2,
        Err(e) => return Err(e),
    };
    append_bytes(out, local.as_slice());
    Ok(p)
}

fn tail(b: &[u8], pos: usize, out: &mut Vec<u8>, version: V) -> (r: Result<usize, TranslateError>)
    requires
        pos <= b@.len(),
    ensures
        match login_tail(b@, Ok((pos as int, old(out)@)), version) {
            Ok((p, o)) => r matches Ok(q) && q == p && q <= b@.len() && final(out)@ == o,
            Err(e) => r == Err::<usize, TranslateError>(e),
        },
{
    let mut p = match skip(&STRING, b, pos, out) {
        Ok(q) => q,
        Err(e) => return Err(e),
    };
    p = match skip(&I64, b, p, out) {
        Ok(q) => q,
        Err(e) => return Err(e),
    };
    p = match skip(&VAR_INT, b, p, out) {
        Ok(q) => q,
        Err(e) => return Err(e),
    };
    p = match skip(&VAR_INT, b, p, out) {
        Ok(q) => q,
        Err(e) => return Err(e),
    };
    if version.at_least(V::V_1_18) {
        p = match skip(&VAR_INT, b, p, out) {
            Ok(q) => q,
            Err(e) => return Err(e),
        };
    }
    p = match skips(&BOOL, b, p, 4, out) {
        Ok(q) => q,
        Err(e) => return Err(e),
    };
    if version.at_least(V::V_1_19) {
        let (set, q) = match copy(&BOOL, b, p, out) {
            Ok(found) => found,
            Err(e) => return Err(e),
        };
        p = q;
        if set {
            p = match skip(&STRING, b, p, out) {
                Ok(q2) => q2,
                Err(e) => return Err(e),
            };
            p = match skip(&I64, b, p, out) {
                Ok(q2) => q2,
                Err(e) => return Err(e),
            };
        }
    }
    if version.at_least(V::V_1_20) {
        p = match skip(&VAR_INT, b, p, out) {
            Ok(q) => q,
            Err(e) => return Err(e),
        };
    }
    Ok(p)
}

fn dimension(b: &[u8], pos: usize, out: &mut Vec<u8>, version: V, element: Option<&[u8]>)
    -> (r: Result<usize, TranslateError>)
    requires
        pos <= b@.len(),
    ensures
        match dimension_state(b@, Ok((pos as int, old(out)@)), version, match element { Some(e) => Some(e@), None => None }) {
            Ok((p, o)) => r matches Ok(q) && q == p && q <= b@.len() && final(out)@ == o,
            Err(e) => r == Err::<usize, TranslateError>(e),
        },
{
    if !version.older_than(FIRST_WITH_DIMENSION_NAME) {
        return skip(&STRING, b, pos, out);
    }
    let (_, end) = match read_named_compound(b, pos) {
        Some(found) => found,
        None => return Err(TranslateError::Read),
    };
    let e = match element {
        Some(e) => e,
        None => return Err(TranslateError::Unsupported("dimension element")),
    };
    if e.len() == 0 || e[0] != TAG_COMPOUND {
        return Err(TranslateError::Unsupported("dimension element"));
    }
    let ghost before = out@;
    out.push(TAG_COMPOUND);
    out.push(0);
    out.push(0);
    append_bytes(out, slice_subrange(e, 1, e.len()));
    assert(out@ =~= before + named_element(e@)->Some_0);
    Ok(end)
}

/// Rewrites a join packet for `version`, its codec body replaced by `codec`
/// and, below 1.19, its dimension element by `element`, both the version's
/// own registry data.
pub fn rewrite_login(payload: &[u8], version: V, codec: &[u8], element: Option<&[u8]>) -> (r: Option<Vec<u8>>)
    ensures
        match login_bytes(payload@, version, codec@, match element { Some(e) => Some(e@), None => None }) {
            Some(bytes) => r matches Some(v) && v@ == bytes,
            None => r is None,
        },
{
    if !version.at_least(OLDEST_LAYOUT) || !version.older_than(FIRST_WITH_CONFIG_STATE) {
        return None;
    }
    let mut out: Vec<u8> = Vec::new();
    let p1 = match head(payload, &mut out) {
        Ok(p) => p,
        Err(_) => return None,
    };
    assert(out@ =~= Seq::<u8>::empty() + out@);
    let (name_end, end) = match read_named_compound(payload, p1) {
        Some(found) => found,
        None => return None,
    };
    append_bytes(&mut out, slice_subrange(payload, p1, name_end));
    append_bytes(&mut out, codec);
    let p2 = match dimension(payload, end, &mut out, version, element) {
        Ok(p) => p,
        Err(_) => return None,
    };
    let p3 = match tail(payload, p2, &mut out, version) {
        Ok(p) => p,
        Err(_) => return None,
    };
    if p3 != payload.len() {
        return None;
    }
    Some(out)
}

/// The server's codec, as its whole named document, and the world name of a
/// join packet for `version`: what its registry data is chosen by.
pub fn login_codec(payload: &[u8], version: V) -> (r: Option<(Vec<u8>, Vec<u8>)>)
    ensures
        match login_codec_of(payload@, version) {
            Some((codec, world)) => r matches Some((c, w)) && c@ == codec && w@ == world,
            None => r is None,
        },
{
    if !version.at_least(OLDEST_LAYOUT) || !version.older_than(FIRST_WITH_CONFIG_STATE) {
        return None;
    }
    let mut scratch: Vec<u8> = Vec::new();
    let p1 = match head(payload, &mut scratch) {
        Ok(p) => p,
        Err(_) => return None,
    };
    let (_, end) = match read_named_compound(payload, p1) {
        Some(found) => found,
        None => return None,
    };
    let world_at = if version.older_than(FIRST_WITH_DIMENSION_NAME) {
        match read_named_compound(payload, end) {
            Some((_, e)) => e,
            None => return None,
        }
    } else {
        match read_field(&STRING, payload, end) {
            Some((_, p)) => p,
            None => return None,
        }
    };
    match read_field(&STRING, payload, world_at) {
        Some((world, _)) => {
            proof {
                crate::api::types::lemma_bytes_deep_view(world);
            }
            let mut codec: Vec<u8> = Vec::new();
            append_bytes(&mut codec, slice_subrange(payload, p1, end));
            Some((codec, world))
        },
        None => None,
    }
}

/// A respawn packet for 1.16.2 to 1.18.2 with its dimension element replaced
/// by `element`: the named element, the world name and the thirteen bytes
/// after it, copied as they are. `None` outside those versions, where it does
/// not parse, where the tail is not exactly those bytes, and where the
/// element is missing or not a compound.
pub open spec fn respawn_bytes(b: Seq<u8>, version: V, element: Option<Seq<u8>>) -> Option<Seq<u8>> {
    if !version.spec_at_least(OLDEST_LAYOUT) || !version.spec_older_than(FIRST_WITH_DIMENSION_NAME) {
        None
    } else {
        match pass(STRING, b, dimension_state(b, start(), version, element)) {
            Ok((p, out)) => if b.len() - p == RESPAWN_TAIL_LEN { Some(out + b.subrange(p, b.len() as int)) } else { None },
            Err(_) => None,
        }
    }
}

/// The world name of a respawn packet, which its dimension element is chosen by.
pub open spec fn respawn_world_of(b: Seq<u8>) -> Option<Seq<u8>> {
    match named_compound(b, 0) {
        Some((_, end)) => match field(STRING, b, end) {
            Some((name, _)) => Some(name),
            None => None,
        },
        None => None,
    }
}

/// Rewrites a respawn packet for `version` with its dimension element
/// replaced by `element`, the version's own for the world.
pub fn rewrite_respawn(payload: &[u8], version: V, element: Option<&[u8]>) -> (r: Option<Vec<u8>>)
    ensures
        match respawn_bytes(payload@, version, match element { Some(e) => Some(e@), None => None }) {
            Some(bytes) => r matches Some(v) && v@ == bytes,
            None => r is None,
        },
{
    if !version.at_least(OLDEST_LAYOUT) || !version.older_than(FIRST_WITH_DIMENSION_NAME) {
        return None;
    }
    let mut out: Vec<u8> = Vec::new();
    let p1 = match dimension(payload, 0, &mut out, version, element) {
        Ok(p) => p,
        Err(_) => return None,
    };
    let p2 = match skip(&STRING, payload, p1, &mut out) {
        Ok(p) => p,
        Err(_) => return None,
    };
    if payload.len() - p2 != RESPAWN_TAIL_LEN {
        return None;
    }
    append_bytes(&mut out, slice_subrange(payload, p2, payload.len()));
    Some(out)
}

/// The world name of a respawn packet.
pub fn respawn_world(payload: &[u8]) -> (r: Option<Vec<u8>>)
    ensures
        match respawn_world_of(payload@) {
            Some(name) => r matches Some(v) && v@ == name,
            None => r is None,
        },
{
    let (_, end) = match read_named_compound(payload, 0) {
        Some(found) => found,
        None => return None,
    };
    match read_field(&STRING, payload, end) {
        Some((name, _)) => {
            proof {
                crate::api::types::lemma_bytes_deep_view(name);
            }
            Some(name)
        },
        None => None,
    }
}

} // verus!
