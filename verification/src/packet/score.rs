//! `RESET_SCORE` for clients that predate it.
//!
//! 1.20.3 split score removal out of `SET_SCORE` into its own packet. Every
//! client below that has no `RESET_SCORE`, so scores would never clear
//! without this; those versions remove a score with `SET_SCORE` action 1
//! instead, which is what this rewrite produces.

use vstd::prelude::*;
use crate::api::types::{OptionalT, StringT, WireType, STRING};
use crate::codec::{prefixed_bytes, var_int_bytes, write_var_int};
use crate::version::JavaMinecraftVersion;

verus! {

/// First version with `RESET_SCORE`; anything older gets the rewrite.
pub const FIRST_WITH_RESET_SCORE: JavaMinecraftVersion = JavaMinecraftVersion::V_1_20_3;

/// The `SET_SCORE` action-1 payload for a `RESET_SCORE` payload: the owner,
/// action 1 and the objective, the empty one where none was named. `None`
/// when the payload is not exactly an owner and an optional objective.
pub open spec fn spec_rewrite_reset_score(payload: Seq<u8>) -> Option<Seq<u8>> {
    match StringT.parse(payload) {
        Some((owner, n)) => match OptionalT(StringT).parse(payload.skip(n as int)) {
            Some((objective, m)) => if n + m == payload.len() {
                let name = match objective {
                    Some(name) => name,
                    None => Seq::empty(),
                };
                Some(prefixed_bytes(owner) + var_int_bytes(1) + prefixed_bytes(name))
            } else {
                None
            },
            None => None,
        },
        None => None,
    }
}

/// Turns a `RESET_SCORE` payload into a `SET_SCORE` action-1 payload; an
/// absent objective becomes the empty string, which 1.20.2 reads as "every
/// objective".
pub fn rewrite_reset_score(payload: &[u8]) -> (r: Option<Vec<u8>>)
    ensures
        match spec_rewrite_reset_score(payload@) {
            Some(bytes) => r matches Some(out) && out@ == bytes,
            None => r is None,
        },
{
    let (owner, next) = match STRING.read(payload, 0) {
        Some(found) => found,
        None => {
            assert(payload@.subrange(0, payload@.len() as int) =~= payload@);
            return None;
        },
    };
    proof {
        assert(payload@.subrange(0, payload@.len() as int) =~= payload@);
        assert(payload@.skip(next as int) =~= payload@.subrange(next as int, payload@.len() as int));
    }
    let optional = OptionalT(STRING);
    let (objective, end) = match optional.read(payload, next) {
        Some(found) => found,
        None => return None,
    };
    if end != payload.len() {
        return None;
    }
    let mut out: Vec<u8> = Vec::new();
    STRING.write(&mut out, &owner);
    write_var_int(&mut out, 1);
    let empty: Vec<u8> = Vec::new();
    let name: &Vec<u8> = match &objective {
        Some(name) => name,
        None => &empty,
    };
    proof {
        assert(empty.deep_view() =~= Seq::<u8>::empty());
        crate::api::types::lemma_bytes_deep_view(owner);
        crate::api::types::lemma_bytes_deep_view(*name);
        crate::codec::lemma_prefixed_len(payload@, 0);
    }
    STRING.write(&mut out, name);
    Some(out)
}

} // verus!
