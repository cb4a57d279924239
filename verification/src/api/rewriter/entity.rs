//! What a spawn rewrite needs to know of the entity it spawns.

use vstd::prelude::*;
use crate::api::connection::UserConnection;
use crate::api::rewriter::item_shape::{var_int_end, var_int_field};
use crate::api::wrapper::PacketWrapper;

verus! {

/// The newest protocol's type the tracker holds for the entity whose id
/// opens the spawn payload left in a wrapper, `None` where there is no id
/// or the entity is not tracked.
pub open spec fn spawned_type_of(rest: Seq<u8>, known: Map<i32, u16>) -> Option<u16> {
    match var_int_field(rest, 0) {
        Some((id, _)) => if known.contains_key(id) { Some(known[id]) } else { None },
        None => None,
    }
}

/// The newest protocol's type of the entity the spawn payload left in
/// `wrapper` spawns, as the tracker holds it.
pub fn spawned_type(wrapper: &PacketWrapper, connection: &UserConnection) -> (r: Option<u16>)
    ensures
        r == spawned_type_of(wrapper@.remaining(), connection.entity_tracker.entities()),
{
    match var_int_end(wrapper.remaining(), 0) {
        Some((id, _)) => connection.entity_tracker.entity_type(id),
        None => None,
    }
}

} // verus!
