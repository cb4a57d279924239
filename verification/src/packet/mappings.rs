//! Packet identities.

use vstd::prelude::*;

verus! {

/// One packet of the protocol: a key unique to it and its 26.3 id, `-1` for
/// a packet 26.3 no longer has.
#[derive(Clone, Copy, Debug, PartialEq, Eq, Structural)]
pub struct PacketId {
    pub key: u32,
    pub v26_3: i32,
}

impl DeepView for PacketId {
    type V = PacketId;

    open spec fn deep_view(&self) -> PacketId {
        *self
    }
}

} // verus!
