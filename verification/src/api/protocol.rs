//! Where a translation step keeps its handlers: one per packet and direction,
//! each either a handler of the step's own or the packet's cancellation.

use vstd::prelude::*;
use std::collections::HashMap;
use crate::packet::mappings::PacketId;
use crate::version::JavaMinecraftVersion;

verus! {

broadcast use vstd::std_specs::hash::group_hash_axioms;

/// What runs for a packet: a handler, or dropping the packet.
#[derive(Clone, Copy, Debug)]
pub enum Handler<H> {
    Run(H),
    Cancel,
}

/// A handler as registered.
#[derive(Clone, Copy, Debug)]
pub struct Registered<H> {
    pub handler: Handler<H>,
    /// Converts the packet between the step's `from` and `to` layouts, so it is
    /// owed only where core did not already write at or below `from`.
    pub layout: bool,
}

impl<H> Registered<H> {
    /// The step still owes this handler for a payload in `layout`.
    pub open spec fn spec_runs(&self, from: JavaMinecraftVersion, layout: JavaMinecraftVersion) -> bool {
        !self.layout || from.spec_at_most(layout)
    }

    /// Whether the step still owes this handler for a payload in `layout`.
    #[verifier::when_used_as_spec(spec_runs)]
    pub fn runs(&self, from: JavaMinecraftVersion, layout: JavaMinecraftVersion) -> (r: bool)
        ensures
            r == self.spec_runs(from, layout),
    {
        !self.layout || from.protocol_version() <= layout.protocol_version()
    }
}

/// The key handlers of a packet are filed under.
pub fn packet_key(packet: PacketId) -> (r: u32)
    ensures
        r == packet.key,
{
    packet.key
}

/// The handlers of one step, by packet key, in each direction.
pub struct Registry<H> {
    clientbound: HashMap<u32, Registered<H>>,
    serverbound: HashMap<u32, Registered<H>>,
}

impl<H: Copy> Registry<H> {
    /// The clientbound registrations by packet key.
    pub closed spec fn clientbound_map(&self) -> Map<u32, Registered<H>> {
        self.clientbound@
    }

    /// The serverbound registrations by packet key.
    pub closed spec fn serverbound_map(&self) -> Map<u32, Registered<H>> {
        self.serverbound@
    }

    /// A registry with no handler in it.
    pub fn new() -> (r: Registry<H>)
        ensures
            r.clientbound_map() == Map::<u32, Registered<H>>::empty(),
            r.serverbound_map() == Map::<u32, Registered<H>>::empty(),
    {
        Registry { clientbound: HashMap::new(), serverbound: HashMap::new() }
    }

    fn file_clientbound(&mut self, p: PacketId, entry: Registered<H>)
        ensures
            final(self).clientbound_map() == old(self).clientbound_map().insert(p.key, entry),
            final(self).serverbound_map() == old(self).serverbound_map(),
    {
        self.clientbound.insert(packet_key(p), entry);
    }

    fn file_serverbound(&mut self, p: PacketId, entry: Registered<H>)
        ensures
            final(self).serverbound_map() == old(self).serverbound_map().insert(p.key, entry),
            final(self).clientbound_map() == old(self).clientbound_map(),
    {
        self.serverbound.insert(packet_key(p), entry);
    }

    /// Registers `h` for clientbound `p`, owed on every payload.
    pub fn clientbound(&mut self, p: PacketId, h: H)
        ensures
            final(self).clientbound_map()
                == old(self).clientbound_map().insert(p.key, Registered { handler: Handler::Run(h), layout: false }),
            final(self).serverbound_map() == old(self).serverbound_map(),
    {
        self.file_clientbound(p, Registered { handler: Handler::Run(h), layout: false });
    }

    /// Registers `h` for clientbound `p` as a handler that rewrites the
    /// payload from the step's `from` layout into its `to` layout.
    pub fn clientbound_layout(&mut self, p: PacketId, h: H)
        ensures
            final(self).clientbound_map()
                == old(self).clientbound_map().insert(p.key, Registered { handler: Handler::Run(h), layout: true }),
            final(self).serverbound_map() == old(self).serverbound_map(),
    {
        self.file_clientbound(p, Registered { handler: Handler::Run(h), layout: true });
    }

    /// Makes the step drop clientbound `p`.
    pub fn cancel_clientbound(&mut self, p: PacketId)
        ensures
            final(self).clientbound_map()
                == old(self).clientbound_map().insert(p.key, Registered { handler: Handler::<H>::Cancel, layout: false }),
            final(self).serverbound_map() == old(self).serverbound_map(),
    {
        self.file_clientbound(p, Registered { handler: Handler::Cancel, layout: false });
    }

    /// Registers `h` for serverbound `p`, owed on every payload.
    pub fn serverbound(&mut self, p: PacketId, h: H)
        ensures
            final(self).serverbound_map()
                == old(self).serverbound_map().insert(p.key, Registered { handler: Handler::Run(h), layout: false }),
            final(self).clientbound_map() == old(self).clientbound_map(),
    {
        self.file_serverbound(p, Registered { handler: Handler::Run(h), layout: false });
    }

    /// Registers `h` for serverbound `p` as a layout handler.
    pub fn serverbound_layout(&mut self, p: PacketId, h: H)
        ensures
            final(self).serverbound_map()
                == old(self).serverbound_map().insert(p.key, Registered { handler: Handler::Run(h), layout: true }),
            final(self).clientbound_map() == old(self).clientbound_map(),
    {
        self.file_serverbound(p, Registered { handler: Handler::Run(h), layout: true });
    }

    /// Makes the step drop serverbound `p`.
    pub fn cancel_serverbound(&mut self, p: PacketId)
        ensures
            final(self).serverbound_map()
                == old(self).serverbound_map().insert(p.key, Registered { handler: Handler::<H>::Cancel, layout: false }),
            final(self).clientbound_map() == old(self).clientbound_map(),
    {
        self.file_serverbound(p, Registered { handler: Handler::Cancel, layout: false });
    }

    /// What is registered for clientbound `p`.
    pub fn clientbound_handler(&self, p: PacketId) -> (r: Option<Registered<H>>)
        ensures
            r == (if self.clientbound_map().contains_key(p.key) { Some(self.clientbound_map()[p.key]) } else { None }),
    {
        match self.clientbound.get(&packet_key(p)) {
            Some(entry) => Some(*entry),
            None => None,
        }
    }

    /// What is registered for serverbound `p`.
    pub fn serverbound_handler(&self, p: PacketId) -> (r: Option<Registered<H>>)
        ensures
            r == (if self.serverbound_map().contains_key(p.key) { Some(self.serverbound_map()[p.key]) } else { None }),
    {
        match self.serverbound.get(&packet_key(p)) {
            Some(entry) => Some(*entry),
            None => None,
        }
    }
}

/// A handler registered for a packet is the one a lookup of that packet
/// finds, and registering it leaves every other packet's handler, and the
/// other direction, as they were.
pub proof fn law_registration_reads_back<H>(
    before: Map<u32, Registered<H>>,
    p: PacketId,
    entry: Registered<H>,
    other: PacketId,
)
    requires
        other.key != p.key,
    ensures
        before.insert(p.key, entry).contains_key(p.key),
        before.insert(p.key, entry)[p.key] == entry,
        before.insert(p.key, entry).contains_key(other.key) == before.contains_key(other.key),
        before.contains_key(other.key) ==> before.insert(p.key, entry)[other.key] == before[other.key],
{
}

} // verus!
