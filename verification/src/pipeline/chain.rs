//! The walk over the chain of version steps: which steps a client goes
//! through, and which handler runs next for the packet as it stands.

use vstd::prelude::*;
use crate::api::Step;
use crate::api::protocol::{Registered, Registry};
use crate::packet::mappings::PacketId;
use crate::version::JavaMinecraftVersion;

verus! {

/// The number of steps from `i` on whose lower end is at or above
/// `version`, counted up to the first that is not; the chain lists the
/// newest step first.
pub open spec fn prefix_from(steps: Seq<Step>, i: int, version: JavaMinecraftVersion) -> int
    decreases steps.len() - i,
{
    if 0 <= i < steps.len() && steps[i].to.spec_at_least(version) {
        prefix_from(steps, i + 1, version)
    } else {
        i
    }
}

/// How many steps of the chain, from the newest, a client on `version` goes
/// through: those whose lower end is at or above it.
pub fn steps_for(steps: &[Step], version: JavaMinecraftVersion) -> (r: usize)
    ensures
        r as int == prefix_from(steps@, 0, version),
        r <= steps@.len(),
        forall|j: int| 0 <= j < r ==> #[trigger] steps@[j].to.spec_at_least(version),
{
    let mut i: usize = 0;
    while i < steps.len() && steps[i].to.at_least(version)
        invariant
            i <= steps@.len(),
            prefix_from(steps@, 0, version) == prefix_from(steps@, i as int, version),
            forall|j: int| 0 <= j < i ==> #[trigger] steps@[j].to.spec_at_least(version),
        decreases steps@.len() - i,
    {
        i = i + 1;
    }
    i
}

/// Whether step `i` has a clientbound handler for `packet` it still owes a
/// payload in `layout`.
pub open spec fn owes_clientbound<H: Copy>(steps: Seq<Step>, regs: Seq<Registry<H>>, i: int, packet: PacketId,
    layout: JavaMinecraftVersion) -> bool
{
    &&& regs[i].clientbound_map().contains_key(packet.key)
    &&& regs[i].clientbound_map()[packet.key].spec_runs(steps[i].from, layout)
}

/// Whether step `i` has a serverbound handler for `packet` it still owes a
/// payload in `layout`.
pub open spec fn owes_serverbound<H: Copy>(steps: Seq<Step>, regs: Seq<Registry<H>>, i: int, packet: PacketId,
    layout: JavaMinecraftVersion) -> bool
{
    &&& regs[i].serverbound_map().contains_key(packet.key)
    &&& regs[i].serverbound_map()[packet.key].spec_runs(steps[i].from, layout)
}

/// The next clientbound handler a packet meets going down the chain from
/// step `i`, below `count`: the first step that owes it one.
pub open spec fn next_clientbound<H: Copy>(steps: Seq<Step>, regs: Seq<Registry<H>>, i: int, count: int,
    packet: PacketId, layout: JavaMinecraftVersion) -> Option<(int, Registered<H>)>
    decreases count - i,
{
    if i < 0 || i >= count || i >= steps.len() || i >= regs.len() {
        None
    } else if owes_clientbound(steps, regs, i, packet, layout) {
        Some((i, regs[i].clientbound_map()[packet.key]))
    } else {
        next_clientbound(steps, regs, i + 1, count, packet, layout)
    }
}

/// The next serverbound handler a packet meets going up the chain from step
/// `i` towards the newest: the first step that owes it one.
pub open spec fn next_serverbound<H: Copy>(steps: Seq<Step>, regs: Seq<Registry<H>>, i: int,
    packet: PacketId, layout: JavaMinecraftVersion) -> Option<(int, Registered<H>)>
    decreases i + 1,
{
    if i < 0 || i >= steps.len() || i >= regs.len() {
        None
    } else if owes_serverbound(steps, regs, i, packet, layout) {
        Some((i, regs[i].serverbound_map()[packet.key]))
    } else {
        next_serverbound(steps, regs, i - 1, packet, layout)
    }
}

/// The next clientbound handler to run from step `start` on, of the first
/// `count` steps, for `packet` as it stands in `layout`; `None` when the
/// packet was cancelled or no later step owes it one.
pub fn next_clientbound_handler<H: Copy>(steps: &[Step], regs: &[Registry<H>], start: usize, count: usize,
    packet: PacketId, layout: JavaMinecraftVersion, cancelled: bool) -> (r: Option<(usize, Registered<H>)>)
    ensures
        cancelled ==> r is None,
        !cancelled ==> match next_clientbound(steps@, regs@, start as int, count as int, packet, layout) {
            Some((i, entry)) => r == Some((i as usize, entry)),
            None => r is None,
        },
{
    if cancelled {
        return None;
    }
    let mut i = start;
    while i < count && i < steps.len() && i < regs.len()
        invariant
            start <= i,
            !cancelled,
            next_clientbound(steps@, regs@, start as int, count as int, packet, layout)
                == next_clientbound(steps@, regs@, i as int, count as int, packet, layout),
        decreases count - i,
    {
        match regs[i].clientbound_handler(packet) {
            Some(entry) => {
                if entry.runs(steps[i].from, layout) {
                    return Some((i, entry));
                }
            },
            None => {},
        }
        i = i + 1;
    }
    None
}

/// The next serverbound handler to run from step `start` back towards the
/// newest, for `packet` as it stands in `layout`; `None` when the packet
/// was cancelled or no earlier step owes it one.
pub fn next_serverbound_handler<H: Copy>(steps: &[Step], regs: &[Registry<H>], start: usize,
    packet: PacketId, layout: JavaMinecraftVersion, cancelled: bool) -> (r: Option<(usize, Registered<H>)>)
    ensures
        cancelled ==> r is None,
        !cancelled ==> match next_serverbound(steps@, regs@, start as int, packet, layout) {
            Some((i, entry)) => r == Some((i as usize, entry)),
            None => r is None,
        },
{
    if cancelled {
        return None;
    }
    let mut i = start;
    loop
        invariant
            !cancelled,
            next_serverbound(steps@, regs@, start as int, packet, layout)
                == next_serverbound(steps@, regs@, i as int, packet, layout),
        decreases i,
    {
        if i >= steps.len() || i >= regs.len() {
            return None;
        }
        match regs[i].serverbound_handler(packet) {
            Some(entry) => {
                if entry.runs(steps[i].from, layout) {
                    return Some((i, entry));
                }
            },
            None => {},
        }
        if i == 0 {
            assert(next_serverbound(steps@, regs@, -1, packet, layout) is None);
            return None;
        }
        i = i - 1;
    }
}

/// A handler is found only at a step that owes it, and no step between the
/// start and it owes the packet one: the chain skips nothing.
pub proof fn law_next_handler_is_the_first<H: Copy>(steps: Seq<Step>, regs: Seq<Registry<H>>, i: int, count: int,
    packet: PacketId, layout: JavaMinecraftVersion)
    ensures
        next_clientbound(steps, regs, i, count, packet, layout) matches Some((k, entry)) ==> {
            &&& i <= k < count
            &&& owes_clientbound(steps, regs, k, packet, layout)
            &&& entry == regs[k].clientbound_map()[packet.key]
            &&& forall|j: int| i <= j < k ==> !owes_clientbound(steps, regs, j, packet, layout)
        },
    decreases count - i,
{
    if !(i < 0 || i >= count || i >= steps.len() || i >= regs.len()) && !owes_clientbound(steps, regs, i, packet, layout) {
        law_next_handler_is_the_first(steps, regs, i + 1, count, packet, layout);
    }
}

} // verus!
