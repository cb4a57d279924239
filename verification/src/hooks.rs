//! What the host's packet hooks do with a packet, by the client's version and
//! the connection state it arrives in (0 handshake, 1 status, 2 login,
//! 3 transfer, 4 configuration, 5 play).

use vstd::prelude::*;
use crate::packet::{is_version_supported, spec_is_version_supported, HIGHEST_SUPPORTED};
use crate::version::JavaMinecraftVersion;

verus! {

/// What becomes of a packet a client sent.
#[derive(Clone, Copy, Debug, PartialEq, Eq, Structural)]
pub enum ReceivedAction {
    /// It reaches the server as it is.
    Leave,
    /// It is put in the server's numbering and layout.
    Translate,
}

/// What becomes of a packet on its way to a client.
#[derive(Clone, Copy, Debug, PartialEq, Eq, Structural)]
pub enum SentAction {
    /// It reaches the client as it is.
    Leave,
    /// It is dropped.
    Cancel,
    /// It is replaced by the login disconnect that names the versions served.
    Disconnect,
    /// It is put in the client's numbering and layout.
    Translate,
}

/// A packet from a client on the server's own version, from one below the
/// floor (refused on its first clientbound login packet, so its login start
/// must reach the server untouched), or sent in the handshake or status
/// state, whose ids never changed, reaches the server as it is.
pub open spec fn spec_received_action(version: JavaMinecraftVersion, state: u8) -> ReceivedAction {
    if version == HIGHEST_SUPPORTED || !spec_is_version_supported(version) || state < 2 {
        ReceivedAction::Leave
    } else {
        ReceivedAction::Translate
    }
}

/// What the serverbound hook does with a packet a client on `version` sent
/// in `state`.
pub fn received_action(version: JavaMinecraftVersion, state: u8) -> (r: ReceivedAction)
    ensures
        r == spec_received_action(version, state),
{
    if version == HIGHEST_SUPPORTED || !is_version_supported(version) || state < 2 {
        ReceivedAction::Leave
    } else {
        ReceivedAction::Translate
    }
}

/// A client below the floor gets a disconnect in place of its first login or
/// transfer packet and nothing else but the status response, which already
/// shows it as incompatible. A client on the server's own version, and the
/// handshake state, which has no clientbound packets, are left alone.
pub open spec fn spec_sent_action(version: JavaMinecraftVersion, state: u8) -> SentAction {
    if version == HIGHEST_SUPPORTED {
        SentAction::Leave
    } else if !spec_is_version_supported(version) {
        if state == 2 || state == 3 {
            SentAction::Disconnect
        } else if state == 1 {
            SentAction::Leave
        } else {
            SentAction::Cancel
        }
    } else if state == 0 {
        SentAction::Leave
    } else {
        SentAction::Translate
    }
}

/// What the clientbound hook does with a packet for a client on `version`
/// in `state`.
pub fn sent_action(version: JavaMinecraftVersion, state: u8) -> (r: SentAction)
    ensures
        r == spec_sent_action(version, state),
{
    if version == HIGHEST_SUPPORTED {
        SentAction::Leave
    } else if !is_version_supported(version) {
        if state == 2 || state == 3 {
            SentAction::Disconnect
        } else if state == 1 {
            SentAction::Leave
        } else {
            SentAction::Cancel
        }
    } else if state == 0 {
        SentAction::Leave
    } else {
        SentAction::Translate
    }
}

/// A client below the floor is never sent a translated packet, and is sent a
/// disconnect exactly in the login and transfer states.
pub proof fn law_unsupported_clients_are_refused(version: JavaMinecraftVersion, state: u8)
    requires
        !spec_is_version_supported(version),
    ensures
        spec_sent_action(version, state) != SentAction::Translate,
        spec_received_action(version, state) == ReceivedAction::Leave,
        spec_sent_action(version, state) == SentAction::Disconnect <==> (state == 2 || state == 3),
{
}


/// Whether a clientbound packet is the status response, the status state's
/// packet 0 in every version, which reports the server's version.
pub open spec fn spec_is_status_response(state: u8, packet_id: i32) -> bool {
    state == 1 && packet_id == 0
}

/// Whether a clientbound packet is the status response.
pub fn is_status_response(state: u8, packet_id: i32) -> (r: bool)
    ensures
        r == spec_is_status_response(state, packet_id),
{
    state == 1 && packet_id == 0
}

} // verus!
