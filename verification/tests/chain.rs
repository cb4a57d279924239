use pumpkin_java_multiversion::api::protocol::{Handler, Registry};
use pumpkin_java_multiversion::api::Step;
use pumpkin_java_multiversion::packet::mappings::PacketId;
use pumpkin_java_multiversion::pipeline::chain::{next_clientbound_handler, next_serverbound_handler, steps_for};
use pumpkin_java_multiversion::version::JavaMinecraftVersion as V;

const CHAT: PacketId = PacketId { key: 3, v26_3: 10 };
const OTHER: PacketId = PacketId { key: 4, v26_3: 11 };

fn steps() -> Vec<Step> {
    vec![
        Step { from: V::V_26_3, to: V::V_26_2 },
        Step { from: V::V_26_2, to: V::V_1_21_9 },
        Step { from: V::V_1_21_9, to: V::V_1_21_5 },
    ]
}

fn registries() -> Vec<Registry<u8>> {
    let mut first = Registry::new();
    first.clientbound(CHAT, 1);
    let mut second = Registry::new();
    second.clientbound_layout(CHAT, 2);
    second.serverbound(CHAT, 5);
    let mut third = Registry::new();
    third.cancel_clientbound(OTHER);
    third.serverbound(CHAT, 6);
    vec![first, second, third]
}

fn handler_of(found: Option<(usize, pumpkin_java_multiversion::api::protocol::Registered<u8>)>) -> Option<(usize, Option<u8>)> {
    found.map(|(i, entry)| {
        (i, match entry.handler {
            Handler::Run(h) => Some(h),
            Handler::Cancel => None,
        })
    })
}

#[test]
fn a_client_goes_through_the_steps_down_to_its_version() {
    assert_eq!(steps_for(&steps(), V::V_26_3), 0);
    assert_eq!(steps_for(&steps(), V::V_26_2), 1);
    assert_eq!(steps_for(&steps(), V::V_1_21_9), 2);
    assert_eq!(steps_for(&steps(), V::V_1_16_2), 3);
}

#[test]
fn clientbound_handlers_run_newest_first_and_skip_what_core_wrote() {
    let (steps, regs) = (steps(), registries());
    let count = steps_for(&steps, V::V_1_21_5);
    assert_eq!(handler_of(next_clientbound_handler(&steps, &regs, 0, count, CHAT, V::V_1_21_5, false)), Some((0, Some(1))));
    // Core already wrote the packet in the client's 1.21.5 layout, below the
    // second step's upper end, so its layout handler is not owed.
    assert_eq!(handler_of(next_clientbound_handler(&steps, &regs, 1, count, CHAT, V::V_1_21_5, false)), None);
    assert_eq!(handler_of(next_clientbound_handler(&steps, &regs, 1, count, CHAT, V::V_26_3, false)), Some((1, Some(2))));
    assert_eq!(handler_of(next_clientbound_handler(&steps, &regs, 0, count, OTHER, V::V_1_21_5, false)), Some((2, None)));
    assert_eq!(handler_of(next_clientbound_handler(&steps, &regs, 0, 2, OTHER, V::V_1_21_9, false)), None);
    assert_eq!(handler_of(next_clientbound_handler(&steps, &regs, 0, count, CHAT, V::V_1_21_5, true)), None);
}

#[test]
fn serverbound_handlers_run_oldest_first() {
    let (steps, regs) = (steps(), registries());
    assert_eq!(handler_of(next_serverbound_handler(&steps, &regs, 2, CHAT, V::V_1_21_5, false)), Some((2, Some(6))));
    assert_eq!(handler_of(next_serverbound_handler(&steps, &regs, 1, CHAT, V::V_1_21_5, false)), Some((1, Some(5))));
    assert_eq!(handler_of(next_serverbound_handler(&steps, &regs, 0, CHAT, V::V_1_21_5, false)), None);
    assert_eq!(handler_of(next_serverbound_handler(&steps, &regs, 2, CHAT, V::V_1_21_5, true)), None);
}
