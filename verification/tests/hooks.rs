use pumpkin_java_multiversion::hooks::{is_status_response, received_action, sent_action, ReceivedAction, SentAction};
use pumpkin_java_multiversion::version::JavaMinecraftVersion as V;

#[test]
fn the_servers_own_version_is_never_touched() {
    for state in 0..6u8 {
        assert_eq!(received_action(V::V_26_3, state), ReceivedAction::Leave);
        assert_eq!(sent_action(V::V_26_3, state), SentAction::Leave);
    }
}

#[test]
fn a_client_below_the_floor_is_disconnected_at_login() {
    for version in [V::V_1_12_2, V::V_1_16_1, V::Unknown] {
        assert_eq!(sent_action(version, 0), SentAction::Cancel);
        assert_eq!(sent_action(version, 1), SentAction::Leave);
        assert_eq!(sent_action(version, 2), SentAction::Disconnect);
        assert_eq!(sent_action(version, 3), SentAction::Disconnect);
        assert_eq!(sent_action(version, 4), SentAction::Cancel);
        assert_eq!(sent_action(version, 5), SentAction::Cancel);
        for state in 0..6u8 {
            assert_eq!(received_action(version, state), ReceivedAction::Leave);
        }
    }
}

#[test]
fn a_supported_client_is_translated_past_the_handshake() {
    for version in [V::V_1_16_2, V::V_1_20_5, V::V_26_2] {
        assert_eq!(sent_action(version, 0), SentAction::Leave);
        assert_eq!(received_action(version, 0), ReceivedAction::Leave);
        assert_eq!(received_action(version, 1), ReceivedAction::Leave);
        for state in 1..6u8 {
            assert_eq!(sent_action(version, state), SentAction::Translate);
        }
        for state in 2..6u8 {
            assert_eq!(received_action(version, state), ReceivedAction::Translate);
        }
    }
}

#[test]
fn only_the_status_states_first_packet_is_the_status_response() {
    assert!(is_status_response(1, 0));
    assert!(!is_status_response(1, 1));
    assert!(!is_status_response(5, 0));
}
