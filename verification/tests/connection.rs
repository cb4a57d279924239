use pumpkin_java_multiversion::api::connection::{connection_key, Connections, EntityTracker, UserConnection};
use pumpkin_java_multiversion::api::protocol::{packet_key, Handler, Registry};
use pumpkin_java_multiversion::packet::mappings::PacketId;
use pumpkin_java_multiversion::version::JavaMinecraftVersion;

#[test]
fn clearing_the_tracker_forgets_every_entity() {
    let mut tracker = EntityTracker::default();
    tracker.add(1, 2);
    tracker.client_entity_id = Some(1);
    tracker.remove(1);
    assert!(tracker.entity_type(1).is_none());
    tracker.add(4, 5);
    tracker.clear();
    assert!(tracker.entity_type(4).is_none());
}

#[test]
fn a_recorded_entity_reads_back_and_leaves_the_others_alone() {
    let mut tracker = EntityTracker::new();
    tracker.add(3, 12);
    tracker.add(4, 13);
    tracker.add(3, 14);
    assert_eq!(tracker.entity_type(3), Some(14));
    assert_eq!(tracker.entity_type(4), Some(13));
    tracker.remove(3);
    assert_eq!(tracker.entity_type(3), None);
    assert_eq!(tracker.entity_type(4), Some(13));
}

#[test]
fn clearing_keeps_the_client_entity_and_the_world_height() {
    let mut connection = UserConnection::new(7, JavaMinecraftVersion::V_1_20);
    connection.entity_tracker.client_entity_id = Some(9);
    connection.entity_tracker.min_y = -64;
    connection.entity_tracker.height = 384;
    connection.entity_tracker.add(9, 1);
    connection.entity_tracker.clear();
    assert_eq!(connection.entity_tracker.client_entity_id, Some(9));
    assert_eq!(connection.entity_tracker.min_y, -64);
    assert_eq!(connection.entity_tracker.height, 384);
    assert_eq!(connection.entity_tracker.entity_type(9), None);
    assert_eq!(connection.id, 7);
    assert_eq!(connection.version, JavaMinecraftVersion::V_1_20);
}

const SET_TIME: PacketId = PacketId { key: 40, v26_3: 106 };
const UPDATE_TAGS: PacketId = PacketId { key: 41, v26_3: 13 };

#[test]
fn a_registration_reads_back_and_the_last_one_wins() {
    let mut registry: Registry<u8> = Registry::new();
    assert!(registry.clientbound_handler(SET_TIME).is_none());
    registry.clientbound(SET_TIME, 1);
    registry.clientbound_layout(SET_TIME, 2);
    registry.serverbound(UPDATE_TAGS, 3);
    let entry = registry.clientbound_handler(SET_TIME).unwrap();
    assert!(matches!(entry.handler, Handler::Run(2)));
    assert!(entry.layout);
    assert!(registry.clientbound_handler(UPDATE_TAGS).is_none());
    assert!(matches!(registry.serverbound_handler(UPDATE_TAGS).unwrap().handler, Handler::Run(3)));
    registry.cancel_clientbound(UPDATE_TAGS);
    assert!(matches!(registry.clientbound_handler(UPDATE_TAGS).unwrap().handler, Handler::Cancel));
    assert_eq!(packet_key(SET_TIME), 40);
}

#[test]
fn a_layout_handler_runs_only_where_core_wrote_a_newer_layout() {
    let mut registry: Registry<u8> = Registry::new();
    registry.clientbound_layout(SET_TIME, 1);
    registry.clientbound(UPDATE_TAGS, 2);
    let layout = registry.clientbound_handler(SET_TIME).unwrap();
    let plain = registry.clientbound_handler(UPDATE_TAGS).unwrap();
    let from = JavaMinecraftVersion::V_1_21_2;
    assert!(layout.runs(from, JavaMinecraftVersion::V_1_21_4));
    assert!(layout.runs(from, JavaMinecraftVersion::V_1_21_2));
    assert!(!layout.runs(from, JavaMinecraftVersion::V_1_21));
    assert!(plain.runs(from, JavaMinecraftVersion::V_1_21));
}

#[test]
fn no_player_is_the_pre_play_key() {
    assert_eq!(connection_key(None), 0);
}

#[test]
fn a_players_key_folds_its_uuid() {
    assert_eq!(connection_key(Some((0x0000_0001_0000_0002, 0))), 0x0000_0002_0000_0001);
    assert_eq!(connection_key(Some((0x0000_0001_0000_0002, 0x0000_0002_0000_0001))), 0);
    assert_eq!(connection_key(Some((0, 7))), 7);
}

#[test]
fn kept_state_survives_between_calls_until_removed() {
    let mut store = Connections::new();
    let mut connection = store.take(7, JavaMinecraftVersion::V_1_20);
    connection.entity_tracker.add(3, 12);
    store.keep(7, connection);

    let connection = store.take(7, JavaMinecraftVersion::V_1_19);
    assert_eq!(connection.version, JavaMinecraftVersion::V_1_19);
    assert_eq!(connection.entity_tracker.entity_type(3), Some(12));
    store.keep(7, connection);

    store.remove_connection(7);
    let connection = store.take(7, JavaMinecraftVersion::V_1_19);
    assert!(connection.entity_tracker.entity_type(3).is_none());
    assert_eq!(connection.id, 7);
}
