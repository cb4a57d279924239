use pumpkin_java_multiversion::api::connection::UserConnection;
use pumpkin_java_multiversion::api::rewriter::entity::spawned_type;
use pumpkin_java_multiversion::api::wrapper::PacketWrapper;
use pumpkin_java_multiversion::codec::write_var_int;
use pumpkin_java_multiversion::packet::mappings::PacketId;
use pumpkin_java_multiversion::pipeline::id_pass::{login, remove_entities, removed_ids, respawn, spawn_prefix};
use pumpkin_java_multiversion::version::JavaMinecraftVersion;

const REMOVE_ENTITIES: PacketId = PacketId { key: 7, v26_3: 75 };

#[test]
fn removed_entities_leave_the_tracker_and_the_payload_alone() {
    let version = JavaMinecraftVersion::V_1_20_2;
    let mut payload = Vec::new();
    write_var_int(&mut payload, 2);
    write_var_int(&mut payload, 11);
    write_var_int(&mut payload, 12);

    let mut connection = UserConnection::new(0, version);
    connection.entity_tracker.add(11, 1);
    connection.entity_tracker.add(12, 2);
    connection.entity_tracker.add(13, 3);

    let mut wrapper = PacketWrapper::new(REMOVE_ENTITIES, &payload);
    remove_entities(&mut wrapper, &mut connection, version).unwrap();

    assert!(connection.entity_tracker.entity_type(11).is_none());
    assert!(connection.entity_tracker.entity_type(12).is_none());
    assert_eq!(connection.entity_tracker.entity_type(13), Some(3));
    assert_eq!(wrapper.finish().unwrap().unwrap().payload, payload);
}

#[test]
fn the_1_17_form_carries_a_single_id() {
    let mut payload = Vec::new();
    write_var_int(&mut payload, 11);
    assert_eq!(removed_ids(&payload, JavaMinecraftVersion::V_1_17), vec![11]);
    assert_eq!(removed_ids(&payload, JavaMinecraftVersion::V_1_17_1), Vec::<i32>::new());
}

#[test]
fn a_cut_id_list_keeps_the_ids_before_the_cut() {
    let mut payload = Vec::new();
    write_var_int(&mut payload, 3);
    write_var_int(&mut payload, 5);
    write_var_int(&mut payload, 6);
    assert_eq!(removed_ids(&payload, JavaMinecraftVersion::V_1_20), vec![5, 6]);
}

#[test]
fn a_spawn_names_its_entity_and_type() {
    let mut payload = Vec::new();
    write_var_int(&mut payload, 11);
    payload.extend([0; 16]);
    write_var_int(&mut payload, 300);
    payload.extend([1, 2, 3]);
    assert_eq!(spawn_prefix(&payload), Some((11, 300)));
    let mut huge = Vec::new();
    write_var_int(&mut huge, 1);
    huge.extend([0; 16]);
    write_var_int(&mut huge, 70000);
    assert_eq!(spawn_prefix(&huge), None);
    assert_eq!(spawn_prefix(&[1, 0, 0]), None);
}

const RESPAWN: PacketId = PacketId { key: 9, v26_3: 80 };
const LOGIN: PacketId = PacketId { key: 10, v26_3: 48 };
const PLAYER: u16 = 149;
const PIG: u16 = 96;

#[test]
fn a_respawn_forgets_every_entity_but_the_player() {
    let version = JavaMinecraftVersion::V_1_20_2;
    let mut connection = UserConnection::new(0, version);
    connection.entity_tracker.client_entity_id = Some(1);
    connection.entity_tracker.add(1, PLAYER);
    connection.entity_tracker.add(11, PIG);

    let mut wrapper = PacketWrapper::new(RESPAWN, &[1, 2, 3]);
    respawn(&mut wrapper, &mut connection, version, PLAYER, None).unwrap();

    assert_eq!(connection.entity_tracker.entity_type(1), Some(PLAYER));
    assert!(connection.entity_tracker.entity_type(11).is_none());
    assert_eq!(wrapper.finish().unwrap().unwrap().payload, vec![1, 2, 3]);
}

#[test]
fn a_login_tracks_the_client_as_a_player_alone() {
    let version = JavaMinecraftVersion::V_1_20_2;
    let mut connection = UserConnection::new(0, version);
    connection.entity_tracker.add(11, PIG);
    let payload = vec![0, 0, 0, 5, 9, 9];
    let mut wrapper = PacketWrapper::new(LOGIN, &payload);
    login(&mut wrapper, &mut connection, version, PLAYER, &[], None).unwrap();
    assert_eq!(connection.entity_tracker.client_entity_id, Some(5));
    assert_eq!(connection.entity_tracker.entity_type(5), Some(PLAYER));
    assert!(connection.entity_tracker.entity_type(11).is_none());
    assert_eq!(wrapper.finish().unwrap().unwrap().payload, payload);

    // Below 1.20.2 a join that does not parse is refused.
    let mut wrapper = PacketWrapper::new(LOGIN, &payload);
    assert!(login(&mut wrapper, &mut connection, JavaMinecraftVersion::V_1_19, PLAYER, &[], None).is_err());
}

#[test]
fn a_spawn_is_known_by_the_type_the_tracker_holds() {
    let mut connection = UserConnection::new(0, JavaMinecraftVersion::V_1_20_2);
    connection.entity_tracker.add(11, PIG);
    let wrapper = PacketWrapper::new(LOGIN, &[11, 0, 0]);
    assert_eq!(spawned_type(&wrapper, &connection), Some(PIG));
    let wrapper = PacketWrapper::new(LOGIN, &[12]);
    assert_eq!(spawned_type(&wrapper, &connection), None);
    let wrapper = PacketWrapper::new(LOGIN, &[0x80]);
    assert_eq!(spawned_type(&wrapper, &connection), None);
}
