use pumpkin_java_multiversion::api::rewriter::chat::{
    chat_type_to_id, decorate, delete_chat_to_1_19_1, filter_mask, signed_head,
};
use pumpkin_java_multiversion::api::wrapper::PacketWrapper;
use pumpkin_java_multiversion::api::TranslateError;
use pumpkin_java_multiversion::codec::{write_i64, write_prefixed, write_u128, write_var_int};
use pumpkin_java_multiversion::packet::mappings::PacketId;

const PLAYER_CHAT: PacketId = PacketId { key: 3, v26_3: 63 };

#[test]
fn every_26_3_chat_type_has_a_decoration() {
    let message = decorate(4, "bob", None, "hi", "").unwrap();
    assert_eq!(message.key, "chat.type.announcement");
    assert_eq!(message.with, vec!["bob", "hi"]);
    for chat_type in 0..8 {
        assert!(decorate(chat_type, "a", None, "b", "").is_ok());
    }
    assert!(matches!(decorate(8, "", None, "", ""), Err(TranslateError::Unsupported("chat type"))));
    assert!(decorate(-1, "", None, "", "").is_err());
}

#[test]
fn a_team_message_names_its_target_first() {
    let message = decorate(5, "bob", Some("red"), "hi", "").unwrap();
    assert_eq!(message.key, "chat.type.team.text");
    assert_eq!(message.with, vec!["red", "bob", "hi"]);
    let message = decorate(3, "bob", None, "hi", "nobody").unwrap();
    assert_eq!(message.with, vec!["nobody", "hi"]);
    let raw = decorate(7, "bob", None, "hi", "").unwrap();
    assert_eq!(raw.key, "%s");
    assert_eq!(raw.with, vec!["hi"]);
}

fn head(signed: bool, previous: i32, packed: &[i32]) -> Vec<u8> {
    let mut out = Vec::new();
    write_u128(&mut out, 42);
    write_var_int(&mut out, 3);
    out.push(u8::from(signed));
    if signed {
        out.extend([0xab; 256]);
    }
    write_prefixed(&mut out, b"hello");
    write_i64(&mut out, 1);
    write_i64(&mut out, 2);
    write_var_int(&mut out, previous);
    for &id in packed {
        write_var_int(&mut out, id);
        if id == 0 {
            out.extend([0xcd; 256]);
        }
    }
    out
}

#[test]
fn the_signed_head_gives_the_text_and_is_kept_or_dropped() {
    let payload = head(true, 2, &[0, 5]);
    let mut wrapper = PacketWrapper::new(PLAYER_CHAT, &payload);
    assert_eq!(signed_head(&mut wrapper, true).unwrap(), b"hello".to_vec());
    assert_eq!(wrapper.finish().unwrap().unwrap().payload, payload);

    let mut wrapper = PacketWrapper::new(PLAYER_CHAT, &payload);
    assert_eq!(signed_head(&mut wrapper, false).unwrap(), b"hello".to_vec());
    assert_eq!(wrapper.finish().unwrap().unwrap().payload, Vec::<u8>::new());
}

#[test]
fn a_last_seen_list_past_twenty_is_unsupported() {
    let payload = head(false, 21, &[]);
    let mut wrapper = PacketWrapper::new(PLAYER_CHAT, &payload);
    assert!(matches!(signed_head(&mut wrapper, true), Err(TranslateError::Unsupported("last seen count"))));
    let cut = head(true, 0, &[]);
    let mut wrapper = PacketWrapper::new(PLAYER_CHAT, &cut[..100]);
    assert!(matches!(signed_head(&mut wrapper, false), Err(TranslateError::Read)));
}

#[test]
fn a_partial_filter_carries_a_bit_set() {
    let mut payload = Vec::new();
    write_var_int(&mut payload, 2);
    write_var_int(&mut payload, 1);
    write_i64(&mut payload, 5);
    let mut wrapper = PacketWrapper::new(PLAYER_CHAT, &payload);
    filter_mask(&mut wrapper, true).unwrap();
    assert_eq!(wrapper.finish().unwrap().unwrap().payload, payload);
    let mut wrapper = PacketWrapper::new(PLAYER_CHAT, &[1]);
    filter_mask(&mut wrapper, false).unwrap();
    assert_eq!(wrapper.finish().unwrap().unwrap().payload, Vec::<u8>::new());
}

#[test]
fn a_chat_type_holder_becomes_its_registry_id() {
    let mut wrapper = PacketWrapper::new(PLAYER_CHAT, &[5]);
    chat_type_to_id(&mut wrapper).unwrap();
    assert_eq!(wrapper.finish().unwrap().unwrap().payload, [4]);
    let mut wrapper = PacketWrapper::new(PLAYER_CHAT, &[0]);
    assert!(matches!(chat_type_to_id(&mut wrapper), Err(TranslateError::Unsupported("inline chat type"))));
}

#[test]
fn a_deleted_message_sends_its_whole_signature() {
    let mut payload = vec![0];
    payload.extend([7; 256]);
    let mut wrapper = PacketWrapper::new(PLAYER_CHAT, &payload);
    delete_chat_to_1_19_1(&mut wrapper).unwrap();
    let out = wrapper.finish().unwrap().unwrap().payload;
    assert_eq!(&out[..2], &[0x80, 0x02]);
    assert_eq!(&out[2..], &[7; 256][..]);
    let mut wrapper = PacketWrapper::new(PLAYER_CHAT, &[3]);
    assert!(matches!(delete_chat_to_1_19_1(&mut wrapper), Err(TranslateError::Unsupported("packed signature id"))));
}
