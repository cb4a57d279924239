use pumpkin_java_multiversion::api::types::{I32, VAR_INT};
use pumpkin_java_multiversion::api::wrapper::PacketWrapper;
use pumpkin_java_multiversion::api::TranslateError;
use pumpkin_java_multiversion::packet::mappings::PacketId;

const BLOCK_UPDATE: PacketId = PacketId { key: 1, v26_3: 8 };
const SET_SCORE: PacketId = PacketId { key: 2, v26_3: 105 };

#[test]
fn a_passthrough_copies_and_finish_accepts_an_empty_input() {
    let mut wrapper = PacketWrapper::new(BLOCK_UPDATE, &[0x01, 0x00, 0x00, 0x00, 0x07]);
    assert_eq!(wrapper.passthrough(&VAR_INT).unwrap(), 1);
    assert_eq!(wrapper.passthrough(&I32).unwrap(), 7);
    let out = wrapper.finish().unwrap().unwrap();
    assert_eq!(out.payload, [0x01, 0x00, 0x00, 0x00, 0x07]);
}

#[test]
fn finish_rejects_trailing_input() {
    let mut wrapper = PacketWrapper::new(BLOCK_UPDATE, &[0x01, 0x02]);
    wrapper.passthrough(&VAR_INT).unwrap();
    assert!(matches!(wrapper.finish(), Err(TranslateError::TrailingBytes(1))));
}

#[test]
fn reset_feeds_the_next_step_what_the_last_one_wrote() {
    let mut wrapper = PacketWrapper::new(BLOCK_UPDATE, &[0x01]);
    wrapper.read(&VAR_INT).unwrap();
    wrapper.write(&VAR_INT, &9).unwrap();
    wrapper.reset();
    assert_eq!(wrapper.remaining(), [0x09]);
    wrapper.set_packet(SET_SCORE);
    wrapper.passthrough_all();
    let out = wrapper.finish().unwrap().unwrap();
    assert_eq!(out.payload, [0x09]);
    assert_eq!(out.packet, SET_SCORE);
}

#[test]
fn a_cancelled_wrapper_finishes_as_none() {
    let mut wrapper = PacketWrapper::new(BLOCK_UPDATE, &[0x01]);
    wrapper.cancel();
    assert!(wrapper.finish().unwrap().is_none());
}

#[test]
fn a_read_past_the_end_is_refused_and_reads_nothing() {
    let mut wrapper = PacketWrapper::new(BLOCK_UPDATE, &[0x00, 0x01]);
    assert!(matches!(wrapper.read(&I32), Err(TranslateError::Read)));
    assert_eq!(wrapper.remaining(), [0x00, 0x01]);
}

#[test]
fn extra_packets_and_replies_travel_with_the_translation() {
    let mut wrapper = PacketWrapper::new(BLOCK_UPDATE, &[]);
    wrapper.send_extra(SET_SCORE, vec![1, 2]);
    wrapper.send_reply(BLOCK_UPDATE, vec![3]);
    wrapper.write_bytes(&[7, 8]);
    let out = wrapper.finish().unwrap().unwrap();
    assert_eq!(out.payload, [7, 8]);
    assert_eq!(out.extra, vec![(SET_SCORE, vec![1, 2])]);
    assert_eq!(out.replies, vec![(BLOCK_UPDATE, vec![3])]);
}

#[test]
fn replacing_the_rest_reads_it_all_and_writes_the_new_bytes() {
    let mut wrapper = PacketWrapper::new(BLOCK_UPDATE, &[1, 2, 3]);
    wrapper.passthrough(&VAR_INT).unwrap();
    wrapper.replace_remaining(vec![9, 9]);
    assert!(wrapper.is_cancelled() == false);
    assert_eq!(wrapper.finish().unwrap().unwrap().payload, [1, 9, 9]);
}

#[test]
fn reset_with_nothing_read_or_written_keeps_the_input() {
    let mut wrapper = PacketWrapper::new(BLOCK_UPDATE, &[5, 6]);
    wrapper.reset();
    assert_eq!(wrapper.remaining(), [5, 6]);
    wrapper.consume_remaining();
    assert_eq!(wrapper.finish().unwrap().unwrap().payload, Vec::<u8>::new());
}
