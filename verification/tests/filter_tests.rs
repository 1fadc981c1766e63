use osdd::filter::filtering;
use osdd::kafka_msg::{replace_topic, KafkaMessage};
use osdd::ring::read_from_bip_buffer;
use osdd::stats::StatsAllHandlers;

fn encoded(message: &KafkaMessage) -> Vec<u8> {
    // the broker adapters carry messages in this serialized form; a
    // tuple of the fields has the same layout as the record itself
    bincode::serialize(&(message.offset, &message.payload, &message.topic))
        .expect("serializing a kafka message")
}

#[test]
fn filtering_drops_matching_prefix_test() {
    let message = KafkaMessage::new(b"secret data", 3, "topic-a");
    let raw = encoded(&message);
    let (mut writer, _reader) = spsc_bip_buffer::bip_buffer_with_len(1 << 16);
    let mut stats = StatsAllHandlers::default();
    let word: Vec<u8> = b"secret".to_vec();
    let raw_len = raw.len();
    filtering(Some(&message), &raw, raw_len, &mut writer, &word, &mut stats);
    assert_eq!(stats.dropped_packets.load(), 1);
    assert_eq!(stats.dropped_bytes.load(), raw_len as u64);
}

#[test]
fn filtering_forwards_other_payload_test() {
    let message = KafkaMessage::new(b"harmless data", 3, "topic-a");
    let raw = encoded(&message);
    let (mut writer, mut reader) = spsc_bip_buffer::bip_buffer_with_len(1 << 16);
    let mut stats = StatsAllHandlers::default();
    let word: Vec<u8> = b"secret".to_vec();
    let raw_len = raw.len();
    filtering(Some(&message), &raw, raw_len, &mut writer, &word, &mut stats);
    assert_eq!(stats.dropped_packets.load(), 0);
    // the raw bytes went through unchanged
    let mut received: Vec<u8> = Vec::new();
    let n = read_from_bip_buffer(&mut reader, &mut received);
    assert_eq!(n, raw_len);
    assert_eq!(received, raw);
}

#[test]
fn filtering_forwards_short_payload_test() {
    // a payload shorter than the word can never match and is forwarded
    let message = KafkaMessage::new(b"sec", 0, "t");
    let raw = encoded(&message);
    let (mut writer, mut reader) = spsc_bip_buffer::bip_buffer_with_len(1 << 16);
    let mut stats = StatsAllHandlers::default();
    let word: Vec<u8> = b"secret".to_vec();
    let raw_len = raw.len();
    filtering(Some(&message), &raw, raw_len, &mut writer, &word, &mut stats);
    assert_eq!(stats.dropped_packets.load(), 0);
    let mut received: Vec<u8> = Vec::new();
    read_from_bip_buffer(&mut reader, &mut received);
    assert_eq!(received, raw);
}

#[test]
fn filtering_drops_undecodable_record_test() {
    // a record that does not decode as a message is dropped as corrupt
    let raw: Vec<u8> = vec![1, 2, 3];
    let (mut writer, _reader) = spsc_bip_buffer::bip_buffer_with_len(1 << 16);
    let mut stats = StatsAllHandlers::default();
    let word: Vec<u8> = b"secret".to_vec();
    filtering(None, &raw, 3, &mut writer, &word, &mut stats);
    assert_eq!(stats.dropped_packets.load(), 1);
    assert_eq!(stats.dropped_bytes.load(), 3);
}

#[test]
fn kafka_message_fields_test() {
    let message = KafkaMessage::new(b"payload", -7, "events");
    assert_eq!(message.payload, b"payload".to_vec());
    assert_eq!(message.offset, -7);
    assert_eq!(message.topic, "events");
}

#[test]
fn kafka_message_bincode_roundtrip_test() {
    // the serialized form the adapters exchange decodes back to the
    // same fields
    let message = KafkaMessage::new(b"some payload", 99, "topic-b");
    let raw = encoded(&message);
    let (offset, payload, topic): (i64, Vec<u8>, String) =
        bincode::deserialize(&raw).expect("deserializing a kafka message");
    assert_eq!(offset, 99);
    assert_eq!(payload, b"some payload".to_vec());
    assert_eq!(topic, "topic-b");
}

#[test]
fn replace_topic_test() {
    let replaced = replace_topic(
        "internal".to_string(),
        &"internal".to_string(),
        &"external".to_string(),
    );
    assert_eq!(replaced, "external");
    let kept = replace_topic(
        "other".to_string(),
        &"internal".to_string(),
        &"external".to_string(),
    );
    assert_eq!(kept, "other");
}
