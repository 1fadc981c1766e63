use osdd::constants::{MessageType, HEADER_SIZE_BYTES, MAX_PAYLOAD_SIZE_BYTES};
use osdd::header::read_packet_header;
use osdd::tx::{build_data_packets, build_special_packet};

#[test]
fn single_fragment_message_test() {
    // a message below the payload limit becomes one DataFirst packet
    let message: Vec<u8> = vec![0x00, 0x01];
    let mut sequence: u32 = 5;
    let packets = build_data_packets(&message, &mut sequence);
    assert_eq!(packets.len(), 1);
    assert_eq!(sequence, 6);
    let header = read_packet_header(&packets[0]);
    assert_eq!(header.message_type, MessageType::DataFirst);
    assert_eq!(header.sequence_number, 5);
    assert_eq!(header.payload_length, 2);
    assert_eq!(header.remaining_messages, 0);
    assert_eq!(&packets[0][HEADER_SIZE_BYTES..], &[0x00, 0x01]);
}

#[test]
fn exact_boundary_message_test() {
    // a message of exactly one payload still takes a single packet
    let message: Vec<u8> = vec![9; MAX_PAYLOAD_SIZE_BYTES];
    let mut sequence: u32 = 0;
    let packets = build_data_packets(&message, &mut sequence);
    assert_eq!(packets.len(), 1);
    let header = read_packet_header(&packets[0]);
    assert_eq!(header.message_type, MessageType::DataFirst);
    assert_eq!(header.payload_length, MAX_PAYLOAD_SIZE_BYTES as u16);
    assert_eq!(header.remaining_messages, 0);
    assert_eq!(packets[0].len(), HEADER_SIZE_BYTES + MAX_PAYLOAD_SIZE_BYTES);
}

#[test]
fn one_byte_over_boundary_test() {
    // one byte more than a payload spills into a second, one-byte packet
    let message: Vec<u8> = vec![3; MAX_PAYLOAD_SIZE_BYTES + 1];
    let mut sequence: u32 = 0;
    let packets = build_data_packets(&message, &mut sequence);
    assert_eq!(packets.len(), 2);
    let first = read_packet_header(&packets[0]);
    assert_eq!(first.message_type, MessageType::DataFirst);
    assert_eq!(first.payload_length, MAX_PAYLOAD_SIZE_BYTES as u16);
    assert_eq!(first.remaining_messages, 1);
    let second = read_packet_header(&packets[1]);
    assert_eq!(second.message_type, MessageType::Data);
    assert_eq!(second.payload_length, 1);
    assert_eq!(second.remaining_messages, 0);
    assert_eq!(second.sequence_number, 1);
}

#[test]
fn megabyte_message_fragments_test() {
    // a 1,048,576-byte message becomes 17 packets, the last carrying 608 bytes
    let message: Vec<u8> = (0..1_048_576).map(|i| (i % 256) as u8).collect();
    let mut sequence: u32 = 0;
    let packets = build_data_packets(&message, &mut sequence);
    assert_eq!(packets.len(), 17);
    assert_eq!(sequence, 17);
    let first = read_packet_header(&packets[0]);
    assert_eq!(first.message_type, MessageType::DataFirst);
    assert_eq!(first.remaining_messages, 16);
    assert_eq!(first.payload_length, MAX_PAYLOAD_SIZE_BYTES as u16);
    for i in 1..17 {
        let header = read_packet_header(&packets[i]);
        assert_eq!(header.message_type, MessageType::Data);
        assert_eq!(header.sequence_number, i as u32);
        assert_eq!(header.remaining_messages, 16 - i);
    }
    let last = read_packet_header(&packets[16]);
    assert_eq!(last.payload_length, 608);
    // the payloads carry the message, in order and byte-identical
    let mut reassembled: Vec<u8> = Vec::new();
    for packet in &packets {
        reassembled.extend_from_slice(&packet[HEADER_SIZE_BYTES..]);
    }
    assert_eq!(reassembled, message);
}

#[test]
fn sequence_counter_wraps_test() {
    let message: Vec<u8> = vec![1; 10];
    let mut sequence: u32 = u32::MAX;
    let packets = build_data_packets(&message, &mut sequence);
    let header = read_packet_header(&packets[0]);
    assert_eq!(header.sequence_number, u32::MAX);
    assert_eq!(sequence, 0);
}

#[test]
fn special_packet_test() {
    // a sentinel is a bare header: type, sequence, no payload, no fragments
    let startup = build_special_packet(MessageType::StartUp, 0);
    assert_eq!(startup, vec![1, 0, 0, 0, 0, 0, 0, 0, 0]);
    let shutdown = build_special_packet(MessageType::Shutdown, 0x01020304);
    assert_eq!(shutdown, vec![5, 0x04, 0x03, 0x02, 0x01, 0, 0, 0, 0]);
    let header = read_packet_header(&shutdown);
    assert_eq!(header.message_type, MessageType::Shutdown);
    assert_eq!(header.sequence_number, 0x01020304);
    assert_eq!(header.payload_length, 0);
    assert_eq!(header.remaining_messages, 0);
}
