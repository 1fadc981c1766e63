use osdd::constants::{MessageType, HEADER_SIZE_BYTES, MAX_BUFFER_SIZE_BYTES, MAX_PAYLOAD_SIZE_BYTES};
use osdd::header::{read_packet_header, write_packet_header};

#[test]
fn serialization_test() {
    let mut buffer: Vec<u8> = vec![0; MAX_BUFFER_SIZE_BYTES];
    buffer[9] = 12;
    buffer[10] = 13;
    buffer[40] = 50;
    buffer[128] = 254;
    buffer[500] = 0;
    buffer[MAX_BUFFER_SIZE_BYTES - 1] = 81;
    let message_type = MessageType::Data;
    let sequence_number: u32 = 227;
    let mut remaining: u16 = 0;
    write_packet_header(
        &mut buffer,
        sequence_number,
        MessageType::as_u8(message_type),
        &mut remaining,
    );
    //Check if serialization went as expected.
    //Check all edge cases
    let seq_bytes = 227u32.to_le_bytes();
    let len_bytes = ((MAX_BUFFER_SIZE_BYTES - HEADER_SIZE_BYTES) as u16).to_le_bytes();
    let remaining_messages = 0;
    //check message type
    assert_eq!(buffer[0], MessageType::Data.as_u8());
    //check sequence number
    assert_eq!(buffer[1], seq_bytes[0]);
    assert_eq!(buffer[2], seq_bytes[1]);
    assert_eq!(buffer[3], seq_bytes[2]);
    assert_eq!(buffer[4], seq_bytes[3]);
    //check payload length
    assert_eq!(buffer[5], len_bytes[0]);
    assert_eq!(buffer[6], len_bytes[1]);
    //check remaining messages
    assert_eq!(buffer[7], remaining_messages);
    assert_eq!(buffer[8], remaining_messages);
    //check edge cases inside payload
    assert_eq!(buffer[9], 12);
    assert_eq!(buffer[10], 13);
    assert_eq!(buffer[40], 50);
    assert_eq!(buffer[128], 254);
    assert_eq!(buffer[500], 0);
    assert_eq!(buffer[MAX_BUFFER_SIZE_BYTES - 1], 81);
}

#[test]
fn read_writer_packet_header_test() {
    let mut buffer: Vec<u8> = vec![0; MAX_BUFFER_SIZE_BYTES];
    let sequence_number = 12;
    let message_type = MessageType::Data.as_u8();
    let mut remaining_messages: u16 = 3;
    write_packet_header(
        &mut buffer,
        sequence_number,
        message_type,
        &mut remaining_messages,
    );
    let packet_header = read_packet_header(&buffer);
    assert_eq!(packet_header.message_type.as_u8(), message_type);
    assert_eq!(packet_header.payload_length, MAX_PAYLOAD_SIZE_BYTES as u16);
    assert_eq!(
        packet_header.remaining_messages,
        remaining_messages as usize
    );
}

#[test]
fn header_roundtrip_all_fields_test() {
    // encode then decode is the identity on every field
    let cases: Vec<(MessageType, u32, u16)> = vec![
        (MessageType::StartUp, 0, 0),
        (MessageType::HeartBeat, 1, 1),
        (MessageType::DataFirst, 0xFFFF_FFFF, 16),
        (MessageType::Data, 1_000_000, 0xFFFF),
        (MessageType::Shutdown, 42, 7),
    ];
    for (t, seq, rem) in cases {
        let payload_length: usize = 100;
        let mut buffer: Vec<u8> = vec![0xAA; HEADER_SIZE_BYTES + payload_length];
        // write_packet_header decrements a non-zero remaining count first
        let mut rem_in = rem;
        write_packet_header(&mut buffer, seq, t.as_u8(), &mut rem_in);
        let expected_rem = if rem > 0 { rem - 1 } else { 0 };
        assert_eq!(rem_in, expected_rem);
        let header = read_packet_header(&buffer);
        assert_eq!(header.message_type.as_u8(), t.as_u8());
        assert_eq!(header.sequence_number, seq);
        assert_eq!(header.payload_length, payload_length as u16);
        assert_eq!(header.remaining_messages, expected_rem as usize);
    }
}

#[test]
fn message_type_codes_test() {
    assert_eq!(MessageType::StartUp.as_u8(), 1);
    assert_eq!(MessageType::HeartBeat.as_u8(), 2);
    assert_eq!(MessageType::DataFirst.as_u8(), 3);
    assert_eq!(MessageType::Data.as_u8(), 4);
    assert_eq!(MessageType::Shutdown.as_u8(), 5);
    for byte in 1u8..=5 {
        assert_eq!(MessageType::from_u8(byte).as_u8(), byte);
    }
    // every unknown type byte reads as DataFirst
    assert_eq!(MessageType::from_u8(0), MessageType::DataFirst);
    assert_eq!(MessageType::from_u8(6), MessageType::DataFirst);
    assert_eq!(MessageType::from_u8(255), MessageType::DataFirst);
}
