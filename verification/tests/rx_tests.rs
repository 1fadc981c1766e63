use osdd::constants::{
    MessageType, BIP_BUFFER_LEN_FIELD_LEN, MAX_BIP_BUFFER_MESSAGE_SIZE, MAX_PAYLOAD_SIZE_BYTES,
};
use osdd::header::PacketData;
use osdd::ring::read_from_bip_buffer;
use osdd::rx::{check_for_packetloss, InnerUdpReceiver, State};
use osdd::stats::StatsAllHandlers;
use osdd::tx::{build_data_packets, build_special_packet};

fn new_receiver() -> (InnerUdpReceiver, spsc_bip_buffer::BipBufferReader) {
    let (writer, reader) = spsc_bip_buffer::bip_buffer_with_len(MAX_BIP_BUFFER_MESSAGE_SIZE * 10);
    (
        InnerUdpReceiver::new(writer, StatsAllHandlers::default()),
        reader,
    )
}

/// Places one packet in the receiver's datagram buffer and applies it.
fn feed(receiver: &mut InnerUdpReceiver, packet: &[u8]) -> bool {
    receiver.packet_buffer[..packet.len()].copy_from_slice(packet);
    receiver.handle_packet()
}

#[test]
fn update_state_1_message_test() {
    let packet_header = PacketData {
        message_type: MessageType::Data,
        payload_length: 0,
        remaining_messages: 0,
        sequence_number: 0,
    };

    //check initial state
    let (mut inner_receiver, _reader) = new_receiver();
    assert_eq!(inner_receiver.state, State::WaitingForFirstData);
    //update and check state for first message
    inner_receiver.update_state(&packet_header);
    assert_eq!(inner_receiver.state, State::WaitingForFirstData);
}

#[test]
fn update_state_2_messages_test() {
    let mut packet_header = PacketData {
        message_type: MessageType::DataFirst,
        payload_length: MAX_PAYLOAD_SIZE_BYTES as u16,
        remaining_messages: 1,
        sequence_number: 0,
    };

    //check initial state
    let (mut inner_receiver, _reader) = new_receiver();
    assert_eq!(inner_receiver.state, State::WaitingForFirstData);
    //update state for first message
    inner_receiver.update_state(&packet_header);
    assert_eq!(inner_receiver.state, State::WaitingForData(2));
    //update packet header and state
    packet_header.remaining_messages = 0;
    packet_header.sequence_number = 1;
    packet_header.message_type = MessageType::Data;
    inner_receiver.update_state(&packet_header);

    //check final state
    assert_eq!(inner_receiver.state, State::WaitingForFirstData);
}

#[test]
fn update_state_16_messages_test() {
    let mut packet_header = PacketData {
        message_type: MessageType::DataFirst,
        payload_length: MAX_PAYLOAD_SIZE_BYTES as u16,
        remaining_messages: 15,
        sequence_number: 0,
    };

    //check initial state
    let (mut inner_receiver, _reader) = new_receiver();
    assert_eq!(inner_receiver.state, State::WaitingForFirstData);
    //update state for first message
    inner_receiver.update_state(&packet_header);
    assert_eq!(inner_receiver.state, State::WaitingForData(16));

    //update packet header and state for other messages
    for i in 0..14 {
        packet_header.remaining_messages -= 1;
        packet_header.message_type = MessageType::Data;
        packet_header.sequence_number = i as u32 + 1;
        inner_receiver.update_state(&packet_header);
        assert_eq!(inner_receiver.state, State::WaitingForData(16));
    }

    //check state and update packet header for final packet
    packet_header.remaining_messages -= 1;
    packet_header.sequence_number = 15;
    packet_header.message_type = MessageType::Data;
    packet_header.payload_length = 10;
    inner_receiver.update_state(&packet_header);
    assert_eq!(inner_receiver.state, State::WaitingForFirstData);
}

#[test]
fn packetloss_accounting_test() {
    let mut stats = StatsAllHandlers::default();

    //check against 0: a zero sequence number is a sentinel, never loss
    let mut current: u32 = 0;
    assert_eq!(check_for_packetloss(0, &mut current, &mut stats), 0);
    assert_eq!(stats.packetloss.load(), 0);

    //check an expected increase in sequence number
    current = 0;
    assert_eq!(check_for_packetloss(1, &mut current, &mut stats), 0);
    assert_eq!(stats.packetloss.load(), 0);
    assert_eq!(current, 1);

    //a gap of one
    current = 0;
    assert_eq!(check_for_packetloss(2, &mut current, &mut stats), 1);
    assert_eq!(stats.packetloss.load(), 1);

    //a gap of two
    let mut stats = StatsAllHandlers::default();
    current = 0;
    assert_eq!(check_for_packetloss(3, &mut current, &mut stats), 2);
    assert_eq!(stats.packetloss.load(), 2);

    //loss accumulates over multiple iterations: with k packets dropped
    //in total, the counter has grown by exactly k
    let mut stats = StatsAllHandlers::default();
    current = 0;
    check_for_packetloss(1, &mut current, &mut stats);
    assert_eq!(stats.packetloss.load(), 0);
    check_for_packetloss(4, &mut current, &mut stats);
    assert_eq!(stats.packetloss.load(), 2);
    check_for_packetloss(20, &mut current, &mut stats);
    //expect 15 lost + 2 previously lost packets.
    assert_eq!(stats.packetloss.load(), 17);
    assert_eq!(current, 20);

    //an out-of-order (lower) number is not counted as loss
    let mut stats = StatsAllHandlers::default();
    current = 10;
    assert_eq!(check_for_packetloss(4, &mut current, &mut stats), 0);
    assert_eq!(stats.packetloss.load(), 0);
    assert_eq!(current, 4);
}

#[test]
fn single_small_message_chain_test() {
    // one 2-byte record through the sender and receiver arrives intact
    let message: Vec<u8> = vec![0x00, 0x01];
    let mut sequence: u32 = 0;
    let packets = build_data_packets(&message, &mut sequence);
    assert_eq!(packets.len(), 1);

    let (mut receiver, mut reader) = new_receiver();
    assert!(feed(&mut receiver, &packets[0]));
    let mut received: Vec<u8> = Vec::new();
    let n = read_from_bip_buffer(&mut reader, &mut received);
    assert_eq!(n, 2);
    assert_eq!(received, vec![0x00, 0x01]);
}

#[test]
fn exactly_one_fragment_boundary_test() {
    // a payload-sized record crosses in one datagram and arrives intact
    let message: Vec<u8> = (0..MAX_PAYLOAD_SIZE_BYTES).map(|i| (i % 251) as u8).collect();
    let mut sequence: u32 = 0;
    let packets = build_data_packets(&message, &mut sequence);
    assert_eq!(packets.len(), 1);

    let (mut receiver, mut reader) = new_receiver();
    assert!(feed(&mut receiver, &packets[0]));
    let mut received: Vec<u8> = Vec::new();
    let n = read_from_bip_buffer(&mut reader, &mut received);
    assert_eq!(n, MAX_PAYLOAD_SIZE_BYTES);
    assert_eq!(received, message);
}

#[test]
fn multi_fragment_message_test() {
    // seventeen datagrams reassemble byte-identically
    let message: Vec<u8> = (0..1_048_576).map(|i| (i % 256) as u8).collect();
    let mut sequence: u32 = 0;
    let packets = build_data_packets(&message, &mut sequence);
    assert_eq!(packets.len(), 17);

    let (mut receiver, mut reader) = new_receiver();
    for packet in &packets {
        assert!(feed(&mut receiver, packet));
    }
    assert_eq!(receiver.state, State::WaitingForFirstData);
    let mut received: Vec<u8> = Vec::new();
    let n = read_from_bip_buffer(&mut reader, &mut received);
    assert_eq!(n, 1_048_576);
    assert_eq!(received, message);
}

#[test]
fn drop_middle_fragment_test() {
    // with the 8th datagram dropped, loss is counted, the state machine
    // goes back to waiting, and no record is published for the message
    let message: Vec<u8> = (0..1_048_576).map(|i| (i % 256) as u8).collect();
    let mut sequence: u32 = 0;
    let packets = build_data_packets(&message, &mut sequence);

    let (mut receiver, _reader) = new_receiver();
    for (i, packet) in packets.iter().enumerate() {
        if i == 7 {
            continue; // the dropped datagram
        }
        assert!(feed(&mut receiver, packet));
    }
    assert_eq!(receiver.stats_data.packetloss.load(), 1);
    assert_eq!(receiver.state, State::WaitingForFirstData);
    // nothing was published: no bytes went out
    assert_eq!(receiver.stats_data.out_bytes.load(), 0);
}

#[test]
fn startup_burst_survives_loss_test() {
    // 199 of the 200 StartUp packets are dropped; the surviving one
    // still resets the sequence number
    let (mut receiver, _reader) = new_receiver();
    // disturb the receiver first: a gap moves its sequence number up
    let message: Vec<u8> = vec![7; 100];
    let mut sequence: u32 = 41;
    let packets = build_data_packets(&message, &mut sequence);
    feed(&mut receiver, &packets[0]);
    assert_eq!(receiver.current_sequence_number, 41);

    let startup_burst: Vec<Vec<u8>> = (0..200)
        .map(|_| build_special_packet(MessageType::StartUp, 0))
        .collect();
    // only the 73rd of the burst survives the link
    assert!(feed(&mut receiver, &startup_burst[73]));
    assert_eq!(receiver.current_sequence_number, 0);
    assert_eq!(receiver.state, State::WaitingForFirstData);
}

#[test]
fn ring_backpressure_test() {
    // with the outbound ring sized for one message, the second of two
    // back-to-back messages is dropped and counted, never blocking
    let message: Vec<u8> = (0..1_048_576).map(|i| (i % 256) as u8).collect();
    let mut sequence: u32 = 0;
    let first = build_data_packets(&message, &mut sequence);
    let second = build_data_packets(&message, &mut sequence);

    let (writer, mut reader) = spsc_bip_buffer::bip_buffer_with_len(MAX_BIP_BUFFER_MESSAGE_SIZE);
    let mut receiver = InnerUdpReceiver::new(writer, StatsAllHandlers::default());
    for packet in first.iter().chain(second.iter()) {
        assert!(feed(&mut receiver, packet));
    }
    assert_eq!(
        receiver.stats_data.dropped_bytes.load(),
        (1_048_576 + BIP_BUFFER_LEN_FIELD_LEN) as u64
    );
    // exactly one record was published, equal to the first message
    let mut received: Vec<u8> = Vec::new();
    let n = read_from_bip_buffer(&mut reader, &mut received);
    assert_eq!(n, 1_048_576);
    assert_eq!(received, message);
}

#[test]
fn shutdown_ends_loop_test() {
    let (mut receiver, _reader) = new_receiver();
    let shutdown = build_special_packet(MessageType::Shutdown, 0);
    assert!(!feed(&mut receiver, &shutdown));
}

#[test]
fn heartbeat_keeps_state_test() {
    let (mut receiver, _reader) = new_receiver();
    let message: Vec<u8> = vec![1; MAX_PAYLOAD_SIZE_BYTES + 1];
    let mut sequence: u32 = 0;
    let packets = build_data_packets(&message, &mut sequence);
    feed(&mut receiver, &packets[0]);
    assert_eq!(receiver.state, State::WaitingForData(2));
    let heartbeat = build_special_packet(MessageType::HeartBeat, 1);
    assert!(feed(&mut receiver, &heartbeat));
    assert_eq!(receiver.state, State::WaitingForData(2));
}

#[test]
fn in_stats_counted_test() {
    let (mut receiver, mut reader) = new_receiver();
    let message: Vec<u8> = vec![5; 100];
    let mut sequence: u32 = 0;
    let packets = build_data_packets(&message, &mut sequence);
    feed(&mut receiver, &packets[0]);
    assert_eq!(receiver.stats_data.in_packets.load(), 1);
    assert_eq!(receiver.stats_data.in_bytes.load(), 100);
    assert_eq!(
        receiver.stats_data.out_bytes.load(),
        (100 + BIP_BUFFER_LEN_FIELD_LEN) as u64
    );
    let mut received: Vec<u8> = Vec::new();
    read_from_bip_buffer(&mut reader, &mut received);
    assert_eq!(received, message);
}
