//! The 9-byte packet header: one type byte, a four-byte little-endian
//! sequence number, a two-byte payload length and a two-byte count of
//! the fragments still to come.

use vstd::prelude::*;

use crate::bytes::{
    decode_u16_le, decode_u32_le, lemma_u16_le_roundtrip, lemma_u32_le_roundtrip, u16_le,
    u16_le_bytes, u32_le, u32_le_bytes,
};
use crate::constants::{MessageType, HEADER_SIZE_BYTES, MAX_BUFFER_SIZE_BYTES};

verus! {

/// The header information read from a received packet.
#[derive(Debug)]
pub struct PacketData {
    pub message_type: MessageType,
    pub sequence_number: u32,
    pub payload_length: u16,
    pub remaining_messages: usize,
}

/// The nine header bytes for a raw type byte, a sequence number, a
/// payload length and a remaining-fragments count.
pub open spec fn header9(t: u8, seq: u32, plen: u16, rem: u16) -> Seq<u8> {
    seq![t] + u32_le_bytes(seq) + u16_le_bytes(plen) + u16_le_bytes(rem)
}

/// The nine header bytes for a packet type.
pub open spec fn header_bytes(t: MessageType, seq: u32, plen: u16, rem: u16) -> Seq<u8> {
    header9(t.spec_as_u8(), seq, plen, rem)
}

/// The header the decoder reads out of the first nine bytes of a buffer.
pub open spec fn decoded_header(b: Seq<u8>) -> PacketData
    recommends
        b.len() >= HEADER_SIZE_BYTES,
{
    PacketData {
        message_type: MessageType::spec_from_u8(b[0]),
        sequence_number: u32_le(b.subrange(1, 5)) as u32,
        payload_length: u16_le(b.subrange(5, 7)) as u16,
        remaining_messages: u16_le(b.subrange(7, 9)) as usize,
    }
}

/// Writes the packet header into the first nine bytes of `buffer`; the
/// rest of the buffer is the payload and is left untouched. A non-zero
/// remaining-fragments count is decremented first, so that the count on
/// the wire is the number of fragments that follow this one.
pub fn write_packet_header(
    buffer: &mut Vec<u8>,
    sequence_number: u32,
    message_type: u8,
    remaining_messages: &mut u16,
)
    requires
        HEADER_SIZE_BYTES <= old(buffer)@.len() <= MAX_BUFFER_SIZE_BYTES,
    ensures
        *final(remaining_messages) == if *old(remaining_messages) > 0 {
            *old(remaining_messages) - 1
        } else {
            0
        },
        final(buffer)@.len() == old(buffer)@.len(),
        final(buffer)@ == header9(
            message_type,
            sequence_number,
            (old(buffer)@.len() - HEADER_SIZE_BYTES) as u16,
            *final(remaining_messages),
        ) + old(buffer)@.skip(HEADER_SIZE_BYTES as int),
{
    if *remaining_messages != 0 {
        *remaining_messages = *remaining_messages - 1;
    }
    let payload_length = (buffer.len() - HEADER_SIZE_BYTES) as u16;
    buffer[0] = message_type;
    buffer[1] = (sequence_number % 0x100) as u8;
    buffer[2] = ((sequence_number / 0x100) % 0x100) as u8;
    buffer[3] = ((sequence_number / 0x1_0000) % 0x100) as u8;
    buffer[4] = ((sequence_number / 0x100_0000) % 0x100) as u8;
    buffer[5] = (payload_length % 0x100) as u8;
    buffer[6] = (payload_length / 0x100) as u8;
    buffer[7] = (*remaining_messages % 0x100) as u8;
    buffer[8] = (*remaining_messages / 0x100) as u8;
    assert(final(buffer)@ =~= header9(
        message_type,
        sequence_number,
        (old(buffer)@.len() - HEADER_SIZE_BYTES) as u16,
        *final(remaining_messages),
    ) + old(buffer)@.skip(HEADER_SIZE_BYTES as int));
}

/// Reads the header information out of the first nine bytes of a
/// received packet.
pub fn read_packet_header(buffer: &Vec<u8>) -> (packet_data: PacketData)
    requires
        buffer@.len() >= HEADER_SIZE_BYTES,
    ensures
        packet_data == decoded_header(buffer@),
{
    let message_type = MessageType::from_u8(buffer[0]);
    let sequence_number = decode_u32_le(buffer[1], buffer[2], buffer[3], buffer[4]);
    let payload_length = decode_u16_le(buffer[5], buffer[6]);
    let remaining_messages = decode_u16_le(buffer[7], buffer[8]);
    proof {
        assert(buffer@.subrange(1, 5) =~= seq![buffer@[1], buffer@[2], buffer@[3], buffer@[4]]);
        assert(buffer@.subrange(5, 7) =~= seq![buffer@[5], buffer@[6]]);
        assert(buffer@.subrange(7, 9) =~= seq![buffer@[7], buffer@[8]]);
    }
    PacketData {
        message_type,
        sequence_number,
        payload_length,
        remaining_messages: remaining_messages as usize,
    }
}

/// Decoding an encoded header gives the fields back: encode then decode
/// is the identity for every type, sequence number, payload length and
/// remaining-fragments count.
pub proof fn lemma_header_roundtrip(t: MessageType, seq: u32, plen: u16, rem: u16)
    ensures
        decoded_header(header_bytes(t, seq, plen, rem)) == (PacketData {
            message_type: t,
            sequence_number: seq,
            payload_length: plen,
            remaining_messages: rem as usize,
        }),
{
    let b = header_bytes(t, seq, plen, rem);
    assert(b.subrange(1, 5) =~= u32_le_bytes(seq));
    assert(b.subrange(5, 7) =~= u16_le_bytes(plen));
    assert(b.subrange(7, 9) =~= u16_le_bytes(rem));
    lemma_u32_le_roundtrip(seq);
    lemma_u16_le_roundtrip(plen);
    lemma_u16_le_roundtrip(rem);
    assert(MessageType::spec_from_u8(t.spec_as_u8()) == t);
}

} // verus!
