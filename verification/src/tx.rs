//! The sending side of the transport: splitting one application
//! message into tagged packets, and building the sentinel packets that
//! bracket the stream.

use vstd::prelude::*;

use crate::bytes::{push_u16_le, push_u32_le, u16_le_bytes, u32_le_bytes};
use crate::constants::{MessageType, HEADER_SIZE_BYTES, MAX_PAYLOAD_SIZE_BYTES};
use crate::header::{header9, header_bytes};

verus! {

/// A sequence number `steps` packets after `s0`; the counter wraps at
/// the 32-bit boundary.
pub open spec fn seq_after(s0: u32, steps: int) -> u32 {
    ((s0 + steps) % 0x1_0000_0000) as u32
}

/// How many packets a message of `len` bytes takes: one per started
/// payload-sized piece, and a single empty packet for an empty message.
pub open spec fn spec_packet_count(len: int) -> int {
    if len <= 0 {
        1
    } else {
        (len - 1) / (MAX_PAYLOAD_SIZE_BYTES as int) + 1
    }
}

/// The bytes of the `i`-th payload-sized piece of a message: a full
/// piece, or whatever is left for the last one.
pub open spec fn chunk(m: Seq<u8>, i: int) -> Seq<u8> {
    let p = MAX_PAYLOAD_SIZE_BYTES as int;
    m.subrange(
        i * p,
        if (i + 1) * p <= m.len() {
            (i + 1) * p
        } else {
            m.len() as int
        },
    )
}

/// The whole `i`-th packet of a message first sent under sequence
/// number `s0`: the first packet is tagged DataFirst, the rest Data;
/// the remaining-fragments count runs down to zero in the last.
pub open spec fn spec_fragment(m: Seq<u8>, s0: u32, i: int) -> Seq<u8> {
    let count = spec_packet_count(m.len() as int);
    let t = if i == 0 {
        MessageType::DataFirst
    } else {
        MessageType::Data
    };
    header9(t.spec_as_u8(), seq_after(s0, i), chunk(m, i).len() as u16, (count - 1 - i) as u16)
        + chunk(m, i)
}

/// Splits one application message into the packets the sender emits
/// for it, in order, and advances the sequence counter by one per
/// packet. Fragments of one message are never interleaved with
/// another's: the caller sends the returned packets back to back.
pub fn build_data_packets(message: &Vec<u8>, sequence_number: &mut u32) -> (packets: Vec<Vec<u8>>)
    requires
        message@.len() <= MAX_PAYLOAD_SIZE_BYTES * 0xFFFF,
    ensures
        packets@.len() == spec_packet_count(message@.len() as int),
        forall|i: int|
            0 <= i < packets@.len() ==> #[trigger] packets@[i]@ == spec_fragment(
                message@,
                *old(sequence_number),
                i,
            ),
        *final(sequence_number) == seq_after(*old(sequence_number), packets@.len() as int),
{
    let ghost s0 = *sequence_number;
    let p = MAX_PAYLOAD_SIZE_BYTES;
    let len = message.len();
    let count: usize = if len == 0 {
        1
    } else {
        (len - 1) / p + 1
    };
    assert(count == spec_packet_count(len as int));
    assert(count <= 0xFFFF) by {
        if len > 0 {
            assert((len - 1) / (MAX_PAYLOAD_SIZE_BYTES as int) < 0xFFFF) by (nonlinear_arith)
                requires
                    0 < len <= MAX_PAYLOAD_SIZE_BYTES * 0xFFFF,
            ;
        }
    }
    let mut packets: Vec<Vec<u8>> = Vec::new();
    let mut i: usize = 0;
    while i < count
        invariant
            count == spec_packet_count(len as int),
            count <= 0xFFFF,
            len == message@.len(),
            len <= MAX_PAYLOAD_SIZE_BYTES * 0xFFFF,
            p == MAX_PAYLOAD_SIZE_BYTES,
            i <= count,
            packets@.len() == i,
            forall|j: int|
                0 <= j < i ==> #[trigger] packets@[j]@ == spec_fragment(message@, s0, j),
            *sequence_number == seq_after(s0, i as int),
        decreases count - i,
    {
        assert(i * p + p <= count * p <= 0xFFFF * (MAX_PAYLOAD_SIZE_BYTES as int))
            by (nonlinear_arith)
            requires
                i < count <= 0xFFFF,
                p == MAX_PAYLOAD_SIZE_BYTES,
        ;
        let start = i * p;
        let end = if start + p <= len {
            start + p
        } else {
            len
        };
        assert(start < end <= len || (len == 0 && start == 0 && end == 0)) by {
            if len > 0 {
                assert(i * p < len) by (nonlinear_arith)
                    requires
                        i < count,
                        count == (len - 1) / (p as int) + 1,
                        p == MAX_PAYLOAD_SIZE_BYTES,
                        0 < len,
                ;
            }
        }
        let t = if i == 0 {
            MessageType::DataFirst
        } else {
            MessageType::Data
        };
        let mut pkt: Vec<u8> = Vec::new();
        pkt.push(t.as_u8());
        push_u32_le(&mut pkt, *sequence_number);
        push_u16_le(&mut pkt, (end - start) as u16);
        push_u16_le(&mut pkt, (count - 1 - i) as u16);
        assert(pkt@ =~= header9(
            t.spec_as_u8(),
            seq_after(s0, i as int),
            (end - start) as u16,
            (count - 1 - i) as u16,
        ));
        let mut j = start;
        while j < end
            invariant
                start <= j <= end <= len,
                len == message@.len(),
                pkt@ == header9(
                    t.spec_as_u8(),
                    seq_after(s0, i as int),
                    (end - start) as u16,
                    (count - 1 - i) as u16,
                ) + message@.subrange(start as int, j as int),
            decreases end - j,
        {
            pkt.push(message[j]);
            assert(pkt@ =~= header9(
                t.spec_as_u8(),
                seq_after(s0, i as int),
                (end - start) as u16,
                (count - 1 - i) as u16,
            ) + message@.subrange(start as int, j + 1));
            j = j + 1;
        }
        proof {
            assert(chunk(message@, i as int) =~= message@.subrange(start as int, end as int));
            assert(pkt@ == spec_fragment(message@, s0, i as int));
        }
        *sequence_number = sequence_number.wrapping_add(1);
        proof {
            lemma_seq_after_step(s0, i as int);
        }
        packets.push(pkt);
        i = i + 1;
    }
    packets
}

/// Advancing a wrapped counter by one more step is wrapping the sum.
pub proof fn lemma_seq_after_step(s0: u32, i: int)
    requires
        i >= 0,
    ensures
        (seq_after(s0, i) + 1) % 0x1_0000_0000 == seq_after(s0, i + 1),
{
    let m = 0x1_0000_0000;
    assert(((s0 + i) % m + 1) % m == (s0 + i + 1) % m) by (nonlinear_arith)
        requires
            m == 0x1_0000_0000,
            s0 + i >= 0,
    ;
}

/// Builds one sentinel packet: a bare header with no payload, carrying
/// the given type and sequence number.
pub fn build_special_packet(message_type: MessageType, sequence_number: u32) -> (packet: Vec<u8>)
    ensures
        packet@ == header_bytes(message_type, sequence_number, 0, 0),
        packet@.len() == HEADER_SIZE_BYTES,
{
    let mut packet: Vec<u8> = Vec::new();
    packet.push(message_type.as_u8());
    push_u32_le(&mut packet, sequence_number);
    push_u16_le(&mut packet, 0);
    push_u16_le(&mut packet, 0);
    assert(packet@ =~= header_bytes(message_type, sequence_number, 0, 0));
    packet
}

/// All the packets one message becomes, in sending order.
pub open spec fn fragment_packets(m: Seq<u8>, s0: u32) -> Seq<Seq<u8>> {
    Seq::new(spec_packet_count(m.len() as int) as nat, |i: int| spec_fragment(m, s0, i))
}

/// A message that fits some number of packets takes between one and
/// as many packets as the remaining-fragments field can count.
pub proof fn lemma_packet_count_bound(len: int)
    requires
        0 <= len <= MAX_PAYLOAD_SIZE_BYTES * 0xFFFF,
    ensures
        1 <= spec_packet_count(len) <= 0xFFFF,
{
    if len > 0 {
        let p = MAX_PAYLOAD_SIZE_BYTES as int;
        assert((len - 1) / p < 0xFFFF) by (nonlinear_arith)
            requires
                0 < len <= MAX_PAYLOAD_SIZE_BYTES * 0xFFFF,
                p == MAX_PAYLOAD_SIZE_BYTES,
        ;
        assert((len - 1) / p >= 0) by (nonlinear_arith)
            requires
                0 < len,
                p == MAX_PAYLOAD_SIZE_BYTES,
        ;
    }
}

/// Every piece but the last is a full payload.
pub proof fn lemma_chunk_full(m: Seq<u8>, i: int)
    requires
        0 < m.len(),
        0 <= i < spec_packet_count(m.len() as int) - 1,
    ensures
        chunk(m, i).len() == MAX_PAYLOAD_SIZE_BYTES,
{
    let p = MAX_PAYLOAD_SIZE_BYTES as int;
    let len = m.len() as int;
    assert(((len - 1) / p) * p <= len - 1) by (nonlinear_arith)
        requires
            p == MAX_PAYLOAD_SIZE_BYTES,
            len >= 1,
    ;
    assert((i + 1) * p <= ((len - 1) / p) * p && 0 <= i * p && i * p + p == (i + 1) * p)
        by (nonlinear_arith)
        requires
            p == MAX_PAYLOAD_SIZE_BYTES,
            0 <= i,
            i + 1 <= (len - 1) / p,
    ;
}

/// The last piece carries what is left: at least one byte, at most a
/// full payload.
pub proof fn lemma_chunk_last(m: Seq<u8>)
    requires
        0 < m.len(),
    ensures
        ({
            let count = spec_packet_count(m.len() as int);
            let p = MAX_PAYLOAD_SIZE_BYTES as int;
            chunk(m, count - 1).len() == m.len() - (count - 1) * p && 0 < chunk(
                m,
                count - 1,
            ).len() <= p
        }),
{
    let p = MAX_PAYLOAD_SIZE_BYTES as int;
    let len = m.len() as int;
    let q = (len - 1) / p;
    assert(q * p <= len - 1 && len - 1 < (q + 1) * p && q >= 0) by (nonlinear_arith)
        requires
            p == MAX_PAYLOAD_SIZE_BYTES,
            len >= 1,
            q == (len - 1) / p,
    ;
    assert(chunk(m, q).len() == len - q * p);
}

} // verus!
