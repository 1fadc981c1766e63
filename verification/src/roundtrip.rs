//! Fragmentation and reassembly are inverse: over a drop-free channel,
//! the packets the sender emits for one message make the receiver
//! publish exactly that message, once.

use vstd::prelude::*;

use crate::bytes::{lemma_u16_le_roundtrip, lemma_u32_le_roundtrip, u16_le_bytes, u32_le_bytes};
use crate::constants::{MessageType, HEADER_SIZE_BYTES, MAX_PAYLOAD_SIZE_BYTES};
use crate::header::{decoded_header, PacketData};
use crate::rx::{
    concat_slots, grow_slots, payload_of, rx_data, rx_data_first, rx_run, rx_step, slots_full,
    spec_lost, RxCore, RxRun, RxStep, State,
};
use crate::tx::{
    chunk, fragment_packets, lemma_chunk_full, lemma_chunk_last, lemma_packet_count_bound,
    lemma_seq_after_step, seq_after, spec_fragment, spec_packet_count,
};

verus! {

/// The packets of one message from the `i`-th on.
spec fn suffix_packets(m: Seq<u8>, s0: u32, i: int) -> Seq<Seq<u8>> {
    Seq::new(
        (spec_packet_count(m.len() as int) - i) as nat,
        |j: int| spec_fragment(m, s0, i + j),
    )
}

/// How much of the message the first `k` pieces cover.
spec fn covered(m: Seq<u8>, k: int) -> int {
    let p = MAX_PAYLOAD_SIZE_BYTES as int;
    if k * p <= m.len() {
        k * p
    } else {
        m.len() as int
    }
}

/// Reading the header of the `i`-th packet of a message gives back the
/// fields the splitter wrote, and its payload is the `i`-th piece.
proof fn lemma_decode_fragment(m: Seq<u8>, s0: u32, i: int)
    requires
        0 < m.len() <= MAX_PAYLOAD_SIZE_BYTES * 0xFFFF,
        0 <= i < spec_packet_count(m.len() as int),
    ensures
        ({
            let count = spec_packet_count(m.len() as int);
            let plen = chunk(m, i).len() as u16;
            &&& chunk(m, i).len() <= MAX_PAYLOAD_SIZE_BYTES
            &&& decoded_header(spec_fragment(m, s0, i)) == (PacketData {
                message_type: if i == 0 {
                    MessageType::DataFirst
                } else {
                    MessageType::Data
                },
                sequence_number: seq_after(s0, i),
                payload_length: plen,
                remaining_messages: (count - 1 - i) as usize,
            })
            &&& payload_of(spec_fragment(m, s0, i), plen) == chunk(m, i)
        }),
{
    let count = spec_packet_count(m.len() as int);
    lemma_packet_count_bound(m.len() as int);
    if i < count - 1 {
        lemma_chunk_full(m, i);
    } else {
        lemma_chunk_last(m);
    }
    let pkt = spec_fragment(m, s0, i);
    let t = if i == 0 {
        MessageType::DataFirst
    } else {
        MessageType::Data
    };
    let plen = chunk(m, i).len() as u16;
    let rem = (count - 1 - i) as u16;
    assert(pkt[0] == t.spec_as_u8());
    assert(pkt.subrange(1, 5) =~= u32_le_bytes(seq_after(s0, i)));
    assert(pkt.subrange(5, 7) =~= u16_le_bytes(plen));
    assert(pkt.subrange(7, 9) =~= u16_le_bytes(rem));
    lemma_u32_le_roundtrip(seq_after(s0, i));
    lemma_u16_le_roundtrip(plen);
    lemma_u16_le_roundtrip(rem);
    assert(MessageType::spec_from_u8(t.spec_as_u8()) == t);
    assert(payload_of(pkt, plen) =~= chunk(m, i));
}

/// The pieces laid back to back rebuild the message: slots holding the
/// first `k` pieces concatenate to the first `covered(k)` bytes.
proof fn lemma_concat_chunks(m: Seq<u8>, slots: Seq<Seq<u8>>, k: int)
    requires
        0 < m.len(),
        0 <= k <= spec_packet_count(m.len() as int),
        forall|j: int| 0 <= j < k ==> #[trigger] slots[j] == chunk(m, j),
    ensures
        concat_slots(slots, k) == m.subrange(0, covered(m, k)),
    decreases k,
{
    let p = MAX_PAYLOAD_SIZE_BYTES as int;
    let len = m.len() as int;
    let count = spec_packet_count(len);
    if k == 0 {
        assert(concat_slots(slots, 0) =~= m.subrange(0, 0));
    } else {
        lemma_concat_chunks(m, slots, k - 1);
        assert((k - 1) * p <= len - 1) by (nonlinear_arith)
            requires
                p == MAX_PAYLOAD_SIZE_BYTES,
                len >= 1,
                1 <= k <= (len - 1) / p + 1,
                count == (len - 1) / p + 1,
        ;
        assert(covered(m, k - 1) == (k - 1) * p);
        assert((k - 1) * p + p == k * p) by (nonlinear_arith);
        assert(chunk(m, k - 1) == m.subrange((k - 1) * p, covered(m, k)));
        assert(concat_slots(slots, k) == m.subrange(0, (k - 1) * p) + m.subrange(
            (k - 1) * p,
            covered(m, k),
        ));
        assert(m.subrange(0, (k - 1) * p) + m.subrange((k - 1) * p, covered(m, k)) =~= m.subrange(
            0,
            covered(m, k),
        ));
    }
}

/// Once every packet of the message has been applied, the whole
/// message is covered.
proof fn lemma_covered_all(m: Seq<u8>)
    requires
        0 < m.len(),
    ensures
        covered(m, spec_packet_count(m.len() as int)) == m.len(),
        m.subrange(0, m.len() as int) == m,
{
    let p = MAX_PAYLOAD_SIZE_BYTES as int;
    let len = m.len() as int;
    let count = spec_packet_count(len);
    assert(len <= count * p) by (nonlinear_arith)
        requires
            p == MAX_PAYLOAD_SIZE_BYTES,
            len >= 1,
            count == (len - 1) / p + 1,
    ;
    if count * p == len {
        assert(covered(m, count) == len);
    }
    assert(m.subrange(0, len) =~= m);
}

/// Between two packets of one message no loss is counted: the next
/// sequence number is one above the last, or zero right after the
/// counter wraps, and zero is a sentinel value.
proof fn lemma_no_loss_between(s0: u32, i: int)
    requires
        i >= 1,
    ensures
        spec_lost(seq_after(s0, i), seq_after(s0, i - 1)) == 0,
{
    lemma_seq_after_step(s0, i - 1);
    let cur = seq_after(s0, i - 1);
    if cur == 0xFFFF_FFFFu32 {
        assert(seq_after(s0, i) == 0);
    } else {
        assert((cur + 1) % 0x1_0000_0000 == cur + 1);
        assert(seq_after(s0, i) == cur + 1);
    }
}

/// Feeding the packets of one message from the `i`-th on, with the
/// earlier pieces already in their slots, completes and emits exactly
/// the whole message.
proof fn lemma_feed(m: Seq<u8>, s0: u32, c: RxCore, i: int)
    requires
        0 < m.len() <= MAX_PAYLOAD_SIZE_BYTES * 0xFFFF,
        spec_packet_count(m.len() as int) >= 2,
        1 <= i < spec_packet_count(m.len() as int),
        c.state == State::WaitingForData(spec_packet_count(m.len() as int) as usize),
        c.expected == seq_after(s0, i - 1),
        c.slots.len() >= spec_packet_count(m.len() as int),
        forall|j: int| 0 <= j < i ==> #[trigger] c.slots[j] == chunk(m, j),
    ensures
        rx_run(c, suffix_packets(m, s0, i)).emitted == seq![m],
        rx_run(c, suffix_packets(m, s0, i)).last.state == State::WaitingForFirstData,
    decreases spec_packet_count(m.len() as int) - i,
{
    let count = spec_packet_count(m.len() as int);
    let pkts = suffix_packets(m, s0, i);
    let pkt = pkts[0];
    assert(pkt == spec_fragment(m, s0, i));
    lemma_decode_fragment(m, s0, i);
    let h = decoded_header(pkt);
    lemma_no_loss_between(s0, i);
    let step = rx_step(c, pkt);
    let c1 = RxCore { state: c.state, expected: h.sequence_number, slots: c.slots };
    assert(step == RxStep { lost: 0int, ..rx_data(c1, h, pkt, count) });
    assert(h.remaining_messages + 1 <= count);
    let slots2 = c.slots.update(i, chunk(m, i));
    assert(forall|j: int| 0 <= j < i + 1 ==> #[trigger] slots2[j] == chunk(m, j));
    if i == count - 1 {
        assert(h.remaining_messages == 0);
        assert(slots_full(slots2, count)) by {
            assert forall|j: int| 0 <= j < count - 1 implies #[trigger] slots2[j].len()
                == MAX_PAYLOAD_SIZE_BYTES by {
                lemma_chunk_full(m, j);
            }
        }
        lemma_concat_chunks(m, slots2, count);
        lemma_covered_all(m);
        assert(step.emit == Some(m));
        assert(step.next.state == State::WaitingForFirstData);
        assert(pkts.skip(1).len() == 0);
        assert(rx_run(step.next, pkts.skip(1)) == (RxRun {
            last: step.next,
            emitted: Seq::<Seq<u8>>::empty(),
        }));
        assert(rx_run(c, pkts).last == step.next);
        assert(rx_run(c, pkts).emitted =~~= seq![m]);
    } else {
        assert(h.remaining_messages == count - 1 - i > 0);
        assert(step.emit is None);
        assert(step.next.state == State::WaitingForData(count as usize));
        assert(step.next.expected == seq_after(s0, i));
        assert(step.next.slots == slots2);
        assert(pkts.skip(1) =~= suffix_packets(m, s0, i + 1)) by {
            assert forall|j: int| 0 <= j < pkts.skip(1).len() implies pkts.skip(1)[j]
                == suffix_packets(m, s0, i + 1)[j] by {
                assert(pkts.skip(1)[j] == pkts[j + 1]);
                assert(pkts[j + 1] == spec_fragment(m, s0, i + (j + 1)));
            }
        }
        lemma_feed(m, s0, step.next, i + 1);
        assert(pkts.skip(1) == suffix_packets(m, s0, i + 1));
        assert(rx_run(c, pkts).last == rx_run(step.next, suffix_packets(m, s0, i + 1)).last);
        assert(rx_run(c, pkts).emitted =~~= seq![m]);
    }
}

/// Fragmentation and reassembly are inverse: for any message and any
/// drop-free channel — every packet arrives, in order — the receiver,
/// wherever it stood, publishes exactly one record, equal to the
/// message, and ends up waiting for the next first fragment. The
/// premise on the first sequence number says only that it does not
/// look like a gap to the receiver.
pub proof fn lemma_fragmentation_roundtrip(m: Seq<u8>, s0: u32, c: RxCore)
    requires
        0 < m.len() <= MAX_PAYLOAD_SIZE_BYTES * 0xFFFF,
        spec_lost(s0, c.expected) == 0,
    ensures
        rx_run(c, fragment_packets(m, s0)).emitted == seq![m],
        rx_run(c, fragment_packets(m, s0)).last.state == State::WaitingForFirstData,
{
    let count = spec_packet_count(m.len() as int);
    lemma_packet_count_bound(m.len() as int);
    let pkts = fragment_packets(m, s0);
    let pkt = pkts[0];
    assert(pkt == spec_fragment(m, s0, 0));
    lemma_decode_fragment(m, s0, 0);
    let h = decoded_header(pkt);
    assert(seq_after(s0, 0) == s0);
    assert(spec_lost(h.sequence_number, c.expected) == 0);
    let step = rx_step(c, pkt);
    let c1 = RxCore { state: c.state, expected: s0, slots: c.slots };
    assert(step == RxStep { lost: 0int, ..rx_data_first(c1, h, pkt) });
    if count == 1 {
        assert(h.remaining_messages == 0);
        lemma_chunk_last(m);
        assert(chunk(m, 0) =~= m);
        assert(step.emit == Some(m));
        assert(step.next.state == State::WaitingForFirstData);
        assert(pkts.skip(1).len() == 0);
        assert(rx_run(step.next, pkts.skip(1)) == (RxRun {
            last: step.next,
            emitted: Seq::<Seq<u8>>::empty(),
        }));
        assert(rx_run(c, pkts).last == step.next);
        assert(rx_run(c, pkts).emitted =~~= seq![m]);
    } else {
        assert(h.remaining_messages == count - 1 > 0);
        lemma_chunk_full(m, 0);
        assert(step.emit is None);
        let slots2 = grow_slots(c.slots, count).update(0, chunk(m, 0));
        assert(step.next.slots == slots2);
        assert(slots2.len() >= count) by {
            assert(grow_slots(c.slots, count).len() >= count);
        }
        assert(step.next.state == State::WaitingForData(count as usize));
        assert(step.next.expected == s0);
        assert(forall|j: int| 0 <= j < 1 ==> #[trigger] slots2[j] == chunk(m, j));
        assert(pkts.skip(1) =~= suffix_packets(m, s0, 1)) by {
            assert forall|j: int| 0 <= j < pkts.skip(1).len() implies pkts.skip(1)[j]
                == suffix_packets(m, s0, 1)[j] by {
                assert(pkts.skip(1)[j] == pkts[j + 1]);
                assert(pkts[j + 1] == spec_fragment(m, s0, 1 + j));
            }
        }
        lemma_feed(m, s0, step.next, 1);
        assert(pkts.skip(1) == suffix_packets(m, s0, 1));
        assert(rx_run(c, pkts).last == rx_run(step.next, suffix_packets(m, s0, 1)).last);
        assert(rx_run(c, pkts).emitted =~~= seq![m]);
    }
}

} // verus!
