//! The receiving side of the transport: sequence-gap accounting and
//! the reassembly state machine that turns tagged packets back into
//! whole application messages and publishes them to the outbound ring.

use vstd::prelude::*;

use crate::constants::{
    MessageType, BIP_BUFFER_LEN_FIELD_LEN, HEADER_SIZE_BYTES, MAX_BUFFER_SIZE_BYTES,
    MAX_PAYLOAD_SIZE_BYTES,
};
use crate::header::{decoded_header, read_packet_header, PacketData};
use crate::ring::{
    frame, ring_capacity, ring_published, try_write_to_bip_buffer, write_to_bip_buffer,
};
use crate::stats::{wrap64, Counter, StatsAllHandlers};

verus! {

/// What the reassembly state machine waits for: the first fragment of
/// a message, or the remaining fragments of one whose total fragment
/// count is already known.
#[derive(Debug, Copy, Clone, PartialEq, Eq, Structural)]
pub enum State {
    WaitingForFirstData,
    WaitingForData(usize),
}

/// How many packets were lost between the packet that carries sequence
/// number `incoming` and the last one seen, `current`: the size of the
/// gap above the expected next number. Sequence number zero is a
/// sentinel and never counts as loss, and an out-of-order (lower)
/// number is not counted either.
pub open spec fn spec_lost(incoming: u32, current: u32) -> int {
    if incoming == 0 {
        0
    } else if incoming > current + 1 {
        incoming - current - 1
    } else {
        0
    }
}

/// Checks the incoming sequence number against the one last seen,
/// counts the gap as packet loss, and always adopts the incoming
/// number as the new current one.
pub fn check_for_packetloss(
    incoming: u32,
    current: &mut u32,
    stats_data: &mut StatsAllHandlers,
) -> (lost_packets: usize)
    ensures
        lost_packets == spec_lost(incoming, *old(current)),
        *final(current) == incoming,
        final(stats_data).packetloss.0 == wrap64(
            old(stats_data).packetloss.0 + spec_lost(incoming, *old(current)),
        ),
        *final(stats_data) == (StatsAllHandlers {
            packetloss: final(stats_data).packetloss,
            ..*old(stats_data)
        }),
{
    let mut lost_packets: usize = 0;
    if incoming == 0 {
        // a sentinel: no loss is counted
    } else if incoming as u64 > *current as u64 + 1 {
        let packetloss = incoming - *current - 1;
        stats_data.packetloss.add(packetloss as u64);
        lost_packets = packetloss as usize;
    }
    *current = incoming;
    lost_packets
}

/// The reassembly state, the slots, and the sequence number last seen:
/// everything of the receiver that a packet can change besides the
/// ring and the counters.
#[verifier::ext_equal]
pub struct RxCore {
    pub state: State,
    pub expected: u32,
    pub slots: Seq<Seq<u8>>,
}

/// What one packet does to the receiver: the next core state, the
/// record it publishes to the outbound ring if any, and whether the
/// receive loop goes on.
#[verifier::ext_equal]
pub struct RxStep {
    pub next: RxCore,
    /// The record this packet completes, to be published.
    pub emit: Option<Seq<u8>>,
    /// A single-fragment record is published through the waiting
    /// write; a reassembled one through the write that drops when the
    /// ring is full.
    pub blocking: bool,
    pub alive: bool,
    pub lost: int,
    /// A fragment that no well-formed sender emits (an impossible
    /// remaining-fragments count, an oversized or short payload) makes
    /// the receiver drop the partial message and start over.
    pub malformed: bool,
}

/// The payload the header says a packet carries: the bytes after the
/// nine header bytes, as many as the payload length announces.
pub open spec fn payload_of(pkt: Seq<u8>, plen: u16) -> Seq<u8> {
    pkt.subrange(HEADER_SIZE_BYTES as int, HEADER_SIZE_BYTES + plen)
}

/// The slot array grown to hold `total` fragments, new slots empty.
pub open spec fn grow_slots(slots: Seq<Seq<u8>>, total: int) -> Seq<Seq<u8>> {
    if slots.len() >= total {
        slots
    } else {
        slots + Seq::new((total - slots.len()) as nat, |i: int| Seq::<u8>::empty())
    }
}

/// All fragment slots below `total - 1` carry a full payload, as the
/// publication formula assumes.
pub open spec fn slots_full(slots: Seq<Seq<u8>>, total: int) -> bool {
    forall|i: int| 0 <= i < total - 1 ==> #[trigger] slots[i].len() == MAX_PAYLOAD_SIZE_BYTES
}

/// The first `k` fragment slots back to back: the reassembled record.
pub open spec fn concat_slots(slots: Seq<Seq<u8>>, k: int) -> Seq<u8>
    decreases k,
{
    if k <= 0 {
        Seq::empty()
    } else {
        concat_slots(slots, k - 1) + slots[k - 1]
    }
}

/// A step that only moves to the given state, publishing nothing.
pub open spec fn quiet_step(c: RxCore, alive: bool) -> RxStep {
    RxStep { next: c, emit: None, blocking: false, alive, lost: 0, malformed: false }
}

/// A step that drops the packet as malformed: the partial message is
/// discarded and the machine waits for a first fragment again.
pub open spec fn malformed_step(c: RxCore) -> RxStep {
    RxStep {
        next: RxCore { state: State::WaitingForFirstData, expected: c.expected, slots: c.slots },
        emit: None,
        blocking: false,
        alive: true,
        lost: 0,
        malformed: true,
    }
}

/// What a DataFirst packet does: alone it is a whole message and is
/// published at once; with fragments to follow it opens a new partial
/// message in slot zero, whatever partial message was in progress.
pub open spec fn rx_data_first(c: RxCore, h: PacketData, pkt: Seq<u8>) -> RxStep {
    if h.payload_length > MAX_PAYLOAD_SIZE_BYTES {
        malformed_step(c)
    } else {
        let payload = payload_of(pkt, h.payload_length);
        if h.remaining_messages > 0 {
            RxStep {
                next: RxCore {
                    state: State::WaitingForData((h.remaining_messages + 1) as usize),
                    expected: c.expected,
                    slots: grow_slots(c.slots, h.remaining_messages + 1).update(0, payload),
                },
                emit: None,
                blocking: false,
                alive: true,
                lost: 0,
                malformed: false,
            }
        } else {
            RxStep {
                next: RxCore {
                    state: State::WaitingForFirstData,
                    expected: c.expected,
                    slots: c.slots,
                },
                emit: Some(payload),
                blocking: true,
                alive: true,
                lost: 0,
                malformed: false,
            }
        }
    }
}

/// What a Data packet does while `total` fragments are awaited: the
/// payload lands in the slot its remaining-fragments count names, and
/// the fragment that brings the count to zero completes the record.
pub open spec fn rx_data(c: RxCore, h: PacketData, pkt: Seq<u8>, total: int) -> RxStep {
    if h.payload_length > MAX_PAYLOAD_SIZE_BYTES || h.remaining_messages + 1 > total {
        malformed_step(c)
    } else {
        let payload = payload_of(pkt, h.payload_length);
        let idx = total - h.remaining_messages - 1;
        let slots = c.slots.update(idx, payload);
        if h.remaining_messages == 0 {
            if slots_full(slots, total) {
                RxStep {
                    next: RxCore {
                        state: State::WaitingForFirstData,
                        expected: c.expected,
                        slots,
                    },
                    emit: Some(concat_slots(slots, total)),
                    blocking: false,
                    alive: true,
                    lost: 0,
                    malformed: false,
                }
            } else {
                malformed_step(RxCore { state: c.state, expected: c.expected, slots })
            }
        } else {
            RxStep {
                next: RxCore { state: State::WaitingForData(total as usize), expected: c.expected, slots },
                emit: None,
                blocking: false,
                alive: true,
                lost: 0,
                malformed: false,
            }
        }
    }
}

/// What one packet of each type does to a given core state.
pub open spec fn rx_dispatch(c: RxCore, h: PacketData, pkt: Seq<u8>) -> RxStep {
    match h.message_type {
        MessageType::Data => match c.state {
            State::WaitingForData(total) => rx_data(c, h, pkt, total as int),
            State::WaitingForFirstData => quiet_step(
                RxCore {
                    state: State::WaitingForFirstData,
                    expected: c.expected,
                    slots: c.slots,
                },
                true,
            ),
        },
        MessageType::DataFirst => rx_data_first(c, h, pkt),
        MessageType::StartUp => quiet_step(
            RxCore { state: State::WaitingForFirstData, expected: 0, slots: c.slots },
            true,
        ),
        MessageType::HeartBeat => quiet_step(c, true),
        MessageType::Shutdown => quiet_step(c, false),
    }
}

/// What one received packet does to the receiver: the sequence gap is
/// counted first — a gap makes any partial message unusable and forces
/// the machine back to waiting for a first fragment — and then the
/// packet type drives the transition.
pub open spec fn rx_step(c: RxCore, pkt: Seq<u8>) -> RxStep {
    let h = decoded_header(pkt);
    let lost = spec_lost(h.sequence_number, c.expected);
    let c1 = RxCore {
        state: if lost > 0 {
            State::WaitingForFirstData
        } else {
            c.state
        },
        expected: h.sequence_number,
        slots: c.slots,
    };
    let step = rx_dispatch(c1, h, pkt);
    RxStep { lost, ..step }
}

/// The receiver's counters after one packet: the packet and its
/// payload are counted in, the gap is counted as loss, a malformed
/// fragment as a dropped packet, and a completed record as bytes out
/// when the ring took it or as dropped bytes when it was full.
pub open spec fn stats_after(
    s: StatsAllHandlers,
    step: RxStep,
    plen: u16,
    accepted: bool,
) -> StatsAllHandlers {
    let s1 = StatsAllHandlers {
        in_packets: Counter(wrap64(s.in_packets.0 + 1) as u64),
        in_bytes: Counter(wrap64(s.in_bytes.0 + plen) as u64),
        packetloss: Counter(wrap64(s.packetloss.0 + step.lost) as u64),
        ..s
    };
    let s2 = if step.malformed {
        StatsAllHandlers {
            dropped_packets: Counter(wrap64(s1.dropped_packets.0 + 1) as u64),
            ..s1
        }
    } else {
        s1
    };
    match step.emit {
        Some(record) => if accepted {
            StatsAllHandlers {
                out_bytes: Counter(
                    wrap64(s2.out_bytes.0 + record.len() + BIP_BUFFER_LEN_FIELD_LEN) as u64,
                ),
                ..s2
            }
        } else {
            StatsAllHandlers {
                dropped_bytes: Counter(
                    wrap64(s2.dropped_bytes.0 + record.len() + BIP_BUFFER_LEN_FIELD_LEN) as u64,
                ),
                ..s2
            }
        },
        None => s2,
    }
}

/// The receiving state machine. It starts waiting for a first
/// fragment; each received packet drives one transition, and whole
/// reassembled messages are published to the outbound ring.
pub struct InnerUdpReceiver {
    pub bip_writer: spsc_bip_buffer::BipBufferWriter,
    pub packet_buffer: Vec<u8>,
    pub combined_buffer: Vec<Vec<u8>>,
    pub current_sequence_number: u32,
    pub state: State,
    pub stats_data: StatsAllHandlers,
}

impl InnerUdpReceiver {
    /// The core state a packet transforms.
    pub open spec fn model(self) -> RxCore {
        RxCore {
            state: self.state,
            expected: self.current_sequence_number,
            slots: self.combined_buffer@.map_values(|v: Vec<u8>| v@),
        }
    }

    /// The receiver's structural invariant: the packet buffer holds one
    /// whole datagram, the ring can take a single-fragment record, no
    /// slot exceeds a payload, and in a reassembly the awaited total is
    /// covered by the slots.
    pub open spec fn wf(self) -> bool {
        &&& self.packet_buffer@.len() == MAX_BUFFER_SIZE_BYTES
        &&& ring_capacity(self.bip_writer) >= MAX_BUFFER_SIZE_BYTES
        &&& match self.state {
            State::WaitingForData(total) => 2 <= total <= 0x1_0000
                && self.combined_buffer@.len() >= total,
            State::WaitingForFirstData => true,
        }
        &&& self.combined_buffer@.len() <= 0x1_0000
    }

    /// A fresh receiver: waiting for a first fragment, sequence number
    /// zero, twenty reusable fragment slots, and a packet buffer of one
    /// datagram. The outbound ring must have room for at least one
    /// whole datagram.
    pub fn new(bip_writer: spsc_bip_buffer::BipBufferWriter, stats_data: StatsAllHandlers) -> (r:
        InnerUdpReceiver)
        requires
            ring_capacity(bip_writer) >= MAX_BUFFER_SIZE_BYTES,
        ensures
            r.wf(),
            r.state == State::WaitingForFirstData,
            r.current_sequence_number == 0,
            r.stats_data == stats_data,
            r.bip_writer == bip_writer,
            r.combined_buffer@.len() == 20,
            forall|i: int| 0 <= i < 20 ==> #[trigger] r.model().slots[i] == Seq::<u8>::empty(),
    {
        let mut combined_buffer: Vec<Vec<u8>> = Vec::new();
        let mut i: usize = 0;
        while i < 20
            invariant
                i <= 20,
                combined_buffer@.len() == i,
                forall|j: int| 0 <= j < i ==> #[trigger] combined_buffer@[j]@.len() == 0,
            decreases 20 - i,
        {
            combined_buffer.push(Vec::new());
            i = i + 1;
        }
        let mut packet_buffer: Vec<u8> = Vec::new();
        let mut k: usize = 0;
        while k < MAX_BUFFER_SIZE_BYTES
            invariant
                k <= MAX_BUFFER_SIZE_BYTES,
                packet_buffer@.len() == k,
            decreases MAX_BUFFER_SIZE_BYTES - k,
        {
            packet_buffer.push(0);
            k = k + 1;
        }
        let r = InnerUdpReceiver {
            bip_writer,
            packet_buffer,
            combined_buffer,
            current_sequence_number: 0,
            state: State::WaitingForFirstData,
            stats_data,
        };
        proof {
            assert forall|i: int| 0 <= i < 20 implies #[trigger] r.model().slots[i]
                == Seq::<u8>::empty() by {
                assert(r.combined_buffer@[i]@.len() == 0);
                assert(r.model().slots[i] == r.combined_buffer@[i]@);
                assert(r.combined_buffer@[i]@ =~= Seq::<u8>::empty());
            }
        }
        r
    }

    /// Applies one received datagram, already in the packet buffer, to
    /// the state machine. Returns false only for a Shutdown packet,
    /// which ends the receive loop.
    pub fn handle_packet(&mut self) -> (alive: bool)
        requires
            old(self).wf(),
        ensures
            final(self).wf(),
            final(self).packet_buffer == old(self).packet_buffer,
            ring_capacity(final(self).bip_writer) == ring_capacity(old(self).bip_writer),
            ({
                let step = rx_step(old(self).model(), old(self).packet_buffer@);
                let plen = decoded_header(old(self).packet_buffer@).payload_length;
                &&& alive == step.alive
                &&& final(self).model() == step.next
                &&& match step.emit {
                    Some(record) => (ring_published(final(self).bip_writer) == ring_published(
                        old(self).bip_writer,
                    ) + frame(record) && final(self).stats_data == stats_after(
                        old(self).stats_data,
                        step,
                        plen,
                        true,
                    )) || (!step.blocking && ring_published(final(self).bip_writer)
                        == ring_published(old(self).bip_writer) && final(self).stats_data
                        == stats_after(old(self).stats_data, step, plen, false)),
                    None => ring_published(final(self).bip_writer) == ring_published(
                        old(self).bip_writer,
                    ) && final(self).stats_data == stats_after(
                        old(self).stats_data,
                        step,
                        plen,
                        true,
                    ),
                }
            }),
    {
        let packet_header = read_packet_header(&self.packet_buffer);
        let lost_packets = check_for_packetloss(
            packet_header.sequence_number,
            &mut self.current_sequence_number,
            &mut self.stats_data,
        );
        self.update_in_stats(&packet_header);
        if lost_packets > 0 {
            // any partially assembled message is unrecoverable after a gap
            self.state = State::WaitingForFirstData;
        }
        self.update_state(&packet_header)
    }

    /// Drives one transition of the state machine for a packet whose
    /// header is already read; the payload is taken from the packet
    /// buffer. Returns false only for a Shutdown packet.
    pub fn update_state(&mut self, packet_header: &PacketData) -> (alive: bool)
        requires
            old(self).wf(),
            packet_header.remaining_messages <= 0xFFFF,
        ensures
            final(self).wf(),
            final(self).packet_buffer == old(self).packet_buffer,
            final(self).current_sequence_number == rx_dispatch(
                old(self).model(),
                *packet_header,
                old(self).packet_buffer@,
            ).next.expected,
            ring_capacity(final(self).bip_writer) == ring_capacity(old(self).bip_writer),
            ({
                let step = rx_dispatch(old(self).model(), *packet_header, old(self).packet_buffer@);
                &&& alive == step.alive
                &&& final(self).model() == step.next
                &&& match step.emit {
                    Some(record) => (ring_published(final(self).bip_writer) == ring_published(
                        old(self).bip_writer,
                    ) + frame(record) && final(self).stats_data.out_bytes.0 == wrap64(
                        old(self).stats_data.out_bytes.0 + record.len() + BIP_BUFFER_LEN_FIELD_LEN,
                    ) && final(self).stats_data == (StatsAllHandlers {
                        out_bytes: final(self).stats_data.out_bytes,
                        ..old(self).stats_data
                    })) || (!step.blocking && ring_published(final(self).bip_writer)
                        == ring_published(old(self).bip_writer)
                        && final(self).stats_data.dropped_bytes.0 == wrap64(
                        old(self).stats_data.dropped_bytes.0 + record.len()
                            + BIP_BUFFER_LEN_FIELD_LEN,
                    ) && final(self).stats_data == (StatsAllHandlers {
                        dropped_bytes: final(self).stats_data.dropped_bytes,
                        ..old(self).stats_data
                    })),
                    None => ring_published(final(self).bip_writer) == ring_published(
                        old(self).bip_writer,
                    ) && if step.malformed {
                        final(self).stats_data == (StatsAllHandlers {
                            dropped_packets: Counter(
                                wrap64(old(self).stats_data.dropped_packets.0 + 1) as u64,
                            ),
                            ..old(self).stats_data
                        })
                    } else {
                        final(self).stats_data == old(self).stats_data
                    },
                }
            }),
    {
        let alive: bool;
        match (self.state, packet_header.message_type) {
            (State::WaitingForData(total), MessageType::Data) => {
                self.state = self.handle_data_message(packet_header, total);
                alive = true;
            },
            (_, MessageType::Data) => {
                self.state = State::WaitingForFirstData;
                alive = true;
            },
            (_, MessageType::DataFirst) => {
                self.state = self.handle_data_first_message(packet_header);
                alive = true;
            },
            (_, MessageType::StartUp) => {
                self.state = self.handle_startup_message();
                alive = true;
            },
            (_, MessageType::HeartBeat) => {
                self.state = self.handle_heartbeat_message();
                alive = true;
            },
            (_, MessageType::Shutdown) => {
                self.handle_shutdown_message();
                alive = false;
            },
        }
        alive
    }

    /// Handles a DataFirst packet: a lone fragment is published as a
    /// whole record at once; otherwise the payload opens slot zero of a
    /// new partial message.
    fn handle_data_first_message(&mut self, packet_header: &PacketData) -> (next: State)
        requires
            old(self).wf(),
            packet_header.remaining_messages <= 0xFFFF,
        ensures
            final(self).packet_buffer == old(self).packet_buffer,
            final(self).state == old(self).state,
            final(self).current_sequence_number == old(self).current_sequence_number,
            ring_capacity(final(self).bip_writer) == ring_capacity(old(self).bip_writer),
            final(self).packet_buffer@.len() == MAX_BUFFER_SIZE_BYTES,
            final(self).combined_buffer@.len() <= 0x1_0000,
            ({
                let step = rx_data_first(
                    old(self).model(),
                    *packet_header,
                    old(self).packet_buffer@,
                );
                &&& next == step.next.state
                &&& final(self).model().slots == step.next.slots
                &&& match step.emit {
                    Some(record) => ring_published(final(self).bip_writer) == ring_published(
                        old(self).bip_writer,
                    ) + frame(record) && final(self).stats_data.out_bytes.0 == wrap64(
                        old(self).stats_data.out_bytes.0 + record.len() + BIP_BUFFER_LEN_FIELD_LEN,
                    ) && final(self).stats_data == (StatsAllHandlers {
                        out_bytes: final(self).stats_data.out_bytes,
                        ..old(self).stats_data
                    }),
                    None => ring_published(final(self).bip_writer) == ring_published(
                        old(self).bip_writer,
                    ) && if step.malformed {
                        final(self).stats_data == (StatsAllHandlers {
                            dropped_packets: Counter(
                                wrap64(old(self).stats_data.dropped_packets.0 + 1) as u64,
                            ),
                            ..old(self).stats_data
                        })
                    } else {
                        final(self).stats_data == old(self).stats_data
                    },
                }
                &&& (next matches State::WaitingForData(total) ==> 2 <= total <= 0x1_0000
                    && final(self).combined_buffer@.len() >= total)
            }),
    {
        if packet_header.payload_length as usize > MAX_PAYLOAD_SIZE_BYTES {
            // no sender emits such a fragment; drop it and start over
            self.stats_data.dropped_packets.add(1);
            return State::WaitingForFirstData;
        }
        let payload = copy_payload(&self.packet_buffer, packet_header.payload_length);
        if packet_header.remaining_messages > 0 {
            let total = packet_header.remaining_messages + 1;
            let ghost slots0 = old(self).model().slots;
            while self.combined_buffer.len() < total
                invariant
                    total <= 0x1_0000,
                    slots0.len() <= self.combined_buffer@.len() <= 0x1_0000,
                    self.combined_buffer@.len() <= total || self.combined_buffer@.len()
                        == slots0.len(),
                    slots0 == old(self).model().slots,
                    self.combined_buffer@.map_values(|v: Vec<u8>| v@) == grow_slots(
                        slots0,
                        self.combined_buffer@.len() as int,
                    ),
                    *self == (InnerUdpReceiver {
                        combined_buffer: self.combined_buffer,
                        ..*old(self)
                    }),
                decreases total - self.combined_buffer@.len(),
            {
                let ghost prev = self.combined_buffer@.map_values(|v: Vec<u8>| v@);
                self.combined_buffer.push(Vec::new());
                proof {
                    let cur = self.combined_buffer@.map_values(|v: Vec<u8>| v@);
                    let n = cur.len() as int;
                    assert(cur.len() == prev.len() + 1);
                    assert forall|i: int| 0 <= i < n implies cur[i] == grow_slots(slots0, n)[i] by {
                        if i < n - 1 {
                            assert(cur[i] == prev[i]);
                            assert(prev[i] == grow_slots(slots0, n - 1)[i]);
                            assert(grow_slots(slots0, n - 1)[i] == grow_slots(slots0, n)[i]);
                        } else {
                            assert(cur[i] == Seq::<u8>::empty());
                            assert(grow_slots(slots0, n)[i] == Seq::<u8>::empty());
                        }
                    }
                    assert(cur =~= grow_slots(slots0, n));
                }
            }
            proof {
                assert(grow_slots(slots0, self.combined_buffer@.len() as int) =~~= grow_slots(
                    slots0,
                    total as int,
                ));
            }
            self.combined_buffer[0] = payload;
            proof {
                assert(self.combined_buffer@.map_values(|v: Vec<u8>| v@) =~= grow_slots(
                    old(self).model().slots,
                    total as int,
                ).update(0, payload_of(old(self).packet_buffer@, packet_header.payload_length)));
            }
            State::WaitingForData(total)
        } else {
            // a DataFirst with nothing to follow is a whole message
            write_to_bip_buffer(&mut self.bip_writer, &payload);
            self.stats_data.out_bytes.add(
                (packet_header.payload_length as usize + BIP_BUFFER_LEN_FIELD_LEN) as u64,
            );
            State::WaitingForFirstData
        }
    }

    /// Handles a Data packet while `total_messages` fragments are
    /// awaited: the payload lands in the slot the remaining-fragments
    /// count names, and the last fragment completes and publishes the
    /// record.
    fn handle_data_message(&mut self, packet_header: &PacketData, total_messages: usize) -> (next:
        State)
        requires
            old(self).wf(),
            old(self).state == State::WaitingForData(total_messages),
            packet_header.remaining_messages <= 0xFFFF,
        ensures
            final(self).packet_buffer == old(self).packet_buffer,
            final(self).state == old(self).state,
            final(self).current_sequence_number == old(self).current_sequence_number,
            ring_capacity(final(self).bip_writer) == ring_capacity(old(self).bip_writer),
            final(self).packet_buffer@.len() == MAX_BUFFER_SIZE_BYTES,
            final(self).combined_buffer@.len() == old(self).combined_buffer@.len(),
            ({
                let step = rx_data(
                    old(self).model(),
                    *packet_header,
                    old(self).packet_buffer@,
                    total_messages as int,
                );
                &&& next == step.next.state
                &&& final(self).model().slots == step.next.slots
                &&& match step.emit {
                    Some(record) => (ring_published(final(self).bip_writer) == ring_published(
                        old(self).bip_writer,
                    ) + frame(record) && final(self).stats_data.out_bytes.0 == wrap64(
                        old(self).stats_data.out_bytes.0 + record.len() + BIP_BUFFER_LEN_FIELD_LEN,
                    ) && final(self).stats_data == (StatsAllHandlers {
                        out_bytes: final(self).stats_data.out_bytes,
                        ..old(self).stats_data
                    })) || (ring_published(final(self).bip_writer) == ring_published(
                        old(self).bip_writer,
                    ) && final(self).stats_data.dropped_bytes.0 == wrap64(
                        old(self).stats_data.dropped_bytes.0 + record.len()
                            + BIP_BUFFER_LEN_FIELD_LEN,
                    ) && final(self).stats_data == (StatsAllHandlers {
                        dropped_bytes: final(self).stats_data.dropped_bytes,
                        ..old(self).stats_data
                    })),
                    None => ring_published(final(self).bip_writer) == ring_published(
                        old(self).bip_writer,
                    ) && if step.malformed {
                        final(self).stats_data == (StatsAllHandlers {
                            dropped_packets: Counter(
                                wrap64(old(self).stats_data.dropped_packets.0 + 1) as u64,
                            ),
                            ..old(self).stats_data
                        })
                    } else {
                        final(self).stats_data == old(self).stats_data
                    },
                }
            }),
    {
        if packet_header.payload_length as usize > MAX_PAYLOAD_SIZE_BYTES
            || packet_header.remaining_messages + 1 > total_messages {
            // no sender emits such a fragment; drop the partial message
            self.stats_data.dropped_packets.add(1);
            return State::WaitingForFirstData;
        }
        let payload = copy_payload(&self.packet_buffer, packet_header.payload_length);
        let idx = total_messages - packet_header.remaining_messages - 1;
        self.combined_buffer[idx] = payload;
        proof {
            assert(self.combined_buffer@.map_values(|v: Vec<u8>| v@) =~= old(
                self,
            ).model().slots.update(
                idx as int,
                payload_of(old(self).packet_buffer@, packet_header.payload_length),
            ));
        }
        if packet_header.remaining_messages == 0 {
            self.combine_and_write_to_bip(packet_header, total_messages);
            return State::WaitingForFirstData;
        }
        State::WaitingForData(total_messages)
    }

    /// A HeartBeat changes nothing.
    fn handle_heartbeat_message(&self) -> (next: State)
        ensures
            next == self.state,
    {
        self.state
    }

    /// A StartUp packet resets the sequence number to zero and makes
    /// the machine wait for a first fragment, discarding any partial
    /// message.
    fn handle_startup_message(&mut self) -> (next: State)
        ensures
            next == State::WaitingForFirstData,
            final(self).current_sequence_number == 0,
            *final(self) == (InnerUdpReceiver {
                current_sequence_number: 0,
                ..*old(self)
            }),
    {
        if self.current_sequence_number != 0 {
            self.current_sequence_number = 0;
        }
        State::WaitingForFirstData
    }

    /// A Shutdown packet only ends the receive loop.
    fn handle_shutdown_message(&self) {
    }

    /// Combines the `total_messages` buffered fragments into one record
    /// and publishes it through the non-waiting write: when the
    /// outbound ring is full the record is dropped and counted, never
    /// blocking the receive path.
    fn combine_and_write_to_bip(&mut self, packet_header: &PacketData, total_messages: usize)
        requires
            old(self).wf(),
            2 <= total_messages <= 0x1_0000,
            old(self).combined_buffer@.len() >= total_messages,
            packet_header.payload_length <= MAX_PAYLOAD_SIZE_BYTES,
            old(self).combined_buffer@[total_messages - 1]@.len()
                == packet_header.payload_length,
        ensures
            *final(self) == (InnerUdpReceiver {
                bip_writer: final(self).bip_writer,
                stats_data: final(self).stats_data,
                ..*old(self)
            }),
            ring_capacity(final(self).bip_writer) == ring_capacity(old(self).bip_writer),
            ({
                let slots = old(self).model().slots;
                let record = concat_slots(slots, total_messages as int);
                if slots_full(slots, total_messages as int) {
                    (ring_published(final(self).bip_writer) == ring_published(
                        old(self).bip_writer,
                    ) + frame(record) && final(self).stats_data.out_bytes.0 == wrap64(
                        old(self).stats_data.out_bytes.0 + record.len() + BIP_BUFFER_LEN_FIELD_LEN,
                    ) && final(self).stats_data == (StatsAllHandlers {
                        out_bytes: final(self).stats_data.out_bytes,
                        ..old(self).stats_data
                    })) || (ring_published(final(self).bip_writer) == ring_published(
                        old(self).bip_writer,
                    ) && final(self).stats_data.dropped_bytes.0 == wrap64(
                        old(self).stats_data.dropped_bytes.0 + record.len()
                            + BIP_BUFFER_LEN_FIELD_LEN,
                    ) && final(self).stats_data == (StatsAllHandlers {
                        dropped_bytes: final(self).stats_data.dropped_bytes,
                        ..old(self).stats_data
                    }))
                } else {
                    ring_published(final(self).bip_writer) == ring_published(old(self).bip_writer)
                        && final(self).stats_data == (StatsAllHandlers {
                        dropped_packets: Counter(
                            wrap64(old(self).stats_data.dropped_packets.0 + 1) as u64,
                        ),
                        ..old(self).stats_data
                    })
                }
            }),
    {
        let ghost slots = old(self).model().slots;
        // the publication formula assumes every earlier fragment is full
        let mut k: usize = 0;
        while k < total_messages - 1
            invariant
                total_messages <= old(self).combined_buffer@.len(),
                self == old(self),
                slots == old(self).model().slots,
                slots.len() == old(self).combined_buffer@.len(),
                k <= total_messages - 1,
                forall|i: int| 0 <= i < k ==> #[trigger] slots[i].len() == MAX_PAYLOAD_SIZE_BYTES,
            decreases total_messages - 1 - k,
        {
            if self.combined_buffer[k].len() != MAX_PAYLOAD_SIZE_BYTES {
                self.stats_data.dropped_packets.add(1);
                proof {
                    assert(slots[k as int] == self.combined_buffer@[k as int]@);
                    assert(slots[k as int].len() != MAX_PAYLOAD_SIZE_BYTES);
                    assert(!slots_full(slots, total_messages as int));
                }
                return ;
            }
            k = k + 1;
        }
        proof {
            assert(slots_full(slots, total_messages as int));
            lemma_concat_slots_len(slots, total_messages as int);
        }
        let mut record: Vec<u8> = Vec::new();
        let mut m: usize = 0;
        while m < total_messages
            invariant
                total_messages <= old(self).combined_buffer@.len(),
                self == old(self),
                m <= total_messages,
                record@ == concat_slots(slots, m as int),
                slots == old(self).model().slots,
            decreases total_messages - m,
        {
            let fragment = &self.combined_buffer[m];
            record.extend_from_slice(fragment.as_slice());
            proof {
                assert(record@ =~= concat_slots(slots, m + 1));
            }
            m = m + 1;
        }
        let total_bytes = record.len() + BIP_BUFFER_LEN_FIELD_LEN;
        if try_write_to_bip_buffer(&mut self.bip_writer, &record) {
            self.stats_data.out_bytes.add(total_bytes as u64);
        } else {
            self.stats_data.dropped_bytes.add(total_bytes as u64);
        }
    }

    /// Counts one packet and its payload bytes in.
    fn update_in_stats(&mut self, packet_header: &PacketData)
        ensures
            final(self).stats_data.in_packets.0 == wrap64(old(self).stats_data.in_packets.0 + 1),
            final(self).stats_data.in_bytes.0 == wrap64(
                old(self).stats_data.in_bytes.0 + packet_header.payload_length,
            ),
            final(self).stats_data == (StatsAllHandlers {
                in_packets: final(self).stats_data.in_packets,
                in_bytes: final(self).stats_data.in_bytes,
                ..old(self).stats_data
            }),
            *final(self) == (InnerUdpReceiver { stats_data: final(self).stats_data, ..*old(self) }),
    {
        self.stats_data.in_packets.add(1);
        self.stats_data.in_bytes.add(packet_header.payload_length as u64);
    }
}

/// The reassembled record is as long as the publication formula says:
/// full fragments up to the last, whose length the header gave.
pub proof fn lemma_concat_slots_len(slots: Seq<Seq<u8>>, k: int)
    requires
        slots_full(slots, k),
        0 <= k <= slots.len(),
    ensures
        concat_slots(slots, k).len() == if k == 0 {
            0
        } else {
            (k - 1) * (MAX_PAYLOAD_SIZE_BYTES as int) + slots[k - 1].len()
        },
    decreases k,
{
    if k > 0 {
        lemma_concat_slots_len(slots, k - 1);
        if k >= 2 {
            assert(slots[k - 2].len() == MAX_PAYLOAD_SIZE_BYTES);
            assert((k - 2) * (MAX_PAYLOAD_SIZE_BYTES as int) + MAX_PAYLOAD_SIZE_BYTES == (k - 1)
                * (MAX_PAYLOAD_SIZE_BYTES as int)) by (nonlinear_arith);
        }
    }
}

/// Copies the payload bytes out of a received datagram: the bytes
/// after the header, as many as the header announced.
fn copy_payload(pkt: &Vec<u8>, payload_length: u16) -> (payload: Vec<u8>)
    requires
        HEADER_SIZE_BYTES + payload_length <= pkt@.len(),
    ensures
        payload@ == payload_of(pkt@, payload_length),
        payload@.len() == payload_length,
{
    let mut payload: Vec<u8> = Vec::new();
    let end = HEADER_SIZE_BYTES + payload_length as usize;
    let mut i: usize = HEADER_SIZE_BYTES;
    while i < end
        invariant
            HEADER_SIZE_BYTES <= i <= end <= pkt@.len(),
            payload@ == pkt@.subrange(HEADER_SIZE_BYTES as int, i as int),
        decreases end - i,
    {
        payload.push(pkt[i]);
        assert(payload@ =~= pkt@.subrange(HEADER_SIZE_BYTES as int, i + 1));
        i = i + 1;
    }
    payload
}

/// The loss the counter gathers over a run of arriving packets, each
/// checked against the one before it.
pub open spec fn total_lost(seqs: Seq<u32>, current: u32) -> int
    decreases seqs.len(),
{
    if seqs.len() == 0 {
        0
    } else {
        spec_lost(seqs[0], current) + total_lost(seqs.skip(1), seqs[0])
    }
}

/// Loss accounting: when the sequence numbers that arrive climb
/// strictly — no reordering and no wrap-around — the packet-loss count
/// they leave behind is exactly the number of dropped packets: the
/// span from the number last seen to the last arrival, minus the
/// packets that did arrive.
pub proof fn lemma_loss_accounting(seqs: Seq<u32>, current: u32)
    requires
        seqs.len() > 0,
        seqs[0] > current,
        forall|i: int| 0 < i < seqs.len() ==> #[trigger] seqs[i] > seqs[i - 1],
    ensures
        total_lost(seqs, current) == seqs.last() - current - seqs.len(),
    decreases seqs.len(),
{
    assert(spec_lost(seqs[0], current) == seqs[0] - current - 1);
    if seqs.len() == 1 {
        assert(seqs.skip(1).len() == 0);
        assert(total_lost(seqs.skip(1), seqs[0]) == 0);
        assert(seqs.last() == seqs[0]);
    } else {
        let rest = seqs.skip(1);
        assert(rest[0] == seqs[1]);
        assert forall|i: int| 0 < i < rest.len() implies #[trigger] rest[i] > rest[i - 1] by {
            assert(rest[i] == seqs[i + 1]);
            assert(rest[i - 1] == seqs[i]);
        }
        lemma_loss_accounting(rest, seqs[0]);
        assert(rest.last() == seqs.last());
    }
}

/// No partial publication: when a sequence gap arrives mid-message,
/// the packet publishes nothing of the partial message — a Data packet
/// after a gap publishes nothing at all and the machine waits for a
/// first fragment again, and whatever any other packet publishes is
/// its own payload, never the dropped fragments.
pub proof fn lemma_gap_publishes_no_partial(c: RxCore, pkt: Seq<u8>)
    requires
        spec_lost(decoded_header(pkt).sequence_number, c.expected) > 0,
    ensures
        decoded_header(pkt).message_type is Data ==> rx_step(c, pkt).emit is None && rx_step(
            c,
            pkt,
        ).next.state == State::WaitingForFirstData,
        rx_step(c, pkt).emit matches Some(record) ==> record == payload_of(
            pkt,
            decoded_header(pkt).payload_length,
        ),
{
}

/// Sentinel reset: a StartUp packet, from any state, resets the
/// expected sequence number to zero, discards any partial message, and
/// leaves the machine waiting for a first fragment. It publishes
/// nothing.
pub proof fn lemma_startup_resets(c: RxCore, pkt: Seq<u8>)
    requires
        decoded_header(pkt).message_type is StartUp,
    ensures
        rx_step(c, pkt).next.expected == 0,
        rx_step(c, pkt).next.state == State::WaitingForFirstData,
        rx_step(c, pkt).emit is None,
        rx_step(c, pkt).alive,
{
}

/// What a whole run of received packets does: the final state and the
/// records published along the way, in order.
#[verifier::ext_equal]
pub struct RxRun {
    pub last: RxCore,
    pub emitted: Seq<Seq<u8>>,
}

/// Applies the packets front to back, collecting every record a
/// packet completes.
pub open spec fn rx_run(c: RxCore, pkts: Seq<Seq<u8>>) -> RxRun
    decreases pkts.len(),
{
    if pkts.len() == 0 {
        RxRun { last: c, emitted: Seq::empty() }
    } else {
        let step = rx_step(c, pkts[0]);
        let rest = rx_run(step.next, pkts.skip(1));
        RxRun {
            last: rest.last,
            emitted: (match step.emit {
                Some(record) => seq![record],
                None => Seq::<Seq<u8>>::empty(),
            }) + rest.emitted,
        }
    }
}

} // verus!
