//! The filter stage: a record whose decoded payload starts with the
//! configured word is dropped, everything else is passed on unchanged.

use vstd::prelude::*;

use crate::constants::BIP_BUFFER_LEN_FIELD_LEN;
use crate::kafka_msg::KafkaMessage;
use crate::ring::{frame, ring_capacity, ring_published, write_to_bip_buffer};
use crate::stats::{wrap64, Counter, StatsAllHandlers};

verus! {

/// True when the payload begins with the word the filter drops.
pub open spec fn is_filtered(payload: Seq<u8>, word: Seq<u8>) -> bool {
    payload.len() >= word.len() && payload.subrange(0, word.len() as int) == word
}

/// Passes one record on, or drops it. `kafka_message` is the record's
/// decoded form, `None` when it could not be decoded; `buffer` holds
/// the record's raw first `element_length` bytes, which are forwarded
/// byte-identically. A record is dropped — counted, never forwarded —
/// when it could not be decoded or when its payload starts with the
/// word to filter.
pub fn filtering(
    kafka_message: Option<&KafkaMessage>,
    buffer: &Vec<u8>,
    element_length: usize,
    bip_writer_second: &mut spsc_bip_buffer::BipBufferWriter,
    word_to_filter: &Vec<u8>,
    stats_data: &mut StatsAllHandlers,
)
    requires
        element_length <= buffer@.len(),
        element_length + BIP_BUFFER_LEN_FIELD_LEN <= usize::MAX,
        element_length + BIP_BUFFER_LEN_FIELD_LEN <= ring_capacity(*old(bip_writer_second)),
    ensures
        ring_capacity(*final(bip_writer_second)) == ring_capacity(*old(bip_writer_second)),
        ({
            let dropped = match kafka_message {
                None => true,
                Some(msg) => is_filtered(msg.payload@, word_to_filter@),
            };
            if dropped {
                &&& ring_published(*final(bip_writer_second)) == ring_published(
                    *old(bip_writer_second),
                )
                &&& final(stats_data).dropped_packets.0 == wrap64(
                    old(stats_data).dropped_packets.0 + 1,
                )
                &&& final(stats_data).dropped_bytes.0 == wrap64(
                    old(stats_data).dropped_bytes.0 + element_length,
                )
                &&& *final(stats_data) == (StatsAllHandlers {
                    dropped_packets: final(stats_data).dropped_packets,
                    dropped_bytes: final(stats_data).dropped_bytes,
                    ..*old(stats_data)
                })
            } else {
                &&& ring_published(*final(bip_writer_second)) == ring_published(
                    *old(bip_writer_second),
                ) + frame(buffer@.subrange(0, element_length as int))
                &&& *final(stats_data) == *old(stats_data)
            }
        }),
{
    let filtered: bool = match kafka_message {
        None => {
            // a record that does not decode is treated as corrupt
            true
        },
        Some(msg) => payload_starts_with(&msg.payload, word_to_filter),
    };
    if filtered {
        stats_data.dropped_packets.add(1);
        stats_data.dropped_bytes.add(element_length as u64);
    } else {
        let record = copy_prefix(buffer, element_length);
        write_to_bip_buffer(bip_writer_second, &record);
    }
}

/// Whether the payload begins with the given word, byte for byte.
fn payload_starts_with(payload: &Vec<u8>, word: &Vec<u8>) -> (result: bool)
    ensures
        result == is_filtered(payload@, word@),
{
    if payload.len() < word.len() {
        return false;
    }
    let mut i: usize = 0;
    while i < word.len()
        invariant
            word@.len() <= payload@.len(),
            i <= word@.len(),
            forall|j: int| 0 <= j < i ==> payload@[j] == word@[j],
        decreases word@.len() - i,
    {
        if payload[i] != word[i] {
            assert(payload@.subrange(0, word@.len() as int)[i as int] != word@[i as int]);
            return false;
        }
        i = i + 1;
    }
    assert(payload@.subrange(0, word@.len() as int) =~= word@);
    true
}

/// Copies the first `n` bytes of a buffer into a record of its own.
fn copy_prefix(buffer: &Vec<u8>, n: usize) -> (record: Vec<u8>)
    requires
        n <= buffer@.len(),
    ensures
        record@ == buffer@.subrange(0, n as int),
{
    let mut record: Vec<u8> = Vec::new();
    let mut i: usize = 0;
    while i < n
        invariant
            i <= n <= buffer@.len(),
            record@ == buffer@.subrange(0, i as int),
        decreases n - i,
    {
        record.push(buffer[i]);
        assert(record@ =~= buffer@.subrange(0, i + 1));
        i = i + 1;
    }
    record
}

} // verus!
