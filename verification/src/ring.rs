//! The shared single-producer single-consumer ring that carries
//! length-prefixed records between the worker threads of a handler.
//!
//! The byte arena itself comes from the `spsc_bip_buffer` crate and is
//! trusted; the framing convention on top of it — an eight-byte
//! little-endian length prefix followed by the payload, both published
//! in one reservation — is verified here.

use vstd::prelude::*;

use crate::bytes::{decode_u64_le, lemma_u64_le_roundtrip, push_u64_le, u64_le, u64_le_bytes};
use crate::constants::BIP_BUFFER_LEN_FIELD_LEN;

verus! {

#[verifier::external_type_specification]
#[verifier::external_body]
pub struct ExBipBufferWriter(spsc_bip_buffer::BipBufferWriter);

#[verifier::external_type_specification]
#[verifier::external_body]
pub struct ExBipBufferReader(spsc_bip_buffer::BipBufferReader);

/// All the bytes this writer half has published into the arena since it
/// was created, in order.
pub uninterp spec fn ring_published(w: spsc_bip_buffer::BipBufferWriter) -> Seq<u8>;

/// The size in bytes of the storage the arena was created with.
pub uninterp spec fn ring_capacity(w: spsc_bip_buffer::BipBufferWriter) -> int;

/// The whole byte stream this reader half observes over its lifetime:
/// everything its paired writer publishes, in order.
pub uninterp spec fn ring_stream(r: spsc_bip_buffer::BipBufferReader) -> Seq<u8>;

/// How many bytes of the stream this reader half has consumed so far.
pub uninterp spec fn ring_pos(r: spsc_bip_buffer::BipBufferReader) -> int;

/// Relies on `BipBufferWriter::spin_reserve` and
/// `BipBufferWriterReservation::send`: `spin_reserve` waits until `len`
/// contiguous bytes are free (it panics when `len` is zero or exceeds
/// the storage size, which the precondition rules out), and dropping
/// the filled reservation publishes exactly those bytes to the reader.
#[verifier::external_body]
fn ring_append(writer: &mut spsc_bip_buffer::BipBufferWriter, data: &Vec<u8>)
    requires
        0 < data@.len() <= ring_capacity(*old(writer)),
    ensures
        ring_published(*final(writer)) == ring_published(*old(writer)) + data@,
        ring_capacity(*final(writer)) == ring_capacity(*old(writer)),
{
    let mut reservation = writer.spin_reserve(data.len());
    reservation.copy_from_slice(&data[..]);
    reservation.send();
}

/// Relies on `BipBufferWriter::reserve` and
/// `BipBufferWriterReservation::send`: `reserve` returns `None` when no
/// contiguous `len` bytes are free (it panics only when `len` is zero,
/// which the precondition rules out), and dropping the filled
/// reservation publishes exactly those bytes to the reader.
#[verifier::external_body]
fn ring_try_append(writer: &mut spsc_bip_buffer::BipBufferWriter, data: &Vec<u8>) -> (accepted:
    bool)
    requires
        0 < data@.len(),
    ensures
        ring_capacity(*final(writer)) == ring_capacity(*old(writer)),
        accepted ==> ring_published(*final(writer)) == ring_published(*old(writer)) + data@,
        !accepted ==> ring_published(*final(writer)) == ring_published(*old(writer)),
{
    match writer.reserve(data.len()) {
        Some(mut reservation) => {
            reservation.copy_from_slice(&data[..]);
            reservation.send();
            true
        },
        None => false,
    }
}

/// Relies on `BipBufferReader::valid` and `BipBufferReader::consume`:
/// `valid` returns the published bytes not yet consumed, in stream
/// order, and `consume` frees the first `len` of them. Waits until
/// `len` bytes are readable, so on return they were part of the stream.
#[verifier::external_body]
fn ring_take(reader: &mut spsc_bip_buffer::BipBufferReader, len: usize) -> (data: Vec<u8>)
    ensures
        ring_stream(*final(reader)) == ring_stream(*old(reader)),
        ring_pos(*final(reader)) == ring_pos(*old(reader)) + len,
        ring_pos(*old(reader)) + len <= ring_stream(*old(reader)).len(),
        data@.len() == len,
        data@ == ring_stream(*old(reader)).subrange(
            ring_pos(*old(reader)),
            ring_pos(*old(reader)) + len,
        ),
{
    while reader.valid().len() < len {
        core::hint::spin_loop();
    }
    let data = reader.valid()[..len].to_vec();
    reader.consume(len);
    data
}

/// A record as it lies in the arena: an eight-byte little-endian length
/// prefix followed by the record's bytes.
pub open spec fn frame(record: Seq<u8>) -> Seq<u8> {
    u64_le_bytes(record.len() as u64) + record
}

/// The arena bytes of a whole sequence of records, back to back.
pub open spec fn frames(records: Seq<Seq<u8>>) -> Seq<u8>
    decreases records.len(),
{
    if records.len() == 0 {
        Seq::empty()
    } else {
        frame(records[0]) + frames(records.skip(1))
    }
}

/// The records framed in a byte stream, read from the front: each
/// length prefix is followed by that many record bytes. Reading stops
/// where no whole record is left.
pub open spec fn parse_frames(s: Seq<u8>) -> Seq<Seq<u8>>
    decreases s.len(),
{
    if s.len() < BIP_BUFFER_LEN_FIELD_LEN {
        Seq::empty()
    } else {
        let n = u64_le(s.subrange(0, BIP_BUFFER_LEN_FIELD_LEN as int));
        if n == 0 || BIP_BUFFER_LEN_FIELD_LEN + n > s.len() {
            Seq::empty()
        } else {
            seq![s.subrange(BIP_BUFFER_LEN_FIELD_LEN as int, BIP_BUFFER_LEN_FIELD_LEN + n)]
                + parse_frames(s.skip(BIP_BUFFER_LEN_FIELD_LEN + n))
        }
    }
}

/// Writes one record to the arena through the framing convention: the
/// length prefix and the payload are published in a single reservation,
/// so the reader never observes one without the other.
pub fn write_to_bip_buffer(writer: &mut spsc_bip_buffer::BipBufferWriter, buffer: &Vec<u8>)
    requires
        buffer@.len() + BIP_BUFFER_LEN_FIELD_LEN <= ring_capacity(*old(writer)),
        buffer@.len() + BIP_BUFFER_LEN_FIELD_LEN <= usize::MAX,
    ensures
        ring_published(*final(writer)) == ring_published(*old(writer)) + frame(buffer@),
        ring_capacity(*final(writer)) == ring_capacity(*old(writer)),
{
    let framed = frame_record(buffer);
    ring_append(writer, &framed);
}

/// Tries to write one record through the framing convention without
/// waiting; returns whether the arena had room for it.
pub fn try_write_to_bip_buffer(writer: &mut spsc_bip_buffer::BipBufferWriter, buffer: &Vec<u8>) -> (
    accepted: bool)
    requires
        buffer@.len() + BIP_BUFFER_LEN_FIELD_LEN <= usize::MAX,
    ensures
        ring_capacity(*final(writer)) == ring_capacity(*old(writer)),
        accepted ==> ring_published(*final(writer)) == ring_published(*old(writer)) + frame(
            buffer@,
        ),
        !accepted ==> ring_published(*final(writer)) == ring_published(*old(writer)),
{
    let framed = frame_record(buffer);
    ring_try_append(writer, &framed)
}

/// Builds the framed form of a record: its length as an eight-byte
/// little-endian prefix, then its bytes.
fn frame_record(buffer: &Vec<u8>) -> (framed: Vec<u8>)
    requires
        buffer@.len() + BIP_BUFFER_LEN_FIELD_LEN <= usize::MAX,
    ensures
        framed@ == frame(buffer@),
{
    let mut framed: Vec<u8> = Vec::new();
    push_u64_le(&mut framed, buffer.len() as u64);
    let mut i: usize = 0;
    while i < buffer.len()
        invariant
            i <= buffer@.len(),
            framed@ == u64_le_bytes(buffer@.len() as u64) + buffer@.subrange(0, i as int),
        decreases buffer@.len() - i,
    {
        framed.push(buffer[i]);
        assert(framed@ =~= u64_le_bytes(buffer@.len() as u64) + buffer@.subrange(0, i + 1));
        i = i + 1;
    }
    assert(buffer@.subrange(0, buffer@.len() as int) =~= buffer@);
    framed
}

/// Reads the length prefix of the next record and consumes it from the
/// arena; the record's bytes follow at the new position.
pub fn get_element_length(reader: &mut spsc_bip_buffer::BipBufferReader) -> (element_length: usize)
    ensures
        ring_stream(*final(reader)) == ring_stream(*old(reader)),
        ring_pos(*final(reader)) == ring_pos(*old(reader)) + BIP_BUFFER_LEN_FIELD_LEN,
        ring_pos(*old(reader)) + BIP_BUFFER_LEN_FIELD_LEN <= ring_stream(*old(reader)).len(),
        element_length == prefix_value(ring_stream(*old(reader)), ring_pos(*old(reader))),
{
    let prefix = ring_take(reader, BIP_BUFFER_LEN_FIELD_LEN);
    let value = decode_u64_le(&prefix);
    proof {
        assert(prefix@.subrange(0, 8) =~= prefix@);
    }
    if value <= usize::MAX as u64 {
        value as usize
    } else {
        usize::MAX
    }
}

/// The length the prefix at `pos` announces, held to what a length can
/// be on this machine.
pub open spec fn prefix_value(stream: Seq<u8>, pos: int) -> int {
    let n = u64_le(stream.subrange(pos, pos + BIP_BUFFER_LEN_FIELD_LEN));
    if n <= usize::MAX {
        n
    } else {
        usize::MAX as int
    }
}

/// Reads the next whole record from the arena into `buffer` and returns
/// its length: first the length prefix, then that many payload bytes.
pub fn read_from_bip_buffer(reader: &mut spsc_bip_buffer::BipBufferReader, buffer: &mut Vec<u8>)
    -> (element_length: usize)
    ensures
        ring_stream(*final(reader)) == ring_stream(*old(reader)),
        element_length == prefix_value(ring_stream(*old(reader)), ring_pos(*old(reader))),
        ring_pos(*final(reader)) == ring_pos(*old(reader)) + BIP_BUFFER_LEN_FIELD_LEN
            + element_length,
        final(buffer)@ == ring_stream(*old(reader)).subrange(
            ring_pos(*old(reader)) + BIP_BUFFER_LEN_FIELD_LEN,
            ring_pos(*old(reader)) + BIP_BUFFER_LEN_FIELD_LEN + element_length,
        ),
{
    let element_length = get_element_length(reader);
    let data = ring_take(reader, element_length);
    *buffer = data;
    element_length
}

/// Parsing what the framing convention wrote gives the records back:
/// for any sequence of non-empty records, reading the framed byte
/// stream from the front yields that same sequence.
pub proof fn lemma_ring_roundtrip(records: Seq<Seq<u8>>)
    requires
        forall|i: int| 0 <= i < records.len() ==> 0 < #[trigger] records[i].len() <= usize::MAX,
    ensures
        parse_frames(frames(records)) == records,
    decreases records.len(),
{
    if records.len() == 0 {
        assert(parse_frames(frames(records)) =~= records);
    } else {
        let head = records[0];
        let rest = records.skip(1);
        lemma_parse_one_frame(head, frames(rest));
        lemma_ring_roundtrip(rest);
        assert(seq![head] + rest =~= records);
    }
}

/// Parsing a stream that starts with one whole frame yields that
/// record, then whatever the rest of the stream holds.
#[verifier::spinoff_prover]
proof fn lemma_parse_one_frame(head: Seq<u8>, tail: Seq<u8>)
    requires
        0 < head.len() <= usize::MAX,
    ensures
        parse_frames(frame(head) + tail) == seq![head] + parse_frames(tail),
{
    let s = frame(head) + tail;
    let prefix = u64_le_bytes(head.len() as u64);
    assert(prefix.len() == BIP_BUFFER_LEN_FIELD_LEN);
    assert(s.len() == BIP_BUFFER_LEN_FIELD_LEN + head.len() + tail.len());
    assert(s.subrange(0, BIP_BUFFER_LEN_FIELD_LEN as int) =~= prefix);
    assert(u64_le(prefix) == head.len() as u64) by {
        lemma_u64_le_roundtrip(head.len() as u64);
    }
    let n = u64_le(s.subrange(0, BIP_BUFFER_LEN_FIELD_LEN as int));
    assert(n == head.len());
    assert(s.subrange(BIP_BUFFER_LEN_FIELD_LEN as int, BIP_BUFFER_LEN_FIELD_LEN + n) =~= head);
    assert(s.skip(BIP_BUFFER_LEN_FIELD_LEN + n) =~= tail);
    assert(parse_frames(s) == seq![head] + parse_frames(tail));
}

} // verus!
