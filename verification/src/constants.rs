//! Wire-level constants and the packet type tag.

use vstd::prelude::*;

verus! {

/// The largest UDP datagram the transport ever sends or receives:
/// 65,535 bytes of UDP data minus the 8-byte UDP header and the
/// 20-byte IP header.
pub const MAX_BUFFER_SIZE_BYTES: usize = 65507;

/// The size of the packet header: one type byte, a four-byte sequence
/// number, a two-byte payload length and a two-byte remaining-fragments
/// count.
pub const HEADER_SIZE_BYTES: usize = 9;

/// The largest payload a single packet can carry.
pub const MAX_PAYLOAD_SIZE_BYTES: usize = 65498;

/// How many times each sentinel (start-up, shutdown) packet is repeated,
/// to compensate for expected datagram loss on the one-way link.
pub const SPECIAL_MESSAGE_COUNT: usize = 200;

/// The size in bytes of the length prefix that frames a record in the
/// shared ring: a 64-bit little-endian word.
pub const BIP_BUFFER_LEN_FIELD_LEN: usize = 8;

/// The maximum size in bytes of a single ring record, with some room
/// above the 1 MiB a message may need plus its length prefix.
pub const MAX_BIP_BUFFER_MESSAGE_SIZE: usize = 1_050_000;

/// The type tag carried in the first byte of every packet header.
#[derive(Debug, Copy, Clone, PartialEq, Eq, Structural)]
pub enum MessageType {
    StartUp,
    HeartBeat,
    DataFirst,
    Data,
    Shutdown,
}

impl MessageType {
    /// The byte value that stands for this type on the wire.
    pub open spec fn spec_as_u8(self) -> u8 {
        match self {
            MessageType::StartUp => 1,
            MessageType::HeartBeat => 2,
            MessageType::DataFirst => 3,
            MessageType::Data => 4,
            MessageType::Shutdown => 5,
        }
    }

    /// The type a received byte stands for; every byte outside 1..=5 is
    /// read as DataFirst, since the receiver never discards a datagram
    /// on header grounds alone.
    pub open spec fn spec_from_u8(byte: u8) -> MessageType {
        if byte == 1 {
            MessageType::StartUp
        } else if byte == 2 {
            MessageType::HeartBeat
        } else if byte == 4 {
            MessageType::Data
        } else if byte == 5 {
            MessageType::Shutdown
        } else {
            MessageType::DataFirst
        }
    }

    /// Returns the byte value of this type.
    pub fn as_u8(self) -> (byte: u8)
        ensures
            byte == self.spec_as_u8(),
    {
        match self {
            MessageType::StartUp => 1,
            MessageType::HeartBeat => 2,
            MessageType::DataFirst => 3,
            MessageType::Data => 4,
            MessageType::Shutdown => 5,
        }
    }

    /// Returns the type for a given byte value; a byte no type stands
    /// for yields DataFirst.
    pub fn from_u8(byte: u8) -> (t: MessageType)
        ensures
            t == MessageType::spec_from_u8(byte),
    {
        if byte == 1 {
            MessageType::StartUp
        } else if byte == 2 {
            MessageType::HeartBeat
        } else if byte == 4 {
            MessageType::Data
        } else if byte == 5 {
            MessageType::Shutdown
        } else {
            MessageType::DataFirst
        }
    }
}

} // verus!
