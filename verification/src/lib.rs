//! Core of a one-way data diode: a framing transport that fragments
//! application messages into UDP-sized packets, detects loss through
//! sequence numbers, and reassembles whole messages on the far side,
//! together with the shared ring and counters the handler chain uses.

pub mod bytes;
pub mod config;
pub mod constants;
pub mod filter;
pub mod header;
pub mod kafka_msg;
pub mod ring;
pub mod roundtrip;
pub mod rx;
pub mod stats;
pub mod tx;

pub use constants::MessageType;
