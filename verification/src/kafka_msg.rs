//! The record a broker adapter carries across the diode: the payload
//! together with the offset and topic it came from.

use vstd::prelude::*;

use vstd::slice::slice_to_vec;

verus! {

/// One message as the broker adapters exchange it: its payload, the
/// offset it was read at, and the topic it belongs to.
#[derive(Debug, PartialEq)]
pub struct KafkaMessage {
    /// The offset of the received message.
    pub offset: i64,
    /// The message itself.
    pub payload: Vec<u8>,
    /// The topic name of where the message came from.
    pub topic: String,
}

impl KafkaMessage {
    /// A message with the given payload, offset and topic.
    pub fn new(payload: &[u8], offset: i64, topic: &str) -> (msg: KafkaMessage)
        ensures
            msg.offset == offset,
            msg.payload@ == payload@,
            msg.topic@ == topic@,
    {
        KafkaMessage { offset, payload: slice_to_vec(payload), topic: topic.to_owned() }
    }
}

/// The topic a message is republished under: the configured
/// replacement where the incoming topic matches the one to replace,
/// the incoming topic itself otherwise.
pub fn replace_topic(topic: String, in_replacement: &String, out_replacement: &String) -> (result:
    String)
    ensures
        result@ == if topic@ == in_replacement@ {
            out_replacement@
        } else {
            topic@
        },
{
    if topic.eq(in_replacement) {
        out_replacement.clone()
    } else {
        topic
    }
}

} // verus!
