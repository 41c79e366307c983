//! Messages as they come out of the chunk layer: typed, timestamped, with raw contents.

use crate::time::RtmpTimestamp;
use vstd::prelude::*;

verus! {

/// The mathematical view of a [`MessagePayload`].
#[verifier::ext_equal]
pub struct Message {
    pub timestamp: RtmpTimestamp,
    pub type_id: u8,
    pub message_stream_id: u32,
    pub data: Seq<u8>,
}

impl Message {
    /// A message without contents, with every field at zero.
    pub open spec fn blank() -> Message {
        Message {
            timestamp: RtmpTimestamp { value: 0 },
            type_id: 0,
            message_stream_id: 0,
            data: Seq::empty(),
        }
    }
}

/// An RTMP message whose contents have not been interpreted.
#[derive(Clone, Debug, PartialEq, Eq)]
pub struct MessagePayload {
    pub timestamp: RtmpTimestamp,
    pub type_id: u8,
    pub message_stream_id: u32,
    pub data: Vec<u8>,
}

impl View for MessagePayload {
    type V = Message;

    open spec fn view(&self) -> Message {
        Message {
            timestamp: self.timestamp,
            type_id: self.type_id,
            message_stream_id: self.message_stream_id,
            data: self.data@,
        }
    }
}

impl MessagePayload {
    /// A message without contents, with every field at zero.
    pub fn new() -> (payload: MessagePayload)
        ensures
            payload@ == Message::blank(),
            payload.timestamp.value == 0,
            payload.type_id == 0,
            payload.message_stream_id == 0,
            payload.data@.len() == 0,
    {
        MessagePayload {
            timestamp: RtmpTimestamp::new(0),
            type_id: 0,
            message_stream_id: 0,
            data: Vec::new(),
        }
    }
}

} // verus!
