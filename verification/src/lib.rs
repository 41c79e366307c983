//! Reassembly of RTMP messages from the chunks that carry them over the wire.
//!
//! [`ChunkDeserializer`] is handed the bytes of a connection and gives back its messages. What it
//! does is stated over [`ReaderState`], its view: [`model`] says what reading a chunk means,
//! [`encoding`] says how messages are laid out as chunks, [`laws`] holds what is true of reading
//! whatever the bytes are, and [`round_trip`] shows that what is sent is what is read. [`fields`]
//! and [`whole_messages`] say in plain arithmetic what the bytes of a chunk and of a message mean.

mod chunk_header;
mod deserializer;
pub mod encoding;
mod errors;
pub mod fields;
pub mod laws;
mod messages;
pub mod model;
pub mod round_trip;
mod time;
pub mod whole_messages;
pub mod wire;

pub use chunk_header::{ChunkHeader, ChunkHeaderFormat};
pub use deserializer::{
    get_csid, get_format, ChunkDeserializer, ParsedValue, INITIAL_MAX_CHUNK_SIZE,
};
pub use errors::{ChunkDeserializationError, ChunkDeserializationErrorKind};
pub use messages::{Message, MessagePayload};
pub use model::{
    ParseStage, Progress, ReaderState, LARGEST_MAX_CHUNK_SIZE, MAX_INITIAL_TIMESTAMP,
};
pub use time::RtmpTimestamp;
