# rtmp

Reads RTMP messages out of the chunks that carry them, in Verus: `ChunkDeserializer` takes the
bytes of a connection, in whatever pieces they arrive, and gives back its messages.

- `src/deserializer.rs`: the deserializer. Its contracts say that it does what `src/model.rs` says.
- `src/model.rs`: what reading a chunk means, over mathematical values.
- `src/encoding.rs`: how messages are laid out as chunks. Nothing of it is executed.
- `src/laws.rs`: what holds of reading, whatever the bytes are.
- `src/round_trip.rs`: messages that are laid out as chunks are read back.
- `src/wire.rs`: multi-byte numbers, read by the `byteorder` crate. These three functions are the
  only ones whose contracts are believed and not proved.
- `src/time.rs`, `src/chunk_header.rs`, `src/messages.rs`, `src/errors.rs`: the values involved.

Interleaved messages are not told apart: a chunk always adds to the one message that is being put
together, on whichever chunk stream it comes.
