//! Streaming of database rows as one framed text document (by default a JSON
//! array), cut into byte chunks as the consumer pulls them.
//!
//! The library holds the accumulator that frames serialized records and
//! decides when a chunk is handed out; the caller drives it with what the row
//! producer reported on each pull.

pub mod buffer;
pub mod bytestream;
pub mod framing;
pub mod sizing;

pub use buffer::BytesWriter;
pub use bytestream::{chunk_full, ByteStream, State, DEFAULT_ITEM_SIZE};
pub use sizing::next_power_of_two;
