//! Decoding of serialized transactions in the legacy and witness-carrying wire
//! formats, with every decoder proved against a mathematical model of the format.
//!
//! - `cursor`: bounds-checked sequential reader over a byte buffer.
//! - `compact_size`: the 1/3/5/9-byte variable-length integer.
//! - `wire`: the model of the format, as decoding and encoding functions on
//!   byte sequences; `repeat` decodes and encodes runs of items.
//! - `types` and `decode`: the decoded values and the decoders.
//! - `hex_text` and `components`: hexadecimal text in and out.
//! - `laws`: round trip, one witness stack per input, truncation and
//!   trailing-byte failures.
//! - `block_fields`: configurable changes to block header fields.
//! - `handshake`: the version message of the peer handshake.

pub mod block_fields;
pub mod compact_size;
pub mod components;
pub mod cursor;
pub mod decode;
pub mod error;
pub mod handshake;
pub mod hex_text;
pub mod laws;
pub mod repeat;
pub mod types;
pub mod wire;
