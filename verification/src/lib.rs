//! Decoder for line-oriented text files in which every line carries one
//! base64-encoded, brotli-compressed frame. The frames are decompressed in
//! input order and concatenated into a single byte stream.

pub mod codec;
pub mod laws;
pub mod lines;
pub mod pipeline;
pub mod utf8;
