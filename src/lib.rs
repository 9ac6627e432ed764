//! Serving one static file over HTTP: byte ranges, entity tags, conditional
//! requests and bounded chunked streaming, as verified decisions over plain values.

pub mod error;
pub mod text;
pub mod range;
pub mod etag;
pub mod conditional;
pub mod streamer;
pub mod serve;
