//! The earlier stream-delimiting layer: leb128 framing, a stream consumer
//! and converter, and its own stream type names and errors.

pub mod consumer;
pub mod converter;
pub mod error;
pub mod leb128;
pub mod stream;
pub mod stream_type;
pub mod stream_converter;
