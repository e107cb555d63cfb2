//! Length-delimited protobuf stream handling: varint / LEB128 / big-endian
//! framing of message streams, conversion between framings, and the
//! supporting pieces of the `pq` protobuf-to-JSON tool.

pub mod error;
pub mod reader;
pub mod varint;
pub mod stream;
pub mod i32be;
pub mod byte_consumer;
pub mod converter;
pub mod framing_laws;
pub mod canonical;
pub mod legacy;
pub mod fdset_discovery;
pub mod pq_errors;
pub mod length;
pub mod formatter;
pub mod glob;
pub mod gen;
pub mod msgdefs;
pub mod discovery;
pub mod commands;
pub mod frame_run;
pub mod protob;
pub mod force;
pub mod kafka_config;
