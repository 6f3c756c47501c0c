//! Ingestion core for live AIS feeds: the 6-bit payload codec, the
//! Aid-to-Navigation status byte extractor and interpreter, the decoder that
//! wraps the sentence parser, and the reconnect and read decisions that keep
//! each feed alive.

pub mod codec;
pub mod config;
pub mod decoder;
pub mod feed;
pub mod fragment;
pub mod msg21;
pub mod parser;
pub mod sentence;
pub mod supervisor;
