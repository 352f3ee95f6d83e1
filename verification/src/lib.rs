//! A gateway library that moves file payloads between a blocking HTTP
//! transport and a chunked object-storage backend: it batches byte
//! sources into fixed-size chunks, validates declared content lengths,
//! and assembles the response envelopes for upload and download.

pub mod handlers;
pub mod responses;
pub mod state;
pub mod streams;
