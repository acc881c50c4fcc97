//! Verified core of an audio resource server: byte-range and content-range
//! header translation, incremental FLAC stream-info extraction for duration
//! computation, lossless stream-prefix splicing, and the policy decisions of
//! the storage backend variants.
pub mod digits;
pub mod error;
pub mod header;
pub mod provider;
pub mod range;
