//! Streaming conversion between serialized data formats.
//!
//! The crate reads zero or more documents from a byte buffer in one format
//! and writes each of them, in order, to an output buffer in another format,
//! copying structure document by document instead of building a tree.

pub mod error;
pub mod format;
pub mod opt;
pub mod outside;
pub mod transcode;
