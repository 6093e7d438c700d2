//! Chunked comparison of two binary byte buffers.
//!
//! A buffer is partitioned into fixed-size 16-byte chunks, each tagged with
//! its starting offset rendered as an 8-digit lowercase hexadecimal address.
//! Two buffers are compared chunk by chunk at equal addresses against a pair
//! of target byte values, and every aligned chunk pair that contains the
//! target pair at some shared position is reported with hex dumps of both
//! chunks.

pub mod chunker;
pub mod hex;
pub mod matcher;
