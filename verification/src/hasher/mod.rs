//! File fingerprints.

pub mod murmur3;
