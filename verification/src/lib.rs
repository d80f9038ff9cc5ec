//! Execution footprints and file fingerprints for test selection.
//!
//! [`tracer`] keeps the set of source files that ran while tracing was on and
//! answers which of them are user files; [`hasher`] memoises a content hash
//! per file path. Every contract in this crate is checked by Verus.

pub mod footprint;
pub mod hasher;
pub mod paths;
pub mod tracer;
