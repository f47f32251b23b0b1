//! Batch conversion of lossless audio trees: discovery of the work to do,
//! the jobs' state machine, and the metadata that a target path implies.
//!
//! Everything here works on plain values. Whoever walks directories, runs
//! the encoder and writes tags hands the results in and gets decisions back.

pub mod encoding;
pub mod errors;
pub mod files;
pub mod format;
pub mod opts;
pub mod paths;
pub mod summary;
pub mod tagging;
pub mod text;
