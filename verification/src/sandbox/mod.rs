//! Guest-run inputs and outputs for a WASIX host: captured stdio, JSON
//! decoding of guest stdout, package downloads and the cache root.

pub mod output;
pub mod package;
