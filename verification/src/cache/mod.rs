//! Filesystem cache: adapter configuration, file names and the on-disk
//! record format.

pub mod filesystem;
