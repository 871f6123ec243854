//! Packing a directory of page images into a stored comic archive.
//!
//! The library works on plain values: a directory listing with the bytes of
//! each regular file comes in, the bytes of the finished archive come out.
//! Reading the directory and writing the archive file is left to the caller.

pub mod format;
pub mod naming;
pub mod scan;
pub mod archive;
pub mod orchestrator;
