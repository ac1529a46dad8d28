//! Checks on unified-diff patches, the decisions around running a command
//! under a timeout, content digests and the ordering of directory listings.

pub mod digest;
pub mod exec;
pub mod hunk;
pub mod listing;
pub mod patch;
pub mod text;
