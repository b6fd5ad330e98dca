//! Planning logic for a small directory-tidying tool: cleaning file names,
//! tallying file extensions and sorting files into category directories.
//!
//! Every function here is pure: it takes a listing of directory entries and
//! returns what should happen to each one. Reading the directory and carrying
//! out renames and moves is left to the caller.
pub mod entry;
pub mod extension;
pub mod names;
pub mod organize;
pub mod tally;
pub mod text;
