//! A read-only filesystem projection of a persistent collection of named
//! media-library entries.
//!
//! The repository stores `(identifier, entry)` pairs; this crate maps those
//! identifiers onto inode numbers, synthesises attributes, enumerates the
//! single flat directory and answers the four driver operations
//! (lookup, getattr, read, readdir) as plain functions with contracts.

use vstd::prelude::*;

pub mod attr;
pub mod codec;
pub mod config;
pub mod db;
pub mod entry;
pub mod error;
pub mod fs;
pub mod handlers;
pub mod inode;
pub mod laws;
pub mod listing;
pub mod mount;

verus! {

/// Identifier of an entry in the repository; it doubles as the inode number
/// under which the filesystem shows the entry.
pub type Ino = u64;

} // verus!
