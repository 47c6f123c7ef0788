//! The attribute synthesiser: filesystem metadata for the root directory and
//! for the entries.
//!
//! No timestamp is tracked anywhere, so every timestamp is the epoch. The
//! size of an entry is known only to its content source; where the caller has
//! not resolved it, the size reported is 0.

use vstd::prelude::*;

use crate::Ino;
use crate::inode::ROOT_INO;

verus! {

/// Seconds for which a reply may be cached by the caller.
pub const TTL_SECONDS: u64 = 1;

/// Bytes per block in the `blocks` count.
pub const BLOCK_SIZE: u64 = 512;

/// Permission bits of the root directory.
pub const DIRECTORY_PERM: u16 = 0o755;

/// Permission bits of an entry.
pub const FILE_PERM: u16 = 0o644;

/// Owner reported for every node.
pub const OWNER_UID: u32 = 501;

/// Group reported for every node.
pub const OWNER_GID: u32 = 20;

/// The type of a node.
#[derive(Clone, Copy, Debug, PartialEq, Eq, Structural)]
pub enum FileKind {
    Directory,
    RegularFile,
}

/// The metadata of one node. Timestamps are seconds since the epoch.
#[derive(Clone, Copy, Debug, PartialEq, Eq, Structural)]
pub struct Attributes {
    pub ino: Ino,
    pub size: u64,
    pub blocks: u64,
    pub atime: u64,
    pub mtime: u64,
    pub ctime: u64,
    pub crtime: u64,
    pub kind: FileKind,
    pub perm: u16,
    pub nlink: u32,
    pub uid: u32,
    pub gid: u32,
    pub rdev: u32,
    pub flags: u32,
}

/// The number of blocks that `size` bytes occupy.
pub open spec fn blocks_for(size: u64) -> u64 {
    ((size + BLOCK_SIZE - 1) / (BLOCK_SIZE as int)) as u64
}

/// The attributes of the root directory.
pub open spec fn root_attributes_spec() -> Attributes {
    Attributes {
        ino: ROOT_INO,
        size: 0,
        blocks: 0,
        atime: 0,
        mtime: 0,
        ctime: 0,
        crtime: 0,
        kind: FileKind::Directory,
        perm: DIRECTORY_PERM,
        nlink: 2,
        uid: OWNER_UID,
        gid: OWNER_GID,
        rdev: 0,
        flags: 0,
    }
}

/// The size reported for an entry whose content source answered
/// `resolved_size`.
pub open spec fn reported_size(resolved_size: Option<u64>) -> u64 {
    match resolved_size {
        Some(size) => size,
        None => 0,
    }
}

/// The attributes of the entry stored under `identifier`.
pub open spec fn entry_attributes_spec(identifier: Ino, resolved_size: Option<u64>) -> Attributes {
    Attributes {
        ino: identifier,
        size: reported_size(resolved_size),
        blocks: blocks_for(reported_size(resolved_size)),
        atime: 0,
        mtime: 0,
        ctime: 0,
        crtime: 0,
        kind: FileKind::RegularFile,
        perm: FILE_PERM,
        nlink: 1,
        uid: OWNER_UID,
        gid: OWNER_GID,
        rdev: 0,
        flags: 0,
    }
}

/// Counts the blocks that `size` bytes occupy.
pub fn block_count(size: u64) -> (blocks: u64)
    ensures
        blocks == blocks_for(size),
        blocks * BLOCK_SIZE >= size,
        size > 0 ==> (blocks - 1) * BLOCK_SIZE < size,
{
    let whole: u64 = size / BLOCK_SIZE;
    if size % BLOCK_SIZE == 0 {
        whole
    } else {
        whole + 1
    }
}

/// Synthesises the attributes of the root directory: a directory of size 0
/// with two links and epoch timestamps.
pub fn root_attributes() -> (attrs: Attributes)
    ensures
        attrs == root_attributes_spec(),
{
    Attributes {
        ino: ROOT_INO,
        size: 0,
        blocks: 0,
        atime: 0,
        mtime: 0,
        ctime: 0,
        crtime: 0,
        kind: FileKind::Directory,
        perm: DIRECTORY_PERM,
        nlink: 2,
        uid: OWNER_UID,
        gid: OWNER_GID,
        rdev: 0,
        flags: 0,
    }
}

/// Synthesises the attributes of the entry stored under `identifier`.
///
/// An entry is always a regular file. `resolved_size` is what the content
/// source said of the entry's length; `None`, when the source failed or
/// there is none, is reported as size 0.
pub fn entry_attributes(identifier: Ino, resolved_size: Option<u64>) -> (attrs: Attributes)
    ensures
        attrs == entry_attributes_spec(identifier, resolved_size),
{
    let size: u64 = match resolved_size {
        Some(size) => size,
        None => 0,
    };
    Attributes {
        ino: identifier,
        size,
        blocks: block_count(size),
        atime: 0,
        mtime: 0,
        ctime: 0,
        crtime: 0,
        kind: FileKind::RegularFile,
        perm: FILE_PERM,
        nlink: 1,
        uid: OWNER_UID,
        gid: OWNER_GID,
        rdev: 0,
        flags: 0,
    }
}

} // verus!
