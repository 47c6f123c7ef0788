//! The inode registry: the mapping between repository identifiers and inode
//! numbers, and the reserved inode range.
//!
//! Identifiers are used directly as inode numbers. The only thing the
//! registry has to guard is the reserved range, which holds the root
//! directory and never backs an entry.

use vstd::prelude::*;

use crate::Ino;

verus! {

/// The inode of the root directory. No entry is ever shown under it.
pub const ROOT_INO: Ino = 1;

/// Whether `ino` lies in the reserved range.
pub open spec fn reserved(ino: Ino) -> bool {
    ino == ROOT_INO
}

/// The inode number under which identifier `identifier` is shown, if any.
pub open spec fn inode_of(identifier: Ino) -> Option<Ino> {
    if reserved(identifier) {
        None
    } else {
        Some(identifier)
    }
}

/// The identifier that backs inode `inode`, if any.
pub open spec fn identifier_of(inode: Ino) -> Option<Ino> {
    if reserved(inode) {
        None
    } else {
        Some(inode)
    }
}

/// Whether `inode` is the root directory.
pub fn is_root(inode: Ino) -> (root: bool)
    ensures
        root == (inode == ROOT_INO),
        root == reserved(inode),
{
    inode == ROOT_INO
}

/// Maps a repository identifier to its inode number.
///
/// The mapping is the identity. An identifier in the reserved range would
/// collide with the root directory and is refused.
pub fn to_inode(identifier: Ino) -> (inode: Option<Ino>)
    ensures
        inode == inode_of(identifier),
{
    if is_root(identifier) {
        None
    } else {
        Some(identifier)
    }
}

/// Maps an inode number back to the identifier that backs it.
///
/// Reserved inodes have no backing entry.
pub fn from_inode(inode: Ino) -> (identifier: Option<Ino>)
    ensures
        identifier == identifier_of(inode),
{
    if is_root(inode) {
        None
    } else {
        Some(inode)
    }
}

/// The two directions of the registry undo each other, and neither ever
/// yields a reserved number.
pub proof fn lemma_registry_round_trip(n: Ino)
    ensures
        inode_of(n) matches Some(inode) ==> identifier_of(inode) == Some(n) && !reserved(inode),
        identifier_of(n) matches Some(id) ==> inode_of(id) == Some(n) && !reserved(id),
        inode_of(n) is None <==> reserved(n),
        identifier_of(n) is None <==> reserved(n),
{
}

} // verus!
