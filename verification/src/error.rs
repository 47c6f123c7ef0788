//! The error taxonomy.

use vstd::prelude::*;

verus! {

/// What a filesystem operation reports when it cannot answer.
#[derive(Clone, Copy, Debug, PartialEq, Eq, Structural)]
pub enum FsError {
    /// The inode or name has no backing entry.
    NotFound,
    /// The repository or the content source failed.
    IOFailure,
}

/// Why one stored record could not be shown as an entry.
///
/// A malformed record never aborts an enumeration; it is reported in the
/// place of the record.
#[derive(Clone, Copy, Debug, PartialEq, Eq, Structural)]
pub enum DecodeError {
    /// The key is not an encoded identifier.
    Key,
    /// The value is not an encoded entry.
    Value,
    /// The record sits under an identifier of the reserved range.
    ReservedIdentifier,
}

/// A failure of the repository as a whole.
#[derive(Clone, Copy, Debug, PartialEq, Eq, Structural)]
pub enum StorageError {
    /// The storage engine reported a failure.
    Backend,
    /// A value could not be encoded, or a stored value could not be decoded.
    Encoding,
    /// The identifier generator only offered reserved identifiers.
    IdentifierSpace,
}

} // verus!
