//! The filesystem driver adapter: lookup, getattr, read and readdir.
//!
//! Each operation is a function that returns its reply. The functions whose
//! names end in `_in` take what the repository answered as an argument and
//! say exactly what is replied to it; the methods of [`PlevyFS`] ask the
//! repository and hand its answer to them.
//!
//! The namespace is flat: the root directory is the only directory and the
//! only parent.

use vstd::prelude::*;

use crate::Ino;
use crate::attr::{
    Attributes,
    entry_attributes,
    entry_attributes_spec,
    root_attributes,
    root_attributes_spec,
};
use crate::db::Db;
use crate::entry::Entry;
use crate::error::{FsError, StorageError};
use crate::inode::{ROOT_INO, is_root, reserved};
use crate::listing::{DirItem, DirItemView, Record, enumerate, item_views, listing_from, usable};

verus! {

/// Whether `record` is a usable record whose entry is called `name`.
pub open spec fn named(record: Record, name: Seq<char>) -> bool {
    usable(record) && record->Ok_0.1@.name == name
}

/// The position, among the first `n` records of `snapshot`, of the record
/// called `name` with the least identifier; the earliest one where several
/// share that identifier.
pub open spec fn position_upto(snapshot: Seq<Record>, name: Seq<char>, n: nat) -> Option<int>
    decreases n,
{
    if n == 0 {
        None
    } else {
        let before = position_upto(snapshot, name, (n - 1) as nat);
        if named(snapshot[n - 1], name) {
            match before {
                Some(best) => if snapshot[best]->Ok_0.0 <= snapshot[n - 1]->Ok_0.0 {
                    before
                } else {
                    Some(n - 1)
                },
                None => Some(n - 1),
            }
        } else {
            before
        }
    }
}

/// The position in `snapshot` of the record that a lookup of `name` finds.
pub open spec fn position_of(snapshot: Seq<Record>, name: Seq<char>) -> Option<int> {
    position_upto(snapshot, name, snapshot.len())
}

/// The reply to a lookup of `name` under `parent`, where `snapshot` is what
/// the repository answered.
pub open spec fn lookup_spec(
    snapshot: Result<Seq<Record>, StorageError>,
    parent: Ino,
    name: Seq<char>,
) -> Result<(Ino, Attributes), FsError> {
    if parent != ROOT_INO {
        Err(FsError::NotFound)
    } else {
        match snapshot {
            Ok(records) => match position_of(records, name) {
                Some(at) => Ok(
                    (records[at]->Ok_0.0, entry_attributes_spec(records[at]->Ok_0.0, None)),
                ),
                None => Err(FsError::NotFound),
            },
            Err(_) => Err(FsError::IOFailure),
        }
    }
}

/// The entry that backs `inode`, where `found` is what the repository
/// answered a point lookup of it with.
pub open spec fn entry_spec(inode: Ino, found: Result<Option<Entry>, StorageError>) -> Result<
    Entry,
    FsError,
> {
    if reserved(inode) {
        Err(FsError::NotFound)
    } else {
        match found {
            Ok(Some(entry)) => Ok(entry),
            Ok(None) => Err(FsError::NotFound),
            Err(_) => Err(FsError::IOFailure),
        }
    }
}

/// The reply to a getattr of `inode`, where `found` is what the repository
/// answered a point lookup of it with and `resolved_size` is what the
/// content source said of the entry's length.
pub open spec fn getattr_spec(
    inode: Ino,
    found: Result<Option<Entry>, StorageError>,
    resolved_size: Option<u64>,
) -> Result<Attributes, FsError> {
    if inode == ROOT_INO {
        Ok(root_attributes_spec())
    } else {
        match entry_spec(inode, found) {
            Ok(_) => Ok(entry_attributes_spec(inode, resolved_size)),
            Err(error) => Err(error),
        }
    }
}

/// The bytes of `content` in `[offset, offset + max_length)`, clipped to
/// the length of `content`.
pub open spec fn window(content: Seq<u8>, offset: u64, max_length: u32) -> Seq<u8> {
    if offset >= content.len() {
        Seq::empty()
    } else if offset + max_length >= content.len() {
        content.subrange(offset as int, content.len() as int)
    } else {
        content.subrange(offset as int, offset + max_length)
    }
}

/// The reply to a read of `inode`, where `found` is what the repository
/// answered a point lookup of it with and `content` is what the content
/// source gave for the entry, if it gave anything.
pub open spec fn read_spec(
    inode: Ino,
    found: Result<Option<Entry>, StorageError>,
    content: Option<Seq<u8>>,
    offset: u64,
    max_length: u32,
) -> Result<Seq<u8>, FsError> {
    match entry_spec(inode, found) {
        Ok(_) => match content {
            Some(bytes) => Ok(window(bytes, offset, max_length)),
            None => Err(FsError::IOFailure),
        },
        Err(error) => Err(error),
    }
}

/// The reply to a readdir of `inode` from cursor `offset` on, where
/// `snapshot` is what the repository answered.
pub open spec fn readdir_spec(
    inode: Ino,
    snapshot: Result<Seq<Record>, StorageError>,
    offset: u64,
) -> Result<Seq<DirItemView>, FsError> {
    if inode != ROOT_INO {
        Err(FsError::NotFound)
    } else {
        match snapshot {
            Ok(records) => Ok(listing_from(records, offset)),
            Err(_) => Err(FsError::IOFailure),
        }
    }
}

/// The bytes that the content source gave, if it gave any.
pub open spec fn given_content(content: Option<&[u8]>) -> Option<Seq<u8>> {
    match content {
        Some(bytes) => Some(bytes@),
        None => None,
    }
}

/// The reply to a read, with the bytes as a sequence.
pub open spec fn bytes_reply(reply: Result<Vec<u8>, FsError>) -> Result<Seq<u8>, FsError> {
    match reply {
        Ok(bytes) => Ok(bytes@),
        Err(error) => Err(error),
    }
}

/// What the repository answered a request for a snapshot with, with the
/// records as a sequence.
pub open spec fn taken_snapshot(snapshot: Result<Vec<Record>, StorageError>) -> Result<
    Seq<Record>,
    StorageError,
> {
    match snapshot {
        Ok(records) => Ok(records@),
        Err(error) => Err(error),
    }
}

/// The reply to a readdir, with the items as plain values.
pub open spec fn items_reply(reply: Result<Vec<DirItem>, FsError>) -> Result<
    Seq<DirItemView>,
    FsError,
> {
    match reply {
        Ok(items) => Ok(item_views(items@)),
        Err(error) => Err(error),
    }
}

/// The record that a lookup finds is called `name`, is usable, and no
/// record called `name` has a smaller identifier. Where no record is
/// found, none is called `name`.
pub proof fn lemma_position_is_least(snapshot: Seq<Record>, name: Seq<char>, n: nat)
    requires
        n <= snapshot.len(),
    ensures
        match position_upto(snapshot, name, n) {
            Some(at) => 0 <= at < n && named(snapshot[at], name) && forall|j: int|
                0 <= j < n && named(#[trigger] snapshot[j], name) ==> snapshot[at]->Ok_0.0
                    <= snapshot[j]->Ok_0.0,
            None => forall|j: int| 0 <= j < n ==> !named(#[trigger] snapshot[j], name),
        },
    decreases n,
{
    if n > 0 {
        lemma_position_is_least(snapshot, name, (n - 1) as nat);
    }
}

/// Finds the record that a lookup of `name` under `parent` resolves to.
///
/// Only the root is a parent. Among the usable records called `name` the
/// one with the least identifier is found, whatever the order of the
/// snapshot.
pub fn locate<'a>(snapshot: &'a Vec<Record>, parent: Ino, name: &str) -> (found: Option<
    &'a (Ino, Entry),
>)
    ensures
        found is Some <==> parent == ROOT_INO && position_of(snapshot@, name@) is Some,
        found matches Some(pair) ==> *pair == snapshot@[position_of(snapshot@, name@)->Some_0]->Ok_0
            && !reserved(pair.0) && pair.1@.name == name@,
{
    if parent != ROOT_INO {
        return None;
    }
    let wanted: String = name.to_owned();
    let mut best: Option<&'a (Ino, Entry)> = None;
    let mut i: usize = 0;
    while i < snapshot.len()
        invariant
            i <= snapshot@.len(),
            wanted@ == name@,
            best is Some <==> position_upto(snapshot@, name@, i as nat) is Some,
            best matches Some(pair) ==> *pair == snapshot@[position_upto(
                snapshot@,
                name@,
                i as nat,
            )->Some_0]->Ok_0,
        decreases snapshot@.len() - i,
    {
        proof {
            lemma_position_is_least(snapshot@, name@, i as nat);
        }
        match &snapshot[i] {
            Ok(pair) => {
                if !is_root(pair.0) && *pair.1.name() == wanted {
                    match best {
                        Some(held) => {
                            if held.0 > pair.0 {
                                best = Some(pair);
                            }
                        },
                        None => {
                            best = Some(pair);
                        },
                    }
                }
            },
            Err(_) => {},
        }
        i = i + 1;
    }
    proof {
        lemma_position_is_least(snapshot@, name@, snapshot@.len());
    }
    best
}

/// Answers a lookup of `name` under `parent`.
///
/// The attributes are those of a regular file whose size the content
/// source has not been asked for.
pub fn lookup_in(snapshot: &Result<Vec<Record>, StorageError>, parent: Ino, name: &str) -> (reply:
    Result<(Ino, Attributes), FsError>)
    ensures
        reply == lookup_spec(taken_snapshot(*snapshot), parent, name@),
{
    if !is_root(parent) {
        return Err(FsError::NotFound);
    }
    match snapshot {
        Ok(records) => match locate(records, parent, name) {
            Some(pair) => Ok((pair.0, entry_attributes(pair.0, None))),
            None => Err(FsError::NotFound),
        },
        Err(_) => Err(FsError::IOFailure),
    }
}

/// Resolves `inode` to the entry that backs it.
///
/// A reserved inode is backed by no entry, whatever the repository holds
/// under its number.
pub fn entry_in(inode: Ino, found: Result<Option<Entry>, StorageError>) -> (reply: Result<
    Entry,
    FsError,
>)
    ensures
        reply == entry_spec(inode, found),
{
    if is_root(inode) {
        return Err(FsError::NotFound);
    }
    match found {
        Ok(Some(entry)) => Ok(entry),
        Ok(None) => Err(FsError::NotFound),
        Err(_) => Err(FsError::IOFailure),
    }
}

/// Answers a getattr of `inode`.
///
/// The root has its fixed attributes. Any other inode has the attributes of
/// an entry if the repository holds one under it; `resolved_size` is what
/// the content source said of its length.
pub fn getattr_in(
    inode: Ino,
    found: &Result<Option<Entry>, StorageError>,
    resolved_size: Option<u64>,
) -> (reply: Result<Attributes, FsError>)
    ensures
        reply == getattr_spec(inode, *found, resolved_size),
{
    if is_root(inode) {
        Ok(root_attributes())
    } else {
        match found {
            Ok(Some(_)) => Ok(entry_attributes(inode, resolved_size)),
            Ok(None) => Err(FsError::NotFound),
            Err(_) => Err(FsError::IOFailure),
        }
    }
}

/// Cuts the byte range `[offset, offset + max_length)` out of `content`,
/// clipped to its length. An offset at or past the end gives no bytes.
pub fn read_range(content: &[u8], offset: u64, max_length: u32) -> (bytes: Vec<u8>)
    ensures
        bytes@ == window(content@, offset, max_length),
        offset >= content@.len() ==> bytes@.len() == 0,
        offset < content@.len() ==> bytes@.len() == vstd::math::min(
            max_length as int,
            content@.len() - offset,
        ),
        forall|k: int| 0 <= k < bytes@.len() ==> bytes@[k] == content@[offset + k],
{
    let length: usize = content.len();
    if offset >= length as u64 {
        return Vec::new();
    }
    let start: usize = offset as usize;
    let room: usize = length - start;
    let end: usize = if max_length as u64 >= room as u64 {
        length
    } else {
        start + max_length as usize
    };
    vstd::slice::slice_to_vec(vstd::slice::slice_subrange(content, start, end))
}

/// Answers a read of `inode`.
///
/// The inode must be backed by an entry, and the content source must have
/// given the entry's bytes.
pub fn read_in(
    inode: Ino,
    found: &Result<Option<Entry>, StorageError>,
    content: Option<&[u8]>,
    offset: u64,
    max_length: u32,
) -> (reply: Result<Vec<u8>, FsError>)
    ensures
        bytes_reply(reply) == read_spec(inode, *found, given_content(content), offset, max_length),
{
    if is_root(inode) {
        return Err(FsError::NotFound);
    }
    match found {
        Ok(Some(_)) => match content {
            Some(given) => Ok(read_range(given, offset, max_length)),
            None => Err(FsError::IOFailure),
        },
        Ok(None) => Err(FsError::NotFound),
        Err(_) => Err(FsError::IOFailure),
    }
}

/// Answers a readdir of `inode` from cursor `offset` on.
///
/// Only the root can be listed.
pub fn readdir_in(inode: Ino, snapshot: &Result<Vec<Record>, StorageError>, offset: u64) -> (reply:
    Result<Vec<DirItem>, FsError>)
    requires
        snapshot matches Ok(records) ==> records@.len() + 2 <= usize::MAX,
    ensures
        items_reply(reply) == readdir_spec(inode, taken_snapshot(*snapshot), offset),
{
    if !is_root(inode) {
        return Err(FsError::NotFound);
    }
    match snapshot {
        Ok(records) => Ok(enumerate(records, offset)),
        Err(_) => Err(FsError::IOFailure),
    }
}

/// The filesystem over one repository.
pub struct PlevyFS {
    db: Db,
}

impl PlevyFS {
    /// The repository that the filesystem shows.
    pub closed spec fn repository(&self) -> Db {
        self.db
    }

    /// Makes the filesystem over `db`.
    pub fn new(db: Db) -> (made: Self)
        ensures
            made.repository() == db,
    {
        Self { db }
    }

    /// Resolves `name` under `parent` to an inode and its attributes.
    ///
    /// The reply is the one that [`lookup_in`] gives to what the repository
    /// answered. Under a parent other than the root the repository is not
    /// asked.
    pub fn lookup(&self, parent: Ino, name: &str) -> (reply: Result<(Ino, Attributes), FsError>)
        ensures
            exists|snapshot: Result<Seq<Record>, StorageError>|
                reply == #[trigger] lookup_spec(snapshot, parent, name@),
            parent != ROOT_INO ==> reply == Err::<(Ino, Attributes), FsError>(FsError::NotFound),
            reply matches Ok(found) ==> !reserved(found.0) && found.1 == entry_attributes_spec(
                found.0,
                None,
            ),
    {
        let failed: Result<Vec<Record>, StorageError> = Err(StorageError::Backend);
        let snapshot = if is_root(parent) {
            self.db.list()
        } else {
            failed
        };
        proof {
            if snapshot is Ok {
                lemma_position_is_least(snapshot->Ok_0@, name@, snapshot->Ok_0@.len());
            }
        }
        let reply = lookup_in(&snapshot, parent, name);
        assert(reply == lookup_spec(taken_snapshot(snapshot), parent, name@));
        reply
    }

    /// Gives the attributes of `ino`.
    ///
    /// The reply is the one that [`getattr_in`] gives to what the repository
    /// answered, with a size that the content source was not asked for. For
    /// the root the repository is not asked.
    pub fn getattr(&self, ino: Ino) -> (reply: Result<Attributes, FsError>)
        ensures
            exists|found: Result<Option<Entry>, StorageError>|
                reply == #[trigger] getattr_spec(ino, found, None),
            ino == ROOT_INO ==> reply == Ok::<Attributes, FsError>(root_attributes_spec()),
            reply matches Ok(attrs) ==> attrs.ino == ino,
    {
        let found = if is_root(ino) {
            Ok(None)
        } else {
            self.db.get(ino)
        };
        let reply = getattr_in(ino, &found, None);
        assert(reply == getattr_spec(ino, found, None));
        reply
    }

    /// Resolves `ino` to the entry that backs it, so that the caller can ask
    /// the content source for its length or its bytes.
    ///
    /// The reply is the one that [`entry_in`] gives to what the repository
    /// answered. For a reserved inode the repository is not asked.
    pub fn entry(&self, ino: Ino) -> (reply: Result<Entry, FsError>)
        ensures
            exists|found: Result<Option<Entry>, StorageError>|
                reply == #[trigger] entry_spec(ino, found),
            reserved(ino) ==> reply == Err::<Entry, FsError>(FsError::NotFound),
    {
        let found = if is_root(ino) {
            Ok(None)
        } else {
            self.db.get(ino)
        };
        let reply = entry_in(ino, found);
        assert(reply == entry_spec(ino, found));
        reply
    }

    /// Reads up to `max_length` bytes of `ino` from `offset` on, out of the
    /// bytes that the content source gave for the entry.
    ///
    /// The reply is the one that [`read_in`] gives to what the repository
    /// answered. For a reserved inode the repository is not asked.
    pub fn read(&self, ino: Ino, offset: u64, max_length: u32, content: Option<&[u8]>) -> (reply:
        Result<Vec<u8>, FsError>)
        ensures
            exists|found: Result<Option<Entry>, StorageError>|
                bytes_reply(reply) == #[trigger] read_spec(
                    ino,
                    found,
                    given_content(content),
                    offset,
                    max_length,
                ),
            reserved(ino) ==> reply == Err::<Vec<u8>, FsError>(FsError::NotFound),
            content is None ==> reply is Err,
            reply matches Ok(bytes) ==> content is Some && bytes@ == window(
                content->Some_0@,
                offset,
                max_length,
            ),
    {
        let found = if is_root(ino) {
            Ok(None)
        } else {
            self.db.get(ino)
        };
        let reply = read_in(ino, &found, content, offset, max_length);
        assert(bytes_reply(reply) == read_spec(
            ino,
            found,
            given_content(content),
            offset,
            max_length,
        ));
        reply
    }

    /// Lists the directory `ino` from cursor `offset` on.
    ///
    /// The reply is the one that [`readdir_in`] gives to what the repository
    /// answered; a snapshot too large to be listed in memory counts as a
    /// failure of the repository. For an inode other than the root the
    /// repository is not asked.
    pub fn readdir(&self, ino: Ino, offset: u64) -> (reply: Result<Vec<DirItem>, FsError>)
        ensures
            exists|snapshot: Result<Seq<Record>, StorageError>|
                items_reply(reply) == #[trigger] readdir_spec(ino, snapshot, offset),
            ino != ROOT_INO ==> reply == Err::<Vec<DirItem>, FsError>(FsError::NotFound),
    {
        let failed: Result<Vec<Record>, StorageError> = Err(StorageError::Backend);
        let snapshot = if !is_root(ino) {
            failed
        } else {
            match self.db.list() {
                Ok(records) => if records.len() > usize::MAX - 2 {
                    failed
                } else {
                    Ok(records)
                },
                Err(error) => Err(error),
            }
        };
        let reply = readdir_in(ino, &snapshot, offset);
        assert(items_reply(reply) == readdir_spec(ino, taken_snapshot(snapshot), offset));
        reply
    }
}

} // verus!
