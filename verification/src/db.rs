//! The entry repository: a persistent store of `(identifier, entry)` pairs.
//!
//! The store is a `sled` database; the entries live in one tree of it. A
//! handle is cheap to clone and every clone works on the same store. The
//! store is shared with other threads and with the disk, so nothing here
//! says what a call will find: each operation states what holds of whatever
//! the store answered, and the decoding of an answer is stated exactly in
//! [`crate::codec`] and in the functions below that take the answer as an
//! argument.

use vstd::prelude::*;

use crate::Ino;
use crate::codec::{
    decode_entry,
    decode_record,
    decodes_to,
    encode_entry,
    encode_key,
    pair_fault,
    value_decoding,
};
use crate::entry::Entry;
use crate::error::StorageError;
use crate::inode::{reserved, to_inode};
use crate::listing::Record;

verus! {

/// The open database. Verus sees nothing inside it: it is only handed to the
/// calls below.
#[verifier::external_body]
struct Store {
    inner: sled::Db,
}

impl Clone for Store {
    /// Calls `clone` on the `sled::Db`, which gives a second handle to the
    /// same database.
    #[verifier::external_body]
    fn clone(&self) -> (copy: Self) {
        Store { inner: self.inner.clone() }
    }
}

/// A tree of a `sled` database, taken as it is.
#[verifier::external_type_specification]
#[verifier::external_body]
pub struct ExSledTree(sled::Tree);

/// A walk over a `sled` tree, taken as it is.
#[verifier::external_type_specification]
#[verifier::external_body]
pub struct ExSledIter(sled::Iter);

/// The byte string that a `sled` walk yields, taken as it is.
#[verifier::external_type_specification]
#[verifier::external_body]
pub struct ExSledIVec(sled::IVec);

/// The error of a `sled` call, taken as it is.
#[verifier::external_type_specification]
#[verifier::external_body]
pub struct ExSledError(sled::Error);

/// `clone` on a `sled::Tree` gives a second handle to the same tree.
pub assume_specification[ <sled::Tree as Clone>::clone ](tree: &sled::Tree) -> (copy: sled::Tree);

/// Calls `sled::open`, which opens the database at `path` and creates it
/// where there is none. Nothing is claimed of the outcome.
#[verifier::external_body]
fn open_database(path: &str) -> (opened: Result<Store, sled::Error>) {
    sled::open(path).map(|inner| Store { inner })
}

/// Calls `sled::Db::open_tree`, which opens the tree called `name` and
/// creates it where there is none. Nothing is claimed of the outcome.
#[verifier::external_body]
fn open_tree(database: &Store, name: &str) -> (opened: Result<sled::Tree, sled::Error>) {
    database.inner.open_tree(name)
}

/// Calls `sled::Db::generate_id`. Nothing is claimed of the number that
/// comes back: it depends on what the store has handed out before.
#[verifier::external_body]
fn generate_id(database: &Store) -> (generated: Result<u64, sled::Error>) {
    database.inner.generate_id()
}

/// Calls `sled::Tree::insert` and hands back the value that the key had
/// before, as plain bytes. Nothing is claimed of the outcome.
#[verifier::external_body]
fn tree_insert(tree: &sled::Tree, key: &[u8], value: Vec<u8>) -> (previous: Result<
    Option<Vec<u8>>,
    sled::Error,
>) {
    tree.insert(key, value).map(|old| old.map(|bytes| bytes.to_vec()))
}

/// Calls `sled::Tree::get` and hands back the value found, as plain bytes.
/// Nothing is claimed of the outcome.
#[verifier::external_body]
fn tree_get(tree: &sled::Tree, key: &[u8]) -> (found: Result<Option<Vec<u8>>, sled::Error>) {
    tree.get(key).map(|value| value.map(|bytes| bytes.to_vec()))
}

/// Calls `sled::Tree::iter`, which starts a walk over the whole tree.
#[verifier::external_body]
fn tree_iter(tree: &sled::Tree) -> (walk: sled::Iter) {
    tree.iter()
}

/// Calls `next` on a `sled::Iter` and hands back the pair reached, as plain
/// bytes. Nothing is claimed of the outcome. The walk gives up with a panic
/// when the tree cannot be traversed after a million attempts.
#[verifier::external_body]
fn walk_next(walk: &mut sled::Iter) -> (step: Option<Result<(Vec<u8>, Vec<u8>), sled::Error>>) {
    walk.next().map(|item| item.map(|(key, value)| (key.to_vec(), value.to_vec())))
}

/// A handle to the repository.
pub struct Db {
    db: Store,
    entries: sled::Tree,
}

impl Clone for Db {
    /// A second handle to the same repository.
    fn clone(&self) -> (copy: Self) {
        Db { db: self.db.clone(), entries: self.entries.clone() }
    }
}

/// The name of the tree that holds the entries.
pub const ENTRIES_TREE: &'static str = "entries";

/// The bytes that the store answered with, if it answered with any.
pub open spec fn stored_bytes(stored: Option<Vec<u8>>) -> Option<Seq<u8>> {
    match stored {
        Some(value) => Some(value@),
        None => None,
    }
}

/// What a point lookup returns for the value that the store answered
/// with: no entry where there was no value, the entry where the value
/// decodes, a failure where it does not.
pub open spec fn is_found_entry(
    stored: Option<Seq<u8>>,
    found: Result<Option<Entry>, StorageError>,
) -> bool {
    match stored {
        None => found == Ok::<Option<Entry>, StorageError>(None),
        Some(value) => match value_decoding(value) {
            Some(view) => found matches Ok(Some(entry)) && entry@ == view,
            None => found == Err::<Option<Entry>, StorageError>(StorageError::Encoding),
        },
    }
}

/// What an existence check returns for the value that the store answered
/// with: an entry is held where the value decodes to one, none is held where
/// there was no value, and a value that does not decode is a failure.
pub open spec fn held_entry_spec(stored: Option<Seq<u8>>) -> Result<bool, StorageError> {
    match stored {
        None => Ok(false),
        Some(value) => if value_decoding(value) is Some {
            Ok(true)
        } else {
            Err(StorageError::Encoding)
        },
    }
}

/// Turns the value that the store answered a point lookup with into the
/// entry found.
pub fn found_entry(stored: Option<Vec<u8>>) -> (found: Result<Option<Entry>, StorageError>)
    ensures
        is_found_entry(stored_bytes(stored), found),
{
    match stored {
        None => Ok(None),
        Some(value) => match decode_entry(value.as_slice()) {
            Ok(entry) => Ok(Some(entry)),
            Err(_) => Err(StorageError::Encoding),
        },
    }
}

/// Turns the value that the store answered a point lookup with into the
/// answer to an existence check.
///
/// The value is decoded, so that an entry is held exactly where a point
/// lookup gives one.
pub fn held_entry(stored: Option<Vec<u8>>) -> (held: Result<bool, StorageError>)
    ensures
        held == held_entry_spec(stored_bytes(stored)),
{
    match found_entry(stored) {
        Ok(found) => Ok(found.is_some()),
        Err(error) => Err(error),
    }
}

/// An existence check agrees with a point lookup on every answer of the
/// store: it holds an entry exactly where the lookup finds one, and it
/// fails exactly where the lookup fails.
pub proof fn lemma_has_agrees_with_get(
    stored: Option<Seq<u8>>,
    found: Result<Option<Entry>, StorageError>,
)
    requires
        is_found_entry(stored, found),
    ensures
        held_entry_spec(stored) == (match found {
            Ok(entry) => Ok::<bool, StorageError>(entry is Some),
            Err(error) => Err::<bool, StorageError>(error),
        }),
{
}

/// The identifier to store under, given what the generator offered first
/// and what it offered when it was asked once more: the first offer that is
/// not reserved.
pub open spec fn accepted(first: Ino, second: Ino) -> Result<Ino, StorageError> {
    if !reserved(first) {
        Ok(first)
    } else if !reserved(second) {
        Ok(second)
    } else {
        Err(StorageError::IdentifierSpace)
    }
}

/// Picks the identifier to store under from two offers of the generator.
pub fn accept(first: Ino, second: Ino) -> (identifier: Result<Ino, StorageError>)
    ensures
        identifier == accepted(first, second),
        identifier matches Ok(chosen) ==> !reserved(chosen),
{
    match to_inode(first) {
        Some(chosen) => Ok(chosen),
        None => match to_inode(second) {
            Some(chosen) => Ok(chosen),
            None => Err(StorageError::IdentifierSpace),
        },
    }
}

/// Whether the generator handed out `number` in the call that it answered
/// with `offer`: the first offer always, the second only where the first
/// was reserved and the generator was asked once more.
pub open spec fn handed_out(offer: (Ino, Ino), number: Ino) -> bool {
    number == offer.0 || (reserved(offer.0) && number == offer.1)
}

/// Where the generator never hands out a number twice, no two calls are
/// given the same identifier to store under, however many calls there are.
pub proof fn lemma_accepted_identifiers_are_distinct(offers: Seq<(Ino, Ino)>, i: int, j: int)
    requires
        0 <= i < offers.len(),
        0 <= j < offers.len(),
        i != j,
        forall|a: int, b: int, m: Ino, n: Ino|
            0 <= a < offers.len() && 0 <= b < offers.len() && a != b && #[trigger] handed_out(
                offers[a],
                m,
            ) && #[trigger] handed_out(offers[b], n) ==> m != n,
        accepted(offers[i].0, offers[i].1) is Ok,
        accepted(offers[j].0, offers[j].1) is Ok,
    ensures
        accepted(offers[i].0, offers[i].1)->Ok_0 != accepted(offers[j].0, offers[j].1)->Ok_0,
        !reserved(accepted(offers[i].0, offers[i].1)->Ok_0),
{
    let first = accepted(offers[i].0, offers[i].1)->Ok_0;
    let second = accepted(offers[j].0, offers[j].1)->Ok_0;
    assert(handed_out(offers[i], first));
    assert(handed_out(offers[j], second));
}

/// Whether `records` is the snapshot of the stored pairs `pairs`: one
/// record for every pair, in the same order, each what its pair decodes to.
pub open spec fn is_snapshot_of(pairs: Seq<(Vec<u8>, Vec<u8>)>, records: Seq<Record>) -> bool {
    &&& records.len() == pairs.len()
    &&& forall|i: int|
        0 <= i < pairs.len() ==> decodes_to(pairs[i].0@, pairs[i].1@, #[trigger] records[i])
}

/// Decodes the stored pairs that a walk over the store yielded into a
/// snapshot.
///
/// Every pair gives one record, in the order of the pairs. A pair that does
/// not decode gives its fault; it neither ends the snapshot nor takes
/// another record out of it.
pub fn records_of(pairs: &Vec<(Vec<u8>, Vec<u8>)>) -> (records: Vec<Record>)
    ensures
        is_snapshot_of(pairs@, records@),
        records@.len() == pairs@.len(),
        forall|i: int|
            0 <= i < pairs@.len() ==> decodes_to(
                pairs@[i].0@,
                pairs@[i].1@,
                #[trigger] records@[i],
            ),
        forall|i: int|
            0 <= i < pairs@.len() ==> ((#[trigger] records@[i]) is Ok <==> pair_fault(
                pairs@[i].0@,
                pairs@[i].1@,
            ) is None),
{
    let mut records: Vec<Record> = Vec::new();
    let mut i: usize = 0;
    while i < pairs.len()
        invariant
            i <= pairs@.len(),
            records@.len() == i,
            forall|k: int|
                0 <= k < i ==> decodes_to(pairs@[k].0@, pairs@[k].1@, #[trigger] records@[k]),
        decreases pairs@.len() - i,
    {
        let record = decode_record(pairs[i].0.as_slice(), pairs[i].1.as_slice());
        records.push(record);
        i = i + 1;
    }
    records
}

impl Db {
    /// Opens the repository at `db_path`, creating it where there is none.
    pub fn new(db_path: &str) -> (opened: Result<Db, StorageError>)
        ensures
            opened matches Err(error) ==> error == StorageError::Backend,
    {
        let db = match open_database(db_path) {
            Ok(db) => db,
            Err(_) => {
                return Err(StorageError::Backend);
            },
        };
        let entries = match open_tree(&db, ENTRIES_TREE) {
            Ok(tree) => tree,
            Err(_) => {
                return Err(StorageError::Backend);
            },
        };
        Ok(Db { db, entries })
    }

    /// Takes a snapshot of the whole repository.
    ///
    /// The store is walked from end to end. Where the walk succeeds, the
    /// result is the snapshot that [`records_of`] gives for the pairs that
    /// it yielded: a pair that does not decode is kept as its fault and
    /// never fails the call. Where the store fails during the walk, or the
    /// walk yields more pairs than a vector can hold, the whole call fails.
    pub fn list(&self) -> (snapshot: Result<Vec<Record>, StorageError>)
        ensures
            snapshot is Ok ==> exists|pairs: Seq<(Vec<u8>, Vec<u8>)>| #[trigger]
                is_snapshot_of(pairs, snapshot->Ok_0@),
            snapshot matches Err(error) ==> error == StorageError::Backend,
    {
        let mut walk = tree_iter(&self.entries);
        let mut pairs: Vec<(Vec<u8>, Vec<u8>)> = Vec::new();
        let mut complete: bool = false;
        while pairs.len() < usize::MAX
            decreases usize::MAX - pairs@.len(),
        {
            match walk_next(&mut walk) {
                None => {
                    complete = true;
                    break ;
                },
                Some(Err(_)) => {
                    return Err(StorageError::Backend);
                },
                Some(Ok(pair)) => {
                    pairs.push(pair);
                },
            }
        }
        if !complete {
            return Err(StorageError::Backend);
        }
        let snapshot: Result<Vec<Record>, StorageError> = Ok(records_of(&pairs));
        assert(is_snapshot_of(pairs@, snapshot->Ok_0@));
        snapshot
    }

    /// Stores `entry` under a fresh identifier and returns the identifier.
    ///
    /// The identifier comes from the store's generator and is the one that
    /// [`accept`] picks from its offers: a reserved identifier is never
    /// used, and where the generator offers one, it is asked once more. The
    /// entry is written in one step, so a failed call leaves nothing behind.
    /// The call fails only where the store fails or the generator offers
    /// nothing but reserved identifiers.
    pub fn add(&self, entry: Entry) -> (added: Result<Ino, StorageError>)
        ensures
            added matches Ok(identifier) ==> !reserved(identifier),
            added matches Err(error) ==> error == StorageError::Backend || error
                == StorageError::IdentifierSpace,
    {
        let first = match generate_id(&self.db) {
            Ok(offer) => offer,
            Err(_) => {
                return Err(StorageError::Backend);
            },
        };
        let second = match to_inode(first) {
            Some(_) => first,
            None => match generate_id(&self.db) {
                Ok(offer) => offer,
                Err(_) => {
                    return Err(StorageError::Backend);
                },
            },
        };
        let identifier = match accept(first, second) {
            Ok(chosen) => chosen,
            Err(error) => {
                return Err(error);
            },
        };
        let key = match encode_key(identifier) {
            Ok(bytes) => bytes,
            Err(error) => {
                return Err(error);
            },
        };
        let value = match encode_entry(&entry) {
            Ok(bytes) => bytes,
            Err(error) => {
                return Err(error);
            },
        };
        match tree_insert(&self.entries, key.as_slice(), value) {
            Ok(_) => Ok(identifier),
            Err(_) => Err(StorageError::Backend),
        }
    }

    /// Looks up the entry stored under `ino`.
    ///
    /// Where the store answers, the result is the one that [`found_entry`]
    /// gives to its answer; where the store fails, the call fails with
    /// [`StorageError::Backend`].
    pub fn get(&self, ino: Ino) -> (found: Result<Option<Entry>, StorageError>)
        ensures
            found == Err::<Option<Entry>, StorageError>(StorageError::Backend) || exists|
                stored: Option<Seq<u8>>,
            | #[trigger] is_found_entry(stored, found),
    {
        let key = match encode_key(ino) {
            Ok(bytes) => bytes,
            Err(error) => {
                return Err(error);
            },
        };
        match tree_get(&self.entries, key.as_slice()) {
            Ok(stored) => {
                let ghost bytes = stored_bytes(stored);
                let found = found_entry(stored);
                assert(is_found_entry(bytes, found));
                found
            },
            Err(_) => Err(StorageError::Backend),
        }
    }

    /// Tells whether an entry is stored under `ino`.
    ///
    /// Where the store answers, the result is the one that [`held_entry`]
    /// gives to its answer, so the check agrees with [`Db::get`] on what the
    /// store holds; where the store fails, the call fails with
    /// [`StorageError::Backend`].
    pub fn has(&self, ino: Ino) -> (present: Result<bool, StorageError>)
        ensures
            present == Err::<bool, StorageError>(StorageError::Backend) || exists|
                stored: Option<Seq<u8>>,
            | present == #[trigger] held_entry_spec(stored),
    {
        let key = match encode_key(ino) {
            Ok(bytes) => bytes,
            Err(error) => {
                return Err(error);
            },
        };
        match tree_get(&self.entries, key.as_slice()) {
            Ok(stored) => {
                let ghost bytes = stored_bytes(stored);
                let present = held_entry(stored);
                assert(present == held_entry_spec(bytes));
                present
            },
            Err(_) => Err(StorageError::Backend),
        }
    }
}

} // verus!
