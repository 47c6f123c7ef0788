//! What the management interface answers with.
//!
//! The transport around these functions encodes their results; the
//! functions say what there is to encode.

use vstd::prelude::*;

use crate::db::Db;
use crate::entry::{Entry, EntryView};
use crate::error::StorageError;
use crate::fs::taken_snapshot;
use crate::listing::Record;

verus! {

/// The entries of the decoded records among the first `n` of `snapshot`,
/// in snapshot order.
pub open spec fn entries_upto(snapshot: Seq<Record>, n: nat) -> Seq<EntryView>
    decreases n,
{
    if n == 0 {
        Seq::empty()
    } else {
        let before = entries_upto(snapshot, (n - 1) as nat);
        match snapshot[n - 1] {
            Ok(pair) => before.push(pair.1@),
            Err(_) => before,
        }
    }
}

/// The views of the entries of `entries`, in order.
pub open spec fn entry_views(entries: Seq<Entry>) -> Seq<EntryView> {
    Seq::new(entries.len(), |k: int| entries[k]@)
}

/// The entries of a snapshot: one for every record that was decoded, in
/// snapshot order. Records that were not decoded are left out.
pub fn entries_of(snapshot: &Vec<Record>) -> (entries: Vec<Entry>)
    ensures
        entry_views(entries@) == entries_upto(snapshot@, snapshot@.len()),
        entries@.len() <= snapshot@.len(),
{
    let mut entries: Vec<Entry> = Vec::new();
    let mut i: usize = 0;
    while i < snapshot.len()
        invariant
            i <= snapshot@.len(),
            entries@.len() <= i,
            entry_views(entries@) == entries_upto(snapshot@, i as nat),
        decreases snapshot@.len() - i,
    {
        let ghost before = entries@;
        match &snapshot[i] {
            Ok(pair) => {
                entries.push(pair.1.duplicate());
                assert(entry_views(entries@) =~= entry_views(before).push(pair.1@));
            },
            Err(_) => {},
        }
        i = i + 1;
    }
    entries
}

/// What the listing of the entries answers with, where `snapshot` is what
/// the repository answered: the entries of the snapshot, or the failure of
/// the repository.
pub open spec fn list_spec(snapshot: Result<Seq<Record>, StorageError>) -> Result<
    Seq<EntryView>,
    StorageError,
> {
    match snapshot {
        Ok(records) => Ok(entries_upto(records, records.len())),
        Err(error) => Err(error),
    }
}

/// The answer of a listing, with the entries as plain values.
pub open spec fn entries_reply(listed: Result<Vec<Entry>, StorageError>) -> Result<
    Seq<EntryView>,
    StorageError,
> {
    match listed {
        Ok(entries) => Ok(entry_views(entries@)),
        Err(error) => Err(error),
    }
}

/// Answers a listing of the entries.
///
/// A failure of the repository as a whole is handed on and is never
/// answered with an empty list; a record that does not decode is left out.
pub fn list_in(snapshot: &Result<Vec<Record>, StorageError>) -> (listed: Result<
    Vec<Entry>,
    StorageError,
>)
    ensures
        entries_reply(listed) == list_spec(taken_snapshot(*snapshot)),
{
    match snapshot {
        Ok(records) => Ok(entries_of(records)),
        Err(error) => Err(*error),
    }
}

/// Lists the entries of the repository.
///
/// The answer is the one that [`list_in`] gives to what the repository
/// answered.
pub fn list(db: &Db) -> (listed: Result<Vec<Entry>, StorageError>)
    ensures
        exists|snapshot: Result<Seq<Record>, StorageError>|
            entries_reply(listed) == #[trigger] list_spec(snapshot),
        listed matches Err(error) ==> error == StorageError::Backend,
{
    let snapshot = db.list();
    let listed = list_in(&snapshot);
    assert(entries_reply(listed) == list_spec(taken_snapshot(snapshot)));
    listed
}

} // verus!
