//! What holds across the operations of the filesystem.
//!
//! The statements speak of one snapshot of the repository. An entry is in
//! the repository when the snapshot holds a usable record for it, and the
//! repository answers a question about an identifier as the snapshot shows
//! it.

use vstd::prelude::*;

use crate::Ino;
use crate::attr::{Attributes, FileKind};
use crate::entry::Entry;
use crate::error::{FsError, StorageError};
use crate::fs::{getattr_spec, lookup_spec, lemma_position_is_least, named, position_of};
use crate::inode::{ROOT_INO, reserved};
use crate::listing::{
    DirItemView,
    Record,
    cursor_at,
    lemma_every_record_is_listed,
    lemma_nodes_are_the_usable_records,
    listing,
    listing_from,
    nodes,
    offered,
    usable,
};

verus! {

/// What the repository answers a point lookup of `identifier` with, where
/// `snapshot` shows its contents: an entry that the snapshot shows under
/// that identifier, or nothing where it shows none.
pub open spec fn answers(
    snapshot: Seq<Record>,
    identifier: Ino,
    found: Result<Option<Entry>, StorageError>,
) -> bool {
    match found {
        Ok(Some(entry)) => exists|i: int|
            0 <= i < snapshot.len() && usable(#[trigger] snapshot[i]) && snapshot[i]->Ok_0 == (
                identifier,
                entry,
            ),
        Ok(None) => forall|i: int|
            0 <= i < snapshot.len() && usable(#[trigger] snapshot[i]) ==> snapshot[i]->Ok_0.0
                != identifier,
        Err(_) => false,
    }
}

/// Every entry of the repository is found by its name from the root. What
/// is found is an entry of that name and a regular file, and getattr on the
/// inode found answers with a regular file of the same inode.
///
/// `found` is the repository's answer to the point lookup that getattr makes
/// for the inode found; `resolved_size` is whatever the content source said.
pub proof fn lemma_stored_entry_is_found(
    snapshot: Seq<Record>,
    i: int,
    found: Result<Option<Entry>, StorageError>,
    resolved_size: Option<u64>,
)
    requires
        0 <= i < snapshot.len(),
        usable(snapshot[i]),
        answers(
            snapshot,
            lookup_spec(Ok(snapshot), ROOT_INO, snapshot[i]->Ok_0.1@.name)->Ok_0.0,
            found,
        ),
    ensures
        lookup_spec(Ok(snapshot), ROOT_INO, snapshot[i]->Ok_0.1@.name) matches Ok(looked_up) && {
            &&& looked_up.0 <= snapshot[i]->Ok_0.0
            &&& looked_up.0 == looked_up.1.ino
            &&& looked_up.1.kind == FileKind::RegularFile
            &&& !reserved(looked_up.0)
            &&& getattr_spec(looked_up.0, found, resolved_size) matches Ok(attrs) && attrs.kind
                == FileKind::RegularFile && attrs.ino == looked_up.0
        },
{
    let name = snapshot[i]->Ok_0.1@.name;
    lemma_position_is_least(snapshot, name, snapshot.len());
    assert(named(snapshot[i], name));
    let at = position_of(snapshot, name)->Some_0;
    assert(usable(snapshot[at]));
}

/// A name that no entry of the repository has is not found, and nothing is
/// found under a parent other than the root.
pub proof fn lemma_absent_name_is_not_found(snapshot: Seq<Record>, parent: Ino, name: Seq<char>)
    requires
        parent != ROOT_INO || forall|i: int|
            0 <= i < snapshot.len() ==> !named(#[trigger] snapshot[i], name),
    ensures
        lookup_spec(Ok(snapshot), parent, name) == Err::<(Ino, Attributes), FsError>(
            FsError::NotFound,
        ),
{
    lemma_position_is_least(snapshot, name, snapshot.len());
}

/// Every node of a listing behind `.` and `..` is an entry of the
/// repository, and getattr on its inode succeeds.
///
/// `found` is the repository's answer to the point lookup that getattr makes
/// for the node's inode; `resolved_size` is whatever the content source
/// said.
pub proof fn lemma_listed_nodes_have_attributes(
    snapshot: Seq<Record>,
    position: int,
    found: Result<Option<Entry>, StorageError>,
    resolved_size: Option<u64>,
)
    requires
        2 <= position < listing(snapshot).len(),
        listing(snapshot)[position] is Node,
        answers(snapshot, listing(snapshot)[position]->ino, found),
    ensures
        ({
            let ino = listing(snapshot)[position]->ino;
            &&& !reserved(ino)
            &&& exists|i: int|
                0 <= i < snapshot.len() && usable(#[trigger] snapshot[i]) && snapshot[i]->Ok_0.0
                    == ino
            &&& listing(snapshot)[position]->kind == FileKind::RegularFile
            &&& getattr_spec(ino, found, resolved_size) matches Ok(attrs) && attrs.ino == ino
                && attrs.kind == FileKind::RegularFile
        }),
{
    let shown = nodes(snapshot);
    lemma_every_record_is_listed(snapshot, snapshot.len());
    lemma_nodes_are_the_usable_records(snapshot, snapshot.len());
    let pair = shown[position - 2];
    assert(shown.contains(pair));
    assert(offered(snapshot, snapshot.len(), pair));
    let i = choose|i: int|
        0 <= i < snapshot.len() && usable(#[trigger] snapshot[i]) && snapshot[i]->Ok_0 == pair;
    assert(usable(snapshot[i]) && snapshot[i]->Ok_0.0 == pair.0);
}

/// Every entry of the repository is a node of the listing.
pub proof fn lemma_stored_entry_is_listed(snapshot: Seq<Record>, i: int) -> (position: int)
    requires
        0 <= i < snapshot.len(),
        usable(snapshot[i]),
    ensures
        2 <= position < listing(snapshot).len(),
        listing(snapshot)[position] == (DirItemView::Node {
            ino: snapshot[i]->Ok_0.0,
            kind: FileKind::RegularFile,
            name: snapshot[i]->Ok_0.1@.name,
            cursor: cursor_at(position),
        }),
{
    let shown = nodes(snapshot);
    lemma_every_record_is_listed(snapshot, snapshot.len());
    lemma_nodes_are_the_usable_records(snapshot, snapshot.len());
    let pair = snapshot[i]->Ok_0;
    assert(offered(snapshot, snapshot.len(), pair));
    assert(shown.contains(pair));
    let k = choose|k: int| 0 <= k < shown.len() && shown[k] == pair;
    k + 2
}

/// What a lookup from the root finds is a node of the listing, under the
/// inode and the name that were found.
pub proof fn lemma_found_entry_is_listed(snapshot: Seq<Record>, name: Seq<char>) -> (position: int)
    requires
        lookup_spec(Ok(snapshot), ROOT_INO, name) is Ok,
    ensures
        2 <= position < listing(snapshot).len(),
        listing(snapshot)[position] == (DirItemView::Node {
            ino: lookup_spec(Ok(snapshot), ROOT_INO, name)->Ok_0.0,
            kind: FileKind::RegularFile,
            name,
            cursor: cursor_at(position),
        }),
{
    lemma_position_is_least(snapshot, name, snapshot.len());
    let at = position_of(snapshot, name)->Some_0;
    lemma_stored_entry_is_listed(snapshot, at)
}

/// A listing that starts at or past the end is empty, and one that starts
/// at 0 is the whole listing.
pub proof fn lemma_listing_ends(snapshot: Seq<Record>, offset: u64)
    ensures
        listing(snapshot).len() == snapshot.len() + 2,
        offset >= snapshot.len() + 2 ==> listing_from(snapshot, offset).len() == 0,
        offset < snapshot.len() + 2 ==> listing_from(snapshot, offset).len() == snapshot.len() + 2
            - offset,
        listing_from(snapshot, 0) == listing(snapshot),
{
    assert(listing(snapshot).skip(0) =~= listing(snapshot));
}

/// A call that stopped after `emitted` items is resumed by a call at the
/// cursor of the last item emitted: the two together yield what one call
/// would have, with nothing twice and nothing left out.
pub proof fn lemma_listing_resumes(snapshot: Seq<Record>, offset: u64, emitted: nat)
    requires
        emitted <= listing_from(snapshot, offset).len(),
        snapshot.len() + 2 <= u64::MAX,
    ensures
        listing_from(snapshot, offset).take(emitted as int) + listing_from(
            snapshot,
            (offset + emitted) as u64,
        ) == listing_from(snapshot, offset),
        emitted > 0 ==> match listing_from(snapshot, offset)[emitted - 1] {
            DirItemView::Node { cursor, .. } => cursor == offset + emitted,
            DirItemView::Skipped { cursor, .. } => cursor == offset + emitted,
        },
{
    let whole = listing_from(snapshot, offset);
    let rest = listing_from(snapshot, (offset + emitted) as u64);
    assert(whole.take(emitted as int) + rest =~= whole);
}

/// What a caller consumes of the call at cursor `offset` when its reply
/// holds at most `size` items.
pub open spec fn page(snapshot: Seq<Record>, offset: u64, size: nat) -> Seq<DirItemView> {
    let rest = listing_from(snapshot, offset);
    if size >= rest.len() {
        rest
    } else {
        rest.take(size as int)
    }
}

/// The pages of the calls at cursors `0`, `size`, `2 * size`, ... up to
/// `count` calls, one behind the other.
pub open spec fn pages(snapshot: Seq<Record>, size: nat, count: nat) -> Seq<DirItemView>
    decreases count,
{
    if count == 0 {
        Seq::empty()
    } else {
        pages(snapshot, size, (count - 1) as nat) + page(
            snapshot,
            ((count - 1) * size) as u64,
            size,
        )
    }
}

/// Paginated calls yield, one behind the other, the front of the listing
/// that one call at cursor 0 yields.
pub proof fn lemma_pages_are_a_front(snapshot: Seq<Record>, size: nat, count: nat)
    requires
        size > 0,
        count * size <= u64::MAX,
    ensures
        count * size <= listing(snapshot).len() ==> pages(snapshot, size, count) == listing(
            snapshot,
        ).take((count * size) as int),
        count * size >= listing(snapshot).len() ==> pages(snapshot, size, count) == listing(
            snapshot,
        ),
    decreases count,
{
    let whole = listing(snapshot);
    if count == 0 {
        assert(count * size == 0) by (nonlinear_arith)
            requires
                count == 0,
        ;
        assert(whole.take(0) =~= Seq::<DirItemView>::empty());
    } else {
        let done: nat = (count - 1) as nat;
        assert(done * size + size == count * size) by (nonlinear_arith)
            requires
                done + 1 == count,
        ;
        lemma_pages_are_a_front(snapshot, size, done);
        let start: nat = done * size;
        let end: nat = count * size;
        let earlier = pages(snapshot, size, done);
        let last = page(snapshot, start as u64, size);
        assert(pages(snapshot, size, count) == earlier + last);
        if start >= whole.len() {
            assert(earlier == whole);
            assert(last =~= Seq::<DirItemView>::empty());
            assert(earlier + last =~= whole);
        } else if end <= whole.len() {
            assert(earlier == whole.take(start as int));
            assert(listing_from(snapshot, start as u64) == whole.skip(start as int));
            assert(last =~= whole.subrange(start as int, end as int));
            assert(earlier + last =~= whole.take(end as int));
        } else {
            assert(earlier == whole.take(start as int));
            assert(listing_from(snapshot, start as u64) == whole.skip(start as int));
            assert(last =~= whole.skip(start as int));
            assert(earlier + last =~= whole);
        }
    }
}

/// Paginated calls with cursors `0`, `size`, `2 * size`, ... yield, one
/// behind the other, exactly what one call with cursor 0 yields, once they
/// have reached the end.
pub proof fn lemma_pages_concatenate(snapshot: Seq<Record>, size: nat, count: nat)
    requires
        size > 0,
        count * size <= u64::MAX,
        count * size >= snapshot.len() + 2,
    ensures
        pages(snapshot, size, count) == listing_from(snapshot, 0),
{
    lemma_pages_are_a_front(snapshot, size, count);
    lemma_listing_ends(snapshot, 0);
}

} // verus!
