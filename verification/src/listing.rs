//! The directory enumerator.
//!
//! A listing is built from one snapshot of the repository. It is the fixed
//! prefix `.` and `..`, then one node for every usable record, ordered by
//! identifier, then one skipped item for every record that cannot be shown.
//! The item at position `p` carries the cursor `p + 1`; a call that starts at
//! cursor `c` resumes right behind the item that carried `c`.
//!
//! Nothing is kept between calls: each call sorts its own snapshot, so the
//! order never depends on the order in which the store walked its records.

use vstd::prelude::*;

use crate::Ino;
use crate::attr::FileKind;
use crate::entry::Entry;
use crate::error::DecodeError;
use crate::inode::{ROOT_INO, is_root, reserved};

verus! {

/// One element of a repository snapshot: a decoded record, or the reason
/// why the stored record could not be decoded.
pub type Record = Result<(Ino, Entry), DecodeError>;

/// One item of a directory listing.
#[derive(Debug)]
pub enum DirItem {
    /// A node of the directory.
    Node { ino: Ino, kind: FileKind, name: String, cursor: u64 },
    /// The place of a record that cannot be shown. It takes part in the
    /// numbering, so that the caller can report it and go on.
    Skipped { error: DecodeError, cursor: u64 },
}

/// What a [`DirItem`] holds, as plain values.
pub enum DirItemView {
    Node { ino: Ino, kind: FileKind, name: Seq<char>, cursor: u64 },
    Skipped { error: DecodeError, cursor: u64 },
}

impl View for DirItem {
    type V = DirItemView;

    open spec fn view(&self) -> DirItemView {
        match *self {
            DirItem::Node { ino, kind, name, cursor } => DirItemView::Node {
                ino,
                kind,
                name: name@,
                cursor,
            },
            DirItem::Skipped { error, cursor } => DirItemView::Skipped { error, cursor },
        }
    }
}

/// The views of the items of `items`, in order.
pub open spec fn item_views(items: Seq<DirItem>) -> Seq<DirItemView> {
    Seq::new(items.len(), |k: int| items[k]@)
}

/// Whether `record` is shown as a node: it was decoded and its identifier is
/// not reserved.
pub open spec fn usable(record: Record) -> bool {
    record matches Ok(pair) && !reserved(pair.0)
}

/// Why a record that is not usable is skipped.
pub open spec fn fault_of(record: Record) -> DecodeError {
    match record {
        Ok(_) => DecodeError::ReservedIdentifier,
        Err(error) => error,
    }
}

/// `sorted` with `pair` put behind the last element whose identifier is not
/// greater.
pub open spec fn place(sorted: Seq<(Ino, Entry)>, pair: (Ino, Entry)) -> Seq<(Ino, Entry)>
    decreases sorted.len(),
{
    if sorted.len() == 0 || sorted.last().0 <= pair.0 {
        sorted.push(pair)
    } else {
        place(sorted.drop_last(), pair).push(sorted.last())
    }
}

/// The usable records among the first `n` of `snapshot`, by ascending
/// identifier; records of one identifier stay in snapshot order.
pub open spec fn nodes_upto(snapshot: Seq<Record>, n: nat) -> Seq<(Ino, Entry)>
    decreases n,
{
    if n == 0 {
        Seq::empty()
    } else {
        let before = nodes_upto(snapshot, (n - 1) as nat);
        if usable(snapshot[n - 1]) {
            place(before, snapshot[n - 1]->Ok_0)
        } else {
            before
        }
    }
}

/// The faults of the records among the first `n` of `snapshot` that are
/// not usable, in snapshot order.
pub open spec fn faults_upto(snapshot: Seq<Record>, n: nat) -> Seq<DecodeError>
    decreases n,
{
    if n == 0 {
        Seq::empty()
    } else {
        let before = faults_upto(snapshot, (n - 1) as nat);
        if usable(snapshot[n - 1]) {
            before
        } else {
            before.push(fault_of(snapshot[n - 1]))
        }
    }
}

/// The usable records of `snapshot`, by ascending identifier.
pub open spec fn nodes(snapshot: Seq<Record>) -> Seq<(Ino, Entry)> {
    nodes_upto(snapshot, snapshot.len())
}

/// The faults of the records of `snapshot` that are not usable.
pub open spec fn faults(snapshot: Seq<Record>) -> Seq<DecodeError> {
    faults_upto(snapshot, snapshot.len())
}

/// The cursor carried by the item at `position`.
pub open spec fn cursor_at(position: int) -> u64 {
    (position + 1) as u64
}

/// The item at `position` of the listing of `snapshot`.
pub open spec fn item_at(snapshot: Seq<Record>, position: int) -> DirItemView {
    let shown = nodes(snapshot);
    if position == 0 {
        DirItemView::Node { ino: ROOT_INO, kind: FileKind::Directory, name: seq!['.'], cursor: 1 }
    } else if position == 1 {
        DirItemView::Node {
            ino: ROOT_INO,
            kind: FileKind::Directory,
            name: seq!['.', '.'],
            cursor: 2,
        }
    } else if position - 2 < shown.len() {
        DirItemView::Node {
            ino: shown[position - 2].0,
            kind: FileKind::RegularFile,
            name: shown[position - 2].1@.name,
            cursor: cursor_at(position),
        }
    } else {
        DirItemView::Skipped {
            error: faults(snapshot)[position - 2 - shown.len()],
            cursor: cursor_at(position),
        }
    }
}

/// The whole listing of `snapshot`: one item for `.`, one for `..` and one
/// for every record.
pub open spec fn listing(snapshot: Seq<Record>) -> Seq<DirItemView> {
    Seq::new(snapshot.len() + 2, |position: int| item_at(snapshot, position))
}

/// What a call that starts at cursor `offset` yields: the listing without its
/// first `offset` items, and nothing once `offset` is past the end.
pub open spec fn listing_from(snapshot: Seq<Record>, offset: u64) -> Seq<DirItemView> {
    if offset >= listing(snapshot).len() {
        Seq::empty()
    } else {
        listing(snapshot).skip(offset as int)
    }
}

/// Putting a pair in its place is an insertion at the position behind the
/// last element whose identifier is not greater.
pub proof fn lemma_place_is_insert(sorted: Seq<(Ino, Entry)>, pair: (Ino, Entry), at: int)
    requires
        0 <= at <= sorted.len(),
        forall|k: int| at <= k < sorted.len() ==> (#[trigger] sorted[k]).0 > pair.0,
        at > 0 ==> sorted[at - 1].0 <= pair.0,
    ensures
        place(sorted, pair) == sorted.insert(at, pair),
    decreases sorted.len() - at,
{
    if at == sorted.len() {
        assert(sorted.insert(at, pair) =~= sorted.push(pair));
    } else {
        assert(sorted.last().0 > pair.0);
        lemma_place_is_insert(sorted.drop_last(), pair, at);
        assert(sorted.drop_last().insert(at, pair).push(sorted.last()) =~= sorted.insert(
            at,
            pair,
        ));
    }
}

/// Every record among the first `n` is either a node or a skipped item.
pub proof fn lemma_every_record_is_listed(snapshot: Seq<Record>, n: nat)
    requires
        n <= snapshot.len(),
    ensures
        nodes_upto(snapshot, n).len() + faults_upto(snapshot, n).len() == n,
    decreases n,
{
    if n > 0 {
        lemma_every_record_is_listed(snapshot, (n - 1) as nat);
        if usable(snapshot[n - 1]) {
            lemma_place_grows(nodes_upto(snapshot, (n - 1) as nat), snapshot[n - 1]->Ok_0);
        }
    }
}

/// Putting a pair in its place makes the sequence longer by one.
pub proof fn lemma_place_grows(sorted: Seq<(Ino, Entry)>, pair: (Ino, Entry))
    ensures
        place(sorted, pair).len() == sorted.len() + 1,
    decreases sorted.len(),
{
    if !(sorted.len() == 0 || sorted.last().0 <= pair.0) {
        lemma_place_grows(sorted.drop_last(), pair);
    }
}

/// Whether the identifiers of `pairs` never go down.
pub open spec fn ascending(pairs: Seq<(Ino, Entry)>) -> bool {
    forall|a: int, b: int| 0 <= a <= b < pairs.len() ==> pairs[a].0 <= pairs[b].0
}

/// Whether `pair` is a usable record among the first `n` of `snapshot`.
pub open spec fn offered(snapshot: Seq<Record>, n: nat, pair: (Ino, Entry)) -> bool {
    exists|i: int| 0 <= i < n && usable(#[trigger] snapshot[i]) && snapshot[i]->Ok_0 == pair
}

/// In an ascending sequence a pair is put at the one position that keeps
/// the sequence ascending and leaves the pair behind its equals.
pub proof fn lemma_place_position(sorted: Seq<(Ino, Entry)>, pair: (Ino, Entry)) -> (at: int)
    requires
        ascending(sorted),
    ensures
        0 <= at <= sorted.len(),
        place(sorted, pair) == sorted.insert(at, pair),
        forall|k: int| 0 <= k < at ==> (#[trigger] sorted[k]).0 <= pair.0,
        forall|k: int| at <= k < sorted.len() ==> (#[trigger] sorted[k]).0 > pair.0,
        ascending(place(sorted, pair)),
    decreases sorted.len(),
{
    let at = if sorted.len() == 0 || sorted.last().0 <= pair.0 {
        assert(sorted.insert(sorted.len() as int, pair) =~= sorted.push(pair));
        assert forall|k: int| 0 <= k < sorted.len() implies (#[trigger] sorted[k]).0 <= pair.0 by {
            assert(sorted[k].0 <= sorted[sorted.len() - 1].0);
        }
        sorted.len() as int
    } else {
        let before = sorted.drop_last();
        assert forall|a: int, b: int| 0 <= a <= b < before.len() implies before[a].0
            <= before[b].0 by {
            assert(sorted[a].0 <= sorted[b].0);
        }
        let at = lemma_place_position(before, pair);
        assert(before.insert(at, pair).push(sorted.last()) =~= sorted.insert(at, pair));
        assert forall|k: int| 0 <= k < at implies (#[trigger] sorted[k]).0 <= pair.0 by {
            assert(sorted[k] == before[k]);
        }
        assert forall|k: int| at <= k < sorted.len() implies (#[trigger] sorted[k]).0 > pair.0 by {
            if k < before.len() {
                assert(sorted[k] == before[k]);
            }
        }
        at
    };
    let placed = sorted.insert(at, pair);
    assert forall|a: int, b: int| 0 <= a <= b < placed.len() implies placed[a].0 <= placed[b].0 by {
        if a < at && b > at {
            assert(sorted[a].0 <= pair.0);
            assert(sorted[b - 1].0 > pair.0);
        }
    }
    at
}

/// The nodes of a listing are in ascending order of identifier.
pub proof fn lemma_nodes_ascend(snapshot: Seq<Record>, n: nat)
    requires
        n <= snapshot.len(),
    ensures
        ascending(nodes_upto(snapshot, n)),
    decreases n,
{
    if n > 0 {
        lemma_nodes_ascend(snapshot, (n - 1) as nat);
        if usable(snapshot[n - 1]) {
            lemma_place_position(nodes_upto(snapshot, (n - 1) as nat), snapshot[n - 1]->Ok_0);
        }
    }
}

/// The nodes of a listing are the usable records of the snapshot: none is
/// left out and none is made up.
pub proof fn lemma_nodes_are_the_usable_records(snapshot: Seq<Record>, n: nat)
    requires
        n <= snapshot.len(),
    ensures
        forall|pair: (Ino, Entry)| #[trigger]
            nodes_upto(snapshot, n).contains(pair) <==> offered(snapshot, n, pair),
    decreases n,
{
    let shown = nodes_upto(snapshot, n);
    if n == 0 {
        assert forall|pair: (Ino, Entry)| #[trigger]
            shown.contains(pair) <==> offered(snapshot, n, pair) by {}
    } else {
        let before = nodes_upto(snapshot, (n - 1) as nat);
        lemma_nodes_are_the_usable_records(snapshot, (n - 1) as nat);
        lemma_nodes_ascend(snapshot, (n - 1) as nat);
        let last = snapshot[n - 1];
        if usable(last) {
            let at = lemma_place_position(before, last->Ok_0);
            assert(shown == before.insert(at, last->Ok_0));
            assert forall|pair: (Ino, Entry)| #[trigger]
                shown.contains(pair) <==> offered(snapshot, n, pair) by {
                if shown.contains(pair) {
                    let k = choose|k: int| 0 <= k < shown.len() && shown[k] == pair;
                    if k == at {
                        assert(snapshot[n - 1]->Ok_0 == pair);
                    } else {
                        let j = if k < at {
                            k
                        } else {
                            k - 1
                        };
                        assert(before[j] == pair);
                        assert(before.contains(pair));
                        let i = choose|i: int|
                            0 <= i < n - 1 && usable(#[trigger] snapshot[i]) && snapshot[i]->Ok_0
                                == pair;
                        assert(usable(snapshot[i]));
                    }
                }
                if offered(snapshot, n, pair) {
                    let i = choose|i: int|
                        0 <= i < n && usable(#[trigger] snapshot[i]) && snapshot[i]->Ok_0 == pair;
                    if i == n - 1 {
                        assert(shown[at] == pair);
                    } else {
                        assert(offered(snapshot, (n - 1) as nat, pair));
                        assert(before.contains(pair));
                        let j = choose|j: int| 0 <= j < before.len() && before[j] == pair;
                        if j < at {
                            assert(shown[j] == pair);
                        } else {
                            assert(shown[j + 1] == pair);
                        }
                    }
                }
            }
        } else {
            assert forall|pair: (Ino, Entry)| #[trigger]
                shown.contains(pair) <==> offered(snapshot, n, pair) by {
                if shown.contains(pair) {
                    assert(offered(snapshot, (n - 1) as nat, pair));
                    let i = choose|i: int|
                        0 <= i < n - 1 && usable(#[trigger] snapshot[i]) && snapshot[i]->Ok_0
                            == pair;
                    assert(usable(snapshot[i]));
                }
                if offered(snapshot, n, pair) {
                    let i = choose|i: int|
                        0 <= i < n && usable(#[trigger] snapshot[i]) && snapshot[i]->Ok_0 == pair;
                    assert(i != n - 1);
                    assert(offered(snapshot, (n - 1) as nat, pair));
                }
            }
        }
    }
}

/// Whether the identifiers of `pairs` go up from each pair to the next.
pub open spec fn strictly_ascending(pairs: Seq<(Ino, Entry)>) -> bool {
    forall|a: int, b: int| 0 <= a < b < pairs.len() ==> pairs[a].0 < pairs[b].0
}

/// Whether no two usable records among the first `n` of `snapshot` share an
/// identifier.
pub open spec fn distinct_upto(snapshot: Seq<Record>, n: nat) -> bool {
    forall|i: int, j: int|
        0 <= i < j < n && usable(#[trigger] snapshot[i]) && usable(#[trigger] snapshot[j])
            ==> snapshot[i]->Ok_0.0 != snapshot[j]->Ok_0.0
}

/// Where no two usable records share an identifier, the identifiers of the
/// nodes go strictly up, so no node is listed twice.
pub proof fn lemma_nodes_strictly_ascend(snapshot: Seq<Record>, n: nat)
    requires
        n <= snapshot.len(),
        distinct_upto(snapshot, n),
    ensures
        strictly_ascending(nodes_upto(snapshot, n)),
    decreases n,
{
    if n > 0 {
        let before = nodes_upto(snapshot, (n - 1) as nat);
        lemma_nodes_strictly_ascend(snapshot, (n - 1) as nat);
        if usable(snapshot[n - 1]) {
            let pair = snapshot[n - 1]->Ok_0;
            lemma_nodes_are_the_usable_records(snapshot, (n - 1) as nat);
            let at = lemma_place_position(before, pair);
            let placed = before.insert(at, pair);
            assert forall|k: int| 0 <= k < before.len() implies (#[trigger] before[k]).0
                != pair.0 by {
                assert(before.contains(before[k]));
                assert(offered(snapshot, (n - 1) as nat, before[k]));
                let i = choose|i: int|
                    0 <= i < n - 1 && usable(#[trigger] snapshot[i]) && snapshot[i]->Ok_0
                        == before[k];
                assert(usable(snapshot[i]) && usable(snapshot[n - 1]));
            }
            assert forall|a: int, b: int| 0 <= a < b < placed.len() implies placed[a].0
                < placed[b].0 by {
                if a == at {
                    assert(before[b - 1].0 > pair.0);
                } else if b == at {
                    assert(before[a].0 <= pair.0 && before[a].0 != pair.0);
                } else if a < at && b > at {
                    assert(before[a].0 <= pair.0);
                    assert(before[b - 1].0 > pair.0);
                } else if a < at {
                    assert(before[a].0 < before[b].0);
                } else {
                    assert(before[a - 1].0 < before[b - 1].0);
                }
            }
        }
    }
}

/// Two sequences whose identifiers go strictly up and which hold the same
/// pairs are the same sequence.
pub proof fn lemma_strictly_ascending_is_unique(
    first: Seq<(Ino, Entry)>,
    second: Seq<(Ino, Entry)>,
)
    requires
        strictly_ascending(first),
        strictly_ascending(second),
        forall|pair: (Ino, Entry)| #[trigger] first.contains(pair) <==> second.contains(pair),
    ensures
        first == second,
    decreases first.len(),
{
    if first.len() == 0 {
        if second.len() > 0 {
            assert(second.contains(second[0]));
            assert(first.contains(second[0]));
        }
        assert(first =~= second);
    } else {
        let top = first.last();
        assert(first.contains(top));
        assert(second.contains(top));
        let other = second.last();
        assert(second.contains(other));
        assert(first.contains(other));
        let i = choose|i: int| 0 <= i < first.len() && first[i] == other;
        let j = choose|j: int| 0 <= j < second.len() && second[j] == top;
        assert(i == first.len() - 1) by {
            if i < first.len() - 1 {
                assert(first[i].0 < top.0);
                if j < second.len() - 1 {
                    assert(second[j].0 < other.0);
                }
            }
        }
        assert(top == other);
        let shorter = first.drop_last();
        let shorter_other = second.drop_last();
        assert forall|pair: (Ino, Entry)| #[trigger]
            shorter.contains(pair) <==> shorter_other.contains(pair) by {
            if shorter.contains(pair) {
                let k = choose|k: int| 0 <= k < shorter.len() && shorter[k] == pair;
                assert(first[k] == pair);
                assert(first.contains(pair));
                assert(second.contains(pair));
                let m = choose|m: int| 0 <= m < second.len() && second[m] == pair;
                if m == second.len() - 1 {
                    assert(first[k].0 < top.0);
                }
                assert(shorter_other[m] == pair);
            }
            if shorter_other.contains(pair) {
                let k = choose|k: int| 0 <= k < shorter_other.len() && shorter_other[k] == pair;
                assert(second[k] == pair);
                assert(second.contains(pair));
                assert(first.contains(pair));
                let m = choose|m: int| 0 <= m < first.len() && first[m] == pair;
                if m == first.len() - 1 {
                    assert(second[k].0 < other.0);
                }
                assert(shorter[m] == pair);
            }
        }
        assert forall|a: int, b: int| 0 <= a < b < shorter.len() implies shorter[a].0
            < shorter[b].0 by {
            assert(first[a].0 < first[b].0);
        }
        assert forall|a: int, b: int| 0 <= a < b < shorter_other.len() implies shorter_other[a].0
            < shorter_other[b].0 by {
            assert(second[a].0 < second[b].0);
        }
        lemma_strictly_ascending_is_unique(shorter, shorter_other);
        assert(first =~= shorter.push(top));
        assert(second =~= shorter_other.push(other));
    }
}

/// The nodes of a listing depend on which entries the snapshot holds and
/// not on the order in which it holds them: two snapshots of a repository
/// with the same usable records, in whatever order, have the same nodes.
pub proof fn lemma_nodes_ignore_snapshot_order(first: Seq<Record>, second: Seq<Record>)
    requires
        distinct_upto(first, first.len()),
        distinct_upto(second, second.len()),
        forall|pair: (Ino, Entry)| #[trigger]
            offered(first, first.len(), pair) <==> offered(second, second.len(), pair),
    ensures
        nodes(first) == nodes(second),
{
    lemma_nodes_strictly_ascend(first, first.len());
    lemma_nodes_strictly_ascend(second, second.len());
    lemma_nodes_are_the_usable_records(first, first.len());
    lemma_nodes_are_the_usable_records(second, second.len());
    assert forall|pair: (Ino, Entry)| #[trigger]
        nodes(first).contains(pair) <==> nodes(second).contains(pair) by {
        assert(nodes(first).contains(pair) <==> offered(first, first.len(), pair));
        assert(nodes(second).contains(pair) <==> offered(second, second.len(), pair));
    }
    lemma_strictly_ascending_is_unique(nodes(first), nodes(second));
}

/// Enumerates the directory from cursor `offset` on.
///
/// A cursor of 0 starts at `.`; the cursor carried by an item resumes behind
/// that item. A cursor at or past the end yields an empty result.
pub fn enumerate(snapshot: &Vec<Record>, offset: u64) -> (items: Vec<DirItem>)
    requires
        snapshot@.len() + 2 <= usize::MAX,
    ensures
        item_views(items@) == listing_from(snapshot@, offset),
        offset >= snapshot@.len() + 2 ==> items@.len() == 0,
        offset < snapshot@.len() + 2 ==> items@.len() == snapshot@.len() + 2 - offset,
{
    let n: usize = snapshot.len();
    let total: usize = n + 2;
    let mut items: Vec<DirItem> = Vec::new();
    if offset >= total as u64 {
        assert(item_views(items@) =~= listing_from(snapshot@, offset));
        return items;
    }
    let start: usize = offset as usize;

    let mut sorted: Vec<&(Ino, Entry)> = Vec::new();
    let mut skipped: Vec<DecodeError> = Vec::new();
    let mut i: usize = 0;
    while i < n
        invariant
            n == snapshot@.len(),
            i <= n,
            sorted@.len() == nodes_upto(snapshot@, i as nat).len(),
            forall|k: int|
                0 <= k < sorted@.len() ==> *(#[trigger] sorted@[k]) == nodes_upto(
                    snapshot@,
                    i as nat,
                )[k],
            skipped@ == faults_upto(snapshot@, i as nat),
            sorted@.len() + skipped@.len() == i,
        decreases n - i,
    {
        let ghost before = nodes_upto(snapshot@, i as nat);
        match &snapshot[i] {
            Ok(pair) => {
                if is_root(pair.0) {
                    skipped.push(DecodeError::ReservedIdentifier);
                } else {
                    let mut at: usize = sorted.len();
                    while at > 0 && sorted[at - 1].0 > pair.0
                        invariant
                            at <= sorted@.len(),
                            sorted@.len() == before.len(),
                            forall|k: int|
                                0 <= k < sorted@.len() ==> *(#[trigger] sorted@[k]) == before[k],
                            forall|k: int|
                                at <= k < before.len() ==> (#[trigger] before[k]).0 > pair.0,
                        decreases at,
                    {
                        at = at - 1;
                    }
                    proof {
                        lemma_place_is_insert(before, *pair, at as int);
                    }
                    sorted.insert(at, pair);
                }
            },
            Err(error) => {
                skipped.push(*error);
            },
        }
        i = i + 1;
    }

    let shown: usize = sorted.len();
    let mut position: usize = start;
    proof {
        reveal_strlit(".");
        reveal_strlit("..");
    }
    while position < total
        invariant
            n == snapshot@.len(),
            total == n + 2,
            start <= position <= total,
            shown == sorted@.len(),
            sorted@.len() == nodes(snapshot@).len(),
            forall|k: int|
                0 <= k < sorted@.len() ==> *(#[trigger] sorted@[k]) == nodes(snapshot@)[k],
            skipped@ == faults(snapshot@),
            sorted@.len() + skipped@.len() == n,
            items@.len() == position - start,
            forall|k: int|
                0 <= k < items@.len() ==> (#[trigger] items@[k])@ == item_at(snapshot@, start + k),
            "."@ == seq!['.'],
            ".."@ == seq!['.', '.'],
        decreases total - position,
    {
        let cursor: u64 = (position + 1) as u64;
        let item = if position == 0 {
            DirItem::Node {
                ino: ROOT_INO,
                kind: FileKind::Directory,
                name: ".".to_owned(),
                cursor,
            }
        } else if position == 1 {
            DirItem::Node {
                ino: ROOT_INO,
                kind: FileKind::Directory,
                name: "..".to_owned(),
                cursor,
            }
        } else if position - 2 < shown {
            let pair = sorted[position - 2];
            DirItem::Node {
                ino: pair.0,
                kind: FileKind::RegularFile,
                name: pair.1.name().clone(),
                cursor,
            }
        } else {
            DirItem::Skipped { error: skipped[position - 2 - shown], cursor }
        };
        items.push(item);
        position = position + 1;
    }
    assert(item_views(items@) =~= listing_from(snapshot@, offset));
    items
}

} // verus!
