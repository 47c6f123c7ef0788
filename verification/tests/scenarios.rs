use plevy::attr::{entry_attributes, FileKind};
use plevy::codec::{decode_record, encode_entry, encode_key};
use plevy::db::Db;
use plevy::entry::Entry;
use plevy::error::{DecodeError, FsError, StorageError};
use plevy::fs::{getattr_in, lookup_in, readdir_in, PlevyFS};
use plevy::listing::{DirItem, Record};

fn entry(name: &str, source_id: &str, source_index: u64) -> Entry {
    Entry::new(name.to_string(), source_id.to_string(), source_index).unwrap()
}

fn node(item: &DirItem) -> (u64, FileKind, String, u64) {
    match item {
        DirItem::Node { ino, kind, name, cursor } => (*ino, *kind, name.clone(), *cursor),
        DirItem::Skipped { .. } => panic!("a skipped item where a node was expected"),
    }
}

fn fresh_path(tag: &str) -> String {
    let nanos = std::time::SystemTime::now()
        .duration_since(std::time::UNIX_EPOCH)
        .unwrap()
        .as_nanos();
    format!("/tmp/plevy-scenarios-{}-{}", tag, nanos)
}

#[test]
fn added_entry_is_looked_up_and_listed() {
    let snapshot = || -> Vec<Record> { vec![Ok((100, entry("movie.mkv", "abc", 0)))] };

    let (ino, attrs) = lookup_in(&Ok(snapshot()), 1, "movie.mkv").unwrap();
    assert_eq!(ino, 100);
    assert_eq!(attrs, entry_attributes(100, None));
    assert_eq!(attrs.ino, 100);
    assert_eq!(attrs.kind, FileKind::RegularFile);

    let items = readdir_in(1, &Ok(snapshot()), 0).unwrap();
    assert_eq!(items.len(), 3);
    assert_eq!(node(&items[0]), (1, FileKind::Directory, ".".to_string(), 1));
    assert_eq!(node(&items[1]), (1, FileKind::Directory, "..".to_string(), 2));
    assert_eq!(node(&items[2]), (100, FileKind::RegularFile, "movie.mkv".to_string(), 3));
}

#[test]
fn getattr_of_an_inode_never_issued_is_not_found() {
    assert_eq!(getattr_in(999, &Ok(None), None), Err(FsError::NotFound));

    let db = Db::new(&fresh_path("never-issued")).unwrap();
    let fs = PlevyFS::new(db);
    assert_eq!(fs.getattr(999), Err(FsError::NotFound));
}

#[test]
fn getattr_tells_a_failing_repository_from_a_missing_entry() {
    assert_eq!(getattr_in(999, &Err(StorageError::Backend), None), Err(FsError::IOFailure));
    assert_eq!(getattr_in(999, &Err(StorageError::Encoding), None), Err(FsError::IOFailure));
}

#[test]
fn one_corrupt_record_does_not_fail_the_listing() {
    let snapshot: Vec<Record> = vec![
        Ok((7, entry("a.mkv", "s", 0))),
        Err(DecodeError::Value),
        Ok((5, entry("b.mkv", "s", 1))),
    ];
    let items = readdir_in(1, &Ok(snapshot), 0).unwrap();
    assert_eq!(items.len(), 5);
    assert_eq!(node(&items[2]), (5, FileKind::RegularFile, "b.mkv".to_string(), 3));
    assert_eq!(node(&items[3]), (7, FileKind::RegularFile, "a.mkv".to_string(), 4));
    match &items[4] {
        DirItem::Skipped { error, cursor } => {
            assert_eq!(*error, DecodeError::Value);
            assert_eq!(*cursor, 5);
        }
        DirItem::Node { .. } => panic!("a node where the corrupt record was expected"),
    }
}

#[test]
fn a_failing_repository_fails_the_listing() {
    let failed: Result<Vec<Record>, StorageError> = Err(StorageError::Backend);
    assert!(matches!(readdir_in(1, &failed, 0), Err(FsError::IOFailure)));
}

#[test]
fn corrupt_stored_pair_is_listed_as_skipped() {
    let pairs: Vec<(Vec<u8>, Vec<u8>)> = vec![
        (encode_key(5).unwrap(), encode_entry(&entry("five.mkv", "s", 0)).unwrap()),
        (encode_key(6).unwrap(), vec![0xde, 0xad, 0xbe, 0xef]),
        (encode_key(4).unwrap(), encode_entry(&entry("four.mkv", "s", 1)).unwrap()),
    ];
    let snapshot: Vec<Record> =
        pairs.iter().map(|(key, value)| decode_record(key, value)).collect();
    let items = readdir_in(1, &Ok(snapshot), 0).unwrap();
    assert_eq!(items.len(), 5);
    assert_eq!(node(&items[2]), (4, FileKind::RegularFile, "four.mkv".to_string(), 3));
    assert_eq!(node(&items[3]), (5, FileKind::RegularFile, "five.mkv".to_string(), 4));
    assert!(matches!(items[4], DirItem::Skipped { error: DecodeError::Value, cursor: 5 }));
}

#[test]
fn corrupt_record_in_the_store_does_not_fail_the_filesystem() {
    let path = fresh_path("corrupt");
    let (first, second) = {
        let db = Db::new(&path).unwrap();
        let first = db.add(entry("a.mkv", "s", 0)).unwrap();
        let second = db.add(entry("b.mkv", "s", 1)).unwrap();
        (first, second)
    };
    {
        let raw = sled::open(&path).unwrap();
        let tree = raw.open_tree("entries").unwrap();
        tree.insert(encode_key(77).unwrap(), vec![1u8, 2, 3]).unwrap();
        tree.flush().unwrap();
    }
    let db = Db::new(&path).unwrap();
    let snapshot = db.list().unwrap();
    assert_eq!(snapshot.len(), 3);
    assert_eq!(snapshot.iter().filter(|record| record.is_err()).count(), 1);

    let fs = PlevyFS::new(db.clone());
    let items = fs.readdir(1, 0).unwrap();
    assert_eq!(items.len(), 5);
    assert_eq!(node(&items[2]).0, first);
    assert_eq!(node(&items[3]).0, second);
    assert!(matches!(items[4], DirItem::Skipped { error: DecodeError::Value, cursor: 5 }));
    assert_eq!(fs.lookup(1, "b.mkv").unwrap().0, second);
    assert!(matches!(db.get(77), Err(StorageError::Encoding)));
    assert_eq!(db.has(77), Err(StorageError::Encoding));
    assert_eq!(db.has(first), Ok(true));
    assert_eq!(fs.getattr(77), Err(FsError::IOFailure));
    assert!(fs.getattr(first).is_ok());
}
