use plevy::attr::{entry_attributes, root_attributes, FileKind};
use plevy::db::{accept, found_entry, held_entry, records_of, Db};
use plevy::entry::Entry;
use plevy::codec::{encode_entry, encode_key};
use plevy::error::{DecodeError, FsError, StorageError};
use plevy::fs::PlevyFS;
use plevy::handlers::{entries_of, list, list_in};
use plevy::listing::DirItem;

fn entry(name: &str, source_id: &str, source_index: u64) -> Entry {
    Entry::new(name.to_string(), source_id.to_string(), source_index).unwrap()
}

fn fields(entry: &Entry) -> (String, String, u64) {
    (entry.name().clone(), entry.source_id().clone(), entry.source_index())
}

fn fresh(tag: &str) -> Db {
    let nanos = std::time::SystemTime::now()
        .duration_since(std::time::UNIX_EPOCH)
        .unwrap()
        .as_nanos();
    Db::new(&format!("/tmp/plevy-repository-{}-{}", tag, nanos)).unwrap()
}

#[test]
fn fresh_repository_is_empty() {
    let db = fresh("empty");
    assert!(db.list().unwrap().is_empty());
    assert_eq!(db.has(2), Ok(false));
    assert!(matches!(db.get(2), Ok(None)));
    assert!(list(&db).unwrap().is_empty());
}

#[test]
fn added_entry_can_be_got_back() {
    let db = fresh("add-get");
    let ino = db.add(entry("movie.mkv", "abc", 0)).unwrap();
    let got = db.get(ino).unwrap().unwrap();
    assert_eq!(fields(&got), ("movie.mkv".to_string(), "abc".to_string(), 0));
    assert_eq!(db.has(ino), Ok(true));
    assert_eq!(db.has(ino + 1000), Ok(false));
    assert!(matches!(db.get(ino + 1000), Ok(None)));
}

#[test]
fn has_agrees_with_get() {
    let db = fresh("has-get");
    let mut issued = Vec::new();
    for i in 0..5u64 {
        issued.push(db.add(entry(&format!("e{}", i), "s", i)).unwrap());
    }
    for ino in 0..20u64 {
        assert_eq!(db.has(ino).unwrap(), db.get(ino).unwrap().is_some());
        assert_eq!(db.has(ino).unwrap(), issued.contains(&ino));
    }
}

#[test]
fn identifiers_are_fresh_and_never_reserved() {
    let db = fresh("fresh-ids");
    let mut issued: Vec<u64> = Vec::new();
    for i in 0..50u64 {
        let ino = db.add(entry(&format!("e{}", i), "s", i)).unwrap();
        assert_ne!(ino, 1);
        assert!(!issued.contains(&ino));
        issued.push(ino);
    }
    assert_eq!(issued.len(), 50);
}

#[test]
fn clones_share_one_store() {
    let db = fresh("clones");
    let other = db.clone();
    let ino = db.add(entry("shared", "s", 0)).unwrap();
    assert_eq!(other.has(ino), Ok(true));
    let second = other.add(entry("shared-too", "s", 1)).unwrap();
    assert_ne!(ino, second);
    assert_eq!(db.list().unwrap().len(), 2);
}

#[test]
fn snapshot_holds_every_added_entry() {
    let db = fresh("snapshot");
    let a = db.add(entry("a", "s", 0)).unwrap();
    let b = db.add(entry("b", "s", 1)).unwrap();
    let c = db.add(entry("c", "s", 2)).unwrap();
    let snapshot = db.list().unwrap();
    assert_eq!(snapshot.len(), 3);
    let mut seen: Vec<(u64, String)> = snapshot
        .iter()
        .map(|record| {
            let (ino, entry) = record.as_ref().unwrap();
            (*ino, entry.name().clone())
        })
        .collect();
    seen.sort();
    let mut expected = vec![(a, "a".to_string()), (b, "b".to_string()), (c, "c".to_string())];
    expected.sort();
    assert_eq!(seen, expected);

    let names: Vec<String> = entries_of(&snapshot).iter().map(|e| e.name().clone()).collect();
    assert_eq!(names.len(), 3);
    let listed: Vec<String> = list(&db).unwrap().iter().map(|e| e.name().clone()).collect();
    assert_eq!(listed, names);
}

#[test]
fn filesystem_shows_what_the_repository_holds() {
    let db = fresh("filesystem");
    let fs = PlevyFS::new(db.clone());
    let ino = db.add(entry("movie.mkv", "abc", 0)).unwrap();

    assert_eq!(fs.lookup(1, "movie.mkv"), Ok((ino, entry_attributes(ino, None))));
    assert_eq!(fs.lookup(1, "other.mkv"), Err(FsError::NotFound));
    assert_eq!(fs.lookup(ino, "movie.mkv"), Err(FsError::NotFound));

    assert_eq!(fs.getattr(1), Ok(root_attributes()));
    let attrs = fs.getattr(ino).unwrap();
    assert_eq!(attrs.kind, FileKind::RegularFile);
    assert_eq!(attrs.ino, ino);
    assert_eq!(fs.getattr(ino + 999), Err(FsError::NotFound));

    let items = fs.readdir(1, 0).unwrap();
    assert_eq!(items.len(), 3);
    match &items[2] {
        DirItem::Node { ino: listed, kind, name, cursor } => {
            assert_eq!(*listed, ino);
            assert_eq!(*kind, FileKind::RegularFile);
            assert_eq!(name, "movie.mkv");
            assert_eq!(*cursor, 3);
        }
        DirItem::Skipped { .. } => panic!("the entry was expected as a node"),
    }
    assert!(fs.readdir(1, 3).unwrap().is_empty());
    assert!(matches!(fs.readdir(ino, 0), Err(FsError::NotFound)));
}

#[test]
fn every_listed_inode_has_attributes() {
    let db = fresh("listed");
    let fs = PlevyFS::new(db.clone());
    for i in 0..10u64 {
        db.add(entry(&format!("file-{}", i), "s", i)).unwrap();
    }
    let items = fs.readdir(1, 0).unwrap();
    assert_eq!(items.len(), 12);
    let mut previous: Option<u64> = None;
    for item in &items[2..] {
        match item {
            DirItem::Node { ino, name, .. } => {
                assert!(fs.getattr(*ino).is_ok());
                assert_eq!(fs.lookup(1, name).unwrap().0, *ino);
                if let Some(before) = previous {
                    assert!(before < *ino);
                }
                previous = Some(*ino);
            }
            DirItem::Skipped { .. } => panic!("nothing was expected to be skipped"),
        }
    }
}

#[test]
fn filesystem_reads_the_content_it_is_given() {
    let db = fresh("read");
    let fs = PlevyFS::new(db.clone());
    let ino = db.add(entry("hello.txt", "abc", 0)).unwrap();
    let content = b"Hello World!\n".to_vec();
    assert_eq!(fs.read(ino, 0, 5, Some(&content)), Ok(b"Hello".to_vec()));
    assert_eq!(fs.read(ino, 6, 100, Some(&content)), Ok(b"World!\n".to_vec()));
    assert_eq!(fs.read(ino, 13, 100, Some(&content)), Ok(Vec::new()));
    assert_eq!(fs.read(ino, 0, 5, None), Err(FsError::IOFailure));
    assert_eq!(fs.read(ino + 999, 0, 5, Some(&content)), Err(FsError::NotFound));
    assert_eq!(fs.read(1, 0, 5, Some(&content)), Err(FsError::NotFound));
}

#[test]
fn stored_value_that_does_not_decode_fails_the_point_lookup() {
    assert!(matches!(found_entry(None), Ok(None)));
    assert!(matches!(found_entry(Some(vec![1, 2, 3])), Err(StorageError::Encoding)));
    let good = bincode::serialize(&("n", "s", 4u64)).unwrap();
    let entry = found_entry(Some(good)).unwrap().unwrap();
    assert_eq!(fields(&entry), ("n".to_string(), "s".to_string(), 4));
}

#[test]
fn inode_is_resolved_to_its_entry() {
    let db = fresh("resolve");
    let fs = PlevyFS::new(db.clone());
    let ino = db.add(entry("movie.mkv", "abc", 4)).unwrap();
    let resolved = fs.entry(ino).unwrap();
    assert_eq!(fields(&resolved), ("movie.mkv".to_string(), "abc".to_string(), 4));
    assert!(matches!(fs.entry(ino + 999), Err(FsError::NotFound)));
    assert!(matches!(fs.entry(1), Err(FsError::NotFound)));
}

#[test]
fn reserved_offers_of_the_generator_are_passed_over() {
    assert_eq!(accept(0, 0), Ok(0));
    assert_eq!(accept(5, 1), Ok(5));
    assert_eq!(accept(1, 2), Ok(2));
    assert_eq!(accept(1, u64::MAX), Ok(u64::MAX));
    assert_eq!(accept(1, 1), Err(StorageError::IdentifierSpace));
}

#[test]
fn repository_that_cannot_be_opened_is_a_backend_failure() {
    assert!(matches!(Db::new("/dev/null/plevy"), Err(StorageError::Backend)));
}

#[test]
fn second_entry_of_a_fresh_repository_skips_the_root_inode() {
    let db = fresh("skip-root");
    let first = db.add(entry("first", "s", 0)).unwrap();
    let second = db.add(entry("second", "s", 1)).unwrap();
    let third = db.add(entry("third", "s", 2)).unwrap();
    assert!(first < second && second < third);
    assert!(first != 1 && second != 1 && third != 1);
}

#[test]
fn existence_check_agrees_with_point_lookup_on_every_answer() {
    let good = encode_entry(&entry("n", "s", 4)).unwrap();
    let answers: Vec<Option<Vec<u8>>> =
        vec![None, Some(good), Some(vec![1, 2, 3]), Some(Vec::new())];
    for stored in answers {
        let held = held_entry(stored.clone());
        let found = found_entry(stored);
        match found {
            Ok(entry) => assert_eq!(held, Ok(entry.is_some())),
            Err(error) => assert_eq!(held, Err(error)),
        }
    }
    assert_eq!(held_entry(None), Ok(false));
    assert_eq!(held_entry(Some(vec![9])), Err(StorageError::Encoding));
    assert_eq!(held_entry(Some(encode_entry(&entry("a", "b", 0)).unwrap())), Ok(true));
}

#[test]
fn snapshot_has_one_record_for_every_pair_in_order() {
    let pairs: Vec<(Vec<u8>, Vec<u8>)> = vec![
        (encode_key(9).unwrap(), encode_entry(&entry("nine", "s", 0)).unwrap()),
        (encode_key(3).unwrap(), vec![0xff, 0xff]),
        (vec![1, 2], encode_entry(&entry("keyless", "s", 1)).unwrap()),
        (encode_key(4).unwrap(), encode_entry(&entry("four", "s", 2)).unwrap()),
    ];
    let records = records_of(&pairs);
    assert_eq!(records.len(), 4);
    let (ino, found) = records[0].as_ref().unwrap();
    assert_eq!((*ino, fields(found)), (9, ("nine".to_string(), "s".to_string(), 0)));
    assert!(matches!(records[1], Err(DecodeError::Value)));
    assert!(matches!(records[2], Err(DecodeError::Key)));
    let (ino, found) = records[3].as_ref().unwrap();
    assert_eq!((*ino, fields(found)), (4, ("four".to_string(), "s".to_string(), 2)));
    assert!(records_of(&Vec::new()).is_empty());
}

#[test]
fn failed_snapshot_fails_the_listing_of_entries() {
    assert!(matches!(list_in(&Err(StorageError::Backend)), Err(StorageError::Backend)));
    assert!(matches!(list_in(&Err(StorageError::Encoding)), Err(StorageError::Encoding)));
    assert!(list_in(&Ok(Vec::new())).unwrap().is_empty());
    let snapshot = Ok(vec![
        Ok((9, entry("nine", "s", 0))),
        Err(DecodeError::Value),
        Ok((4, entry("four", "s", 2))),
    ]);
    let names: Vec<String> =
        list_in(&snapshot).unwrap().iter().map(|e| e.name().clone()).collect();
    assert_eq!(names, vec!["nine".to_string(), "four".to_string()]);
}

#[test]
fn added_entries_are_listed_completely_and_once() {
    let db = fresh("complete");
    let mut issued: Vec<u64> = Vec::new();
    for i in 0..30u64 {
        issued.push(db.add(entry(&format!("e{}", i), "s", i)).unwrap());
    }
    let snapshot = db.list().unwrap();
    assert_eq!(snapshot.len(), 30);
    let mut listed: Vec<u64> = snapshot.iter().map(|r| r.as_ref().unwrap().0).collect();
    listed.sort();
    issued.sort();
    assert_eq!(listed, issued);
    for record in &snapshot {
        let (ino, listed_entry) = record.as_ref().unwrap();
        let got = db.get(*ino).unwrap().unwrap();
        assert_eq!(fields(&got), fields(listed_entry));
        assert_eq!(db.has(*ino), Ok(true));
    }
}
