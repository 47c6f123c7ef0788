use plevy::attr::{
    block_count, entry_attributes, root_attributes, Attributes, FileKind, BLOCK_SIZE,
    DIRECTORY_PERM, FILE_PERM, OWNER_GID, OWNER_UID, TTL_SECONDS,
};
use plevy::config::Config;
use plevy::entry::Entry;
use plevy::error::DecodeError;
use plevy::handlers::entries_of;
use plevy::inode::{from_inode, is_root, to_inode, ROOT_INO};
use plevy::listing::Record;
use plevy::mount::{mount_options, preparation, Preparation};

#[test]
fn root_inode_is_one() {
    assert_eq!(ROOT_INO, 1);
    assert!(is_root(1));
    assert!(!is_root(0));
    assert!(!is_root(2));
    assert!(!is_root(u64::MAX));
}

#[test]
fn registry_is_the_identity_outside_the_reserved_range() {
    for n in [0u64, 2, 3, 100, 999, u64::MAX] {
        assert_eq!(to_inode(n), Some(n));
        assert_eq!(from_inode(n), Some(n));
        assert_eq!(from_inode(to_inode(n).unwrap()), Some(n));
    }
    assert_eq!(to_inode(1), None);
    assert_eq!(from_inode(1), None);
}

#[test]
fn root_attributes_are_fixed() {
    assert_eq!(
        root_attributes(),
        Attributes {
            ino: 1,
            size: 0,
            blocks: 0,
            atime: 0,
            mtime: 0,
            ctime: 0,
            crtime: 0,
            kind: FileKind::Directory,
            perm: 0o755,
            nlink: 2,
            uid: 501,
            gid: 20,
            rdev: 0,
            flags: 0,
        }
    );
    assert_eq!(DIRECTORY_PERM, 0o755);
    assert_eq!(OWNER_UID, 501);
    assert_eq!(OWNER_GID, 20);
    assert_eq!(TTL_SECONDS, 1);
}

#[test]
fn entry_attributes_are_those_of_a_regular_file() {
    assert_eq!(
        entry_attributes(100, Some(13)),
        Attributes {
            ino: 100,
            size: 13,
            blocks: 1,
            atime: 0,
            mtime: 0,
            ctime: 0,
            crtime: 0,
            kind: FileKind::RegularFile,
            perm: 0o644,
            nlink: 1,
            uid: 501,
            gid: 20,
            rdev: 0,
            flags: 0,
        }
    );
    assert_eq!(FILE_PERM, 0o644);
}

#[test]
fn unknown_size_is_reported_as_zero() {
    let attrs = entry_attributes(7, None);
    assert_eq!(attrs.size, 0);
    assert_eq!(attrs.blocks, 0);
    assert_eq!(attrs.kind, FileKind::RegularFile);
    assert_eq!(attrs.ino, 7);
}

#[test]
fn blocks_round_the_size_up() {
    assert_eq!(BLOCK_SIZE, 512);
    assert_eq!(block_count(0), 0);
    assert_eq!(block_count(1), 1);
    assert_eq!(block_count(511), 1);
    assert_eq!(block_count(512), 1);
    assert_eq!(block_count(513), 2);
    assert_eq!(block_count(1024), 2);
    assert_eq!(block_count(u64::MAX), u64::MAX / 512 + 1);
    assert_eq!(entry_attributes(3, Some(1025)).blocks, 3);
}

#[test]
fn entry_needs_a_name() {
    assert!(Entry::new(String::new(), "abc".to_string(), 0).is_none());
    let entry = Entry::new("movie.mkv".to_string(), "abc".to_string(), 3).unwrap();
    assert_eq!(entry.name(), "movie.mkv");
    assert_eq!(entry.source_id(), "abc");
    assert_eq!(entry.source_index(), 3);
    let copy = entry.duplicate();
    assert_eq!(copy.name(), entry.name());
    assert_eq!(copy.source_id(), entry.source_id());
    assert_eq!(copy.source_index(), entry.source_index());
    assert!(Entry::new("é".to_string(), String::new(), u64::MAX).is_some());
}

#[test]
fn config_keeps_its_settings() {
    let config = Config::new(
        "http://bevy".to_string(),
        "http://plex".to_string(),
        "SECRET-REDACTED".to_string(),
        "/mnt/plevy".to_string(),
    );
    assert_eq!(config.bevy_url(), "http://bevy");
    assert_eq!(config.plex_url(), "http://plex");
    assert_eq!(config.plex_token(), "SECRET-REDACTED");
    assert_eq!(config.mount_point(), "/mnt/plevy");
    assert_eq!(config.mount_point, "/mnt/plevy");
}

#[test]
fn entries_of_a_snapshot_leave_out_the_faults() {
    let snapshot: Vec<Record> = vec![
        Ok((9, Entry::new("nine".to_string(), "s".to_string(), 0).unwrap())),
        Err(DecodeError::Value),
        Ok((1, Entry::new("one".to_string(), "s".to_string(), 1).unwrap())),
        Err(DecodeError::Key),
        Ok((4, Entry::new("four".to_string(), "s".to_string(), 2).unwrap())),
    ];
    let names: Vec<String> = entries_of(&snapshot).iter().map(|e| e.name().clone()).collect();
    assert_eq!(names, vec!["nine".to_string(), "one".to_string(), "four".to_string()]);
    assert!(entries_of(&Vec::new()).is_empty());
}

#[test]
fn mount_is_read_only_and_named() {
    assert_eq!(mount_options(), vec!["-o", "ro", "-o", "fsname=plevy"]);
}

#[test]
fn mount_point_is_created_or_unmounted() {
    assert_eq!(preparation(false), Preparation::CreateDirectory);
    assert_eq!(preparation(true), Preparation::UnmountStale);
}
