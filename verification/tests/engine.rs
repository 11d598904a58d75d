use memoryfs::attr::{Context, FileType, Timespec};
use memoryfs::error::FsError;
use memoryfs::fs::{AttrChanges, DirEntry, MemoryFS};
use memoryfs::state::{MAX_INODE, ROOT_INODE};

fn ctx_at(sec: i64) -> Context {
    Context { now: Timespec { sec, nsec: 0 }, uid: 1000, gid: 100 }
}

fn no_changes() -> AttrChanges {
    AttrChanges {
        mode: None,
        uid: None,
        gid: None,
        size: None,
        atime: None,
        mtime: None,
        fh: None,
        crtime: None,
        chgtime: None,
        bkuptime: None,
        flags: None,
    }
}

fn child_inodes(entries: &[DirEntry]) -> Vec<u64> {
    let mut inodes: Vec<u64> = entries.iter().skip(2).map(|e| e.ino).collect();
    inodes.sort();
    inodes
}

#[test]
fn root_is_created_at_startup() {
    let ctx = ctx_at(1_700_000_000);
    let fs = MemoryFS::new_with(&ctx);
    let attr = fs.getattr(1).unwrap();
    assert_eq!(attr.ino, 1);
    assert_eq!(attr.size, 0);
    assert_eq!(attr.blocks, 0);
    assert_eq!(attr.kind, FileType::Directory);
    assert_eq!(attr.perm, 0o755);
    assert_eq!(attr.nlink, 2);
    assert_eq!(attr.uid, 1000);
    assert_eq!(attr.gid, 100);
    assert_eq!(attr.rdev, 0);
    assert_eq!(attr.flags, 0);
    assert_eq!(attr.atime, Timespec { sec: 1_700_000_000, nsec: 0 });
    assert_eq!(attr.mtime, attr.atime);
    assert_eq!(attr.ctime, attr.atime);
    assert_eq!(attr.crtime, attr.atime);
    let root = fs.nodes().lookup_by_inode(ROOT_INODE).unwrap();
    assert_eq!(root.inode, 1);
    assert_eq!(root.parent_inode, 0);
    assert_eq!(root.name, "/");
    assert_eq!(fs.nodes().len(), 1);
    assert_eq!(fs.last_inode(), 1);
}

#[test]
fn create_write_read_lookup_scenario() {
    let ctx = ctx_at(1_700_000_000);
    let mut fs = MemoryFS::new_with(&ctx);
    let created = fs.create_with(&ctx, 1, "a.txt").unwrap();
    let n = created.ino;
    assert_ne!(n, 1);
    assert_eq!(n, 2);
    assert_eq!(fs.write_with(&ctx, n, b"hello"), Ok(5));
    assert_eq!(fs.read(n).unwrap().as_slice(), b"hello");
    assert_eq!(fs.getattr(n).unwrap().size, 5);
    assert_eq!(fs.lookup(1, "a.txt").unwrap().ino, n);
}

#[test]
fn getattr_of_unknown_inode_is_not_found() {
    let fs = MemoryFS::new_with(&ctx_at(0));
    assert_eq!(fs.getattr(999), Err(FsError::NotFound));
}

#[test]
fn creations_in_the_same_second_get_distinct_inodes() {
    let ctx = ctx_at(1_700_000_000);
    let mut fs = MemoryFS::new_with(&ctx);
    let a = fs.create_with(&ctx, 1, "a").unwrap();
    let b = fs.create_with(&ctx, 1, "b").unwrap();
    assert_ne!(a.ino, b.ino);
    assert_eq!(a.ino, 2);
    assert_eq!(b.ino, 3);
    assert_eq!(a.crtime, b.crtime);
    assert_eq!(fs.nodes().len(), 3);
}

#[test]
fn creating_the_same_name_twice_yields_two_entries() {
    let ctx = ctx_at(5);
    let mut fs = MemoryFS::new_with(&ctx);
    let first = fs.create_with(&ctx, 1, "same").unwrap();
    let second = fs.create_with(&ctx, 1, "same").unwrap();
    assert_ne!(first.ino, second.ino);
    assert_eq!(fs.getattr(first.ino), Ok(first));
    assert_eq!(fs.getattr(second.ino), Ok(second));
    assert_eq!(child_inodes(&fs.readdir(1, 0)), vec![first.ino, second.ino]);
}

#[test]
fn lookup_prefers_the_entry_created_first() {
    let ctx = ctx_at(5);
    let mut fs = MemoryFS::new_with(&ctx);
    let first = fs.create_with(&ctx, 1, "same").unwrap();
    fs.create_with(&ctx, 1, "other").unwrap();
    fs.create_with(&ctx, 1, "same").unwrap();
    fs.create_with(&ctx, 1, "same").unwrap();
    assert_eq!(fs.lookup(1, "same"), Ok(first));
}

#[test]
fn created_entry_is_an_empty_regular_file() {
    let ctx = ctx_at(42);
    let mut fs = MemoryFS::new_with(&ctx_at(1));
    let created = fs.create_with(&ctx, 1, "new").unwrap();
    let attr = fs.getattr(created.ino).unwrap();
    assert_eq!(attr, created);
    assert_eq!(attr.kind, FileType::RegularFile);
    assert_eq!(attr.size, 0);
    assert_eq!(attr.perm, 0o644);
    assert_eq!(attr.nlink, 2);
    assert_eq!(attr.atime.sec, 42);
    let node = fs.nodes().lookup_by_inode(created.ino).unwrap();
    assert_eq!(node.parent_inode, 1);
    assert_eq!(node.name, "new");
    assert_eq!(node.attributes, created);
}

#[test]
fn created_entry_stays_empty_while_others_change() {
    let ctx = ctx_at(42);
    let mut fs = MemoryFS::new_with(&ctx);
    let kept = fs.create_with(&ctx, 1, "kept").unwrap();
    let other = fs.create_with(&ctx_at(43), 1, "other").unwrap();
    fs.write_with(&ctx_at(44), other.ino, b"payload").unwrap();
    assert_eq!(fs.getattr(kept.ino), Ok(kept));
    assert_eq!(fs.read(kept.ino), Err(FsError::PermissionDenied));
}

#[test]
fn read_returns_binary_payload_byte_for_byte() {
    let ctx = ctx_at(7);
    let mut fs = MemoryFS::new_with(&ctx);
    let ino = fs.create_with(&ctx, 1, "blob").unwrap().ino;
    let payload: Vec<u8> = vec![0xff, 0xfe, 0x00, 0x80, 0xc3, 0x28, 0x0a];
    assert!(String::from_utf8(payload.clone()).is_err());
    assert_eq!(fs.write_with(&ctx, ino, &payload), Ok(7));
    assert_eq!(fs.read(ino), Ok(&payload));
    assert_eq!(fs.getattr(ino).unwrap().size, 7);
}

#[test]
fn write_replaces_earlier_content() {
    let ctx = ctx_at(7);
    let mut fs = MemoryFS::new_with(&ctx);
    let ino = fs.create_with(&ctx, 1, "f").unwrap().ino;
    assert_eq!(fs.write_with(&ctx, ino, b"a longer payload"), Ok(16));
    assert_eq!(fs.getattr(ino).unwrap().size, 16);
    assert_eq!(fs.write_with(&ctx_at(8), ino, b"short"), Ok(5));
    assert_eq!(fs.read(ino).unwrap().as_slice(), b"short");
    let attr = fs.getattr(ino).unwrap();
    assert_eq!(attr.size, 5);
    assert_eq!(attr.kind, FileType::RegularFile);
    assert_eq!(attr.mtime.sec, 8);
    assert_eq!(attr.ino, ino);
}

#[test]
fn write_of_empty_payload_stores_empty_content() {
    let ctx = ctx_at(7);
    let mut fs = MemoryFS::new_with(&ctx);
    let ino = fs.create_with(&ctx, 1, "f").unwrap().ino;
    assert_eq!(fs.write_with(&ctx, ino, b""), Ok(0));
    assert_eq!(fs.read(ino), Ok(&Vec::new()));
    assert_eq!(fs.getattr(ino).unwrap().size, 0);
}

#[test]
fn write_to_unknown_inode_is_not_found_and_stores_nothing() {
    let ctx = ctx_at(7);
    let mut fs = MemoryFS::new_with(&ctx);
    assert_eq!(fs.write_with(&ctx, 77, b"lost"), Err(FsError::NotFound));
    assert_eq!(fs.read(77), Err(FsError::PermissionDenied));
    assert_eq!(fs.getattr(77), Err(FsError::NotFound));
    assert_eq!(fs.nodes().len(), 1);
}

#[test]
fn write_keeps_name_and_parent() {
    let ctx = ctx_at(7);
    let mut fs = MemoryFS::new_with(&ctx);
    let ino = fs.create_with(&ctx, 1, "f").unwrap().ino;
    fs.write_with(&ctx, ino, b"x").unwrap();
    let node = fs.nodes().lookup_by_inode(ino).unwrap();
    assert_eq!(node.parent_inode, 1);
    assert_eq!(node.name, "f");
    fs.write_with(&ctx, 1, b"root").unwrap();
    let root = fs.nodes().lookup_by_inode(1).unwrap();
    assert_eq!(root.parent_inode, 0);
    assert_eq!(root.name, "/");
    assert_eq!(root.attributes.kind, FileType::RegularFile);
    assert_eq!(root.attributes.size, 4);
}

#[test]
fn read_without_content_is_refused() {
    let ctx = ctx_at(7);
    let mut fs = MemoryFS::new_with(&ctx);
    let ino = fs.create_with(&ctx, 1, "never_written").unwrap().ino;
    assert_eq!(fs.read(ino), Err(FsError::PermissionDenied));
    assert_eq!(fs.read(1), Err(FsError::PermissionDenied));
    assert_eq!(fs.read(999), Err(FsError::PermissionDenied));
}

#[test]
fn readdir_lists_dot_entries_before_children() {
    let ctx = ctx_at(7);
    let mut fs = MemoryFS::new_with(&ctx);
    let a = fs.create_with(&ctx, 1, "a").unwrap().ino;
    let b = fs.create_with(&ctx, 1, "b").unwrap().ino;
    let c = fs.create_with(&ctx, a, "nested").unwrap().ino;
    let entries = fs.readdir(1, 0);
    assert_eq!(entries.len(), 4);
    assert_eq!(
        entries[0],
        DirEntry { ino: 1, offset: 0, kind: FileType::Directory, name: ".".to_string() }
    );
    assert_eq!(
        entries[1],
        DirEntry { ino: 2, offset: 1, kind: FileType::Directory, name: "..".to_string() }
    );
    assert_eq!(entries[2].offset, 2);
    assert_eq!(entries[3].offset, 3);
    assert_eq!(child_inodes(&entries), vec![a, b]);
    for entry in entries.iter().skip(2) {
        assert_eq!(entry.kind, FileType::RegularFile);
        let expected = if entry.ino == a { "a" } else { "b" };
        assert_eq!(entry.name, expected);
    }
    let nested = fs.readdir(a, 0);
    assert_eq!(nested.len(), 3);
    assert_eq!(
        nested[2],
        DirEntry { ino: c, offset: 2, kind: FileType::RegularFile, name: "nested".to_string() }
    );
}

#[test]
fn readdir_from_positive_offset_is_empty() {
    let ctx = ctx_at(7);
    let mut fs = MemoryFS::new_with(&ctx);
    fs.create_with(&ctx, 1, "a").unwrap();
    assert_eq!(fs.readdir(1, 0).len(), 3);
    assert!(fs.readdir(1, 1).is_empty());
    assert!(fs.readdir(1, 3).is_empty());
    assert!(fs.readdir(1, i64::MAX).is_empty());
    assert!(fs.readdir(999, 1).is_empty());
}

#[test]
fn readdir_from_negative_offset_is_the_full_listing() {
    let ctx = ctx_at(7);
    let mut fs = MemoryFS::new_with(&ctx);
    let a = fs.create_with(&ctx, 1, "a").unwrap().ino;
    let entries = fs.readdir(1, -1);
    assert_eq!(entries.len(), 3);
    assert_eq!(entries[0].name, ".");
    assert_eq!(entries[1].name, "..");
    assert_eq!(entries[2].ino, a);
    assert_eq!(fs.readdir(1, i64::MIN), entries);
}

#[test]
fn readdir_of_unknown_directory_has_no_children() {
    let fs = MemoryFS::new_with(&ctx_at(7));
    let entries = fs.readdir(999, 0);
    assert_eq!(entries.len(), 2);
    assert_eq!(entries[0].name, ".");
    assert_eq!(entries[1].name, "..");
}

#[test]
fn readdir_of_the_sentinel_parent_lists_the_root() {
    let fs = MemoryFS::new_with(&ctx_at(7));
    let entries = fs.readdir(0, 0);
    assert_eq!(entries.len(), 3);
    assert_eq!(
        entries[2],
        DirEntry { ino: 1, offset: 2, kind: FileType::Directory, name: "/".to_string() }
    );
}

#[test]
fn lookup_needs_parent_and_exact_name() {
    let ctx = ctx_at(7);
    let mut fs = MemoryFS::new_with(&ctx);
    let a = fs.create_with(&ctx, 1, "a.txt").unwrap();
    assert_eq!(fs.lookup(1, "a.txt"), Ok(a));
    assert_eq!(fs.lookup(2, "a.txt"), Err(FsError::NotFound));
    assert_eq!(fs.lookup(1, "a.tx"), Err(FsError::NotFound));
    assert_eq!(fs.lookup(1, "A.TXT"), Err(FsError::NotFound));
    assert_eq!(fs.lookup(1, "a.txt "), Err(FsError::NotFound));
    assert_eq!(fs.lookup(1, ""), Err(FsError::NotFound));
    assert_eq!(fs.lookup(0, "/").unwrap().ino, 1);
}

#[test]
fn lookup_handles_names_beyond_ascii() {
    let ctx = ctx_at(7);
    let mut fs = MemoryFS::new_with(&ctx);
    let a = fs.create_with(&ctx, 1, "ファイル.txt").unwrap();
    assert_eq!(fs.lookup(1, "ファイル.txt"), Ok(a));
    assert_eq!(fs.lookup(1, "ファイル"), Err(FsError::NotFound));
    assert_eq!(fs.readdir(1, 0)[2].name, "ファイル.txt");
}

#[test]
fn setattr_returns_current_attributes_and_applies_nothing() {
    let ctx = ctx_at(7);
    let mut fs = MemoryFS::new_with(&ctx);
    let a = fs.create_with(&ctx, 1, "a").unwrap();
    let mut changes = no_changes();
    changes.mode = Some(0o777);
    changes.uid = Some(0);
    changes.gid = Some(0);
    changes.size = Some(4096);
    changes.mtime = Some(Timespec { sec: 99, nsec: 1 });
    changes.flags = Some(1);
    assert_eq!(fs.setattr(a.ino, &changes), Ok(a));
    assert_eq!(fs.getattr(a.ino), Ok(a));
    assert_eq!(fs.setattr(a.ino, &no_changes()), Ok(a));
}

#[test]
fn setattr_of_unknown_inode_is_refused() {
    let fs = MemoryFS::new_with(&ctx_at(7));
    assert_eq!(fs.setattr(999, &no_changes()), Err(FsError::PermissionDenied));
}

#[test]
fn init_and_destroy_change_nothing() {
    let ctx = ctx_at(7);
    let mut fs = MemoryFS::new_with(&ctx);
    let a = fs.create_with(&ctx, 1, "a").unwrap();
    assert_eq!(fs.init(), Ok(()));
    assert_eq!(fs.getattr(a.ino), Ok(a));
    assert_eq!(fs.last_inode(), 2);
    fs.destroy();
    assert_eq!(fs.getattr(a.ino), Ok(a));
    assert_eq!(fs.readdir(1, 0).len(), 3);
}

#[test]
fn create_fails_when_no_inode_is_left() {
    let ctx = ctx_at(7);
    let mut fs = MemoryFS::resume_with(&ctx, MAX_INODE - 1);
    assert_eq!(fs.last_inode(), MAX_INODE - 1);
    let last = fs.create_with(&ctx, 1, "last").unwrap();
    assert_eq!(last.ino, MAX_INODE);
    assert_eq!(last.ino, 0x7FFF_FFFF_FFFF_FFFE);
    assert_eq!(fs.create_with(&ctx, 1, "one too many"), Err(FsError::DuplicateInode));
    assert_eq!(fs.create(1, "again").is_err(), true);
    assert_eq!(fs.last_inode(), MAX_INODE);
    assert_eq!(fs.nodes().len(), 2);
    assert_eq!(fs.lookup(1, "one too many"), Err(FsError::NotFound));
}

#[test]
fn resume_clamps_the_floor() {
    let ctx = ctx_at(7);
    assert_eq!(MemoryFS::resume_with(&ctx, 0).last_inode(), 1);
    assert_eq!(MemoryFS::resume_with(&ctx, 1).last_inode(), 1);
    assert_eq!(MemoryFS::resume_with(&ctx, 17).last_inode(), 17);
    assert_eq!(MemoryFS::resume_with(&ctx, u64::MAX).last_inode(), MAX_INODE);
    let mut full = MemoryFS::resume_with(&ctx, u64::MAX);
    assert_eq!(full.create_with(&ctx, 1, "x"), Err(FsError::DuplicateInode));
}

#[test]
fn restarted_engine_hands_out_no_inode_of_its_predecessor() {
    let ctx = ctx_at(7);
    let mut first = MemoryFS::new_with(&ctx);
    let a = first.create_with(&ctx, 1, "a").unwrap().ino;
    let b = first.create_with(&ctx, 1, "b").unwrap().ino;
    let mut second = MemoryFS::resume_with(&ctx, first.last_inode());
    let c = second.create_with(&ctx, 1, "c").unwrap().ino;
    assert_eq!((a, b, c), (2, 3, 4));
    assert_eq!(second.getattr(a), Err(FsError::NotFound));
    assert_eq!(second.getattr(1).unwrap().kind, FileType::Directory);
}

#[test]
fn missing_file_errors_are_told_apart() {
    assert!(FsError::NotFound.is_missing());
    assert!(!FsError::DuplicateInode.is_missing());
    assert!(!FsError::InvalidContent.is_missing());
    assert!(!FsError::PermissionDenied.is_missing());
}

#[test]
fn a_crowded_directory_is_listed_in_full() {
    let ctx = ctx_at(7);
    let mut fs = MemoryFS::new_with(&ctx);
    let mut expected: Vec<u64> = Vec::new();
    for i in 0..500u64 {
        let name = format!("file-{}", i);
        let attr = fs.create_with(&ctx, 1, &name).unwrap();
        assert_eq!(attr.ino, i + 2);
        expected.push(attr.ino);
    }
    let elsewhere = fs.create_with(&ctx, 2, "elsewhere").unwrap().ino;
    let entries = fs.readdir(1, 0);
    assert_eq!(entries.len(), 502);
    for (position, entry) in entries.iter().enumerate() {
        assert_eq!(entry.offset, position as i64);
    }
    assert_eq!(child_inodes(&entries), expected);
    for entry in entries.iter().skip(2) {
        assert_eq!(entry.name, format!("file-{}", entry.ino - 2));
        assert_eq!(fs.lookup(1, &entry.name).unwrap().ino, entry.ino);
    }
    assert_eq!(child_inodes(&fs.readdir(2, 0)), vec![elsewhere]);
    assert_eq!(fs.nodes().len(), 502);
    assert_eq!(fs.last_inode(), 502);
}

#[test]
fn large_payload_round_trips() {
    let ctx = ctx_at(7);
    let mut fs = MemoryFS::new_with(&ctx);
    let ino = fs.create_with(&ctx, 1, "big").unwrap().ino;
    let payload: Vec<u8> = (0..100_000u32).map(|i| (i % 251) as u8).collect();
    assert_eq!(fs.write_with(&ctx, ino, &payload), Ok(100_000));
    assert_eq!(fs.read(ino), Ok(&payload));
    assert_eq!(fs.getattr(ino).unwrap().size, 100_000);
}
