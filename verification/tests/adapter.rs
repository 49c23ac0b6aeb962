use gcn_fst::attr::{get_attr, Attr, FileKind};
use gcn_fst::fst::{get_entry, next_index, Entry, FsError, Fst};
use gcn_fst::inode::{to_index, to_inode};
use gcn_fst::lookup::{lookup, lookup_start, lookup_step, LookupStep};
use gcn_fst::read::{read_plan, ReadPlan};
use gcn_fst::readdir::{readdir_entries, DirEntry, EntryName};

/// A root directory holding one file ("a.txt", 10 bytes at offset 100) and
/// one empty subdirectory ("sub").
fn sample_table() -> Fst {
    Fst::new(vec![
        Entry::Directory { index: 0, end_index: 3, parent_index: 0 },
        Entry::File { size: 10, offset: 100 },
        Entry::Directory { index: 2, end_index: 3, parent_index: 0 },
    ])
    .unwrap()
}

fn sample_names() -> Vec<String> {
    vec![String::new(), "a.txt".to_string(), "sub".to_string()]
}

/// A root holding a subdirectory "sub" (with one file "inner.txt" inside)
/// followed by a top-level file "top.txt".
fn nested_table() -> Fst {
    Fst::new(vec![
        Entry::Directory { index: 0, end_index: 4, parent_index: 0 },
        Entry::Directory { index: 1, end_index: 3, parent_index: 0 },
        Entry::File { size: 7, offset: 50 },
        Entry::File { size: 3, offset: 90 },
    ])
    .unwrap()
}

fn nested_names() -> Vec<String> {
    vec![
        String::new(),
        "sub".to_string(),
        "inner.txt".to_string(),
        "top.txt".to_string(),
    ]
}

#[test]
fn inode_index_roundtrip() {
    assert_eq!(to_inode(0), 1);
    assert_eq!(to_index(1), 0);
    for i in [0u32, 1, 2, 7, 1000, u32::MAX - 1] {
        assert_eq!(to_index(to_inode(i)), i);
    }
    assert_eq!(to_inode(to_index(42)), 42);
}

#[test]
fn file_attributes() {
    let fst = sample_table();
    let attr = get_attr(&fst, 1);
    assert_eq!(
        attr,
        Attr {
            ino: 2,
            size: 10,
            blocks: 1,
            kind: FileKind::RegularFile,
            perm: 0o444,
            nlink: 1,
            uid: 0,
            gid: 0,
            rdev: 0,
            blksize: 512,
            flags: 0,
        }
    );
}

#[test]
fn directory_link_count_counts_subtree_directories() {
    let fst = sample_table();
    // The root's range (0, 3) holds one directory: 2 + 1 links.
    let root = get_attr(&fst, 0);
    assert_eq!(root.kind, FileKind::Directory);
    assert_eq!(root.nlink, 3);
    assert_eq!(root.perm, 0o555);
    assert_eq!(root.ino, 1);
    assert_eq!(root.size, 0);
    assert_eq!(root.blocks, 0);
    // The empty subdirectory holds none: the bare 2 links.
    assert_eq!(get_attr(&fst, 2).nlink, 2);
    // A nested directory is counted even though it is not a direct child.
    let deep = Fst::new(vec![
        Entry::Directory { index: 0, end_index: 4, parent_index: 0 },
        Entry::Directory { index: 1, end_index: 3, parent_index: 0 },
        Entry::Directory { index: 2, end_index: 3, parent_index: 1 },
        Entry::File { size: 1, offset: 0 },
    ])
    .unwrap();
    assert_eq!(get_attr(&deep, 0).nlink, 4);
}

#[test]
fn lookup_finds_direct_children() {
    let fst = sample_table();
    let names = sample_names();
    assert_eq!(lookup(&fst, 0, &names, &"a.txt".to_string()), Ok(get_attr(&fst, 1)));
    assert_eq!(lookup(&fst, 0, &names, &"sub".to_string()), Ok(get_attr(&fst, 2)));
}

#[test]
fn lookup_missing_name_is_not_found() {
    let fst = sample_table();
    let names = sample_names();
    assert_eq!(lookup(&fst, 0, &names, &"missing".to_string()), Err(FsError::NotFound));
}

#[test]
fn lookup_does_not_descend_into_subdirectories() {
    let fst = nested_table();
    let names = nested_names();
    // "inner.txt" exists only inside "sub": not a direct child of the root.
    assert_eq!(lookup(&fst, 0, &names, &"inner.txt".to_string()), Err(FsError::NotFound));
    // It is found when the search starts at "sub" itself.
    assert_eq!(lookup(&fst, 1, &names, &"inner.txt".to_string()), Ok(get_attr(&fst, 2)));
    // The file after the subtree is still a direct child of the root.
    assert_eq!(lookup(&fst, 0, &names, &"top.txt".to_string()), Ok(get_attr(&fst, 3)));
}

#[test]
fn lookup_on_file_is_io_error() {
    let fst = sample_table();
    let names = sample_names();
    assert_eq!(lookup(&fst, 1, &names, &"a.txt".to_string()), Err(FsError::InputOutput));
}

#[test]
fn lookup_lazy_walk_matches() {
    let fst = sample_table();
    let query = "sub".to_string();
    let first = lookup_start(&fst, 0).unwrap();
    assert_eq!(first, Some(1));
    let step = lookup_step(&fst, 0, 1, &"a.txt".to_string(), &query);
    assert_eq!(step, LookupStep::Next { index: 2 });
    let step = lookup_step(&fst, 0, 2, &"sub".to_string(), &query);
    assert_eq!(step, LookupStep::Found { attr: get_attr(&fst, 2) });
    // A miss on the last candidate ends the walk.
    let step = lookup_step(&fst, 0, 2, &"sub".to_string(), &"nope".to_string());
    assert_eq!(step, LookupStep::Missing);
}

#[test]
fn lookup_start_on_empty_directory() {
    let fst = sample_table();
    assert_eq!(lookup_start(&fst, 2), Ok(None));
    assert_eq!(lookup_start(&fst, 1), Err(FsError::InputOutput));
}

#[test]
fn readdir_lists_dot_dotdot_then_children() {
    let fst = sample_table();
    let listing = readdir_entries(&fst, 0).unwrap();
    assert_eq!(
        listing,
        vec![
            DirEntry { ino: 1, offset: 1, kind: FileKind::Directory, name: EntryName::Current },
            DirEntry { ino: 1, offset: 2, kind: FileKind::Directory, name: EntryName::Parent },
            DirEntry {
                ino: 2,
                offset: 3,
                kind: FileKind::RegularFile,
                name: EntryName::Child { index: 1 },
            },
            DirEntry {
                ino: 3,
                offset: 4,
                kind: FileKind::Directory,
                name: EntryName::Child { index: 2 },
            },
        ]
    );
}

#[test]
fn readdir_lists_direct_children_only() {
    let fst = nested_table();
    let listing = readdir_entries(&fst, 0).unwrap();
    let children: Vec<EntryName> = listing[2..].iter().map(|e| e.name).collect();
    assert_eq!(
        children,
        vec![EntryName::Child { index: 1 }, EntryName::Child { index: 3 }]
    );
    // The subdirectory's own listing names its parent's inode under "..".
    let sub = readdir_entries(&fst, 1).unwrap();
    assert_eq!(sub[0].ino, 2);
    assert_eq!(sub[1].ino, 1);
    assert_eq!(sub[2], DirEntry {
        ino: 3,
        offset: 3,
        kind: FileKind::RegularFile,
        name: EntryName::Child { index: 2 },
    });
    assert_eq!(sub.len(), 3);
}

#[test]
fn readdir_on_file_is_not_a_directory() {
    let fst = sample_table();
    assert_eq!(readdir_entries(&fst, 1), Err(FsError::NotADirectory));
}

#[test]
fn readdir_pagination_concatenates_to_one_pass() {
    let fst = sample_table();
    let full = readdir_entries(&fst, 0).unwrap();
    // The transport emits two entries, then resumes with the offset carried
    // by the last emitted entry; every listing call recomputes the same list.
    let first_page: Vec<DirEntry> = full[..2].to_vec();
    let resume: usize = first_page.last().unwrap().offset as usize;
    let again = readdir_entries(&fst, 0).unwrap();
    let second_page: Vec<DirEntry> = again[resume..].to_vec();
    let mut joined = first_page.clone();
    joined.extend(second_page);
    assert_eq!(joined, full);
}

#[test]
fn read_window_is_clamped_to_file_size() {
    let fst = sample_table();
    // Within bounds: exactly the requested bytes, at file offset + offset.
    assert_eq!(read_plan(&fst, 1, 0, 4), Ok(ReadPlan { position: 100, length: 4 }));
    // Truncated at the end of the file.
    assert_eq!(read_plan(&fst, 1, 5, 100), Ok(ReadPlan { position: 105, length: 5 }));
    // At the end: nothing left to read.
    assert_eq!(read_plan(&fst, 1, 10, 8), Ok(ReadPlan { position: 110, length: 0 }));
    // Beyond the end: clamped, never wrapping.
    assert_eq!(read_plan(&fst, 1, 12, 8), Ok(ReadPlan { position: 110, length: 0 }));
    // A zero-length request reads nothing.
    assert_eq!(read_plan(&fst, 1, 3, 0), Ok(ReadPlan { position: 103, length: 0 }));
}

#[test]
fn read_on_directory_fails() {
    let fst = sample_table();
    assert_eq!(read_plan(&fst, 0, 0, 4), Err(FsError::NotADirectory));
    assert_eq!(read_plan(&fst, 2, 0, 4), Err(FsError::NotADirectory));
}

#[test]
fn malformed_tables_are_rejected() {
    // A directory must record its own position.
    assert_eq!(
        Fst::new(vec![Entry::Directory { index: 1, end_index: 2, parent_index: 0 }]).map(|_| ()),
        Err(FsError::Malformed)
    );
    // The subtree range must be non-empty.
    assert_eq!(
        Fst::new(vec![Entry::Directory { index: 0, end_index: 0, parent_index: 0 }]).map(|_| ()),
        Err(FsError::Malformed)
    );
    // The subtree range must end within the table.
    assert_eq!(
        Fst::new(vec![Entry::Directory { index: 0, end_index: 5, parent_index: 0 }]).map(|_| ()),
        Err(FsError::Malformed)
    );
    // The parent must be a valid position.
    assert_eq!(
        Fst::new(vec![Entry::Directory { index: 0, end_index: 1, parent_index: 9 }]).map(|_| ()),
        Err(FsError::Malformed)
    );
    assert!(Fst::new(vec![]).is_ok());
}

#[test]
fn entries_are_fetched_by_inode() {
    let fst = sample_table();
    assert_eq!(*get_entry(&fst, 1), Entry::Directory { index: 0, end_index: 3, parent_index: 0 });
    assert_eq!(*get_entry(&fst, 2), Entry::File { size: 10, offset: 100 });
    assert_eq!(fst.len(), 3);
}

#[test]
fn skip_rule_steps_over_subtrees() {
    let fst = nested_table();
    // A directory is skipped whole; a file advances by one.
    assert_eq!(next_index(&fst, 1), 3);
    assert_eq!(next_index(&fst, 3), 4);
}

#[test]
fn block_count_follows_size() {
    let fst = Fst::new(vec![
        Entry::Directory { index: 0, end_index: 4, parent_index: 0 },
        Entry::File { size: 0, offset: 0 },
        Entry::File { size: 512, offset: 0 },
        Entry::File { size: 513, offset: 0 },
    ])
    .unwrap();
    // blocks = size / 512 + 1
    assert_eq!(get_attr(&fst, 1).blocks, 1);
    assert_eq!(get_attr(&fst, 2).blocks, 2);
    assert_eq!(get_attr(&fst, 3).blocks, 2);
}
