use axvfs::error::VfsError;
use axvfs::types::{NodePermission, NodeType};
use axvfs::vfs::{Filesystem, FsKind, Location};

fn mode(bits: u16) -> NodePermission {
    NodePermission::from_bits_truncate(bits)
}

fn file(fs: &mut Filesystem, dir: Location, name: &str) -> Location {
    fs.create(dir, name, NodeType::RegularFile, mode(0o644)).unwrap()
}

fn dir(fs: &mut Filesystem, parent: Location, name: &str) -> Location {
    fs.create(parent, name, NodeType::Directory, mode(0o755)).unwrap()
}

#[test]
fn new_file_system_has_an_empty_root() {
    for kind in [FsKind::Fat, FsKind::Ext4] {
        let fs = Filesystem::new(kind);
        let root = fs.root_dir();
        assert_eq!(fs.kind(), kind);
        assert!(fs.is_valid(root));
        assert!(fs.is_dir(root));
        assert_eq!(fs.parent(root), None);
        assert_eq!(fs.name(root), "");
        assert_eq!(fs.absolute_path(root).unwrap(), "/");
        assert!(fs.read_dir(root, 0, 10).unwrap().is_empty());
    }
}

#[test]
fn root_metadata_of_each_kind() {
    let fat = Filesystem::new(FsKind::Fat);
    let meta = fat.metadata(fat.root_dir()).unwrap();
    assert_eq!(meta.inode, 1);
    assert_eq!(meta.size, 512);
    assert_eq!(meta.block_size, 512);
    assert_eq!(meta.blocks, 1);
    assert_eq!(meta.mode.bits(), 0o666);
    assert_eq!(meta.node_type, NodeType::Directory);
    let ext4 = Filesystem::new(FsKind::Ext4);
    let meta = ext4.metadata(ext4.root_dir()).unwrap();
    assert_eq!(meta.inode, 2);
    assert_eq!(meta.size, 0);
    assert_eq!(meta.block_size, 4096);
    assert_eq!(meta.mode.bits(), 0o755);
}

#[test]
fn create_then_lookup_finds_the_entry() {
    let mut fs = Filesystem::new(FsKind::Ext4);
    let root = fs.root_dir();
    let made = file(&mut fs, root, "Notes.TXT");
    assert_eq!(fs.lookup(root, "Notes.TXT"), Ok(made));
    assert_eq!(fs.name(made), "Notes.TXT");
    assert_eq!(fs.lookup(root, "notes.txt"), Err(VfsError::NotFound));
    assert_eq!(fs.parent(made), Some(root));
}

#[test]
fn fat_stores_names_in_lower_case_and_ignores_case() {
    let mut fs = Filesystem::new(FsKind::Fat);
    let root = fs.root_dir();
    let made = file(&mut fs, root, "Notes.TXT");
    assert_eq!(fs.name(made), "notes.txt");
    assert_eq!(fs.stored_name("Notes.TXT"), "notes.txt");
    assert_eq!(fs.lookup(root, "Notes.TXT"), Ok(made));
    assert_eq!(fs.lookup(root, "NOTES.txt"), Ok(made));
    assert_eq!(
        fs.create(root, "NOTES.TXT", NodeType::RegularFile, mode(0o644)),
        Err(VfsError::AlreadyExists)
    );
    // Letters outside ASCII keep their case.
    let other = file(&mut fs, root, "ÄB");
    assert_eq!(fs.name(other), "Äb");
}

#[test]
fn create_rejects_what_cannot_be_made() {
    let mut fs = Filesystem::new(FsKind::Ext4);
    let root = fs.root_dir();
    let f = file(&mut fs, root, "f");
    let make = |fs: &mut Filesystem, dir: Location, name: &str| {
        fs.create(dir, name, NodeType::RegularFile, mode(0o644))
    };
    assert_eq!(make(&mut fs, root, "f"), Err(VfsError::AlreadyExists));
    assert_eq!(make(&mut fs, f, "x"), Err(VfsError::NotADirectory));
    assert_eq!(make(&mut fs, Location { index: 99 }, "x"), Err(VfsError::NotFound));
    assert_eq!(make(&mut fs, root, "."), Err(VfsError::InvalidInput));
    assert_eq!(make(&mut fs, root, ".."), Err(VfsError::InvalidInput));
    assert_eq!(make(&mut fs, root, ""), Err(VfsError::InvalidInput));
    assert_eq!(make(&mut fs, root, "a/b"), Err(VfsError::InvalidInput));
    assert_eq!(make(&mut fs, root, "a\0b"), Err(VfsError::InvalidInput));
    let long = "x".repeat(256);
    assert_eq!(make(&mut fs, root, &long), Err(VfsError::NameTooLong));
    let fits = "x".repeat(255);
    assert!(make(&mut fs, root, &fits).is_ok());
}

#[test]
fn fat_makes_files_and_directories_only() {
    let mut fs = Filesystem::new(FsKind::Fat);
    let root = fs.root_dir();
    for node_type in [
        NodeType::Symlink,
        NodeType::Fifo,
        NodeType::Socket,
        NodeType::CharacterDevice,
        NodeType::BlockDevice,
        NodeType::Unknown,
    ] {
        assert_eq!(
            fs.create(root, "x", node_type, mode(0o644)),
            Err(VfsError::InvalidInput)
        );
    }
    let mut ext4 = Filesystem::new(FsKind::Ext4);
    let root = ext4.root_dir();
    let link = ext4.create(root, "x", NodeType::Symlink, mode(0o777)).unwrap();
    assert_eq!(ext4.metadata(link).unwrap().node_type, NodeType::Symlink);
}

#[test]
fn metadata_of_new_nodes() {
    let mut ext4 = Filesystem::new(FsKind::Ext4);
    let root = ext4.root_dir();
    let f = ext4.create(root, "f", NodeType::RegularFile, mode(0o640)).unwrap();
    let meta = ext4.metadata(f).unwrap();
    assert_eq!(meta.mode.bits(), 0o640);
    assert_eq!(meta.nlink, 1);
    assert_eq!(meta.size, 0);
    assert_eq!(meta.blocks, 0);
    assert_eq!(meta.block_size, 4096);
    assert_eq!(meta.inode, 3);
    assert_eq!(meta.mtime.as_secs(), 0);

    let mut fat = Filesystem::new(FsKind::Fat);
    let root = fat.root_dir();
    let f = fat.create(root, "f", NodeType::RegularFile, mode(0o640)).unwrap();
    let meta = fat.metadata(f).unwrap();
    assert_eq!(meta.mode.bits(), 0o640);
    assert_eq!(meta.block_size, 512);
    assert_ne!(meta.inode, 0);
    assert_ne!(meta.inode, fat.metadata(root).unwrap().inode);
    // The first moment that FAT can record: 1980-01-01, as chrono counts it.
    assert_eq!(meta.mtime.as_secs(), 315_532_800);
    assert_eq!(meta.ctime.as_secs(), 315_532_800);
    assert_eq!(meta.atime.as_secs(), 315_532_800);
    assert_eq!(meta.mtime.subsec_nanos(), 0);
}

#[test]
fn unlink_then_lookup_fails() {
    for kind in [FsKind::Fat, FsKind::Ext4] {
        let mut fs = Filesystem::new(kind);
        let root = fs.root_dir();
        let f = file(&mut fs, root, "f");
        let g = file(&mut fs, root, "g");
        assert_eq!(fs.unlink(root, "f", false), Ok(()));
        assert_eq!(fs.lookup(root, "f"), Err(VfsError::NotFound));
        assert_eq!(fs.lookup(root, "g"), Ok(g));
        assert!(!fs.is_valid(f));
        assert_eq!(fs.unlink(root, "f", false), Err(VfsError::NotFound));
    }
}

#[test]
fn unlink_checks_the_type() {
    let mut fs = Filesystem::new(FsKind::Ext4);
    let root = fs.root_dir();
    let d = dir(&mut fs, root, "d");
    file(&mut fs, root, "f");
    file(&mut fs, d, "inner");
    assert_eq!(fs.unlink(root, "d", false), Err(VfsError::IsADirectory));
    assert_eq!(fs.unlink(root, "f", true), Err(VfsError::NotADirectory));
    assert_eq!(fs.unlink(root, "d", true), Err(VfsError::DirectoryNotEmpty));
    assert_eq!(fs.unlink(root, ".", true), Err(VfsError::InvalidInput));
    assert_eq!(fs.unlink(d, "inner", false), Ok(()));
    assert_eq!(fs.unlink(root, "d", true), Ok(()));
    assert_eq!(fs.lookup(root, "d"), Err(VfsError::NotFound));
}

#[test]
fn lookup_of_dot_and_dotdot() {
    let mut fs = Filesystem::new(FsKind::Ext4);
    let root = fs.root_dir();
    let d = dir(&mut fs, root, "d");
    let f = file(&mut fs, d, "f");
    assert_eq!(fs.lookup(d, "."), Ok(d));
    assert_eq!(fs.lookup(d, ".."), Ok(root));
    assert_eq!(fs.lookup(root, ".."), Ok(root));
    assert_eq!(fs.lookup(f, "x"), Err(VfsError::NotADirectory));
    assert_eq!(fs.lookup(Location { index: 77 }, "x"), Err(VfsError::NotFound));
    assert_eq!(fs.lookup(root, &"y".repeat(300)), Err(VfsError::NameTooLong));
}

#[test]
fn rename_moves_an_entry_and_keeps_its_handle() {
    for kind in [FsKind::Fat, FsKind::Ext4] {
        let mut fs = Filesystem::new(kind);
        let root = fs.root_dir();
        let a = dir(&mut fs, root, "a");
        let b = dir(&mut fs, root, "b");
        let f = file(&mut fs, a, "f");
        assert_eq!(fs.rename(a, "f", b, "g"), Ok(()));
        assert_eq!(fs.lookup(b, "g"), Ok(f));
        assert_eq!(fs.lookup(a, "f"), Err(VfsError::NotFound));
        assert_eq!(fs.parent(f), Some(b));
        assert_eq!(fs.name(f), "g");
        assert_eq!(fs.absolute_path(f).unwrap(), "/b/g");
    }
}

#[test]
fn rename_replaces_what_is_in_the_way() {
    let mut fs = Filesystem::new(FsKind::Ext4);
    let root = fs.root_dir();
    let f = file(&mut fs, root, "f");
    let g = file(&mut fs, root, "g");
    assert_eq!(fs.rename(root, "f", root, "g"), Ok(()));
    assert_eq!(fs.lookup(root, "g"), Ok(f));
    assert!(!fs.is_valid(g));
    assert_eq!(fs.read_dir(root, 0, 10).unwrap().len(), 1);
}

#[test]
fn rename_failures() {
    let mut fs = Filesystem::new(FsKind::Ext4);
    let root = fs.root_dir();
    let d = dir(&mut fs, root, "d");
    let full = dir(&mut fs, root, "full");
    file(&mut fs, full, "x");
    file(&mut fs, root, "f");
    assert_eq!(fs.rename(root, "nothing", root, "y"), Err(VfsError::NotFound));
    assert_eq!(fs.rename(root, "d", root, "full"), Err(VfsError::DirectoryNotEmpty));
    assert_eq!(fs.rename(root, "f", root, "full"), Err(VfsError::DirectoryNotEmpty));
    assert_eq!(fs.rename(root, "full", root, "full"), Err(VfsError::DirectoryNotEmpty));
    assert_eq!(fs.rename(root, "f", d, "y"), Err(VfsError::InvalidInput));
    assert_eq!(fs.rename(Location { index: 3 }, "x", root, "y"), Err(VfsError::NotADirectory));
    assert_eq!(fs.rename(root, "f", root, "a/b"), Err(VfsError::InvalidInput));
    assert_eq!(fs.rename(root, "f", root, ".."), Err(VfsError::InvalidInput));
    assert_eq!(fs.rename(root, "f", Location { index: 50 }, "x"), Err(VfsError::NotFound));
    // Nothing moved.
    assert_eq!(fs.lookup(root, "d"), Ok(d));
    assert_eq!(fs.read_dir(root, 0, 10).unwrap().len(), 3);
}

#[test]
fn rename_replaces_an_empty_directory_whatever_moves() {
    for kind in [FsKind::Fat, FsKind::Ext4] {
        let mut fs = Filesystem::new(kind);
        let root = fs.root_dir();
        let d = dir(&mut fs, root, "d");
        let e = dir(&mut fs, root, "e");
        let f = file(&mut fs, root, "f");
        let g = file(&mut fs, root, "g");
        // A file takes the place of an empty directory.
        assert_eq!(fs.rename(root, "f", root, "d"), Ok(()));
        assert_eq!(fs.lookup(root, "d"), Ok(f));
        assert_eq!(fs.lookup(root, "f"), Err(VfsError::NotFound));
        assert!(!fs.is_valid(d));
        assert_eq!(fs.metadata(f).unwrap().node_type, NodeType::RegularFile);
        // A directory takes the place of a file.
        assert_eq!(fs.rename(root, "e", root, "g"), Ok(()));
        assert_eq!(fs.lookup(root, "g"), Ok(e));
        assert!(!fs.is_valid(g));
        assert_eq!(fs.metadata(e).unwrap().node_type, NodeType::Directory);
        assert_eq!(fs.read_dir(root, 0, 10).unwrap().len(), 2);
    }
}

#[test]
fn rename_of_a_missing_entry_is_not_found_wherever_it_was_to_go() {
    for kind in [FsKind::Fat, FsKind::Ext4] {
        let mut fs = Filesystem::new(kind);
        let root = fs.root_dir();
        let a = dir(&mut fs, root, "a");
        let b = dir(&mut fs, a, "b");
        let f = file(&mut fs, a, "f");
        let g = file(&mut fs, root, "g");
        // The target directory lies below the source directory.
        assert_eq!(fs.rename(root, "nothing", a, "x"), Err(VfsError::NotFound));
        assert_eq!(fs.rename(root, "nothing", b, "x"), Err(VfsError::NotFound));
        assert_eq!(fs.rename(a, "nothing", b, "x"), Err(VfsError::NotFound));
        // The target is no directory, or the new name no name.
        assert_eq!(fs.rename(root, "nothing", f, "x"), Err(VfsError::NotFound));
        assert_eq!(fs.rename(root, "nothing", root, ""), Err(VfsError::NotFound));
        // What exists is still refused there.
        assert_eq!(fs.rename(root, "a", b, "x"), Err(VfsError::InvalidInput));
        assert_eq!(fs.rename(a, "f", b, "x"), Err(VfsError::InvalidInput));
        assert_eq!(fs.rename(a, "f", g, "x"), Err(VfsError::NotADirectory));
        assert_eq!(fs.rename(a, "f", a, ""), Err(VfsError::InvalidInput));
        assert_eq!(fs.absolute_path(f).unwrap(), "/a/f");
    }
}

#[test]
fn rename_into_own_subtree_is_refused() {
    for kind in [FsKind::Fat, FsKind::Ext4] {
        let mut fs = Filesystem::new(kind);
        let root = fs.root_dir();
        let a = dir(&mut fs, root, "a");
        let b = dir(&mut fs, a, "b");
        let c = dir(&mut fs, b, "c");
        assert_eq!(fs.rename(root, "a", c, "a"), Err(VfsError::InvalidInput));
        assert_eq!(fs.rename(root, "a", a, "x"), Err(VfsError::InvalidInput));
        assert_eq!(fs.rename(a, "b", c, "x"), Err(VfsError::InvalidInput));
        // The tree is as it was.
        assert_eq!(fs.lookup(root, "a"), Ok(a));
        assert_eq!(fs.lookup(a, "b"), Ok(b));
        assert_eq!(fs.lookup(b, "c"), Ok(c));
        assert_eq!(fs.absolute_path(c).unwrap(), "/a/b/c");
        assert!(fs.is_ancestor_of(a, c));
        assert!(!fs.is_ancestor_of(c, a));
        // A move out of the subtree goes through.
        assert_eq!(fs.rename(b, "c", root, "c"), Ok(()));
        assert_eq!(fs.absolute_path(c).unwrap(), "/c");
    }
}

#[test]
fn rename_of_a_directory_takes_its_entries_along() {
    let mut fs = Filesystem::new(FsKind::Ext4);
    let root = fs.root_dir();
    let p = dir(&mut fs, root, "p");
    let q = dir(&mut fs, root, "q");
    let a = dir(&mut fs, p, "a");
    let inner = dir(&mut fs, a, "inner");
    let f = file(&mut fs, inner, "f");
    assert_eq!(fs.rename(p, "a", q, "moved"), Ok(()));
    assert_eq!(fs.absolute_path(f).unwrap(), "/q/moved/inner/f");
    assert!(fs.is_ancestor_of(q, f));
    assert!(!fs.is_ancestor_of(p, f));
    assert!(fs.is_ancestor_of(root, f));
    assert!(fs.is_ancestor_of(f, f));
    assert!(!fs.is_ancestor_of(inner, q));
    // And back again, next to where it was.
    assert_eq!(fs.rename(q, "moved", p, "back"), Ok(()));
    assert_eq!(fs.absolute_path(f).unwrap(), "/p/back/inner/f");
}

#[test]
fn rename_from_a_directory_into_one_below_it_is_refused() {
    // The test is made on the two directories, whatever moves.
    let mut fs = Filesystem::new(FsKind::Ext4);
    let root = fs.root_dir();
    let a = dir(&mut fs, root, "a");
    let f = file(&mut fs, root, "f");
    assert_eq!(fs.rename(root, "f", a, "f"), Err(VfsError::InvalidInput));
    assert_eq!(fs.lookup(root, "f"), Ok(f));
    assert_eq!(fs.lookup(a, "f"), Err(VfsError::NotFound));
}

#[test]
fn hard_links_share_the_node() {
    let mut fs = Filesystem::new(FsKind::Ext4);
    let root = fs.root_dir();
    let d = dir(&mut fs, root, "d");
    let f = file(&mut fs, root, "f");
    let node = fs.node_id(f).unwrap();
    fs.write_at(node, 0, b"shared").unwrap();
    let h = fs.link(d, "h", f).unwrap();
    assert_eq!(fs.node_id(h).unwrap(), node);
    assert_eq!(fs.metadata(h).unwrap().nlink, 2);
    assert_eq!(fs.metadata(f).unwrap().nlink, 2);
    assert_eq!(fs.unlink(root, "f", false), Ok(()));
    assert_eq!(fs.metadata(h).unwrap().nlink, 1);
    assert_eq!(fs.read_at(node, 0, 100).unwrap(), b"shared".to_vec());
    // A rename onto another name of the same node replaces that name.
    let i = fs.link(d, "i", h).unwrap();
    assert_eq!(fs.metadata(h).unwrap().nlink, 2);
    assert_eq!(fs.rename(d, "h", d, "i"), Ok(()));
    assert_eq!(fs.lookup(d, "h"), Err(VfsError::NotFound));
    assert_eq!(fs.lookup(d, "i"), Ok(h));
    assert!(!fs.is_valid(i));
    assert_eq!(fs.metadata(h).unwrap().nlink, 1);
    assert_eq!(fs.read_at(node, 0, 100).unwrap(), b"shared".to_vec());
}

#[test]
fn rename_onto_itself_changes_nothing() {
    for kind in [FsKind::Fat, FsKind::Ext4] {
        let mut fs = Filesystem::new(kind);
        let root = fs.root_dir();
        let f = file(&mut fs, root, "f");
        assert_eq!(fs.rename(root, "f", root, "f"), Ok(()));
        assert_eq!(fs.lookup(root, "f"), Ok(f));
        assert_eq!(fs.read_dir(root, 0, 10).unwrap().len(), 1);
    }
    // On FAT a name in other letters is the same name.
    let mut fat = Filesystem::new(FsKind::Fat);
    let root = fat.root_dir();
    let f = file(&mut fat, root, "f");
    assert_eq!(fat.rename(root, "f", root, "F"), Ok(()));
    assert_eq!(fat.lookup(root, "f"), Ok(f));
}

#[test]
fn fat_entries_have_inode_numbers_of_their_own() {
    let mut fs = Filesystem::new(FsKind::Fat);
    let root = fs.root_dir();
    let mut seen = vec![fs.metadata(root).unwrap().inode];
    for i in 0..20 {
        let made = file(&mut fs, root, &format!("f{i}"));
        let inode = fs.metadata(made).unwrap().inode;
        assert!(inode >= 1);
        assert!(!seen.contains(&inode));
        seen.push(inode);
    }
    // A number that was given back may come again, but never while in use.
    assert_eq!(fs.unlink(root, "f3", false), Ok(()));
    let again = file(&mut fs, root, "again");
    let inode = fs.metadata(again).unwrap().inode;
    let in_use: Vec<u64> = fs
        .read_dir(root, 0, 100)
        .unwrap()
        .iter()
        .filter(|e| e.name != "again")
        .map(|e| e.ino)
        .collect();
    assert!(!in_use.contains(&inode));
    assert_ne!(inode, fs.metadata(root).unwrap().inode);
}

#[test]
fn link_failures() {
    let mut fs = Filesystem::new(FsKind::Ext4);
    let root = fs.root_dir();
    let d = dir(&mut fs, root, "d");
    let f = file(&mut fs, root, "f");
    assert_eq!(fs.link(root, "f", f), Err(VfsError::AlreadyExists));
    assert_eq!(fs.link(root, "x", d), Err(VfsError::PermissionDenied));
    assert_eq!(fs.link(f, "x", f), Err(VfsError::NotADirectory));
    assert_eq!(fs.link(root, "x", Location { index: 9 }), Err(VfsError::NotFound));
    assert_eq!(fs.link(root, "a/b", f), Err(VfsError::InvalidInput));
    let mut fat = Filesystem::new(FsKind::Fat);
    let root = fat.root_dir();
    let f = file(&mut fat, root, "f");
    assert_eq!(fat.link(root, "g", f), Err(VfsError::PermissionDenied));
    assert_eq!(fat.link(root, ".", f), Err(VfsError::PermissionDenied));
}

#[test]
fn listing_a_directory() {
    let mut fs = Filesystem::new(FsKind::Ext4);
    let root = fs.root_dir();
    let a = file(&mut fs, root, "a");
    dir(&mut fs, root, "b");
    file(&mut fs, root, "c");
    let all = fs.read_dir(root, 0, 10).unwrap();
    let names: Vec<&str> = all.iter().map(|e| e.name.as_str()).collect();
    assert_eq!(names, vec!["a", "b", "c"]);
    assert_eq!(all[0].offset, 1);
    assert_eq!(all[2].offset, 3);
    assert_eq!(all[0].ino, fs.metadata(a).unwrap().inode);
    assert_eq!(all[1].node_type, NodeType::Directory);
    let rest = fs.read_dir(root, all[0].offset, 1).unwrap();
    assert_eq!(rest.len(), 1);
    assert_eq!(rest[0].name, "b");
    assert_eq!(rest[0].offset, 2);
    assert!(fs.read_dir(root, 3, 10).unwrap().is_empty());
    assert!(fs.read_dir(root, 99, 10).unwrap().is_empty());
    assert_eq!(fs.read_dir(a, 0, 10).map(|_| ()), Err(VfsError::NotADirectory));
    assert_eq!(
        fs.read_dir(Location { index: 42 }, 0, 10).map(|_| ()),
        Err(VfsError::NotFound)
    );
}

#[test]
fn content_reads_and_writes() {
    let mut fs = Filesystem::new(FsKind::Ext4);
    let root = fs.root_dir();
    let f = file(&mut fs, root, "f");
    let node = fs.node_id(f).unwrap();
    assert_eq!(fs.write_at(node, 0, b"hello world"), Ok(11));
    assert_eq!(fs.read_at(node, 6, 100).unwrap(), b"world".to_vec());
    assert_eq!(fs.read_at(node, 0, 5).unwrap(), b"hello".to_vec());
    assert_eq!(fs.read_at(node, 11, 5).unwrap(), Vec::<u8>::new());
    assert_eq!(fs.read_at(node, 50, 5).unwrap(), Vec::<u8>::new());
    // Overwriting in the middle keeps what lies behind.
    assert_eq!(fs.write_at(node, 6, b"W"), Ok(1));
    assert_eq!(fs.read_at(node, 0, 100).unwrap(), b"hello World".to_vec());
    // A write behind the end fills the gap with zeros.
    assert_eq!(fs.write_at(node, 13, b"!"), Ok(1));
    assert_eq!(fs.read_at(node, 0, 100).unwrap(), b"hello World\0\0!".to_vec());
    let meta = fs.node_metadata(node).unwrap();
    assert_eq!(meta.size, 14);
    assert_eq!(meta.blocks, 1);
    assert_eq!(fs.set_len(node, 5), Ok(()));
    assert_eq!(fs.read_at(node, 0, 100).unwrap(), b"hello".to_vec());
    assert_eq!(fs.set_len(node, 7), Ok(()));
    assert_eq!(fs.read_at(node, 0, 100).unwrap(), b"hello\0\0".to_vec());
    let d = dir(&mut fs, root, "d");
    let dir_node = fs.node_id(d).unwrap();
    assert_eq!(fs.write_at(dir_node, 0, b"x"), Err(VfsError::IsADirectory));
    assert_eq!(fs.read_at(dir_node, 0, 1), Err(VfsError::IsADirectory));
}

#[test]
fn block_counts_of_each_kind() {
    let mut ext4 = Filesystem::new(FsKind::Ext4);
    let root = ext4.root_dir();
    let f = file(&mut ext4, root, "f");
    let node = ext4.node_id(f).unwrap();
    ext4.write_at(node, 0, &vec![7u8; 513]).unwrap();
    assert_eq!(ext4.node_metadata(node).unwrap().blocks, 2);
    ext4.set_len(node, 512).unwrap();
    assert_eq!(ext4.node_metadata(node).unwrap().blocks, 1);

    let mut fat = Filesystem::new(FsKind::Fat);
    let root = fat.root_dir();
    let f = file(&mut fat, root, "f");
    let node = fat.node_id(f).unwrap();
    fat.write_at(node, 0, &vec![7u8; 1023]).unwrap();
    // FAT counts whole blocks only.
    assert_eq!(fat.node_metadata(node).unwrap().blocks, 1);
    assert_eq!(fat.node_metadata(node).unwrap().size, 1023);
}

#[test]
fn fat_files_have_a_largest_size() {
    let mut fat = Filesystem::new(FsKind::Fat);
    let root = fat.root_dir();
    let f = file(&mut fat, root, "f");
    let node = fat.node_id(f).unwrap();
    assert_eq!(
        fat.write_at(node, u32::MAX as u64, b"x"),
        Err(VfsError::StorageFull)
    );
    assert_eq!(fat.set_len(node, u32::MAX as u64 + 1), Err(VfsError::StorageFull));
    assert_eq!(fat.node_metadata(node).unwrap().size, 0);
}
