use axvfs::context::{FsContext, ReadDir, BUF_SIZE};
use axvfs::error::VfsError;
use axvfs::types::{NodePermission, NodeType};
use axvfs::vfs::{Filesystem, FsKind};

fn mode() -> NodePermission {
    NodePermission::from_bits_truncate(0o644)
}

fn names(listing: &mut ReadDir, fs: &Filesystem) -> Vec<String> {
    let mut names = Vec::new();
    while let Some(entry) = listing.next(fs) {
        names.push(entry.unwrap().name);
    }
    names
}

#[test]
fn a_listing_shows_every_entry_once_and_in_order() {
    for count in [0usize, 1, 5, BUF_SIZE - 1, BUF_SIZE, BUF_SIZE + 1, 300] {
        let mut fs = Filesystem::new(FsKind::Ext4);
        let context = FsContext::new(fs.root_dir());
        let dir = context.create_dir(&mut fs, "/d", mode()).unwrap();
        let expected: Vec<String> = (0..count).map(|i| format!("entry{i}")).collect();
        for name in &expected {
            fs.create(dir, name, NodeType::RegularFile, mode()).unwrap();
        }
        let mut listing = context.read_dir(&fs, "/d").unwrap();
        assert_eq!(names(&mut listing, &fs), expected);
        // At its end the listing stays at its end.
        assert!(listing.next(&fs).is_none());
        assert!(listing.next(&fs).is_none());
    }
    assert_eq!(BUF_SIZE, 128);
}

#[test]
fn a_listing_tells_of_each_entry() {
    let mut fs = Filesystem::new(FsKind::Fat);
    let context = FsContext::new(fs.root_dir());
    let file = fs.create(fs.root_dir(), "File.TXT", NodeType::RegularFile, mode()).unwrap();
    fs.create(fs.root_dir(), "Dir", NodeType::Directory, mode()).unwrap();
    let mut listing = context.read_dir(&fs, "/").unwrap();
    let first = listing.next(&fs).unwrap().unwrap();
    assert_eq!(first.name, "file.txt");
    assert_eq!(first.node_type, NodeType::RegularFile);
    assert_eq!(first.ino, fs.metadata(file).unwrap().inode);
    assert_eq!(first.offset, 1);
    let second = listing.next(&fs).unwrap().unwrap();
    assert_eq!(second.name, "dir");
    assert_eq!(second.node_type, NodeType::Directory);
    assert_eq!(second.offset, 2);
    assert!(listing.next(&fs).is_none());
}

#[test]
fn a_listing_hands_out_the_error_of_the_directory() {
    let mut fs = Filesystem::new(FsKind::Ext4);
    let context = FsContext::new(fs.root_dir());
    context.write(&mut fs, "/f", b"x").unwrap();
    let mut listing = context.read_dir(&fs, "/f").unwrap();
    assert_eq!(listing.next(&fs).unwrap().map(|_| ()), Err(VfsError::NotADirectory));
    // The next call asks again.
    assert_eq!(listing.next(&fs).unwrap().map(|_| ()), Err(VfsError::NotADirectory));
    assert_eq!(context.read_dir(&fs, "/none").map(|_| ()), Err(VfsError::NotFound));

    context.create_dir(&mut fs, "/d", mode()).unwrap();
    let mut listing = context.read_dir(&fs, "/d").unwrap();
    context.remove_dir(&mut fs, "/d").unwrap();
    assert_eq!(listing.next(&fs).unwrap().map(|_| ()), Err(VfsError::NotFound));
}

#[test]
fn a_listing_goes_on_with_what_was_added_behind_the_buffer() {
    let mut fs = Filesystem::new(FsKind::Ext4);
    let context = FsContext::new(fs.root_dir());
    let dir = context.create_dir(&mut fs, "/d", mode()).unwrap();
    for i in 0..BUF_SIZE {
        fs.create(dir, &format!("a{i}"), NodeType::RegularFile, mode()).unwrap();
    }
    let mut listing = context.read_dir(&fs, "/d").unwrap();
    assert_eq!(listing.next(&fs).unwrap().unwrap().name, "a0");
    // What comes into the directory now lies behind the batch that was fetched.
    fs.create(dir, "late", NodeType::RegularFile, mode()).unwrap();
    let rest = names(&mut listing, &fs);
    assert_eq!(rest.len(), BUF_SIZE);
    assert_eq!(rest.last().unwrap(), "late");
}
