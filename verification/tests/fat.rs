use axvfs::error::VfsError;
use axvfs::fat::dir::{root_metadata, FatChild, FatCreate, FatDirNode, FatEntry};
use axvfs::fat::fs::{FatFilesystem, FatFilesystemInner};
use axvfs::fat::util::{
    dos_to_unix, file_metadata, into_vfs_err, sort_error, timestamp_or_epoch,
    CaseInsensitiveString, DosDate, DosDateTime, DosTime, FatError, FatFileInfo, IoKind,
};
use axvfs::types::{Duration, NodePermission, NodeType};
use std::cmp::Ordering;

fn at(year: u16, month: u16, day: u16, hour: u16, min: u16, sec: u16, millis: u16) -> DosDateTime {
    DosDateTime {
        date: DosDate { year, month, day },
        time: DosTime { hour, min, sec, millis },
    }
}

#[test]
fn dos_times_as_unix_timestamps() {
    assert_eq!(dos_to_unix(at(1980, 1, 1, 0, 0, 0, 0)), Duration::new(315_532_800, 0));
    assert_eq!(
        dos_to_unix(at(2024, 2, 29, 12, 34, 56, 789)),
        Duration::new(1_709_210_096, 789_000_000)
    );
    assert_eq!(dos_to_unix(at(1970, 1, 1, 0, 0, 0, 0)), Duration::new(0, 0));
    assert_eq!(dos_to_unix(at(1970, 1, 1, 0, 0, 1, 1)), Duration::new(1, 1_000_000));
    assert_eq!(
        dos_to_unix(at(2107, 12, 31, 23, 59, 58, 0)),
        Duration::new(4_354_819_198, 0)
    );
}

#[test]
fn dates_that_do_not_exist_give_the_epoch() {
    let epoch = Duration::new(0, 0);
    assert_eq!(dos_to_unix(at(2024, 0, 1, 0, 0, 0, 0)), epoch);
    assert_eq!(dos_to_unix(at(2024, 13, 1, 0, 0, 0, 0)), epoch);
    assert_eq!(dos_to_unix(at(2024, 1, 0, 0, 0, 0, 0)), epoch);
    assert_eq!(dos_to_unix(at(2023, 2, 29, 0, 0, 0, 0)), epoch);
    assert_eq!(dos_to_unix(at(2024, 1, 1, 24, 0, 0, 0)), epoch);
    assert_eq!(dos_to_unix(at(2024, 1, 1, 0, 60, 0, 0)), epoch);
    assert_eq!(dos_to_unix(at(2024, 1, 1, 0, 0, 60, 0)), epoch);
    // Before the epoch there is no timestamp either.
    assert_eq!(dos_to_unix(at(1969, 12, 31, 23, 59, 59, 0)), epoch);
}

#[test]
fn timestamp_of_a_time_since_the_epoch() {
    assert_eq!(timestamp_or_epoch(Some((12, 34))), Duration::new(12, 34));
    assert_eq!(timestamp_or_epoch(None), Duration::new(0, 0));
}

#[test]
fn metadata_of_a_fat_file() {
    let info = FatFileInfo {
        size: Some(1234),
        accessed: DosDate { year: 2024, month: 2, day: 29 },
        modified: at(2024, 2, 29, 12, 34, 56, 789),
        created: at(1980, 1, 1, 0, 0, 0, 0),
    };
    let meta = file_metadata(&info, NodeType::RegularFile);
    assert_eq!(meta.inode, 1);
    assert_eq!(meta.device, 0);
    assert_eq!(meta.nlink, 1);
    assert_eq!(meta.mode.bits(), 0o666);
    assert_eq!(meta.node_type, NodeType::RegularFile);
    assert_eq!((meta.uid, meta.gid), (0, 0));
    assert_eq!(meta.size, 1234);
    assert_eq!(meta.block_size, 512);
    assert_eq!(meta.blocks, 2);
    // The day of the last access, at midnight.
    assert_eq!(meta.atime, Duration::new(1_709_164_800, 0));
    assert_eq!(meta.mtime, Duration::new(1_709_210_096, 789_000_000));
    assert_eq!(meta.ctime, Duration::new(315_532_800, 0));
}

#[test]
fn metadata_of_a_fat_directory() {
    let info = FatFileInfo {
        size: None,
        accessed: DosDate { year: 1980, month: 1, day: 1 },
        modified: at(1980, 1, 1, 0, 0, 0, 0),
        created: at(1980, 1, 1, 0, 0, 0, 0),
    };
    let meta = file_metadata(&info, NodeType::Directory);
    assert_eq!(meta.node_type, NodeType::Directory);
    assert_eq!(meta.size, 0);
    assert_eq!(meta.blocks, 0);
    let node = FatDirNode::new(Some(info), 9);
    assert_eq!(node.metadata(512), Ok(meta));
    assert_eq!(node.inode(), 9);
    assert_eq!(node.sync(true), Ok(()));
}

#[test]
fn metadata_of_the_fat_root() {
    let root = FatDirNode::new(None, 1);
    let meta = root.metadata(4096).unwrap();
    assert_eq!(meta, root_metadata(4096, 1));
    assert_eq!(meta.inode, 1);
    assert_eq!(meta.size, 4096);
    assert_eq!(meta.block_size, 4096);
    assert_eq!(meta.blocks, 1);
    assert_eq!(meta.nlink, 1);
    assert_eq!(meta.mode.bits(), 0o666);
    assert_eq!(meta.node_type, NodeType::Directory);
    assert_eq!(meta.atime, Duration::new(0, 0));
    assert_eq!(meta.mtime, Duration::new(0, 0));
    assert_eq!(meta.ctime, Duration::new(0, 0));
}

#[test]
fn errors_of_the_fat_codec() {
    assert_eq!(into_vfs_err(FatError::AlreadyExists), VfsError::AlreadyExists);
    assert_eq!(into_vfs_err(FatError::CorruptedFileSystem), VfsError::InvalidData);
    assert_eq!(into_vfs_err(FatError::DirectoryIsNotEmpty), VfsError::DirectoryNotEmpty);
    assert_eq!(into_vfs_err(FatError::InvalidFileNameLength), VfsError::InvalidData);
    assert_eq!(into_vfs_err(FatError::InvalidInput), VfsError::InvalidData);
    assert_eq!(into_vfs_err(FatError::UnsupportedFileNameCharacter), VfsError::InvalidData);
    assert_eq!(into_vfs_err(FatError::NotEnoughSpace), VfsError::StorageFull);
    assert_eq!(into_vfs_err(FatError::NotFound), VfsError::NotFound);
    assert_eq!(into_vfs_err(FatError::UnexpectedEof), VfsError::Io);
    assert_eq!(into_vfs_err(FatError::WriteZero), VfsError::Io);
    assert_eq!(into_vfs_err(FatError::Io), VfsError::Io);
}

fn ci(text: &str) -> CaseInsensitiveString {
    CaseInsensitiveString(text.to_string())
}

#[test]
fn strings_equal_but_for_ascii_case() {
    assert!(ci("Hello.TXT") == ci("hELLO.txt"));
    assert!(ci("") == ci(""));
    assert!(ci("a") != ci("b"));
    assert!(ci("ab") != ci("abc"));
    assert!(ci("abc") != ci("ab"));
    assert!(ci("@") != ci("`"));
    assert!(ci("[") != ci("{"));
    // Only the letters of ASCII fold.
    assert!(ci("Ä") != ci("ä"));
    assert!(ci("ÄB") == ci("Äb"));
}

#[test]
fn strings_ordered_but_for_ascii_case() {
    assert_eq!(ci("apple").cmp(&ci("Banana")), Ordering::Less);
    assert_eq!(ci("Banana").cmp(&ci("apple")), Ordering::Greater);
    assert_eq!(ci("AB").cmp(&ci("ab")), Ordering::Equal);
    assert_eq!(ci("abc").cmp(&ci("ab")), Ordering::Greater);
    assert_eq!(ci("ab").cmp(&ci("ABC")), Ordering::Less);
    assert_eq!(ci("").cmp(&ci("")), Ordering::Equal);
    assert_eq!(ci("").cmp(&ci("a")), Ordering::Less);
    // `Z` folds to `z`, which comes behind `_`; unfolded it came before.
    assert_eq!(ci("Z").cmp(&ci("_")), Ordering::Greater);
    assert_eq!(ci("apple").partial_cmp(&ci("Banana")), Some(Ordering::Less));
    assert!(ci("apple") < ci("Banana"));
    assert!(ci("b") > ci("A"));
    assert!(ci("A") <= ci("a"));
    assert_eq!(ci("Kept").clone().0, "Kept");
}

fn entry(name: &str, is_file: bool) -> FatEntry {
    FatEntry { file_name: name.to_string(), is_file }
}

#[test]
fn adapter_looks_names_up_without_regard_to_case() {
    let node = FatDirNode::new(None, 1);
    let entries = vec![entry("README.TXT", true), entry("Src", false), entry("readme.txt", true)];
    assert_eq!(node.lookup(&entries, "readme.TXT"), Ok((0, "readme.txt".to_string())));
    assert_eq!(node.lookup(&entries, "SRC"), Ok((1, "src".to_string())));
    assert_eq!(node.lookup(&entries, "none"), Err(VfsError::NotFound));
    assert_eq!(node.lookup(&Vec::new(), "x"), Err(VfsError::NotFound));
    assert_eq!(FatDirNode::entry_name("MiXed.Ext"), "mixed.ext");
}

#[test]
fn adapter_decides_what_to_ask_for() {
    let node = FatDirNode::new(None, 1);
    let mode = NodePermission::from_bits_truncate(0o600);
    let entries = vec![entry("README.TXT", true), entry("Src", false)];
    assert_eq!(
        node.create(&entries, "New.TXT", NodeType::RegularFile, mode),
        Ok((FatCreate::File, "new.txt".to_string()))
    );
    assert_eq!(
        node.create(&entries, "Dir", NodeType::Directory, mode),
        Ok((FatCreate::Dir, "dir".to_string()))
    );
    assert_eq!(
        node.create(&Vec::new(), "x", NodeType::Directory, mode),
        Ok((FatCreate::Dir, "x".to_string()))
    );
    // What exists is not made again, in whatever letters it is asked for.
    assert_eq!(
        node.create(&entries, "readme.txt", NodeType::RegularFile, mode),
        Err(VfsError::AlreadyExists)
    );
    assert_eq!(
        node.create(&entries, "SRC", NodeType::RegularFile, mode),
        Err(VfsError::AlreadyExists)
    );
    for node_type in [
        NodeType::Symlink,
        NodeType::Fifo,
        NodeType::Socket,
        NodeType::BlockDevice,
        NodeType::CharacterDevice,
        NodeType::Unknown,
    ] {
        assert_eq!(node.create(&entries, "x", node_type, mode), Err(VfsError::InvalidInput));
        assert_eq!(FatDirNode::create_request(node_type), Err(VfsError::InvalidInput));
    }
    assert_eq!(FatDirNode::create_request(NodeType::RegularFile), Ok(FatCreate::File));
    assert_eq!(FatDirNode::create_request(NodeType::Directory), Ok(FatCreate::Dir));
    assert_eq!(node.link("x"), Err(VfsError::PermissionDenied));
}

#[test]
fn errors_of_the_codec_are_sorted_by_kind_and_message() {
    assert_eq!(sort_error(IoKind::NotFound, "No such file or directory"), FatError::NotFound);
    assert_eq!(sort_error(IoKind::AlreadyExists, "anything"), FatError::AlreadyExists);
    assert_eq!(sort_error(IoKind::InvalidInput, ""), FatError::InvalidInput);
    assert_eq!(sort_error(IoKind::UnexpectedEof, ""), FatError::UnexpectedEof);
    assert_eq!(sort_error(IoKind::WriteZero, ""), FatError::WriteZero);
    assert_eq!(sort_error(IoKind::Other, "Directory not empty"), FatError::DirectoryIsNotEmpty);
    assert_eq!(sort_error(IoKind::Other, "No space left on device"), FatError::NotEnoughSpace);
    assert_eq!(sort_error(IoKind::Other, "File name is empty"), FatError::InvalidFileNameLength);
    assert_eq!(sort_error(IoKind::Other, "File name too long"), FatError::InvalidFileNameLength);
    assert_eq!(
        sort_error(IoKind::Other, "File name contains unsupported characters"),
        FatError::UnsupportedFileNameCharacter
    );
    assert_eq!(sort_error(IoKind::Other, "directory not empty"), FatError::Io);
    assert_eq!(sort_error(IoKind::Other, ""), FatError::Io);
    // The message counts for errors without a kind of their own only.
    assert_eq!(sort_error(IoKind::NotFound, "Directory not empty"), FatError::NotFound);
    assert_eq!(sort_error(IoKind::Unlisted, "Directory not empty"), FatError::Io);
}

#[test]
fn seconds_among_the_nanoseconds_are_carried() {
    assert_eq!(Duration::new(1, 1_500_000_000), Duration { secs: 2, nanos: 500_000_000 });
    assert_eq!(Duration::new(0, u32::MAX), Duration { secs: 4, nanos: 294_967_295 });
    assert_eq!(Duration::new(7, 999_999_999), Duration { secs: 7, nanos: 999_999_999 });
    assert!(dos_to_unix(at(2024, 2, 29, 12, 34, 56, 999)).subsec_nanos() < 1_000_000_000);
}

#[test]
fn adapter_passes_the_answers_of_the_codec_on() {
    let node = FatDirNode::new(None, 1);
    assert_eq!(node.finish(Ok(())), Ok(()));
    assert_eq!(node.finish(Err(FatError::AlreadyExists)), Err(VfsError::AlreadyExists));
    assert_eq!(node.unlink(Ok(())), Ok(()));
    assert_eq!(node.unlink(Err(FatError::NotFound)), Err(VfsError::NotFound));
    assert_eq!(
        node.unlink(Err(FatError::DirectoryIsNotEmpty)),
        Err(VfsError::DirectoryNotEmpty)
    );
    // Before a rename, what is in the way is removed; nothing in the way is fine.
    assert_eq!(node.rename(Ok(())), Ok(()));
    assert_eq!(node.rename(Err(FatError::NotFound)), Ok(()));
    assert_eq!(
        node.rename(Err(FatError::DirectoryIsNotEmpty)),
        Err(VfsError::DirectoryNotEmpty)
    );
    assert_eq!(node.rename(Err(FatError::Io)), Err(VfsError::Io));
}

#[test]
fn adapter_lists_in_lower_case() {
    let node = FatDirNode::new(None, 1);
    let entries = vec![entry("A.TXT", true), entry("Sub", false), entry("c", true)];
    let all = node.read_dir(&entries, 0, 128).unwrap();
    assert_eq!(all.len(), 3);
    assert_eq!(all[0].name, "a.txt");
    assert_eq!(all[0].offset, 1);
    assert_eq!(all[0].node_type, NodeType::RegularFile);
    assert_eq!(all[1].name, "sub");
    assert_eq!(all[1].node_type, NodeType::Directory);
    assert_eq!(all[2].offset, 3);
    let some = node.read_dir(&entries, 1, 1).unwrap();
    assert_eq!(some.len(), 1);
    assert_eq!(some[0].name, "sub");
    assert_eq!(some[0].offset, 2);
    assert!(node.read_dir(&entries, 3, 5).unwrap().is_empty());
    assert!(node.read_dir(&entries, 30, 5).unwrap().is_empty());
}

#[test]
fn inode_numbers_are_handed_out_once() {
    let mut inner = FatFilesystemInner::new();
    assert!(!inner.is_allocated(1));
    let a = inner.alloc_inode();
    let b = inner.alloc_inode();
    let c = inner.alloc_inode();
    assert!(a >= 1 && b >= 1 && c >= 1);
    assert!(a != b && b != c && a != c);
    assert!(inner.is_allocated(a) && inner.is_allocated(b) && inner.is_allocated(c));
    assert!(!inner.is_allocated(0));
    inner.release_inode(b);
    assert!(!inner.is_allocated(b));
    assert!(inner.is_allocated(a) && inner.is_allocated(c));
    // Releasing what is not in use changes nothing.
    inner.release_inode(b);
    inner.release_inode(0);
    inner.release_inode(u64::MAX);
    assert!(inner.is_allocated(a) && inner.is_allocated(c));
    let d = inner.alloc_inode();
    assert!(d != a && d != c);
}

#[test]
fn the_first_inode_number_is_one_and_a_released_one_comes_next() {
    let mut inner = FatFilesystemInner::new();
    assert_eq!(inner.alloc_inode(), 1);
    let b = inner.alloc_inode();
    let c = inner.alloc_inode();
    inner.release_inode(b);
    assert_eq!(inner.alloc_inode(), b);
    inner.release_inode(1);
    // Releasing what is not in use does not change what comes next.
    inner.release_inode(c + 40);
    assert_eq!(inner.alloc_inode(), 1);
    assert!(inner.is_allocated(c));
}

#[test]
fn a_mounted_fat_file_system_has_its_root() {
    let mut fs = FatFilesystem::new();
    let root = fs.root_dir();
    assert_eq!(root.info, None);
    assert_eq!(root.inode(), 1);
    assert_eq!(root.inode(), axvfs::fat::fs::FAT_ROOT_INODE);
    assert!(fs.lock().is_allocated(root.inode()));
    assert!(!fs.lock().is_allocated(root.inode() + 1));
    let next = fs.lock().alloc_inode();
    assert_ne!(next, root.inode());
    assert_eq!(fs.root_dir(), root);
}

#[test]
fn adapter_makes_files_and_directories_of_entries() {
    let node = FatDirNode::new(None, 1);
    let info = FatFileInfo {
        size: Some(700),
        accessed: DosDate { year: 1980, month: 1, day: 1 },
        modified: at(1980, 1, 1, 0, 0, 0, 0),
        created: at(1980, 1, 1, 0, 0, 0, 0),
    };
    match node.create_entry(&entry("A.TXT", true), info, "a.txt".to_string(), 5) {
        FatChild::File { name, metadata } => {
            assert_eq!(name, "a.txt");
            assert_eq!(metadata, file_metadata(&info, NodeType::RegularFile));
            assert_eq!(metadata.blocks, 1);
        }
        FatChild::Dir { .. } => panic!("a file is no directory"),
    }
    match node.create_entry(&entry("Sub", false), info, "sub".to_string(), 5) {
        FatChild::Dir { name, node } => {
            assert_eq!(name, "sub");
            assert_eq!(node, FatDirNode::new(Some(info), 5));
            assert_eq!(node.metadata(512).unwrap().node_type, NodeType::Directory);
        }
        FatChild::File { .. } => panic!("a directory is no file"),
    }
}
