use axvfs::context::FsContext;
use axvfs::error::VfsError;
use axvfs::file::{OpenOptions, OpenResult};
use axvfs::posix::{
    add_to_fd, duration_to_timespec, flags_to_options, metadata_to_stat, seek_from,
    sys_fstat, sys_getcwd, sys_lseek, sys_lstat, sys_open, sys_openat, sys_rename, sys_stat,
    with_fs, Directory, FdTable, File, FileLike, PollState, Stat, Timespec, AT_FDCWD,
    AX_FILE_LIMIT, O_APPEND, O_CREAT, O_DIRECTORY, O_EXCL, O_EXEC, O_RDONLY, O_RDWR, O_TRUNC,
    O_WRONLY,
};
use axvfs::file::SeekFrom;
use axvfs::types::{Duration, Metadata, NodePermission, NodeType};
use axvfs::vfs::{Filesystem, FsKind};

fn setup() -> (Filesystem, FsContext, FdTable) {
    let mut fs = Filesystem::new(FsKind::Ext4);
    let context = FsContext::new(fs.root_dir());
    context
        .create_dir(&mut fs, "/a", NodePermission::from_bits_truncate(0o755))
        .unwrap();
    context.write(&mut fs, "/a/g", b"hello").unwrap();
    (fs, context, FdTable::new())
}

fn options(read: bool, write: bool) -> OpenOptions {
    let mut options = OpenOptions::new();
    options.read(read).write(write);
    options
}

#[test]
fn access_mode_of_open_flags() {
    assert_eq!(flags_to_options(O_RDONLY as i32, 0), options(true, false));
    assert_eq!(flags_to_options(O_WRONLY as i32, 0), options(false, true));
    assert_eq!(flags_to_options(O_RDWR as i32, 0), options(true, true));
    assert_eq!(flags_to_options(3, 0), options(true, true));
}

#[test]
fn open_flags_do_not_look_at_the_mode() {
    let expected = options(true, true);
    assert_eq!(expected.mode.bits(), 0o666);
    assert_eq!(flags_to_options(O_RDWR as i32, 0o640), expected);
    assert_eq!(flags_to_options(O_RDWR as i32, 0o777), expected);
    assert_eq!(flags_to_options(O_RDWR as i32, 0o100640), expected);
    assert_eq!(flags_to_options(0, u32::MAX).mode.bits(), 0o666);
    assert_eq!(flags_to_options((O_CREAT | O_RDWR) as i32, 0).mode.bits(), 0o666);
}

#[test]
fn open_makes_files_with_the_default_mode() {
    let (mut fs, context, mut fds) = setup();
    let flags = (O_CREAT | O_RDWR) as i32;
    assert_eq!(sys_open(&mut fs, &context, &mut fds, "/a/new", flags, 0o600), 0);
    assert_eq!(context.metadata(&fs, "/a/new").unwrap().mode.bits(), 0o666);
    let mut buf = Stat::default();
    assert_eq!(sys_stat(&mut fs, &context, "/a/new", Some(&mut buf)), 0);
    assert_eq!(buf.st_mode, 0o100666);
    // What exists keeps its mode.
    assert_eq!(sys_open(&mut fs, &context, &mut fds, "/a", O_DIRECTORY as i32, 0o600), 1);
    assert_eq!(context.metadata(&fs, "/a").unwrap().mode.bits(), 0o755);
    assert_eq!(sys_openat(&mut fs, &context, &mut fds, 1, "other", flags, 0o4755), 2);
    assert_eq!(context.metadata(&fs, "/a/other").unwrap().mode.bits(), 0o666);
}

#[test]
fn each_open_flag_sets_its_option() {
    let mut expected = options(true, false);
    expected.append(true);
    assert_eq!(flags_to_options(O_APPEND as i32, 0), expected);
    let mut expected = options(true, false);
    expected.truncate(true);
    assert_eq!(flags_to_options(O_TRUNC as i32, 0), expected);
    let mut expected = options(true, false);
    expected.create(true);
    assert_eq!(flags_to_options(O_CREAT as i32, 0), expected);
    let mut expected = options(true, false);
    expected.create_new(true);
    assert_eq!(flags_to_options(O_EXCL as i32, 0), expected);
    let mut expected = options(true, false);
    expected.directory(true);
    assert_eq!(flags_to_options(O_DIRECTORY as i32, 0), expected);
    let mut expected = options(true, false);
    expected.execute(true);
    assert_eq!(flags_to_options(O_EXEC as i32, 0), expected);
    let all = flags_to_options(-1, 0);
    assert!(all.read && all.write && all.append && all.truncate);
    assert!(all.create && all.create_new && all.directory && all.execute);
    assert_eq!(flags_to_options(0o302, 0).create_new, true);
    assert_eq!(O_CREAT | O_EXCL | O_RDWR, 0o302);
}

fn metadata(node_type: NodeType, mode: u16) -> Metadata {
    Metadata {
        device: 7,
        inode: 42,
        nlink: 3,
        mode: NodePermission { bits: mode },
        node_type,
        uid: 1000,
        gid: 100,
        size: 4097,
        block_size: 4096,
        blocks: 9,
        atime: Duration::new(1, 2),
        mtime: Duration::new(3, 4),
        ctime: Duration::new(5, 6),
    }
}

#[test]
fn stat_record_of_metadata() {
    let stat = metadata_to_stat(&metadata(NodeType::Directory, 0o755));
    assert_eq!(
        stat,
        Stat {
            st_dev: 7,
            st_ino: 42,
            st_mode: 0o40755,
            st_nlink: 3,
            st_uid: 1000,
            st_gid: 100,
            st_rdev: 0,
            st_size: 4097,
            st_blksize: 4096,
            st_blocks: 9,
            st_atime: Timespec { tv_sec: 1, tv_nsec: 2 },
            st_mtime: Timespec { tv_sec: 3, tv_nsec: 4 },
            st_ctime: Timespec { tv_sec: 5, tv_nsec: 6 },
        }
    );
}

#[test]
fn st_mode_of_each_node_type() {
    let mode_of = |node_type| metadata_to_stat(&metadata(node_type, 0o644)).st_mode;
    assert_eq!(mode_of(NodeType::RegularFile), 0o100644);
    assert_eq!(mode_of(NodeType::Directory), 0o040644);
    assert_eq!(mode_of(NodeType::Symlink), 0o120644);
    assert_eq!(mode_of(NodeType::CharacterDevice), 0o020644);
    assert_eq!(mode_of(NodeType::BlockDevice), 0o060644);
    assert_eq!(mode_of(NodeType::Fifo), 0o010644);
    assert_eq!(mode_of(NodeType::Socket), 0o140644);
    assert_eq!(mode_of(NodeType::Unknown), 0o000644);
    // Only the twelve mode bits get into the record.
    assert_eq!(
        metadata_to_stat(&metadata(NodeType::RegularFile, 0xffff)).st_mode,
        0o107777
    );
}

#[test]
fn wide_values_wrap_in_the_stat_record() {
    let mut wide = metadata(NodeType::RegularFile, 0o644);
    wide.nlink = (1u64 << 32) + 5;
    wide.size = u64::MAX;
    wide.blocks = 1u64 << 63;
    let stat = metadata_to_stat(&wide);
    assert_eq!(stat.st_nlink, 5);
    assert_eq!(stat.st_size, -1);
    assert_eq!(stat.st_blocks, i64::MIN);
}

#[test]
fn timestamp_in_posix_form() {
    assert_eq!(
        duration_to_timespec(Duration::new(1_700_000_000, 999_999_999)),
        Timespec { tv_sec: 1_700_000_000, tv_nsec: 999_999_999 }
    );
    assert_eq!(
        duration_to_timespec(Duration::default()),
        Timespec { tv_sec: 0, tv_nsec: 0 }
    );
    assert_eq!(duration_to_timespec(Duration::new(u64::MAX, 0)).tv_sec, -1);
}

#[test]
fn descriptors_are_the_lowest_free() {
    let (mut fs, context, mut fds) = setup();
    let a = sys_open(&mut fs, &context, &mut fds, "/a/g", O_RDONLY as i32, 0);
    let b = sys_open(&mut fs, &context, &mut fds, "/a/g", O_RDONLY as i32, 0);
    let c = sys_open(&mut fs, &context, &mut fds, "/a", O_RDONLY as i32, 0);
    assert_eq!((a, b, c), (0, 1, 2));
    assert_eq!(fds.close_file_like(1), Ok(()));
    assert_eq!(fds.close_file_like(1), Err(VfsError::BadFileDescriptor));
    assert_eq!(sys_open(&mut fs, &context, &mut fds, "/a/g", O_RDONLY as i32, 0), 1);
    assert_eq!(sys_open(&mut fs, &context, &mut fds, "/a/g", O_RDONLY as i32, 0), 3);
    assert!(matches!(fds.get_file_like(2), Ok(FileLike::Directory(_))));
    assert!(matches!(fds.get_file_like(0), Ok(FileLike::File(_))));
}

#[test]
fn descriptors_that_are_not_open() {
    let (_, _, fds) = setup();
    assert_eq!(fds.get_file_like(0), Err(VfsError::BadFileDescriptor));
    assert_eq!(fds.get_file_like(-1), Err(VfsError::BadFileDescriptor));
    assert_eq!(fds.get_file_like(AT_FDCWD), Err(VfsError::BadFileDescriptor));
    assert_eq!(File::from_fd(&fds, 5).map(|_| ()), Err(VfsError::BadFileDescriptor));
    assert_eq!(Directory::from_fd(&fds, 5).map(|_| ()), Err(VfsError::BadFileDescriptor));
    assert_eq!(AT_FDCWD, -100);
}

#[test]
fn the_table_has_a_limit() {
    let (mut fs, context, mut fds) = setup();
    for expected in 0..AX_FILE_LIMIT {
        let fd = sys_open(&mut fs, &context, &mut fds, "/a/g", O_RDONLY as i32, 0);
        assert_eq!(fd, expected as i32);
    }
    assert_eq!(
        sys_open(&mut fs, &context, &mut fds, "/a/g", O_RDONLY as i32, 0),
        -24
    );
    let dir = context.resolve(&fs, "/a").unwrap();
    assert_eq!(
        add_to_fd(&mut fds, OpenResult::Dir(dir)),
        Err(VfsError::TooManyOpenFiles)
    );
    assert_eq!(fds.close_file_like(500), Ok(()));
    assert_eq!(add_to_fd(&mut fds, OpenResult::Dir(dir)), Ok(500));
}

#[test]
fn open_returns_negated_error_numbers() {
    let (mut fs, context, mut fds) = setup();
    let open = |fs: &mut Filesystem, fds: &mut FdTable, path: &str, flags: u32| {
        sys_open(fs, &context, fds, path, flags as i32, 0)
    };
    assert_eq!(open(&mut fs, &mut fds, "/none", O_RDONLY), -2);
    assert_eq!(open(&mut fs, &mut fds, "/a/g", O_CREAT | O_EXCL | O_RDWR), -17);
    assert_eq!(open(&mut fs, &mut fds, "/a", O_CREAT | O_EXCL), -17);
    assert_eq!(open(&mut fs, &mut fds, "/a/g/x", O_RDONLY), -20);
    assert_eq!(open(&mut fs, &mut fds, "/a/g", O_DIRECTORY), -20);
    assert_eq!(open(&mut fs, &mut fds, "/a", O_TRUNC | O_WRONLY), -21);
    assert_eq!(open(&mut fs, &mut fds, &format!("/a/{}", "n".repeat(256)), O_CREAT), -36);
    assert_eq!(open(&mut fs, &mut fds, "/a/new", O_CREAT | O_EXCL | O_RDWR), 0);
    assert_eq!(context.read(&fs, "/a/g").unwrap(), b"hello".to_vec());
}

#[test]
fn openat_resolves_from_the_descriptor() {
    let (mut fs, context, mut fds) = setup();
    let dirfd = sys_open(&mut fs, &context, &mut fds, "/a", O_DIRECTORY as i32, 0);
    let filefd = sys_openat(&mut fs, &context, &mut fds, dirfd, "g", O_RDONLY as i32, 0);
    assert_eq!((dirfd, filefd), (0, 1));
    // A file is no directory to start from, and a closed descriptor is none.
    assert_eq!(sys_openat(&mut fs, &context, &mut fds, filefd, "g", 0, 0), -22);
    assert_eq!(sys_openat(&mut fs, &context, &mut fds, 9, "g", 0, 0), -9);
    assert_eq!(sys_openat(&mut fs, &context, &mut fds, AT_FDCWD, "g", 0, 0), -2);
    assert_eq!(sys_openat(&mut fs, &context, &mut fds, AT_FDCWD, "a/g", 0, 0), 2);
    assert_eq!(sys_openat(&mut fs, &context, &mut fds, dirfd, "/a/g", 0, 0), 3);
    let from = with_fs(&fs, &context, &fds, dirfd).unwrap();
    assert_eq!(from.current_dir(), context.resolve(&fs, "/a").unwrap());
    assert_eq!(from.root_dir(), context.root_dir());
    assert_eq!(with_fs(&fs, &context, &fds, AT_FDCWD), Ok(context));
    assert_eq!(with_fs(&fs, &context, &fds, filefd), Err(VfsError::InvalidInput));
    assert_eq!(with_fs(&fs, &context, &fds, 77), Err(VfsError::BadFileDescriptor));
}

#[test]
fn lseek_moves_the_cursor_of_the_descriptor() {
    let (mut fs, context, mut fds) = setup();
    let dirfd = sys_open(&mut fs, &context, &mut fds, "/a", O_DIRECTORY as i32, 0);
    let fd = sys_open(&mut fs, &context, &mut fds, "/a/g", O_RDWR as i32, 0);
    assert_eq!(sys_lseek(&fs, &mut fds, fd, 0, 2), 5);
    assert_eq!(sys_lseek(&fs, &mut fds, fd, -2, 1), 3);
    assert_eq!(sys_lseek(&fs, &mut fds, fd, 1, 0), 1);
    assert_eq!(sys_lseek(&fs, &mut fds, fd, 10, 2), 15);
    assert_eq!(File::from_fd(&fds, fd).unwrap().inner().position, 15);
    assert_eq!(sys_lseek(&fs, &mut fds, fd, 0, 3), -22);
    assert_eq!(sys_lseek(&fs, &mut fds, fd, 0, -1), -22);
    assert_eq!(sys_lseek(&fs, &mut fds, fd, -1, 0), -22);
    assert_eq!(sys_lseek(&fs, &mut fds, fd, -16, 1), -22);
    assert_eq!(sys_lseek(&fs, &mut fds, fd, i64::MAX, 1), -22);
    assert_eq!(File::from_fd(&fds, fd).unwrap().inner().position, 15);
    assert_eq!(sys_lseek(&fs, &mut fds, dirfd, 0, 0), -9);
    assert_eq!(sys_lseek(&fs, &mut fds, 40, 0, 0), -9);
    // The descriptor is looked at before the offset, and the base before both.
    assert_eq!(sys_lseek(&fs, &mut fds, dirfd, -1, 0), -9);
    assert_eq!(sys_lseek(&fs, &mut fds, dirfd, -1, 1), -9);
    assert_eq!(sys_lseek(&fs, &mut fds, dirfd, 0, 2), -9);
    assert_eq!(sys_lseek(&fs, &mut fds, 40, -1, 0), -9);
    assert_eq!(sys_lseek(&fs, &mut fds, dirfd, 0, 7), -22);
    assert_eq!(sys_lseek(&fs, &mut fds, 40, 0, 7), -22);
    assert_eq!(Directory::from_fd(&fds, dirfd).unwrap().offset, 0);
    assert_eq!(seek_from(4, 0), Some(SeekFrom::Start(4)));
    assert_eq!(seek_from(-4, 1), Some(SeekFrom::Current(-4)));
    assert_eq!(seek_from(-4, 2), Some(SeekFrom::End(-4)));
    assert_eq!(seek_from(-4, 0), None);
    assert_eq!(seek_from(0, 5), None);
}

#[test]
fn stat_fills_the_record() {
    let (mut fs, context, _) = setup();
    let mut buf = Stat::default();
    assert_eq!(sys_stat(&mut fs, &context, "/a/g", Some(&mut buf)), 0);
    assert_eq!(buf.st_size, 5);
    assert_eq!(buf.st_mode, 0o100666);
    assert_eq!(buf.st_nlink, 1);
    assert_eq!(buf.st_blksize, 4096);
    assert_eq!(buf.st_blocks, 1);
    assert_eq!(buf.st_ino, context.metadata(&fs, "/a/g").unwrap().inode);
    let filled = buf;
    assert_eq!(sys_stat(&mut fs, &context, "/a/none", Some(&mut buf)), -2);
    assert_eq!(sys_stat(&mut fs, &context, "/a/g/x", Some(&mut buf)), -20);
    assert_eq!(buf, filled);
    assert_eq!(sys_stat(&mut fs, &context, "/a/g", None), -14);
    // A directory has its record too.
    assert_eq!(sys_stat(&mut fs, &context, "/a", Some(&mut buf)), 0);
    assert_eq!(buf.st_mode, 0o40755);
    assert_eq!(buf.st_mode >> 12, 4);
    assert_eq!(buf.st_ino, context.metadata(&fs, "/a").unwrap().inode);
    assert_eq!(buf, metadata_to_stat(&context.metadata(&fs, "/a").unwrap()));
    assert_eq!(sys_stat(&mut fs, &context, "/", Some(&mut buf)), 0);
    assert_eq!(buf.st_ino, 2);
}

#[test]
fn fstat_fills_the_record() {
    let (mut fs, context, mut fds) = setup();
    let dirfd = sys_open(&mut fs, &context, &mut fds, "/a", O_DIRECTORY as i32, 0);
    let fd = sys_open(&mut fs, &context, &mut fds, "/a/g", O_RDONLY as i32, 0);
    let mut buf = Stat::default();
    assert_eq!(sys_fstat(&fs, &fds, fd, Some(&mut buf)), 0);
    assert_eq!(buf.st_size, 5);
    assert_eq!(buf.st_mode, 0o100666);
    let filled = buf;
    assert_eq!(sys_fstat(&fs, &fds, 33, Some(&mut buf)), -9);
    assert_eq!(sys_fstat(&fs, &fds, -1, Some(&mut buf)), -9);
    assert_eq!(buf, filled);
    assert_eq!(sys_fstat(&fs, &fds, fd, None), -14);
    // A directory behind a descriptor has its record too.
    assert_eq!(sys_fstat(&fs, &fds, dirfd, Some(&mut buf)), 0);
    assert_eq!(buf.st_mode, 0o40755);
    assert_eq!(buf, metadata_to_stat(&context.metadata(&fs, "/a").unwrap()));
}

#[test]
fn lstat_zero_fills() {
    let (mut fs, context, _) = setup();
    let mut buf = Stat::default();
    sys_stat(&mut fs, &context, "/a/g", Some(&mut buf));
    assert_ne!(buf, Stat::default());
    assert_eq!(sys_lstat("/a/g", Some(&mut buf)), 0);
    assert_eq!(buf, Stat::default());
    assert_eq!(buf.st_mode, 0);
    assert_eq!(sys_lstat("/no/such/thing", Some(&mut buf)), 0);
    assert_eq!(sys_lstat("/a/g", None), -14);
}

#[test]
fn getcwd_writes_the_path_and_a_nul() {
    let (fs, mut context, _) = setup();
    let mut buf = vec![0xaau8; 8];
    assert_eq!(sys_getcwd(&fs, &context, &mut buf), Ok(1));
    assert_eq!(buf, vec![b'/', 0, 0xaa, 0xaa, 0xaa, 0xaa, 0xaa, 0xaa]);
    context.set_current_dir(&fs, context.resolve(&fs, "/a").unwrap()).unwrap();
    assert_eq!(sys_getcwd(&fs, &context, &mut buf), Ok(2));
    assert_eq!(buf, vec![b'/', b'a', 0, 0xaa, 0xaa, 0xaa, 0xaa, 0xaa]);
}

#[test]
fn getcwd_leaves_a_buffer_that_is_too_small() {
    let (mut fs, mut context, _) = setup();
    let deep = context
        .create_dir(&mut fs, "/a/deeper", NodePermission::from_bits_truncate(0o755))
        .unwrap();
    context.set_current_dir(&fs, deep).unwrap();
    // "/a/deeper" has nine bytes, and the NUL makes ten.
    for size in [0usize, 1, 5, 9] {
        let mut buf = vec![0x55u8; size];
        assert_eq!(sys_getcwd(&fs, &context, &mut buf), Err(VfsError::OutOfRange));
        assert_eq!(buf, vec![0x55u8; size]);
    }
    assert_eq!(VfsError::OutOfRange.errno(), 34);
    let mut buf = vec![0x55u8; 10];
    assert_eq!(sys_getcwd(&fs, &context, &mut buf), Ok(9));
    assert_eq!(buf, b"/a/deeper\0".to_vec());
}

#[test]
fn rename_by_system_call() {
    let (mut fs, context, _) = setup();
    assert_eq!(sys_rename(&mut fs, &context, "/a/g", "/a/h"), 0);
    assert_eq!(context.read(&fs, "/a/h").unwrap(), b"hello".to_vec());
    assert_eq!(sys_rename(&mut fs, &context, "/a/g", "/a/i"), -2);
    assert_eq!(sys_rename(&mut fs, &context, "/", "/a/i"), -22);
    assert_eq!(sys_rename(&mut fs, &context, "/a/h", "/none/i"), -2);
}

#[test]
fn file_like_handles() {
    let (mut fs, context, mut fds) = setup();
    let dirfd = sys_open(&mut fs, &context, &mut fds, "/a", O_DIRECTORY as i32, 0);
    let fd = sys_open(&mut fs, &context, &mut fds, "/a/g", O_RDWR as i32, 0);
    let mut dir = fds.get_file_like(dirfd).unwrap();
    assert_eq!(dir.read(&fs, 10), Err(VfsError::BadFileDescriptor));
    assert_eq!(dir.write(&mut fs, b"x"), Err(VfsError::BadFileDescriptor));
    assert_eq!(dir.stat(&fs).unwrap().st_mode, 0o40755);
    assert_eq!(dir.poll(), Ok(PollState { readable: true, writable: false }));
    assert_eq!(dir.set_nonblocking(true), Ok(()));
    let mut file = fds.get_file_like(fd).unwrap();
    assert_eq!(file.read(&fs, 2).unwrap(), b"he".to_vec());
    assert_eq!(file.write(&mut fs, b"LL"), Ok(2));
    assert_eq!(file.poll(), Ok(PollState { readable: true, writable: true }));
    assert_eq!(file.set_nonblocking(false), Ok(()));
    assert_eq!(file.stat(&fs).unwrap().st_size, 5);
    assert_eq!(fds.replace_file_like(fd, file), Ok(()));
    assert_eq!(sys_lseek(&fs, &mut fds, fd, 0, 1), 4);
    assert_eq!(context.read(&fs, "/a/g").unwrap(), b"heLLo".to_vec());
    assert_eq!(fds.replace_file_like(44, file), Err(VfsError::BadFileDescriptor));
    let directory = Directory::from_fd(&fds, dirfd).unwrap();
    assert_eq!(*directory.inner(), context.resolve(&fs, "/a").unwrap());
    assert_eq!(directory.offset, 0);
    assert_eq!(Directory::from_fd(&fds, fd).map(|_| ()), Err(VfsError::InvalidInput));
    assert_eq!(File::from_fd(&fds, dirfd).map(|_| ()), Err(VfsError::BadFileDescriptor));
}

#[test]
fn rename_by_system_call_replaces_what_is_in_the_way() {
    let (mut fs, context, _) = setup();
    context
        .create_dir(&mut fs, "/a/empty", NodePermission::from_bits_truncate(0o755))
        .unwrap();
    context
        .create_dir(&mut fs, "/a/full", NodePermission::from_bits_truncate(0o755))
        .unwrap();
    context.write(&mut fs, "/a/full/x", b"x").unwrap();
    // What is missing is missing, wherever it was to go.
    assert_eq!(sys_rename(&mut fs, &context, "/a/nothing", "/a/full/y"), -2);
    assert_eq!(sys_rename(&mut fs, &context, "/nothing", "/a/full/x"), -2);
    // A directory with entries is not replaced, by a file or by a directory.
    assert_eq!(sys_rename(&mut fs, &context, "/a/g", "/a/full"), -39);
    assert_eq!(sys_rename(&mut fs, &context, "/a/empty", "/a/full"), -39);
    assert_eq!(context.read(&fs, "/a/full/x").unwrap(), b"x".to_vec());
    // An empty directory is replaced by a file.
    assert_eq!(sys_rename(&mut fs, &context, "/a/g", "/a/empty"), 0);
    assert_eq!(context.read(&fs, "/a/empty").unwrap(), b"hello".to_vec());
    assert_eq!(context.metadata(&fs, "/a/g"), Err(VfsError::NotFound));
    let mut buf = Stat::default();
    assert_eq!(sys_stat(&mut fs, &context, "/a/empty", Some(&mut buf)), 0);
    assert_eq!(buf.st_mode >> 12, 0o10);
    assert_eq!(buf.st_size, 5);
}
