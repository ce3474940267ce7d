use axvfs::context::FsContext;
use axvfs::error::VfsError;
use axvfs::file::{File, FileFlags, OpenOptions, OpenResult, SeekFrom};
use axvfs::types::{NodePermission, NodeType};
use axvfs::vfs::{Filesystem, FsKind};

fn setup(kind: FsKind) -> (Filesystem, FsContext) {
    let mut fs = Filesystem::new(kind);
    let context = FsContext::new(fs.root_dir());
    context
        .create_dir(&mut fs, "/d", NodePermission::from_bits_truncate(0o755))
        .unwrap();
    (fs, context)
}

fn read_write() -> FileFlags {
    FileFlags { read: true, write: true, append: false }
}

fn open_file(options: &OpenOptions, context: &FsContext, fs: &mut Filesystem, path: &str) -> File {
    options.open(context, fs, path).unwrap().into_file().unwrap()
}

#[test]
fn write_seek_read_gives_the_bytes_back() {
    for kind in [FsKind::Fat, FsKind::Ext4] {
        let (mut fs, context) = setup(kind);
        let mut options = OpenOptions::new();
        options.read(true).write(true).create(true);
        let mut file = open_file(&options, &context, &mut fs, "/d/f");
        assert_eq!(file.write(&mut fs, b"some bytes"), Ok(10));
        assert_eq!(file.position, 10);
        assert_eq!(file.seek(&fs, SeekFrom::Start(0)), Ok(0));
        assert_eq!(file.read_to_end(&fs).unwrap(), b"some bytes".to_vec());
        assert_eq!(file.position, 10);
        assert_eq!(file.read(&fs, 4).unwrap(), Vec::<u8>::new());
    }
}

#[test]
fn a_write_in_the_middle_is_read_back_from_its_place() {
    let (mut fs, context) = setup(FsKind::Ext4);
    context.write(&mut fs, "/d/f", b"0123456789").unwrap();
    let mut options = OpenOptions::new();
    options.read(true).write(true);
    let mut file = open_file(&options, &context, &mut fs, "/d/f");
    assert_eq!(file.seek(&fs, SeekFrom::Start(3)), Ok(3));
    assert_eq!(file.write(&mut fs, b"abc"), Ok(3));
    assert_eq!(file.seek(&fs, SeekFrom::Start(0)), Ok(0));
    let all = file.read_to_end(&fs).unwrap();
    assert_eq!(all, b"012abc6789".to_vec());
    assert_eq!(&all[3..6], b"abc");
}

#[test]
fn reads_advance_the_cursor() {
    let (mut fs, context) = setup(FsKind::Ext4);
    context.write(&mut fs, "/d/f", b"abcdef").unwrap();
    let node = fs.node_id(context.resolve(&fs, "/d/f").unwrap()).unwrap();
    let mut file = File::new(node, read_write());
    assert_eq!(file.read(&fs, 2).unwrap(), b"ab".to_vec());
    assert_eq!(file.read(&fs, 3).unwrap(), b"cde".to_vec());
    assert_eq!(file.read(&fs, 3).unwrap(), b"f".to_vec());
    assert_eq!(file.read(&fs, 3).unwrap(), b"".to_vec());
    assert_eq!(file.position, 6);
}

#[test]
fn seek_from_each_base() {
    let (mut fs, context) = setup(FsKind::Ext4);
    context.write(&mut fs, "/d/f", b"abcdef").unwrap();
    let node = fs.node_id(context.resolve(&fs, "/d/f").unwrap()).unwrap();
    let mut file = File::new(node, read_write());
    assert_eq!(file.seek(&fs, SeekFrom::End(0)), Ok(6));
    assert_eq!(file.seek(&fs, SeekFrom::End(-2)), Ok(4));
    assert_eq!(file.seek(&fs, SeekFrom::Current(1)), Ok(5));
    assert_eq!(file.seek(&fs, SeekFrom::Current(-5)), Ok(0));
    assert_eq!(file.seek(&fs, SeekFrom::Current(-1)), Err(VfsError::InvalidInput));
    assert_eq!(file.position, 0);
    assert_eq!(file.seek(&fs, SeekFrom::End(-7)), Err(VfsError::InvalidInput));
    assert_eq!(file.seek(&fs, SeekFrom::End(i64::MIN)), Err(VfsError::InvalidInput));
    assert_eq!(file.seek(&fs, SeekFrom::Start(u64::MAX)), Ok(u64::MAX));
    assert_eq!(file.seek(&fs, SeekFrom::Current(1)), Err(VfsError::InvalidInput));
    assert_eq!(file.position, u64::MAX);
    // Behind the end is a place like any other; the next write fills the gap.
    assert_eq!(file.seek(&fs, SeekFrom::End(2)), Ok(8));
    assert_eq!(file.write(&mut fs, b"!"), Ok(1));
    assert_eq!(context.read(&fs, "/d/f").unwrap(), b"abcdef\0\0!".to_vec());
}

#[test]
fn append_writes_at_the_end() {
    let (mut fs, context) = setup(FsKind::Ext4);
    context.write(&mut fs, "/d/f", b"abc").unwrap();
    let mut options = OpenOptions::new();
    options.append(true);
    let mut file = open_file(&options, &context, &mut fs, "/d/f");
    assert_eq!(file.position, 0);
    assert_eq!(file.write(&mut fs, b"de"), Ok(2));
    assert_eq!(file.position, 5);
    file.seek(&fs, SeekFrom::Start(0)).unwrap();
    assert_eq!(file.write_all(&mut fs, b"f"), Ok(()));
    assert_eq!(context.read(&fs, "/d/f").unwrap(), b"abcdef".to_vec());
    // Opened for appending only, the file cannot be read.
    assert_eq!(file.read(&fs, 1), Err(VfsError::BadFileDescriptor));
}

#[test]
fn access_is_checked() {
    let (mut fs, context) = setup(FsKind::Ext4);
    context.write(&mut fs, "/d/f", b"abc").unwrap();
    let mut read_only = OpenOptions::new();
    read_only.read(true);
    let mut file = open_file(&read_only, &context, &mut fs, "/d/f");
    assert_eq!(file.write(&mut fs, b"x"), Err(VfsError::BadFileDescriptor));
    assert_eq!(file.read(&fs, 10).unwrap(), b"abc".to_vec());
    let mut write_only = OpenOptions::new();
    write_only.write(true);
    let mut file = open_file(&write_only, &context, &mut fs, "/d/f");
    assert_eq!(file.read(&fs, 1), Err(VfsError::BadFileDescriptor));
    assert_eq!(file.write(&mut fs, b"x"), Ok(1));
    assert_eq!(file.metadata(&fs).unwrap().size, 3);
    assert_eq!(file.sync(&fs, true), Ok(()));
    assert_eq!(file.sync(&fs, false), Ok(()));
}

#[test]
fn exclusive_create_of_what_exists_fails() {
    for kind in [FsKind::Fat, FsKind::Ext4] {
        let (mut fs, context) = setup(kind);
        context.write(&mut fs, "/d/f", b"abc").unwrap();
        let mut options = OpenOptions::new();
        options.write(true).create(true).create_new(true);
        assert_eq!(
            options.open(&context, &mut fs, "/d/f"),
            Err(VfsError::AlreadyExists)
        );
        assert_eq!(
            options.open(&context, &mut fs, "/d"),
            Err(VfsError::AlreadyExists)
        );
        assert_eq!(context.read(&fs, "/d/f").unwrap(), b"abc".to_vec());
        // What does not exist is made.
        assert!(options.open(&context, &mut fs, "/d/new").is_ok());
        assert_eq!(context.metadata(&fs, "/d/new").unwrap().node_type, NodeType::RegularFile);
    }
}

#[test]
fn open_of_directories_and_files() {
    let (mut fs, context) = setup(FsKind::Ext4);
    context.write(&mut fs, "/d/f", b"abc").unwrap();
    let d = context.resolve(&fs, "/d").unwrap();
    let mut read = OpenOptions::new();
    read.read(true);
    assert_eq!(read.open(&context, &mut fs, "/d"), Ok(OpenResult::Dir(d)));
    assert_eq!(
        read.open(&context, &mut fs, "/d").unwrap().into_file(),
        Err(VfsError::IsADirectory)
    );
    assert_eq!(read.open(&context, &mut fs, "/d").unwrap().into_dir(), Ok(d));
    assert_eq!(
        read.open(&context, &mut fs, "/d/f").unwrap().into_dir(),
        Err(VfsError::NotADirectory)
    );
    assert_eq!(read.open(&context, &mut fs, "/d/none"), Err(VfsError::NotFound));
    assert_eq!(read.open(&context, &mut fs, "/none/f"), Err(VfsError::NotFound));
    let mut directory = OpenOptions::new();
    directory.read(true).directory(true);
    assert_eq!(directory.open(&context, &mut fs, "/d"), Ok(OpenResult::Dir(d)));
    assert_eq!(
        directory.open(&context, &mut fs, "/d/f"),
        Err(VfsError::NotADirectory)
    );
    let mut truncate = OpenOptions::new();
    truncate.write(true).truncate(true);
    assert_eq!(truncate.open(&context, &mut fs, "/d"), Err(VfsError::IsADirectory));
    assert!(truncate.open(&context, &mut fs, "/d/f").is_ok());
    assert_eq!(context.read(&fs, "/d/f").unwrap(), Vec::<u8>::new());
}

#[test]
fn truncation_needs_write_access() {
    let (mut fs, context) = setup(FsKind::Ext4);
    context.write(&mut fs, "/d/f", b"abc").unwrap();
    let mut options = OpenOptions::new();
    options.read(true).truncate(true);
    assert!(options.open(&context, &mut fs, "/d/f").is_ok());
    assert_eq!(context.read(&fs, "/d/f").unwrap(), b"abc".to_vec());
}

#[test]
fn create_makes_a_file_in_an_existing_directory_only() {
    let (mut fs, context) = setup(FsKind::Ext4);
    let mut options = OpenOptions::new();
    options.write(true).create(true);
    assert_eq!(options.open(&context, &mut fs, "/none/f"), Err(VfsError::NotFound));
    assert_eq!(options.open(&context, &mut fs, "/d/f/x").map(|_| ()), Err(VfsError::NotFound));
    let file = open_file(&options, &context, &mut fs, "/d/f");
    assert_eq!(file.position, 0);
    assert_eq!(file.flags, FileFlags { read: false, write: true, append: false });
    assert_eq!(context.metadata(&fs, "/d/f").unwrap().mode.bits(), 0o666);
    options.mode(NodePermission::from_bits_truncate(0o604));
    open_file(&options, &context, &mut fs, "/d/private");
    assert_eq!(context.metadata(&fs, "/d/private").unwrap().mode.bits(), 0o604);
    let mut both = OpenOptions::new();
    both.write(true).create(true).directory(true);
    assert_eq!(both.open(&context, &mut fs, "/d/g"), Err(VfsError::NotADirectory));
    assert_eq!(context.metadata(&fs, "/d/g"), Err(VfsError::NotFound));
}

#[test]
fn whole_file_reads_and_writes() {
    let (mut fs, context) = setup(FsKind::Ext4);
    assert_eq!(context.write(&mut fs, "/d/f", b"first, and long"), Ok(()));
    assert_eq!(context.write(&mut fs, "/d/f", b"second"), Ok(()));
    assert_eq!(context.read(&fs, "/d/f").unwrap(), b"second".to_vec());
    assert_eq!(context.read_to_string(&fs, "/d/f").unwrap(), "second");
    assert_eq!(context.write(&mut fs, "/d", b"x"), Err(VfsError::IsADirectory));
    assert_eq!(context.write(&mut fs, "/none/f", b"x"), Err(VfsError::NotFound));
    assert_eq!(context.read(&fs, "/d"), Err(VfsError::IsADirectory));
    assert_eq!(context.read(&fs, "/d/none"), Err(VfsError::NotFound));
    context.write(&mut fs, "/d/bin", &[0xff, 0xfe, 0x00]).unwrap();
    assert_eq!(context.read_to_string(&fs, "/d/bin"), Err(VfsError::InvalidInput));
    context.write(&mut fs, "/d/text", "grüße".as_bytes()).unwrap();
    assert_eq!(context.read_to_string(&fs, "/d/text").unwrap(), "grüße");
}

#[test]
fn an_open_file_outlives_its_name() {
    let (mut fs, context) = setup(FsKind::Ext4);
    context.write(&mut fs, "/d/f", b"abc").unwrap();
    let mut options = OpenOptions::new();
    options.read(true).write(true);
    let mut file = open_file(&options, &context, &mut fs, "/d/f");
    assert_eq!(context.remove_file(&mut fs, "/d/f"), Ok(()));
    assert_eq!(file.read_to_end(&fs).unwrap(), b"abc".to_vec());
    assert_eq!(file.metadata(&fs).unwrap().nlink, 0);
}

#[test]
fn option_builders_set_one_option_each() {
    let mut options = OpenOptions::new();
    assert_eq!(
        options,
        OpenOptions {
            read: false,
            write: false,
            append: false,
            truncate: false,
            create: false,
            create_new: false,
            directory: false,
            execute: false,
            mode: NodePermission::from_bits_truncate(0o666),
        }
    );
    options.read(true);
    assert!(options.read && !options.write);
    options.write(true).append(true).truncate(true);
    assert!(options.write && options.append && options.truncate);
    options.create(true).create_new(true).directory(true).execute(true);
    assert!(options.create && options.create_new && options.directory && options.execute);
    options.read(false).execute(false);
    assert!(!options.read && !options.execute && options.write);
    options.mode(NodePermission::from_bits_truncate(0o750));
    assert_eq!(options.mode.bits(), 0o750);
    assert!(options.write && options.create);
}

#[test]
fn writes_to_two_files_do_not_meet() {
    let mut contents: Vec<(Vec<u8>, Vec<u8>)> = Vec::new();
    for first_is_f in [true, false] {
        let (mut fs, context) = setup(FsKind::Ext4);
        context.write(&mut fs, "/d/f", b"ffff").unwrap();
        context.write(&mut fs, "/d/g", b"gggg").unwrap();
        let mut options = OpenOptions::new();
        options.read(true).write(true);
        let mut f = open_file(&options, &context, &mut fs, "/d/f");
        let mut g = open_file(&options, &context, &mut fs, "/d/g");
        if first_is_f {
            assert_eq!(f.write(&mut fs, b"12"), Ok(2));
            assert_eq!(context.read(&fs, "/d/g").unwrap(), b"gggg".to_vec());
            assert_eq!(g.write(&mut fs, b"xyz"), Ok(3));
        } else {
            assert_eq!(g.write(&mut fs, b"xyz"), Ok(3));
            assert_eq!(context.read(&fs, "/d/f").unwrap(), b"ffff".to_vec());
            assert_eq!(f.write(&mut fs, b"12"), Ok(2));
        }
        assert_eq!((f.position, g.position), (2, 3));
        contents.push((
            context.read(&fs, "/d/f").unwrap(),
            context.read(&fs, "/d/g").unwrap(),
        ));
    }
    assert_eq!(contents[0], (b"12ff".to_vec(), b"xyzg".to_vec()));
    assert_eq!(contents[0], contents[1]);
}
