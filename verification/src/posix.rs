//! The POSIX face of the file system: open flags, the `stat` record, the
//! table of file descriptors and the system calls.

use crate::context::FsContext;
use crate::error::{VfsError, VfsResult};
use crate::file::{seek_target, OpenOptions, OpenResult, SeekFrom};
use crate::path::{path_components, ComponentView};
use crate::types::{Duration, Metadata, NodePermission, DEFAULT_PERMISSION, PERMISSION_MASK};
use crate::model::{FsView, Location, path_text, written};
use crate::vfs::{Filesystem};
use vstd::prelude::*;

verus! {

/// The descriptor that stands for the current directory in calls that
/// take a directory descriptor.
pub const AT_FDCWD: i32 = -100;

/// Open for reading only.
pub const O_RDONLY: u32 = 0;

/// Open for writing only.
pub const O_WRONLY: u32 = 1;

/// Open for reading and writing.
pub const O_RDWR: u32 = 2;

/// The mask of the access mode in the open flags.
pub const O_ACCMODE: u32 = 3;

/// Make the file where there is none.
pub const O_CREAT: u32 = 0o100;

/// Make the file, and fail where there is one.
pub const O_EXCL: u32 = 0o200;

/// Empty the file on opening.
pub const O_TRUNC: u32 = 0o1000;

/// Write at the end.
pub const O_APPEND: u32 = 0o2000;

/// Open a directory and nothing else.
pub const O_DIRECTORY: u32 = 0o200000;

/// Open for execution.
pub const O_EXEC: u32 = 0o10000000;

/// A time as POSIX records it.
#[derive(Clone, Copy, Debug, PartialEq, Eq, Structural)]
pub struct Timespec {
    pub tv_sec: i64,
    pub tv_nsec: i64,
}

/// The record that `stat` fills.
#[derive(Clone, Copy, Debug, PartialEq, Eq, Structural)]
pub struct Stat {
    /// The device that holds the node.
    pub st_dev: u64,
    /// The inode number.
    pub st_ino: u64,
    /// The node type in the bits from 12 up, and the mode bits below.
    pub st_mode: u32,
    /// The number of names of the node.
    pub st_nlink: u32,
    /// The owning user.
    pub st_uid: u32,
    /// The owning group.
    pub st_gid: u32,
    /// The device that a special file stands for; always 0.
    pub st_rdev: u64,
    /// The size in bytes.
    pub st_size: i64,
    /// The preferred block size.
    pub st_blksize: i64,
    /// The number of 512-byte blocks.
    pub st_blocks: i64,
    /// The time of the last access.
    pub st_atime: Timespec,
    /// The time of the last modification.
    pub st_mtime: Timespec,
    /// The time of the last status change.
    pub st_ctime: Timespec,
}

impl Stat {
    /// The record with zero in every field.
    pub open spec fn zeroed() -> Stat {
        let zero = Timespec { tv_sec: 0, tv_nsec: 0 };
        Stat {
            st_dev: 0,
            st_ino: 0,
            st_mode: 0,
            st_nlink: 0,
            st_uid: 0,
            st_gid: 0,
            st_rdev: 0,
            st_size: 0,
            st_blksize: 0,
            st_blocks: 0,
            st_atime: zero,
            st_mtime: zero,
            st_ctime: zero,
        }
    }
}

impl Default for Stat {
    fn default() -> (stat: Stat)
        ensures
            stat == Stat::zeroed(),
    {
        let zero = Timespec { tv_sec: 0, tv_nsec: 0 };
        Stat {
            st_dev: 0,
            st_ino: 0,
            st_mode: 0,
            st_nlink: 0,
            st_uid: 0,
            st_gid: 0,
            st_rdev: 0,
            st_size: 0,
            st_blksize: 0,
            st_blocks: 0,
            st_atime: zero,
            st_mtime: zero,
            st_ctime: zero,
        }
    }
}

/// The POSIX time that stands for a timestamp. Seconds beyond what the
/// record can hold wrap around.
pub open spec fn spec_duration_to_timespec(duration: Duration) -> Timespec {
    Timespec { tv_sec: duration.secs as i64, tv_nsec: duration.nanos as i64 }
}

/// Converts a timestamp to the POSIX form.
pub fn duration_to_timespec(duration: Duration) -> (time: Timespec)
    ensures
        time == spec_duration_to_timespec(duration),
{
    Timespec {
        tv_sec: #[verifier::truncate]
        (duration.as_secs() as i64),
        tv_nsec: duration.subsec_nanos() as i64,
    }
}

/// The options that open flags stand for.
///
/// The two lowest bits are the access mode: reading only, writing only,
/// and both for every other value. Each further flag sets one option. A
/// file that the open makes has the default mode.
pub open spec fn spec_flags_to_options(flags: i32) -> OpenOptions {
    let bits = flags as u32;
    OpenOptions {
        read: bits & O_ACCMODE != O_WRONLY,
        write: bits & O_ACCMODE != O_RDONLY,
        append: bits & O_APPEND != 0,
        truncate: bits & O_TRUNC != 0,
        create: bits & O_CREAT != 0,
        create_new: bits & O_EXCL != 0,
        directory: bits & O_DIRECTORY != 0,
        execute: bits & O_EXEC != 0,
        mode: NodePermission { bits: DEFAULT_PERMISSION },
    }
}

/// Converts open flags to open options. The mode is not looked at: a file
/// that the open makes has the default mode.
pub fn flags_to_options(flags: i32, _mode: u32) -> (options: OpenOptions)
    ensures
        options == spec_flags_to_options(flags),
{
    let flags: u32 = #[verifier::truncate]
    (flags as u32);
    let mut options = OpenOptions::new();
    let access: u32 = flags & O_ACCMODE;
    if access == O_RDONLY {
        options.read(true);
    } else if access == O_WRONLY {
        options.write(true);
    } else {
        options.read(true).write(true);
    }
    if flags & O_APPEND != 0 {
        options.append(true);
    }
    if flags & O_TRUNC != 0 {
        options.truncate(true);
    }
    if flags & O_CREAT != 0 {
        options.create(true);
    }
    if flags & O_EXEC != 0 {
        options.execute(true);
    }
    if flags & O_EXCL != 0 {
        options.create_new(true);
    }
    if flags & O_DIRECTORY != 0 {
        options.directory(true);
    }
    options
}

/// The `st_mode` of a node: its type from bit 12 up, and its twelve mode
/// bits below.
pub open spec fn spec_st_mode(metadata: Metadata) -> u32 {
    ((metadata.node_type.spec_type_bits() as u32) << 12) | ((metadata.mode.bits
        & PERMISSION_MASK) as u32)
}

/// The `stat` record of a node. Counts and sizes beyond what a field can
/// hold wrap around.
pub open spec fn spec_metadata_to_stat(metadata: Metadata) -> Stat {
    Stat {
        st_dev: metadata.device,
        st_ino: metadata.inode,
        st_mode: spec_st_mode(metadata),
        st_nlink: metadata.nlink as u32,
        st_uid: metadata.uid,
        st_gid: metadata.gid,
        st_rdev: 0,
        st_size: metadata.size as i64,
        st_blksize: metadata.block_size as i64,
        st_blocks: metadata.blocks as i64,
        st_atime: spec_duration_to_timespec(metadata.atime),
        st_mtime: spec_duration_to_timespec(metadata.mtime),
        st_ctime: spec_duration_to_timespec(metadata.ctime),
    }
}

/// Makes the `stat` record of a node from its metadata.
pub fn metadata_to_stat(metadata: &Metadata) -> (stat: Stat)
    ensures
        stat == spec_metadata_to_stat(*metadata),
{
    let ty: u8 = metadata.node_type.type_bits();
    let perm: u32 = (metadata.mode.bits() & PERMISSION_MASK) as u32;
    let st_mode: u32 = ((ty as u32) << 12) | perm;
    Stat {
        st_dev: metadata.device,
        st_ino: metadata.inode,
        st_mode,
        st_nlink: #[verifier::truncate]
        (metadata.nlink as u32),
        st_uid: metadata.uid,
        st_gid: metadata.gid,
        st_rdev: 0,
        st_size: #[verifier::truncate]
        (metadata.size as i64),
        st_blksize: #[verifier::truncate]
        (metadata.block_size as i64),
        st_blocks: #[verifier::truncate]
        (metadata.blocks as i64),
        st_atime: duration_to_timespec(metadata.atime),
        st_mtime: duration_to_timespec(metadata.mtime),
        st_ctime: duration_to_timespec(metadata.ctime),
    }
}

/// What a descriptor can tell without blocking.
#[derive(Clone, Copy, Debug, PartialEq, Eq, Structural)]
pub struct PollState {
    /// Whether a read would not block.
    pub readable: bool,
    /// Whether a write would not block.
    pub writable: bool,
}

/// A file behind a descriptor.
#[derive(Clone, Copy, Debug, PartialEq, Eq, Structural)]
pub struct File {
    pub inner: crate::file::File,
}

/// A directory behind a descriptor.
#[derive(Clone, Copy, Debug, PartialEq, Eq, Structural)]
pub struct Directory {
    pub inner: Location,
    /// Where a listing through this descriptor goes on.
    pub offset: u64,
}

/// What a descriptor stands for.
#[derive(Clone, Copy, Debug, PartialEq, Eq, Structural)]
pub enum FileLike {
    File(File),
    Directory(Directory),
}

/// The number of descriptors that can be open at once.
pub const AX_FILE_LIMIT: usize = 1024;

/// The table of open descriptors: the descriptor is the index.
pub struct FdTable {
    slots: Vec<Option<FileLike>>,
}

/// The first free place of `slots` from `from` on; the length where none
/// is free.
pub open spec fn first_free_from(slots: Seq<Option<FileLike>>, from: int) -> int
    decreases slots.len() - from,
{
    if from < 0 || from >= slots.len() {
        slots.len() as int
    } else if slots[from] is None {
        from
    } else {
        first_free_from(slots, from + 1)
    }
}

/// The lowest descriptor that is not open.
pub open spec fn lowest_free(slots: Seq<Option<FileLike>>) -> int {
    first_free_from(slots, 0)
}

/// The table in which the descriptor `fd`, a place of the table or the
/// one behind its end, stands for `file`.
pub open spec fn with_slot(slots: Seq<Option<FileLike>>, fd: int, file: FileLike) -> Seq<
    Option<FileLike>,
> {
    if fd < slots.len() {
        slots.update(fd, Some(file))
    } else {
        slots.push(Some(file))
    }
}

/// What the descriptor `fd` stands for, if it is open.
pub open spec fn slot(slots: Seq<Option<FileLike>>, fd: int) -> Option<FileLike> {
    if 0 <= fd < slots.len() {
        slots[fd]
    } else {
        None
    }
}

/// The lowest free descriptor is free, and every lower one is open.
pub proof fn lemma_first_free(slots: Seq<Option<FileLike>>, from: int)
    requires
        0 <= from <= slots.len(),
    ensures
        from <= first_free_from(slots, from) <= slots.len(),
        slot(slots, first_free_from(slots, from)) is None,
        forall|fd: int| from <= fd < first_free_from(slots, from) ==> (#[trigger] slots[fd]) is Some,
    decreases slots.len() - from,
{
    if from < slots.len() && slots[from] is Some {
        lemma_first_free(slots, from + 1);
    }
}

impl View for FdTable {
    type V = Seq<Option<FileLike>>;

    closed spec fn view(&self) -> Seq<Option<FileLike>> {
        self.slots@
    }
}

impl FdTable {
    /// Whether the table is no longer than the limit allows.
    pub open spec fn wf(&self) -> bool {
        self@.len() <= AX_FILE_LIMIT
    }

    /// Makes a table in which no descriptor is open.
    pub fn new() -> (table: FdTable)
        ensures
            table.wf(),
            table@.len() == 0,
    {
        FdTable { slots: Vec::new() }
    }

    /// Opens the lowest free descriptor for `file` and returns it. Fails
    /// with `TooManyOpenFiles` where every descriptor is open.
    pub fn add_file_like(&mut self, file: FileLike) -> (r: VfsResult<i32>)
        requires
            old(self).wf(),
        ensures
            final(self).wf(),
            match r {
                Ok(fd) => {
                    &&& fd == lowest_free(old(self)@)
                    &&& 0 <= fd < AX_FILE_LIMIT
                    &&& final(self)@ == with_slot(old(self)@, fd as int, file)
                },
                Err(e) => {
                    &&& e == VfsError::TooManyOpenFiles
                    &&& lowest_free(old(self)@) >= AX_FILE_LIMIT
                    &&& final(self)@ == old(self)@
                },
            },
    {
        let mut fd: usize = 0;
        while fd < self.slots.len()
            invariant
                fd <= self.slots.len(),
                self.slots@ == old(self)@,
                lowest_free(old(self)@) == first_free_from(old(self)@, fd as int),
                old(self).wf(),
            decreases self.slots.len() - fd,
        {
            if self.slots[fd].is_none() {
                self.slots[fd] = Some(file);
                return Ok(fd as i32);
            }
            fd += 1;
        }
        if fd >= AX_FILE_LIMIT {
            return Err(VfsError::TooManyOpenFiles);
        }
        self.slots.push(Some(file));
        Ok(fd as i32)
    }

    /// Returns what the descriptor `fd` stands for. Fails with
    /// `BadFileDescriptor` where it is not open.
    pub fn get_file_like(&self, fd: i32) -> (r: VfsResult<FileLike>)
        ensures
            match r {
                Ok(file) => slot(self@, fd as int) == Some(file),
                Err(e) => slot(self@, fd as int) is None && e == VfsError::BadFileDescriptor,
            },
    {
        if fd < 0 || fd as usize >= self.slots.len() {
            return Err(VfsError::BadFileDescriptor);
        }
        match self.slots[fd as usize] {
            Some(file) => Ok(file),
            None => Err(VfsError::BadFileDescriptor),
        }
    }

    /// Makes the open descriptor `fd` stand for `file`. Fails with
    /// `BadFileDescriptor`, and changes nothing, where it is not open.
    pub fn replace_file_like(&mut self, fd: i32, file: FileLike) -> (r: VfsResult<()>)
        requires
            old(self).wf(),
        ensures
            final(self).wf(),
            match r {
                Ok(_) => slot(old(self)@, fd as int) is Some && final(self)@ == old(self)@.update(
                    fd as int,
                    Some(file),
                ),
                Err(e) => slot(old(self)@, fd as int) is None && e == VfsError::BadFileDescriptor
                    && final(self)@ == old(self)@,
            },
    {
        if fd < 0 || fd as usize >= self.slots.len() {
            return Err(VfsError::BadFileDescriptor);
        }
        if self.slots[fd as usize].is_none() {
            return Err(VfsError::BadFileDescriptor);
        }
        self.slots[fd as usize] = Some(file);
        Ok(())
    }

    /// Closes the descriptor `fd`. Fails with `BadFileDescriptor`, and
    /// changes nothing, where it is not open.
    pub fn close_file_like(&mut self, fd: i32) -> (r: VfsResult<()>)
        requires
            old(self).wf(),
        ensures
            final(self).wf(),
            match r {
                Ok(_) => slot(old(self)@, fd as int) is Some && final(self)@ == old(self)@.update(
                    fd as int,
                    None,
                ),
                Err(e) => slot(old(self)@, fd as int) is None && e == VfsError::BadFileDescriptor
                    && final(self)@ == old(self)@,
            },
    {
        if fd < 0 || fd as usize >= self.slots.len() {
            return Err(VfsError::BadFileDescriptor);
        }
        if self.slots[fd as usize].is_none() {
            return Err(VfsError::BadFileDescriptor);
        }
        self.slots[fd as usize] = None;
        Ok(())
    }
}

impl File {
    /// Wraps an open file.
    pub fn new(inner: crate::file::File) -> (file: File)
        ensures
            file.inner == inner,
    {
        File { inner }
    }

    /// Returns the open file.
    pub fn inner(&self) -> (inner: &crate::file::File)
        ensures
            *inner == self.inner,
    {
        &self.inner
    }

    /// Opens the lowest free descriptor for this file.
    pub fn add_to_fd_table(self, fds: &mut FdTable) -> (r: VfsResult<i32>)
        requires
            old(fds).wf(),
        ensures
            final(fds).wf(),
            match r {
                Ok(fd) => {
                    &&& fd == lowest_free(old(fds)@)
                    &&& 0 <= fd < AX_FILE_LIMIT
                    &&& final(fds)@ == with_slot(old(fds)@, fd as int, FileLike::File(self))
                },
                Err(e) => {
                    &&& e == VfsError::TooManyOpenFiles
                    &&& lowest_free(old(fds)@) >= AX_FILE_LIMIT
                    &&& final(fds)@ == old(fds)@
                },
            },
    {
        fds.add_file_like(FileLike::File(self))
    }

    /// Returns the file that the descriptor `fd` stands for. Fails with
    /// `BadFileDescriptor` where it stands for none.
    pub fn from_fd(fds: &FdTable, fd: i32) -> (r: VfsResult<File>)
        ensures
            match r {
                Ok(file) => slot(fds@, fd as int) == Some(FileLike::File(file)),
                Err(e) => !(slot(fds@, fd as int) matches Some(FileLike::File(_))) && e
                    == VfsError::BadFileDescriptor,
            },
    {
        match fds.get_file_like(fd) {
            Ok(FileLike::File(file)) => Ok(file),
            Ok(FileLike::Directory(_)) => Err(VfsError::BadFileDescriptor),
            Err(e) => Err(e),
        }
    }

    /// Returns the `stat` record of the file.
    pub fn stat(&self, fs: &Filesystem) -> (r: VfsResult<Stat>)
        ensures
            match r {
                Ok(stat) => self.inner.node.index < fs@.nodes.len() && stat
                    == spec_metadata_to_stat(fs@.nodes[self.inner.node.index as int].meta),
                Err(e) => self.inner.node.index >= fs@.nodes.len() && e == VfsError::NotFound,
            },
    {
        match self.inner.metadata(fs) {
            Ok(metadata) => Ok(metadata_to_stat(&metadata)),
            Err(e) => Err(e),
        }
    }

    /// Tells that a file can always be read and written without blocking.
    pub fn poll(&self) -> (r: VfsResult<PollState>)
        ensures
            r == Ok::<PollState, VfsError>(PollState { readable: true, writable: true }),
    {
        Ok(PollState { readable: true, writable: true })
    }

    /// Takes note of the blocking mode; a file never blocks.
    pub fn set_nonblocking(&self, _nonblocking: bool) -> (r: VfsResult<()>)
        ensures
            r == Ok::<(), VfsError>(()),
    {
        Ok(())
    }
}

impl Directory {
    /// Wraps a directory, the listing at its start.
    pub fn new(inner: Location) -> (dir: Directory)
        ensures
            dir == (Directory { inner, offset: 0 }),
    {
        Directory { inner, offset: 0 }
    }

    /// Returns the directory.
    pub fn inner(&self) -> (inner: &Location)
        ensures
            *inner == self.inner,
    {
        &self.inner
    }

    /// Opens the lowest free descriptor for this directory.
    pub fn add_to_fd_table(self, fds: &mut FdTable) -> (r: VfsResult<i32>)
        requires
            old(fds).wf(),
        ensures
            final(fds).wf(),
            match r {
                Ok(fd) => {
                    &&& fd == lowest_free(old(fds)@)
                    &&& 0 <= fd < AX_FILE_LIMIT
                    &&& final(fds)@ == with_slot(old(fds)@, fd as int, FileLike::Directory(self))
                },
                Err(e) => {
                    &&& e == VfsError::TooManyOpenFiles
                    &&& lowest_free(old(fds)@) >= AX_FILE_LIMIT
                    &&& final(fds)@ == old(fds)@
                },
            },
    {
        fds.add_file_like(FileLike::Directory(self))
    }

    /// Returns the directory that the descriptor `fd` stands for. Fails
    /// with `BadFileDescriptor` where the descriptor is not open and with
    /// `InvalidInput` where it stands for something else.
    pub fn from_fd(fds: &FdTable, fd: i32) -> (r: VfsResult<Directory>)
        ensures
            r == match slot(fds@, fd as int) {
                Some(FileLike::Directory(dir)) => Ok::<Directory, VfsError>(dir),
                Some(FileLike::File(_)) => Err::<Directory, VfsError>(VfsError::InvalidInput),
                None => Err::<Directory, VfsError>(VfsError::BadFileDescriptor),
            },
    {
        match fds.get_file_like(fd) {
            Ok(FileLike::Directory(dir)) => Ok(dir),
            Ok(FileLike::File(_)) => Err(VfsError::InvalidInput),
            Err(e) => Err(e),
        }
    }

    /// Returns the `stat` record of the directory.
    pub fn stat(&self, fs: &Filesystem) -> (r: VfsResult<Stat>)
        requires
            fs.wf(),
        ensures
            match r {
                Ok(stat) => fs@.valid(self.inner) && stat == spec_metadata_to_stat(
                    fs@.node_of(self.inner).meta,
                ),
                Err(e) => !fs@.valid(self.inner) && e == VfsError::NotFound,
            },
    {
        match fs.metadata(self.inner) {
            Ok(metadata) => Ok(metadata_to_stat(&metadata)),
            Err(e) => Err(e),
        }
    }

    /// Tells that a directory can be listed and not written.
    pub fn poll(&self) -> (r: VfsResult<PollState>)
        ensures
            r == Ok::<PollState, VfsError>(PollState { readable: true, writable: false }),
    {
        Ok(PollState { readable: true, writable: false })
    }

    /// Takes note of the blocking mode; a directory never blocks.
    pub fn set_nonblocking(&self, _nonblocking: bool) -> (r: VfsResult<()>)
        ensures
            r == Ok::<(), VfsError>(()),
    {
        Ok(())
    }
}

impl FileLike {
    /// Reads at most `max` bytes. A directory is not read this way: it
    /// fails with `BadFileDescriptor`.
    pub fn read(&mut self, fs: &Filesystem, max: usize) -> (r: VfsResult<Vec<u8>>)
        ensures
            match *old(self) {
                FileLike::Directory(_) => r matches Err(e) && e == VfsError::BadFileDescriptor
                    && *final(self) == *old(self),
                FileLike::File(file) => match r {
                    Ok(bytes) => {
                        &&& file.inner.read_error(fs@) is None
                        &&& bytes@ == fs@.read_at(file.inner.node, file.inner.position, max)
                        &&& *final(self) == FileLike::File(
                            File {
                                inner: crate::file::File {
                                    position: (file.inner.position + bytes@.len()) as u64,
                                    ..file.inner
                                },
                            },
                        )
                    },
                    Err(e) => file.inner.read_error(fs@) == Some(e) && *final(self) == *old(self),
                },
            },
    {
        match self {
            FileLike::File(file) => file.inner.read(fs, max),
            FileLike::Directory(_) => Err(VfsError::BadFileDescriptor),
        }
    }

    /// Writes `data`. A directory is not written: it fails with
    /// `BadFileDescriptor`.
    pub fn write(&mut self, fs: &mut Filesystem, data: &[u8]) -> (r: VfsResult<usize>)
        requires
            old(fs).wf(),
        ensures
            final(fs).wf(),
            match *old(self) {
                FileLike::Directory(_) => r matches Err(e) && e == VfsError::BadFileDescriptor
                    && *final(self) == *old(self) && final(fs)@ == old(fs)@,
                FileLike::File(file) => match r {
                    Ok(n) => {
                        &&& file.inner.write_error(old(fs)@, data@.len()) is None
                        &&& n == data@.len()
                        &&& final(fs)@ == old(fs)@.with_content(
                            file.inner.node,
                            written(
                                old(fs)@.content(file.inner.node),
                                file.inner.write_offset(old(fs)@) as int,
                                data@,
                            ),
                        )
                        &&& *final(self) == FileLike::File(
                            File {
                                inner: crate::file::File {
                                    position: (file.inner.write_offset(old(fs)@) + data@.len()) as u64,
                                    ..file.inner
                                },
                            },
                        )
                    },
                    Err(e) => {
                        &&& file.inner.write_error(old(fs)@, data@.len()) == Some(e)
                        &&& final(fs)@ == old(fs)@
                        &&& *final(self) == *old(self)
                    },
                },
            },
    {
        match self {
            FileLike::File(file) => file.inner.write(fs, data),
            FileLike::Directory(_) => Err(VfsError::BadFileDescriptor),
        }
    }

    /// Returns the `stat` record of the file or the directory. What is
    /// gone from the file system has none: that fails with `NotFound`.
    pub fn stat(&self, fs: &Filesystem) -> (r: VfsResult<Stat>)
        requires
            fs.wf(),
        ensures
            match *self {
                FileLike::Directory(dir) => match r {
                    Ok(stat) => fs@.valid(dir.inner) && stat == spec_metadata_to_stat(
                        fs@.node_of(dir.inner).meta,
                    ),
                    Err(e) => !fs@.valid(dir.inner) && e == VfsError::NotFound,
                },
                FileLike::File(file) => match r {
                    Ok(stat) => file.inner.node.index < fs@.nodes.len() && stat
                        == spec_metadata_to_stat(fs@.nodes[file.inner.node.index as int].meta),
                    Err(e) => file.inner.node.index >= fs@.nodes.len() && e == VfsError::NotFound,
                },
            },
    {
        match self {
            FileLike::File(file) => file.stat(fs),
            FileLike::Directory(dir) => dir.stat(fs),
        }
    }

    /// Tells what can be done without blocking: a file can be read and
    /// written, a directory can be listed.
    pub fn poll(&self) -> (r: VfsResult<PollState>)
        ensures
            r == Ok::<PollState, VfsError>(
                PollState { readable: true, writable: *self is File },
            ),
    {
        match self {
            FileLike::File(file) => file.poll(),
            FileLike::Directory(dir) => dir.poll(),
        }
    }

    /// Takes note of the blocking mode; nothing here ever blocks.
    pub fn set_nonblocking(&self, nonblocking: bool) -> (r: VfsResult<()>)
        ensures
            r == Ok::<(), VfsError>(()),
    {
        match self {
            FileLike::File(file) => file.set_nonblocking(nonblocking),
            FileLike::Directory(dir) => dir.set_nonblocking(nonblocking),
        }
    }
}

/// What a descriptor stands for after an open.
pub open spec fn file_like_of(opened: OpenResult) -> FileLike {
    match opened {
        OpenResult::File(file) => FileLike::File(File { inner: file }),
        OpenResult::Dir(dir) => FileLike::Directory(Directory { inner: dir, offset: 0 }),
    }
}

/// Whether `r` and `after` are what a system call makes of the outcome
/// `opened` of an open: the lowest free descriptor, or the negated error
/// number with the table unchanged.
pub open spec fn installs(
    opened: VfsResult<OpenResult>,
    before: Seq<Option<FileLike>>,
    after: Seq<Option<FileLike>>,
    r: int,
) -> bool {
    match opened {
        Err(e) => after == before && r == -e.spec_errno(),
        Ok(opened) => if lowest_free(before) < AX_FILE_LIMIT {
            r == lowest_free(before) && after == with_slot(before, r, file_like_of(opened))
        } else {
            r == -VfsError::TooManyOpenFiles.spec_errno() && after == before
        },
    }
}

/// Puts what an open gave into the table of descriptors.
pub fn add_to_fd(fds: &mut FdTable, result: OpenResult) -> (r: VfsResult<i32>)
    requires
        old(fds).wf(),
    ensures
        final(fds).wf(),
        match r {
            Ok(fd) => {
                &&& fd == lowest_free(old(fds)@)
                &&& 0 <= fd < AX_FILE_LIMIT
                &&& final(fds)@ == with_slot(old(fds)@, fd as int, file_like_of(result))
            },
            Err(e) => {
                &&& e == VfsError::TooManyOpenFiles
                &&& lowest_free(old(fds)@) >= AX_FILE_LIMIT
                &&& final(fds)@ == old(fds)@
            },
        },
{
    match result {
        OpenResult::File(file) => File::new(file).add_to_fd_table(fds),
        OpenResult::Dir(dir) => Directory::new(dir).add_to_fd_table(fds),
    }
}

/// The context in which a path given with the directory descriptor
/// `dirfd` is resolved.
pub open spec fn spec_with_fs(
    fs: FsView,
    context: FsContext,
    fds: Seq<Option<FileLike>>,
    dirfd: i32,
) -> VfsResult<FsContext> {
    if dirfd == AT_FDCWD {
        Ok(context)
    } else {
        match slot(fds, dirfd as int) {
            Some(FileLike::Directory(dir)) => match crate::context::as_dir(fs, dir.inner) {
                Ok(_) => Ok(FsContext { current_dir: dir.inner, ..context }),
                Err(e) => Err(e),
            },
            Some(FileLike::File(_)) => Err(VfsError::InvalidInput),
            None => Err(VfsError::BadFileDescriptor),
        }
    }
}

/// Returns the context in which a path given with the directory
/// descriptor `dirfd` is resolved: the context itself for `AT_FDCWD`, and
/// otherwise one whose current directory is the directory behind `dirfd`.
pub fn with_fs(fs: &Filesystem, context: &FsContext, fds: &FdTable, dirfd: i32) -> (r: VfsResult<
    FsContext,
>)
    requires
        fs.wf(),
    ensures
        r == spec_with_fs(fs@, *context, fds@, dirfd),
{
    if dirfd == AT_FDCWD {
        Ok(*context)
    } else {
        match Directory::from_fd(fds, dirfd) {
            Ok(dir) => context.with_current_dir(fs, dir.inner),
            Err(e) => Err(e),
        }
    }
}

fn return_code(r: VfsResult<i32>) -> (code: i32)
    requires
        r matches Ok(fd) ==> fd >= 0,
    ensures
        code == match r {
            Ok(fd) => fd as int,
            Err(e) => -e.spec_errno(),
        },
{
    match r {
        Ok(fd) => fd,
        Err(e) => e.to_return_code(),
    }
}

/// Opens `filename`, resolved from the current directory, and returns the
/// descriptor, or the negated error number.
pub fn sys_open(
    fs: &mut Filesystem,
    context: &FsContext,
    fds: &mut FdTable,
    filename: &str,
    flags: i32,
    mode: u32,
) -> (r: i32)
    requires
        old(fs).wf(),
        old(fds).wf(),
    ensures
        final(fs).wf(),
        final(fds).wf(),
        exists|opened: VfsResult<OpenResult>|
            spec_flags_to_options(flags).opens(
                *context,
                old(fs)@,
                path_components(filename@),
                final(fs)@,
                opened,
            ) && installs(opened, old(fds)@, final(fds)@, r as int),
{
    let options = flags_to_options(flags, mode);
    let opened = options.open(context, fs, filename);
    let r = match opened {
        Ok(result) => return_code(add_to_fd(fds, result)),
        Err(e) => e.to_return_code(),
    };
    proof {
        assert(installs(opened, old(fds)@, fds@, r as int));
    }
    r
}

/// Opens `name`, resolved from the directory behind `dirfd` or from the
/// current directory for `AT_FDCWD`, and returns the descriptor, or the
/// negated error number.
pub fn sys_openat(
    fs: &mut Filesystem,
    context: &FsContext,
    fds: &mut FdTable,
    dirfd: i32,
    name: &str,
    flags: i32,
    mode: u32,
) -> (r: i32)
    requires
        old(fs).wf(),
        old(fds).wf(),
    ensures
        final(fs).wf(),
        final(fds).wf(),
        match spec_with_fs(old(fs)@, *context, old(fds)@, dirfd) {
            Err(e) => r == -e.spec_errno() && final(fs)@ == old(fs)@ && final(fds)@ == old(fds)@,
            Ok(from) => exists|opened: VfsResult<OpenResult>|
                spec_flags_to_options(flags).opens(
                    from,
                    old(fs)@,
                    path_components(name@),
                    final(fs)@,
                    opened,
                ) && installs(opened, old(fds)@, final(fds)@, r as int),
        },
{
    let options = flags_to_options(flags, mode);
    let from = match with_fs(fs, context, fds, dirfd) {
        Ok(from) => from,
        Err(e) => {
            return e.to_return_code();
        },
    };
    let opened = options.open(&from, fs, name);
    let r = match opened {
        Ok(result) => return_code(add_to_fd(fds, result)),
        Err(e) => e.to_return_code(),
    };
    proof {
        assert(installs(opened, old(fds)@, fds@, r as int));
    }
    r
}

/// The seek that `offset` and `whence` ask for: from the start for 0,
/// from the cursor for 1, from the end for 2. An offset from the start is
/// not negative.
pub open spec fn spec_seek_from(offset: i64, whence: i32) -> Option<SeekFrom> {
    if whence == 0 {
        if offset >= 0 {
            Some(SeekFrom::Start(offset as u64))
        } else {
            None
        }
    } else if whence == 1 {
        Some(SeekFrom::Current(offset))
    } else if whence == 2 {
        Some(SeekFrom::End(offset))
    } else {
        None
    }
}

/// Returns the seek that `offset` and `whence` ask for.
pub fn seek_from(offset: i64, whence: i32) -> (pos: Option<SeekFrom>)
    ensures
        pos == spec_seek_from(offset, whence),
{
    if whence == 0 {
        if offset >= 0 {
            Some(SeekFrom::Start(offset as u64))
        } else {
            None
        }
    } else if whence == 1 {
        Some(SeekFrom::Current(offset))
    } else if whence == 2 {
        Some(SeekFrom::End(offset))
    } else {
        None
    }
}

/// Whether `whence` names a base for a seek: the start, the cursor or the
/// end.
pub open spec fn valid_whence(whence: i32) -> bool {
    whence == 0 || whence == 1 || whence == 2
}

/// What `sys_lseek` returns and where it leaves the cursor: the new place
/// and the place itself, or the negated error number and no change. The
/// base is looked at first, then the descriptor, then the offset.
pub open spec fn spec_lseek(
    fs: FsView,
    fds: Seq<Option<FileLike>>,
    fd: i32,
    offset: i64,
    whence: i32,
) -> (int, Seq<Option<FileLike>>) {
    if !valid_whence(whence) {
        (-VfsError::InvalidInput.spec_errno(), fds)
    } else {
        match slot(fds, fd as int) {
            Some(FileLike::File(file)) => match spec_seek_from(offset, whence) {
                None => (-VfsError::InvalidInput.spec_errno(), fds),
                Some(pos) => if file.inner.node.index >= fs.nodes.len() {
                    (-VfsError::NotFound.spec_errno(), fds)
                } else {
                    let target = seek_target(
                        file.inner.position,
                        fs.nodes[file.inner.node.index as int].meta.size,
                        pos,
                    );
                    if 0 <= target <= i64::MAX {
                        (
                            target,
                            fds.update(
                                fd as int,
                                Some(
                                    FileLike::File(
                                        File {
                                            inner: crate::file::File {
                                                position: target as u64,
                                                ..file.inner
                                            },
                                        },
                                    ),
                                ),
                            ),
                        )
                    } else {
                        (-VfsError::InvalidInput.spec_errno(), fds)
                    }
                },
            },
            _ => (-VfsError::BadFileDescriptor.spec_errno(), fds),
        }
    }
}

/// Moves the cursor of the file behind `fd` and returns where it stands
/// then, or the negated error number.
///
/// A `whence` other than 0, 1 and 2 fails with `EINVAL`. Then a
/// descriptor that stands for no file, a directory among them, fails with
/// `EBADF`. Then a negative offset from the start, and a place that is no
/// offset, fail with `EINVAL`.
pub fn sys_lseek(fs: &Filesystem, fds: &mut FdTable, fd: i32, offset: i64, whence: i32) -> (r: i64)
    requires
        old(fds).wf(),
    ensures
        final(fds).wf(),
        r == spec_lseek(fs@, old(fds)@, fd, offset, whence).0,
        final(fds)@ == spec_lseek(fs@, old(fds)@, fd, offset, whence).1,
{
    if whence != 0 && whence != 1 && whence != 2 {
        return VfsError::InvalidInput.to_return_code() as i64;
    }
    let file = match File::from_fd(fds, fd) {
        Ok(file) => file,
        Err(e) => {
            return e.to_return_code() as i64;
        },
    };
    let pos = match seek_from(offset, whence) {
        Some(pos) => pos,
        None => {
            return VfsError::InvalidInput.to_return_code() as i64;
        },
    };
    let mut moved = file.inner;
    match moved.seek(fs, pos) {
        Ok(at) => {
            if at > i64::MAX as u64 {
                return VfsError::InvalidInput.to_return_code() as i64;
            }
            match fds.replace_file_like(fd, FileLike::File(File::new(moved))) {
                Ok(_) => at as i64,
                Err(e) => e.to_return_code() as i64,
            }
        },
        Err(e) => e.to_return_code() as i64,
    }
}

/// The options with which `sys_stat` opens: for reading, and nothing more.
pub open spec fn stat_options() -> OpenOptions {
    OpenOptions { read: true, ..OpenOptions::spec_new() }
}

/// What `sys_stat` returns and puts into the record for a path: 0 and
/// the record of what the path names, a file or a directory, or the
/// negated error number and no change.
pub open spec fn spec_stat(
    fs: FsView,
    context: FsContext,
    components: Seq<ComponentView>,
    buf: Stat,
) -> (int, Stat) {
    match context.spec_resolve(fs, components) {
        Err(e) => (-e.spec_errno(), buf),
        Ok(loc) => if !fs.valid(loc) {
            (-VfsError::NotFound.spec_errno(), buf)
        } else {
            (0, spec_metadata_to_stat(fs.node_of(loc).meta))
        },
    }
}

/// Puts the `stat` record of what `path` names into `buf` and returns 0,
/// or returns the negated error number. Without a record to fill the call
/// fails with `EFAULT`.
pub fn sys_stat(fs: &mut Filesystem, context: &FsContext, path: &str, buf: Option<&mut Stat>) -> (r:
    i32)
    requires
        old(fs).wf(),
    ensures
        final(fs).wf(),
        final(fs)@ == old(fs)@,
        match buf {
            None => r == -VfsError::BadAddress.spec_errno(),
            Some(buf) => (r as int, *final(buf)) == spec_stat(
                old(fs)@,
                *context,
                path_components(path@),
                *buf,
            ),
        },
{
    let buf = match buf {
        Some(buf) => buf,
        None => {
            return VfsError::BadAddress.to_return_code();
        },
    };
    let mut options = OpenOptions::new();
    options.read(true);
    let ghost before = fs@;
    proof {
        match context.spec_resolve(before, path_components(path@)) {
            Ok(loc) => {
                if before.valid(loc) {
                    assert(before.entry_ok(loc));
                }
            },
            Err(_) => {},
        }
    }
    let opened = match options.open(context, fs, path) {
        Ok(opened) => opened,
        Err(e) => {
            return e.to_return_code();
        },
    };
    let found = match opened {
        OpenResult::File(file) => File::new(file).stat(fs),
        OpenResult::Dir(dir) => match fs.metadata(dir) {
            Ok(metadata) => Ok(metadata_to_stat(&metadata)),
            Err(e) => Err(e),
        },
    };
    match found {
        Ok(stat) => {
            *buf = stat;
            0
        },
        Err(e) => e.to_return_code(),
    }
}

/// What `sys_fstat` returns and puts into the record for a descriptor: 0
/// and the record of the file or the directory behind it, or the negated
/// error number and no change.
pub open spec fn spec_fstat(fs: FsView, fds: Seq<Option<FileLike>>, fd: i32, buf: Stat) -> (
    int,
    Stat,
) {
    match slot(fds, fd as int) {
        Some(FileLike::File(file)) => if file.inner.node.index < fs.nodes.len() {
            (0, spec_metadata_to_stat(fs.nodes[file.inner.node.index as int].meta))
        } else {
            (-VfsError::NotFound.spec_errno(), buf)
        },
        Some(FileLike::Directory(dir)) => if fs.valid(dir.inner) {
            (0, spec_metadata_to_stat(fs.node_of(dir.inner).meta))
        } else {
            (-VfsError::NotFound.spec_errno(), buf)
        },
        None => (-VfsError::BadFileDescriptor.spec_errno(), buf),
    }
}

/// Puts the `stat` record of what is behind `fd`, a file or a directory,
/// into `buf` and returns 0, or returns the negated error number. Without a record to fill the
/// call fails with `EFAULT`.
pub fn sys_fstat(fs: &Filesystem, fds: &FdTable, fd: i32, buf: Option<&mut Stat>) -> (r: i32)
    requires
        fs.wf(),
    ensures
        match buf {
            None => r == -VfsError::BadAddress.spec_errno(),
            Some(buf) => (r as int, *final(buf)) == spec_fstat(fs@, fds@, fd, *buf),
        },
{
    let buf = match buf {
        Some(buf) => buf,
        None => {
            return VfsError::BadAddress.to_return_code();
        },
    };
    let file = match fds.get_file_like(fd) {
        Ok(file) => file,
        Err(e) => {
            return e.to_return_code();
        },
    };
    match file.stat(fs) {
        Ok(stat) => {
            *buf = stat;
            0
        },
        Err(e) => e.to_return_code(),
    }
}

/// Fills `buf` with zeros and returns 0, whatever `path` names. Without
/// a record to fill the call fails with `EFAULT`.
pub fn sys_lstat(path: &str, buf: Option<&mut Stat>) -> (r: isize)
    ensures
        match buf {
            None => r == -VfsError::BadAddress.spec_errno(),
            Some(buf) => r == 0 && *final(buf) == Stat::zeroed(),
        },
{
    match buf {
        Some(buf) => {
            *buf = Stat::default();
            0
        },
        None => VfsError::BadAddress.to_return_code() as isize,
    }
}

/// Renames what `old` names to what `new` names and returns 0, or
/// returns the negated error number.
pub fn sys_rename(fs: &mut Filesystem, context: &FsContext, old_path: &str, new_path: &str) -> (r:
    i32)
    requires
        old(fs).wf(),
    ensures
        final(fs).wf(),
        match context.spec_resolve_parent(old(fs)@, path_components(old_path@)) {
            Err(e) => r == -e.spec_errno() && final(fs)@ == old(fs)@,
            Ok((src_dir, src_name)) => match context.spec_resolve_parent(
                old(fs)@,
                path_components(new_path@),
            ) {
                Err(e) => r == -e.spec_errno() && final(fs)@ == old(fs)@,
                Ok((dst_dir, dst_name)) => match old(fs)@.rename_error(
                    src_dir,
                    src_name,
                    dst_dir,
                    dst_name,
                ) {
                    Some(e) => r == -e.spec_errno() && final(fs)@ == old(fs)@,
                    None => r == 0 && final(fs)@ == old(fs)@.renamed(
                        src_dir,
                        src_name,
                        dst_dir,
                        dst_name,
                    ),
                },
            },
        },
{
    match context.rename(fs, old_path, new_path) {
        Ok(_) => 0,
        Err(e) => e.to_return_code(),
    }
}

/// The buffer after `bytes` and a NUL were put at its start.
pub open spec fn with_c_string(buf: Seq<u8>, bytes: Seq<u8>) -> Seq<u8> {
    bytes + seq![0u8] + buf.subrange(bytes.len() as int + 1, buf.len() as int)
}

/// Puts the absolute path of the current directory into `buf`, with a NUL
/// behind it, and returns its length without the NUL.
///
/// The buffer keeps its length, and what lies behind the NUL. Where the
/// path and the NUL do not fit, the call fails with `OutOfRange` and
/// leaves the buffer as it was.
pub fn sys_getcwd(fs: &Filesystem, context: &FsContext, buf: &mut Vec<u8>) -> (r: VfsResult<usize>)
    requires
        fs.wf(),
    ensures
        match r {
            Ok(len) => {
                let cwd = vstd::utf8::encode_utf8(
                    path_text(fs@.absolute_names(context.current_dir)),
                );
                &&& fs@.valid(context.current_dir)
                &&& len == cwd.len()
                &&& len < old(buf)@.len()
                &&& final(buf)@ == with_c_string(old(buf)@, cwd)
            },
            Err(e) => {
                &&& final(buf)@ == old(buf)@
                &&& if !fs@.valid(context.current_dir) {
                    e == VfsError::NotFound
                } else {
                    e == VfsError::OutOfRange && vstd::utf8::encode_utf8(
                        path_text(fs@.absolute_names(context.current_dir)),
                    ).len() >= old(buf)@.len()
                }
            },
        },
{
    let cwd = match fs.absolute_path(context.current_dir) {
        Ok(cwd) => cwd,
        Err(e) => {
            return Err(e);
        },
    };
    let bytes = cwd.as_str().as_bytes();
    let len: usize = bytes.len();
    if len >= buf.len() {
        return Err(VfsError::OutOfRange);
    }
    let mut i: usize = 0;
    while i < len
        invariant
            i <= len,
            len == bytes@.len(),
            len < buf@.len(),
            buf@.len() == old(buf)@.len(),
            buf@.subrange(0, i as int) == bytes@.subrange(0, i as int),
            buf@.subrange(i as int, buf@.len() as int) == old(buf)@.subrange(
                i as int,
                buf@.len() as int,
            ),
        decreases len - i,
    {
        let ghost before = buf@;
        buf[i] = bytes[i];
        proof {
            assert(buf@.subrange(0, i + 1) =~= before.subrange(0, i as int).push(bytes@[i as int]));
            assert(bytes@.subrange(0, i + 1) =~= bytes@.subrange(0, i as int).push(
                bytes@[i as int],
            ));
            assert(buf@.subrange(i + 1, buf@.len() as int) =~= before.subrange(
                i as int,
                buf@.len() as int,
            ).drop_first());
            assert(old(buf)@.subrange(i + 1, buf@.len() as int) =~= old(buf)@.subrange(
                i as int,
                buf@.len() as int,
            ).drop_first());
        }
        i += 1;
    }
    let ghost before = buf@;
    buf[len] = 0u8;
    proof {
        assert(bytes@.subrange(0, len as int) =~= bytes@);
        assert(before.subrange(0, len as int) == bytes@);
        assert(buf@ =~= with_c_string(old(buf)@, bytes@)) by {
            assert forall|k: int| 0 <= k < buf@.len() implies buf@[k] == with_c_string(
                old(buf)@,
                bytes@,
            )[k] by {
                if k < len {
                    assert(before.subrange(0, len as int)[k] == before[k]);
                } else if k > len {
                    assert(before.subrange(len as int, buf@.len() as int)[k - len] == before[k]);
                    assert(old(buf)@.subrange(len as int, buf@.len() as int)[k - len] == old(
                        buf,
                    )@[k]);
                }
            }
        }
    }
    Ok(len)
}

} // verus!
