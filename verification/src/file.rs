//! Open files: a node, the access that was asked for, and a cursor.

use crate::context::FsContext;
use crate::error::{VfsError, VfsResult};
use crate::path::{
    component_views, components, path_components, Component, ComponentView,
};
use crate::types::{Metadata, NodePermission, NodeType};
use crate::model::{FsView, Location, NodeId, written};
use crate::vfs::{Filesystem};
use vstd::prelude::*;

verus! {

/// The access that an open file gives.
#[derive(Clone, Copy, Debug, PartialEq, Eq, Structural)]
pub struct FileFlags {
    /// Whether the file can be read.
    pub read: bool,
    /// Whether the file can be written.
    pub write: bool,
    /// Whether every write goes to the end of the file.
    pub append: bool,
}

/// Where a seek goes.
#[derive(Clone, Copy, Debug, PartialEq, Eq, Structural)]
pub enum SeekFrom {
    /// To an offset from the start of the file.
    Start(u64),
    /// To an offset from the cursor.
    Current(i64),
    /// To an offset from the end of the file.
    End(i64),
}

/// An open file.
#[derive(Clone, Copy, Debug, PartialEq, Eq, Structural)]
pub struct File {
    pub node: NodeId,
    pub flags: FileFlags,
    pub position: u64,
}

/// The place that a seek names in a file of `size` bytes whose cursor
/// stands at `position`.
pub open spec fn seek_target(position: u64, size: u64, pos: SeekFrom) -> int {
    match pos {
        SeekFrom::Start(offset) => offset as int,
        SeekFrom::Current(delta) => position + delta,
        SeekFrom::End(delta) => size + delta,
    }
}

/// `base + delta`, where that is an offset.
fn offset_by(base: u64, delta: i64) -> (moved: Option<u64>)
    ensures
        match moved {
            Some(moved) => moved == base + delta,
            None => base + delta < 0 || base + delta > u64::MAX,
        },
{
    if delta >= 0 {
        let forward: u64 = delta as u64;
        if base <= u64::MAX - forward {
            Some(base + forward)
        } else {
            None
        }
    } else {
        let back: u64 = (-(delta + 1)) as u64 + 1;
        if back <= base {
            Some(base - back)
        } else {
            None
        }
    }
}

impl File {
    /// Opens `node` with the given access, the cursor at the start.
    pub fn new(node: NodeId, flags: FileFlags) -> (file: File)
        ensures
            file == (File { node, flags, position: 0 }),
    {
        File { node, flags, position: 0 }
    }

    /// Why a read gives nothing, or `None` where it reads.
    pub open spec fn read_error(self, fs: FsView) -> Option<VfsError> {
        if !self.flags.read {
            Some(VfsError::BadFileDescriptor)
        } else {
            fs.file_error(self.node)
        }
    }

    /// Reads at most `max` bytes from the cursor on and moves the cursor
    /// behind them.
    pub fn read(&mut self, fs: &Filesystem, max: usize) -> (r: VfsResult<Vec<u8>>)
        ensures
            match r {
                Ok(bytes) => {
                    &&& old(self).read_error(fs@) is None
                    &&& bytes@ == fs@.read_at(old(self).node, old(self).position, max)
                    &&& fs@.content(old(self).node).len() <= usize::MAX
                    &&& *final(self) == (File {
                        position: (old(self).position + bytes@.len()) as u64,
                        ..*old(self)
                    })
                    &&& old(self).position + bytes@.len() <= u64::MAX
                },
                Err(e) => old(self).read_error(fs@) == Some(e) && *final(self) == *old(self),
            },
    {
        if !self.flags.read {
            return Err(VfsError::BadFileDescriptor);
        }
        match fs.read_at(self.node, self.position, max) {
            Ok(bytes) => {
                if bytes.len() > 0 {
                    self.position = self.position + bytes.len() as u64;
                }
                Ok(bytes)
            },
            Err(e) => Err(e),
        }
    }

    /// Reads everything from the cursor to the end of the file and moves
    /// the cursor there.
    pub fn read_to_end(&mut self, fs: &Filesystem) -> (r: VfsResult<Vec<u8>>)
        ensures
            match r {
                Ok(bytes) => {
                    &&& old(self).read_error(fs@) is None
                    &&& bytes@ == fs@.read_at(old(self).node, old(self).position, usize::MAX)
                    &&& fs@.content(old(self).node).len() <= usize::MAX
                    &&& *final(self) == (File {
                        position: (old(self).position + bytes@.len()) as u64,
                        ..*old(self)
                    })
                },
                Err(e) => old(self).read_error(fs@) == Some(e) && *final(self) == *old(self),
            },
    {
        self.read(fs, usize::MAX)
    }

    /// Where a write of this file begins: at the end in append mode, and
    /// at the cursor otherwise.
    pub open spec fn write_offset(self, fs: FsView) -> u64 {
        if self.flags.append {
            fs.nodes[self.node.index as int].meta.size
        } else {
            self.position
        }
    }

    /// Why a write of `len` bytes stores nothing, or `None` where it
    /// stores them.
    pub open spec fn write_error(self, fs: FsView, len: nat) -> Option<VfsError> {
        if !self.flags.write {
            Some(VfsError::BadFileDescriptor)
        } else if self.node.index >= fs.nodes.len() {
            Some(VfsError::NotFound)
        } else {
            fs.size_error(self.node, self.write_offset(fs) + len)
        }
    }

    /// Writes `data` at the cursor, or at the end of the file in append
    /// mode, and moves the cursor behind it. Returns how many bytes were
    /// written: all of them.
    pub fn write(&mut self, fs: &mut Filesystem, data: &[u8]) -> (r: VfsResult<usize>)
        requires
            old(fs).wf(),
        ensures
            final(fs).wf(),
            match r {
                Ok(n) => {
                    &&& old(self).write_error(old(fs)@, data@.len()) is None
                    &&& n == data@.len()
                    &&& final(fs)@ == old(fs)@.with_content(
                        old(self).node,
                        written(
                            old(fs)@.content(old(self).node),
                            old(self).write_offset(old(fs)@) as int,
                            data@,
                        ),
                    )
                    &&& *final(self) == (File {
                        position: (old(self).write_offset(old(fs)@) + data@.len()) as u64,
                        ..*old(self)
                    })
                    &&& old(self).write_offset(old(fs)@) + data@.len() <= u64::MAX
                },
                Err(e) => {
                    &&& old(self).write_error(old(fs)@, data@.len()) == Some(e)
                    &&& final(fs)@ == old(fs)@
                    &&& *final(self) == *old(self)
                },
            },
    {
        if !self.flags.write {
            return Err(VfsError::BadFileDescriptor);
        }
        let at: u64 = if self.flags.append {
            match fs.node_metadata(self.node) {
                Ok(meta) => meta.size,
                Err(e) => {
                    return Err(e);
                },
            }
        } else {
            if self.node.index >= fs.node_count() {
                return Err(VfsError::NotFound);
            }
            self.position
        };
        match fs.write_at(self.node, at, data) {
            Ok(n) => {
                self.position = at + n as u64;
                Ok(n)
            },
            Err(e) => Err(e),
        }
    }

    /// Writes all of `data`, as `write` does.
    pub fn write_all(&mut self, fs: &mut Filesystem, data: &[u8]) -> (r: VfsResult<()>)
        requires
            old(fs).wf(),
        ensures
            final(fs).wf(),
            match r {
                Ok(_) => {
                    &&& old(self).write_error(old(fs)@, data@.len()) is None
                    &&& final(fs)@ == old(fs)@.with_content(
                        old(self).node,
                        written(
                            old(fs)@.content(old(self).node),
                            old(self).write_offset(old(fs)@) as int,
                            data@,
                        ),
                    )
                    &&& *final(self) == (File {
                        position: (old(self).write_offset(old(fs)@) + data@.len()) as u64,
                        ..*old(self)
                    })
                },
                Err(e) => {
                    &&& old(self).write_error(old(fs)@, data@.len()) == Some(e)
                    &&& final(fs)@ == old(fs)@
                    &&& *final(self) == *old(self)
                },
            },
    {
        match self.write(fs, data) {
            Ok(_) => Ok(()),
            Err(e) => Err(e),
        }
    }

    /// Moves the cursor and returns where it stands then.
    ///
    /// The place may lie behind the end of the file; the next write fills
    /// the gap. A place before the start, or beyond what an offset can
    /// say, is refused with `InvalidInput`, and the cursor stays.
    pub fn seek(&mut self, fs: &Filesystem, pos: SeekFrom) -> (r: VfsResult<u64>)
        ensures
            match r {
                Ok(at) => {
                    &&& old(self).node.index < fs@.nodes.len()
                    &&& at == seek_target(
                        old(self).position,
                        fs@.nodes[old(self).node.index as int].meta.size,
                        pos,
                    )
                    &&& *final(self) == (File { position: at, ..*old(self) })
                },
                Err(e) => {
                    &&& *final(self) == *old(self)
                    &&& if old(self).node.index >= fs@.nodes.len() {
                        e == VfsError::NotFound
                    } else {
                        let target = seek_target(
                            old(self).position,
                            fs@.nodes[old(self).node.index as int].meta.size,
                            pos,
                        );
                        e == VfsError::InvalidInput && (target < 0 || target > u64::MAX)
                    }
                },
            },
    {
        let size: u64 = match fs.node_metadata(self.node) {
            Ok(meta) => meta.size,
            Err(e) => {
                return Err(e);
            },
        };
        let target: Option<u64> = match pos {
            SeekFrom::Start(offset) => Some(offset),
            SeekFrom::Current(delta) => offset_by(self.position, delta),
            SeekFrom::End(delta) => offset_by(size, delta),
        };
        match target {
            Some(at) => {
                self.position = at;
                Ok(at)
            },
            None => Err(VfsError::InvalidInput),
        }
    }

    /// Returns a snapshot of the metadata of the file.
    pub fn metadata(&self, fs: &Filesystem) -> (r: VfsResult<Metadata>)
        ensures
            match r {
                Ok(meta) => self.node.index < fs@.nodes.len() && meta == fs@.nodes[self.node.index
                    as int].meta,
                Err(e) => self.node.index >= fs@.nodes.len() && e == VfsError::NotFound,
            },
    {
        fs.node_metadata(self.node)
    }

    /// Makes sure that what was written is stored. Everything written is
    /// stored at once, whether `data_only` or not: nothing is left to do.
    pub fn sync(&self, fs: &Filesystem, data_only: bool) -> (r: VfsResult<()>)
        ensures
            match r {
                Ok(_) => self.node.index < fs@.nodes.len(),
                Err(e) => self.node.index >= fs@.nodes.len() && e == VfsError::NotFound,
            },
    {
        match fs.node_metadata(self.node) {
            Ok(_) => Ok(()),
            Err(e) => Err(e),
        }
    }
}

/// How a path is to be opened.
#[derive(Clone, Copy, Debug, PartialEq, Eq, Structural)]
pub struct OpenOptions {
    /// Open for reading.
    pub read: bool,
    /// Open for writing.
    pub write: bool,
    /// Open for writing at the end.
    pub append: bool,
    /// Empty the file on opening.
    pub truncate: bool,
    /// Make the file where there is none.
    pub create: bool,
    /// Make the file, and fail where there is one.
    pub create_new: bool,
    /// Open a directory and nothing else.
    pub directory: bool,
    /// Open for execution; recorded and not looked at.
    pub execute: bool,
    /// The mode of a file that the open makes.
    pub mode: NodePermission,
}

/// What an open gives: a file with a cursor, or a directory.
#[derive(Clone, Copy, Debug, PartialEq, Eq, Structural)]
pub enum OpenResult {
    File(File),
    Dir(Location),
}

impl OpenResult {
    /// Returns the file, or fails with `IsADirectory`.
    pub fn into_file(self) -> (r: VfsResult<File>)
        ensures
            r == match self {
                OpenResult::File(file) => Ok::<File, VfsError>(file),
                OpenResult::Dir(_) => Err::<File, VfsError>(VfsError::IsADirectory),
            },
    {
        match self {
            OpenResult::File(file) => Ok(file),
            OpenResult::Dir(_) => Err(VfsError::IsADirectory),
        }
    }

    /// Returns the directory, or fails with `NotADirectory`.
    pub fn into_dir(self) -> (r: VfsResult<Location>)
        ensures
            r == match self {
                OpenResult::Dir(dir) => Ok::<Location, VfsError>(dir),
                OpenResult::File(_) => Err::<Location, VfsError>(VfsError::NotADirectory),
            },
    {
        match self {
            OpenResult::Dir(dir) => Ok(dir),
            OpenResult::File(_) => Err(VfsError::NotADirectory),
        }
    }
}

impl OpenOptions {
    /// Options that ask for nothing; a file that they were to make would
    /// have the default mode.
    pub open spec fn spec_new() -> OpenOptions {
        OpenOptions {
            read: false,
            write: false,
            append: false,
            truncate: false,
            create: false,
            create_new: false,
            directory: false,
            execute: false,
            mode: NodePermission { bits: crate::types::DEFAULT_PERMISSION },
        }
    }

    /// Returns options that ask for nothing.
    pub fn new() -> (options: OpenOptions)
        ensures
            options == Self::spec_new(),
    {
        OpenOptions {
            read: false,
            write: false,
            append: false,
            truncate: false,
            create: false,
            create_new: false,
            directory: false,
            execute: false,
            mode: NodePermission { bits: crate::types::DEFAULT_PERMISSION },
        }
    }

    /// Sets whether the file is opened for reading.
    pub fn read(&mut self, read: bool) -> (options: &mut OpenOptions)
        ensures
            *options == (OpenOptions { read, ..*old(self) }),
            *final(self) == *final(options),
    {
        self.read = read;
        self
    }

    /// Sets whether the file is opened for writing.
    pub fn write(&mut self, write: bool) -> (options: &mut OpenOptions)
        ensures
            *options == (OpenOptions { write, ..*old(self) }),
            *final(self) == *final(options),
    {
        self.write = write;
        self
    }

    /// Sets whether every write goes to the end of the file.
    pub fn append(&mut self, append: bool) -> (options: &mut OpenOptions)
        ensures
            *options == (OpenOptions { append, ..*old(self) }),
            *final(self) == *final(options),
    {
        self.append = append;
        self
    }

    /// Sets whether the file is emptied on opening.
    pub fn truncate(&mut self, truncate: bool) -> (options: &mut OpenOptions)
        ensures
            *options == (OpenOptions { truncate, ..*old(self) }),
            *final(self) == *final(options),
    {
        self.truncate = truncate;
        self
    }

    /// Sets whether the file is made where there is none.
    pub fn create(&mut self, create: bool) -> (options: &mut OpenOptions)
        ensures
            *options == (OpenOptions { create, ..*old(self) }),
            *final(self) == *final(options),
    {
        self.create = create;
        self
    }

    /// Sets whether the file must be made, so that an existing one is an
    /// error.
    pub fn create_new(&mut self, create_new: bool) -> (options: &mut OpenOptions)
        ensures
            *options == (OpenOptions { create_new, ..*old(self) }),
            *final(self) == *final(options),
    {
        self.create_new = create_new;
        self
    }

    /// Sets whether only a directory is opened.
    pub fn directory(&mut self, directory: bool) -> (options: &mut OpenOptions)
        ensures
            *options == (OpenOptions { directory, ..*old(self) }),
            *final(self) == *final(options),
    {
        self.directory = directory;
        self
    }

    /// Sets whether the file is opened for execution.
    pub fn execute(&mut self, execute: bool) -> (options: &mut OpenOptions)
        ensures
            *options == (OpenOptions { execute, ..*old(self) }),
            *final(self) == *final(options),
    {
        self.execute = execute;
        self
    }

    /// Sets the mode of a file that the open makes.
    pub fn mode(&mut self, mode: NodePermission) -> (options: &mut OpenOptions)
        ensures
            *options == (OpenOptions { mode, ..*old(self) }),
            *final(self) == *final(options),
    {
        self.mode = mode;
        self
    }

    /// The access that a file opened with these options gives.
    pub open spec fn flags(self) -> FileFlags {
        FileFlags { read: self.read, write: self.write || self.append, append: self.append }
    }

    /// Whether these options make a file where there is none.
    pub open spec fn creates(self) -> bool {
        self.create || self.create_new
    }

    /// The file that these options open on `node`.
    pub open spec fn file_on(self, node: NodeId) -> OpenResult {
        OpenResult::File(File { node, flags: self.flags(), position: 0 })
    }

    /// Whether `r` and `after` are what opening the entry `loc` of
    /// `before` gives.
    pub open spec fn opens_existing(
        self,
        before: FsView,
        loc: Location,
        after: FsView,
        r: VfsResult<OpenResult>,
    ) -> bool {
        let node = NodeId { index: before.entries[loc.index as int].node };
        if self.create_new {
            r == Err::<OpenResult, VfsError>(VfsError::AlreadyExists) && after == before
        } else if !before.valid(loc) {
            r == Err::<OpenResult, VfsError>(VfsError::NotFound) && after == before
        } else if before.is_dir(loc) {
            after == before && r == if self.truncate {
                Err::<OpenResult, VfsError>(VfsError::IsADirectory)
            } else {
                Ok::<OpenResult, VfsError>(OpenResult::Dir(loc))
            }
        } else if self.directory {
            r == Err::<OpenResult, VfsError>(VfsError::NotADirectory) && after == before
        } else {
            r == Ok::<OpenResult, VfsError>(self.file_on(node)) && after == if self.truncate
                && self.flags().write {
                before.with_content(node, Seq::empty())
            } else {
                before
            }
        }
    }

    /// Whether `r` and `after` are what making and opening the file that
    /// `components` name in `before` gives.
    pub open spec fn opens_new(
        self,
        context: FsContext,
        before: FsView,
        components: Seq<ComponentView>,
        after: FsView,
        r: VfsResult<OpenResult>,
    ) -> bool {
        match context.spec_resolve_nonexistent(before, components) {
            Err(e) => r == Err::<OpenResult, VfsError>(e) && after == before,
            Ok((dir, name)) => if self.directory {
                r == Err::<OpenResult, VfsError>(VfsError::NotADirectory) && after == before
            } else {
                match r {
                    Ok(opened) => before.creates(
                        dir,
                        name,
                        NodeType::RegularFile,
                        self.mode,
                        after,
                        Ok(Location { index: before.entries.len() as usize }),
                    ) && opened == self.file_on(NodeId { index: before.nodes.len() as usize }),
                    Err(e) => before.creates(
                        dir,
                        name,
                        NodeType::RegularFile,
                        self.mode,
                        after,
                        Err(e),
                    ),
                }
            },
        }
    }

    /// Whether `r` and `after` are what opening the path `components` in
    /// `before` gives.
    pub open spec fn opens(
        self,
        context: FsContext,
        before: FsView,
        components: Seq<ComponentView>,
        after: FsView,
        r: VfsResult<OpenResult>,
    ) -> bool {
        match context.spec_resolve(before, components) {
            Ok(loc) => self.opens_existing(before, loc, after, r),
            Err(e) => if e == VfsError::NotFound && self.creates() {
                self.opens_new(context, before, components, after, r)
            } else {
                r == Err::<OpenResult, VfsError>(e) && after == before
            },
        }
    }

    /// Opens the path that is given by its components.
    ///
    /// What exists is opened, unless the options ask for a new file: a
    /// directory as a directory, which cannot be emptied, and a file as a
    /// file, which is emptied where the options say so and give write
    /// access. What does not exist is made as an empty file, with the
    /// mode of the options, where the options say so.
    pub fn open_components(
        &self,
        context: &FsContext,
        fs: &mut Filesystem,
        parsed: &Vec<Component>,
    ) -> (r: VfsResult<OpenResult>)
        requires
            old(fs).wf(),
        ensures
            final(fs).wf(),
            self.opens(*context, old(fs)@, component_views(parsed@), final(fs)@, r),
    {
        let flags = FileFlags {
            read: self.read,
            write: self.write || self.append,
            append: self.append,
        };
        match context.resolve_components(fs, parsed) {
            Ok(loc) => {
                if self.create_new {
                    return Err(VfsError::AlreadyExists);
                }
                let node = match fs.node_id(loc) {
                    Ok(node) => node,
                    Err(e) => {
                        return Err(e);
                    },
                };
                if fs.is_dir(loc) {
                    if self.truncate {
                        return Err(VfsError::IsADirectory);
                    }
                    return Ok(OpenResult::Dir(loc));
                }
                if self.directory {
                    return Err(VfsError::NotADirectory);
                }
                if self.truncate && flags.write {
                    match fs.set_len(node, 0) {
                        Ok(_) => {
                            proof {
                                assert(crate::model::resized(old(fs)@.content(node), 0)
                                    =~= Seq::<u8>::empty());
                            }
                        },
                        Err(e) => {
                            return Err(e);
                        },
                    }
                }
                Ok(OpenResult::File(File::new(node, flags)))
            },
            Err(e) => {
                let creates = self.create || self.create_new;
                match e {
                    VfsError::NotFound => {},
                    _ => {
                        return Err(e);
                    },
                }
                if !creates {
                    return Err(e);
                }
                let (dir, name) = match context.resolve_nonexistent_components(fs, parsed) {
                    Ok(found) => found,
                    Err(e) => {
                        return Err(e);
                    },
                };
                if self.directory {
                    return Err(VfsError::NotADirectory);
                }
                let node = NodeId { index: fs.node_count() };
                match fs.create(dir, name.as_str(), NodeType::RegularFile, self.mode) {
                    Ok(_) => Ok(OpenResult::File(File::new(node, flags))),
                    Err(e) => Err(e),
                }
            },
        }
    }

    /// Opens `path`, as `open_components` opens its components.
    pub fn open(&self, context: &FsContext, fs: &mut Filesystem, path: &str) -> (r: VfsResult<
        OpenResult,
    >)
        requires
            old(fs).wf(),
        ensures
            final(fs).wf(),
            self.opens(*context, old(fs)@, path_components(path@), final(fs)@, r),
    {
        let parsed = components(path);
        self.open_components(context, fs, &parsed)
    }
}

} // verus!
